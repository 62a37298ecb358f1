//! The command line: `<program> --cli <command> <arguments> [--json]
//! [--quiet] [--dry-run]`.
use vstd::prelude::*;
use crate::cleaner::{CleanItem, CleanPreview};
use crate::risk::{RiskItem, RiskLevel};
use crate::scanner::upper_drive_letter;
use crate::text::{concat, has_prefix, owned, str_eq, str_starts_with, unicode_upper};

verus! {

#[derive(Debug, Clone, PartialEq)]
pub enum CliCommand {
    Scan { drive: String },
    Duplicates { drive: String },
    Health { drive: String },
    CleanLow { drive: String },
    Export { drive: String, format: String, report_type: String },
}

#[derive(Debug, Clone, PartialEq)]
pub struct CliOptions {
    pub json: bool,
    pub quiet: bool,
    pub dry_run: bool,
    pub command: Option<CliCommand>,
}

pub open spec fn views(args: Seq<String>) -> Seq<Seq<char>> {
    args.map_values(|a: String| a@)
}

/// Some argument is exactly `flag`.
pub open spec fn has_flag(args: Seq<Seq<char>>, flag: Seq<char>) -> bool {
    exists|i: int| 0 <= i < args.len() && #[trigger] args[i] == flag
}

/// The arguments after the first two that are not options, in order.
pub open spec fn positionals(args: Seq<Seq<char>>, n: int) -> Seq<Seq<char>>
    decreases n,
{
    if n <= 2 || n > args.len() {
        Seq::empty()
    } else if has_prefix(args[n - 1], "--"@) {
        positionals(args, n - 1)
    } else {
        positionals(args, n - 1).push(args[n - 1])
    }
}

pub open spec fn missing_argument_message(name: Seq<char>) -> Seq<char> {
    "Missing required argument: "@ + name
}

pub open spec fn unknown_command_message(c: Seq<char>) -> Seq<char> {
    "Unknown CLI command: "@ + c
}

pub open spec fn missing_command_message() -> Seq<char> {
    "Missing CLI command"@
}

/// The command the positional arguments name, with its arguments as plain
/// text, or the error message.
pub open spec fn command_of(p: Seq<Seq<char>>) -> Result<(Seq<char>, Seq<Seq<char>>), Seq<char>> {
    if p.len() == 0 {
        Err(missing_command_message())
    } else {
        let c = p[0];
        if c == "scan"@ || c == "duplicates"@ || c == "health"@ || c == "clean"@ {
            if p.len() < 2 {
                Err(missing_argument_message("drive"@))
            } else {
                Ok((c, seq![p[1]]))
            }
        } else if c == "export"@ {
            if p.len() < 2 {
                Err(missing_argument_message("drive"@))
            } else if p.len() < 3 {
                Err(missing_argument_message("format"@))
            } else if p.len() < 4 {
                Err(missing_argument_message("type"@))
            } else {
                Ok((c, seq![p[1], p[2], p[3]]))
            }
        } else {
            Err(unknown_command_message(c))
        }
    }
}

/// A command and its arguments, as plain text.
pub open spec fn command_view(c: CliCommand) -> (Seq<char>, Seq<Seq<char>>) {
    match c {
        CliCommand::Scan { drive } => ("scan"@, seq![drive@]),
        CliCommand::Duplicates { drive } => ("duplicates"@, seq![drive@]),
        CliCommand::Health { drive } => ("health"@, seq![drive@]),
        CliCommand::CleanLow { drive } => ("clean"@, seq![drive@]),
        CliCommand::Export { drive, format, report_type } => ("export"@, seq![drive@, format@, report_type@]),
    }
}

fn has_arg(args: &[String], flag: &str) -> (r: bool)
    ensures
        r == has_flag(views(args@), flag@),
{
    let mut i: usize = 0;
    while i < args.len()
        invariant
            i <= args@.len(),
            forall|k: int| 0 <= k < i ==> views(args@)[k] != flag@,
        decreases args.len() - i,
    {
        if str_eq(args[i].as_str(), flag) {
            assert(views(args@)[i as int] == flag@);
            return true;
        }
        i = i + 1;
    }
    false
}

fn positional_args(args: &[String]) -> (r: Vec<String>)
    ensures
        views(r@) == positionals(views(args@), args@.len() as int),
{
    let mut out: Vec<String> = Vec::new();
    if args.len() <= 2 {
        return out;
    }
    let mut i: usize = 2;
    assert(views(out@) =~= positionals(views(args@), 2));
    while i < args.len()
        invariant
            2 <= i <= args@.len(),
            views(out@) == positionals(views(args@), i as int),
        decreases args.len() - i,
    {
        proof {
            reveal_strlit("--");
        }
        if !str_starts_with(args[i].as_str(), "--") {
            let ghost before = views(out@);
            out.push(args[i].clone());
            assert(views(out@) =~= before.push(views(args@)[i as int]));
        }
        i = i + 1;
    }
    out
}

fn positional_arg(args: &Vec<String>, index: usize, name: &str) -> (r: Result<String, String>)
    ensures
        index < args@.len() ==> (r matches Ok(s) && s@ == args@[index as int]@),
        index >= args@.len() ==> (r matches Err(e) && e@ == missing_argument_message(name@)),
{
    if index < args.len() {
        Ok(args[index].clone())
    } else {
        Err(concat("Missing required argument: ", name))
    }
}

/// Read the command line. Without `--cli` as the first argument the program
/// starts normally (`None`); otherwise the options and the command they
/// name, or why the command line is refused.
pub fn parse_cli_args(args: &[String]) -> (r: Result<Option<CliOptions>, String>)
    ensures
        !(args@.len() > 1 && args@[1]@ == "--cli"@) ==> r == Ok::<Option<CliOptions>, String>(None),
        args@.len() > 1 && args@[1]@ == "--cli"@ ==> match command_of(
            positionals(views(args@), args@.len() as int),
        ) {
            Err(e) => r matches Err(m) && m@ == e,
            Ok(c) => r matches Ok(Some(o)) && {
                &&& o.json == has_flag(views(args@), "--json"@)
                &&& o.quiet == has_flag(views(args@), "--quiet"@)
                &&& o.dry_run == has_flag(views(args@), "--dry-run"@)
                &&& o.command matches Some(cmd) && command_view(cmd) == c
            },
        },
{
    proof {
        reveal_strlit("--cli");
        reveal_strlit("scan");
        reveal_strlit("duplicates");
        reveal_strlit("health");
        reveal_strlit("clean");
        reveal_strlit("export");
        reveal_strlit("drive");
        reveal_strlit("format");
        reveal_strlit("type");
    }
    if !(args.len() > 1 && str_eq(args[1].as_str(), "--cli")) {
        return Ok(None);
    }
    let json = has_arg(args, "--json");
    let quiet = has_arg(args, "--quiet");
    let dry_run = has_arg(args, "--dry-run");
    let positional = positional_args(args);
    let ghost pv = views(positional@);
    if positional.len() == 0 {
        return Err(owned("Missing CLI command"));
    }
    assert(pv[0] == positional@[0]@);
    let c = positional[0].as_str();
    let command = if str_eq(c, "scan") {
        CliCommand::Scan { drive: positional_arg(&positional, 1, "drive")? }
    } else if str_eq(c, "duplicates") {
        CliCommand::Duplicates { drive: positional_arg(&positional, 1, "drive")? }
    } else if str_eq(c, "health") {
        CliCommand::Health { drive: positional_arg(&positional, 1, "drive")? }
    } else if str_eq(c, "clean") {
        CliCommand::CleanLow { drive: positional_arg(&positional, 1, "drive")? }
    } else if str_eq(c, "export") {
        let drive = positional_arg(&positional, 1, "drive")?;
        let format = positional_arg(&positional, 2, "format")?;
        let report_type = positional_arg(&positional, 3, "type")?;
        assert(pv[1] == positional@[1]@ && pv[2] == positional@[2]@ && pv[3] == positional@[3]@);
        CliCommand::Export { drive, format, report_type }
    } else {
        return Err(concat("Unknown CLI command: ", c));
    };
    proof {
        if positional@.len() > 1 {
            assert(pv[1] == positional@[1]@);
        }
    }
    Ok(Some(CliOptions { json, quiet, dry_run, command: Some(command) }))
}

// ── Running a command ──────────────────────────────────────

/// The exit status of a command that failed: 2 for a scan, a health check or
/// a cleanup, 1 for the others.
pub open spec fn failure_status(command: CliCommand) -> i32 {
    match command {
        CliCommand::Scan { .. } | CliCommand::Health { .. } | CliCommand::CleanLow { .. } => 2,
        _ => 1,
    }
}

/// The exit status of a failed command.
pub fn error_exit_code(command: &CliCommand) -> (r: i32)
    ensures
        r == failure_status(*command),
{
    match command {
        CliCommand::Scan { .. } => 2,
        CliCommand::Health { .. } => 2,
        CliCommand::CleanLow { .. } => 2,
        _ => 1,
    }
}

/// Options without a command exit with this status.
pub const NO_COMMAND_EXIT: i32 = 3;

/// A cleanup exits with 1 when any item failed, else 0.
pub fn clean_exit_code(failed: usize) -> (r: i32)
    ensures
        r == (if failed > 0 { 1i32 } else { 0i32 }),
{
    if failed > 0 {
        1
    } else {
        0
    }
}

/// The reports that `export` writes.
#[derive(Debug, Clone, Copy, PartialEq, Eq, Structural)]
pub enum ExportKind {
    Scan,
    Cleanup,
    Duplicates,
}

pub open spec fn unsupported_export_message(report_type: Seq<char>) -> Seq<char> {
    "Unsupported export type: "@ + report_type
}

/// The report an `export` asks for: `scan`, `cleanup` or `duplicates`.
pub fn export_kind(report_type: &str) -> (r: Result<ExportKind, String>)
    ensures
        report_type@ == "scan"@ <==> r == Ok::<ExportKind, String>(ExportKind::Scan),
        report_type@ == "cleanup"@ <==> r == Ok::<ExportKind, String>(ExportKind::Cleanup),
        report_type@ == "duplicates"@ <==> r == Ok::<ExportKind, String>(ExportKind::Duplicates),
        r matches Err(e) ==> e@ == unsupported_export_message(report_type@),
{
    proof {
        reveal_strlit("scan");
        reveal_strlit("cleanup");
        reveal_strlit("duplicates");
        assert("scan"@.len() != "cleanup"@.len());
        assert("scan"@.len() != "duplicates"@.len());
        assert("cleanup"@.len() != "duplicates"@.len());
    }
    if str_eq(report_type, "scan") {
        Ok(ExportKind::Scan)
    } else if str_eq(report_type, "cleanup") {
        Ok(ExportKind::Cleanup)
    } else if str_eq(report_type, "duplicates") {
        Ok(ExportKind::Duplicates)
    } else {
        Err(concat("Unsupported export type: ", report_type))
    }
}

/// The cleanup candidates of a risk report: the items marked safe to delete
/// and of low risk, in report order.
pub open spec fn low_safe_candidates(items: Seq<RiskItem>) -> Seq<CleanItem>
    decreases items.len(),
{
    if items.len() == 0 {
        Seq::empty()
    } else {
        let r = low_safe_candidates(items.drop_last());
        let it = items.last();
        if it.safe_to_delete && it.risk_level == RiskLevel::Low {
            r.push(CleanItem::from_risk(it))
        } else {
            r
        }
    }
}

/// The items that `clean-low` removes.
pub fn clean_low_candidates(items: &Vec<RiskItem>) -> (r: Vec<CleanItem>)
    ensures
        r@ == low_safe_candidates(items@),
{
    let mut out: Vec<CleanItem> = Vec::new();
    let mut i: usize = 0;
    while i < items.len()
        invariant
            i <= items@.len(),
            out@ == low_safe_candidates(items@.take(i as int)),
        decreases items.len() - i,
    {
        assert(items@.take(i + 1).drop_last() =~= items@.take(i as int));
        assert(items@.take(i + 1).last() == items@[i as int]);
        let it = &items[i];
        if it.safe_to_delete && it.risk_level == RiskLevel::Low {
            out.push(CleanItem::from(it));
        }
        i = i + 1;
    }
    assert(items@.take(items@.len() as int) =~= items@);
    out
}

/// What a `clean-low --dry-run` prints.
#[derive(Debug, Clone)]
pub struct CliCleanPreview {
    pub drive: String,
    pub dry_run: bool,
    pub candidate_count: usize,
    pub estimated_bytes: u64,
    pub items: Vec<CleanItem>,
}

/// The dry-run payload of a cleanup preview.
pub fn clean_preview_payload(drive: &str, preview: CleanPreview) -> (r: CliCleanPreview)
    ensures
        r.drive@ == unicode_upper(drive@),
        r.dry_run,
        r.candidate_count == preview.accepted@.len(),
        r.estimated_bytes == preview.validation.total_bytes,
        r.items == preview.accepted,
{
    let count = preview.accepted.len();
    CliCleanPreview {
        drive: upper_drive_letter(drive),
        dry_run: true,
        candidate_count: count,
        estimated_bytes: preview.validation.total_bytes,
        items: preview.accepted,
    }
}

} // verus!
