//! Report export: the formats, CSV text for scan reports, cleanup history
//! and duplicate groups, and the name of the written file.
use vstd::prelude::*;
use crate::db::CleanupLog;
use crate::duplicates::DuplicateGroup;
use crate::risk::{RiskReport, level_name};
use crate::text::{
    chars_of, concat, decimal, ascii_lower, has_sub, owned, str_eq, string_of, to_ascii_lower,
    u64_to_string,
};

verus! {

#[derive(Debug, Clone, Copy, PartialEq, Eq, Structural)]
pub enum ReportFormat {
    Csv,
    Json,
}

impl ReportFormat {
    /// `csv` or `json`, in any ASCII case.
    pub fn parse(value: &str) -> (r: Option<ReportFormat>)
        ensures
            r == (if ascii_lower(value@) == "csv"@ {
                Some(ReportFormat::Csv)
            } else if ascii_lower(value@) == "json"@ {
                Some(ReportFormat::Json)
            } else {
                None
            }),
    {
        let cs = chars_of(value);
        let low = to_ascii_lower(cs.as_slice());
        let s = string_of(low.as_slice());
        if str_eq(s.as_str(), "csv") {
            Some(ReportFormat::Csv)
        } else if str_eq(s.as_str(), "json") {
            Some(ReportFormat::Json)
        } else {
            None
        }
    }

    pub fn extension(self) -> (r: &'static str)
        ensures
            r@ == (match self {
                ReportFormat::Csv => "csv"@,
                ReportFormat::Json => "json"@,
            }),
    {
        proof {
            reveal_strlit("csv");
            reveal_strlit("json");
        }
        match self {
            ReportFormat::Csv => "csv",
            ReportFormat::Json => "json",
        }
    }
}

/// Every double quote doubled.
pub open spec fn double_quotes(s: Seq<char>) -> Seq<char>
    decreases s.len(),
{
    if s.len() == 0 {
        Seq::empty()
    } else if s.last() == '"' {
        double_quotes(s.drop_last()) + seq!['"', '"']
    } else {
        double_quotes(s.drop_last()).push(s.last())
    }
}

/// A CSV field: quoted, with quotes doubled, when it holds a comma, a quote
/// or a line break.
pub open spec fn csv_field(s: Seq<char>) -> Seq<char> {
    if has_sub(s, seq![',']) || has_sub(s, seq!['"']) || has_sub(s, seq!['\n']) {
        seq!['"'] + double_quotes(s) + seq!['"']
    } else {
        s
    }
}

pub fn csv_escape(value: &str) -> (r: String)
    ensures
        r@ == csv_field(value@),
{
    let cs = chars_of(value);
    let mut special = false;
    let mut i: usize = 0;
    while i < cs.len()
        invariant
            cs@ == value@,
            i <= cs@.len(),
            special == (exists|k: int| 0 <= k < i && (cs@[k] == ',' || cs@[k] == '"' || cs@[k] == '\n')),
        decreases cs.len() - i,
    {
        let c = cs[i];
        if c == ',' || c == '"' || c == '\n' {
            special = true;
        }
        i = i + 1;
    }
    proof {
        lemma_single_sub(value@, ',');
        lemma_single_sub(value@, '"');
        lemma_single_sub(value@, '\n');
    }
    if !special {
        return owned(value);
    }
    let mut out: Vec<char> = Vec::new();
    out.push('"');
    let mut k: usize = 0;
    while k < cs.len()
        invariant
            cs@ == value@,
            k <= cs@.len(),
            out@ == seq!['"'] + double_quotes(cs@.take(k as int)),
        decreases cs.len() - k,
    {
        assert(cs@.take(k + 1).drop_last() =~= cs@.take(k as int));
        if cs[k] == '"' {
            out.push('"');
            out.push('"');
        } else {
            out.push(cs[k]);
        }
        assert(out@ =~= seq!['"'] + double_quotes(cs@.take(k + 1)));
        k = k + 1;
    }
    out.push('"');
    assert(cs@.take(k as int) =~= cs@);
    string_of(out.as_slice())
}

proof fn lemma_single_sub(s: Seq<char>, c: char)
    ensures
        has_sub(s, seq![c]) <==> exists|k: int| 0 <= k < s.len() && s[k] == c,
{
    if has_sub(s, seq![c]) {
        let i = choose|i: int| crate::text::occurs_at(s, seq![c], i);
        assert(s.subrange(i, i + 1)[0] == s[i]);
    }
    if exists|k: int| 0 <= k < s.len() && s[k] == c {
        let k = choose|k: int| 0 <= k < s.len() && s[k] == c;
        assert(s.subrange(k, k + 1) =~= seq![c]);
        assert(crate::text::occurs_at(s, seq![c], k));
    }
}

/// Lines joined with line breaks.
pub open spec fn joined(rows: Seq<Seq<char>>) -> Seq<char>
    decreases rows.len(),
{
    if rows.len() == 0 {
        Seq::empty()
    } else if rows.len() == 1 {
        rows[0]
    } else {
        joined(rows.drop_last()) + seq!['\n'] + rows.last()
    }
}

pub open spec fn bool_text(b: bool) -> Seq<char> {
    if b { "true"@ } else { "false"@ }
}

/// `n` in decimal, with a minus sign when negative.
pub open spec fn signed_decimal(n: i64) -> Seq<char> {
    if n < 0 { seq!['-'] + decimal((-(n as int)) as nat) } else { decimal(n as nat) }
}

fn i64_text(n: i64) -> (r: String)
    ensures
        r@ == signed_decimal(n),
{
    if n < 0 {
        let m: u64 = if n == i64::MIN { 9223372036854775808u64 } else { (-n) as u64 };
        let d = u64_to_string(m);
        let r = concat("-", d.as_str());
        proof {
            reveal_strlit("-");
        }
        r
    } else {
        u64_to_string(n as u64)
    }
}

fn push_text(out: &mut Vec<char>, s: &str)
    ensures
        final(out)@ == old(out)@ + s@,
{
    let cs = chars_of(s);
    let mut i: usize = 0;
    let ghost start = out@;
    while i < cs.len()
        invariant
            cs@ == s@,
            i <= cs@.len(),
            out@ == start + cs@.take(i as int),
        decreases cs.len() - i,
    {
        out.push(cs[i]);
        assert(cs@.take(i + 1) =~= cs@.take(i as int).push(cs@[i as int]));
        i = i + 1;
    }
    assert(cs@.take(i as int) =~= cs@);
}

pub open spec fn risk_row(it: crate::risk::RiskItem) -> Seq<char> {
    csv_field(it.name@) + seq![','] + csv_field(it.path@) + seq![','] + decimal(it.size_bytes as nat) + seq![',']
        + level_name(it.risk_level) + seq![','] + bool_text(it.safe_to_delete) + seq![','] + csv_field(it.category@)
}

pub open spec fn risk_header() -> Seq<char> {
    "name,path,size_bytes,risk_level,safe_to_delete,category"@
}

fn bool_str(b: bool) -> (r: &'static str)
    ensures
        r@ == bool_text(b),
{
    proof {
        reveal_strlit("true");
        reveal_strlit("false");
    }
    if b {
        "true"
    } else {
        "false"
    }
}

/// The rows of a risk report as CSV: a header, then one row per item.
pub open spec fn risk_rows(report: RiskReport) -> Seq<Seq<char>> {
    seq![risk_header()] + report.items@.map_values(|it: crate::risk::RiskItem| risk_row(it))
}

fn risk_row_text(it: &crate::risk::RiskItem) -> (r: String)
    ensures
        r@ == risk_row(*it),
{
    let mut out: Vec<char> = Vec::new();
    let a = csv_escape(it.name.as_str());
    push_text(&mut out, a.as_str());
    out.push(',');
    let b = csv_escape(it.path.as_str());
    push_text(&mut out, b.as_str());
    out.push(',');
    let c = u64_to_string(it.size_bytes);
    push_text(&mut out, c.as_str());
    out.push(',');
    push_text(&mut out, it.risk_level.as_str());
    out.push(',');
    push_text(&mut out, bool_str(it.safe_to_delete));
    out.push(',');
    let d = csv_escape(it.category.as_str());
    push_text(&mut out, d.as_str());
    assert(out@ =~= risk_row(*it));
    string_of(out.as_slice())
}

pub fn risk_report_to_csv(report: &RiskReport) -> (r: String)
    ensures
        r@ == joined(risk_rows(*report)),
{
    let ghost rows = risk_rows(*report);
    let mut out: Vec<char> = Vec::new();
    push_text(&mut out, "name,path,size_bytes,risk_level,safe_to_delete,category");
    assert(out@ =~= joined(rows.take(1)));
    let mut i: usize = 0;
    while i < report.items.len()
        invariant
            rows == risk_rows(*report),
            i <= report.items@.len(),
            out@ == joined(rows.take(i + 1)),
        decreases report.items.len() - i,
    {
        let row = risk_row_text(&report.items[i]);
        out.push('\n');
        push_text(&mut out, row.as_str());
        assert(rows.take(i + 2).drop_last() =~= rows.take(i + 1));
        assert(rows[i + 1] == risk_row(report.items@[i as int]));
        i = i + 1;
    }
    assert(rows.take(i + 1) =~= rows);
    string_of(out.as_slice())
}

pub open spec fn history_header() -> Seq<char> {
    "id,created_at,item_count,freed_bytes,succeeded,skipped,failed"@
}

pub open spec fn history_row(l: CleanupLog) -> Seq<char> {
    signed_decimal(l.id) + seq![','] + csv_field(l.created_at@) + seq![','] + decimal(l.item_count as nat)
        + seq![','] + decimal(l.freed_bytes as nat) + seq![','] + decimal(l.succeeded as nat) + seq![',']
        + decimal(l.skipped as nat) + seq![','] + decimal(l.failed as nat)
}

pub open spec fn history_rows(history: Seq<CleanupLog>) -> Seq<Seq<char>> {
    seq![history_header()] + history.map_values(|l: CleanupLog| history_row(l))
}

fn history_row_text(l: &CleanupLog) -> (r: String)
    ensures
        r@ == history_row(*l),
{
    let mut out: Vec<char> = Vec::new();
    let a = i64_text(l.id);
    push_text(&mut out, a.as_str());
    out.push(',');
    let b = csv_escape(l.created_at.as_str());
    push_text(&mut out, b.as_str());
    out.push(',');
    let c = u64_to_string(l.item_count as u64);
    push_text(&mut out, c.as_str());
    out.push(',');
    let d = u64_to_string(l.freed_bytes);
    push_text(&mut out, d.as_str());
    out.push(',');
    let e = u64_to_string(l.succeeded as u64);
    push_text(&mut out, e.as_str());
    out.push(',');
    let f = u64_to_string(l.skipped as u64);
    push_text(&mut out, f.as_str());
    out.push(',');
    let g = u64_to_string(l.failed as u64);
    push_text(&mut out, g.as_str());
    assert(out@ =~= history_row(*l));
    string_of(out.as_slice())
}

pub fn cleanup_history_to_csv(history: &Vec<CleanupLog>) -> (r: String)
    ensures
        r@ == joined(history_rows(history@)),
{
    let ghost rows = history_rows(history@);
    let mut out: Vec<char> = Vec::new();
    push_text(&mut out, "id,created_at,item_count,freed_bytes,succeeded,skipped,failed");
    assert(out@ =~= joined(rows.take(1)));
    let mut i: usize = 0;
    while i < history.len()
        invariant
            rows == history_rows(history@),
            i <= history@.len(),
            out@ == joined(rows.take(i + 1)),
        decreases history.len() - i,
    {
        let row = history_row_text(&history[i]);
        out.push('\n');
        push_text(&mut out, row.as_str());
        assert(rows.take(i + 2).drop_last() =~= rows.take(i + 1));
        i = i + 1;
    }
    assert(rows.take(i + 1) =~= rows);
    string_of(out.as_slice())
}

pub open spec fn duplicates_header() -> Seq<char> {
    "group_id,path,size_bytes,wasted_group_bytes"@
}

pub open spec fn duplicate_row(g: DuplicateGroup, f: crate::scanner::FileEntry) -> Seq<char> {
    csv_field(g.group_id@) + seq![','] + csv_field(f.path@) + seq![','] + decimal(f.size_bytes as nat) + seq![',']
        + decimal(g.total_size_wasted as nat)
}

/// The rows for the first `n` groups, one per file.
pub open spec fn duplicate_rows(groups: Seq<DuplicateGroup>, n: int) -> Seq<Seq<char>>
    decreases n,
{
    if n <= 0 {
        seq![duplicates_header()]
    } else {
        duplicate_rows(groups, n - 1) + groups[n - 1].files@.map_values(
            |f: crate::scanner::FileEntry| duplicate_row(groups[n - 1], f),
        )
    }
}

fn duplicate_row_text(g: &DuplicateGroup, f: &crate::scanner::FileEntry) -> (r: String)
    ensures
        r@ == duplicate_row(*g, *f),
{
    let mut out: Vec<char> = Vec::new();
    let a = csv_escape(g.group_id.as_str());
    push_text(&mut out, a.as_str());
    out.push(',');
    let b = csv_escape(f.path.as_str());
    push_text(&mut out, b.as_str());
    out.push(',');
    let c = u64_to_string(f.size_bytes);
    push_text(&mut out, c.as_str());
    out.push(',');
    let d = u64_to_string(g.total_size_wasted);
    push_text(&mut out, d.as_str());
    assert(out@ =~= duplicate_row(*g, *f));
    string_of(out.as_slice())
}

proof fn lemma_rows_nonempty(groups: Seq<DuplicateGroup>, n: int)
    ensures
        duplicate_rows(groups, n).len() >= 1,
    decreases n,
{
    if n > 0 {
        lemma_rows_nonempty(groups, n - 1);
    }
}

pub fn duplicates_to_csv(groups: &Vec<DuplicateGroup>) -> (r: String)
    ensures
        r@ == joined(duplicate_rows(groups@, groups@.len() as int)),
{
    let mut out: Vec<char> = Vec::new();
    push_text(&mut out, "group_id,path,size_bytes,wasted_group_bytes");
    assert(out@ =~= joined(duplicate_rows(groups@, 0)));
    let mut i: usize = 0;
    while i < groups.len()
        invariant
            i <= groups@.len(),
            out@ == joined(duplicate_rows(groups@, i as int)),
        decreases groups.len() - i,
    {
        let g = &groups[i];
        let ghost base = duplicate_rows(groups@, i as int);
        let ghost fr = g.files@.map_values(|f: crate::scanner::FileEntry| duplicate_row(*g, f));
        proof {
            lemma_rows_nonempty(groups@, i as int);
        }
        let mut j: usize = 0;
        while j < g.files.len()
            invariant
                j <= g.files@.len(),
                base.len() >= 1,
                fr == g.files@.map_values(|f: crate::scanner::FileEntry| duplicate_row(*g, f)),
                out@ == joined(base + fr.take(j as int)),
            decreases g.files.len() - j,
        {
            let row = duplicate_row_text(g, &g.files[j]);
            out.push('\n');
            push_text(&mut out, row.as_str());
            assert((base + fr.take(j + 1)).drop_last() =~= base + fr.take(j as int));
            assert((base + fr.take(j + 1)).last() == fr[j as int]);
            j = j + 1;
        }
        assert(fr.take(j as int) =~= fr);
        assert(duplicate_rows(groups@, i + 1) =~= base + fr);
        i = i + 1;
    }
    string_of(out.as_slice())
}

pub open spec fn unsupported_format_message() -> Seq<char> {
    "Unsupported format"@
}

/// What an export writes: CSV text made here, or the records serialized as
/// JSON by the caller.
#[derive(Debug, Clone)]
pub enum ReportContent {
    Csv(String),
    Json,
}

/// The cleanup history export for a format name.
pub fn export_cleanup_history(format: &str, history: &Vec<CleanupLog>) -> (r: Result<ReportContent, String>)
    ensures
        match ReportFormat::parse_spec(format@) {
            None => r matches Err(e) && e@ == unsupported_format_message(),
            Some(ReportFormat::Csv) => r matches Ok(ReportContent::Csv(t)) && t@ == joined(history_rows(history@)),
            Some(ReportFormat::Json) => r matches Ok(ReportContent::Json),
        },
{
    match ReportFormat::parse(format) {
        None => Err(owned("Unsupported format")),
        Some(ReportFormat::Csv) => Ok(ReportContent::Csv(cleanup_history_to_csv(history))),
        Some(ReportFormat::Json) => Ok(ReportContent::Json),
    }
}

/// The duplicates export for a format name, from the outcome of the
/// duplicate scan. The format is checked before the scan's outcome.
pub fn export_duplicates(format: &str, groups: Result<Vec<DuplicateGroup>, String>) -> (r: Result<ReportContent, String>)
    ensures
        match ReportFormat::parse_spec(format@) {
            None => r matches Err(e) && e@ == unsupported_format_message(),
            Some(f) => match groups {
                Err(e) => r matches Err(m) && m@ == e@,
                Ok(gs) => match f {
                    ReportFormat::Csv => r matches Ok(ReportContent::Csv(t)) && t@ == joined(
                        duplicate_rows(gs@, gs@.len() as int),
                    ),
                    ReportFormat::Json => r matches Ok(ReportContent::Json),
                },
            },
        },
{
    let f = match ReportFormat::parse(format) {
        None => {
            return Err(owned("Unsupported format"));
        },
        Some(f) => f,
    };
    let gs = groups?;
    match f {
        ReportFormat::Csv => Ok(ReportContent::Csv(duplicates_to_csv(&gs))),
        ReportFormat::Json => Ok(ReportContent::Json),
    }
}

impl ReportFormat {
    pub open spec fn parse_spec(value: Seq<char>) -> Option<ReportFormat> {
        if ascii_lower(value) == "csv"@ {
            Some(ReportFormat::Csv)
        } else if ascii_lower(value) == "json"@ {
            Some(ReportFormat::Json)
        } else {
            None
        }
    }
}

/// The file name a report is written under: `diskpulse-<prefix>-<process
/// id>.<extension>`.
pub fn report_file_name(prefix: &str, process_id: u32, format: ReportFormat) -> (r: String)
    ensures
        r@ == "diskpulse-"@ + prefix@ + seq!['-'] + decimal(process_id as nat) + seq!['.'] + (match format {
            ReportFormat::Csv => "csv"@,
            ReportFormat::Json => "json"@,
        }),
{
    let mut out: Vec<char> = Vec::new();
    push_text(&mut out, "diskpulse-");
    push_text(&mut out, prefix);
    out.push('-');
    let pid = u64_to_string(process_id as u64);
    push_text(&mut out, pid.as_str());
    out.push('.');
    push_text(&mut out, format.extension());
    proof {
        reveal_strlit("diskpulse-");
    }
    string_of(out.as_slice())
}

} // verus!
