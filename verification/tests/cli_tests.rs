use diskpulse::cleaner::preview_cleanup;
use diskpulse::cli::{clean_exit_code, error_exit_code, NO_COMMAND_EXIT};
use diskpulse::cli::{clean_low_candidates, clean_preview_payload};
use diskpulse::cli::{export_kind, ExportKind};
use diskpulse::risk::RiskLevel;
use diskpulse::cli::{parse_cli_args, CliCommand, CliOptions};

#[test]
fn parse_scan_cli_command() {
    let args: Vec<String> = vec!["diskpulse".into(), "--cli".into(), "scan".into(), "C".into()];
    assert_eq!(
        parse_cli_args(&args).unwrap(),
        Some(CliOptions {
            json: false,
            quiet: false,
            dry_run: false,
            command: Some(CliCommand::Scan { drive: "C".into() })
        })
    );
}

#[test]
fn ignores_non_cli_startup() {
    let args: Vec<String> = vec!["diskpulse".into()];
    assert_eq!(parse_cli_args(&args).unwrap(), None);
}

#[test]
fn parse_json_health_cli_command() {
    let args: Vec<String> = vec![
        "diskpulse".into(),
        "--cli".into(),
        "health".into(),
        "D".into(),
        "--json".into(),
    ];
    let parsed = parse_cli_args(&args).unwrap().expect("cli options");
    assert!(parsed.json);
    assert!(!parsed.dry_run);
    assert_eq!(parsed.command, Some(CliCommand::Health { drive: "D".into() }));
}

#[test]
fn parse_export_cli_command_includes_drive() {
    let args: Vec<String> = vec![
        "diskpulse".into(),
        "--cli".into(),
        "export".into(),
        "D".into(),
        "json".into(),
        "duplicates".into(),
    ];
    assert_eq!(
        parse_cli_args(&args).unwrap().expect("cli options").command,
        Some(CliCommand::Export {
            drive: "D".into(),
            format: "json".into(),
            report_type: "duplicates".into()
        })
    );
}

#[test]
fn parse_clean_dry_run_cli_command() {
    let args: Vec<String> = vec![
        "diskpulse".into(),
        "--cli".into(),
        "clean".into(),
        "C".into(),
        "--dry-run".into(),
    ];
    let parsed = parse_cli_args(&args).unwrap().expect("cli options");
    assert!(parsed.dry_run);
    assert_eq!(parsed.command, Some(CliCommand::CleanLow { drive: "C".into() }));
}

#[test]
fn cli_reports_each_error() {
    let missing: Vec<String> = vec!["p".into(), "--cli".into()];
    assert_eq!(parse_cli_args(&missing).unwrap_err(), "Missing CLI command");
    let unknown: Vec<String> = vec!["p".into(), "--cli".into(), "dance".into()];
    assert_eq!(parse_cli_args(&unknown).unwrap_err(), "Unknown CLI command: dance");
    let no_drive: Vec<String> = vec!["p".into(), "--cli".into(), "scan".into(), "--quiet".into()];
    assert_eq!(parse_cli_args(&no_drive).unwrap_err(), "Missing required argument: drive");
    let no_type: Vec<String> = vec!["p".into(), "--cli".into(), "export".into(), "C".into(), "csv".into()];
    assert_eq!(parse_cli_args(&no_type).unwrap_err(), "Missing required argument: type");
    let quiet: Vec<String> = vec!["p".into(), "--cli".into(), "duplicates".into(), "E".into(), "--quiet".into()];
    let parsed = parse_cli_args(&quiet).unwrap().unwrap();
    assert!(parsed.quiet);
    assert_eq!(parsed.command, Some(CliCommand::Duplicates { drive: "E".into() }));
}

fn risk_item(name: &str, level: diskpulse::risk::RiskLevel, safe: bool) -> diskpulse::risk::RiskItem {
    diskpulse::risk::RiskItem {
        name: name.into(),
        path: format!("C:\\{name}"),
        size_bytes: 10,
        file_count: 1,
        dir_count: 0,
        risk_level: level,
        category: "Temp".into(),
        explanation: String::new(),
        safe_to_delete: safe,
    }
}

#[test]
fn failed_commands_exit_with_their_status() {
    assert_eq!(error_exit_code(&CliCommand::Scan { drive: "C".into() }), 2);
    assert_eq!(error_exit_code(&CliCommand::Health { drive: "C".into() }), 2);
    assert_eq!(error_exit_code(&CliCommand::CleanLow { drive: "C".into() }), 2);
    assert_eq!(error_exit_code(&CliCommand::Duplicates { drive: "C".into() }), 1);
    assert_eq!(
        error_exit_code(&CliCommand::Export {
            drive: "C".into(),
            format: "json".into(),
            report_type: "scan".into()
        }),
        1
    );
    assert_eq!(clean_exit_code(0), 0);
    assert_eq!(clean_exit_code(3), 1);
    assert_eq!(NO_COMMAND_EXIT, 3);
}

#[test]
fn export_types_are_recognised() {
    assert_eq!(export_kind("scan"), Ok(ExportKind::Scan));
    assert_eq!(export_kind("cleanup"), Ok(ExportKind::Cleanup));
    assert_eq!(export_kind("duplicates"), Ok(ExportKind::Duplicates));
    assert_eq!(export_kind("pdf"), Err("Unsupported export type: pdf".to_string()));
}

#[test]
fn clean_low_takes_only_safe_low_risk_items() {
    let items = vec![
        risk_item("Temp", RiskLevel::Low, true),
        risk_item("Docs", RiskLevel::High, false),
        risk_item("Logs", RiskLevel::Low, false),
        risk_item("Cache", RiskLevel::Medium, true),
    ];
    let picked = clean_low_candidates(&items);
    assert_eq!(picked.len(), 1);
    assert_eq!(picked[0].name, "Temp");
    let preview = preview_cleanup(picked);
    let count = preview.accepted.len();
    let payload = clean_preview_payload("c", preview);
    assert_eq!(payload.drive, "C");
    assert!(payload.dry_run);
    assert_eq!(payload.candidate_count, count);
}
