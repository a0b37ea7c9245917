use dprint_core::configuration::GlobalConfiguration;
use dprint_plugin_golangci::configuration::{ConfigKeyMap, ConfigKeyValue};
use dprint_plugin_golangci::golangci::{LintIssue, LintPosition};
use dprint_plugin_golangci::handler::{
    fixed_outcome, lint_file_name, lint_outcome, GolangciHandler, LintOutcome,
};

fn issue() -> LintIssue {
    LintIssue {
        from_linter: "unused".to_string(),
        text: "func `foo` is unused".to_string(),
        pos: LintPosition {
            filename: "main.go".to_string(),
            line: 5,
            column: 6,
        },
    }
}

#[test]
fn handler_plugin_info() {
    let info = GolangciHandler.plugin_info("dprint-plugin-golangci", "0.1.0", "https://x");
    assert_eq!(info.name, "dprint-plugin-golangci");
    assert_eq!(info.version, "0.1.0");
    assert_eq!(info.config_key, "golangci");
    assert_eq!(info.help_url, "https://x");
    assert_eq!(info.config_schema_url, "");
    assert!(info.update_url.is_none());
}

#[test]
fn handler_resolves_go_files() {
    let mut config = ConfigKeyMap::new();
    config.insert("fix".to_string(), ConfigKeyValue::Bool(false));
    config.insert("oops".to_string(), ConfigKeyValue::Array);
    let result = GolangciHandler.resolve_config(config, &GlobalConfiguration::default());
    assert_eq!(result.file_matching.file_extensions, vec!["go".to_string()]);
    assert!(result.file_matching.file_names.is_empty());
    assert!(!result.config.fix);
    assert_eq!(result.diagnostics.len(), 1);
    assert_eq!(result.diagnostics[0].message, "Unknown configuration key: oops");
}

#[test]
fn handler_skips_ranges() {
    assert!(GolangciHandler.formats(None));
    assert!(!GolangciHandler.formats(Some((0, 3))));
}

#[test]
fn issues_fail_the_request() {
    match lint_outcome(Some(vec![issue()]), true, true, "") {
        LintOutcome::Issues(m) => assert_eq!(m, "main.go:5:6: [unused] func `foo` is unused"),
        _ => panic!("expected issues"),
    }
}

#[test]
fn success_reads_back_only_with_fixes() {
    assert!(matches!(lint_outcome(None, true, true, ""), LintOutcome::ReadFixedFile));
    assert!(matches!(lint_outcome(None, true, false, "warn"), LintOutcome::NoChange));
}

#[test]
fn failure_reports_stderr_unless_blank() {
    match lint_outcome(None, false, true, "boom") {
        LintOutcome::ToolError(m) => assert_eq!(m, "golangci-lint error:\nboom"),
        _ => panic!("expected a tool error"),
    }
    assert!(matches!(lint_outcome(None, false, true, " \n\t\u{3000}"), LintOutcome::NoChange));
}

#[test]
fn fixed_file_is_returned_when_changed() {
    assert_eq!(fixed_outcome("package a\n", "package a\n".to_string()), None);
    assert_eq!(
        fixed_outcome("package a\n", "package b\n".to_string()),
        Some("package b\n".to_string())
    );
}

#[test]
fn empty_issue_list_is_no_issue() {
    assert!(matches!(lint_outcome(Some(Vec::new()), true, false, ""), LintOutcome::NoChange));
    assert!(matches!(lint_outcome(Some(Vec::new()), true, true, ""), LintOutcome::ReadFixedFile));
}

#[test]
fn lint_file_name_prefers_the_file_name() {
    assert_eq!(lint_file_name(Some("main.go".to_string()), "/src/main.go".to_string()), "main.go");
    assert_eq!(lint_file_name(None, "/".to_string()), "/");
}
