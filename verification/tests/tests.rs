use dprint_core::configuration::GlobalConfiguration;
use dprint_plugin_golangci::configuration::{resolve_config, ConfigKeyMap, ConfigKeyValue};
use dprint_plugin_golangci::golangci::{self, LintIssue, LintOutput, LintPosition, Version};

/// Reads a report by the field names of golangci-lint's JSON output; a test
/// stand-in for the serde parse of the program, which tests cannot derive.
fn parse_output(stdout: &str) -> Option<Vec<LintIssue>> {
    let value: serde_json::Value = serde_json::from_str(stdout).ok()?;
    let issues = match value.get("Issues") {
        None | Some(serde_json::Value::Null) => None,
        Some(list) => {
            let mut out = Vec::new();
            for item in list.as_array()? {
                let pos = item.get("Pos")?;
                out.push(LintIssue {
                    from_linter: item.get("FromLinter")?.as_str()?.to_string(),
                    text: item.get("Text")?.as_str()?.to_string(),
                    pos: LintPosition {
                        filename: pos.get("Filename")?.as_str()?.to_string(),
                        line: u32::try_from(pos.get("Line")?.as_u64()?).ok()?,
                        column: u32::try_from(pos.get("Column")?.as_u64()?).ok()?,
                    },
                });
            }
            Some(out)
        }
    };
    golangci::reported_issues(LintOutput { issues })
}

#[test]
fn configuration_resolve_defaults() {
    let config = ConfigKeyMap::new();
    let global = GlobalConfiguration::default();
    let (resolved, diagnostics) = resolve_config(config, &global);

    assert!(diagnostics.is_empty());
    assert!(resolved.fix);
    assert!(resolved.config_path.is_none());
    assert!(resolved.version.is_none());
}

#[test]
fn configuration_resolve_with_version() {
    let mut config = ConfigKeyMap::new();
    config.insert(
        "version".to_string(),
        ConfigKeyValue::String("2.5.0".to_string()),
    );
    let global = GlobalConfiguration::default();
    let (resolved, diagnostics) = resolve_config(config, &global);

    assert!(diagnostics.is_empty());
    assert_eq!(resolved.version, Some("2.5.0".to_string()));
}

#[test]
fn configuration_resolve_with_config_path() {
    let mut config = ConfigKeyMap::new();
    config.insert(
        "configPath".to_string(),
        ConfigKeyValue::String(".golangci.yml".to_string()),
    );
    let global = GlobalConfiguration::default();
    let (resolved, diagnostics) = resolve_config(config, &global);

    assert!(diagnostics.is_empty());
    assert_eq!(resolved.config_path, Some(".golangci.yml".to_string()));
}

#[test]
fn build_args_v1() {
    let args = golangci::build_args(Version::V1, true, Some(".golangci.yml"), "main.go");
    assert_eq!(
        args,
        vec![
            "run",
            "--fix",
            "--config=.golangci.yml",
            "--out-format=json",
            "main.go"
        ]
    );
}

#[test]
fn build_args_v2() {
    let args = golangci::build_args(Version::V2, true, Some(".golangci.yml"), "main.go");
    assert_eq!(
        args,
        vec![
            "run",
            "--fix",
            "--config=.golangci.yml",
            "--output.json.path",
            "stdout",
            "main.go"
        ]
    );
}

#[test]
fn build_args_no_fix() {
    let args = golangci::build_args(Version::V2, false, None, "src/lib.go");
    assert_eq!(args, vec!["run", "--output.json.path", "stdout", "src/lib.go"]);
}

#[test]
fn parse_and_format_issues() {
    let json = r#"{"Issues":[{"FromLinter":"unused","Text":"func `foo` is unused","Pos":{"Filename":"main.go","Offset":0,"Line":5,"Column":6}}]}"#;
    let issues = parse_output(json).unwrap();
    let output = golangci::format_issues(&issues);
    assert_eq!(output, "main.go:5:6: [unused] func `foo` is unused");
}

#[test]
fn tests_parse_output_no_issues() {
    let json = r#"{"Issues":[]}"#;
    assert!(parse_output(json).is_none());
}
