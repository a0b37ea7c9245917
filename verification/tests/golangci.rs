use dprint_plugin_golangci::golangci::{
    build_args, format_issues, reported_issues, version_from_output, LintIssue, LintOutput,
    LintPosition, Version,
};

fn issue(linter: &str, text: &str, file: &str, line: u32, column: u32) -> LintIssue {
    LintIssue {
        from_linter: linter.to_string(),
        text: text.to_string(),
        pos: LintPosition {
            filename: file.to_string(),
            line,
            column,
        },
    }
}

/// Reads a report by the field names of golangci-lint's JSON output; a test
/// stand-in for the serde parse of the program, which tests cannot derive.
fn parse_output(stdout: &str) -> Option<Vec<LintIssue>> {
    let value: serde_json::Value = serde_json::from_str(stdout).ok()?;
    let issues = match value.get("Issues") {
        None | Some(serde_json::Value::Null) => None,
        Some(list) => {
            let mut out = Vec::new();
            for item in list.as_array()? {
                let pos = item.get("Pos")?;
                out.push(issue(
                    item.get("FromLinter")?.as_str()?,
                    item.get("Text")?.as_str()?,
                    pos.get("Filename")?.as_str()?,
                    u32::try_from(pos.get("Line")?.as_u64()?).ok()?,
                    u32::try_from(pos.get("Column")?.as_u64()?).ok()?,
                ));
            }
            Some(out)
        }
    };
    reported_issues(LintOutput { issues })
}

#[test]
fn build_args_v1_default() {
    let args = build_args(Version::V1, true, None, "main.go");
    assert_eq!(args, vec!["run", "--fix", "--out-format=json", "main.go"]);
}

#[test]
fn build_args_v2_default() {
    let args = build_args(Version::V2, true, None, "main.go");
    assert_eq!(
        args,
        vec!["run", "--fix", "--output.json.path", "stdout", "main.go"]
    );
}

#[test]
fn build_args_with_config() {
    let args = build_args(Version::V2, false, Some(".golangci.yml"), "pkg/foo.go");
    assert_eq!(
        args,
        vec![
            "run",
            "--config=.golangci.yml",
            "--output.json.path",
            "stdout",
            "pkg/foo.go"
        ]
    );
}

#[test]
fn build_args_v1_no_fix_no_config() {
    let args = build_args(Version::V1, false, None, "x.go");
    assert_eq!(args, vec!["run", "--out-format=json", "x.go"]);
}

#[test]
fn parse_output_with_issues() {
    let json = r#"{"Issues":[{"FromLinter":"unused","Text":"func `foo` is unused","Pos":{"Filename":"main.go","Offset":0,"Line":5,"Column":6}}]}"#;
    let issues = parse_output(json).unwrap();
    assert_eq!(issues.len(), 1);
    assert_eq!(issues[0].from_linter, "unused");
    assert_eq!(issues[0].pos.line, 5);
}

#[test]
fn golangci_parse_output_no_issues() {
    let json = r#"{"Issues":[]}"#;
    let issues = parse_output(json);
    assert!(issues.is_none());
}

#[test]
fn parse_output_invalid_json() {
    let issues = parse_output("not json");
    assert!(issues.is_none());
}

#[test]
fn reported_issues_keeps_non_empty_lists() {
    assert!(reported_issues(LintOutput { issues: None }).is_none());
    assert!(reported_issues(LintOutput { issues: Some(Vec::new()) }).is_none());
    let kept = reported_issues(LintOutput {
        issues: Some(vec![issue("govet", "t", "a.go", 1, 1)]),
    })
    .unwrap();
    assert_eq!(kept.len(), 1);
    assert_eq!(kept[0].from_linter, "govet");
}

#[test]
fn format_issues_display() {
    let issues = vec![
        issue("unused", "func `foo` is unused", "main.go", 5, 6),
        issue("errcheck", "error return value not checked", "main.go", 10, 2),
    ];
    let output = format_issues(&issues);
    assert_eq!(
        output,
        "main.go:5:6: [unused] func `foo` is unused\nmain.go:10:2: [errcheck] error return value not checked"
    );
}

#[test]
fn format_issues_empty_and_large_numbers() {
    assert_eq!(format_issues(&[]), "");
    let issues = vec![issue("lll", "line too long", "x.go", 4294967295, 0)];
    assert_eq!(format_issues(&issues), "x.go:4294967295:0: [lll] line too long");
    let issues = vec![issue("a", "b", "c", 100, 909)];
    assert_eq!(format_issues(&issues), "c:100:909: [a] b");
}

#[test]
fn format_issues_concatenates_reports() {
    let a = vec![issue("a", "one", "f.go", 1, 2)];
    let b = vec![issue("b", "two", "g.go", 3, 4), issue("c", "three", "h.go", 5, 6)];
    let mut both = Vec::new();
    both.extend(a.iter().map(|i| issue(&i.from_linter, &i.text, &i.pos.filename, i.pos.line, i.pos.column)));
    both.extend(b.iter().map(|i| issue(&i.from_linter, &i.text, &i.pos.filename, i.pos.line, i.pos.column)));
    assert_eq!(
        format_issues(&both),
        format!("{}\n{}", format_issues(&a), format_issues(&b))
    );
}

#[test]
fn version_from_output_detects_v2() {
    assert_eq!(
        version_from_output("golangci-lint has version v2.1.6 built with go1.24.2"),
        Version::V2
    );
    assert_eq!(
        version_from_output("golangci-lint has version 2.0.0 built with go1.24"),
        Version::V2
    );
    assert_eq!(
        version_from_output("golangci-lint has version 1.64.8 built with go1.23.6"),
        Version::V1
    );
    assert_eq!(version_from_output(""), Version::V1);
    assert_eq!(version_from_output("version v"), Version::V1);
}
