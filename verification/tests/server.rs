use dprint_plugin_golangci::golangci::{LintIssue, LintPosition};
use dprint_plugin_golangci::server::{
    after_linter_run, after_read, handle_request, parse_failure, FormatTextRequest, LinterRun,
    Request, Response, ServerAction,
};

fn request(path: &str, text: &str) -> FormatTextRequest {
    FormatTextRequest {
        file_path: path.to_string(),
        file_text: text.to_string(),
    }
}

#[test]
fn server_plugin_info() {
    match handle_request(Request::GetPluginInfo, "0.1.0", "MIT") {
        ServerAction::Respond(Response::PluginInfo(info)) => {
            assert_eq!(info.name, "dprint-plugin-golangci");
            assert_eq!(info.version, "0.1.0");
            assert_eq!(info.config_key, "golangci");
            assert_eq!(info.help_url, "https://github.com/ageha734/dprint-plugin-golangci");
            assert_eq!(info.file_extensions, vec!["go".to_string()]);
        }
        _ => panic!("expected plugin info"),
    }
}

#[test]
fn server_license_and_config() {
    match handle_request(Request::GetLicenseText, "0.1.0", "MIT License") {
        ServerAction::Respond(Response::LicenseText { text }) => assert_eq!(text, "MIT License"),
        _ => panic!("expected the license"),
    }
    match handle_request(Request::GetResolvedConfig, "0.1.0", "") {
        ServerAction::Respond(Response::ResolvedConfig { linters }) => assert_eq!(
            linters,
            vec![
                "errcheck", "govet", "staticcheck", "bodyclose", "forcetypeassert", "gosec",
                "misspell", "testpackage", "unconvert", "unparam", "unused"
            ]
        ),
        _ => panic!("expected the configuration"),
    }
    assert!(matches!(
        handle_request(Request::GetConfigDiagnostics, "0.1.0", ""),
        ServerAction::Respond(Response::ConfigDiagnostics)
    ));
}

#[test]
fn server_lints_only_go_files() {
    assert!(matches!(
        handle_request(Request::FormatText(request("README.md", "x")), "0.1.0", ""),
        ServerAction::Respond(Response::NoChange)
    ));
    match handle_request(Request::FormatText(request("pkg/main.go", "x")), "0.1.0", "") {
        ServerAction::RunLinter(req, args) => {
            assert_eq!(req.file_path, "pkg/main.go");
            assert_eq!(args, vec!["run", "--fix", "--out-format=json", "pkg/main.go"])
        }
        _ => panic!("expected a lint run"),
    }
}

#[test]
fn server_run_outcomes() {
    let req = request("main.go", "package main\n");
    match after_linter_run(&req, LinterRun::SpawnFailed("not found".to_string())) {
        ServerAction::Respond(Response::Error { message }) => {
            assert_eq!(message, "Failed to run golangci-lint: not found")
        }
        _ => panic!("expected an error"),
    }
    match after_linter_run(
        &req,
        LinterRun::Exited { success: true, stdout: String::new(), stderr: String::new(), issues: None },
    ) {
        ServerAction::ReadFile(p) => assert_eq!(p, "main.go"),
        _ => panic!("expected a read"),
    }
    match after_linter_run(
        &req,
        LinterRun::Exited {
            success: false,
            stdout: "{}".to_string(),
            stderr: "3 issues found".to_string(),
            issues: None,
        },
    ) {
        ServerAction::Respond(Response::Error { message }) => {
            assert_eq!(message, "golangci-lint found issues in main.go:\n{}")
        }
        _ => panic!("expected an error"),
    }
    assert!(matches!(
        after_linter_run(
            &req,
            LinterRun::Exited {
                success: false,
                stdout: String::new(),
                stderr: "crash".to_string(),
                issues: Some(Vec::new()),
            },
        ),
        ServerAction::Respond(Response::NoChange)
    ));
}

#[test]
fn server_read_outcomes() {
    let req = request("main.go", "package main\n");
    assert!(matches!(after_read(&req, None), Response::NoChange));
    assert!(matches!(after_read(&req, Some("package main\n".to_string())), Response::NoChange));
    match after_read(&req, Some("package main\n\n".to_string())) {
        Response::Formatted { text } => assert_eq!(text, "package main\n\n"),
        _ => panic!("expected new text"),
    }
    match parse_failure("expected value") {
        Response::Error { message } => assert_eq!(message, "Failed to parse request: expected value"),
        _ => panic!("expected an error"),
    }
}

#[test]
fn remaining_issues_are_an_error_whatever_stderr_says() {
    let req = request("main.go", "package main\n");
    let issue = LintIssue {
        from_linter: "unused".to_string(),
        text: "func `foo` is unused".to_string(),
        pos: LintPosition {
            filename: "main.go".to_string(),
            line: 5,
            column: 6,
        },
    };
    match after_linter_run(
        &req,
        LinterRun::Exited {
            success: false,
            stdout: "{\"Issues\":[...]}".to_string(),
            stderr: String::new(),
            issues: Some(vec![issue]),
        },
    ) {
        ServerAction::Respond(Response::Error { message }) => {
            assert_eq!(message, "golangci-lint found issues in main.go:\n{\"Issues\":[...]}")
        }
        _ => panic!("expected an error"),
    }
}
