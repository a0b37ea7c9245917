//! The line protocol of the stand-alone plugin program: each request line
//! gets one response line, and a request to format a Go file runs
//! golangci-lint with fixes on it.
use vstd::prelude::*;

use crate::golangci::{build_args, issues_found, lint_args, LintIssue, Version};
use crate::text::{contains_str, ends_with_str, has_substring, has_suffix, owned};

verus! {

/// A request to format one file.
pub struct FormatTextRequest {
    pub file_path: String,
    pub file_text: String,
}

/// A request line.
pub enum Request {
    GetPluginInfo,
    GetLicenseText,
    GetResolvedConfig,
    GetConfigDiagnostics,
    FormatText(FormatTextRequest),
}

/// What the program tells about itself.
pub struct PluginInfo {
    pub name: String,
    pub version: String,
    pub config_key: String,
    pub help_url: String,
    pub file_extensions: Vec<String>,
}

/// A response line.
pub enum Response {
    PluginInfo(PluginInfo),
    LicenseText { text: String },
    /// The resolved configuration: the linters that are enabled.
    ResolvedConfig { linters: Vec<String> },
    /// The configuration diagnostics, of which there are none.
    ConfigDiagnostics,
    Formatted { text: String },
    NoChange,
    Error { message: String },
}

/// What the program does next.
pub enum ServerAction {
    /// Send this response.
    Respond(Response),
    /// Run `golangci-lint` with these arguments for this request.
    RunLinter(FormatTextRequest, Vec<String>),
    /// Read the file at this path back.
    ReadFile(String),
}

/// How a run of golangci-lint went.
pub enum LinterRun {
    /// The process could not be started, for this reason.
    SpawnFailed(String),
    /// The process ran: whether it exited successfully, its output, and the
    /// issues parsed from its JSON report on standard output (`None` where
    /// the output is not such a report).
    Exited { success: bool, stdout: String, stderr: String, issues: Option<Vec<LintIssue>> },
}

/// The linters that the resolved configuration names, in order.
pub open spec fn enabled_linters() -> Seq<Seq<char>> {
    seq![
        "errcheck"@,
        "govet"@,
        "staticcheck"@,
        "bodyclose"@,
        "forcetypeassert"@,
        "gosec"@,
        "misspell"@,
        "testpackage"@,
        "unconvert"@,
        "unparam"@,
        "unused"@,
    ]
}

/// The program's name.
pub open spec fn plugin_name() -> Seq<char> {
    "dprint-plugin-golangci"@
}

/// Where help on the program is found.
pub open spec fn plugin_help_url() -> Seq<char> {
    "https://github.com/ageha734/dprint-plugin-golangci"@
}

/// The next action for a request: plugin information, the license text,
/// the resolved configuration and the (empty) diagnostics are answered at
/// once; a file whose path does not end in `.go` is left unchanged; a Go
/// file is linted with fixes and JSON output.
pub open spec fn request_action(request: Request, version: Seq<char>, license: Seq<char>, action: ServerAction) -> bool {
    match request {
        Request::GetPluginInfo => {
            &&& action matches ServerAction::Respond(Response::PluginInfo(info))
            &&& info.name@ == plugin_name()
            &&& info.version@ == version
            &&& info.config_key@ == "golangci"@
            &&& info.help_url@ == plugin_help_url()
            &&& info.file_extensions.deep_view() == seq!["go"@]
        },
        Request::GetLicenseText => {
            &&& action matches ServerAction::Respond(Response::LicenseText { text })
            &&& text@ == license
        },
        Request::GetResolvedConfig => {
            &&& action matches ServerAction::Respond(Response::ResolvedConfig { linters })
            &&& linters.deep_view() == enabled_linters()
        },
        Request::GetConfigDiagnostics => action matches ServerAction::Respond(
            Response::ConfigDiagnostics,
        ),
        Request::FormatText(req) => if has_suffix(req.file_path@, ".go"@) {
            &&& action matches ServerAction::RunLinter(r, args)
            &&& r == req
            &&& args.deep_view() == lint_args(Version::V1, true, None, req.file_path@)
        } else {
            action matches ServerAction::Respond(Response::NoChange)
        },
    }
}

/// Strings from literals, in order.
fn owned_all(items: &[&str]) -> (v: Vec<String>)
    ensures
        v.deep_view() == items@.map_values(|s: &str| s@),
{
    let mut v: Vec<String> = Vec::new();
    let mut i: usize = 0;
    while i < items.len()
        invariant
            i <= items@.len(),
            v.deep_view() == items@.take(i as int).map_values(|s: &str| s@),
        decreases items@.len() - i,
    {
        v.push(owned(items[i]));
        assert(items@.take(i + 1).map_values(|s: &str| s@) =~= items@.take(i as int).map_values(
            |s: &str| s@,
        ).push(items@[i as int]@));
        assert(v.deep_view() =~= items@.take(i + 1).map_values(|s: &str| s@));
        i = i + 1;
    }
    assert(items@.take(i as int) =~= items@);
    v
}

/// The next action for a request line, given the program's version and
/// license text.
pub fn handle_request(request: Request, version: &str, license_text: &str) -> (action: ServerAction)
    ensures
        request_action(request, version@, license_text@, action),
{
    match request {
        Request::GetPluginInfo => {
            let mut file_extensions: Vec<String> = Vec::new();
            file_extensions.push(owned("go"));
            assert(file_extensions.deep_view() =~= seq!["go"@]);
            ServerAction::Respond(
                Response::PluginInfo(
                    PluginInfo {
                        name: owned("dprint-plugin-golangci"),
                        version: owned(version),
                        config_key: owned("golangci"),
                        help_url: owned("https://github.com/ageha734/dprint-plugin-golangci"),
                        file_extensions,
                    },
                ),
            )
        },
        Request::GetLicenseText => ServerAction::Respond(
            Response::LicenseText { text: owned(license_text) },
        ),
        Request::GetResolvedConfig => {
            let names: [&str; 11] = [
                "errcheck",
                "govet",
                "staticcheck",
                "bodyclose",
                "forcetypeassert",
                "gosec",
                "misspell",
                "testpackage",
                "unconvert",
                "unparam",
                "unused",
            ];
            let linters = owned_all(&names);
            assert(names@.map_values(|s: &str| s@) =~= enabled_linters());
            ServerAction::Respond(Response::ResolvedConfig { linters })
        },
        Request::GetConfigDiagnostics => ServerAction::Respond(Response::ConfigDiagnostics),
        Request::FormatText(req) => {
            if ends_with_str(req.file_path.as_str(), ".go") {
                let args = build_args(Version::V1, true, None, req.file_path.as_str());
                ServerAction::RunLinter(req, args)
            } else {
                ServerAction::Respond(Response::NoChange)
            }
        },
    }
}

/// The next action once golangci-lint has run on the request's file: a
/// process that could not start is an error; issues that remain after the
/// fixes (a non-empty report on standard output, or a failed run whose error
/// output mentions `issues`) are reported as an error that holds the
/// standard output; otherwise a successful run reads the file back and a
/// failed run leaves the file unchanged.
pub fn after_linter_run(request: &FormatTextRequest, run: LinterRun) -> (action: ServerAction)
    ensures
        match run {
            LinterRun::SpawnFailed(e) => {
                &&& action matches ServerAction::Respond(Response::Error { message })
                &&& message@ == "Failed to run golangci-lint: "@ + e@
            },
            LinterRun::Exited { success, stdout, stderr, issues } => if issues_found(issues)
                is Some || (!success && has_substring(stderr@, "issues"@)) {
                &&& action matches ServerAction::Respond(Response::Error { message })
                &&& message@ == "golangci-lint found issues in "@ + request.file_path@ + ":\n"@
                    + stdout@
            } else if success {
                action matches ServerAction::ReadFile(p) && p@ == request.file_path@
            } else {
                action matches ServerAction::Respond(Response::NoChange)
            },
        },
{
    match run {
        LinterRun::SpawnFailed(e) => {
            let mut message = owned("Failed to run golangci-lint: ");
            message.append(e.as_str());
            ServerAction::Respond(Response::Error { message })
        },
        LinterRun::Exited { success, stdout, stderr, issues } => {
            let found = match issues {
                Some(v) => v.len() > 0,
                None => false,
            };
            if found || (!success && contains_str(stderr.as_str(), "issues")) {
                let mut message = owned("golangci-lint found issues in ");
                message.append(request.file_path.as_str());
                message.append(":\n");
                message.append(stdout.as_str());
                ServerAction::Respond(Response::Error { message })
            } else if success {
                ServerAction::ReadFile(request.file_path.clone())
            } else {
                ServerAction::Respond(Response::NoChange)
            }
        },
    }
}

/// The response once the file has been read back after a successful run:
/// its new text where it differs from the request's text, no change where
/// it is the same or could not be read.
pub fn after_read(request: &FormatTextRequest, content: Option<String>) -> (response: Response)
    ensures
        match content {
            Some(c) => if c@ == request.file_text@ {
                response is NoChange
            } else {
                response matches Response::Formatted { text } && text == c
            },
            None => response is NoChange,
        },
{
    match content {
        Some(c) => {
            if crate::text::eq_str(c.as_str(), request.file_text.as_str()) {
                Response::NoChange
            } else {
                Response::Formatted { text: c }
            }
        },
        None => Response::NoChange,
    }
}

/// The response to a request line that could not be parsed.
pub fn parse_failure(error: &str) -> (response: Response)
    ensures
        response matches Response::Error { message } && message@ == "Failed to parse request: "@
            + error@,
{
    let mut message = owned("Failed to parse request: ");
    message.append(error);
    Response::Error { message }
}

} // verus!

verus! {

/// A format request is linted only when its path ends with the three
/// characters `.go`; any other path (`main.go.bak`, `page.gohtml`, ...) is
/// answered with no change and nothing is run.
pub proof fn lemma_only_go_paths_are_linted(
    req: FormatTextRequest,
    version: Seq<char>,
    license: Seq<char>,
    action: ServerAction,
)
    requires
        request_action(Request::FormatText(req), version, license, action),
    ensures
        ({
            let p = req.file_path@;
            if p.len() >= 3 && p.subrange(p.len() - 3, p.len() as int) == seq!['.', 'g', 'o'] {
                action is RunLinter
            } else {
                action matches ServerAction::Respond(Response::NoChange)
            }
        }),
{
    reveal_strlit(".go");
    assert(".go"@ =~= seq!['.', 'g', 'o']);
}

} // verus!
