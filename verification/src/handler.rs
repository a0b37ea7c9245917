//! The dprint process plugin: what it tells dprint about itself and its
//! configuration, and what it answers to a format request once
//! golangci-lint has run.
use vstd::prelude::*;

use dprint_core::configuration::GlobalConfiguration;

use crate::configuration::{
    config_entries, diagnostic_view, diagnostics_of, opt_string_chars, resolve_config, resolved_fix,
    resolved_string, ConfigKeyMap, Configuration, ConfigurationDiagnostic,
};
use crate::golangci::{format_issues, issues_found, issues_report, LintIssue};
use crate::text::{is_blank, is_blank_str, owned};

verus! {

/// The golangci-lint plugin for dprint.
pub struct GolangciHandler;

/// What the plugin tells dprint about itself.
pub struct PluginInfo {
    pub name: String,
    pub version: String,
    pub config_key: String,
    pub help_url: String,
    pub config_schema_url: String,
    pub update_url: Option<String>,
}

/// The files a configuration applies to.
pub struct FileMatchingInfo {
    pub file_extensions: Vec<String>,
    pub file_names: Vec<String>,
}

/// A resolved configuration, with its diagnostics and the files it applies to.
pub struct PluginResolveConfigurationResult {
    pub file_matching: FileMatchingInfo,
    pub diagnostics: Vec<ConfigurationDiagnostic>,
    pub config: Configuration,
}

/// What a format request comes to once golangci-lint has run on the file.
pub enum LintOutcome {
    /// golangci-lint reported issues: the request fails with this report.
    Issues(String),
    /// golangci-lint succeeded with fixes on: read the file back.
    ReadFixedFile,
    /// Nothing to change.
    NoChange,
    /// golangci-lint failed and said why on its error output.
    ToolError(String),
}

impl GolangciHandler {
    /// What the plugin tells dprint about itself, given the package's
    /// name, version and repository.
    pub fn plugin_info(&self, name: &str, version: &str, repository: &str) -> (info: PluginInfo)
        ensures
            info.name@ == name@,
            info.version@ == version@,
            info.config_key@ == "golangci"@,
            info.help_url@ == repository@,
            info.config_schema_url@ == Seq::<char>::empty(),
            info.update_url is None,
    {
        proof {
            reveal_strlit("");
        }
        PluginInfo {
            name: owned(name),
            version: owned(version),
            config_key: owned("golangci"),
            help_url: owned(repository),
            config_schema_url: owned(""),
            update_url: None,
        }
    }

    /// Resolves the configuration section; the plugin applies to `.go`
    /// files.
    pub fn resolve_config(&self, config: ConfigKeyMap, global_config: &GlobalConfiguration) -> (r:
        PluginResolveConfigurationResult)
        ensures
            opt_string_chars(r.config.config_path) == resolved_string(config_entries(config), "configPath"@),
            r.config.fix == resolved_fix(config_entries(config)),
            opt_string_chars(r.config.version) == resolved_string(config_entries(config), "version"@),
            r.diagnostics@.map_values(|d: ConfigurationDiagnostic| diagnostic_view(d))
                == diagnostics_of(config_entries(config)),
            r.file_matching.file_extensions.deep_view() == seq!["go"@],
            r.file_matching.file_names@.len() == 0,
    {
        let (resolved, diagnostics) = resolve_config(config, global_config);
        let mut file_extensions: Vec<String> = Vec::new();
        file_extensions.push(owned("go"));
        assert(file_extensions.deep_view() =~= seq!["go"@]);
        PluginResolveConfigurationResult {
            file_matching: FileMatchingInfo { file_extensions, file_names: Vec::new() },
            diagnostics,
            config: resolved,
        }
    }

    /// Whether a format request is served: only requests for the whole
    /// file are; a request for a range is answered with no change.
    pub fn formats(&self, range: Option<(usize, usize)>) -> (b: bool)
        ensures
            b == (range is None),
    {
        range.is_none()
    }
}

/// What a format request comes to once golangci-lint has run: the issues
/// it reported (as parsed from its JSON output; an absent or empty list
/// means none), whether it exited successfully, whether fixes were asked for, and
/// what it wrote on its error output. Reported issues fail the request
/// whatever the exit status; a successful run reads the fixed file back
/// where fixes were asked for and changes nothing otherwise; a failed run
/// fails with its error output where that holds more than white space.
pub fn lint_outcome(issues: Option<Vec<LintIssue>>, success: bool, fix: bool, stderr: &str) -> (r:
    LintOutcome)
    ensures
        match issues_found(issues) {
            Some(v) => r matches LintOutcome::Issues(m) && m@ == issues_report(v),
            None => if success {
                if fix {
                    r is ReadFixedFile
                } else {
                    r is NoChange
                }
            } else if !is_blank(stderr@) {
                r matches LintOutcome::ToolError(m) && m@ == "golangci-lint error:\n"@ + stderr@
            } else {
                r is NoChange
            },
        },
{
    let reported = match issues {
        Some(v) => if v.len() > 0 {
            Some(v)
        } else {
            None
        },
        None => None,
    };
    match reported {
        Some(v) => LintOutcome::Issues(format_issues(v.as_slice())),
        None => {
            if success {
                if fix {
                    LintOutcome::ReadFixedFile
                } else {
                    LintOutcome::NoChange
                }
            } else if !is_blank_str(stderr) {
                let mut m = owned("golangci-lint error:\n");
                m.append(stderr);
                LintOutcome::ToolError(m)
            } else {
                LintOutcome::NoChange
            }
        },
    }
}

/// What a format request returns once the fixed file has been read back:
/// its new text where golangci-lint changed it (and the original text is
/// then written back to disk), nothing where it did not.
pub fn fixed_outcome(file_text: &str, fixed_content: String) -> (r: Option<String>)
    ensures
        r == (if fixed_content@ == file_text@ {
            None
        } else {
            Some(fixed_content)
        }),
{
    if crate::text::eq_str(fixed_content.as_str(), file_text) {
        None
    } else {
        Some(fixed_content)
    }
}

/// The name golangci-lint is given for the file it lints: the file name of
/// its path where the path has one, the whole path otherwise (both as the
/// caller renders them).
pub fn lint_file_name(file_name: Option<String>, whole_path: String) -> (r: String)
    ensures
        r == (match file_name {
            Some(n) => n,
            None => whole_path,
        }),
{
    match file_name {
        Some(n) => n,
        None => whole_path,
    }
}

} // verus!
