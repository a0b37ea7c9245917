//! The golangci-lint command line: the arguments it is run with, the version
//! it reports, and the issues it prints.
use vstd::prelude::*;

use crate::text::{contains_str, decimal, has_substring, owned, push_char, push_decimal};

verus! {

/// What golangci-lint prints with its JSON output format.
pub struct LintOutput {
    pub issues: Option<Vec<LintIssue>>,
}

/// One issue that golangci-lint reports.
pub struct LintIssue {
    pub from_linter: String,
    pub text: String,
    pub pos: LintPosition,
}

/// Where an issue was found.
pub struct LintPosition {
    pub filename: String,
    pub line: u32,
    pub column: u32,
}

/// The major version of the installed golangci-lint, which decides the
/// flags that select JSON output.
#[derive(Debug, Clone, Copy, PartialEq, Eq, Structural)]
pub enum Version {
    V1,
    V2,
}

/// `filename:line:column: [linter] text`, the line that reports one issue.
pub open spec fn issue_line(issue: LintIssue) -> Seq<char> {
    issue.pos.filename@ + seq![':'] + decimal(issue.pos.line as nat) + seq![':'] + decimal(
        issue.pos.column as nat,
    ) + seq![':', ' ', '['] + issue.from_linter@ + seq![']', ' '] + issue.text@
}

/// The lines joined with a newline between each two of them.
pub open spec fn join_lines(lines: Seq<Seq<char>>) -> Seq<char>
    decreases lines.len(),
{
    if lines.len() == 0 {
        Seq::empty()
    } else if lines.len() == 1 {
        lines[0]
    } else {
        join_lines(lines.drop_last()) + seq!['\n'] + lines.last()
    }
}

/// The report of a list of issues: one line per issue, in order.
pub open spec fn issues_report(issues: Seq<LintIssue>) -> Seq<char> {
    join_lines(issues.map_values(|i: LintIssue| issue_line(i)))
}

/// The issues of a parsed report, where it holds at least one.
pub open spec fn issues_found(issues: Option<Vec<LintIssue>>) -> Option<Seq<LintIssue>> {
    match issues {
        Some(v) => if v@.len() > 0 {
            Some(v@)
        } else {
            None
        },
        None => None,
    }
}

/// The output of `golangci-lint version` names a version 2 release.
pub open spec fn reports_v2(stdout: Seq<char>) -> bool {
    has_substring(stdout, "version v2"@) || has_substring(stdout, "version 2."@)
}

/// The characters of an optional string.
pub open spec fn opt_chars(o: Option<&str>) -> Option<Seq<char>> {
    match o {
        Some(s) => Some(s@),
        None => None,
    }
}

/// The arguments that select JSON output on standard output.
pub open spec fn output_args(version: Version) -> Seq<Seq<char>> {
    match version {
        Version::V1 => seq!["--out-format=json"@],
        Version::V2 => seq!["--output.json.path"@, "stdout"@],
    }
}

/// The argument that points golangci-lint at a configuration file.
pub open spec fn config_arg(path: Seq<char>) -> Seq<char> {
    "--config="@ + path
}

/// The arguments of `golangci-lint run` on one file.
pub open spec fn lint_args(
    version: Version,
    fix: bool,
    config_path: Option<Seq<char>>,
    file_path: Seq<char>,
) -> Seq<Seq<char>> {
    seq!["run"@] + (if fix {
        seq!["--fix"@]
    } else {
        Seq::empty()
    }) + (match config_path {
        Some(p) => seq![config_arg(p)],
        None => Seq::empty(),
    }) + output_args(version) + seq![file_path]
}

/// Appends the line that reports `issue`.
fn push_issue_line(out: &mut String, issue: &LintIssue)
    ensures
        final(out)@ == old(out)@ + issue_line(*issue),
{
    out.append(issue.pos.filename.as_str());
    push_char(out, ':');
    push_decimal(out, issue.pos.line);
    push_char(out, ':');
    push_decimal(out, issue.pos.column);
    push_char(out, ':');
    push_char(out, ' ');
    push_char(out, '[');
    out.append(issue.from_linter.as_str());
    push_char(out, ']');
    push_char(out, ' ');
    out.append(issue.text.as_str());
    assert(out@ =~= old(out)@ + issue_line(*issue));
}

/// One line per issue, `filename:line:column: [linter] text`, joined by
/// newlines.
pub fn format_issues(issues: &[LintIssue]) -> (out: String)
    ensures
        out@ == issues_report(issues@),
{
    let mut out = String::new();
    let ghost lines = issues@.map_values(|i: LintIssue| issue_line(i));
    let mut i: usize = 0;
    while i < issues.len()
        invariant
            i <= issues@.len(),
            lines == issues@.map_values(|i: LintIssue| issue_line(i)),
            out@ == join_lines(lines.take(i as int)),
        decreases issues@.len() - i,
    {
        let ghost before = out@;
        if i > 0 {
            push_char(&mut out, '\n');
        }
        push_issue_line(&mut out, &issues[i]);
        proof {
            assert(lines.take(i + 1).drop_last() =~= lines.take(i as int));
            if i == 0 {
                assert(before =~= Seq::<char>::empty());
            }
        }
        i = i + 1;
    }
    assert(lines.take(i as int) =~= lines);
    out
}

/// The version that the output of `golangci-lint version` reports: version
/// 2 where it mentions `version v2` or `version 2.`, version 1 otherwise.
pub fn version_from_output(stdout: &str) -> (v: Version)
    ensures
        v == (if reports_v2(stdout@) {
            Version::V2
        } else {
            Version::V1
        }),
{
    if contains_str(stdout, "version v2") || contains_str(stdout, "version 2.") {
        Version::V2
    } else {
        Version::V1
    }
}

/// The issues of a parsed JSON report, where it holds at least one.
pub fn reported_issues(output: LintOutput) -> (r: Option<Vec<LintIssue>>)
    ensures
        r == (match output.issues {
            Some(v) => if v@.len() > 0 {
                Some(v)
            } else {
                None
            },
            None => None,
        }),
{
    match output.issues {
        Some(v) => if v.len() > 0 {
            Some(v)
        } else {
            None
        },
        None => None,
    }
}

/// The arguments of `golangci-lint run` on `file_path`: `--fix` where fixes
/// are wanted, `--config=<path>` where a configuration file is given, then
/// the flags that make this `version` print JSON, then the file.
pub fn build_args(version: Version, fix: bool, config_path: Option<&str>, file_path: &str) -> (args:
    Vec<String>)
    ensures
        args.deep_view() == lint_args(version, fix, opt_chars(config_path), file_path@),
{
    let mut args: Vec<String> = Vec::new();
    args.push(owned("run"));
    let ghost mut expected: Seq<Seq<char>> = seq!["run"@];
    assert(args.deep_view() =~= expected);
    if fix {
        args.push(owned("--fix"));
        proof {
            expected = expected + seq!["--fix"@];
        }
        assert(args.deep_view() =~= expected);
    }
    if let Some(path) = config_path {
        let mut arg = owned("--config=");
        arg.append(path);
        args.push(arg);
        proof {
            expected = expected + seq![config_arg(path@)];
        }
        assert(args.deep_view() =~= expected);
    }
    match version {
        Version::V1 => {
            args.push(owned("--out-format=json"));
        },
        Version::V2 => {
            args.push(owned("--output.json.path"));
            args.push(owned("stdout"));
        },
    }
    proof {
        expected = expected + output_args(version);
    }
    assert(args.deep_view() =~= expected);
    args.push(owned(file_path));
    assert(args.deep_view() =~= lint_args(version, fix, opt_chars(config_path), file_path@));
    args
}

} // verus!

verus! {

/// Joining two non-empty runs of lines puts one newline between them.
proof fn lemma_join_lines_concat(x: Seq<Seq<char>>, y: Seq<Seq<char>>)
    requires
        x.len() > 0,
        y.len() > 0,
    ensures
        join_lines(x + y) == join_lines(x) + seq!['\n'] + join_lines(y),
    decreases y.len(),
{
    if y.len() == 1 {
        assert((x + y).drop_last() =~= x);
        assert((x + y).last() == y[0]);
    } else {
        assert((x + y).drop_last() =~= x + y.drop_last());
        lemma_join_lines_concat(x, y.drop_last());
        assert((x + y).last() == y.last());
        assert(join_lines(x + y) =~= join_lines(x) + seq!['\n'] + join_lines(y));
    }
}

/// The report of two non-empty lists of issues, one after the other, is
/// their two reports with a newline between them.
pub proof fn lemma_report_concat(a: Seq<LintIssue>, b: Seq<LintIssue>)
    requires
        a.len() > 0,
        b.len() > 0,
    ensures
        issues_report(a + b) == issues_report(a) + seq!['\n'] + issues_report(b),
{
    let f = |i: LintIssue| issue_line(i);
    assert((a + b).map_values(f) =~= a.map_values(f) + b.map_values(f));
    lemma_join_lines_concat(a.map_values(f), b.map_values(f));
}

/// The report of a single issue is its line.
pub proof fn lemma_report_single(issue: LintIssue)
    ensures
        issues_report(seq![issue]) == issue_line(issue),
{
    assert(seq![issue].map_values(|i: LintIssue| issue_line(i)) =~= seq![issue_line(issue)]);
}

/// Every lint run starts with `run`, ends with the file, has `--fix` in
/// second place exactly when fixes are wanted, and has one argument for
/// each option given plus one (version 1) or two (version 2) for the output.
pub proof fn lemma_lint_args_shape(
    version: Version,
    fix: bool,
    config_path: Option<Seq<char>>,
    file_path: Seq<char>,
)
    ensures
        ({
            let a = lint_args(version, fix, config_path, file_path);
            &&& a[0] == "run"@
            &&& a.last() == file_path
            &&& (a[1] == "--fix"@) == fix
            &&& a.len() == 2 + (if fix {
                1int
            } else {
                0int
            }) + (if config_path is Some {
                1int
            } else {
                0int
            }) + (if version == Version::V1 {
                1int
            } else {
                2int
            })
        }),
{
    reveal_strlit("--fix");
    reveal_strlit("--config=");
    reveal_strlit("--out-format=json");
    reveal_strlit("--output.json.path");
    let a = lint_args(version, fix, config_path, file_path);
    if !fix {
        match config_path {
            Some(p) => {
                assert(a[1] == config_arg(p));
                assert(config_arg(p).len() != "--fix"@.len());
            },
            None => {
                assert(a[1] == output_args(version)[0]);
                assert(output_args(version)[0].len() != "--fix"@.len());
            },
        }
    }
}

} // verus!

verus! {

/// The version output names version 2 exactly when, somewhere in it, the
/// ten characters `version v2` or `version 2.` stand: output that reports a
/// 1.x release with neither phrase is version 1, whatever digits and dots
/// it holds elsewhere.
pub proof fn lemma_v2_exactly_on_phrase(stdout: Seq<char>)
    ensures
        reports_v2(stdout) <==> exists|i: int|
            0 <= i && i + 10 <= stdout.len() && (#[trigger] stdout.subrange(i, i + 10)
                == seq!['v', 'e', 'r', 's', 'i', 'o', 'n', ' ', 'v', '2'] || stdout.subrange(
                i,
                i + 10,
            ) == seq!['v', 'e', 'r', 's', 'i', 'o', 'n', ' ', '2', '.']),
{
    reveal_strlit("version v2");
    reveal_strlit("version 2.");
    assert("version v2"@ =~= seq!['v', 'e', 'r', 's', 'i', 'o', 'n', ' ', 'v', '2']);
    assert("version 2."@ =~= seq!['v', 'e', 'r', 's', 'i', 'o', 'n', ' ', '2', '.']);
}

/// A kept report keeps every issue, in order: where the parsed list holds
/// issues, exactly that list is reported.
pub proof fn lemma_found_issues_are_all_kept(issues: Vec<LintIssue>)
    requires
        issues@.len() > 0,
    ensures
        issues_found(Some(issues)) == Some(issues@),
{
}

/// Every line of a joined run of lines stands in the joined text.
proof fn lemma_join_lines_contains(lines: Seq<Seq<char>>, k: int)
    requires
        0 <= k < lines.len(),
    ensures
        has_substring(join_lines(lines), lines[k]),
    decreases lines.len(),
{
    let j = join_lines(lines);
    let n = lines[k].len() as int;
    if lines.len() == 1 {
        assert(j == lines[0]);
        assert(j.subrange(0, n) =~= lines[k]);
        assert(0 <= 0 && 0 + n <= j.len() && j.subrange(0, 0 + n) == lines[k]);
    } else {
        let p = lines.drop_last();
        let jp = join_lines(p);
        assert(j == jp + seq!['\n'] + lines.last());
        if k == lines.len() - 1 {
            let start: int = (jp.len() + 1) as int;
            assert(j.len() == start + n);
            assert(j.subrange(start, start + n) =~= lines[k]);
            assert(0 <= start && start + n <= j.len() && j.subrange(start, start + n) == lines[k]);
        } else {
            lemma_join_lines_contains(p, k);
            assert(p[k] == lines[k]);
            let i = choose|i: int|
                0 <= i && i + n <= jp.len() && #[trigger] jp.subrange(i, i + n) == lines[k];
            assert(j.subrange(i, i + n) =~= jp.subrange(i, i + n));
            assert(0 <= i && i + n <= j.len() && j.subrange(i, i + n) == lines[k]);
        }
    }
}

/// When golangci-lint reports issues, the failure report that
/// `lint_outcome` gives holds the line of every reported issue.
pub proof fn lemma_report_holds_every_issue(issues: Vec<LintIssue>, k: int)
    requires
        0 <= k < issues@.len(),
    ensures
        issues_found(Some(issues)) matches Some(found) && has_substring(
            issues_report(found),
            issue_line(issues@[k]),
        ),
{
    let lines = issues@.map_values(|i: LintIssue| issue_line(i));
    lemma_join_lines_contains(lines, k);
}

/// The newline-separated lines of a text, as `str::split('\n')` gives them:
/// a text without a newline is one line, the empty text among them.
pub open spec fn split_lines(s: Seq<char>) -> Seq<Seq<char>>
    decreases s.len(),
{
    if s.len() == 0 {
        seq![Seq::empty()]
    } else {
        let rest = split_lines(s.drop_last());
        if s.last() == '\n' {
            rest.push(Seq::empty())
        } else {
            rest.update(rest.len() - 1, rest.last().push(s.last()))
        }
    }
}

/// Every text has at least one line.
proof fn lemma_split_lines_nonempty(s: Seq<char>)
    ensures
        split_lines(s).len() >= 1,
    decreases s.len(),
{
    if s.len() > 0 {
        lemma_split_lines_nonempty(s.drop_last());
    }
}

/// A text without a newline is a single line.
proof fn lemma_split_lines_single(s: Seq<char>)
    requires
        !s.contains('\n'),
    ensures
        split_lines(s) == seq![s],
    decreases s.len(),
{
    if s.len() == 0 {
        assert(s =~= Seq::<char>::empty());
        assert(split_lines(s) =~= seq![s]);
    } else {
        let d = s.drop_last();
        assert(!d.contains('\n')) by {
            if d.contains('\n') {
                let i = choose|i: int| 0 <= i < d.len() && d[i] == '\n';
                assert(s[i] == '\n');
            }
        }
        lemma_split_lines_single(d);
        assert(s[s.len() - 1] != '\n');
        assert(d.push(s.last()) =~= s);
        assert(split_lines(s) =~= seq![s]);
    }
}

/// Splitting at a newline splits the lines there.
proof fn lemma_split_lines_at_newline(a: Seq<char>, b: Seq<char>)
    ensures
        split_lines(a + seq!['\n'] + b) == split_lines(a) + split_lines(b),
    decreases b.len(),
{
    let t = a + seq!['\n'] + b;
    if b.len() == 0 {
        assert(t.drop_last() =~= a);
        assert(split_lines(t) =~= split_lines(a) + split_lines(b));
    } else {
        let b2 = b.drop_last();
        assert(t.drop_last() =~= a + seq!['\n'] + b2);
        lemma_split_lines_at_newline(a, b2);
        lemma_split_lines_nonempty(b2);
        let x = split_lines(a);
        let y = split_lines(b2);
        assert(t.last() == b.last());
        if b.last() == '\n' {
            assert((x + y).push(Seq::empty()) =~= x + y.push(Seq::empty()));
        } else {
            assert((x + y).update((x + y).len() - 1, (x + y).last().push(b.last())) =~= x
                + y.update(y.len() - 1, y.last().push(b.last())));
        }
    }
}

/// Lines without a newline, joined, split back into themselves.
proof fn lemma_split_join_lines(lines: Seq<Seq<char>>)
    requires
        lines.len() > 0,
        forall|k: int| 0 <= k < lines.len() ==> !(#[trigger] lines[k]).contains('\n'),
    ensures
        split_lines(join_lines(lines)) == lines,
    decreases lines.len(),
{
    if lines.len() == 1 {
        lemma_split_lines_single(lines[0]);
        assert(seq![lines[0]] =~= lines);
    } else {
        let p = lines.drop_last();
        assert forall|k: int| 0 <= k < p.len() implies !(#[trigger] p[k]).contains('\n') by {
            assert(p[k] == lines[k]);
        }
        lemma_split_join_lines(p);
        lemma_split_lines_at_newline(join_lines(p), lines.last());
        lemma_split_lines_single(lines.last());
        assert(p + seq![lines.last()] =~= lines);
    }
}

/// When golangci-lint reports issues whose lines hold no newline, the
/// failure report that `lint_outcome` gives has one line per reported
/// issue, in order: as many newline-separated lines as issues, the `k`-th
/// of them the `k`-th issue's line.
pub proof fn lemma_report_lines_are_issue_lines(issues: Vec<LintIssue>)
    requires
        issues@.len() > 0,
        forall|k: int| 0 <= k < issues@.len() ==> !issue_line(#[trigger] issues@[k]).contains('\n'),
    ensures
        issues_found(Some(issues)) matches Some(found) && split_lines(issues_report(found)).len()
            == issues@.len() && (forall|k: int|
            0 <= k < issues@.len() ==> #[trigger] split_lines(issues_report(found))[k] == issue_line(
                issues@[k],
            )),
{
    let lines = issues@.map_values(|i: LintIssue| issue_line(i));
    assert forall|k: int| 0 <= k < lines.len() implies !(#[trigger] lines[k]).contains('\n') by {
        assert(lines[k] == issue_line(issues@[k]));
    }
    lemma_split_join_lines(lines);
}

} // verus!
