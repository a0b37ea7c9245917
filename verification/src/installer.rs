//! Where the golangci-lint binary comes from: the platform names of its
//! release archives, the cache it is unpacked into, the release URLs, and
//! the steps that find or install it.
use vstd::prelude::*;

use vstd::string::StringSliceAdditionalSpecFns;

use crate::configuration::opt_string_chars;
use crate::text::{eq_str, owned, push_char};

verus! {

/// The GitHub repository that publishes golangci-lint.
pub const GITHUB_REPO: &'static str = "golangci/golangci-lint";

/// The operating system name that golangci-lint's release archives use for
/// Rust's target OS name (`std::env::consts::OS`).
pub open spec fn os_name(target_os: Seq<char>) -> Seq<char> {
    if target_os == "linux"@ {
        "linux"@
    } else if target_os == "macos"@ {
        "darwin"@
    } else if target_os == "windows"@ {
        "windows"@
    } else {
        "unknown"@
    }
}

/// The architecture name that golangci-lint's release archives use for
/// Rust's target architecture name (`std::env::consts::ARCH`).
pub open spec fn arch_name(target_arch: Seq<char>) -> Seq<char> {
    if target_arch == "x86_64"@ {
        "amd64"@
    } else if target_arch == "aarch64"@ {
        "arm64"@
    } else {
        "unknown"@
    }
}

/// The file name of the golangci-lint binary on the target OS.
pub open spec fn binary_file_name(target_os: Seq<char>) -> Seq<char> {
    if target_os == "windows"@ {
        "golangci-lint.exe"@
    } else {
        "golangci-lint"@
    }
}

/// The path separator of the target OS.
pub open spec fn separator(target_os: Seq<char>) -> char {
    if target_os == "windows"@ {
        '\\'
    } else {
        '/'
    }
}

/// A character that ends a path component on the target OS.
pub open spec fn is_separator(c: char, target_os: Seq<char>) -> bool {
    c == '/' || (target_os == "windows"@ && c == '\\')
}

/// A Windows drive prefix such as `C:` at the start of `s`.
pub open spec fn has_drive_prefix(s: Seq<char>) -> bool {
    s.len() >= 2 && s[1] == ':' && (('a' <= s[0] && s[0] <= 'z') || ('A' <= s[0] && s[0] <= 'Z'))
}

/// `base` with the component `part` (which does not start with a separator)
/// joined on, as `Path::join` joins it: on Windows a component that starts
/// with a drive prefix replaces the base; otherwise a separator goes between
/// them unless `base` is empty, already ends with one, or is a bare Windows
/// drive such as `C:`.
pub open spec fn path_join(base: Seq<char>, part: Seq<char>, target_os: Seq<char>) -> Seq<char> {
    let windows = target_os == "windows"@;
    if windows && has_drive_prefix(part) {
        part
    } else if base.len() == 0 || is_separator(base.last(), target_os) || (windows && base.len()
        == 2 && has_drive_prefix(base)) {
        base + part
    } else {
        base.push(separator(target_os)) + part
    }
}

/// The directory that holds one release: `v<version>`.
pub open spec fn version_dir(version: Seq<char>) -> Seq<char> {
    seq!['v'] + version
}

/// Where the cache keeps the binary of one release.
pub open spec fn cached_path(cache_dir: Seq<char>, version: Seq<char>, target_os: Seq<char>) -> Seq<
    char,
> {
    path_join(
        path_join(cache_dir, version_dir(version), target_os),
        binary_file_name(target_os),
        target_os,
    )
}

/// The release archive of one version for one platform.
pub open spec fn archive_file(version: Seq<char>, os: Seq<char>, arch: Seq<char>) -> Seq<char> {
    "golangci-lint-"@ + version + seq!['-'] + os + seq!['-'] + arch + ".tar.gz"@
}

/// The download URL of a release archive.
pub open spec fn archive_url(version: Seq<char>, archive: Seq<char>) -> Seq<char> {
    "https://github.com/"@ + GITHUB_REPO@ + "/releases/download/v"@ + version + seq!['/'] + archive
}

/// The API URL that describes the latest release.
pub open spec fn latest_release_api_url() -> Seq<char> {
    "https://api.github.com/repos/"@ + GITHUB_REPO@ + "/releases/latest"@
}

/// A release tag without its leading `v`, where it has one.
pub open spec fn tag_version(tag: Seq<char>) -> Seq<char> {
    if tag.len() > 0 && tag[0] == 'v' {
        tag.drop_first()
    } else {
        tag
    }
}

/// The (OS, architecture) names of the release archive built for the
/// target platform, given Rust's names for it.
pub fn platform_info(target_os: &str, target_arch: &str) -> (r: (&'static str, &'static str))
    ensures
        r.0@ == os_name(target_os@),
        r.1@ == arch_name(target_arch@),
{
    let os = if eq_str(target_os, "linux") {
        "linux"
    } else if eq_str(target_os, "macos") {
        "darwin"
    } else if eq_str(target_os, "windows") {
        "windows"
    } else {
        "unknown"
    };
    let arch = if eq_str(target_arch, "x86_64") {
        "amd64"
    } else if eq_str(target_arch, "aarch64") {
        "arm64"
    } else {
        "unknown"
    };
    (os, arch)
}

/// The file name of the golangci-lint binary on the target OS.
pub fn binary_name(target_os: &str) -> (r: &'static str)
    ensures
        r@ == binary_file_name(target_os@),
{
    if eq_str(target_os, "windows") {
        "golangci-lint.exe"
    } else {
        "golangci-lint"
    }
}

/// Whether `s` starts with a Windows drive prefix such as `C:`.
fn drive_prefix(s: &Vec<char>) -> (b: bool)
    ensures
        b == has_drive_prefix(s@),
{
    s.len() >= 2 && s[1] == ':' && (('a' <= s[0] && s[0] <= 'z') || ('A' <= s[0] && s[0] <= 'Z'))
}

/// Joins the component `part` onto the path `base`.
fn push_component(base: &mut String, part: &str, target_os: &str)
    requires
        part@.len() > 0,
        !is_separator(part@[0], target_os@),
    ensures
        final(base)@ == path_join(old(base)@, part@, target_os@),
{
    let windows = eq_str(target_os, "windows");
    let part_chars = crate::text::chars_of(part);
    if windows && drive_prefix(&part_chars) {
        *base = owned(part);
        return;
    }
    let chars = crate::text::chars_of(base.as_str());
    let n = chars.len();
    if n > 0 {
        let last = chars[n - 1];
        let bare_drive = windows && n == 2 && drive_prefix(&chars);
        if !(last == '/' || (windows && last == '\\')) && !bare_drive {
            if windows {
                push_char(base, '\\');
            } else {
                push_char(base, '/');
            }
        }
    }
    base.append(part);
}

/// Where the cache directory keeps the binary of `version`:
/// `<cache_dir>/v<version>/<binary name>`.
pub fn cached_binary_path(cache_dir: &str, version: &str, target_os: &str) -> (r: String)
    ensures
        r@ == cached_path(cache_dir@, version@, target_os@),
{
    let mut dir = owned("v");
    dir.append(version);
    proof {
        reveal_strlit("v");
        assert(dir@ =~= version_dir(version@));
    }
    let mut path = owned(cache_dir);
    push_component(&mut path, dir.as_str(), target_os);
    let name = binary_name(target_os);
    proof {
        reveal_strlit("golangci-lint");
        reveal_strlit("golangci-lint.exe");
    }
    push_component(&mut path, name, target_os);
    path
}

/// The name of the release archive of `version` for a platform:
/// `golangci-lint-<version>-<os>-<arch>.tar.gz`.
pub fn archive_name(version: &str, os: &str, arch: &str) -> (r: String)
    ensures
        r@ == archive_file(version@, os@, arch@),
{
    let mut r = owned("golangci-lint-");
    r.append(version);
    push_char(&mut r, '-');
    r.append(os);
    push_char(&mut r, '-');
    r.append(arch);
    r.append(".tar.gz");
    r
}

/// The download URL of a release archive of `version`.
pub fn download_url(version: &str, archive_name: &str) -> (r: String)
    ensures
        r@ == archive_url(version@, archive_name@),
{
    let mut r = owned("https://github.com/");
    r.append(GITHUB_REPO);
    r.append("/releases/download/v");
    r.append(version);
    push_char(&mut r, '/');
    r.append(archive_name);
    r
}

/// The API URL that describes golangci-lint's latest release.
pub fn latest_release_url() -> (r: String)
    ensures
        r@ == latest_release_api_url(),
{
    let mut r = owned("https://api.github.com/repos/");
    r.append(GITHUB_REPO);
    r.append("/releases/latest");
    r
}

/// The version that a release tag names: the tag without its leading `v`.
pub fn version_from_tag(tag: &str) -> (r: String)
    ensures
        r@ == tag_version(tag@),
{
    let chars = crate::text::chars_of(tag);
    if chars.len() > 0 && chars[0] == 'v' {
        let mut r = String::new();
        let mut i: usize = 1;
        while i < chars.len()
            invariant
                1 <= i <= chars@.len(),
                chars@ == tag@,
                r@ == chars@.subrange(1, i as int),
            decreases chars@.len() - i,
        {
            push_char(&mut r, chars[i]);
            assert(chars@.subrange(1, i + 1) =~= chars@.subrange(1, i as int).push(chars@[i as int]));
            i = i + 1;
        }
        assert(chars@.subrange(1, chars@.len() as int) =~= tag@.drop_first());
        r
    } else {
        owned(tag)
    }
}

/// Where finding or installing the golangci-lint binary stands.
pub enum InstallStep {
    /// Look for `golangci-lint` on `PATH`.
    SearchPath,
    /// Use the binary that the search of `PATH` found.
    UseFoundOnPath,
    /// Determine (and create) the cache directory.
    LocateCache,
    /// Check whether the cached binary at this path exists.
    CheckCache { cache_dir: String, binary: String },
    /// Download the release and unpack it into the cache directory.
    Download { cache_dir: String, binary: String },
    /// Check that the download left a binary at this path.
    Verify { binary: String },
    /// Use the binary at this path.
    Done(String),
    /// Give up with this message.
    Failed(String),
}

/// What the outside world answered to the last step.
pub enum InstallEvent {
    /// Whether the search of `PATH` found a binary.
    PathSearched(bool),
    /// The cache directory is this one.
    CacheLocated(String),
    /// Whether the binary that was asked about exists.
    Exists(bool),
    /// The download and unpacking finished.
    Downloaded,
}

/// `next` is the step that follows `step` once `event` is in, when finding
/// or installing `version` on the target OS: a binary on `PATH` is used as
/// it is; otherwise the cached binary of that version is used where it
/// exists, and the release is downloaded into the cache where it does not;
/// a download that leaves no binary fails. An event that does not answer
/// the step leads nowhere.
pub open spec fn install_transition(
    version: Seq<char>,
    target_os: Seq<char>,
    step: InstallStep,
    event: InstallEvent,
    next: Option<InstallStep>,
) -> bool {
    match (step, event) {
        (InstallStep::SearchPath, InstallEvent::PathSearched(true)) => next == Some(
            InstallStep::UseFoundOnPath,
        ),
        (InstallStep::SearchPath, InstallEvent::PathSearched(false)) => next == Some(
            InstallStep::LocateCache,
        ),
        (InstallStep::LocateCache, InstallEvent::CacheLocated(dir)) => {
            &&& next matches Some(InstallStep::CheckCache { cache_dir, binary })
            &&& cache_dir == dir
            &&& binary@ == cached_path(dir@, version, target_os)
        },
        (InstallStep::CheckCache { cache_dir, binary }, InstallEvent::Exists(true)) => next == Some(
            InstallStep::Done(binary),
        ),
        (InstallStep::CheckCache { cache_dir, binary }, InstallEvent::Exists(false)) => next
            == Some(InstallStep::Download { cache_dir, binary }),
        (InstallStep::Download { cache_dir, binary }, InstallEvent::Downloaded) => next == Some(
            InstallStep::Verify { binary },
        ),
        (InstallStep::Verify { binary }, InstallEvent::Exists(true)) => next == Some(
            InstallStep::Done(binary),
        ),
        (InstallStep::Verify { binary }, InstallEvent::Exists(false)) => {
            &&& next matches Some(InstallStep::Failed(m))
            &&& m@ == install_failure(version)
        },
        _ => next is None,
    }
}

/// The message of a failed installation.
pub open spec fn install_failure(version: Seq<char>) -> Seq<char> {
    "Failed to install golangci-lint v"@ + version + ". Binary not found after download."@
}

/// The step that follows `step` once `event` is in, when finding or
/// installing `version` on the target OS; `None` where the event does not
/// answer the step.
pub fn install_next(version: &str, target_os: &str, step: InstallStep, event: InstallEvent) -> (next:
    Option<InstallStep>)
    ensures
        install_transition(version@, target_os@, step, event, next),
{
    match (step, event) {
        (InstallStep::SearchPath, InstallEvent::PathSearched(found)) => {
            if found {
                Some(InstallStep::UseFoundOnPath)
            } else {
                Some(InstallStep::LocateCache)
            }
        },
        (InstallStep::LocateCache, InstallEvent::CacheLocated(dir)) => {
            let binary = cached_binary_path(dir.as_str(), version, target_os);
            Some(InstallStep::CheckCache { cache_dir: dir, binary })
        },
        (InstallStep::CheckCache { cache_dir, binary }, InstallEvent::Exists(exists)) => {
            if exists {
                Some(InstallStep::Done(binary))
            } else {
                Some(InstallStep::Download { cache_dir, binary })
            }
        },
        (InstallStep::Download { cache_dir, binary }, InstallEvent::Downloaded) => Some(
            InstallStep::Verify { binary },
        ),
        (InstallStep::Verify { binary }, InstallEvent::Exists(exists)) => {
            if exists {
                Some(InstallStep::Done(binary))
            } else {
                let mut m = owned("Failed to install golangci-lint v");
                m.append(version);
                m.append(". Binary not found after download.");
                Some(InstallStep::Failed(m))
            }
        },
        _ => None,
    }
}

} // verus!

verus! {

/// A tag `v<version>` names `<version>`; a tag without a leading `v` names
/// itself.
pub proof fn lemma_tag_version(version: Seq<char>)
    ensures
        tag_version(seq!['v'] + version) == version,
        (version.len() == 0 || version[0] != 'v') ==> tag_version(version) == version,
{
    assert((seq!['v'] + version).drop_first() =~= version);
}

/// The cached binary lies in the `v<version>` directory and ends with the
/// binary's file name.
pub proof fn lemma_cached_path_shape(cache_dir: Seq<char>, version: Seq<char>, target_os: Seq<char>)
    ensures
        crate::text::has_suffix(
            cached_path(cache_dir, version, target_os),
            binary_file_name(target_os),
        ),
        crate::text::has_substring(cached_path(cache_dir, version, target_os), version_dir(version)),
{
    let dir = path_join(cache_dir, version_dir(version), target_os);
    let p = cached_path(cache_dir, version, target_os);
    let b = binary_file_name(target_os);
    let v = version_dir(version);
    reveal_strlit("golangci-lint");
    reveal_strlit("golangci-lint.exe");
    assert(!has_drive_prefix(b));
    assert(dir.subrange(dir.len() - v.len(), dir.len() as int) =~= v);
    assert(p.subrange(0, dir.len() as int) =~= dir);
    assert(p.subrange(p.len() - b.len(), p.len() as int) =~= b);
    let start = dir.len() - v.len();
    assert(p.subrange(start, start + v.len()) =~= dir.subrange(start, dir.len() as int));
}

} // verus!

verus! {

/// What each step of an installation of `version` holds: the binary that
/// is checked, downloaded, verified or used lies where the cache keeps that
/// version, and a failure carries the installation's message.
pub open spec fn install_step_ok(version: Seq<char>, target_os: Seq<char>, step: InstallStep) -> bool {
    match step {
        InstallStep::CheckCache { cache_dir, binary } => binary@ == cached_path(
            cache_dir@,
            version,
            target_os,
        ),
        InstallStep::Download { cache_dir, binary } => binary@ == cached_path(
            cache_dir@,
            version,
            target_os,
        ),
        InstallStep::Verify { binary } => exists|dir: Seq<char>|
            binary@ == #[trigger] cached_path(dir, version, target_os),
        InstallStep::Done(binary) => exists|dir: Seq<char>|
            binary@ == #[trigger] cached_path(dir, version, target_os),
        InstallStep::Failed(message) => message@ == install_failure(version),
        _ => true,
    }
}

/// Every step keeps `install_step_ok`: whatever the outside world answers,
/// a binary that is not the one found on `PATH` is always the cached binary
/// of the requested version.
pub proof fn lemma_install_steps_stay_in_cache(
    version: Seq<char>,
    target_os: Seq<char>,
    step: InstallStep,
    event: InstallEvent,
    next: Option<InstallStep>,
)
    requires
        install_step_ok(version, target_os, step),
        install_transition(version, target_os, step, event, next),
    ensures
        next matches Some(n) ==> install_step_ok(version, target_os, n),
{
    match (step, event) {
        (InstallStep::CheckCache { cache_dir, binary }, InstallEvent::Exists(true)) => {
            assert(binary@ == cached_path(cache_dir@, version, target_os));
        },
        (InstallStep::Download { cache_dir, binary }, InstallEvent::Downloaded) => {
            assert(binary@ == cached_path(cache_dir@, version, target_os));
        },
        _ => {},
    }
}

} // verus!

verus! {

/// The paths that a `.tar.gz` archive records for its members, in order, up
/// to the first member that cannot be read, then the message of the error
/// that stopped the reading, if one did.
pub uninterp spec fn tar_gz_paths(archive: Seq<u8>) -> (Seq<Seq<u8>>, Option<Seq<char>>);

/// Lists the members of a gzip-compressed tar archive held in memory,
/// through `flate2::read::GzDecoder`, `tar::Archive::entries` and
/// `Entry::path_bytes`.
///
/// Trusted: the members come in the archive's order, each with the path
/// that tar records for it (long GNU names and PAX paths included); the
/// listing stops at the first error, whose message is returned. What the
/// members are is named, not stated: it is a function of the archive's
/// bytes alone.
#[verifier::external_body]
pub fn read_tar_gz(archive: &[u8]) -> (r: (Vec<Vec<u8>>, Option<String>))
    ensures
        (r.0@.map_values(|p: Vec<u8>| p@), opt_string_chars(r.1)) == tar_gz_paths(archive@),
{
    let mut out = Vec::new();
    let mut reader = tar::Archive::new(flate2::read::GzDecoder::new(archive));
    let entries = match reader.entries() { Ok(e) => e, Err(e) => return (out, Some(e.to_string())) };
    for entry in entries {
        match entry { Ok(e) => out.push(e.path_bytes().into_owned()), Err(e) => return (out, Some(e.to_string())) }
    }
    (out, None)
}

/// A byte that separates path components on the target OS: `/`, and on
/// Windows also `\`.
pub open spec fn is_separator_byte(b: u8, windows: bool) -> bool {
    b == 47u8 || (windows && b == 92u8)
}

/// An ASCII letter.
pub open spec fn is_ascii_letter(b: u8) -> bool {
    (65u8 <= b && b <= 90u8) || (97u8 <= b && b <= 122u8)
}

/// Where the components of a path start: after a Windows drive prefix such
/// as `C:`, at the start otherwise.
pub open spec fn components_start(p: Seq<u8>, windows: bool) -> int {
    if windows && p.len() >= 2 && p[1] == 58u8 && is_ascii_letter(p[0]) {
        2
    } else {
        0
    }
}

/// Where the path component that ends at `n` starts: just after the last
/// separator between `lo` and `n`, or at `lo`.
pub open spec fn component_start(p: Seq<u8>, lo: int, n: int, windows: bool) -> int
    decreases n - lo,
{
    if n <= lo {
        lo
    } else if is_separator_byte(p[n - 1], windows) {
        n
    } else {
        component_start(p, lo, n - 1, windows)
    }
}

/// Where the file name of the path's bytes from `lo` to `n` lies: its last
/// component once empty and `.` components are left out; none where that
/// component is `..` or there is none.
pub open spec fn file_name_range(p: Seq<u8>, lo: int, n: int, windows: bool) -> Option<(int, int)>
    decreases n - lo,
{
    if n <= lo {
        None
    } else if is_separator_byte(p[n - 1], windows) {
        file_name_range(p, lo, n - 1, windows)
    } else {
        let s = component_start(p, lo, n, windows);
        if n - s == 1 && p[s] == 46u8 {
            if lo <= s < n {
                file_name_range(p, lo, s, windows)
            } else {
                None
            }
        } else if n - s == 2 && p[s] == 46u8 && p[s + 1] == 46u8 {
            None
        } else {
            Some((s, n))
        }
    }
}

/// The file name of a member's path, as `Path::file_name` finds it on the
/// target OS.
pub open spec fn file_name_of(p: Seq<u8>, windows: bool) -> Option<Seq<u8>> {
    match file_name_range(p, components_start(p, windows), p.len() as int, windows) {
        Some((s, e)) => Some(p.subrange(s, e)),
        None => None,
    }
}

/// The component start lies between `lo` and `n`.
proof fn lemma_component_start_bounds(p: Seq<u8>, lo: int, n: int, windows: bool)
    requires
        0 <= lo <= n <= p.len(),
    ensures
        lo <= component_start(p, lo, n, windows) <= n,
        n > lo && !is_separator_byte(p[n - 1], windows) ==> component_start(p, lo, n, windows)
            < n,
    decreases n - lo,
{
    if n > lo && !is_separator_byte(p[n - 1], windows) {
        lemma_component_start_bounds(p, lo, n - 1, windows);
    }
}

/// Whether `b` separates path components on the target OS.
fn separator_byte(b: u8, windows: bool) -> (r: bool)
    ensures
        r == is_separator_byte(b, windows),
{
    b == 47u8 || (windows && b == 92u8)
}

/// Where the components of `p` start.
fn components_start_of(p: &[u8], windows: bool) -> (r: usize)
    ensures
        r == components_start(p@, windows),
{
    if windows && p.len() >= 2 && p[1] == 58u8 && ((65u8 <= p[0] && p[0] <= 90u8) || (97u8
        <= p[0] && p[0] <= 122u8)) {
        2
    } else {
        0
    }
}

/// Where the component ending at `n` starts.
fn component_start_of(p: &[u8], lo: usize, n: usize, windows: bool) -> (s: usize)
    requires
        lo <= n <= p@.len(),
    ensures
        s == component_start(p@, lo as int, n as int, windows),
{
    let mut k = n;
    while k > lo && !separator_byte(p[k - 1], windows)
        invariant
            lo <= k <= n <= p@.len(),
            component_start(p@, lo as int, n as int, windows) == component_start(
                p@,
                lo as int,
                k as int,
                windows,
            ),
        decreases k,
    {
        k = k - 1;
    }
    k
}

/// Where the file name of `p` lies, if it has one.
fn file_name_span(p: &[u8], windows: bool) -> (r: Option<(usize, usize)>)
    ensures
        match r {
            Some((s, e)) => file_name_range(
                p@,
                components_start(p@, windows),
                p@.len() as int,
                windows,
            ) == Some((s as int, e as int)) && s <= e <= p@.len(),
            None => file_name_range(
                p@,
                components_start(p@, windows),
                p@.len() as int,
                windows,
            ) is None,
        },
{
    let lo = components_start_of(p, windows);
    let mut n = p.len();
    loop
        invariant
            lo <= n <= p@.len(),
            lo == components_start(p@, windows),
            file_name_range(p@, lo as int, p@.len() as int, windows) == file_name_range(
                p@,
                lo as int,
                n as int,
                windows,
            ),
        decreases n,
    {
        if n == lo {
            return None;
        }
        if separator_byte(p[n - 1], windows) {
            n = n - 1;
        } else {
            let s = component_start_of(p, lo, n, windows);
            proof {
                lemma_component_start_bounds(p@, lo as int, n as int, windows);
            }
            if n - s == 1 && p[s] == 46u8 {
                n = s;
            } else if n - s == 2 && p[s] == 46u8 && p[s + 1] == 46u8 {
                return None;
            } else {
                return Some((s, n));
            }
        }
    }
}

/// Whether the bytes of `a` from `start` to `end` are those of `b`.
fn bytes_equal(a: &[u8], start: usize, end: usize, b: &[u8]) -> (r: bool)
    requires
        start <= end <= a@.len(),
    ensures
        r == (a@.subrange(start as int, end as int) == b@),
{
    if end - start != b.len() {
        return false;
    }
    let mut i: usize = 0;
    while i < b.len()
        invariant
            i <= b@.len(),
            end - start == b@.len(),
            start <= end <= a@.len(),
            forall|k: int| 0 <= k < i ==> a@[start + k] == b@[k],
        decreases b@.len() - i,
    {
        if a[start + i] != b[i] {
            assert(a@.subrange(start as int, end as int)[i as int] != b@[i as int]);
            return false;
        }
        i = i + 1;
    }
    assert(a@.subrange(start as int, end as int) =~= b@);
    true
}

/// Whether the file name of `path` is `wanted`.
fn has_file_name(path: &Vec<u8>, wanted: &[u8], windows: bool) -> (b: bool)
    ensures
        b == (file_name_of(path@, windows) == Some(wanted@)),
{
    let p = path.as_slice();
    match file_name_span(p, windows) {
        Some((s, e)) => bytes_equal(p, s, e, wanted),
        None => false,
    }
}

/// The first path whose file name is `name`.
pub open spec fn first_named(paths: Seq<Seq<u8>>, name: Seq<u8>, windows: bool) -> Option<int> {
    if exists|i: int|
        0 <= i < paths.len() && #[trigger] file_name_of(paths[i], windows) == Some(name) && forall|
            j: int,
        | 0 <= j < i ==> #[trigger] file_name_of(paths[j], windows) != Some(name) {
        Some(
            choose|i: int|
                0 <= i < paths.len() && #[trigger] file_name_of(paths[i], windows) == Some(name)
                    && forall|j: int|
                    0 <= j < i ==> #[trigger] file_name_of(paths[j], windows) != Some(name),
        )
    } else {
        None
    }
}

/// The message of an archive that holds no golangci-lint binary.
pub open spec fn binary_missing(archive_name: Seq<char>) -> Seq<char> {
    "golangci-lint binary not found in archive "@ + archive_name
}

/// Where the golangci-lint binary stands among an archive's listed members
/// (on the target OS named by Rust's name for it): the first member whose
/// file name is `binary_name`; where there is none, the error that stopped
/// the listing, or else the message that the archive holds no binary.
pub fn binary_in_archive(
    paths: &Vec<Vec<u8>>,
    error: Option<String>,
    binary_name: &str,
    archive_name: &str,
    target_os: &str,
) -> (r: Result<usize, String>)
    ensures
        match first_named(
            paths@.map_values(|p: Vec<u8>| p@),
            binary_name.spec_bytes(),
            target_os@ == "windows"@,
        ) {
            Some(i) => r == Ok::<usize, String>(i as usize),
            None => match error {
                Some(e) => r matches Err(m) && m == e,
                None => r matches Err(m) && m@ == binary_missing(archive_name@),
            },
        },
{
    let windows = eq_str(target_os, "windows");
    let ghost view = paths@.map_values(|p: Vec<u8>| p@);
    let ghost name = binary_name.spec_bytes();
    let wanted = binary_name.as_bytes();
    let mut i: usize = 0;
    while i < paths.len()
        invariant
            i <= paths@.len(),
            view == paths@.map_values(|p: Vec<u8>| p@),
            name == wanted@,
            name == binary_name.spec_bytes(),
            windows == (target_os@ == "windows"@),
            forall|j: int| 0 <= j < i ==> #[trigger] file_name_of(view[j], windows) != Some(name),
        decreases paths@.len() - i,
    {
        let found = has_file_name(&paths[i], wanted, windows);
        assert(view[i as int] == paths@[i as int]@);
        if found {
            proof {
                assert(0 <= i < view.len() && file_name_of(view[i as int], windows) == Some(name)
                    && forall|j: int|
                    0 <= j < i ==> #[trigger] file_name_of(view[j], windows) != Some(name));
                let c = first_named(view, name, windows).unwrap();
                if c < i {
                    assert(file_name_of(view[c], windows) != Some(name));
                } else if c > i {
                    assert(file_name_of(view[i as int], windows) != Some(name));
                }
            }
            return Ok(i);
        }
        i = i + 1;
    }
    match error {
        Some(e) => Err(e),
        None => {
            let mut m = owned("golangci-lint binary not found in archive ");
            m.append(archive_name);
            Err(m)
        },
    }
}

/// Where the golangci-lint binary stands among the members of a `.tar.gz`
/// archive, on the target OS: as `binary_in_archive` finds it among the
/// members that the archive lists.
pub fn binary_from_archive(archive: &[u8], binary_name: &str, archive_name: &str, target_os: &str) -> (r:
    Result<usize, String>)
    ensures
        match first_named(tar_gz_paths(archive@).0, binary_name.spec_bytes(), target_os@ == "windows"@) {
            Some(i) => r == Ok::<usize, String>(i as usize),
            None => match tar_gz_paths(archive@).1 {
                Some(e) => r matches Err(m) && m@ == e,
                None => r matches Err(m) && m@ == binary_missing(archive_name@),
            },
        },
{
    let (paths, error) = read_tar_gz(archive);
    binary_in_archive(&paths, error, binary_name, archive_name, target_os)
}
} // verus!

verus! {

/// Which golangci-lint release a run uses.
pub enum ReleaseChoice {
    /// The release that the configuration pins.
    Pinned(String),
    /// The latest release, as GitHub reports it.
    Latest,
}

/// The release to use: the configured `version` where there is one, the
/// latest release otherwise.
pub fn release_choice(version: Option<String>) -> (r: ReleaseChoice)
    ensures
        match version {
            Some(v) => r matches ReleaseChoice::Pinned(p) && p == v,
            None => r is Latest,
        },
{
    match version {
        Some(v) => ReleaseChoice::Pinned(v),
        None => ReleaseChoice::Latest,
    }
}

/// The version that the latest-release response names through its
/// `tag_name` (a string, where it has one): the tag without its leading
/// `v`; without a tag, the error that says so.
pub fn release_version(tag: Option<&str>) -> (r: Result<String, String>)
    ensures
        match tag {
            Some(t) => r matches Ok(v) && v@ == tag_version(t@),
            None => r matches Err(m) && m@ == "No tag_name in release response"@,
        },
{
    match tag {
        Some(t) => Ok(version_from_tag(t)),
        None => Err(owned("No tag_name in release response")),
    }
}

} // verus!

verus! {

/// A verified download is used: once the binary checked after a download
/// exists, the next step uses that very binary, and never fails.
pub proof fn lemma_verified_download_is_used(
    version: Seq<char>,
    target_os: Seq<char>,
    binary: String,
    next: Option<InstallStep>,
)
    requires
        install_transition(
            version,
            target_os,
            InstallStep::Verify { binary },
            InstallEvent::Exists(true),
            next,
        ),
    ensures
        next == Some(InstallStep::Done(binary)),
{
}

/// An installation fails only when the binary is missing after the
/// download: every step into `Failed` comes from checking, after a
/// download, a binary that does not exist.
pub proof fn lemma_failure_only_when_missing(
    version: Seq<char>,
    target_os: Seq<char>,
    step: InstallStep,
    event: InstallEvent,
    next: Option<InstallStep>,
)
    requires
        install_transition(version, target_os, step, event, next),
        next matches Some(InstallStep::Failed(_)),
    ensures
        step is Verify,
        event == InstallEvent::Exists(false),
{
}

} // verus!

verus! {

/// The archive member that is picked is named after the binary, and no
/// member before it is.
pub proof fn lemma_first_named_is_first(paths: Seq<Seq<u8>>, name: Seq<u8>, windows: bool)
    ensures
        first_named(paths, name, windows) matches Some(i) ==> {
            &&& 0 <= i < paths.len()
            &&& file_name_of(paths[i], windows) == Some(name)
            &&& forall|j: int| 0 <= j < i ==> file_name_of(#[trigger] paths[j], windows) != Some(name)
        },
        first_named(paths, name, windows) is None ==> forall|j: int|
            0 <= j < paths.len() ==> file_name_of(#[trigger] paths[j], windows) != Some(name),
{
    if first_named(paths, name, windows) is None {
        assert forall|j: int| 0 <= j < paths.len() implies file_name_of(#[trigger] paths[j], windows)
            != Some(name) by {
            if file_name_of(paths[j], windows) == Some(name) {
                lemma_some_first(paths, name, windows, j);
            }
        }
    }
}

/// Where some member is named after the binary, there is a first one.
proof fn lemma_some_first(paths: Seq<Seq<u8>>, name: Seq<u8>, windows: bool, j: int)
    requires
        0 <= j < paths.len(),
        file_name_of(paths[j], windows) == Some(name),
    ensures
        first_named(paths, name, windows) is Some,
    decreases j,
{
    if exists|k: int| 0 <= k < j && #[trigger] file_name_of(paths[k], windows) == Some(name) {
        let k = choose|k: int| 0 <= k < j && #[trigger] file_name_of(paths[k], windows) == Some(name);
        lemma_some_first(paths, name, windows, k);
    } else {
        assert(0 <= j < paths.len() && file_name_of(paths[j], windows) == Some(name) && forall|
            k: int,
        | 0 <= k < j ==> #[trigger] file_name_of(paths[k], windows) != Some(name));
    }
}

/// Within a run of bytes without separators that follows a separator, the
/// component that ends anywhere in the run starts just after that separator.
proof fn lemma_component_start_in_run(p: Seq<u8>, lo: int, s: int, m: int, windows: bool)
    requires
        0 <= lo < s <= m <= p.len(),
        is_separator_byte(p[s - 1], windows),
        forall|k: int| s <= k < m ==> !is_separator_byte(#[trigger] p[k], windows),
    ensures
        component_start(p, lo, m, windows) == s,
    decreases m - s,
{
    if m > s {
        lemma_component_start_in_run(p, lo, s, m - 1, windows);
    }
}

/// The file name of `dir/name` is `name`, for any non-empty `dir` and any
/// `name` that holds no separator and is neither `.` nor `..`.
pub proof fn lemma_file_name_of_last_component(dir: Seq<u8>, name: Seq<u8>, windows: bool)
    requires
        dir.len() > 0,
        name.len() > 0,
        forall|k: int| 0 <= k < name.len() ==> !is_separator_byte(#[trigger] name[k], windows),
        name != seq![46u8],
        name != seq![46u8, 46u8],
    ensures
        file_name_of(dir + seq![47u8] + name, windows) == Some(name),
{
    let p = dir + seq![47u8] + name;
    let s: int = (dir.len() + 1) as int;
    let lo = components_start(p, windows);
    assert(p[s - 1] == 47u8);
    assert(lo <= dir.len()) by {
        if lo == 2 {
            assert(p[1] == 58u8);
        }
    }
    assert forall|k: int| s <= k < p.len() implies !is_separator_byte(#[trigger] p[k], windows) by {
        assert(p[k] == name[k - s]);
    }
    lemma_component_start_in_run(p, lo, s, p.len() as int, windows);
    assert(p.subrange(s, p.len() as int) =~= name);
    if name.len() == 1 && p[s] == 46u8 {
        assert(name =~= seq![46u8]);
    }
    if name.len() == 2 && p[s] == 46u8 && p[s + 1] == 46u8 {
        assert(name =~= seq![46u8, 46u8]);
    }
}

/// The platform names of a release archive are always among those that
/// golangci-lint publishes, or `unknown`.
pub proof fn lemma_platform_names_known(target_os: Seq<char>, target_arch: Seq<char>)
    ensures
        os_name(target_os) == "linux"@ || os_name(target_os) == "darwin"@ || os_name(target_os)
            == "windows"@ || os_name(target_os) == "unknown"@,
        arch_name(target_arch) == "amd64"@ || arch_name(target_arch) == "arm64"@ || arch_name(
            target_arch,
        ) == "unknown"@,
        target_os == "macos"@ ==> os_name(target_os) == "darwin"@,
        target_arch == "x86_64"@ ==> arch_name(target_arch) == "amd64"@,
        target_arch == "aarch64"@ ==> arch_name(target_arch) == "arm64"@,
{
    reveal_strlit("linux");
    reveal_strlit("macos");
    reveal_strlit("windows");
    reveal_strlit("x86_64");
    reveal_strlit("aarch64");
    assert("linux"@[0] != "macos"@[0]);
    assert("x86_64"@.len() != "aarch64"@.len());
    assert("windows"@ != "macos"@);
}

} // verus!
