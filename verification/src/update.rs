//! Self-update: choosing the release asset for this platform, deciding
//! whether an update or a hot fix is due, checking the download's SHA-256
//! digest, and writing the Windows replacement script.
use vstd::prelude::*;
use crate::digest::{hex_lower, sha256, sha256_hex};
use crate::text::{
    ascii_lower, ascii_lower_chars, chars_eq, chars_of, concat_chars, contains_chars,
    contains_seq, occurs_at, ends_with_chars, extend_chars, find_chars, find_seq, has_suffix, is_digit,
    slice_range, split_chars, split_on, string_of, trim, trim_chars, views,
};

verus! {

/// How an update attempt ended.
#[derive(Clone, Copy, Debug, PartialEq, Eq, Structural)]
pub enum UpdateOutcome {
    /// Already the latest version.
    UpToDate,
    /// No update attempted (development build).
    Skipped,
    /// The update was started (the program is about to restart).
    UpdateLaunched,
}

/// Why an update check or update failed.
#[derive(Clone, Debug)]
pub enum UpdateError {
    /// The latest release has no tag name.
    MissingTag,
    /// No asset of the latest release is built for this platform.
    NoMatchingAsset { platform_key: String },
    /// The downloaded file's SHA-256 digest is not the published one.
    HashMismatch { actual: String, expected: String },
    /// A network or file-system step failed, with its message.
    Other(String),
}

/// A file attached to a GitHub release.
#[derive(Clone, Debug)]
pub struct ReleaseAsset {
    pub name: String,
    pub size: Option<u64>,
    pub browser_download_url: String,
    /// Digest as GitHub publishes it, such as `sha256:<hex>`.
    pub digest: Option<String>,
}

/// The latest GitHub release.
#[derive(Clone, Debug)]
pub struct ReleaseInfo {
    pub name: Option<String>,
    pub tag_name: Option<String>,
    pub assets: Vec<ReleaseAsset>,
}

/// The release asset chosen for this platform.
#[derive(Clone, Debug)]
pub struct MatchedAsset {
    pub release_name: String,
    pub tag_name: String,
    pub download_url: String,
    pub size: u64,
    /// Expected SHA-256 digest (64 hex digits), when published.
    pub sha256: Option<String>,
}

/// The GitHub API address of the project's latest release.
pub fn github_latest_release_url() -> (s: String)
    ensures
        s@ == "https://api.github.com/repos/zhongbai2333/RustEpubReader/releases/latest"@,
{
    String::from_str("https://api.github.com/repos/zhongbai2333/RustEpubReader/releases/latest")
}

/// Two digests are equal when they match after trimming, ignoring ASCII case.
pub open spec fn same_hash(a: Seq<char>, b: Seq<char>) -> bool {
    trim(a).map_values(|c: char| ascii_lower(c)) == trim(b).map_values(|c: char| ascii_lower(c))
}

/// Whether two hex digests are the same.
pub fn eq_hash(a: &str, b: &str) -> (r: bool)
    ensures
        r == same_hash(a@, b@),
{
    let x = ascii_lower_chars(&trim_chars(&chars_of(a)));
    let y = ascii_lower_chars(&trim_chars(&chars_of(b)));
    chars_eq(&x, &y)
}

/// The download mirror's address for a GitHub release download URL: the
/// text between `/releases/download/` and its next occurrence (or the end) is
/// appended to the mirror's release path; other URLs are kept.
pub open spec fn accelerated_url(url: Seq<char>) -> Seq<char> {
    let marker = "/releases/download/"@;
    match find_seq(url, marker) {
        None => url,
        Some(i) => {
            let tail = url.skip(i + marker.len());
            let piece = match find_seq(tail, marker) {
                None => tail,
                Some(j) => tail.take(j),
            };
            "https://dl.zhongbai233.com/release/"@ + piece
        },
    }
}

/// Rewrites a GitHub release download URL to the download mirror.
pub fn get_accelerated_url(original_url: &str) -> (s: String)
    ensures
        s@ == accelerated_url(original_url@),
{
    let url = chars_of(original_url);
    let marker = chars_of("/releases/download/");
    match find_chars(&url, &marker) {
        None => string_of(&url),
        Some(i) => {
            let n = url.len();
            let tail = slice_range(&url, i + marker.len(), n);
            assert(tail@ == url@.skip(i + marker@.len()));
            let piece = match find_chars(&tail, &marker) {
                None => tail,
                Some(j) => {
                    let p = slice_range(&tail, 0, j);
                    assert(p@ == tail@.take(j as int));
                    p
                },
            };
            string_of(&concat_chars(&chars_of("https://dl.zhongbai233.com/release/"), &piece))
        },
    }
}

/// The platform keyword that release asset names carry:
/// `Linux_amd64`/`Linux_arm64`, `Win64`/`WinArm64`, `macOS_amd64`/`macOS_arm64`;
/// other architectures keep their name and other systems use the system name.
pub open spec fn platform_keyword(os: Seq<char>, arch: Seq<char>) -> Seq<char> {
    let arch_key = if arch == "x86_64"@ {
        "amd64"@
    } else if arch == "aarch64"@ {
        "arm64"@
    } else {
        arch
    };
    if os == "linux"@ {
        "Linux_"@ + arch_key
    } else if os == "windows"@ {
        if arch_key == "arm64"@ {
            "WinArm64"@
        } else {
            "Win64"@
        }
    } else if os == "macos"@ {
        "macOS_"@ + arch_key
    } else {
        os
    }
}

/// The platform keyword for the operating system `os` and architecture
/// `arch` (as `std::env::consts` names them).
pub fn detect_platform_keyword(os: &str, arch: &str) -> (s: String)
    ensures
        s@ == platform_keyword(os@, arch@),
{
    let o = chars_of(os);
    let a = chars_of(arch);
    let arch_key = if chars_eq(&a, &chars_of("x86_64")) {
        chars_of("amd64")
    } else if chars_eq(&a, &chars_of("aarch64")) {
        chars_of("arm64")
    } else {
        a
    };
    if chars_eq(&o, &chars_of("linux")) {
        string_of(&concat_chars(&chars_of("Linux_"), &arch_key))
    } else if chars_eq(&o, &chars_of("windows")) {
        if chars_eq(&arch_key, &chars_of("arm64")) {
            String::from_str("WinArm64")
        } else {
            String::from_str("Win64")
        }
    } else if chars_eq(&o, &chars_of("macos")) {
        string_of(&concat_chars(&chars_of("macOS_"), &arch_key))
    } else {
        string_of(&o)
    }
}

/// The platform keyword table: Linux, Windows and macOS on x86_64 and
/// aarch64 give the six names that release assets carry, and any other
/// operating system gives its own name, whatever the architecture.
pub proof fn law_platform_keyword_table(os: Seq<char>, arch: Seq<char>)
    ensures
        platform_keyword("linux"@, "x86_64"@) == "Linux_amd64"@,
        platform_keyword("linux"@, "aarch64"@) == "Linux_arm64"@,
        platform_keyword("windows"@, "x86_64"@) == "Win64"@,
        platform_keyword("windows"@, "aarch64"@) == "WinArm64"@,
        platform_keyword("macos"@, "x86_64"@) == "macOS_amd64"@,
        platform_keyword("macos"@, "aarch64"@) == "macOS_arm64"@,
        os != "linux"@ && os != "windows"@ && os != "macos"@ ==> platform_keyword(os, arch) == os,
{
    reveal_strlit("linux");
    reveal_strlit("windows");
    reveal_strlit("macos");
    reveal_strlit("x86_64");
    reveal_strlit("aarch64");
    reveal_strlit("amd64");
    reveal_strlit("arm64");
    reveal_strlit("Linux_");
    reveal_strlit("macOS_");
    reveal_strlit("Linux_amd64");
    reveal_strlit("Linux_arm64");
    reveal_strlit("macOS_amd64");
    reveal_strlit("macOS_arm64");
    assert("aarch64"@.len() != "x86_64"@.len());
    assert("amd64"@[1] != "arm64"@[1]);
    assert("windows"@.len() != "linux"@.len());
    assert("macos"@[0] != "linux"@[0]);
    assert("macos"@.len() != "windows"@.len());
    assert("Linux_"@ + "amd64"@ =~= "Linux_amd64"@);
    assert("Linux_"@ + "arm64"@ =~= "Linux_arm64"@);
    assert("macOS_"@ + "amd64"@ =~= "macOS_amd64"@);
    assert("macOS_"@ + "arm64"@ =~= "macOS_arm64"@);
}

/// The file name the updated executable gets:
/// `RustEpubReader-<platform>`, with `.exe` on Windows.
pub open spec fn executable_name(platform_key: Seq<char>, windows: bool) -> Seq<char> {
    "RustEpubReader-"@ + platform_key + if windows {
        ".exe"@
    } else {
        Seq::empty()
    }
}

/// The canonical executable file name for a platform.
pub fn canonical_executable_name(platform_key: &str, windows: bool) -> (s: String)
    ensures
        s@ == executable_name(platform_key@, windows),
{
    let mut v = concat_chars(&chars_of("RustEpubReader-"), &chars_of(platform_key));
    if windows {
        extend_chars(&mut v, &chars_of(".exe"));
    }
    string_of(&v)
}

/// A path separator: `/`, and also `\\` on Windows.
pub open spec fn is_path_separator(c: char, windows: bool) -> bool {
    c == '/' || (windows && c == '\\')
}

/// The index of the last path separator in `p`, if any.
pub open spec fn last_separator(p: Seq<char>, windows: bool) -> Option<int>
    decreases p.len(),
{
    if p.len() == 0 {
        None
    } else if is_path_separator(p.last(), windows) {
        Some(p.len() - 1)
    } else {
        last_separator(p.drop_last(), windows)
    }
}

/// On Windows, `p` starts with a drive prefix: a letter and a colon.
pub open spec fn has_drive(p: Seq<char>, windows: bool) -> bool {
    windows && p.len() >= 2 && (('A' <= p[0] && p[0] <= 'Z') || ('a' <= p[0] && p[0] <= 'z')) && p[1] == ':'
}

/// On Windows, `p` is a drive prefix alone (`C:`).
pub open spec fn is_bare_drive(p: Seq<char>, windows: bool) -> bool {
    has_drive(p, windows) && p.len() == 2
}

/// The directory that holds the last component of `p`, as `Path::parent`
/// gives it: what ends the path and names no component (separators, `.`
/// after a separator) is dropped first, then the last component with the
/// separators and `.` components before it; a root stays a root, and on
/// Windows a drive keeps its root (`C:\`) or, without one, stays a bare
/// drive (`C:`). None when no component is left (the empty path, a root or a
/// drive alone) or the path is `.`.
pub open spec fn parent_dir(p: Seq<char>, windows: bool) -> Option<Seq<char>> {
    let t = trim_path_end(p, windows);
    if t.len() == 0 || t == "."@ || is_bare_drive(t, windows) {
        None
    } else {
        match last_separator(t, windows) {
            None => if has_drive(t, windows) {
                Some(t.take(2))
            } else {
                Some(Seq::<char>::empty())
            },
            Some(i) => {
                let d = trim_path_end(t.take(i), windows);
                if d.len() == 0 {
                    Some(t.take(1))
                } else if is_bare_drive(d, windows) {
                    Some(t.take(3))
                } else {
                    Some(d)
                }
            },
        }
    }
}

/// `dir` joined with the file name `name`, as `Path::join` does: the name
/// alone under an empty directory, no separator after a bare drive or after
/// one that ends `dir`.
pub open spec fn join_file_name(dir: Seq<char>, name: Seq<char>, windows: bool) -> Seq<char> {
    if dir.len() == 0 {
        name
    } else if is_path_separator(dir.last(), windows) || is_bare_drive(dir, windows) {
        dir + name
    } else {
        dir + seq![if windows { '\\' } else { '/' }] + name
    }
}

/// The path of the canonical executable next to the running one at
/// `exe_path`: its parent directory joined with the canonical name. None
/// when `exe_path` has no parent directory.
pub open spec fn target_path_spec(exe_path: Seq<char>, platform_key: Seq<char>, windows: bool) -> Option<Seq<char>> {
    match parent_dir(exe_path, windows) {
        None => None,
        Some(d) => Some(join_file_name(d, executable_name(platform_key, windows), windows)),
    }
}

/// The index of the last separator in `p@.take(end)`.
fn last_separator_before(p: &Vec<char>, end: usize, windows: bool) -> (r: Option<usize>)
    requires
        end <= p.len(),
    ensures
        match r {
            None => last_separator(p@.take(end as int), windows) is None,
            Some(i) => last_separator(p@.take(end as int), windows) == Some(i as int) && i < end,
        },
{
    let mut i = end;
    while i > 0
        invariant
            i <= end,
            end <= p.len(),
            last_separator(p@.take(end as int), windows) == last_separator(p@.take(i as int), windows),
        decreases i,
    {
        assert(p@.take(i as int).drop_last() =~= p@.take(i - 1));
        let c = p[i - 1];
        assert(p@.take(i as int).last() == c);
        if c == '/' || (windows && c == '\\') {
            return Some(i - 1);
        }
        i = i - 1;
    }
    None
}

/// The path of the canonical executable next to the running executable
/// `exe_path` (see `target_path_spec`); an error when it has no parent
/// directory.
pub fn target_executable_path(exe_path: &str, platform_key: &str, windows: bool) -> (r: Result<String, UpdateError>)
    ensures
        match r {
            Ok(p) => target_path_spec(exe_path@, platform_key@, windows) == Some(p@),
            Err(e) => target_path_spec(exe_path@, platform_key@, windows) is None
                && e == UpdateError::Other(e->Other_0) && e->Other_0@ == "cannot determine executable directory"@,
        },
{
    let p = chars_of(exe_path);
    let name = chars_of(canonical_executable_name(platform_key, windows).as_str());
    let t_end = trimmed_path_end(&p, p.len(), windows);
    assert(p@.take(p.len() as int) =~= p@);
    let ghost t = p@.take(t_end as int);
    let drive = windows && t_end >= 2 && (('A' <= p[0] && p[0] <= 'Z') || ('a' <= p[0] && p[0] <= 'z'))
        && p[1] == ':';
    if t_end == 0 || (t_end == 1 && p[0] == '.') || (drive && t_end == 2) {
        proof {
            reveal_strlit(".");
            if t_end == 1 {
                assert(t =~= "."@);
            }
        }
        return Err(UpdateError::Other(string_of(&chars_of("cannot determine executable directory"))));
    }
    proof {
        reveal_strlit(".");
        if t.len() >= 1 {
            assert(t[0] == p[0]);
        }
        if t.len() >= 2 {
            assert(t[1] == p[1]);
        }
        assert(has_drive(t, windows) == drive);
    }
    let dir: Vec<char> = match last_separator_before(&p, t_end, windows) {
        None => if drive {
            assert(t.take(2) =~= p@.take(2));
            slice_range(&p, 0, 2)
        } else {
            Vec::new()
        },
        Some(i) => {
            assert(t.take(i as int) =~= p@.take(i as int));
            let d_end = trimmed_path_end(&p, i, windows);
            if d_end == 0 {
                assert(t.take(1) =~= p@.take(1));
                slice_range(&p, 0, 1)
            } else if drive && d_end == 2 {
                assert(t.take(3) =~= p@.take(3));
                assert(is_bare_drive(p@.take(d_end as int), windows));
                slice_range(&p, 0, 3)
            } else {
                assert(!is_bare_drive(p@.take(d_end as int), windows));
                slice_range(&p, 0, d_end)
            }
        },
    };
    assert(parent_dir(exe_path@, windows) == Some(dir@));
    let mut v = dir;
    let ghost d = v@;
    if v.len() == 0 {
        return Ok(string_of(&name));
    }
    let last = v[v.len() - 1];
    let bare_drive = windows && v.len() == 2 && (('A' <= v[0] && v[0] <= 'Z') || ('a' <= v[0] && v[0] <= 'z'))
        && v[1] == ':';
    if !(last == '/' || (windows && last == '\\')) && !bare_drive {
        v.push(if windows { '\\' } else { '/' });
    }
    extend_chars(&mut v, &name);
    assert(v@ =~= join_file_name(d, name@, windows));
    Ok(string_of(&v))
}

/// `p` without what ends it and names no component: separators, and `.`
/// components after a separator.
pub open spec fn trim_path_end(p: Seq<char>, windows: bool) -> Seq<char>
    decreases p.len(),
{
    if p.len() > 0 && is_path_separator(p.last(), windows) {
        trim_path_end(p.drop_last(), windows)
    } else if p.len() >= 2 && p.last() == '.' && is_path_separator(p[p.len() - 2], windows) {
        trim_path_end(p.drop_last(), windows)
    } else {
        p
    }
}

/// The last component of the path `p`: what follows the last separator
/// once the end is trimmed (see `trim_path_end`).
pub open spec fn last_path_component(p: Seq<char>, windows: bool) -> Seq<char> {
    let t = trim_path_end(p, windows);
    match last_separator(t, windows) {
        None => t,
        Some(i) => t.skip(i + 1),
    }
}

/// The name under which a download from `url` is saved, as
/// `Path::file_name` reads the URL: its last component, or `update.bin` when
/// that is empty, `.` or `..`.
pub open spec fn download_file_name_spec(url: Seq<char>, windows: bool) -> Seq<char> {
    let c = last_path_component(url, windows);
    if c.len() == 0 || c == "."@ || c == ".."@ {
        "update.bin"@
    } else {
        c
    }
}

/// The end of `p@.take(end)` once `trim_path_end` has dropped what names no
/// component.
fn trimmed_path_end(p: &Vec<char>, end: usize, windows: bool) -> (r: usize)
    requires
        end <= p.len(),
    ensures
        r <= end,
        p@.take(r as int) == trim_path_end(p@.take(end as int), windows),
{
    let mut k = end;
    while k > 0
        invariant
            k <= end,
            end <= p.len(),
            trim_path_end(p@.take(k as int), windows) == trim_path_end(p@.take(end as int), windows),
        decreases k,
    {
        let c = p[k - 1];
        assert(p@.take(k as int).last() == c);
        assert(p@.take(k as int).drop_last() =~= p@.take(k - 1));
        if c == '/' || (windows && c == '\\') {
            k = k - 1;
        } else if k >= 2 && c == '.' && (p[k - 2] == '/' || (windows && p[k - 2] == '\\')) {
            assert(p@.take(k as int)[k - 2] == p[k - 2]);
            k = k - 1;
        } else {
            return k;
        }
    }
    k
}

/// The file name for the download from `url` (see `download_file_name_spec`).
pub fn download_file_name(url: &str, windows: bool) -> (r: String)
    ensures
        r@ == download_file_name_spec(url@, windows),
{
    let p = chars_of(url);
    let t_end = trimmed_path_end(&p, p.len(), windows);
    assert(p@.take(p.len() as int) =~= p@);
    let ghost t = p@.take(t_end as int);
    let start = match last_separator_before(&p, t_end, windows) {
        None => 0,
        Some(i) => i + 1,
    };
    let c = slice_range(&p, start, t_end);
    assert(c@ =~= last_path_component(url@, windows));
    let dot = chars_of(".");
    let dots = chars_of("..");
    if c.len() == 0 || chars_eq(&c, &dot) || chars_eq(&c, &dots) {
        string_of(&chars_of("update.bin"))
    } else {
        string_of(&c)
    }
}

/// An ASCII hexadecimal digit.
pub open spec fn is_hex_digit(c: char) -> bool {
    is_digit(c) || ('a' <= c && c <= 'f') || ('A' <= c && c <= 'F')
}

/// The SHA-256 digest published for an asset: the text after the last `:`,
/// trimmed, when it is 64 hex digits.
pub open spec fn published_sha256(digest: Option<Seq<char>>) -> Option<Seq<char>> {
    match digest {
        None => None,
        Some(d) => {
            let t = trim(split_on(d, ':').last());
            if t.len() == 64 && forall|i: int| 0 <= i < t.len() ==> is_hex_digit(#[trigger] t[i]) {
                Some(t)
            } else {
                None
            }
        },
    }
}

/// The SHA-256 digest published in an asset's `digest` field.
pub fn asset_sha256(digest: Option<&str>) -> (r: Option<String>)
    ensures
        r matches Some(s) ==> published_sha256(match digest { Some(d) => Some(d@), None => None }) == Some(s@),
        r is None ==> published_sha256(match digest { Some(d) => Some(d@), None => None }) is None,
{
    let d = match digest {
        Some(d) => d,
        None => {
            return None;
        },
    };
    let pieces = split_chars(&chars_of(d), ':');
    let n = pieces.len();
    assert(views(pieces@).last() == pieces@[n - 1]@);
    let t = trim_chars(&pieces[n - 1]);
    assert(t@ == trim(split_on(d@, ':').last()));
    if t.len() != 64 {
        return None;
    }
    let mut k: usize = 0;
    while k < t.len()
        invariant
            k <= t.len(),
            t.len() == 64,
            digest == Some(d),
            t@ == trim(split_on(d@, ':').last()),
            forall|i: int| 0 <= i < k ==> is_hex_digit(#[trigger] t@[i]),
        decreases t.len() - k,
    {
        let c = t[k];
        if !(('0' <= c && c <= '9') || ('a' <= c && c <= 'f') || ('A' <= c && c <= 'F')) {
            assert(!is_hex_digit(t@[k as int]));
            return None;
        }
        k = k + 1;
    }
    Some(string_of(&t))
}

/// The view of an optional string.
pub open spec fn opt_seq(o: Option<String>) -> Option<Seq<char>> {
    match o {
        Some(s) => Some(s@),
        None => None,
    }
}

/// The asset is a desktop build for the platform: not an Android `.apk`, and
/// its name holds the platform keyword.
pub open spec fn asset_matches(a: ReleaseAsset, platform_key: Seq<char>) -> bool {
    !has_suffix(a.name@, ".apk"@) && contains_seq(a.name@, platform_key)
}

/// What `match_release_asset` gives for a release: an error when the tag is
/// missing (`None` or empty); otherwise the first matching asset with the
/// release name (empty when missing), the tag, the download URL (through the
/// mirror unless that is disabled), the size (0 when unknown) and the
/// published digest; an error when no asset matches.
pub open spec fn matched_asset_ok(
    latest: ReleaseInfo,
    platform_key: Seq<char>,
    accel_disabled: bool,
    i: int,
    m: MatchedAsset,
) -> bool {
    let a = latest.assets@[i];
    &&& 0 <= i < latest.assets.len()
    &&& asset_matches(a, platform_key)
    &&& forall|j: int| 0 <= j < i ==> !asset_matches(#[trigger] latest.assets@[j], platform_key)
    &&& m.release_name@ == (match latest.name { Some(n) => n@, None => Seq::empty() })
    &&& m.tag_name@ == (match latest.tag_name { Some(t) => t@, None => Seq::empty() })
    &&& m.download_url@ == (if accel_disabled {
        a.browser_download_url@
    } else {
        accelerated_url(a.browser_download_url@)
    })
    &&& m.size == (match a.size { Some(s) => s, None => 0 })
    &&& opt_seq(m.sha256) == published_sha256(opt_seq(a.digest))
}

/// The name ends with `.apk` (an Android package).
pub open spec fn names_android_package(name: Seq<char>) -> bool {
    name.len() >= 4 && name.subrange(name.len() - 4, name.len() as int) == seq!['.', 'a', 'p', 'k']
}

/// An asset is taken for the platform exactly when its name is not an
/// Android package and holds the platform keyword somewhere
/// (`name == p + key + s`); so the first such asset of a release with a tag
/// is the one `match_release_asset` returns, with its URL, size and digest,
/// and the release is refused for want of an asset only when it has none.
pub proof fn law_asset_holding_keyword_is_matched(latest: ReleaseInfo, key: Seq<char>, k: int, accel_disabled: bool)
    ensures
        forall|a: ReleaseAsset| #[trigger] asset_matches(a, key) <==> (!names_android_package(a.name@)
            && exists|p: Seq<char>, s: Seq<char>| a.name@ == p + key + s),
        (0 <= k < latest.assets.len() && !names_android_package(latest.assets@[k].name@) && (exists|
            p: Seq<char>,
            s: Seq<char>,
        | latest.assets@[k].name@ == p + key + s) && forall|j: int|
            0 <= j < k ==> names_android_package(#[trigger] latest.assets@[j].name@) || forall|
                p: Seq<char>,
                s: Seq<char>,
            | latest.assets@[j].name@ != p + key + s) ==> {
            &&& forall|i: int, m: MatchedAsset| #[trigger] matched_asset_ok(latest, key, accel_disabled, i, m) ==> i == k
            &&& !forall|j: int| 0 <= j < latest.assets.len() ==> !asset_matches(#[trigger] latest.assets@[j], key)
        },
{
    reveal_strlit(".apk");
    assert(".apk"@ =~= seq!['.', 'a', 'p', 'k']);
    assert forall|a: ReleaseAsset| #[trigger] asset_matches(a, key) <==> (!names_android_package(a.name@)
        && exists|p: Seq<char>, s: Seq<char>| a.name@ == p + key + s) by {
        let n = a.name@;
        assert(has_suffix(n, ".apk"@) <==> names_android_package(n)) by {
            if n.len() >= 4 {
                assert(n.skip(n.len() - 4) =~= n.subrange(n.len() - 4, n.len() as int));
            }
        }
        if contains_seq(n, key) {
            let i = choose|i: int| occurs_at(n, key, i);
            let p = n.take(i);
            let s = n.skip(i + key.len());
            assert(n =~= p + key + s);
        }
        if exists|p: Seq<char>, s: Seq<char>| n == p + key + s {
            let (p, s) = choose|p: Seq<char>, s: Seq<char>| n == p + key + s;
            assert(n.subrange(p.len() as int, (p.len() + key.len()) as int) =~= key);
            assert(occurs_at(n, key, p.len() as int));
        }
    }
    if 0 <= k < latest.assets.len() && !names_android_package(latest.assets@[k].name@) && (exists|
        p: Seq<char>,
        s: Seq<char>,
    | latest.assets@[k].name@ == p + key + s) && forall|j: int|
        0 <= j < k ==> names_android_package(#[trigger] latest.assets@[j].name@) || forall|
            p: Seq<char>,
            s: Seq<char>,
        | latest.assets@[j].name@ != p + key + s {
        assert(asset_matches(latest.assets@[k], key));
        assert forall|i: int, m: MatchedAsset| #[trigger] matched_asset_ok(latest, key, accel_disabled, i, m) implies i == k by {
            if i > k {
                assert(!asset_matches(latest.assets@[k], key));
            }
            if i < k {
                assert(asset_matches(latest.assets@[i], key));
            }
        }
    }
}

/// Picks the asset of the latest release built for `platform_key`.
pub fn match_release_asset(latest: ReleaseInfo, platform_key: &str, accel_disabled: bool) -> (r:
    Result<MatchedAsset, UpdateError>)
    ensures
        (match latest.tag_name { Some(t) => t@.len() == 0, None => true }) ==> r matches Err(
            UpdateError::MissingTag,
        ),
        (match latest.tag_name { Some(t) => t@.len() > 0, None => false }) ==> match r {
            Ok(m) => exists|i: int| matched_asset_ok(latest, platform_key@, accel_disabled, i, m),
            Err(e) => {
                &&& e matches UpdateError::NoMatchingAsset { platform_key: k }
                &&& k@ == platform_key@
                &&& forall|j: int| 0 <= j < latest.assets.len() ==> !asset_matches(#[trigger] latest.assets@[j], platform_key@)
            },
        },
{
    let release_name = match &latest.name {
        Some(n) => n.clone(),
        None => String::new(),
    };
    let tag_name = match &latest.tag_name {
        Some(t) => t.clone(),
        None => String::new(),
    };
    assert(release_name@ == (match latest.name { Some(n) => n@, None => Seq::empty() }));
    assert(tag_name@ == (match latest.tag_name { Some(t) => t@, None => Seq::empty() }));
    if tag_name.as_str().is_empty() {
        return Err(UpdateError::MissingTag);
    }
    let key = chars_of(platform_key);
    let apk = chars_of(".apk");
    let mut i: usize = 0;
    while i < latest.assets.len()
        invariant
            i <= latest.assets.len(),
            key@ == platform_key@,
            apk@ == ".apk"@,
            release_name@ == (match latest.name { Some(n) => n@, None => Seq::empty() }),
            tag_name@ == (match latest.tag_name { Some(t) => t@, None => Seq::empty() }),
            tag_name@.len() > 0,
            forall|j: int| 0 <= j < i ==> !asset_matches(#[trigger] latest.assets@[j], platform_key@),
        decreases latest.assets.len() - i,
    {
        let asset = &latest.assets[i];
        let name = chars_of(asset.name.as_str());
        if !ends_with_chars(&name, &apk) && contains_chars(&name, &key) {
            let download_url = if accel_disabled {
                asset.browser_download_url.clone()
            } else {
                get_accelerated_url(asset.browser_download_url.as_str())
            };
            let sha256 = match &asset.digest {
                Some(d) => asset_sha256(Some(d.as_str())),
                None => None,
            };
            let size = match asset.size {
                Some(s) => s,
                None => 0,
            };
            let ghost a = latest.assets@[i as int];
            assert(asset_matches(a, platform_key@));
            assert(opt_seq(sha256) == published_sha256(opt_seq(a.digest)));
            assert(size == (match a.size { Some(s) => s, None => 0 }));
            let m = MatchedAsset { release_name, tag_name, download_url, size, sha256 };
            assert(matched_asset_ok(latest, platform_key@, accel_disabled, i as int, m));
            return Ok(m);
        }
        i = i + 1;
    }
    Err(UpdateError::NoMatchingAsset { platform_key: String::from_str(platform_key) })
}

/// `v` followed by the version number: the tag of the running build.
pub open spec fn current_tag(version: Seq<char>) -> Seq<char> {
    seq!['v'] + version
}

/// The tag and name of the latest release when it is not the running
/// version; `None` when it is, or when the check failed.
pub fn check_latest_version(current_version: &str, latest: Result<MatchedAsset, UpdateError>) -> (r:
    Option<(String, String)>)
    ensures
        match latest {
            Err(_) => r is None,
            Ok(m) => if m.tag_name@ != current_tag(current_version@) {
                r matches Some((t, n)) && t@ == m.tag_name@ && n@ == m.release_name@
            } else {
                r is None
            },
        },
{
    let matched = match latest {
        Ok(m) => m,
        Err(_) => {
            return None;
        },
    };
    let mut tag: Vec<char> = Vec::new();
    tag.push('v');
    extend_chars(&mut tag, &chars_of(current_version));
    if !chars_eq(&chars_of(matched.tag_name.as_str()), &tag) {
        Some((matched.tag_name, matched.release_name))
    } else {
        None
    }
}


/// The SHA-256 digest of `data` as lowercase hex, checked against the
/// published digest when there is one.
pub fn verify_download(data: &[u8], expected: Option<&str>) -> (r: Result<String, UpdateError>)
    ensures
        match expected {
            None => r matches Ok(h) && h@ == hex_lower(sha256(data@)),
            Some(e) => if same_hash(hex_lower(sha256(data@)), e@) {
                r matches Ok(h) && h@ == hex_lower(sha256(data@))
            } else {
                r matches Err(UpdateError::HashMismatch { actual, expected: exp }) && actual@
                    == hex_lower(sha256(data@)) && exp@ == e@
            },
        },
{
    let actual = sha256_hex(data);
    match expected {
        Some(e) => if !eq_hash(actual.as_str(), e) {
            Err(UpdateError::HashMismatch { actual, expected: String::from_str(e) })
        } else {
            Ok(actual)
        },
        None => Ok(actual),
    }
}

/// What happened since the last step of an update.
pub enum UpdateEvent {
    /// The update was requested; `dev_build` tells whether this is a
    /// development build (run by cargo or from a `target` directory).
    Start { dev_build: bool },
    /// The latest release was fetched and its asset for this platform chosen.
    LatestFetched(Result<MatchedAsset, UpdateError>),
    /// The running executable's SHA-256 digest was computed, for `matched`.
    SelfHashed { matched: MatchedAsset, self_hash: Result<String, UpdateError> },
    /// Downloading and applying the update returned (it returns only when it
    /// did not restart the program).
    UpdateStarted(Result<(), UpdateError>),
}

/// What the caller does next.
pub enum UpdateAction {
    /// Fetch the latest release and choose its asset (`LatestFetched`).
    FetchLatest,
    /// Compute the running executable's digest (`SelfHashed`).
    HashSelf(MatchedAsset),
    /// Download, verify and apply `MatchedAsset`, then restart (`UpdateStarted`).
    StartUpdate(MatchedAsset),
    /// The update attempt is over.
    Finish(Result<UpdateOutcome, UpdateError>),
}

/// The published digest of `m` differs from the running executable's.
pub open spec fn hot_fix_due(m: MatchedAsset, self_hash: Seq<char>) -> bool {
    match m.sha256 {
        Some(e) => !same_hash(self_hash, e@),
        None => false,
    }
}

/// The next step of an update after `event`. For a full update
/// (`hotfix_only == false`) a development build is skipped, a new tag is
/// downloaded, and with the same tag the executable is replaced only when its
/// digest differs from the published one. A hot-fix check
/// (`hotfix_only == true`) reports development builds and new tags as up to
/// date and only replaces a same-tag executable whose digest differs.
pub open spec fn update_step(hotfix_only: bool, version: Seq<char>, event: UpdateEvent) -> UpdateAction {
    match event {
        UpdateEvent::Start { dev_build } => if dev_build {
            UpdateAction::Finish(
                Ok(
                    if hotfix_only {
                        UpdateOutcome::UpToDate
                    } else {
                        UpdateOutcome::Skipped
                    },
                ),
            )
        } else {
            UpdateAction::FetchLatest
        },
        UpdateEvent::LatestFetched(Err(e)) => UpdateAction::Finish(Err(e)),
        UpdateEvent::LatestFetched(Ok(m)) => if m.tag_name@ != current_tag(version) {
            if hotfix_only {
                UpdateAction::Finish(Ok(UpdateOutcome::UpToDate))
            } else {
                UpdateAction::StartUpdate(m)
            }
        } else if m.sha256 is Some {
            UpdateAction::HashSelf(m)
        } else {
            UpdateAction::Finish(Ok(UpdateOutcome::UpToDate))
        },
        UpdateEvent::SelfHashed { matched, self_hash: Err(e) } => UpdateAction::Finish(Err(e)),
        UpdateEvent::SelfHashed { matched, self_hash: Ok(h) } => if hot_fix_due(matched, h@) {
            UpdateAction::StartUpdate(matched)
        } else {
            UpdateAction::Finish(Ok(UpdateOutcome::UpToDate))
        },
        UpdateEvent::UpdateStarted(Err(e)) => UpdateAction::Finish(Err(e)),
        UpdateEvent::UpdateStarted(Ok(())) => UpdateAction::Finish(Ok(UpdateOutcome::UpdateLaunched)),
    }
}

fn step(hotfix_only: bool, current_version: &str, event: UpdateEvent) -> (a: UpdateAction)
    ensures
        a == update_step(hotfix_only, current_version@, event),
{
    match event {
        UpdateEvent::Start { dev_build } => if dev_build {
            UpdateAction::Finish(
                Ok(
                    if hotfix_only {
                        UpdateOutcome::UpToDate
                    } else {
                        UpdateOutcome::Skipped
                    },
                ),
            )
        } else {
            UpdateAction::FetchLatest
        },
        UpdateEvent::LatestFetched(Err(e)) => UpdateAction::Finish(Err(e)),
        UpdateEvent::LatestFetched(Ok(m)) => {
            let mut tag: Vec<char> = Vec::new();
            tag.push('v');
            extend_chars(&mut tag, &chars_of(current_version));
            if !chars_eq(&chars_of(m.tag_name.as_str()), &tag) {
                if hotfix_only {
                    UpdateAction::Finish(Ok(UpdateOutcome::UpToDate))
                } else {
                    UpdateAction::StartUpdate(m)
                }
            } else if m.sha256.is_some() {
                UpdateAction::HashSelf(m)
            } else {
                UpdateAction::Finish(Ok(UpdateOutcome::UpToDate))
            }
        },
        UpdateEvent::SelfHashed { matched, self_hash: Err(e) } => UpdateAction::Finish(Err(e)),
        UpdateEvent::SelfHashed { matched, self_hash: Ok(h) } => {
            let due = match &matched.sha256 {
                Some(e) => !eq_hash(h.as_str(), e.as_str()),
                None => false,
            };
            if due {
                UpdateAction::StartUpdate(matched)
            } else {
                UpdateAction::Finish(Ok(UpdateOutcome::UpToDate))
            }
        },
        UpdateEvent::UpdateStarted(Err(e)) => UpdateAction::Finish(Err(e)),
        UpdateEvent::UpdateStarted(Ok(())) => UpdateAction::Finish(Ok(UpdateOutcome::UpdateLaunched)),
    }
}

/// The next step of a full update check and download, for the running
/// version `current_version`.
pub fn perform_update(current_version: &str, event: UpdateEvent) -> (a: UpdateAction)
    ensures
        a == update_step(false, current_version@, event),
{
    step(false, current_version, event)
}

/// The next step of a hot-fix check: same version, different binary.
pub fn check_hotfix_and_apply(current_version: &str, event: UpdateEvent) -> (a: UpdateAction)
    ensures
        a == update_step(true, current_version@, event),
{
    step(true, current_version, event)
}

/// A hot-fix check downloads nothing for a release whose tag is not the
/// running version, and nothing for a development build.
pub proof fn law_hotfix_keeps_other_versions(version: Seq<char>, event: UpdateEvent)
    ensures
        (event matches UpdateEvent::LatestFetched(Ok(m)) && m.tag_name@ != current_tag(version))
            ==> update_step(true, version, event) == UpdateAction::Finish(Ok(UpdateOutcome::UpToDate)),
        (event matches UpdateEvent::Start { dev_build } && dev_build) ==> update_step(true, version, event)
            == UpdateAction::Finish(Ok(UpdateOutcome::UpToDate)),
{
}

/// Both checks agree once the running executable's digest is known: the
/// update starts exactly when it differs from the published digest.
pub proof fn law_hot_fix_iff_digest_differs(version: Seq<char>, m: MatchedAsset, h: String)
    ensures
        update_step(false, version, UpdateEvent::SelfHashed { matched: m, self_hash: Ok(h) })
            == update_step(true, version, UpdateEvent::SelfHashed { matched: m, self_hash: Ok(h) }),
        update_step(false, version, UpdateEvent::SelfHashed { matched: m, self_hash: Ok(h) }) is StartUpdate
            <==> hot_fix_due(m, h@),
{
}

/// Lines of the Windows batch script that replaces the executable: wait,
/// delete the running executable (and the target name when it differs),
/// rename the staged `<target>.new`, start the target with the original
/// arguments, and delete the script itself.
pub open spec fn windows_script_lines(parent: Seq<char>, exe_name: Seq<char>, target_name: Seq<char>) -> Seq<Seq<char>> {
    let q = seq!['"'];
    seq![
        "@echo off"@,
        "echo Updating RustEpubReader, please wait..."@,
        "timeout /t 3 /nobreak"@,
        Seq::empty(),
        "cd /d "@ + q + parent + q,
        Seq::empty(),
        "if exist "@ + q + exe_name + q + " (del /F /Q "@ + q + exe_name + q + ")"@,
    ] + (if target_name != exe_name {
        seq!["if exist "@ + q + target_name + q + " (del /F /Q "@ + q + target_name + q + ")"@]
    } else {
        Seq::empty()
    }) + seq![
        "if exist "@ + q + target_name + ".new"@ + q + " (ren "@ + q + target_name + ".new"@ + q + " "@ + q + target_name + q + ")"@,
        Seq::empty(),
        "start "@ + q + q + " "@ + q + target_name + q + " %*"@,
        Seq::empty(),
        "del "@ + q + "%~f0"@ + q,
    ]
}

/// `lines` joined with `sep` between them.
pub open spec fn join_lines(lines: Seq<Seq<char>>, sep: Seq<char>) -> Seq<char>
    decreases lines.len(),
{
    if lines.len() == 0 {
        Seq::empty()
    } else if lines.len() == 1 {
        lines[0]
    } else {
        join_lines(lines.drop_last(), sep) + sep + lines.last()
    }
}

/// Appends `"text"` (in double quotes) to `v`.
fn push_quoted(v: &mut Vec<char>, text: &[char])
    ensures
        final(v)@ == old(v)@ + seq!['"'] + text@ + seq!['"'],
{
    v.push('"');
    extend_chars(v, text);
    v.push('"');
}

/// Appends the line `if exist "<name>" (del /F /Q "<name>")`.
fn push_delete_line(v: &mut Vec<char>, name: &[char])
    ensures
        final(v)@ == old(v)@ + "if exist "@ + seq!['"'] + name@ + seq!['"'] + " (del /F /Q "@ + seq!['"'] + name@ + seq!['"'] + ")"@,
{
    extend_chars(v, &chars_of("if exist "));
    push_quoted(v, name);
    extend_chars(v, &chars_of(" (del /F /Q "));
    push_quoted(v, name);
    extend_chars(v, &chars_of(")"));
}

/// The batch script (lines joined by CR LF) that replaces the executable on
/// Windows; `parent` is the directory of the running executable `exe_name`
/// and `target_name` the canonical executable name.
pub fn windows_update_script(parent: &str, exe_name: &str, target_name: &str) -> (s: String)
    ensures
        s@ == join_lines(windows_script_lines(parent@, exe_name@, target_name@), seq!['\r', '\n']),
{
    let p = chars_of(parent);
    let e = chars_of(exe_name);
    let t = chars_of(target_name);
    let mut lines: Vec<Vec<char>> = Vec::new();
    lines.push(chars_of("@echo off"));
    lines.push(chars_of("echo Updating RustEpubReader, please wait..."));
    lines.push(chars_of("timeout /t 3 /nobreak"));
    lines.push(Vec::new());
    let mut cd = chars_of("cd /d ");
    push_quoted(&mut cd, &p);
    lines.push(cd);
    lines.push(Vec::new());
    let mut del_exe: Vec<char> = Vec::new();
    push_delete_line(&mut del_exe, &e);
    lines.push(del_exe);
    let differs = !chars_eq(&t, &e);
    if differs {
        let mut del_target: Vec<char> = Vec::new();
        push_delete_line(&mut del_target, &t);
        lines.push(del_target);
    }
    let staged = concat_chars(&t, &chars_of(".new"));
    let mut ren = chars_of("if exist ");
    push_quoted(&mut ren, &staged);
    extend_chars(&mut ren, &chars_of(" (ren "));
    push_quoted(&mut ren, &staged);
    extend_chars(&mut ren, &chars_of(" "));
    push_quoted(&mut ren, &t);
    extend_chars(&mut ren, &chars_of(")"));
    lines.push(ren);
    lines.push(Vec::new());
    let mut start = chars_of("start ");
    start.push('"');
    start.push('"');
    extend_chars(&mut start, &chars_of(" "));
    push_quoted(&mut start, &t);
    extend_chars(&mut start, &chars_of(" %*"));
    lines.push(start);
    lines.push(Vec::new());
    let mut del_self = chars_of("del ");
    push_quoted(&mut del_self, &chars_of("%~f0"));
    lines.push(del_self);
    proof {
        let want = windows_script_lines(parent@, exe_name@, target_name@);
        assert(views(lines@) =~~= want);
        assert(views(lines@) == want);
    }
    let mut crlf: Vec<char> = Vec::new();
    crlf.push('\r');
    crlf.push('\n');
    assert(crlf@ == seq!['\r', '\n']);
    let joined = join_chars(&lines, &crlf);
    string_of(&joined)
}

/// `lines` joined with `sep` between them.
pub fn join_chars(lines: &Vec<Vec<char>>, sep: &[char]) -> (v: Vec<char>)
    ensures
        v@ == join_lines(views(lines@), sep@),
{
    let mut v: Vec<char> = Vec::new();
    let mut k: usize = 0;
    while k < lines.len()
        invariant
            k <= lines.len(),
            v@ == join_lines(views(lines@).take(k as int), sep@),
        decreases lines.len() - k,
    {
        let ghost ls = views(lines@).take(k + 1);
        assert(ls.drop_last() == views(lines@).take(k as int));
        assert(ls.last() == lines@[k as int]@);
        if k > 0 {
            extend_chars(&mut v, sep);
        }
        extend_chars(&mut v, &lines[k]);
        k = k + 1;
    }
    assert(views(lines@).take(lines.len() as int) == views(lines@));
    v
}

/// The state of the update dialog.
#[derive(Clone, Debug)]
pub enum UpdateState {
    Idle,
    Checking,
    /// A newer release, with its tag.
    Available(String),
    Downloading,
    UpToDate,
    /// The update failed, with the message shown.
    Failed(String),
    Restarting,
}

impl Default for UpdateState {
    fn default() -> (s: Self)
        ensures
            s is Idle,
    {
        UpdateState::Idle
    }
}

/// The message of an update error; `file` is the downloaded file that a
/// digest mismatch names.
pub open spec fn error_text(e: UpdateError, file: Seq<char>) -> Seq<char> {
    match e {
        UpdateError::MissingTag => "latest release missing tag_name"@,
        UpdateError::NoMatchingAsset { platform_key } =>
            "no matching release asset for platform_key="@ + platform_key@,
        UpdateError::HashMismatch { actual, expected } =>
            "SHA256 校验失败：下载文件 "@ + file + " 的哈希 "@ + actual@ + " 与期望 "@ + expected@ + " 不符"@,
        UpdateError::Other(msg) => msg@,
    }
}

impl UpdateError {
    /// The message of the error (see `error_text`).
    pub fn describe(&self, file: &str) -> (s: String)
        ensures
            s@ == error_text(*self, file@),
    {
        match self {
            UpdateError::MissingTag => string_of(&chars_of("latest release missing tag_name")),
            UpdateError::NoMatchingAsset { platform_key } => {
                let mut v = chars_of("no matching release asset for platform_key=");
                extend_chars(&mut v, &chars_of(platform_key.as_str()));
                string_of(&v)
            },
            UpdateError::HashMismatch { actual, expected } => {
                let mut v = chars_of("SHA256 校验失败：下载文件 ");
                extend_chars(&mut v, &chars_of(file));
                extend_chars(&mut v, &chars_of(" 的哈希 "));
                extend_chars(&mut v, &chars_of(actual.as_str()));
                extend_chars(&mut v, &chars_of(" 与期望 "));
                extend_chars(&mut v, &chars_of(expected.as_str()));
                extend_chars(&mut v, &chars_of(" 不符"));
                string_of(&v)
            },
            UpdateError::Other(msg) => msg.clone(),
        }
    }
}

/// The dialog's state once an update run ends: restarting when the update
/// was launched, up to date when there was nothing to do, failed with the
/// error's message otherwise.
pub fn update_state_after(result: &Result<UpdateOutcome, UpdateError>, file: &str) -> (s: UpdateState)
    ensures
        match result {
            Ok(UpdateOutcome::UpdateLaunched) => s is Restarting,
            Ok(_) => s is UpToDate,
            Err(e) => s matches UpdateState::Failed(m) && m@ == error_text(*e, file@),
        },
{
    match result {
        Ok(UpdateOutcome::UpdateLaunched) => UpdateState::Restarting,
        Ok(_) => UpdateState::UpToDate,
        Err(e) => UpdateState::Failed(e.describe(file)),
    }
}

/// A development build: run by cargo (`CARGO` set), or from a `target/debug`
/// or `target/release` directory (either separator, any ASCII case).
pub open spec fn dev_build_spec(cargo_env_set: bool, exe_path: Option<Seq<char>>) -> bool {
    cargo_env_set || match exe_path {
        Some(p) => {
            let l = p.map_values(|c: char| ascii_lower(c));
            contains_seq(l, "\\target\\debug\\"@) || contains_seq(l, "/target/debug/"@)
                || contains_seq(l, "\\target\\release\\"@) || contains_seq(l, "/target/release/"@)
        },
        None => false,
    }
}

/// Whether this is a development build (see `dev_build_spec`); `exe_path` is
/// the running executable's path when it is known.
pub fn is_dev_build_path(cargo_env_set: bool, exe_path: Option<&str>) -> (b: bool)
    ensures
        b == dev_build_spec(cargo_env_set, match exe_path { Some(p) => Some(p@), None => None }),
{
    if cargo_env_set {
        return true;
    }
    match exe_path {
        Some(p) => {
            let l = ascii_lower_chars(&chars_of(p));
            contains_chars(&l, &chars_of("\\target\\debug\\"))
                || contains_chars(&l, &chars_of("/target/debug/"))
                || contains_chars(&l, &chars_of("\\target\\release\\"))
                || contains_chars(&l, &chars_of("/target/release/"))
        },
        None => false,
    }
}

/// Comparing digests is an equivalence: reflexive, symmetric and transitive.
pub proof fn law_same_hash_equivalence(a: Seq<char>, b: Seq<char>, c: Seq<char>)
    ensures
        same_hash(a, a),
        same_hash(a, b) == same_hash(b, a),
        same_hash(a, b) && same_hash(b, c) ==> same_hash(a, c),
{
}

} // verus!
