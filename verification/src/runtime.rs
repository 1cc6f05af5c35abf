//! Node.js runtimes: which release a version specifier names, which build suits the platform,
//! and the files that make a release the active one.
use vstd::prelude::*;
use crate::text::{
    to_chars, str_eq, starts_with, starts_with_str, split_on, split_on_vec, views, parse_u64,
    parse_u64_exec, slice_vec, string_of_all, join_path, join_path_exec,
};
use crate::policy::{lowercase, to_lowercase};
use crate::versions::{semver_parse, semver_order, parse_semver, compare_semver};
use crate::text::{str_views, string_of};

verus! {

/// A release of the Node.js index: its version, its LTS codename where it has one, and whether
/// it is a security release.
#[derive(Clone, Debug)]
pub struct NodeRelease {
    pub version: Option<String>,
    pub lts: Option<String>,
    pub security: bool,
}

/// Why a specifier names no release.
#[derive(Clone, Debug, PartialEq, Eq)]
pub enum RuntimeError {
    /// `latest`, but the index is empty (or its first release has no version).
    NoReleases,
    /// `lts`, but no release is an LTS one with a version.
    NoLts,
    /// Nothing that the specifier could mean.
    Unresolved(String),
}

impl RuntimeError {
    /// The message of the error.
    pub fn message(&self) -> (r: String)
        ensures
            (match self {
                RuntimeError::NoReleases => r@ == "No Node.js releases found"@,
                RuntimeError::NoLts => r@ == "No LTS release found"@,
                RuntimeError::Unresolved(s) => r@ == "Could not resolve Node.js version '"@ + s@
                    + "'. Use 'latest', 'lts', a codename, or a specific version number."@,
            }),
    {
        match self {
            RuntimeError::NoReleases => "No Node.js releases found".to_owned(),
            RuntimeError::NoLts => "No LTS release found".to_owned(),
            RuntimeError::Unresolved(s) => {
                let mut m = "Could not resolve Node.js version '".to_owned();
                m.append(s.as_str());
                m.append("'. Use 'latest', 'lts', a codename, or a specific version number.");
                m
            },
        }
    }
}

/// A release as (version, LTS codename).
pub open spec fn release_views(v: Seq<NodeRelease>) -> Seq<(Option<Seq<char>>, Option<Seq<char>>)> {
    v.map_values(|r: NodeRelease| (
        match r.version { Some(s) => Some(s@), None => None },
        match r.lts { Some(s) => Some(s@), None => None },
    ))
}

/// The tests that pick a release from the index.
pub enum ReleaseTest {
    /// It is an LTS release.
    Lts,
    /// Its LTS codename lowercases to the text.
    Codename(Seq<char>),
    /// Its version lowercases to the text.
    Version(Seq<char>),
    /// Its version begins with the text.
    Prefix(Seq<char>),
}

/// Whether a release (version, LTS codename) passes a test.
pub open spec fn passes(t: ReleaseTest, r: (Option<Seq<char>>, Option<Seq<char>>)) -> bool {
    match t {
        ReleaseTest::Lts => r.1 is Some,
        ReleaseTest::Codename(l) => r.1 matches Some(c) && lowercase(c) == l,
        ReleaseTest::Version(l) => r.0 matches Some(v) && lowercase(v) == l,
        ReleaseTest::Prefix(p) => r.0 matches Some(v) && starts_with(v, p),
    }
}

/// The first release that passes the test.
pub open spec fn first_release(
    rs: Seq<(Option<Seq<char>>, Option<Seq<char>>)>,
    t: ReleaseTest,
) -> Option<(Option<Seq<char>>, Option<Seq<char>>)>
    decreases rs.len(),
{
    if rs.len() == 0 {
        None
    } else if passes(t, rs[0]) {
        Some(rs[0])
    } else {
        first_release(rs.drop_first(), t)
    }
}

/// The release that a specifier names: with the specifier lowercased, `latest` is the first
/// release of the index, `lts` the first LTS one; else the first release with that LTS
/// codename, then the first whose version is the specifier (with a `v` before it where it has
/// none), then the first whose version begins with `v<specifier>.`.
pub open spec fn resolved_version(
    rs: Seq<(Option<Seq<char>>, Option<Seq<char>>)>,
    spec: Seq<char>,
) -> Result<Seq<char>, RuntimeErrorView> {
    let lower = lowercase(spec);
    if lower == "latest"@ {
        if rs.len() > 0 && rs[0].0 is Some { Ok(rs[0].0->Some_0) } else { Err(RuntimeErrorView::NoReleases) }
    } else if lower == "lts"@ {
        match first_release(rs, ReleaseTest::Lts) {
            Some(r) => if r.0 is Some { Ok(r.0->Some_0) } else { Err(RuntimeErrorView::NoLts) },
            None => Err(RuntimeErrorView::NoLts),
        }
    } else {
        let with_v = if lower.len() > 0 && lower[0] == 'v' { lower } else { seq!['v'] + lower };
        let prefix = seq!['v'] + spec + seq!['.'];
        let by_name = first_release(rs, ReleaseTest::Codename(lower));
        let exact = first_release(rs, ReleaseTest::Version(with_v));
        let major = first_release(rs, ReleaseTest::Prefix(prefix));
        if by_name matches Some(r) && r.0 is Some {
            Ok(by_name->Some_0.0->Some_0)
        } else if exact is Some {
            Ok(exact->Some_0.0->Some_0)
        } else if major is Some {
            Ok(major->Some_0.0->Some_0)
        } else {
            Err(RuntimeErrorView::Unresolved(spec))
        }
    }
}

/// The error as text.
pub enum RuntimeErrorView {
    NoReleases,
    NoLts,
    Unresolved(Seq<char>),
}

impl View for RuntimeError {
    type V = RuntimeErrorView;

    open spec fn view(&self) -> RuntimeErrorView {
        match self {
            RuntimeError::NoReleases => RuntimeErrorView::NoReleases,
            RuntimeError::NoLts => RuntimeErrorView::NoLts,
            RuntimeError::Unresolved(s) => RuntimeErrorView::Unresolved(s@),
        }
    }
}

proof fn lemma_first_release_passes(rs: Seq<(Option<Seq<char>>, Option<Seq<char>>)>, t: ReleaseTest)
    ensures
        first_release(rs, t) matches Some(r) ==> passes(t, r),
    decreases rs.len(),
{
    if rs.len() > 0 {
        lemma_first_release_passes(rs.drop_first(), t);
    }
}

fn passes_exec(r: &NodeRelease, kind: u8, text: &str) -> (b: bool)
    requires
        kind < 4,
    ensures
        b == passes(test_of(kind, text@), release_views(seq![*r])[0]),
{
    match kind {
        0 => r.lts.is_some(),
        1 => match &r.lts {
            Some(c) => {
                let l = to_lowercase(c.as_str());
                str_eq(l.as_str(), text)
            },
            None => false,
        },
        2 => match &r.version {
            Some(v) => {
                let l = to_lowercase(v.as_str());
                str_eq(l.as_str(), text)
            },
            None => false,
        },
        _ => match &r.version {
            Some(v) => starts_with_str(v.as_str(), text),
            None => false,
        },
    }
}

/// The test with this number and text: 0 LTS, 1 codename, 2 version, 3 prefix.
pub open spec fn test_of(kind: u8, text: Seq<char>) -> ReleaseTest {
    if kind == 0 {
        ReleaseTest::Lts
    } else if kind == 1 {
        ReleaseTest::Codename(text)
    } else if kind == 2 {
        ReleaseTest::Version(text)
    } else {
        ReleaseTest::Prefix(text)
    }
}

/// The index of the first release that passes the test.
fn find_release(releases: &Vec<NodeRelease>, kind: u8, text: &str) -> (r: Option<usize>)
    requires
        kind < 4,
    ensures
        (match r {
            Some(i) => i < releases@.len()
                && first_release(release_views(releases@), test_of(kind, text@)) == Some(release_views(releases@)[i as int]),
            None => first_release(release_views(releases@), test_of(kind, text@)) is None,
        }),
{
    let ghost rs = release_views(releases@);
    let ghost t = test_of(kind, text@);
    let mut i: usize = 0;
    assert(rs.skip(0) =~= rs);
    while i < releases.len()
        invariant
            i <= releases@.len(),
            kind < 4,
            rs == release_views(releases@),
            t == test_of(kind, text@),
            first_release(rs, t) == first_release(rs.skip(i as int), t),
        decreases releases@.len() - i,
    {
        let ghost rest = rs.skip(i as int);
        assert(rest[0] == rs[i as int]);
        assert(release_views(seq![releases@[i as int]])[0] == rs[i as int]);
        if passes_exec(&releases[i], kind, text) {
            return Some(i);
        }
        assert(rest.drop_first() =~= rs.skip(i + 1));
        i += 1;
    }
    None
}

/// The version that a specifier names among the releases of the index: see
/// `resolved_version`.
pub fn resolve_version(releases: &Vec<NodeRelease>, specifier: &str) -> (r: Result<String, RuntimeError>)
    ensures
        (match r {
            Ok(v) => resolved_version(release_views(releases@), specifier@) == Ok::<Seq<char>, RuntimeErrorView>(v@),
            Err(e) => resolved_version(release_views(releases@), specifier@) == Err::<Seq<char>, RuntimeErrorView>(e@),
        }),
{
    let ghost rs = release_views(releases@);
    let lower = to_lowercase(specifier);
    proof {
        reveal_strlit("latest");
        reveal_strlit("lts");
    }
    if str_eq(lower.as_str(), "latest") {
        if releases.len() > 0 {
            assert(rs[0].0 == match releases@[0].version { Some(s) => Some(s@), None => None });
            match &releases[0].version {
                Some(v) => return Ok(v.clone()),
                None => return Err(RuntimeError::NoReleases),
            }
        }
        return Err(RuntimeError::NoReleases);
    }
    if str_eq(lower.as_str(), "lts") {
        match find_release(releases, 0, "") {
            Some(i) => {
                assert(rs[i as int].0 == match releases@[i as int].version { Some(s) => Some(s@), None => None });
                match &releases[i].version {
                    Some(v) => return Ok(v.clone()),
                    None => return Err(RuntimeError::NoLts),
                }
            },
            None => return Err(RuntimeError::NoLts),
        }
    }
    match find_release(releases, 1, lower.as_str()) {
        Some(i) => {
            assert(rs[i as int].0 == match releases@[i as int].version { Some(s) => Some(s@), None => None });
            match &releases[i].version {
                Some(v) => return Ok(v.clone()),
                None => {},
            }
        },
        None => {},
    }
    let lc = to_chars(lower.as_str());
    let with_v = if lc.len() > 0 && lc[0] == 'v' {
        lower.clone()
    } else {
        let mut w = "v".to_owned();
        w.append(lower.as_str());
        w
    };
    proof { reveal_strlit("v"); }
    assert("v"@ =~= seq!['v']);
    match find_release(releases, 2, with_v.as_str()) {
        Some(i) => {
            assert(rs[i as int].0 == match releases@[i as int].version { Some(s) => Some(s@), None => None });
            match &releases[i].version {
                Some(v) => return Ok(v.clone()),
                None => {
                    proof { lemma_first_release_passes(rs, test_of(2, with_v@)); }
                    assert(false);
                },
            }
        },
        None => {},
    }
    let mut prefix = "v".to_owned();
    prefix.append(specifier);
    crate::text::push_char(&mut prefix, '.');
    assert(prefix@ == seq!['v'] + specifier@ + seq!['.']);
    assert(with_v@ == (if lower@.len() > 0 && lower@[0] == 'v' { lower@ } else { seq!['v'] + lower@ }));
    match find_release(releases, 3, prefix.as_str()) {
        Some(i) => {
            assert(rs[i as int].0 == match releases@[i as int].version { Some(s) => Some(s@), None => None });
            match &releases[i].version {
                Some(v) => return Ok(v.clone()),
                None => {
                    proof { lemma_first_release_passes(rs, test_of(3, prefix@)); }
                    assert(false);
                },
            }
        },
        None => {},
    }
    Err(RuntimeError::Unresolved(specifier.to_owned()))
}

/// The major version of a release: the number before the first `.`, without one leading `v`
/// (0 where it is not a number).
pub open spec fn release_major(version: Seq<char>) -> nat {
    let clean = if version.len() > 0 && version[0] == 'v' { version.drop_first() } else { version };
    match parse_u64(split_on(clean, '.')[0]) {
        Some(n) => n,
        None => 0,
    }
}

/// The last major version of Node.js that has reached its end of life.
pub const NODE_EOL_MAJOR_VERSION: u64 = 20;

fn release_major_exec(version: &str) -> (r: u64)
    ensures
        r == release_major(version@),
{
    let c = to_chars(version);
    let clean = if c.len() > 0 && c[0] == 'v' {
        let d = slice_vec(&c, 1, c.len());
        assert(d@ =~= c@.drop_first());
        d
    } else {
        c
    };
    let parts = split_on_vec(&clean, '.');
    proof { crate::range::lemma_split_on_nonempty(clean@, '.'); }
    assert(views(parts@)[0] == parts@[0]@);
    match parse_u64_exec(&parts[0]) {
        Some(n) => n,
        None => 0,
    }
}

/// Whether a release has reached its end of life: its major version is at most
/// `NODE_EOL_MAJOR_VERSION`.
pub fn is_eol_version(version: &str) -> (r: bool)
    ensures
        r == (release_major(version@) <= NODE_EOL_MAJOR_VERSION),
{
    release_major_exec(version) <= NODE_EOL_MAJOR_VERSION
}

/// A newer release of the same major line is a security release: `version` has
/// vulnerabilities that a later release fixes.
pub open spec fn security_fix_after(rs: Seq<NodeRelease>, version: Seq<char>) -> bool {
    exists|i: int| 0 <= i < rs.len() && #[trigger] rs[i].security && (rs[i].version matches Some(v)
        && release_major(v@) == release_major(version)
        && semver_order(dir_version(v@), dir_version(version)) > 0)
}

/// Whether the index has a security release newer than `version` in its major line (see
/// `security_fix_after`).
pub fn has_outstanding_security_fix(releases: &Vec<NodeRelease>, version: &str) -> (r: bool)
    ensures
        r == security_fix_after(releases@, version@),
{
    let major = release_major_exec(version);
    let own = dir_version_exec(version);
    let mut i: usize = 0;
    while i < releases.len()
        invariant
            i <= releases@.len(),
            major == release_major(version@),
            own@ == dir_version(version@),
            semver_parse(own@) is Some,
            forall|k: int| 0 <= k < i ==> !(#[trigger] releases@[k].security && (releases@[k].version matches Some(v)
                && release_major(v@) == release_major(version@)
                && semver_order(dir_version(v@), dir_version(version@)) > 0)),
        decreases releases@.len() - i,
    {
        if releases[i].security {
            match &releases[i].version {
                Some(v) => {
                    if release_major_exec(v.as_str()) == major {
                        let dv = dir_version_exec(v.as_str());
                        if compare_semver(dv.as_str(), own.as_str()) > 0 {
                            return true;
                        }
                    }
                },
                None => {},
            }
        }
        i += 1;
    }
    false
}

/// Whether the index marks `version` as a security release.
pub fn is_security_release(releases: &Vec<NodeRelease>, version: &str) -> (r: bool)
    ensures
        r == exists|i: int| 0 <= i < releases@.len() && #[trigger] releases@[i].security
            && (releases@[i].version matches Some(v) && v@ == version@),
{
    let mut i: usize = 0;
    while i < releases.len()
        invariant
            i <= releases@.len(),
            forall|k: int| 0 <= k < i ==> !(#[trigger] releases@[k].security
                && (releases@[k].version matches Some(v) && v@ == version@)),
        decreases releases@.len() - i,
    {
        if releases[i].security {
            match &releases[i].version {
                Some(v) => {
                    if str_eq(v.as_str(), version) {
                        return true;
                    }
                },
                None => {},
            }
        }
        i += 1;
    }
    false
}

pub fn get_node_binary_subpath(is_windows: bool) -> (r: &'static str)
    ensures
        r@ == (if is_windows { "node.exe"@ } else { "bin/node"@ }),
{
    if is_windows { "node.exe" } else { "bin/node" }
}

/// The operating system and architecture names of the Node.js builds for a platform, named as
/// Rust names them: `win` for `windows`, `darwin` for `macos`, else `linux`; `arm64` for
/// `aarch64` and `x64` for `x86_64`, no build for other architectures.
pub open spec fn platform_arch(os: Seq<char>, arch: Seq<char>) -> Option<(Seq<char>, Seq<char>)> {
    let o = if os == "windows"@ { "win"@ } else if os == "macos"@ { "darwin"@ } else { "linux"@ };
    if arch == "aarch64"@ {
        Some((o, "arm64"@))
    } else if arch == "x86_64"@ {
        Some((o, "x64"@))
    } else {
        None
    }
}

/// An architecture without Node.js builds.
#[derive(Clone, Debug, PartialEq, Eq)]
pub struct UnsupportedArchitecture;

impl UnsupportedArchitecture {
    /// The message of the error.
    pub fn message(&self) -> (r: &'static str)
        ensures
            r@ == "Unsupported architecture. Kumo runtime supports x64 and arm64."@,
    {
        "Unsupported architecture. Kumo runtime supports x64 and arm64."
    }
}

/// The build names for the platform with these Rust names (`std::env::consts::OS` and
/// `ARCH`): see `platform_arch`.
pub fn get_platform_arch(os: &str, arch: &str) -> (r: Result<(&'static str, &'static str), UnsupportedArchitecture>)
    ensures
        (match r {
            Ok((o, a)) => platform_arch(os@, arch@) == Some((o@, a@)),
            Err(_) => platform_arch(os@, arch@) is None,
        }),
{
    let o: &'static str = if str_eq(os, "windows") {
        "win"
    } else if str_eq(os, "macos") {
        "darwin"
    } else {
        "linux"
    };
    if str_eq(arch, "aarch64") {
        Ok((o, "arm64"))
    } else if str_eq(arch, "x86_64") {
        Ok((o, "x64"))
    } else {
        Err(UnsupportedArchitecture)
    }
}

/// The archive of a release for a platform: `node-<version>-<os>-<arch>`, a `zip` for Windows,
/// else a `tar.gz`; and its URL under the distribution root.
pub open spec fn node_archive(version: Seq<char>, os: Seq<char>, arch: Seq<char>) -> (Seq<char>, Seq<char>, Seq<char>) {
    let name = "node-"@ + version + seq!['-'] + os + seq!['-'] + arch;
    let ext = if os == "win"@ { "zip"@ } else { "tar.gz"@ };
    (name, ext, "https://nodejs.org/dist"@ + seq!['/'] + version + seq!['/'] + name + seq!['.'] + ext)
}

/// The archive name, its extension and its download URL: see `node_archive`.
pub fn node_archive_for(version: &str, os: &str, arch: &str) -> (r: (String, &'static str, String))
    ensures
        (r.0@, r.1@, r.2@) == node_archive(version@, os@, arch@),
{
    let mut name = "node-".to_owned();
    name.append(version);
    crate::text::push_char(&mut name, '-');
    name.append(os);
    crate::text::push_char(&mut name, '-');
    name.append(arch);
    let ext: &'static str = if str_eq(os, "win") { "zip" } else { "tar.gz" };
    let mut url = "https://nodejs.org/dist".to_owned();
    crate::text::push_char(&mut url, '/');
    url.append(version);
    crate::text::push_char(&mut url, '/');
    url.append(name.as_str());
    crate::text::push_char(&mut url, '.');
    url.append(ext);
    (name, ext, url)
}

/// The shim that runs a release's `node`: its file name and content, a batch file on Windows,
/// else a shell script.
pub open spec fn node_shim(is_windows: bool, node_bin: Seq<char>) -> (Seq<char>, Seq<char>) {
    if is_windows {
        ("node.cmd"@, "@ECHO OFF\n\""@ + node_bin + "\" %*"@)
    } else {
        ("node"@, "#!/bin/sh\nexec \""@ + node_bin + "\" \"$@\""@)
    }
}

/// Executable `node_shim`.
pub fn node_shim_for(is_windows: bool, node_bin: &str) -> (r: (&'static str, String))
    ensures
        (r.0@, r.1@) == node_shim(is_windows, node_bin@),
{
    if is_windows {
        let mut c = "@ECHO OFF\n\"".to_owned();
        c.append(node_bin);
        c.append("\" %*");
        ("node.cmd", c)
    } else {
        let mut c = "#!/bin/sh\nexec \"".to_owned();
        c.append(node_bin);
        c.append("\" \"$@\"");
        ("node", c)
    }
}

/// The directory name of a release to remove: the specifier, with a `v` before it where it
/// has none.
pub open spec fn release_dir_name(spec: Seq<char>) -> Seq<char> {
    if spec.len() > 0 && spec[0] == 'v' { spec } else { seq!['v'] + spec }
}

/// Executable `release_dir_name`.
pub fn release_dir_name_for(spec: &str) -> (r: String)
    ensures
        r@ == release_dir_name(spec@),
{
    let c = to_chars(spec);
    proof { reveal_strlit("v"); }
    assert("v"@ =~= seq!['v']);
    if c.len() > 0 && c[0] == 'v' {
        spec.to_owned()
    } else {
        let mut s = "v".to_owned();
        s.append(spec);
        s
    }
}


// ---------------------------------------------------------------- installed releases

/// The version that an installed release directory stands for: its name without one leading
/// `v`, read as `0.0.0` where it does not parse.
pub open spec fn dir_version(name: Seq<char>) -> Seq<char> {
    let v = if name.len() > 0 && name[0] == 'v' { name.drop_first() } else { name };
    if semver_parse(v) is Some { v } else { seq!['0', '.', '0', '.', '0'] }
}

/// Newest first: the version of each directory is at least that of the next one.
pub open spec fn newest_first(names: Seq<Seq<char>>) -> bool {
    forall|k: int| 0 <= k < names.len() - 1 ==>
        semver_order(dir_version(#[trigger] names[k]), dir_version(names[k + 1])) >= 0
}

fn dir_version_exec(name: &str) -> (r: String)
    ensures
        r@ == dir_version(name@),
        semver_parse(r@) is Some,
{
    let c = to_chars(name);
    let v: String = if c.len() > 0 && c[0] == 'v' { string_of(&c, 1, c.len()) } else { name.to_owned() };
    assert(v@ == (if name@.len() > 0 && name@[0] == 'v' { name@.drop_first() } else { name@ }));
    match parse_semver(v.as_str()) {
        Some(_) => v,
        None => {
            let z = "0.0.0".to_owned();
            proof { reveal_strlit("0.0.0"); }
            assert(z@ =~= seq!['0', '.', '0', '.', '0']);
            let _ = parse_semver(z.as_str());
            z
        },
    }
}

/// The installed release directories, newest first (by `semver`, a name that does not parse
/// counting as `0.0.0`): the same names, reordered.
pub fn sort_newest_first(names: &Vec<String>) -> (r: Vec<String>)
    ensures
        str_views(r@).to_multiset() == str_views(names@).to_multiset(),
        newest_first(str_views(r@)),
{
    broadcast use vstd::seq_lib::to_multiset_build, vstd::seq_lib::to_multiset_insert;
    let mut out: Vec<String> = Vec::new();
    let mut vers: Vec<String> = Vec::new();
    let mut i: usize = 0;
    assert(str_views(names@.take(0)) =~= Seq::<Seq<char>>::empty());
    assert(str_views(out@) =~= Seq::<Seq<char>>::empty());
    while i < names.len()
        invariant
            i <= names@.len(),
            out@.len() == vers@.len(),
            forall|k: int| 0 <= k < vers@.len() ==> #[trigger] vers@[k]@ == dir_version(out@[k]@),
            forall|k: int| 0 <= k < vers@.len() ==> semver_parse(#[trigger] vers@[k]@) is Some,
            newest_first(str_views(out@)),
            str_views(out@).to_multiset() == str_views(names@.take(i as int)).to_multiset(),
        decreases names@.len() - i,
    {
        let x = names[i].clone();
        let xv = dir_version_exec(x.as_str());
        let mut j: usize = 0;
        while j < out.len()
            invariant
                j <= out@.len(),
                out@.len() == vers@.len(),
                semver_parse(xv@) is Some,
                forall|k: int| 0 <= k < vers@.len() ==> semver_parse(#[trigger] vers@[k]@) is Some,
                j > 0 ==> semver_order(vers@[j - 1]@, xv@) >= 0,
            ensures
                j <= out@.len(),
                j > 0 ==> semver_order(vers@[j - 1]@, xv@) >= 0,
                j < out@.len() ==> semver_order(xv@, vers@[j as int]@) > 0,
            decreases out@.len() - j,
        {
            if compare_semver(xv.as_str(), vers[j].as_str()) > 0 {
                break;
            }
            j += 1;
        }
        let ghost before = out@;
        let ghost vbefore = vers@;
        out.insert(j, x);
        vers.insert(j, xv);
        assert(str_views(out@) =~= str_views(before).insert(j as int, names@[i as int]@));
        assert(names@.take(i + 1) =~= names@.take(i as int).push(names@[i as int]));
        assert(str_views(names@.take(i + 1)) =~= str_views(names@.take(i as int)).push(names@[i as int]@));
        proof {
            vstd::seq_lib::to_multiset_insert(str_views(before), j as int, names@[i as int]@);
            vstd::seq_lib::to_multiset_build(str_views(names@.take(i as int)), names@[i as int]@);
        }
        assert forall|k: int| 0 <= k < vers@.len() implies #[trigger] vers@[k]@ == dir_version(out@[k]@) by {
            if k > j as int {
                assert(vers@[k] == vbefore[k - 1] && out@[k] == before[k - 1]);
            }
        }
        assert forall|k: int| 0 <= k < vers@.len() implies semver_parse(#[trigger] vers@[k]@) is Some by {
            if k > j as int {
                assert(vers@[k] == vbefore[k - 1]);
            }
        }
        let ghost sv = str_views(out@);
        assert forall|k: int| 0 <= k < sv.len() - 1 implies
            semver_order(dir_version(#[trigger] sv[k]), dir_version(sv[k + 1])) >= 0 by {
            let bv = str_views(before);
            if k + 1 < j as int {
                assert(sv[k] == bv[k] && sv[k + 1] == bv[k + 1]);
            } else if k + 1 == j as int {
                assert(sv[k] == bv[k] && dir_version(sv[k]) == vbefore[k]@);
                assert(dir_version(sv[k + 1]) == xv@);
            } else if k == j as int {
                assert(dir_version(sv[k]) == xv@);
                assert(dir_version(sv[k + 1]) == vbefore[k]@);
            } else {
                assert(sv[k] == bv[k - 1] && sv[k + 1] == bv[k]);
            }
        }
        i += 1;
    }
    assert(names@.take(names@.len() as int) =~= names@);
    out
}

} // verus!
