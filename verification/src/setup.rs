//! The settings that the commands start from: the registry, the dependency directory, the
//! manifest, platform compatibility, shims, and the check for a newer Kumo.
use vstd::prelude::*;
use crate::text::{
    trim, trim_vec, strip_trailing, strip_trailing_vec, strip_leading, strip_leading_vec, to_chars,
    string_of_all, str_eq, str_views, starts_with, starts_with_str, replace, replace_vec, slice_vec,
};
use crate::versions::{semver_parse, semver_order, parse_semver, compare_semver};
use crate::policy::lowercase;

verus! {

// ---------------------------------------------------------------- registry

/// The registry that a setting names: `npm` and `kumo` by name, an `http://` or `https://` URL
/// without trailing slashes, and npm for anything else.
pub open spec fn registry_url(setting: Seq<char>) -> Seq<char> {
    if setting == "npm"@ {
        "https://registry.npmjs.org"@
    } else if setting == "kumo"@ {
        "https://kumo.unsetsoft.com"@
    } else if starts_with(setting, "http://"@) || starts_with(setting, "https://"@) {
        strip_trailing(setting, '/')
    } else {
        "https://registry.npmjs.org"@
    }
}

/// The registry setting in force: the `KUMO_REGISTRY` variable where it is set (trimmed; an
/// empty one leaves `npm`); where it is not set, the project's configuration, then the global
/// one; `npm` by default.
pub open spec fn registry_setting(env: Option<Seq<char>>, local: Option<Seq<char>>, global: Option<Seq<char>>) -> Seq<char> {
    match env {
        Some(e) => if trim(e).len() > 0 { trim(e) } else { "npm"@ },
        None => match local {
            Some(l) => l,
            None => match global {
                Some(g) => g,
                None => "npm"@,
            },
        },
    }
}

/// The registry URL of the resolver: see `registry_setting` and `registry_url`.
pub fn resolve_registry_url(env: Option<&str>, local: Option<&str>, global: Option<&str>) -> (r: String)
    ensures
        r@ == registry_url(registry_setting(
            match env { Some(e) => Some(e@), None => None },
            match local { Some(l) => Some(l@), None => None },
            match global { Some(g) => Some(g@), None => None },
        )),
{
    let setting: String = match env {
        Some(e) => {
            let c = to_chars(e);
            let t = trim_vec(&c);
            if t.len() > 0 { string_of_all(&t) } else { "npm".to_owned() }
        },
        None => match local {
            Some(l) => l.to_owned(),
            None => match global {
                Some(g) => g.to_owned(),
                None => "npm".to_owned(),
            },
        },
    };
    let s = setting.as_str();
    if str_eq(s, "npm") {
        "https://registry.npmjs.org".to_owned()
    } else if str_eq(s, "kumo") {
        "https://kumo.unsetsoft.com".to_owned()
    } else if starts_with_str(s, "http://") || starts_with_str(s, "https://") {
        let c = to_chars(s);
        let t = strip_trailing_vec(&c, '/');
        string_of_all(&t)
    } else {
        "https://registry.npmjs.org".to_owned()
    }
}

/// The file that caches a package's metadata: its name with `/` as `__`, and `.json`.
pub open spec fn metadata_cache_file(name: Seq<char>) -> Seq<char> {
    replace(name, seq!['/'], seq!['_', '_']) + ".json"@
}

/// Executable `metadata_cache_file`.
pub fn metadata_cache_file_for(name: &str) -> (r: String)
    ensures
        r@ == metadata_cache_file(name@),
{
    proof {
        reveal_strlit("/");
        reveal_strlit("__");
    }
    assert("/"@ =~= seq!['/']);
    assert("__"@ =~= seq!['_', '_']);
    let c = to_chars(name);
    let mut r = replace_vec(&c, "/", "__");
    crate::text::extend_str(&mut r, ".json");
    string_of_all(&r)
}

// ---------------------------------------------------------------- project

/// The dependency directory: `node_modules` where the project's configuration (else the
/// global one) asks for it or where one already exists, else `dependencies`.
pub open spec fn deps_dir(local: Option<bool>, global: Option<bool>, node_modules_exists: bool) -> Seq<char> {
    let use_nm = match local {
        Some(b) => b,
        None => match global { Some(b) => b, None => false },
    };
    if use_nm || node_modules_exists { "node_modules"@ } else { "dependencies"@ }
}

/// Executable `deps_dir`.
pub fn get_deps_dir(local: Option<bool>, global: Option<bool>, node_modules_exists: bool) -> (r: String)
    ensures
        r@ == deps_dir(local, global, node_modules_exists),
{
    let use_nm = match local {
        Some(b) => b,
        None => match global { Some(b) => b, None => false },
    };
    if use_nm || node_modules_exists { "node_modules".to_owned() } else { "dependencies".to_owned() }
}

/// The manifest that a command reads.
#[derive(Clone, Copy, Debug, PartialEq, Eq, Structural)]
pub enum Manifest {
    KumoJson,
    PackageJson,
    KumoConfigJson,
}

/// `kumo.json`, then `package.json`, then `kumo.config.json`, whichever exists first.
pub fn choose_manifest(kumo_json: bool, package_json: bool, kumo_config_json: bool) -> (r: Option<Manifest>)
    ensures
        r == (if kumo_json { Some(Manifest::KumoJson) } else if package_json { Some(Manifest::PackageJson) }
            else if kumo_config_json { Some(Manifest::KumoConfigJson) } else { None }),
{
    if kumo_json {
        Some(Manifest::KumoJson)
    } else if package_json {
        Some(Manifest::PackageJson)
    } else if kumo_config_json {
        Some(Manifest::KumoConfigJson)
    } else {
        None
    }
}

/// The key of a policy setting as read from a configuration file: the spellings of the allowed
/// import hosts all as `AllowedImportHost`.
pub open spec fn policy_key(k: Seq<char>) -> Seq<char> {
    if k == "allowedImportHosts"@ || k == "AllowedImportHosts"@ || k == "allowed_import_hosts"@ {
        "AllowedImportHost"@
    } else {
        k
    }
}

/// Executable `policy_key`.
pub fn policy_key_for(k: &str) -> (r: String)
    ensures
        r@ == policy_key(k@),
{
    if str_eq(k, "allowedImportHosts") || str_eq(k, "AllowedImportHosts") || str_eq(k, "allowed_import_hosts") {
        "AllowedImportHost".to_owned()
    } else {
        k.to_owned()
    }
}

// ---------------------------------------------------------------- shims

/// The shim of a package binary: its file name and content, a batch file on Windows, else a
/// shell script; both set `NODE_PATH` to the dependency directory and run the target with node.
pub open spec fn shim(is_windows: bool, name: Seq<char>, deps_dir: Seq<char>, target: Seq<char>) -> (Seq<char>, Seq<char>) {
    if is_windows {
        (name + ".cmd"@, "@ECHO OFF\nSET NODE_PATH="@ + deps_dir + "\nnode \""@ + target + "\" %*"@)
    } else {
        (name, "#!/bin/sh\nexport NODE_PATH=\""@ + deps_dir + "\"\nnode \""@ + target + "\" \"$@\""@)
    }
}

/// Executable `shim`.
pub fn shim_for(is_windows: bool, name: &str, deps_dir: &str, target: &str) -> (r: (String, String))
    ensures
        (r.0@, r.1@) == shim(is_windows, name@, deps_dir@, target@),
{
    if is_windows {
        let mut f = name.to_owned();
        f.append(".cmd");
        let mut c = "@ECHO OFF\nSET NODE_PATH=".to_owned();
        c.append(deps_dir);
        c.append("\nnode \"");
        c.append(target);
        c.append("\" %*");
        (f, c)
    } else {
        let mut c = "#!/bin/sh\nexport NODE_PATH=\"".to_owned();
        c.append(deps_dir);
        c.append("\"\nnode \"");
        c.append(target);
        c.append("\" \"$@\"");
        (name.to_owned(), c)
    }
}

// ---------------------------------------------------------------- platform

/// The npm name of the running operating system (from Rust's name): `win32` for `windows`,
/// `darwin` for `macos`, else the same.
pub open spec fn npm_os(os: Seq<char>) -> Seq<char> {
    if os == "windows"@ { "win32"@ } else if os == "macos"@ { "darwin"@ } else { os }
}

/// The npm name of the running architecture (from Rust's name).
pub open spec fn npm_cpu(arch: Seq<char>) -> Seq<char> {
    if arch == "x86_64"@ {
        "x64"@
    } else if arch == "x86"@ {
        "ia32"@
    } else if arch == "aarch64"@ {
        "arm64"@
    } else if arch == "powerpc"@ {
        "ppc"@
    } else if arch == "powerpc64"@ {
        "ppc64"@
    } else {
        arch
    }
}

/// A platform list of a package admits the current value: an empty list admits everything;
/// otherwise `!<current>` excludes it, and it must be listed unless the list has exclusions.
pub open spec fn list_admits(list: Seq<Seq<char>>, current: Seq<char>) -> bool {
    list.len() == 0 || (
        !(exists|i: int| 0 <= i < list.len() && #[trigger] list[i] == seq!['!'] + current)
        && ((exists|i: int| 0 <= i < list.len() && #[trigger] list[i] == current && !(list[i].len() > 0 && list[i][0] == '!'))
            || (exists|i: int| 0 <= i < list.len() && (#[trigger] list[i]).len() > 0 && list[i][0] == '!'))
    )
}

/// A package suits the running platform: its `os` and `cpu` lists admit the platform's npm
/// names (an absent list admits everything).
pub open spec fn compatible(os_list: Option<Seq<Seq<char>>>, cpu_list: Option<Seq<Seq<char>>>, os: Seq<char>, arch: Seq<char>) -> bool {
    (match os_list { Some(l) => list_admits(l, npm_os(os)), None => true })
        && (match cpu_list { Some(l) => list_admits(l, npm_cpu(arch)), None => true })
}

fn list_admits_exec(list: &Vec<String>, current: &str) -> (r: bool)
    ensures
        r == list_admits(str_views(list@), current@),
{
    let ghost l = str_views(list@);
    if list.len() == 0 {
        return true;
    }
    let mut negated = "!".to_owned();
    negated.append(current);
    proof { reveal_strlit("!"); }
    assert("!"@ =~= seq!['!']);
    let mut found = false;
    let mut has_neg = false;
    let mut i: usize = 0;
    while i < list.len()
        invariant
            i <= list@.len(),
            l == str_views(list@),
            negated@ == seq!['!'] + current@,
            forall|k: int| 0 <= k < i ==> l[k] != seq!['!'] + current@,
            found == exists|k: int| 0 <= k < i && #[trigger] l[k] == current@ && !(l[k].len() > 0 && l[k][0] == '!'),
            has_neg == exists|k: int| 0 <= k < i && (#[trigger] l[k]).len() > 0 && l[k][0] == '!',
        decreases list@.len() - i,
    {
        assert(l[i as int] == list@[i as int]@);
        let item = list[i].as_str();
        let c = to_chars(item);
        if c.len() > 0 && c[0] == '!' {
            has_neg = true;
            if str_eq(item, negated.as_str()) {
                return false;
            }
        } else if str_eq(item, current) {
            found = true;
        }
        i += 1;
    }
    found || has_neg
}

/// Whether a package suits the platform whose Rust names are `os` and `arch`: see
/// `compatible`.
pub fn is_compatible(os_list: &Option<Vec<String>>, cpu_list: &Option<Vec<String>>, os: &str, arch: &str) -> (r: bool)
    ensures
        r == compatible(
            match os_list { Some(l) => Some(str_views(l@)), None => None },
            match cpu_list { Some(l) => Some(str_views(l@)), None => None },
            os@, arch@),
{
    let cur_os: &str = if str_eq(os, "windows") { "win32" } else if str_eq(os, "macos") { "darwin" } else { os };
    let cur_arch: &str = if str_eq(arch, "x86_64") {
        "x64"
    } else if str_eq(arch, "x86") {
        "ia32"
    } else if str_eq(arch, "aarch64") {
        "arm64"
    } else if str_eq(arch, "powerpc") {
        "ppc"
    } else if str_eq(arch, "powerpc64") {
        "ppc64"
    } else {
        arch
    };
    let os_ok = match os_list {
        Some(l) => list_admits_exec(l, cur_os),
        None => true,
    };
    if !os_ok {
        return false;
    }
    match cpu_list {
        Some(l) => list_admits_exec(l, cur_arch),
        None => true,
    }
}

// ---------------------------------------------------------------- self-update check

/// How often the release list is consulted: a day, in seconds.
pub const UPDATE_CHECK_INTERVAL_SECS: u64 = 86400;

/// Whether to ask for the latest release: more than a day since the last check, or no known
/// latest version.
pub fn needs_update_check(now: u64, last_check: u64, cached_latest: &str) -> (r: bool)
    requires
        last_check <= now,
    ensures
        r == (now - last_check > UPDATE_CHECK_INTERVAL_SECS || cached_latest@.len() == 0),
{
    let c = to_chars(cached_latest);
    now - last_check > UPDATE_CHECK_INTERVAL_SECS || c.len() == 0
}

/// The version that a release tag names: without its leading `v`s.
pub fn tag_version(tag: &str) -> (r: String)
    ensures
        r@ == strip_leading(tag@, 'v'),
{
    let c = to_chars(tag);
    let t = strip_leading_vec(&c, 'v');
    string_of_all(&t)
}

/// The newer Kumo to announce: the latest known version, where it is set, differs from the
/// running one, both parse, and it is the greater.
pub open spec fn newer_version(latest: Seq<char>, current: Seq<char>) -> Option<Seq<char>> {
    if latest.len() > 0 && latest != current && semver_parse(latest) is Some && semver_parse(current) is Some
        && semver_order(latest, current) > 0 {
        Some(latest)
    } else {
        None
    }
}

/// Executable `newer_version`.
pub fn newer_version_for(latest: &str, current: &str) -> (r: Option<String>)
    ensures
        (match r {
            Some(v) => newer_version(latest@, current@) == Some(v@),
            None => newer_version(latest@, current@) is None,
        }),
{
    let l = to_chars(latest);
    if l.len() == 0 || str_eq(latest, current) {
        return None;
    }
    match (parse_semver(latest), parse_semver(current)) {
        (Some(_), Some(_)) => {
            if compare_semver(latest, current) > 0 { Some(latest.to_owned()) } else { None }
        },
        _ => None,
    }
}

} // verus!

verus! {

/// A release tag without one leading `v`.
pub open spec fn tag_text(tag: Seq<char>) -> Seq<char> {
    if tag.len() > 0 && tag[0] == 'v' { tag.drop_first() } else { tag }
}

/// A pre-release channel: `alpha`, `beta` or `rc`.
pub open spec fn is_channel(t: Seq<char>) -> bool {
    t == "alpha"@ || t == "beta"@ || t == "rc"@
}

/// Scanning the releases (their tags, in order) for a target, the best index so far and the
/// greatest version so far: with no target, the greatest version; with a channel, the greatest
/// version whose text holds the channel's name; else the first release whose tag, with or
/// without its `v`, is the target. Versions must exceed `0.0.0`.
pub open spec fn release_scan(
    tags: Seq<Option<Seq<char>>>,
    target: Option<Seq<char>>,
    i: int,
    best: Option<int>,
    max: Seq<char>,
) -> Option<int>
    decreases tags.len() - i,
{
    if i < 0 || i >= tags.len() {
        best
    } else {
        match tags[i] {
            None => release_scan(tags, target, i + 1, best, max),
            Some(tag) => {
                let v = tag_text(tag);
                let greater = semver_parse(v) is Some && semver_order(v, max) > 0;
                match target {
                    Some(t) => if is_channel(lowercase(t)) {
                        if crate::text::contains_pat(v, lowercase(t)) && greater {
                            release_scan(tags, target, i + 1, Some(i), v)
                        } else {
                            release_scan(tags, target, i + 1, best, max)
                        }
                    } else if v == t || tag == t {
                        Some(i)
                    } else {
                        release_scan(tags, target, i + 1, best, max)
                    },
                    None => if greater {
                        release_scan(tags, target, i + 1, Some(i), v)
                    } else {
                        release_scan(tags, target, i + 1, best, max)
                    },
                }
            },
        }
    }
}

fn tag_text_exec(tag: &str) -> (r: String)
    ensures
        r@ == tag_text(tag@),
{
    let c = to_chars(tag);
    if c.len() > 0 && c[0] == 'v' {
        let d = slice_vec(&c, 1, c.len());
        assert(d@ =~= c@.drop_first());
        string_of_all(&d)
    } else {
        tag.to_owned()
    }
}

/// The release that `update` installs among a list (see `release_scan`, from `0.0.0`).
pub fn select_release(tags: &Vec<Option<String>>, target: Option<&str>) -> (r: Option<usize>)
    ensures
        (match r {
            Some(i) => release_scan(tags@.map_values(|t: Option<String>| match t { Some(s) => Some(s@), None => None }),
                match target { Some(t) => Some(t@), None => None }, 0, None, "0.0.0"@) == Some(i as int),
            None => release_scan(tags@.map_values(|t: Option<String>| match t { Some(s) => Some(s@), None => None }),
                match target { Some(t) => Some(t@), None => None }, 0, None, "0.0.0"@) is None,
        }),
{
    let ghost ts = tags@.map_values(|t: Option<String>| match t { Some(s) => Some(s@), None => None });
    let ghost tg = match target { Some(t) => Some(t@), None => None::<Seq<char>> };
    let mut best: Option<usize> = None;
    let mut max = "0.0.0".to_owned();
    proof { reveal_strlit("0.0.0"); }
    assert("0.0.0"@ =~= seq!['0', '.', '0', '.', '0']);
    let _ = parse_semver(max.as_str());
    let lower: Option<String> = match target {
        Some(t) => Some(crate::policy::to_lowercase(t)),
        None => None,
    };
    let channel = match &lower {
        Some(l) => str_eq(l.as_str(), "alpha") || str_eq(l.as_str(), "beta") || str_eq(l.as_str(), "rc"),
        None => false,
    };
    let mut i: usize = 0;
    while i < tags.len()
        invariant
            i <= tags@.len(),
            ts == tags@.map_values(|t: Option<String>| match t { Some(s) => Some(s@), None => None }),
            tg == match target { Some(t) => Some(t@), None => None::<Seq<char>> },
            semver_parse(max@) is Some,
            (match (&lower, target) { (Some(l), Some(t)) => l@ == crate::policy::lowercase(t@), (None, None) => true, _ => false }),
            channel == (match target { Some(t) => is_channel(crate::policy::lowercase(t@)), None => false }),
            release_scan(ts, tg, 0, None, "0.0.0"@) == release_scan(ts, tg, i as int,
                match best { Some(b) => Some(b as int), None => None }, max@),
            (match best { Some(b) => b < i, None => true }),
        decreases tags@.len() - i,
    {
        assert(ts[i as int] == match &tags@[i as int] { Some(s) => Some(s@), None => None::<Seq<char>> });
        match &tags[i] {
            None => {},
            Some(tag) => {
                let v = tag_text_exec(tag.as_str());
                let greater = match parse_semver(v.as_str()) {
                    Some(_) => compare_semver(v.as_str(), max.as_str()) > 0,
                    None => false,
                };
                match target {
                    Some(t) => {
                        if channel {
                            let l = match &lower { Some(l) => l.as_str(), None => t };
                            if crate::text::contains_pat_str(v.as_str(), l) && greater {
                                best = Some(i);
                                max = v;
                            }
                        } else if str_eq(v.as_str(), t) || str_eq(tag.as_str(), t) {
                            return Some(i);
                        }
                    },
                    None => {
                        if greater {
                            best = Some(i);
                            max = v;
                        }
                    },
                }
            },
        }
        i += 1;
    }
    best
}

/// The release asset for an operating system (Rust's name): a zip on Windows, a tarball on
/// macOS and Linux.
pub fn update_asset_name(os: &str) -> (r: Option<&'static str>)
    ensures
        (match r {
            Some(a) => (os@ == "windows"@ && a@ == "kumo-windows.zip"@)
                || (os@ == "macos"@ && a@ == "kumo-macos.tar.gz"@)
                || (os@ == "linux"@ && a@ == "kumo-linux.tar.gz"@),
            None => os@ != "windows"@ && os@ != "macos"@ && os@ != "linux"@,
        }),
{
    if str_eq(os, "windows") {
        Some("kumo-windows.zip")
    } else if str_eq(os, "macos") {
        Some("kumo-macos.tar.gz")
    } else if str_eq(os, "linux") {
        Some("kumo-linux.tar.gz")
    } else {
        None
    }
}


// ---------------------------------------------------------------- configuration values

/// `i64::from_str`: an optional sign (`+` or `-`), then one or more ASCII digits, whose value
/// lies in the range of `i64`.
pub open spec fn parse_i64(s: Seq<char>) -> Option<int> {
    if s.len() > 0 && s[0] == '-' {
        let d = s.drop_first();
        if d.len() > 0 && crate::text::all_digits(d) && crate::text::dec_value(d) <= 0x8000_0000_0000_0000 {
            Some(-crate::text::dec_value(d))
        } else {
            None
        }
    } else {
        let d = if s.len() > 0 && s[0] == '+' { s.drop_first() } else { s };
        if d.len() > 0 && crate::text::all_digits(d) && crate::text::dec_value(d) <= i64::MAX {
            Some(crate::text::dec_value(d) as int)
        } else {
            None
        }
    }
}

/// A setting's value as `config default` stores it.
#[derive(Clone, Debug, PartialEq, Eq)]
pub enum ConfigValue {
    Bool(bool),
    Int(i64),
    Text(String),
}

/// The value of a setting given on the command line: `true` and `false` as booleans, an `i64`
/// as a number, anything else as text.
pub fn config_value(value: &str) -> (r: ConfigValue)
    ensures
        (match r {
            ConfigValue::Bool(b) => (value@ == "true"@ && b) || (value@ == "false"@ && !b),
            ConfigValue::Int(n) => value@ != "true"@ && value@ != "false"@ && parse_i64(value@) == Some(n as int),
            ConfigValue::Text(t) => value@ != "true"@ && value@ != "false"@ && parse_i64(value@) is None
                && t@ == value@,
        }),
{
    if str_eq(value, "true") {
        return ConfigValue::Bool(true);
    }
    if str_eq(value, "false") {
        return ConfigValue::Bool(false);
    }
    let c = to_chars(value);
    if c.len() > 0 && c[0] == '-' {
        let d = slice_vec(&c, 1, c.len());
        assert(d@ =~= value@.drop_first());
        if d.len() > 0 && d[0] == '+' {
            assert(!crate::text::all_digits(d@) || !('0' <= d@[0] && d@[0] <= '9'));
            return ConfigValue::Text(value.to_owned());
        }
        match crate::text::parse_u64_exec(&d) {
            Some(n) => {
                if n <= 0x8000_0000_0000_0000u64 {
                    let v: i64 = if n == 0x8000_0000_0000_0000u64 { i64::MIN } else { -(n as i64) };
                    ConfigValue::Int(v)
                } else {
                    ConfigValue::Text(value.to_owned())
                }
            },
            None => ConfigValue::Text(value.to_owned()),
        }
    } else {
        match crate::text::parse_u64_exec(&c) {
            Some(n) => {
                if n <= 0x7fff_ffff_ffff_ffffu64 {
                    ConfigValue::Int(n as i64)
                } else {
                    ConfigValue::Text(value.to_owned())
                }
            },
            None => ConfigValue::Text(value.to_owned()),
        }
    }
}

} // verus!
