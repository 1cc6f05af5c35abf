//! The decisions of an install: which version of each package is linked, which lockfile
//! changes are refused, and the small texts that an install writes.
use vstd::prelude::*;
use crate::text::{
    split_on, split_on_vec, views, trim, trim_vec, to_chars, string_of_all, str_eq, str_views,
    contains_str, ends_with, ends_with_str, eq_str, split_ws, split_ws_vec,
};
use crate::pkgid::{split_package, parse_package_id};
use crate::versions::{semver_parse, semver_order, parse_semver, compare_semver};
use crate::resolve::{lookup, lookup_exec, pair_views};
use crate::policy::{TrustLevel, trust_of, trust_rank};
use crate::tarball::TarballInfo;
use crate::engine::{SecurityEngine, downgrade_allowed, rfc3339_valid, release_age, typosquat_target};
use crate::digest::{hex, blake3_of, content_hash};

verus! {

// ---------------------------------------------------------------- .gitignore

/// `str::lines`: the text cut at `\n`, without the empty piece after a final `\n`.
pub open spec fn text_lines(s: Seq<char>) -> Seq<Seq<char>> {
    if s.len() == 0 {
        Seq::empty()
    } else if s.last() == '\n' {
        split_on(s, '\n').drop_last()
    } else {
        split_on(s, '\n')
    }
}

/// Some line of the `.gitignore` text, trimmed, is the directory or the directory and `/`.
pub open spec fn ignores_dir(content: Seq<char>, dir: Seq<char>) -> bool {
    exists|i: int| 0 <= i < text_lines(content).len()
        && (trim(#[trigger] text_lines(content)[i]) == dir || trim(text_lines(content)[i]) == dir + seq!['/'])
}

/// What is appended to a `.gitignore` that does not ignore the dependency directory yet: a
/// newline where the text does not end a line, then the directory, `/` and a newline.
pub open spec fn gitignore_addition(content: Seq<char>, dir: Seq<char>) -> Option<Seq<char>> {
    if ignores_dir(content, dir) {
        None
    } else if content.len() > 0 && content.last() != '\n' {
        Some(seq!['\n'] + dir + seq!['/', '\n'])
    } else {
        Some(dir + seq!['/', '\n'])
    }
}

/// The text to append to a `.gitignore` so that it ignores the dependency directory, if any
/// is needed: see `gitignore_addition`.
pub fn gitignore_addition_for(content: &str, dir: &str) -> (r: Option<String>)
    ensures
        (match r {
            Some(t) => gitignore_addition(content@, dir@) == Some(t@),
            None => gitignore_addition(content@, dir@) is None,
        }),
{
    let c = to_chars(content);
    let parts = split_on_vec(&c, '\n');
    proof { crate::range::lemma_split_on_nonempty(c@, '\n'); }
    let n: usize = if c.len() == 0 { 0 } else if c[c.len() - 1] == '\n' { parts.len() - 1 } else { parts.len() };
    assert(n == text_lines(content@).len());
    let mut entry = dir.to_owned();
    crate::text::push_char(&mut entry, '/');
    let mut i: usize = 0;
    while i < n
        invariant
            i <= n,
            n == text_lines(content@).len(),
            n <= parts@.len(),
            c@ == content@,
            views(parts@) == split_on(c@, '\n'),
            entry@ == dir@ + seq!['/'],
            forall|k: int| 0 <= k < i ==> !(trim(#[trigger] text_lines(content@)[k]) == dir@
                || trim(text_lines(content@)[k]) == dir@ + seq!['/']),
        decreases n - i,
    {
        assert(text_lines(content@)[i as int] == parts@[i as int]@);
        let t = trim_vec(&parts[i]);
        let ts = string_of_all(&t);
        if str_eq(ts.as_str(), dir) || str_eq(ts.as_str(), entry.as_str()) {
            return None;
        }
        i += 1;
    }
    let mut out = String::new();
    if c.len() > 0 && c[c.len() - 1] != '\n' {
        crate::text::push_char(&mut out, '\n');
    }
    out.append(entry.as_str());
    crate::text::push_char(&mut out, '\n');
    Some(out)
}

// ---------------------------------------------------------------- winners

/// The package name of a lockfile key.
pub open spec fn key_name(k: Seq<char>) -> Seq<char> {
    split_package(k, "unknown"@).0
}

/// The version of a lockfile key.
pub open spec fn key_version(k: Seq<char>) -> Seq<char> {
    split_package(k, "unknown"@).1
}

/// `0.0.0`.
pub open spec fn zero_version() -> Seq<char> {
    seq!['0', '.', '0', '.', '0']
}

/// A version text, or `0.0.0` where it does not parse.
pub open spec fn or_zero(v: Seq<char>) -> Seq<char> {
    if semver_parse(v) is Some { v } else { zero_version() }
}

/// The names of the keys, each once, in the order in which they first occur.
pub open spec fn distinct_names(keys: Seq<Seq<char>>) -> Seq<Seq<char>>
    decreases keys.len(),
{
    if keys.len() == 0 {
        Seq::empty()
    } else {
        let prev = distinct_names(keys.drop_last());
        if prev.contains(key_name(keys.last())) { prev } else { prev.push(key_name(keys.last())) }
    }
}

/// The keys of one package, in order.
pub open spec fn keys_of(keys: Seq<Seq<char>>, name: Seq<char>) -> Seq<Seq<char>>
    decreases keys.len(),
{
    if keys.len() == 0 {
        Seq::empty()
    } else {
        let prev = keys_of(keys.drop_last(), name);
        if key_name(keys.last()) == name { prev.push(keys.last()) } else { prev }
    }
}

/// The newest key of a package: the first one, replaced by each later one whose version is
/// greater (a version that does not parse counting as `0.0.0`).
pub open spec fn newest_key(group: Seq<Seq<char>>) -> Seq<char>
    decreases group.len(),
{
    if group.len() <= 1 {
        group[0]
    } else {
        let b = newest_key(group.drop_last());
        if semver_order(or_zero(key_version(group.last())), or_zero(key_version(b))) > 0 {
            group.last()
        } else {
            b
        }
    }
}

/// The key installed for a package: for a root dependency, the key of the version that the
/// lockfile records for it where there is one (else the first key); for any other package,
/// the newest.
pub open spec fn winner(group: Seq<Seq<char>>, name: Seq<char>, roots: Seq<(Seq<char>, Seq<char>)>) -> Seq<char> {
    match lookup(roots, name) {
        Some(v) => if group.contains(name + seq!['@'] + v) { name + seq!['@'] + v } else { group[0] },
        None => newest_key(group),
    }
}

/// The winners are, for each package name in order, the name and its winning key.
pub open spec fn winners_are(
    r: Seq<(Seq<char>, Seq<char>)>,
    keys: Seq<Seq<char>>,
    roots: Seq<(Seq<char>, Seq<char>)>,
) -> bool {
    let names = distinct_names(keys);
    r.len() == names.len() && forall|i: int| 0 <= i < names.len() ==>
        #[trigger] r[i] == (names[i], winner(keys_of(keys, names[i]), names[i], roots))
}

proof fn lemma_keys_of_nonempty(keys: Seq<Seq<char>>, name: Seq<char>)
    requires
        distinct_names(keys).contains(name),
    ensures
        keys_of(keys, name).len() > 0,
    decreases keys.len(),
{
    if keys.len() > 0 {
        let prev = distinct_names(keys.drop_last());
        if key_name(keys.last()) != name {
            lemma_keys_of_nonempty(keys.drop_last(), name);
        } else {
            assert(keys_of(keys, name).len() == keys_of(keys.drop_last(), name).len() + 1);
        }
    }
}

fn key_name_exec(k: &str) -> (r: String)
    ensures
        r@ == key_name(k@),
{
    parse_package_id(k).0
}

fn or_zero_exec(v: &str) -> (r: String)
    ensures
        r@ == or_zero(v@),
        semver_parse(r@) is Some,
{
    match parse_semver(v) {
        Some(_) => v.to_owned(),
        None => {
            let z = "0.0.0".to_owned();
            proof { reveal_strlit("0.0.0"); }
            assert("0.0.0"@ =~= zero_version());
            let _ = parse_semver(z.as_str());
            z
        },
    }
}

fn keys_of_exec(keys: &Vec<String>, name: &str) -> (r: Vec<String>)
    ensures
        str_views(r@) == keys_of(str_views(keys@), name@),
{
    let ghost ks = str_views(keys@);
    let mut r: Vec<String> = Vec::new();
    let mut i: usize = 0;
    while i < keys.len()
        invariant
            i <= keys@.len(),
            ks == str_views(keys@),
            str_views(r@) == keys_of(ks.take(i as int), name@),
        decreases keys@.len() - i,
    {
        assert(ks.take(i + 1).drop_last() =~= ks.take(i as int));
        assert(ks.take(i + 1).last() == keys@[i as int]@);
        let n = key_name_exec(keys[i].as_str());
        let ghost before = r@;
        if str_eq(n.as_str(), name) {
            r.push(keys[i].clone());
            assert(str_views(r@) =~= str_views(before).push(keys@[i as int]@));
        }
        i += 1;
    }
    assert(ks.take(keys@.len() as int) =~= ks);
    r
}

fn newest_key_exec(group: &Vec<String>) -> (r: String)
    requires
        group@.len() > 0,
    ensures
        r@ == newest_key(str_views(group@)),
{
    let ghost g = str_views(group@);
    let mut best = group[0].clone();
    let mut i: usize = 1;
    assert(g.take(1) =~= seq![g[0]]);
    while i < group.len()
        invariant
            1 <= i <= group@.len(),
            g == str_views(group@),
            best@ == newest_key(g.take(i as int)),
        decreases group@.len() - i,
    {
        assert(g.take(i + 1).drop_last() =~= g.take(i as int));
        assert(g.take(i + 1).last() == group@[i as int]@);
        let (_, v_new) = parse_package_id(group[i].as_str());
        let (_, v_old) = parse_package_id(best.as_str());
        let a = or_zero_exec(v_new.as_str());
        let b = or_zero_exec(v_old.as_str());
        if compare_semver(a.as_str(), b.as_str()) > 0 {
            best = group[i].clone();
        }
        i += 1;
    }
    assert(g.take(group@.len() as int) =~= g);
    best
}

/// The key linked for each package of a lockfile: see `winners_are`.
pub fn select_winners(keys: &Vec<String>, roots: &Vec<(String, String)>) -> (r: Vec<(String, String)>)
    ensures
        winners_are(pair_views(r@), str_views(keys@), pair_views(roots@)),
{
    let ghost ks = str_views(keys@);
    let ghost rs = pair_views(roots@);
    let mut out: Vec<(String, String)> = Vec::new();
    let mut names: Vec<String> = Vec::new();
    let mut i: usize = 0;
    while i < keys.len()
        invariant
            i <= keys@.len(),
            ks == str_views(keys@),
            rs == pair_views(roots@),
            str_views(names@) == distinct_names(ks.take(i as int)),
            out@.len() == names@.len(),
            forall|j: int| 0 <= j < names@.len() ==> #[trigger] pair_views(out@)[j]
                == (names@[j]@, winner(keys_of(ks, names@[j]@), names@[j]@, rs)),
        decreases keys@.len() - i,
    {
        assert(ks.take(i + 1).drop_last() =~= ks.take(i as int));
        assert(ks.take(i + 1).last() == keys@[i as int]@);
        let n = key_name_exec(keys[i].as_str());
        if !contains_str(&names, n.as_str()) {
            let group = keys_of_exec(keys, n.as_str());
            proof {
                assert(distinct_names(ks.take(i + 1)).contains(n@)) by {
                    assert(distinct_names(ks.take(i + 1)) == str_views(names@).push(n@));
                    assert(str_views(names@).push(n@)[names@.len() as int] == n@);
                }
                lemma_keys_of_nonempty(ks.take(i + 1), n@);
                lemma_keys_of_prefix(ks, i + 1, n@);
            }
            assert(str_views(group@)[0] == group@[0]@);
            let w = match lookup_exec(roots, n.as_str()) {
                Some(v) => {
                    let mut rk = n.clone();
                    crate::text::push_char(&mut rk, '@');
                    rk.append(v.as_str());
                    assert(rk@ == n@ + seq!['@'] + v@);
                    assert(lookup(rs, n@) == Some(v@));
                    if contains_str(&group, rk.as_str()) {
                        rk
                    } else {
                        let g0 = group[0].clone();
                        assert(g0@ == keys_of(ks, n@)[0]);
                        g0
                    }
                },
                None => {
                    let nk = newest_key_exec(&group);
                    assert(nk@ == newest_key(keys_of(ks, n@)));
                    nk
                },
            };
            assert(w@ == winner(keys_of(ks, n@), n@, rs));
            let ghost old_names = names@;
            let ghost old_out = out@;
            names.push(n.clone());
            out.push((n, w));
            proof {
                assert(str_views(names@) =~= str_views(old_names).push(names@[old_names.len() as int]@));
                assert forall|j: int| 0 <= j < names@.len() implies #[trigger] pair_views(out@)[j]
                    == (names@[j]@, winner(keys_of(ks, names@[j]@), names@[j]@, rs)) by {
                    if j < old_names.len() {
                        assert(pair_views(out@)[j] == pair_views(old_out)[j]);
                    } else {
                        assert(pair_views(out@)[j] == (n@, w@));
                    }
                }
            }
        }
        i += 1;
    }
    assert(ks.take(keys@.len() as int) =~= ks);
    assert(pair_views(out@).len() == out@.len());
    out
}

/// The keys of a package among a prefix of the keys are the first of its keys among them all.
proof fn lemma_keys_of_prefix(keys: Seq<Seq<char>>, i: int, name: Seq<char>)
    requires
        0 <= i <= keys.len(),
        keys_of(keys.take(i), name).len() > 0,
    ensures
        keys_of(keys, name).len() > 0,
        keys_of(keys, name)[0] == keys_of(keys.take(i), name)[0],
    decreases keys.len() - i,
{
    if i < keys.len() {
        assert(keys.take(i + 1).drop_last() =~= keys.take(i));
        lemma_keys_of_prefix(keys, i + 1, name);
    } else {
        assert(keys.take(i) =~= keys);
    }
}

// ---------------------------------------------------------------- package files

/// The name of the shim of a package's binary: the last `sep`-separated part of the package
/// directory name where it has a separator, else the whole name.
pub open spec fn bin_name(name: Seq<char>, sep: char) -> Seq<char> {
    if name.contains(sep) { split_on(name, sep).last() } else { name }
}

/// Executable `bin_name`.
pub fn bin_name_for(name: &str, sep: char) -> (r: String)
    ensures
        r@ == bin_name(name@, sep),
{
    let c = to_chars(name);
    let parts = split_on_vec(&c, sep);
    proof { crate::range::lemma_split_on_nonempty(c@, sep); }
    let mut found = false;
    let mut i: usize = 0;
    while i < c.len()
        invariant
            i <= c@.len(),
            found == exists|j: int| 0 <= j < i && c@[j] == sep,
        decreases c@.len() - i,
    {
        if c[i] == sep {
            found = true;
        }
        i += 1;
    }
    assert(found == c@.contains(sep));
    if found {
        let last = parts.len() - 1;
        assert(views(parts@)[last as int] == parts@[last as int]@);
        string_of_all(&parts[last])
    } else {
        name.to_owned()
    }
}

/// The lifecycle scripts that run at install, in their order.
pub open spec fn install_script_names() -> Seq<Seq<char>> {
    seq!["preinstall"@, "install"@, "postinstall"@]
}

/// Whether a package declares an install script (`preinstall`, `install` or `postinstall`).
pub fn has_install_scripts(script_names: &Vec<String>) -> (r: bool)
    ensures
        r == (str_views(script_names@).contains("preinstall"@) || str_views(script_names@).contains("install"@)
            || str_views(script_names@).contains("postinstall"@)),
{
    contains_str(script_names, "preinstall") || contains_str(script_names, "install")
        || contains_str(script_names, "postinstall")
}

/// A word of a script that names a script file: it ends in `.js`, `.cjs`, `.mjs` or `.ts`.
pub open spec fn is_script_file(w: Seq<char>) -> bool {
    ends_with(w, ".js"@) || ends_with(w, ".cjs"@) || ends_with(w, ".mjs"@) || ends_with(w, ".ts"@)
}

/// The words of a script, in order, that name script files to analyse as well.
pub open spec fn script_files(words: Seq<Seq<char>>) -> Seq<Seq<char>>
    decreases words.len(),
{
    if words.len() == 0 {
        Seq::empty()
    } else if is_script_file(words.last()) {
        script_files(words.drop_last()).push(words.last())
    } else {
        script_files(words.drop_last())
    }
}

/// The script files that a script mentions: see `script_files`.
pub fn referenced_script_files(script: &str) -> (r: Vec<String>)
    ensures
        str_views(r@) == script_files(split_ws(script@)),
{
    let c = to_chars(script);
    let words = split_ws_vec(&c);
    let ghost ws = views(words@);
    let mut r: Vec<String> = Vec::new();
    let mut i: usize = 0;
    while i < words.len()
        invariant
            i <= words@.len(),
            ws == views(words@),
            ws == split_ws(script@),
            str_views(r@) == script_files(ws.take(i as int)),
        decreases words@.len() - i,
    {
        assert(ws.take(i + 1).drop_last() =~= ws.take(i as int));
        assert(ws.take(i + 1).last() == words@[i as int]@);
        let w = string_of_all(&words[i]);
        let ghost before = r@;
        if ends_with_str(w.as_str(), ".js") || ends_with_str(w.as_str(), ".cjs")
            || ends_with_str(w.as_str(), ".mjs") || ends_with_str(w.as_str(), ".ts") {
            r.push(w);
            assert(str_views(r@) =~= str_views(before).push(words@[i as int]@));
        }
        i += 1;
    }
    assert(ws.take(words@.len() as int) =~= ws);
    r
}

/// The unit in which an install reports the size of what it installed.
#[derive(Clone, Copy, Debug, PartialEq, Eq, Structural)]
pub enum SizeUnit {
    Gigabytes,
    Megabytes,
    Kilobytes,
}

/// Gigabytes from 1024³ bytes on, megabytes from 1024², else kilobytes.
pub fn size_unit(total_bytes: u64) -> (r: SizeUnit)
    ensures
        r == (if total_bytes >= 1073741824 { SizeUnit::Gigabytes }
            else if total_bytes >= 1048576 { SizeUnit::Megabytes } else { SizeUnit::Kilobytes }),
{
    if total_bytes >= 1073741824 {
        SizeUnit::Gigabytes
    } else if total_bytes >= 1048576 {
        SizeUnit::Megabytes
    } else {
        SizeUnit::Kilobytes
    }
}

/// The sizes of packages added up.
pub open spec fn sum_sizes(infos: Seq<TarballInfo>) -> nat
    decreases infos.len(),
{
    if infos.len() == 0 {
        0
    } else {
        sum_sizes(infos.drop_last()) + (if infos.last().unpacked_size > 0 { infos.last().unpacked_size } else { infos.last().size }) as nat
    }
}

/// The size on disk of all the packages of a lockfile (see `TarballInfo::get_size`).
pub fn total_size(infos: &Vec<TarballInfo>) -> (r: u64)
    requires
        sum_sizes(infos@) <= u64::MAX,
    ensures
        r == sum_sizes(infos@),
{
    let mut total: u64 = 0;
    let mut i: usize = 0;
    while i < infos.len()
        invariant
            i <= infos@.len(),
            sum_sizes(infos@) <= u64::MAX,
            total == sum_sizes(infos@.take(i as int)),
        decreases infos@.len() - i,
    {
        assert(infos@.take(i + 1).drop_last() =~= infos@.take(i as int));
        proof { lemma_sum_sizes_prefix(infos@, i + 1); }
        total = total + infos[i].get_size();
        i += 1;
    }
    assert(infos@.take(infos@.len() as int) =~= infos@);
    total
}

proof fn lemma_sum_sizes_prefix(infos: Seq<TarballInfo>, i: int)
    requires
        0 <= i <= infos.len(),
    ensures
        sum_sizes(infos.take(i)) <= sum_sizes(infos),
    decreases infos.len() - i,
{
    if i < infos.len() {
        lemma_sum_sizes_prefix(infos, i + 1);
        assert(infos.take(i + 1).drop_last() =~= infos.take(i));
    } else {
        assert(infos.take(i) =~= infos);
    }
}

// ---------------------------------------------------------------- lockfile changes

impl TarballInfo {
    /// The tarball carries a signature: a non-empty list of signatures, or an npm signature.
    pub fn has_signatures(&self) -> (r: bool)
        ensures
            r == ((self.signatures matches Some(s) && s@.len() > 0) || self.npm_signature is Some),
    {
        let listed = match &self.signatures {
            Some(s) => s.len() > 0,
            None => false,
        };
        listed || self.npm_signature.is_some()
    }

    /// The tarball carries build attestations.
    pub fn has_attestations(&self) -> (r: bool)
        ensures
            r == self.attestations is Some,
    {
        self.attestations.is_some()
    }
}

/// A package of a lockfile as the trust check sees it.
#[derive(Clone, Debug)]
pub struct TrustEntry {
    pub key: String,
    pub dist: TarballInfo,
    pub published_at: Option<String>,
}

/// The trust that a package of a lockfile earns.
pub open spec fn entry_trust(e: TrustEntry) -> TrustLevel {
    trust_of(
        (e.dist.signatures matches Some(s) && s@.len() > 0) || e.dist.npm_signature is Some,
        e.dist.attestations is Some,
    )
}

/// A lockfile change that the trust policy refuses.
#[derive(Clone, Debug, PartialEq, Eq)]
pub enum TrustViolation {
    /// Under the `strict` policy, a package without signatures or provenance.
    Untrusted { name: String },
    /// A package whose new version is less trusted than the one it replaces.
    Downgrade { name: String, previous: TrustLevel, new: TrustLevel },
}

/// The first key of `old` whose package is `name`.
pub open spec fn first_with_name(old: Seq<TrustEntry>, name: Seq<char>) -> Option<TrustEntry>
    decreases old.len(),
{
    if old.len() == 0 {
        None
    } else if key_name(old[0].key@) == name {
        Some(old[0])
    } else {
        first_with_name(old.drop_first(), name)
    }
}

/// What the trust check finds of one new package, its age being `age`.
pub open spec fn trust_issue(p: crate::policy::Policy, e: TrustEntry, old: Option<Seq<TrustEntry>>, age: Option<i64>) -> Option<(bool, Seq<char>, TrustLevel, TrustLevel)> {
    let name = key_name(e.key@);
    let t = entry_trust(e);
    if p.trust_policy@ == "strict"@ && t == TrustLevel::Low && !str_views(p.trust_policy_exclude@).contains(name) {
        Some((true, name, t, t))
    } else {
        match old {
            Some(o) => match first_with_name(o, name) {
                Some(prev) => if !downgrade_allowed(p, name, t, entry_trust(prev), age) {
                    Some((false, name, entry_trust(prev), t))
                } else {
                    None
                },
                None => None,
            },
            None => None,
        }
    }
}

/// The first issue among the new packages, each with its age.
pub open spec fn first_trust_issue(
    p: crate::policy::Policy,
    new: Seq<TrustEntry>,
    old: Option<Seq<TrustEntry>>,
    ages: Seq<Option<i64>>,
) -> Option<(bool, Seq<char>, TrustLevel, TrustLevel)>
    decreases new.len(),
{
    if new.len() == 0 || ages.len() == 0 {
        None
    } else {
        match trust_issue(p, new[0], old, ages[0]) {
            Some(v) => Some(v),
            None => first_trust_issue(p, new.drop_first(), old, ages.drop_first()),
        }
    }
}

/// The ages are those that the clock gives: known where the publication date is given and
/// readable.
pub open spec fn ages_fit(new: Seq<TrustEntry>, ages: Seq<Option<i64>>) -> bool {
    ages.len() == new.len() && forall|i: int| 0 <= i < new.len() ==>
        ((#[trigger] ages[i]) is Some <==> (new[i].published_at matches Some(p) && rfc3339_valid(p@)))
}

/// The violation as (is it the strict policy, name, previous trust, new trust).
pub open spec fn trust_violation_view(v: TrustViolation) -> (bool, Seq<char>, TrustLevel, TrustLevel) {
    match v {
        TrustViolation::Untrusted { name } => (true, name@, TrustLevel::Low, TrustLevel::Low),
        TrustViolation::Downgrade { name, previous, new } => (false, name@, previous, new),
    }
}

fn first_with_name_exec(old: &Vec<TrustEntry>, name: &str) -> (r: Option<usize>)
    ensures
        (match r {
            Some(j) => j < old@.len() && first_with_name(old@, name@) == Some(old@[j as int]),
            None => first_with_name(old@, name@) is None,
        }),
{
    let mut i: usize = 0;
    assert(old@.skip(0) =~= old@);
    while i < old.len()
        invariant
            i <= old@.len(),
            first_with_name(old@, name@) == first_with_name(old@.skip(i as int), name@),
        decreases old@.len() - i,
    {
        let ghost rest = old@.skip(i as int);
        assert(rest[0] == old@[i as int]);
        let n = key_name_exec(old[i].key.as_str());
        if str_eq(n.as_str(), name) {
            return Some(i);
        }
        assert(rest.drop_first() =~= old@.skip(i + 1));
        i += 1;
    }
    None
}

/// Checks the trust of the packages of a new lockfile against the policy and against the
/// lockfile it replaces, in order, and stops at the first violation: see `first_trust_issue`,
/// with the ages that the clock gives.
pub fn validate_lockfile_trust(
    security: &SecurityEngine,
    old: &Option<Vec<TrustEntry>>,
    new: &Vec<TrustEntry>,
) -> (r: Result<(), TrustViolation>)
    ensures
        exists|ages: Seq<Option<i64>>| #[trigger] ages_fit(new@, ages) && (match r {
            Ok(()) => first_trust_issue(security.policy, new@, match old { Some(o) => Some(o@), None => None }, ages) is None,
            Err(v) => first_trust_issue(security.policy, new@, match old { Some(o) => Some(o@), None => None }, ages)
                == Some(trust_violation_view(v)),
        }),
{
    let ghost old_view = match old { Some(o) => Some(o@), None => None::<Seq<TrustEntry>> };
    let ghost mut ages: Seq<Option<i64>> = Seq::empty();
    let mut i: usize = 0;
    while i < new.len()
        invariant
            i <= new@.len(),
            old_view == match old { Some(o) => Some(o@), None => None::<Seq<TrustEntry>> },
            ages.len() == i,
            forall|k: int| 0 <= k < i ==> ((#[trigger] ages[k]) is Some <==> (new@[k].published_at matches Some(p) && rfc3339_valid(p@))),
            forall|k: int| 0 <= k < i ==> trust_issue(security.policy, #[trigger] new@[k], old_view, ages[k]) is None,
        decreases new@.len() - i,
    {
        let e = &new[i];
        let name = key_name_exec(e.key.as_str());
        let t = security.get_trust_level(e.dist.has_signatures(), e.dist.has_attestations());
        let published: Option<&str> = match &e.published_at {
            Some(p) => Some(p.as_str()),
            None => None,
        };
        let age = release_age(published);
        let ghost age_g = age;
        if str_eq(security.policy.trust_policy.as_str(), "strict") && t == TrustLevel::Low
            && !contains_str(&security.policy.trust_policy_exclude, name.as_str()) {
            let ghost full = ages.push(age_g) + Seq::new((new@.len() - i - 1) as nat, |k: int| {
                let j = i + 1 + k;
                if new@[j].published_at matches Some(p) && rfc3339_valid(p@) { Some(0i64) } else { None }
            });
            proof {
                assert forall|k: int| 0 <= k < i implies trust_issue(security.policy, #[trigger] new@[k], old_view, full[k]) is None by {
                    assert(full[k] == ages[k]);
                }
                lemma_first_issue_at(security.policy, new@, old_view, full, i as int);
                assert(new@.skip(i as int)[0] == new@[i as int]);
                assert(full.skip(i as int)[0] == age_g);
                assert(ages_fit(new@, full));
            }
            return Err(TrustViolation::Untrusted { name });
        }
        match old {
            Some(o) => {
                match first_with_name_exec(o, name.as_str()) {
                    Some(j) => {
                        let prev = security.get_trust_level(o[j].dist.has_signatures(), o[j].dist.has_attestations());
                        if !security.downgrade_verdict(name.as_str(), t, prev, age) {
                            let ghost full = ages.push(age_g) + Seq::new((new@.len() - i - 1) as nat, |k: int| {
                                let j = i + 1 + k;
                                if new@[j].published_at matches Some(p) && rfc3339_valid(p@) { Some(0i64) } else { None }
                            });
                            proof {
                                assert forall|k: int| 0 <= k < i implies trust_issue(security.policy, #[trigger] new@[k], old_view, full[k]) is None by {
                                    assert(full[k] == ages[k]);
                                }
                                lemma_first_issue_at(security.policy, new@, old_view, full, i as int);
                                assert(new@.skip(i as int)[0] == new@[i as int]);
                                assert(full.skip(i as int)[0] == age_g);
                                assert(ages_fit(new@, full));
                            }
                            return Err(TrustViolation::Downgrade { name, previous: prev, new: t });
                        }
                    },
                    None => {},
                }
            },
            None => {},
        }
        proof { ages = ages.push(age_g); }
        i += 1;
    }
    proof {
        lemma_first_issue_at(security.policy, new@, old_view, ages, new@.len() as int);
        assert(ages_fit(new@, ages));
    }
    Ok(())
}

/// Where the issues of the first `i` packages are none, the first issue is that of package
/// `i` if it has one, else of those after it.
proof fn lemma_first_issue_at(
    p: crate::policy::Policy,
    new: Seq<TrustEntry>,
    old: Option<Seq<TrustEntry>>,
    ages: Seq<Option<i64>>,
    i: int,
)
    requires
        0 <= i <= new.len(),
        ages.len() == new.len(),
        forall|k: int| 0 <= k < i ==> trust_issue(p, #[trigger] new[k], old, ages[k]) is None,
    ensures
        first_trust_issue(p, new, old, ages) == first_trust_issue(p, new.skip(i), old, ages.skip(i)),
    decreases i,
{
    if i > 0 {
        assert(trust_issue(p, new[0], old, ages[0]) is None);
        assert forall|k: int| 0 <= k < i - 1 implies trust_issue(p, #[trigger] new.drop_first()[k], old, ages.drop_first()[k]) is None by {
            assert(new.drop_first()[k] == new[k + 1]);
            assert(ages.drop_first()[k] == ages[k + 1]);
        }
        lemma_first_issue_at(p, new.drop_first(), old, ages.drop_first(), i - 1);
        assert(new.drop_first().skip(i - 1) =~= new.skip(i));
        assert(ages.drop_first().skip(i - 1) =~= ages.skip(i));
    } else {
        assert(new.skip(0) =~= new);
        assert(ages.skip(0) =~= ages);
    }
}

/// The first new package that looks like a typo of a known name, with that name; packages
/// that are trusted or excluded from the trust policy are passed over.
pub open spec fn first_typosquat(
    p: crate::policy::Policy,
    popular: Seq<Seq<char>>,
    keys: Seq<Seq<char>>,
    existing: Seq<Seq<char>>,
) -> Option<(Seq<char>, Seq<char>)>
    decreases keys.len(),
{
    if keys.len() == 0 {
        None
    } else {
        let name = key_name(keys[0]);
        if str_views(p.trusted_packages@).contains(name) || str_views(p.trust_policy_exclude@).contains(name) {
            first_typosquat(p, popular, keys.drop_first(), existing)
        } else {
            match typosquat_target(p, popular, name, existing) {
                Some(t) => Some((name, t)),
                None => first_typosquat(p, popular, keys.drop_first(), existing),
            }
        }
    }
}

/// A new package that looks like a typo of a known name.
#[derive(Clone, Debug, PartialEq, Eq)]
pub struct TyposquatViolation {
    pub name: String,
    pub similar_to: String,
}

/// Checks the packages of a new lockfile for typosquatting, against the names already in use:
/// the manifest's dependencies, then those of the previous lockfile (see `first_typosquat`).
pub fn validate_typosquatting(
    security: &SecurityEngine,
    old_roots: &Option<Vec<String>>,
    deps: &Vec<String>,
    new_keys: &Vec<String>,
) -> (r: Result<(), TyposquatViolation>)
    ensures
        (match r {
            Ok(()) => first_typosquat(security.policy, security.popular(), str_views(new_keys@),
                str_views(deps@) + match old_roots { Some(o) => str_views(o@), None => Seq::empty() }) is None,
            Err(v) => first_typosquat(security.policy, security.popular(), str_views(new_keys@),
                str_views(deps@) + match old_roots { Some(o) => str_views(o@), None => Seq::empty() })
                == Some((v.name@, v.similar_to@)),
        }),
{
    let mut existing: Vec<String> = deps.clone();
    match old_roots {
        Some(o) => {
            let mut j: usize = 0;
            let ghost start = existing@;
            while j < o.len()
                invariant
                    j <= o@.len(),
                    existing@ == start + o@.take(j as int),
                decreases o@.len() - j,
            {
                existing.push(o[j].clone());
                assert(existing@ =~= start + o@.take(j + 1));
                j += 1;
            }
            assert(o@.take(o@.len() as int) =~= o@);
        },
        None => {},
    }
    let ghost ex = str_views(existing@);
    assert(ex =~= str_views(deps@) + match old_roots { Some(o) => str_views(o@), None => Seq::empty() });
    let ghost ks = str_views(new_keys@);
    let mut i: usize = 0;
    assert(ks.skip(0) =~= ks);
    while i < new_keys.len()
        invariant
            i <= new_keys@.len(),
            ks == str_views(new_keys@),
            ex == str_views(existing@),
            ex == str_views(deps@) + match old_roots { Some(o) => str_views(o@), None => Seq::empty() },
            first_typosquat(security.policy, security.popular(), ks, ex)
                == first_typosquat(security.policy, security.popular(), ks.skip(i as int), ex),
        decreases new_keys@.len() - i,
    {
        let ghost rest = ks.skip(i as int);
        assert(rest[0] == new_keys@[i as int]@);
        assert(rest.drop_first() =~= ks.skip(i + 1));
        let name = key_name_exec(new_keys[i].as_str());
        if !(contains_str(&security.policy.trusted_packages, name.as_str())
            || contains_str(&security.policy.trust_policy_exclude, name.as_str())) {
            match security.check_typosquatting(name.as_str(), &existing) {
                Some(t) => {
                    assert(first_typosquat(security.policy, security.popular(), ks.skip(i as int), ex)
                        == Some((name@, t@)));
                    return Err(TyposquatViolation { name, similar_to: t });
                },
                None => {},
            }
        }
        i += 1;
    }
    Ok(())
}

impl TyposquatViolation {
    /// The message of the violation.
    pub fn message(&self) -> (r: String)
        ensures
            r@ == "\n\u{1b}[31mSecurity Violation: Typosquatting Detected!\u{1b}[0m\nThe package '"@ + self.name@
                + "' is suspiciously similar to the popular package '"@ + self.similar_to@
                + "'.\nThis is a common vector for supply chain attacks (e.g. TeamPCP/Shai-Hulud).\nIf you are sure you want to install this, please add it to 'trusted_packages' in your kumo.config.json."@,
    {
        let mut m = String::new();
        m.append("\n\u{1b}[31mSecurity Violation: Typosquatting Detected!\u{1b}[0m\nThe package '");
        m.append(self.name.as_str());
        m.append("' is suspiciously similar to the popular package '");
        m.append(self.similar_to.as_str());
        m.append("'.\nThis is a common vector for supply chain attacks (e.g. TeamPCP/Shai-Hulud).\nIf you are sure you want to install this, please add it to 'trusted_packages' in your kumo.config.json.");
        m
    }
}

impl TrustViolation {
    /// The message of the violation.
    pub fn message(&self) -> (r: String)
        ensures
            (match self {
                TrustViolation::Untrusted { name } => r@ == "Security policy violation: Strict trust policy is active, and package '"@
                    + name@ + "' has no digital signatures or build provenance (TrustLevel: Low)!\n  Configure trust_policy_exclude in kumo.config.json if you want to bypass this."@,
                TrustViolation::Downgrade { name, previous, new } => r@ == "Security policy violation: Trust level downgrade detected for package '"@
                    + name@ + "'!\n  Previous: "@ + crate::install::level_name(*previous) + "\n  New: "@ + crate::install::level_name(*new)
                    + "\n  Configure trustPolicyExclude or trustPolicyIgnoreAfter in kumo.config.json if this is expected."@,
            }),
    {
        let mut m = String::new();
        match self {
            TrustViolation::Untrusted { name } => {
                m.append("Security policy violation: Strict trust policy is active, and package '");
                m.append(name.as_str());
                m.append("' has no digital signatures or build provenance (TrustLevel: Low)!\n  Configure trust_policy_exclude in kumo.config.json if you want to bypass this.");
            },
            TrustViolation::Downgrade { name, previous, new } => {
                m.append("Security policy violation: Trust level downgrade detected for package '");
                m.append(name.as_str());
                m.append("'!\n  Previous: ");
                m.append(previous.name());
                m.append("\n  New: ");
                m.append(new.name());
                m.append("\n  Configure trustPolicyExclude or trustPolicyIgnoreAfter in kumo.config.json if this is expected.");
            },
        }
        m
    }
}

/// The name of a trust level.
pub open spec fn level_name(t: TrustLevel) -> Seq<char> {
    match t {
        TrustLevel::Low => "Low"@,
        TrustLevel::Medium => "Medium"@,
        TrustLevel::High => "High"@,
    }
}


/// A recorded lockfile is reused, without resolving again, exactly where it records a
/// configuration hash and that hash is the BLAKE3 hex of the configuration as it is now.
pub open spec fn reusable(recorded: Option<Seq<char>>, config: Seq<u8>) -> bool {
    recorded matches Some(h) && h == hex(blake3_of(config))
}

/// Whether the lockfile that records `recorded_hash` can be used as it is for the
/// configuration file's bytes `config` (see `reusable`).
pub fn lockfile_reusable(recorded_hash: &Option<String>, config: &[u8]) -> (r: bool)
    ensures
        r == reusable(match recorded_hash { Some(h) => Some(h@), None => None }, config@),
{
    match recorded_hash {
        Some(h) => {
            let now = content_hash(config);
            str_eq(h.as_str(), now.as_str())
        },
        None => false,
    }
}
} // verus!
