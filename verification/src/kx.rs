//! The decisions of `kx`, which runs the binary of a package: which package a `create`
//! command names, which binary of it runs, and which versions a one-off install links.
use vstd::prelude::*;
use crate::text::{
    split_on, split_on_vec, views, to_chars, slice_vec, string_of_all, str_eq, str_views,
    contains_str, trim, trim_vec, first_from, find_char, lemma_first_from,
};
use crate::pkgid::parse_package_id;
use crate::versions::{semver_parse, semver_order, req_parse, req_matches, parse_semver, compare_semver, matches_req};
use crate::resolve::{lookup, lookup_exec, pair_views};
use crate::install::{key_name, key_version, distinct_names, keys_of};
use crate::policy::{lowercase, to_lowercase};

verus! {

/// The package that `kx create <pkg>` runs: `@scope/create-<name>` for `@scope/<name>`,
/// `<pkg>/create` for a scope alone, else `create-<pkg>`.
pub open spec fn create_binary(pkg: Seq<char>) -> Seq<char> {
    if pkg.len() > 0 && pkg[0] == '@' {
        match first_from(pkg, 0, '/') {
            Some(i) => pkg.take(i) + "/create-"@ + pkg.skip(i + 1),
            None => pkg + "/create"@,
        }
    } else {
        "create-"@ + pkg
    }
}

/// Executable `create_binary`.
pub fn create_binary_name(pkg: &str) -> (r: String)
    ensures
        r@ == create_binary(pkg@),
{
    let c = to_chars(pkg);
    if c.len() > 0 && c[0] == '@' {
        match find_char(&c, 0, '/') {
            Some(i) => {
                proof { lemma_first_from(c@, 0, '/'); }
                let scope = slice_vec(&c, 0, i);
                let name = slice_vec(&c, i + 1, c.len());
                assert(scope@ =~= pkg@.take(i as int));
                assert(name@ =~= pkg@.skip(i + 1));
                let mut r = string_of_all(&scope);
                r.append("/create-");
                let n = string_of_all(&name);
                r.append(n.as_str());
                r
            },
            None => {
                let mut r = pkg.to_owned();
                r.append("/create");
                r
            },
        }
    } else {
        let mut r = "create-".to_owned();
        r.append(pkg);
        r
    }
}

/// The file names that a binary may have: on Windows `.cmd`, `.exe`, `.bat` and bare, in that
/// order; elsewhere bare.
pub open spec fn bin_candidates(is_windows: bool, name: Seq<char>) -> Seq<Seq<char>> {
    if is_windows {
        seq![name + ".cmd"@, name + ".exe"@, name + ".bat"@, name]
    } else {
        seq![name]
    }
}

/// Executable `bin_candidates`.
pub fn bin_candidate_names(is_windows: bool, name: &str) -> (r: Vec<String>)
    ensures
        str_views(r@) == bin_candidates(is_windows, name@),
{
    let mut r: Vec<String> = Vec::new();
    if is_windows {
        let mut a = name.to_owned();
        a.append(".cmd");
        r.push(a);
        let mut b = name.to_owned();
        b.append(".exe");
        r.push(b);
        let mut c = name.to_owned();
        c.append(".bat");
        r.push(c);
    }
    r.push(name.to_owned());
    assert(str_views(r@) =~= bin_candidates(is_windows, name@));
    r
}

/// The `bin` field of a package.
#[derive(Clone, Debug)]
pub enum BinField {
    /// No `bin`, or one of another shape.
    Absent,
    /// One path: the binary is named after the package.
    Path,
    /// Named commands, in the order of the manifest.
    Commands(Vec<String>),
}

/// The last `/`-separated part of a name that has a `/`, else the name.
pub open spec fn last_segment(n: Seq<char>) -> Seq<char> {
    if n.contains('/') { split_on(n, '/').last() } else { n }
}

/// The binary that runs for a package: with one path, the package name unscoped; with named
/// commands, the unscoped name, else the full name, where it is one of them, else the only
/// command where there is one; else the package name.
pub open spec fn exec_bin(binary: Seq<char>, bin: Seq<Seq<char>>, kind: nat) -> Seq<char> {
    if kind == 1 {
        last_segment(binary)
    } else if kind == 2 {
        if bin.contains(last_segment(binary)) {
            last_segment(binary)
        } else if bin.contains(binary) {
            binary
        } else if bin.len() == 1 {
            bin[0]
        } else {
            binary
        }
    } else {
        binary
    }
}

/// The kind of a `bin` field (0 absent, 1 path, 2 commands) and its command names.
pub open spec fn bin_view(b: BinField) -> (nat, Seq<Seq<char>>) {
    match b {
        BinField::Absent => (0, Seq::empty()),
        BinField::Path => (1, Seq::empty()),
        BinField::Commands(keys) => (2, str_views(keys@)),
    }
}

fn last_segment_exec(n: &str) -> (r: String)
    ensures
        r@ == last_segment(n@),
{
    let c = to_chars(n);
    let parts = split_on_vec(&c, '/');
    proof { crate::range::lemma_split_on_nonempty(c@, '/'); }
    let mut found = false;
    let mut i: usize = 0;
    while i < c.len()
        invariant
            i <= c@.len(),
            found == exists|j: int| 0 <= j < i && c@[j] == '/',
        decreases c@.len() - i,
    {
        if c[i] == '/' {
            found = true;
        }
        i += 1;
    }
    assert(found == c@.contains('/'));
    if found {
        let last = parts.len() - 1;
        assert(views(parts@)[last as int] == parts@[last as int]@);
        string_of_all(&parts[last])
    } else {
        n.to_owned()
    }
}

/// The binary that runs for a package: see `exec_bin`.
pub fn exec_bin_name(binary: &str, bin: &BinField) -> (r: String)
    ensures
        r@ == exec_bin(binary@, bin_view(*bin).1, bin_view(*bin).0),
{
    match bin {
        BinField::Absent => binary.to_owned(),
        BinField::Path => last_segment_exec(binary),
        BinField::Commands(keys) => {
            let un = last_segment_exec(binary);
            if contains_str(keys, un.as_str()) {
                un
            } else if contains_str(keys, binary) {
                binary.to_owned()
            } else if keys.len() == 1 {
                assert(str_views(keys@)[0] == keys@[0]@);
                keys[0].clone()
            } else {
                binary.to_owned()
            }
        },
    }
}

/// `a` comes before `b` in the order of `str` (by code points, a prefix first).
pub open spec fn text_less(a: Seq<char>, b: Seq<char>) -> bool
    decreases a.len(),
{
    if a.len() == 0 {
        b.len() > 0
    } else if b.len() == 0 {
        false
    } else if a[0] != b[0] {
        a[0] < b[0]
    } else {
        text_less(a.drop_first(), b.drop_first())
    }
}

fn text_less_exec(a: &str, b: &str) -> (r: bool)
    ensures
        r == text_less(a@, b@),
{
    let x = to_chars(a);
    let y = to_chars(b);
    let mut i: usize = 0;
    assert(x@.skip(0) =~= x@);
    assert(y@.skip(0) =~= y@);
    while i < x.len() && i < y.len()
        invariant
            i <= x@.len(),
            i <= y@.len(),
            x@ == a@,
            y@ == b@,
            text_less(a@, b@) == text_less(x@.skip(i as int), y@.skip(i as int)),
        decreases x@.len() - i,
    {
        assert(x@.skip(i as int)[0] == x@[i as int]);
        assert(y@.skip(i as int)[0] == y@[i as int]);
        if x[i] != y[i] {
            return x[i] < y[i];
        }
        assert(x@.skip(i as int).drop_first() =~= x@.skip(i + 1));
        assert(y@.skip(i as int).drop_first() =~= y@.skip(i + 1));
        i += 1;
    }
    i < y.len()
}

/// Whether the version written `v` satisfies the range written `range` (the range read by
/// `semver` as it stands).
pub open spec fn satisfies(range: Option<Seq<char>>, v: Seq<char>) -> bool {
    range matches Some(r) && req_parse(r) is Ok && semver_parse(v) is Some && req_matches(r, v)
}

/// Whether a key of version `v` replaces the key of version `e` for the same package: one that
/// satisfies the range that the executed package asks for beats one that does not; else the
/// greater version wins (by `semver` where both parse, else as text).
pub open spec fn kx_better(range: Option<Seq<char>>, v: Seq<char>, e: Seq<char>) -> bool {
    let tm = satisfies(range, v);
    let em = satisfies(range, e);
    if tm && !em {
        true
    } else if !tm && em {
        false
    } else if semver_parse(v) is Some && semver_parse(e) is Some {
        semver_order(v, e) > 0
    } else {
        text_less(e, v)
    }
}

/// The key that a one-off install links for a package: the first, replaced by each later one
/// that beats it.
pub open spec fn kx_pick(group: Seq<Seq<char>>, range: Option<Seq<char>>) -> Seq<char>
    decreases group.len(),
{
    if group.len() <= 1 {
        group[0]
    } else {
        let b = kx_pick(group.drop_last(), range);
        if kx_better(range, key_version(group.last()), key_version(b)) { group.last() } else { b }
    }
}

/// The winners are, for each package name in order, the name and its picked key, each name's
/// range being looked up among the dependencies of the executed package.
pub open spec fn kx_winners_are(
    r: Seq<(Seq<char>, Seq<char>)>,
    keys: Seq<Seq<char>>,
    deps: Option<Seq<(Seq<char>, Seq<char>)>>,
) -> bool {
    let names = distinct_names(keys);
    r.len() == names.len() && forall|i: int| 0 <= i < names.len() ==>
        #[trigger] r[i] == (names[i], kx_pick(keys_of(keys, names[i]), match deps {
            Some(d) => lookup(d, names[i]),
            None => None,
        }))
}

fn kx_better_exec(range: &Option<String>, v: &str, e: &str) -> (r: bool)
    ensures
        r == kx_better(match range { Some(s) => Some(s@), None => None }, v@, e@),
{
    let (tm, em) = match range {
        Some(rg) => (matches_req(rg.as_str(), v), matches_req(rg.as_str(), e)),
        None => (false, false),
    };
    if tm && !em {
        true
    } else if !tm && em {
        false
    } else {
        match (parse_semver(v), parse_semver(e)) {
            (Some(_), Some(_)) => compare_semver(v, e) > 0,
            _ => text_less_exec(e, v),
        }
    }
}

fn kx_pick_exec(group: &Vec<String>, range: &Option<String>) -> (r: String)
    requires
        group@.len() > 0,
    ensures
        r@ == kx_pick(str_views(group@), match range { Some(s) => Some(s@), None => None }),
{
    let ghost g = str_views(group@);
    let ghost rg = match range { Some(s) => Some(s@), None => None::<Seq<char>> };
    let mut best = group[0].clone();
    let mut i: usize = 1;
    assert(g.take(1) =~= seq![g[0]]);
    while i < group.len()
        invariant
            1 <= i <= group@.len(),
            g == str_views(group@),
            rg == match range { Some(s) => Some(s@), None => None::<Seq<char>> },
            best@ == kx_pick(g.take(i as int), rg),
        decreases group@.len() - i,
    {
        assert(g.take(i + 1).drop_last() =~= g.take(i as int));
        assert(g.take(i + 1).last() == group@[i as int]@);
        let (_, v) = parse_package_id(group[i].as_str());
        let (_, e) = parse_package_id(best.as_str());
        if kx_better_exec(range, v.as_str(), e.as_str()) {
            best = group[i].clone();
        }
        i += 1;
    }
    assert(g.take(group@.len() as int) =~= g);
    best
}

fn keys_of_exec(keys: &Vec<String>, name: &str) -> (r: Vec<String>)
    ensures
        str_views(r@) == keys_of(str_views(keys@), name@),
{
    let ghost ks = str_views(keys@);
    let mut r: Vec<String> = Vec::new();
    let mut i: usize = 0;
    while i < keys.len()
        invariant
            i <= keys@.len(),
            ks == str_views(keys@),
            str_views(r@) == keys_of(ks.take(i as int), name@),
        decreases keys@.len() - i,
    {
        assert(ks.take(i + 1).drop_last() =~= ks.take(i as int));
        assert(ks.take(i + 1).last() == keys@[i as int]@);
        let n = parse_package_id(keys[i].as_str()).0;
        let ghost before = r@;
        if str_eq(n.as_str(), name) {
            r.push(keys[i].clone());
            assert(str_views(r@) =~= str_views(before).push(keys@[i as int]@));
        }
        i += 1;
    }
    assert(ks.take(keys@.len() as int) =~= ks);
    r
}

proof fn lemma_group_nonempty(keys: Seq<Seq<char>>, name: Seq<char>)
    requires
        distinct_names(keys).contains(name),
    ensures
        keys_of(keys, name).len() > 0,
    decreases keys.len(),
{
    if keys.len() > 0 {
        if key_name(keys.last()) != name {
            lemma_group_nonempty(keys.drop_last(), name);
        } else {
            assert(keys_of(keys, name).len() == keys_of(keys.drop_last(), name).len() + 1);
        }
    }
}

proof fn lemma_keys_of_grows(keys: Seq<Seq<char>>, i: int, name: Seq<char>)
    requires
        0 <= i <= keys.len(),
        keys_of(keys.take(i), name).len() > 0,
    ensures
        keys_of(keys, name).len() > 0,
    decreases keys.len() - i,
{
    if i < keys.len() {
        assert(keys.take(i + 1).drop_last() =~= keys.take(i));
        lemma_keys_of_grows(keys, i + 1, name);
    } else {
        assert(keys.take(i) =~= keys);
    }
}

/// The key that a one-off install links for each package of the resolved tree: see
/// `kx_winners_are`; `exec_deps` are the dependencies of the executed package, if it has any.
pub fn kx_winners(keys: &Vec<String>, exec_deps: &Option<Vec<(String, String)>>) -> (r: Vec<(String, String)>)
    ensures
        kx_winners_are(pair_views(r@), str_views(keys@), match exec_deps { Some(d) => Some(pair_views(d@)), None => None }),
{
    let ghost ks = str_views(keys@);
    let ghost ds = match exec_deps { Some(d) => Some(pair_views(d@)), None => None::<Seq<(Seq<char>, Seq<char>)>> };
    let mut out: Vec<(String, String)> = Vec::new();
    let mut names: Vec<String> = Vec::new();
    let mut i: usize = 0;
    while i < keys.len()
        invariant
            i <= keys@.len(),
            ks == str_views(keys@),
            ds == match exec_deps { Some(d) => Some(pair_views(d@)), None => None::<Seq<(Seq<char>, Seq<char>)>> },
            str_views(names@) == distinct_names(ks.take(i as int)),
            out@.len() == names@.len(),
            forall|j: int| 0 <= j < names@.len() ==> #[trigger] pair_views(out@)[j]
                == (names@[j]@, kx_pick(keys_of(ks, names@[j]@), match ds {
                    Some(d) => lookup(d, names@[j]@),
                    None => None,
                })),
        decreases keys@.len() - i,
    {
        assert(ks.take(i + 1).drop_last() =~= ks.take(i as int));
        assert(ks.take(i + 1).last() == keys@[i as int]@);
        let n = parse_package_id(keys[i].as_str()).0;
        if !contains_str(&names, n.as_str()) {
            let group = keys_of_exec(keys, n.as_str());
            proof {
                assert(distinct_names(ks.take(i + 1)) == str_views(names@).push(n@));
                assert(str_views(names@).push(n@)[names@.len() as int] == n@);
                lemma_group_nonempty(ks.take(i + 1), n@);
                lemma_keys_of_grows(ks, i + 1, n@);
            }
            let range: Option<String> = match exec_deps {
                Some(d) => lookup_exec(d, n.as_str()),
                None => None,
            };
            let w = kx_pick_exec(&group, &range);
            let ghost old_names = names@;
            let ghost old_out = out@;
            names.push(n.clone());
            out.push((n, w));
            proof {
                assert(str_views(names@) =~= str_views(old_names).push(names@[old_names.len() as int]@));
                assert forall|j: int| 0 <= j < names@.len() implies #[trigger] pair_views(out@)[j]
                    == (names@[j]@, kx_pick(keys_of(ks, names@[j]@), match ds {
                        Some(d) => lookup(d, names@[j]@),
                        None => None,
                    })) by {
                    if j < old_names.len() {
                        assert(pair_views(out@)[j] == pair_views(old_out)[j]);
                    }
                }
            }
        }
        i += 1;
    }
    assert(ks.take(keys@.len() as int) =~= ks);
    out
}

/// The version that the vulnerability scan of a one-off install reports for a tarball: the
/// last `/`-separated part of its URL.
pub fn tarball_tail(url: &str) -> (r: String)
    ensures
        r@ == split_on(url@, '/').last(),
{
    let c = to_chars(url);
    let parts = split_on_vec(&c, '/');
    proof { crate::range::lemma_split_on_nonempty(c@, '/'); }
    let last = parts.len() - 1;
    assert(views(parts@)[last as int] == parts@[last as int]@);
    string_of_all(&parts[last])
}

/// Whether an answer to a yes/no prompt is yes: `y` in any case, around whitespace.
pub fn answer_is_yes(input: &str) -> (r: bool)
    ensures
        r == (lowercase(trim(input@)) == "y"@),
{
    let c = to_chars(input);
    let t = trim_vec(&c);
    let ts = string_of_all(&t);
    let l = to_lowercase(ts.as_str());
    str_eq(l.as_str(), "y")
}

/// How long a one-off install stays in the cache unused: seven days, in seconds.
pub const KX_CACHE_TTL_SECS: u64 = 604800;

/// Whether a cached one-off install is pruned: when it was last used more than seven days ago
/// (an unknown age keeps it).
pub fn kx_entry_expired(age_secs: Option<u64>) -> (r: bool)
    ensures
        r == (age_secs matches Some(a) && a > KX_CACHE_TTL_SECS),
{
    match age_secs {
        Some(a) => a > KX_CACHE_TTL_SECS,
        None => false,
    }
}

} // verus!
