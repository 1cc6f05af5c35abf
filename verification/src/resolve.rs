//! The decisions of the resolver: which published version a range resolves to, what to do when
//! it does not resolve, and which packages suit the running platform.
use vstd::prelude::*;
use crate::text::{to_chars, eq_str, str_eq, str_views, contains_str};
use crate::versions::{
    semver_parse, semver_order, req_parse, req_matches, semver_text, version_reqs, reqs_result,
    ranges_are, VersionRange, parse_semver, compare_semver, parse_version_reqs, try_parse_version_reqs,
};

verus! {

/// The views of a list of string pairs.
pub open spec fn pair_views(v: Seq<(String, String)>) -> Seq<(Seq<char>, Seq<char>)> {
    v.map_values(|p: (String, String)| (p.0@, p.1@))
}

/// The value of the first pair whose key is `key`.
pub open spec fn lookup(pairs: Seq<(Seq<char>, Seq<char>)>, key: Seq<char>) -> Option<Seq<char>>
    decreases pairs.len(),
{
    if pairs.len() == 0 {
        None
    } else if pairs[0].0 == key {
        Some(pairs[0].1)
    } else {
        lookup(pairs.drop_first(), key)
    }
}

/// Executable `lookup`.
pub fn lookup_exec(pairs: &Vec<(String, String)>, key: &str) -> (r: Option<String>)
    ensures
        (match r {
            Some(v) => lookup(pair_views(pairs@), key@) == Some(v@),
            None => lookup(pair_views(pairs@), key@) is None,
        }),
{
    let mut i: usize = 0;
    assert(pair_views(pairs@).skip(0) =~= pair_views(pairs@));
    while i < pairs.len()
        invariant
            i <= pairs@.len(),
            lookup(pair_views(pairs@), key@) == lookup(pair_views(pairs@).skip(i as int), key@),
        decreases pairs@.len() - i,
    {
        let ghost rest = pair_views(pairs@).skip(i as int);
        assert(rest[0] == (pairs@[i as int].0@, pairs@[i as int].1@));
        if str_eq(pairs[i].0.as_str(), key) {
            return Some(pairs[i].1.clone());
        }
        assert(rest.drop_first() =~= pair_views(pairs@).skip(i + 1));
        i += 1;
    }
    None
}

/// `latest`.
pub open spec fn latest() -> Seq<char> {
    seq!['l', 'a', 't', 'e', 's', 't']
}

/// A range that the resolver answers with the `latest` tag: `latest`, `*` or empty.
pub open spec fn is_latest_range(range: Seq<char>) -> bool {
    range == latest() || range == seq!['*'] || range.len() == 0
}

/// Some clause of `reqs` admits the version written `v`.
pub open spec fn matches_any(reqs: Seq<Seq<char>>, v: Seq<char>) -> bool {
    exists|k: int| 0 <= k < reqs.len()
        && req_parse(#[trigger] reqs[k]) is Ok && semver_parse(v) is Some && req_matches(reqs[k], v)
}

/// Among the versions `vs` that parse and that a clause of `reqs` admits, the greatest by the
/// order of `semver`; of equal ones, the one listed last.
pub open spec fn best_match(vs: Seq<Seq<char>>, reqs: Seq<Seq<char>>) -> Option<Seq<char>>
    decreases vs.len(),
{
    if vs.len() == 0 {
        None
    } else {
        let prev = best_match(vs.drop_last(), reqs);
        let v = vs.last();
        if matches_any(reqs, v) {
            match prev {
                None => Some(v),
                Some(b) => if semver_order(v, b) >= 0 { Some(v) } else { prev },
            }
        } else {
            prev
        }
    }
}

/// No version that `reqs` admits is greater than the one `best_match` picks.
pub open spec fn best_is_greatest(vs: Seq<Seq<char>>, reqs: Seq<Seq<char>>) -> bool {
    best_match(vs, reqs) matches Some(b) ==> forall|k: int| 0 <= k < vs.len()
        && #[trigger] matches_any(reqs, vs[k]) ==> vs[k] == b || semver_order(vs[k], b) <= 0
}

/// Where a range is resolved by its clauses (no dist-tag is named like it and it is not a
/// `latest` range), the version it picks is the greatest that it admits.
pub open spec fn picks_greatest(
    tags: Seq<(Seq<char>, Seq<char>)>,
    versions: Seq<Seq<char>>,
    range: Seq<char>,
) -> bool {
    (lookup(tags, range) is None && !is_latest_range(range) && version_reqs(range) is Some
        && version_reqs(range)->Some_0 is Ok)
        ==> best_is_greatest(versions, version_reqs(range)->Some_0->Ok_0)
}

/// The version text that a range picks from the registry's answer: the version of a dist-tag
/// named like the range; for `latest`, `*` or an empty range, the `latest` tag; else the
/// greatest published version that the range admits, as `semver` writes it.
pub open spec fn chosen_version(
    tags: Seq<(Seq<char>, Seq<char>)>,
    versions: Seq<Seq<char>>,
    range: Seq<char>,
) -> Option<Seq<char>> {
    if lookup(tags, range) is Some {
        lookup(tags, range)
    } else if is_latest_range(range) {
        lookup(tags, latest())
    } else {
        match version_reqs(range) {
            Some(Ok(reqs)) => match best_match(versions, reqs) {
                Some(b) => Some(semver_text(semver_parse(b)->Some_0)),
                None => None,
            },
            _ => None,
        }
    }
}

/// The chosen version, where the registry has data for it.
pub open spec fn found_version(
    tags: Seq<(Seq<char>, Seq<char>)>,
    versions: Seq<Seq<char>>,
    range: Seq<char>,
) -> Option<Seq<char>> {
    match chosen_version(tags, versions, range) {
        Some(v) => if versions.contains(v) { Some(v) } else { None },
        None => None,
    }
}

/// Why a range did not resolve.
#[derive(Clone, Debug, PartialEq, Eq)]
pub enum ResolveError {
    /// The range is not one that `semver` can read.
    InvalidRange { range: String },
    /// A dist-tag named the version, but the registry has no data for it.
    TagVersionMissing { version: String, tag: String },
    /// The `latest` tag named the version, but the registry has no data for it.
    LatestVersionMissing { version: String },
    /// The package has no `latest` tag.
    NoLatestTag { name: String },
    /// No published version satisfies the range.
    NoMatch { range: String, name: String },
}

impl ResolveError {
    /// The message of the error.
    pub fn message(&self) -> (r: String)
        ensures
            (match self {
                ResolveError::InvalidRange { range } => r@ == "Invalid semver range: "@ + range@,
                ResolveError::TagVersionMissing { version, tag } =>
                    r@ == "Version data for "@ + version@ + " not found (resolved from tag "@ + tag@ + ")"@,
                ResolveError::LatestVersionMissing { version } =>
                    r@ == "Version data for "@ + version@ + " not found (resolved from latest tag)"@,
                ResolveError::NoLatestTag { name } => r@ == "No latest tag found for "@ + name@,
                ResolveError::NoMatch { range, name } =>
                    r@ == "No version matching "@ + range@ + " found for "@ + name@,
            }),
    {
        let mut m = String::new();
        match self {
            ResolveError::InvalidRange { range } => {
                m.append("Invalid semver range: ");
                m.append(range.as_str());
            },
            ResolveError::TagVersionMissing { version, tag } => {
                m.append("Version data for ");
                m.append(version.as_str());
                m.append(" not found (resolved from tag ");
                m.append(tag.as_str());
                m.append(")");
            },
            ResolveError::LatestVersionMissing { version } => {
                m.append("Version data for ");
                m.append(version.as_str());
                m.append(" not found (resolved from latest tag)");
            },
            ResolveError::NoLatestTag { name } => {
                m.append("No latest tag found for ");
                m.append(name.as_str());
            },
            ResolveError::NoMatch { range, name } => {
                m.append("No version matching ");
                m.append(range.as_str());
                m.append(" found for ");
                m.append(name.as_str());
            },
        }
        m
    }
}

/// What the resolver does after one look at a package's metadata.
#[derive(Clone, Debug, PartialEq, Eq)]
pub enum ResolveStep {
    /// The range resolves to this version, which the registry has data for.
    Found(String),
    /// The metadata came from the cache: fetch it afresh and look again.
    Refetch,
    /// The range does not resolve.
    Failed(ResolveError),
}

/// The error that ends a resolution that found nothing.
pub open spec fn failure_is(
    e: ResolveError,
    name: Seq<char>,
    tags: Seq<(Seq<char>, Seq<char>)>,
    range: Seq<char>,
) -> bool {
    if version_reqs(range) matches Some(Err(_)) {
        e matches ResolveError::InvalidRange { range: r } && r@ == range
    } else if lookup(tags, range) is Some {
        e matches ResolveError::TagVersionMissing { version, tag }
            && Some(version@) == lookup(tags, range) && tag@ == range
    } else if is_latest_range(range) {
        match lookup(tags, latest()) {
            Some(v) => e matches ResolveError::LatestVersionMissing { version } && version@ == v,
            None => e matches ResolveError::NoLatestTag { name: n } && n@ == name,
        }
    } else {
        e matches ResolveError::NoMatch { range: r, name: n } && r@ == range && n@ == name
    }
}

/// The step that the resolver takes at attempt number `attempt` (counted from 1) on
/// metadata that came from the cache or not.
pub open spec fn step_is(
    s: ResolveStep,
    name: Seq<char>,
    tags: Seq<(Seq<char>, Seq<char>)>,
    versions: Seq<Seq<char>>,
    range: Seq<char>,
    from_cache: bool,
    attempt: u32,
) -> bool {
    match found_version(tags, versions, range) {
        Some(v) => s matches ResolveStep::Found(f) && f@ == v,
        None => if from_cache && attempt < 2 {
            s is Refetch
        } else {
            s matches ResolveStep::Failed(e) && failure_is(e, name, tags, range)
        },
    }
}

/// The ranges that can be read without counting past `u64::MAX`, or that a tag resolves to
/// a version with data before any reading.
pub open spec fn resolvable_range(
    tags: Seq<(Seq<char>, Seq<char>)>,
    versions: Seq<Seq<char>>,
    range: Seq<char>,
) -> bool {
    version_reqs(range) is Some || (lookup(tags, range) matches Some(v) && versions.contains(v))
}

fn matches_any_exec(reqs: &Vec<VersionRange>, v: &str) -> (r: bool)
    ensures
        r == matches_any(reqs@.map_values(|q: VersionRange| q@), v@),
{
    let ghost texts = reqs@.map_values(|q: VersionRange| q@);
    let mut i: usize = 0;
    while i < reqs.len()
        invariant
            i <= reqs@.len(),
            texts == reqs@.map_values(|q: VersionRange| q@),
            forall|k: int| 0 <= k < i ==> !(req_parse(#[trigger] texts[k]) is Ok && semver_parse(v@) is Some
                && req_matches(texts[k], v@)),
        decreases reqs@.len() - i,
    {
        assert(texts[i as int] == reqs@[i as int]@);
        if reqs[i].matches(v) {
            return true;
        }
        i += 1;
    }
    false
}

/// The greatest admitted version among `versions` (see `best_match`), as an index.
fn best_match_exec(versions: &Vec<String>, reqs: &Vec<VersionRange>) -> (r: Option<usize>)
    ensures
        (match r {
            Some(i) => i < versions@.len()
                && best_match(str_views(versions@), reqs@.map_values(|q: VersionRange| q@)) == Some(versions@[i as int]@)
                && forall|k: int| 0 <= k < versions@.len()
                    && matches_any(reqs@.map_values(|q: VersionRange| q@), #[trigger] versions@[k]@)
                    ==> versions@[k]@ == versions@[i as int]@ || semver_order(versions@[k]@, versions@[i as int]@) <= 0,
            None => best_match(str_views(versions@), reqs@.map_values(|q: VersionRange| q@)) is None,
        }),
{
    let ghost texts = reqs@.map_values(|q: VersionRange| q@);
    let ghost vs = str_views(versions@);
    let mut best: Option<usize> = None;
    let mut i: usize = 0;
    while i < versions.len()
        invariant
            i <= versions@.len(),
            texts == reqs@.map_values(|q: VersionRange| q@),
            vs == str_views(versions@),
            (match best {
                Some(b) => b < i && best_match(vs.take(i as int), texts) == Some(versions@[b as int]@)
                    && forall|k: int| 0 <= k < i && matches_any(texts, #[trigger] versions@[k]@)
                        ==> versions@[k]@ == versions@[b as int]@ || semver_order(versions@[k]@, versions@[b as int]@) <= 0,
                None => best_match(vs.take(i as int), texts) is None
                    && forall|k: int| 0 <= k < i ==> !matches_any(texts, #[trigger] versions@[k]@),
            }),
        decreases versions@.len() - i,
    {
        let ghost pre = vs.take(i as int);
        assert(vs.take(i + 1).drop_last() =~= pre);
        assert(vs.take(i + 1).last() == versions@[i as int]@);
        if matches_any_exec(reqs, versions[i].as_str()) {
            match best {
                None => {
                    best = Some(i);
                },
                Some(b) => {
                    assert(semver_parse(versions@[i as int]@) is Some);
                    assert(matches_any(texts, versions@[b as int]@)) by {
                        lemma_best_matches(pre, texts);
                    }
                    let c = compare_semver(versions[i].as_str(), versions[b].as_str());
                    if c >= 0 {
                        assert forall|k: int| 0 <= k < i + 1 && matches_any(texts, #[trigger] versions@[k]@)
                            implies versions@[k]@ == versions@[i as int]@
                                || semver_order(versions@[k]@, versions@[i as int]@) <= 0 by {
                            if k < i && versions@[k]@ != versions@[b as int]@ {
                                assert(semver_order(versions@[k]@, versions@[b as int]@) <= 0);
                            }
                        }
                        best = Some(i);
                    }
                },
            }
        }
        i += 1;
    }
    assert(vs.take(versions@.len() as int) =~= vs);
    best
}

/// What `best_match` picks is admitted.
proof fn lemma_best_matches(vs: Seq<Seq<char>>, reqs: Seq<Seq<char>>)
    ensures
        best_match(vs, reqs) matches Some(b) ==> matches_any(reqs, b),
    decreases vs.len(),
{
    if vs.len() > 0 {
        lemma_best_matches(vs.drop_last(), reqs);
    }
}

/// The version text that the range picks: see `chosen_version`.
fn choose_version(
    tags: &Vec<(String, String)>,
    versions: &Vec<String>,
    range: &str,
) -> (r: Option<String>)
    requires
        resolvable_range(pair_views(tags@), str_views(versions@), range@),
    ensures
        (match r {
            Some(v) => chosen_version(pair_views(tags@), str_views(versions@), range@) == Some(v@),
            None => chosen_version(pair_views(tags@), str_views(versions@), range@) is None,
        }),
        picks_greatest(pair_views(tags@), str_views(versions@), range@),
{
    proof {
        reveal_strlit("latest");
        reveal_strlit("*");
    }
    assert("latest"@ =~= latest());
    assert("*"@ =~= seq!['*']);
    match lookup_exec(tags, range) {
        Some(v) => return Some(v),
        None => {},
    }
    let rc = to_chars(range);
    if eq_str(&rc, "latest") || eq_str(&rc, "*") || rc.len() == 0 {
        return lookup_exec(tags, "latest");
    }
    match parse_version_reqs(range) {
        Ok(reqs) => {
            let ghost texts = reqs@.map_values(|q: VersionRange| q@);
            let ghost t = version_reqs(range@)->Some_0->Ok_0;
            assert(ranges_are(reqs@, t));
            assert(texts =~= t);
            let bi = best_match_exec(versions, &reqs);
            proof {
                let vs = str_views(versions@);
                if best_match(vs, t) is Some {
                    let b = best_match(vs, t)->Some_0;
                    assert forall|k: int| 0 <= k < vs.len() && #[trigger] matches_any(t, vs[k])
                        implies vs[k] == b || semver_order(vs[k], b) <= 0 by {
                        assert(vs[k] == versions@[k]@);
                    }
                }
            }
            match bi {
                Some(i) => {
                    proof { lemma_best_matches(str_views(versions@), texts); }
                    match parse_semver(versions[i].as_str()) {
                        Some(sv) => Some(sv.to_text()),
                        None => {
                            assert(false);
                            None
                        },
                    }
                },
                None => None,
            }
        },
        Err(_) => None,
    }
}

/// One look at a package's metadata: the version that `range` resolves to among the dist-tags
/// `tags` and the published `versions`, or else a fresh fetch (once, for metadata read from
/// the cache), or else the error (see `step_is`).
pub fn resolve_step(
    name: &str,
    tags: &Vec<(String, String)>,
    versions: &Vec<String>,
    range: &str,
    from_cache: bool,
    attempt: u32,
) -> (r: ResolveStep)
    requires
        resolvable_range(pair_views(tags@), str_views(versions@), range@),
    ensures
        step_is(r, name@, pair_views(tags@), str_views(versions@), range@, from_cache, attempt),
        picks_greatest(pair_views(tags@), str_views(versions@), range@),
{
    let chosen = choose_version(tags, versions, range);
    if let Some(v) = chosen {
        if contains_str(versions, v.as_str()) {
            return ResolveStep::Found(v);
        }
    }
    if from_cache && attempt < 2 {
        return ResolveStep::Refetch;
    }
    proof {
        reveal_strlit("latest");
        reveal_strlit("*");
    }
    assert("latest"@ =~= latest());
    assert("*"@ =~= seq!['*']);
    match parse_version_reqs(range) {
        Err(_) => return ResolveStep::Failed(ResolveError::InvalidRange { range: range.to_owned() }),
        Ok(_) => {},
    }
    match lookup_exec(tags, range) {
        Some(v) => return ResolveStep::Failed(ResolveError::TagVersionMissing { version: v, tag: range.to_owned() }),
        None => {},
    }
    let rc = to_chars(range);
    if eq_str(&rc, "latest") || eq_str(&rc, "*") || rc.len() == 0 {
        match lookup_exec(tags, "latest") {
            Some(v) => ResolveStep::Failed(ResolveError::LatestVersionMissing { version: v }),
            None => ResolveStep::Failed(ResolveError::NoLatestTag { name: name.to_owned() }),
        }
    } else {
        ResolveStep::Failed(ResolveError::NoMatch { range: range.to_owned(), name: name.to_owned() })
    }
}

/// `resolve_step` where the range can be read: `None` for a range that a tag does not resolve
/// and whose reading would count past `u64::MAX`.
pub fn try_resolve_step(
    name: &str,
    tags: &Vec<(String, String)>,
    versions: &Vec<String>,
    range: &str,
    from_cache: bool,
    attempt: u32,
) -> (r: Option<ResolveStep>)
    ensures
        (match r {
            Some(s) => step_is(s, name@, pair_views(tags@), str_views(versions@), range@, from_cache, attempt)
                && picks_greatest(pair_views(tags@), str_views(versions@), range@),
            None => !resolvable_range(pair_views(tags@), str_views(versions@), range@),
        }),
{
    let readable = match try_parse_version_reqs(range) {
        Some(_) => true,
        None => false,
    };
    let tag_hit = match lookup_exec(tags, range) {
        Some(v) => contains_str(versions, v.as_str()),
        None => false,
    };
    if readable || tag_hit {
        Some(resolve_step(name, tags, versions, range, from_cache, attempt))
    } else {
        None
    }
}

} // verus!

verus! {

/// `pairs` with the value of `key` set to `value`: the first pair with that key replaced, or a
/// new pair at the end.
pub open spec fn assign(pairs: Seq<(Seq<char>, Seq<char>)>, key: Seq<char>, value: Seq<char>) -> Seq<(Seq<char>, Seq<char>)>
    decreases pairs.len(),
{
    if pairs.len() == 0 {
        seq![(key, value)]
    } else if pairs[0].0 == key {
        pairs.update(0, (key, value))
    } else {
        seq![pairs[0]] + assign(pairs.drop_first(), key, value)
    }
}

/// The dependencies of a package with its optional ones laid over them, in order.
pub open spec fn merged_deps(deps: Seq<(Seq<char>, Seq<char>)>, optional: Seq<(Seq<char>, Seq<char>)>) -> Seq<(Seq<char>, Seq<char>)>
    decreases optional.len(),
{
    if optional.len() == 0 {
        deps
    } else {
        let m = merged_deps(deps, optional.drop_last());
        assign(m, optional.last().0, optional.last().1)
    }
}

proof fn lemma_assign_at(p: Seq<(Seq<char>, Seq<char>)>, j: int, key: Seq<char>, value: Seq<char>)
    requires
        0 <= j < p.len(),
        p[j].0 == key,
        forall|i: int| 0 <= i < j ==> p[i].0 != key,
    ensures
        assign(p, key, value) == p.update(j, (key, value)),
    decreases j,
{
    if j > 0 {
        lemma_assign_at(p.drop_first(), j - 1, key, value);
        assert(seq![p[0]] + p.drop_first().update(j - 1, (key, value)) =~= p.update(j, (key, value)));
    }
}

proof fn lemma_assign_new(p: Seq<(Seq<char>, Seq<char>)>, key: Seq<char>, value: Seq<char>)
    requires
        forall|i: int| 0 <= i < p.len() ==> p[i].0 != key,
    ensures
        assign(p, key, value) == p.push((key, value)),
    decreases p.len(),
{
    if p.len() > 0 {
        lemma_assign_new(p.drop_first(), key, value);
        assert(seq![p[0]] + p.drop_first().push((key, value)) =~= p.push((key, value)));
    }
}

/// Sets the value of `key` in a list of pairs: see `assign`.
pub fn assign_exec(pairs: &mut Vec<(String, String)>, key: &str, value: &str)
    ensures
        pair_views(final(pairs)@) == assign(pair_views(old(pairs)@), key@, value@),
{
    let ghost p = pair_views(pairs@);
    let mut i: usize = 0;
    while i < pairs.len()
        invariant
            i <= pairs@.len(),
            p == pair_views(pairs@),
            pairs@ == old(pairs)@,
            forall|k: int| 0 <= k < i ==> p[k].0 != key@,
        decreases pairs@.len() - i,
    {
        assert(p[i as int].0 == pairs@[i as int].0@);
        if str_eq(pairs[i].0.as_str(), key) {
            proof { lemma_assign_at(p, i as int, key@, value@); }
            pairs.set(i, (key.to_owned(), value.to_owned()));
            assert(pair_views(pairs@) =~= p.update(i as int, (key@, value@)));
            return;
        }
        i += 1;
    }
    proof { lemma_assign_new(p, key@, value@); }
    pairs.push((key.to_owned(), value.to_owned()));
    assert(pair_views(pairs@) =~= p.push((key@, value@)));
}

/// A copy of a list of pairs.
pub fn clone_pairs(v: &Vec<(String, String)>) -> (r: Vec<(String, String)>)
    ensures
        pair_views(r@) == pair_views(v@),
{
    let mut r: Vec<(String, String)> = Vec::new();
    let mut i: usize = 0;
    while i < v.len()
        invariant
            i <= v@.len(),
            pair_views(r@) == pair_views(v@).take(i as int),
        decreases v@.len() - i,
    {
        let a = v[i].0.clone();
        let b = v[i].1.clone();
        assert(a@ == v@[i as int].0@ && b@ == v@[i as int].1@);
        let ghost before = r@;
        r.push((a, b));
        assert(r@ == before.push((a, b)));
        assert(pair_views(r@) =~= pair_views(before).push((a@, b@)));
        i += 1;
        assert(pair_views(r@) =~= pair_views(v@).take(i as int));
    }
    assert(pair_views(v@).take(v@.len() as int) =~= pair_views(v@));
    r
}

/// The texts among `vs` that parse as versions, in their order.
pub open spec fn parsing_versions(vs: Seq<Seq<char>>) -> Seq<Seq<char>>
    decreases vs.len(),
{
    if vs.len() == 0 {
        Seq::empty()
    } else {
        parsing_versions(vs.drop_last()) + (if semver_parse(vs.last()) is Some { seq![vs.last()] } else { Seq::empty() })
    }
}

/// Each version at or below the next, by the order of `semver`.
pub open spec fn ascending(vs: Seq<Seq<char>>) -> bool {
    forall|k: int| 0 <= k < vs.len() - 1 ==> semver_order(#[trigger] vs[k], vs[k + 1]) <= 0
}

/// The published versions that parse, sorted from oldest to newest by `semver`: the same
/// texts, reordered.
pub fn sorted_available_versions(versions: &Vec<String>) -> (r: Vec<String>)
    ensures
        str_views(r@).to_multiset() == parsing_versions(str_views(versions@)).to_multiset(),
        ascending(str_views(r@)),
        forall|k: int| 0 <= k < r@.len() ==> semver_parse(#[trigger] r@[k]@) is Some,
{
    broadcast use vstd::seq_lib::to_multiset_build, vstd::seq_lib::to_multiset_insert;
    let ghost vs = str_views(versions@);
    let mut out: Vec<String> = Vec::new();
    let mut i: usize = 0;
    assert(str_views(out@) =~= Seq::<Seq<char>>::empty());
    assert(vs.take(0) =~= Seq::<Seq<char>>::empty());
    while i < versions.len()
        invariant
            i <= versions@.len(),
            vs == str_views(versions@),
            forall|k: int| 0 <= k < out@.len() ==> semver_parse(#[trigger] out@[k]@) is Some,
            ascending(str_views(out@)),
            str_views(out@).to_multiset() == parsing_versions(vs.take(i as int)).to_multiset(),
        decreases versions@.len() - i,
    {
        assert(vs.take(i + 1).drop_last() =~= vs.take(i as int));
        assert(vs.take(i + 1).last() == versions@[i as int]@);
        let x = versions[i].clone();
        match parse_semver(x.as_str()) {
            None => {
                assert(parsing_versions(vs.take(i + 1)) =~= parsing_versions(vs.take(i as int)));
            },
            Some(_) => {
                let mut j: usize = 0;
                while j < out.len()
                    invariant
                        j <= out@.len(),
                        semver_parse(x@) is Some,
                        forall|k: int| 0 <= k < out@.len() ==> semver_parse(#[trigger] out@[k]@) is Some,
                        j > 0 ==> semver_order(out@[j - 1]@, x@) <= 0,
                    ensures
                        j <= out@.len(),
                        j > 0 ==> semver_order(out@[j - 1]@, x@) <= 0,
                        j < out@.len() ==> semver_order(x@, out@[j as int]@) < 0,
                    decreases out@.len() - j,
                {
                    if compare_semver(x.as_str(), out[j].as_str()) < 0 {
                        break;
                    }
                    j += 1;
                }
                let ghost before = out@;
                out.insert(j, x);
                assert(str_views(out@) =~= str_views(before).insert(j as int, versions@[i as int]@));
                assert(parsing_versions(vs.take(i + 1)) =~= parsing_versions(vs.take(i as int)).push(versions@[i as int]@));
                proof {
                    vstd::seq_lib::to_multiset_insert(str_views(before), j as int, versions@[i as int]@);
                    vstd::seq_lib::to_multiset_build(parsing_versions(vs.take(i as int)), versions@[i as int]@);
                }
                assert forall|k: int| 0 <= k < out@.len() implies semver_parse(#[trigger] out@[k]@) is Some by {
                    if k > j as int {
                        assert(out@[k] == before[k - 1]);
                    }
                }
                let ghost sv = str_views(out@);
                let ghost bv = str_views(before);
                assert forall|k: int| 0 <= k < sv.len() - 1 implies semver_order(#[trigger] sv[k], sv[k + 1]) <= 0 by {
                    if k + 1 < j as int {
                        assert(sv[k] == bv[k] && sv[k + 1] == bv[k + 1]);
                    } else if k + 1 == j as int {
                        assert(sv[k] == bv[k] && sv[k + 1] == versions@[i as int]@);
                    } else if k == j as int {
                        assert(sv[k] == versions@[i as int]@ && sv[k + 1] == bv[k]);
                    } else {
                        assert(sv[k] == bv[k - 1] && sv[k + 1] == bv[k]);
                    }
                }
            },
        }
        i += 1;
    }
    assert(vs.take(versions@.len() as int) =~= vs);
    out
}

/// What the resolver has gathered of a tree: the keys of its packages, in the order they were
/// met, and the resolved versions of the root dependencies.
#[derive(Clone, Debug)]
pub struct TreeState {
    pub keys: Vec<String>,
    pub roots: Vec<(String, String)>,
}

/// The metadata of one resolved package, as the tree walk reads it.
#[derive(Clone, Debug)]
pub struct ResolvedPackage {
    pub name: String,
    pub version: String,
    pub compatible: bool,
    pub dependencies: Option<Vec<(String, String)>>,
    pub optional_dependencies: Option<Vec<(String, String)>>,
}

/// What one step of the tree walk asks of its caller: whether the package is new (its entry
/// is to be recorded under `key`), and the dependencies to resolve next.
#[derive(Clone, Debug)]
pub struct TreeStep {
    pub inserted: bool,
    pub key: String,
    pub enqueue: Vec<(String, String)>,
}

/// The optional pairs of a package as text.
pub open spec fn opt_pairs(o: Option<Vec<(String, String)>>) -> Seq<(Seq<char>, Seq<char>)> {
    match o {
        Some(v) => pair_views(v@),
        None => Seq::empty(),
    }
}

/// No key occurs twice.
pub open spec fn distinct(keys: Seq<Seq<char>>) -> bool {
    forall|i: int, j: int| 0 <= i < j < keys.len() ==> keys[i] != keys[j]
}

impl TreeState {
    /// The state before any package is resolved.
    pub fn new() -> (r: TreeState)
        ensures
            r.keys@.len() == 0,
            r.roots@.len() == 0,
    {
        TreeState { keys: Vec::new(), roots: Vec::new() }
    }

    /// One step of the tree walk, for the metadata that resolving `req_name` gave: a package
    /// that does not suit the platform is passed over; a new `name@version` is recorded and
    /// its dependencies, with the optional ones laid over them, are resolved next; and the
    /// version is recorded for a root dependency named `req_name`.
    pub fn step(&mut self, req_name: &str, root_names: &Vec<String>, meta: &ResolvedPackage) -> (r: TreeStep)
        ensures
            !meta.compatible ==> (
                str_views(final(self).keys@) == str_views(old(self).keys@)
                && pair_views(final(self).roots@) == pair_views(old(self).roots@)
                && !r.inserted && r.enqueue@.len() == 0),
            meta.compatible ==> r.key@ == meta.name@ + seq!['@'] + meta.version@,
            meta.compatible ==> (r.inserted <==> !str_views(old(self).keys@).contains(r.key@)),
            meta.compatible ==> str_views(final(self).keys@) == (if r.inserted {
                str_views(old(self).keys@).push(r.key@)
            } else {
                str_views(old(self).keys@)
            }),
            meta.compatible ==> pair_views(r.enqueue@) == (if r.inserted {
                merged_deps(opt_pairs(meta.dependencies), opt_pairs(meta.optional_dependencies))
            } else {
                Seq::empty()
            }),
            meta.compatible ==> pair_views(final(self).roots@) == (if str_views(root_names@).contains(req_name@) {
                assign(pair_views(old(self).roots@), req_name@, meta.version@)
            } else {
                pair_views(old(self).roots@)
            }),
            distinct(str_views(old(self).keys@)) ==> distinct(str_views(final(self).keys@)),
    {
        if !meta.compatible {
            return TreeStep { inserted: false, key: String::new(), enqueue: Vec::new() };
        }
        let mut key = meta.name.clone();
        crate::text::push_char(&mut key, '@');
        key.append(meta.version.as_str());
        let inserted = !contains_str(&self.keys, key.as_str());
        let mut enqueue: Vec<(String, String)> = Vec::new();
        if inserted {
            let ghost before = str_views(self.keys@);
            self.keys.push(key.clone());
            assert(str_views(self.keys@) =~= before.push(key@));
            let mut all: Vec<(String, String)> = match &meta.dependencies {
                Some(d) => clone_pairs(d),
                None => Vec::new(),
            };
            assert(pair_views(all@) =~= opt_pairs(meta.dependencies));
            match &meta.optional_dependencies {
                Some(o) => {
                    let ghost d0 = pair_views(all@);
                    let ghost ov = pair_views(o@);
                    let mut i: usize = 0;
                    while i < o.len()
                        invariant
                            i <= o@.len(),
                            ov == pair_views(o@),
                            pair_views(all@) == merged_deps(d0, ov.take(i as int)),
                        decreases o@.len() - i,
                    {
                        assert(ov.take(i + 1).drop_last() =~= ov.take(i as int));
                        assert(ov.take(i + 1).last() == (o@[i as int].0@, o@[i as int].1@));
                        assign_exec(&mut all, o[i].0.as_str(), o[i].1.as_str());
                        i += 1;
                    }
                    assert(ov.take(o@.len() as int) =~= ov);
                },
                None => {},
            }
            enqueue = all;
        }
        if contains_str(root_names, req_name) {
            assign_exec(&mut self.roots, req_name, meta.version.as_str());
        }
        TreeStep { inserted, key, enqueue }
    }
}


/// What the walk reads of one resolved package: whether it suits the platform, its key
/// `name@version`, and the dependencies (optional ones laid over) that it asks for.
pub open spec fn meta_view(meta: ResolvedPackage) -> (bool, Seq<char>, Seq<(Seq<char>, Seq<char>)>) {
    (
        meta.compatible,
        meta.name@ + seq!['@'] + meta.version@,
        merged_deps(opt_pairs(meta.dependencies), opt_pairs(meta.optional_dependencies)),
    )
}

/// One step of the walk on the last request of the queue, given what it resolved to: a
/// compatible package with a new key is recorded and its dependencies join the queue; else
/// only the request leaves the queue.
pub open spec fn walk_step(
    meta: (bool, Seq<char>, Seq<(Seq<char>, Seq<char>)>),
    keys: Seq<Seq<char>>,
    queue: Seq<(Seq<char>, Seq<char>)>,
) -> (Seq<Seq<char>>, Seq<(Seq<char>, Seq<char>)>) {
    if meta.0 && !keys.contains(meta.1) {
        (keys.push(meta.1), queue.drop_last() + meta.2)
    } else {
        (keys, queue.drop_last())
    }
}

/// The walk run for at most `fuel` steps on the metadata `m` of each request: the keys, the
/// requests still queued, and the requests answered, in order.
pub open spec fn walk(
    m: spec_fn((Seq<char>, Seq<char>)) -> (bool, Seq<char>, Seq<(Seq<char>, Seq<char>)>),
    keys: Seq<Seq<char>>,
    queue: Seq<(Seq<char>, Seq<char>)>,
    done: Seq<(Seq<char>, Seq<char>)>,
    fuel: nat,
) -> (Seq<Seq<char>>, Seq<(Seq<char>, Seq<char>)>, Seq<(Seq<char>, Seq<char>)>)
    decreases fuel,
{
    if fuel == 0 || queue.len() == 0 {
        (keys, queue, done)
    } else {
        let r = queue.last();
        let s = walk_step(m(r), keys, queue);
        walk(m, s.0, s.1, done.push(r), (fuel - 1) as nat)
    }
}

/// The package that request `p` resolved to suits the platform and asks for `x`.
pub open spec fn feeds(
    m: spec_fn((Seq<char>, Seq<char>)) -> (bool, Seq<char>, Seq<(Seq<char>, Seq<char>)>),
    p: (Seq<char>, Seq<char>),
    x: (Seq<char>, Seq<char>),
) -> bool {
    m(p).0 && m(p).2.contains(x)
}

/// A chain of requests from a root: each one after the first is asked for by the
/// compatible package that the one before it resolved to.
pub open spec fn is_chain(
    m: spec_fn((Seq<char>, Seq<char>)) -> (bool, Seq<char>, Seq<(Seq<char>, Seq<char>)>),
    roots: Seq<(Seq<char>, Seq<char>)>,
    c: Seq<(Seq<char>, Seq<char>)>,
) -> bool {
    &&& c.len() > 0
    &&& roots.contains(c[0])
    &&& forall|i: int| 1 <= i < c.len() ==> feeds(m, c[i - 1], #[trigger] c[i])
}

/// `x` is reached from the roots: some chain of requests from a root ends at it.
pub open spec fn reachable(
    m: spec_fn((Seq<char>, Seq<char>)) -> (bool, Seq<char>, Seq<(Seq<char>, Seq<char>)>),
    roots: Seq<(Seq<char>, Seq<char>)>,
    x: (Seq<char>, Seq<char>),
) -> bool {
    exists|c: Seq<(Seq<char>, Seq<char>)>| #[trigger] is_chain(m, roots, c) && c.last() == x
}

/// The tree walk as it runs: what has been gathered, and the requests still to resolve (the
/// last one next).
#[derive(Clone, Debug)]
pub struct TreeWalk {
    pub state: TreeState,
    pub queue: Vec<(String, String)>,
}

impl TreeWalk {
    /// The walk before any package is resolved: the root requests queued.
    pub fn start(roots: &Vec<(String, String)>) -> (r: TreeWalk)
        ensures
            r.state.keys@.len() == 0,
            r.state.roots@.len() == 0,
            pair_views(r.queue@) == pair_views(roots@),
    {
        TreeWalk { state: TreeState::new(), queue: clone_pairs(roots) }
    }

    /// The request to resolve next, where one is left.
    pub fn next_request(&self) -> (r: Option<(String, String)>)
        ensures
            (match r {
                Some(q) => self.queue@.len() > 0 && (q.0@, q.1@) == pair_views(self.queue@).last(),
                None => self.queue@.len() == 0,
            }),
    {
        if self.queue.len() == 0 {
            None
        } else {
            let q = &self.queue[self.queue.len() - 1];
            Some((q.0.clone(), q.1.clone()))
        }
    }

    /// Takes the next request off the queue with the metadata it resolved to: one step of
    /// `walk_step`, with the root versions and the answer of `TreeState::step`.
    pub fn advance(&mut self, root_names: &Vec<String>, meta: &ResolvedPackage) -> (r: TreeStep)
        requires
            old(self).queue@.len() > 0,
        ensures
            (str_views(final(self).state.keys@), pair_views(final(self).queue@))
                == walk_step(meta_view(*meta), str_views(old(self).state.keys@), pair_views(old(self).queue@)),
            r.inserted <==> (meta.compatible && !str_views(old(self).state.keys@).contains(meta_view(*meta).1)),
            r.inserted ==> r.key@ == meta_view(*meta).1,
            pair_views(final(self).state.roots@) == (if meta.compatible
                && str_views(root_names@).contains(pair_views(old(self).queue@).last().0) {
                assign(pair_views(old(self).state.roots@), pair_views(old(self).queue@).last().0, meta.version@)
            } else {
                pair_views(old(self).state.roots@)
            }),
            distinct(str_views(old(self).state.keys@)) ==> distinct(str_views(final(self).state.keys@)),
    {
        let ghost q0 = pair_views(self.queue@);
        let ghost last = self.queue@.last();
        let req = self.queue.pop().unwrap();
        assert(req == last);
        assert(q0.last() == (last.0@, last.1@));
        assert(pair_views(self.queue@) =~= q0.drop_last());
        let step = self.state.step(req.0.as_str(), root_names, meta);
        let ghost q1 = pair_views(self.queue@);
        let ghost st = self.state;
        let mut i: usize = 0;
        while i < step.enqueue.len()
            invariant
                i <= step.enqueue@.len(),
                self.state == st,
                pair_views(self.queue@) == q1 + pair_views(step.enqueue@).take(i as int),
            decreases step.enqueue@.len() - i,
        {
            let e = &step.enqueue[i];
            assert(pair_views(step.enqueue@)[i as int] == (e.0@, e.1@));
            let a = e.0.clone();
            let b = e.1.clone();
            assert(a@ == e.0@ && b@ == e.1@);
            let ghost before = self.queue@;
            self.queue.push((a, b));
            assert(pair_views(self.queue@) =~= pair_views(before).push((e.0@, e.1@)));
            assert(pair_views(step.enqueue@).take(i + 1) =~= pair_views(step.enqueue@).take(i as int).push((e.0@, e.1@)));
            assert(pair_views(self.queue@) =~= q1 + pair_views(step.enqueue@).take(i + 1));
            i += 1;
        }
        assert(pair_views(step.enqueue@).take(step.enqueue@.len() as int) =~= pair_views(step.enqueue@));
        if !meta.compatible {
            assert(pair_views(step.enqueue@) =~= Seq::<(Seq<char>, Seq<char>)>::empty());
            assert(pair_views(self.queue@) =~= q1);
        } else if !step.inserted {
            assert(pair_views(self.queue@) =~= q1);
        }
        step
    }
}
} // verus!
