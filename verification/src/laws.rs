//! Properties that hold across the operations of the library.
use vstd::prelude::*;
use crate::text::{ends_with, trim};
use crate::digest::hex;
use crate::versions::{version_reqs, is_any_range, semver_parse};
use crate::resolve::{found_version, lookup};
use crate::lockcheck::{first_violation, entry_violation, LockEntry};
use crate::engine::typosquat_target;
use crate::policy::Policy;
use crate::install::{newest_key, winner};
use crate::upgrade::{updated_range, change_type, upgrade_target, upgrade_candidate, ChangeType};
use crate::digest::base64;
use crate::store::{shield_on, shield_text};
use crate::proxy::{proxy_decision, target_host, ProxyDecisionView};
use crate::sandbox::{sandbox_env, kept_vars, allowed_env_vars};
use crate::install::{first_trust_issue, trust_issue, entry_trust, key_name, TrustEntry};
use crate::policy::TrustLevel;
use crate::text::str_views;
use crate::engine::{verdict_of, PackageVerdict};
use crate::typo::{suspiciously_similar, is_separated_variant};
use crate::setup::{registry_setting, registry_url};
use crate::policy::{lowercase, ascii_lower, ascii_lower_char, is_ascii_text, audit_severity_index, index_or};
use crate::engine::severity_blocked;
use crate::resolve::{walk, walk_step, is_chain, reachable, feeds};
use crate::range::{norm_version, plain, lemma_norm_idempotent, norm_token, op_len, is_le_op};
use crate::policy::policy_severity_index;
use crate::ci::reaches;
use crate::versions::semver_order;
use crate::kx::{kx_better, satisfies};

verus! {

/// Bytes written in hexadecimal take two digits each.
pub proof fn lemma_hex_len(bytes: Seq<u8>)
    ensures
        hex(bytes).len() == 2 * bytes.len(),
    decreases bytes.len(),
{
    if bytes.len() > 0 {
        lemma_hex_len(bytes.drop_last());
    }
}

/// A range that admits anything (empty, `*`, `x`, `X` or `latest`, around whitespace) reads as
/// the single clause `*`.
pub proof fn lemma_any_range_is_star(range: Seq<char>)
    requires
        is_any_range(trim(range)),
    ensures
        version_reqs(range) == Some(Ok::<Seq<Seq<char>>, (Seq<char>, Seq<char>, Seq<char>)>(seq![seq!['*']])),
{
}

/// A resolution only ever settles on a version that the registry has data for.
pub proof fn lemma_found_is_published(
    tags: Seq<(Seq<char>, Seq<char>)>,
    versions: Seq<Seq<char>>,
    range: Seq<char>,
)
    ensures
        found_version(tags, versions, range) matches Some(v) ==> versions.contains(v),
{
}

/// A lockfile passes the injection checks exactly when each of its packages does.
pub proof fn lemma_lockfile_passes_iff_all(domains: Seq<Seq<char>>, entries: Seq<LockEntry>)
    ensures
        first_violation(domains, entries) is None <==> forall|i: int| 0 <= i < entries.len()
            ==> entry_violation(domains, #[trigger] entries[i].key@, entries[i].tarball@, entries[i].shasum@) is None,
    decreases entries.len(),
{
    if entries.len() > 0 {
        lemma_lockfile_passes_iff_all(domains, entries.drop_first());
        if first_violation(domains, entries) is None {
            assert forall|i: int| 0 <= i < entries.len() implies entry_violation(domains,
                #[trigger] entries[i].key@, entries[i].tarball@, entries[i].shasum@) is None by {
                if i > 0 {
                    assert(entries[i] == entries.drop_first()[i - 1]);
                }
            }
        } else {
            if forall|i: int| 0 <= i < entries.len()
                ==> entry_violation(domains, #[trigger] entries[i].key@, entries[i].tarball@, entries[i].shasum@) is None {
                assert forall|i: int| 0 <= i < entries.drop_first().len() implies entry_violation(domains,
                    #[trigger] entries.drop_first()[i].key@, entries.drop_first()[i].tarball@, entries.drop_first()[i].shasum@) is None by {
                    assert(entries.drop_first()[i] == entries[i + 1]);
                }
                assert(entry_violation(domains, entries[0].key@, entries[0].tarball@, entries[0].shasum@) is None);
            }
        }
    }
}

/// A name that is itself popular, trusted or already in use is never reported as a typo.
pub proof fn lemma_known_names_not_flagged(p: Policy, popular: Seq<Seq<char>>, name: Seq<char>, existing: Seq<Seq<char>>)
    requires
        popular.contains(name) || existing.contains(name) || crate::text::str_views(p.trusted_packages@).contains(name),
    ensures
        typosquat_target(p, popular, name, existing) is None,
{
}

/// The newest key of a package is one of its keys.
pub proof fn lemma_newest_is_member(group: Seq<Seq<char>>)
    requires
        group.len() > 0,
    ensures
        group.contains(newest_key(group)),
    decreases group.len(),
{
    if group.len() > 1 {
        lemma_newest_is_member(group.drop_last());
        let b = newest_key(group.drop_last());
        let j = choose|j: int| 0 <= j < group.drop_last().len() && group.drop_last()[j] == b;
        assert(group[j] == b);
        assert(group[group.len() - 1] == group.last());
    } else {
        assert(group[0] == group[0]);
    }
}

/// The key linked for a package is always one of the package's own keys.
pub proof fn lemma_winner_is_member(group: Seq<Seq<char>>, name: Seq<char>, roots: Seq<(Seq<char>, Seq<char>)>)
    requires
        group.len() > 0,
    ensures
        group.contains(winner(group, name, roots)),
{
    lemma_newest_is_member(group);
    assert(group[0] == group[0]);
}

/// A range rewritten for a new version ends with that version.
pub proof fn lemma_updated_range_ends_with_version(original: Seq<char>, new_version: Seq<char>)
    ensures
        ends_with(updated_range(original, new_version), new_version),
{
    let r = updated_range(original, new_version);
    assert(r.skip(r.len() - new_version.len()) =~= new_version);
}

/// A version is always up to date with itself.
pub proof fn lemma_same_version_up_to_date(v: Seq<char>)
    ensures
        change_type(v, v) == ChangeType::UpToDate,
{
}

/// The version that a patch or minor upgrade picks keeps what that kind of upgrade keeps and
/// is greater than the current one.
pub proof fn lemma_upgrade_target_is_candidate(kind: ChangeType, cur: Seq<char>, vs: Seq<Seq<char>>)
    ensures
        upgrade_target(kind, cur, vs) matches Some(b) ==> upgrade_candidate(kind, cur, b),
    decreases vs.len(),
{
    if vs.len() > 0 {
        lemma_upgrade_target_is_candidate(kind, cur, vs.drop_last());
    }
}


/// What the shield writes for a state reads back as that state.
pub proof fn lemma_shield_state_roundtrip(active: bool)
    ensures
        shield_on(shield_text(active)) == active,
{
    reveal_strlit("on");
    reveal_strlit("off");
    let t = shield_text(active);
    assert(crate::text::trim_start(t) == t);
    assert(crate::text::trim_end(t) == t);
}

/// The firewall proxy tunnels only to allowed hosts, and refuses only hosts that are not.
pub proof fn lemma_proxy_tunnels_only_allowed(req: Seq<char>, allowed: Seq<Seq<char>>)
    ensures
        proxy_decision(req, allowed) matches ProxyDecisionView::Tunnel(t) ==> allowed.contains(target_host(t)),
        proxy_decision(req, allowed) matches ProxyDecisionView::Forbidden(h) ==> !allowed.contains(h),
{
}

proof fn lemma_kept_names(names: Seq<Seq<char>>, values: Seq<Option<Seq<char>>>)
    ensures
        forall|i: int| 0 <= i < kept_vars(names, values).len() ==> names.contains(#[trigger] kept_vars(names, values)[i].0),
    decreases names.len(),
{
    if names.len() > 0 && values.len() > 0 {
        let rest = kept_vars(names.drop_last(), values.drop_last());
        lemma_kept_names(names.drop_last(), values.drop_last());
        assert forall|i: int| 0 <= i < kept_vars(names, values).len() implies names.contains(#[trigger] kept_vars(names, values)[i].0) by {
            if i < rest.len() {
                let j = choose|j: int| 0 <= j < names.drop_last().len() && names.drop_last()[j] == rest[i].0;
                assert(names[j] == rest[i].0);
            } else {
                assert(names[names.len() - 1] == names.last());
            }
        }
    }
}

/// A sandboxed script sees no variable of the caller's environment but those on the allowed
/// list; the only others are its own home directories.
pub proof fn lemma_sandbox_env_only_allowed(pkg_dir: Seq<char>, values: Seq<Option<Seq<char>>>)
    ensures
        forall|i: int| 0 <= i < sandbox_env(pkg_dir, values).len() ==> {
            let n = #[trigger] sandbox_env(pkg_dir, values)[i].0;
            allowed_env_vars().contains(n) || n == "HOME"@ || n == "USERPROFILE"@ || n == "APPDATA"@
                || n == "LOCALAPPDATA"@
        },
{
    lemma_kept_names(allowed_env_vars(), values);
    let k = kept_vars(allowed_env_vars(), values);
    let e = sandbox_env(pkg_dir, values);
    assert forall|i: int| 0 <= i < e.len() implies {
        let n = #[trigger] e[i].0;
        allowed_env_vars().contains(n) || n == "HOME"@ || n == "USERPROFILE"@ || n == "APPDATA"@
            || n == "LOCALAPPDATA"@
    } by {
        if i < k.len() {
            assert(e[i] == k[i]);
        }
    }
}

/// Base64 takes four chars for each started group of three bytes.
pub proof fn lemma_base64_len(bytes: Seq<u8>)
    ensures
        base64(bytes).len() == 4 * ((bytes.len() + 2) / 3),
    decreases bytes.len(),
{
    if bytes.len() >= 3 {
        lemma_base64_len(bytes.skip(3));
    }
}

/// Under the `strict` trust policy, a lockfile that passes the trust check holds no package
/// without signatures or provenance, but those the policy excludes.
pub proof fn lemma_strict_admits_no_untrusted(
    p: Policy,
    new: Seq<TrustEntry>,
    old: Option<Seq<TrustEntry>>,
    ages: Seq<Option<i64>>,
)
    requires
        p.trust_policy@ == "strict"@,
        ages.len() == new.len(),
        first_trust_issue(p, new, old, ages) is None,
    ensures
        forall|i: int| 0 <= i < new.len() ==> entry_trust(#[trigger] new[i]) != TrustLevel::Low
            || str_views(p.trust_policy_exclude@).contains(key_name(new[i].key@)),
    decreases new.len(),
{
    if new.len() > 0 {
        assert(trust_issue(p, new[0], old, ages[0]) is None);
        lemma_strict_admits_no_untrusted(p, new.drop_first(), old, ages.drop_first());
        assert forall|i: int| 0 <= i < new.len() implies entry_trust(#[trigger] new[i]) != TrustLevel::Low
            || str_views(p.trust_policy_exclude@).contains(key_name(new[i].key@)) by {
            if i > 0 {
                assert(new[i] == new.drop_first()[i - 1]);
            }
        }
    }
}

/// Without the `strict` or `no-downgrade` trust policy, the trust check refuses nothing.
pub proof fn lemma_no_trust_policy_refuses_nothing(
    p: Policy,
    new: Seq<TrustEntry>,
    old: Option<Seq<TrustEntry>>,
    ages: Seq<Option<i64>>,
)
    requires
        p.trust_policy@ != "strict"@,
        p.trust_policy@ != "no-downgrade"@,
    ensures
        first_trust_issue(p, new, old, ages) is None,
    decreases new.len(),
{
    if new.len() > 0 && ages.len() > 0 {
        lemma_no_trust_policy_refuses_nothing(p, new.drop_first(), old, ages.drop_first());
    }
}


/// For a package that is not trusted, each local rule of the policy is enough to refuse it:
/// deprecation (where deprecated packages are blocked), a release younger than the minimum
/// age, install scripts (where they are not allowed), and a license off a non-empty list.
pub proof fn lemma_policy_refusals(
    p: Policy,
    name: Seq<char>,
    license: Option<Seq<char>>,
    is_deprecated: bool,
    age: Option<i64>,
    has_install_scripts: bool,
)
    requires
        !str_views(p.trusted_packages@).contains(name),
    ensures
        (p.block_deprecated && is_deprecated)
            ==> verdict_of(p, name, license, is_deprecated, age, has_install_scripts) == PackageVerdict::Denied,
        (p.minimum_release_age > 0 && (age matches Some(a) && a < (p.minimum_release_age as i64)))
            ==> verdict_of(p, name, license, is_deprecated, age, has_install_scripts) == PackageVerdict::Denied,
        (!p.allow_postinstall && has_install_scripts)
            ==> verdict_of(p, name, license, is_deprecated, age, has_install_scripts) == PackageVerdict::Denied,
        (license matches Some(l) && p.allowed_licenses@.len() > 0 && !str_views(p.allowed_licenses@).contains(l))
            ==> verdict_of(p, name, license, is_deprecated, age, has_install_scripts) == PackageVerdict::Denied,
{
}

/// With an empty list of allowed licenses, the license of a package makes no difference.
pub proof fn lemma_empty_license_list_allows_all(
    p: Policy,
    name: Seq<char>,
    license: Seq<char>,
    is_deprecated: bool,
    age: Option<i64>,
    has_install_scripts: bool,
)
    requires
        p.allowed_licenses@.len() == 0,
    ensures
        verdict_of(p, name, Some(license), is_deprecated, age, has_install_scripts)
            == verdict_of(p, name, None, is_deprecated, age, has_install_scripts),
{
}

/// Names of at most three characters, names whose lengths differ by more than two, and
/// variants made by a separator (`express` and `express-session`) are never taken for typos.
pub proof fn lemma_typo_exemptions(a: Seq<char>, b: Seq<char>)
    ensures
        (a.len() <= 3 || b.len() <= 3) ==> !suspiciously_similar(a, b),
        (a.len() > b.len() + 2 || b.len() > a.len() + 2) ==> !suspiciously_similar(a, b),
        is_separated_variant(a, b) ==> !suspiciously_similar(a, b),
{
}

/// A non-blank `KUMO_REGISTRY` decides the registry, whatever the configuration files say.
pub proof fn lemma_registry_variable_wins(
    env: Seq<char>,
    local1: Option<Seq<char>>,
    global1: Option<Seq<char>>,
    local2: Option<Seq<char>>,
    global2: Option<Seq<char>>,
)
    ensures
        registry_url(registry_setting(Some(env), local1, global1))
            == registry_url(registry_setting(Some(env), local2, global2)),
{
}


/// Lowercasing ASCII text gives ASCII text, and lowercasing it again changes nothing.
pub proof fn lemma_lowercase_ascii_idempotent(s: Seq<char>)
    requires
        is_ascii_text(s),
    ensures
        is_ascii_text(lowercase(s)),
        lowercase(lowercase(s)) == lowercase(s),
{
    let l = ascii_lower(s);
    assert forall|i: int| 0 <= i < l.len() implies (#[trigger] l[i] as int) < 128 by {
        assert(l[i] == ascii_lower_char(s[i]));
        assert((s[i] as int) < 128);
    }
    assert(ascii_lower(l) =~= l);
}

/// The audit threshold ignores ASCII case: a severity and a threshold compare as their
/// lowercase forms do (so `HIGH` meets `high`).
pub proof fn lemma_audit_threshold_ignores_case(severity: Seq<char>, threshold: Seq<char>)
    requires
        is_ascii_text(severity),
        is_ascii_text(threshold),
    ensures
        (index_or(audit_severity_index(lowercase(severity)), 0)
            >= index_or(audit_severity_index(lowercase(threshold)), 2))
        == (index_or(audit_severity_index(lowercase(ascii_lower(severity))), 0)
            >= index_or(audit_severity_index(lowercase(ascii_lower(threshold))), 2)),
{
    lemma_lowercase_ascii_idempotent(severity);
    lemma_lowercase_ascii_idempotent(threshold);
}

/// A vulnerability's severity is matched against the policy whatever its ASCII case.
pub proof fn lemma_blocked_severity_ignores_case(p: Policy, severity: Seq<char>)
    requires
        is_ascii_text(severity),
    ensures
        severity_blocked(p, severity) == severity_blocked(p, ascii_lower(severity)),
{
    lemma_lowercase_ascii_idempotent(severity);
}

/// Normalizing a version a second time changes nothing, for a version written without
/// whitespace or `=`: `1` gives `1.0.0`, `1.x` gives `1.*`, and each of these stays as it is.
pub proof fn lemma_normalize_idempotent(v: Seq<char>)
    requires
        plain(v),
    ensures
        norm_version(norm_version(v)) == norm_version(v),
{
    lemma_norm_idempotent(v);
}


/// Every key is that of a compatible package that a reachable request resolved to.
pub open spec fn keys_from_reachable(
    m: spec_fn((Seq<char>, Seq<char>)) -> (bool, Seq<char>, Seq<(Seq<char>, Seq<char>)>),
    roots: Seq<(Seq<char>, Seq<char>)>,
    keys: Seq<Seq<char>>,
) -> bool {
    forall|k: Seq<char>| #[trigger] keys.contains(k)
        ==> exists|r: (Seq<char>, Seq<char>)| reachable(m, roots, r) && m(r).0 && #[trigger] m(r).1 == k
}

proof fn lemma_chain_extend(
    m: spec_fn((Seq<char>, Seq<char>)) -> (bool, Seq<char>, Seq<(Seq<char>, Seq<char>)>),
    roots: Seq<(Seq<char>, Seq<char>)>,
    p: (Seq<char>, Seq<char>),
    x: (Seq<char>, Seq<char>),
)
    requires
        reachable(m, roots, p),
        feeds(m, p, x),
    ensures
        reachable(m, roots, x),
{
    let c = choose|c: Seq<(Seq<char>, Seq<char>)>| #[trigger] is_chain(m, roots, c) && c.last() == p;
    let c2 = c.push(x);
    assert forall|i: int| 1 <= i < c2.len() implies feeds(m, c2[i - 1], #[trigger] c2[i]) by {
        if i < c.len() {
            assert(c2[i] == c[i] && c2[i - 1] == c[i - 1]);
        } else {
            assert(c2[i - 1] == p && c2[i] == x);
        }
    }
    assert(c2[0] == c[0]);
    assert(is_chain(m, roots, c2) && c2.last() == x);
}

proof fn lemma_walk_sound(
    m: spec_fn((Seq<char>, Seq<char>)) -> (bool, Seq<char>, Seq<(Seq<char>, Seq<char>)>),
    roots: Seq<(Seq<char>, Seq<char>)>,
    keys: Seq<Seq<char>>,
    queue: Seq<(Seq<char>, Seq<char>)>,
    done: Seq<(Seq<char>, Seq<char>)>,
    fuel: nat,
)
    requires
        keys_from_reachable(m, roots, keys),
        forall|i: int| 0 <= i < queue.len() ==> reachable(m, roots, #[trigger] queue[i]),
    ensures
        keys_from_reachable(m, roots, walk(m, keys, queue, done, fuel).0),
    decreases fuel,
{
    if fuel > 0 && queue.len() > 0 {
        let r = queue.last();
        assert(reachable(m, roots, queue[queue.len() - 1]));
        let s = walk_step(m(r), keys, queue);
        assert forall|i: int| 0 <= i < s.1.len() implies reachable(m, roots, #[trigger] s.1[i]) by {
            if i < queue.len() - 1 {
                assert(s.1[i] == queue[i]);
            } else {
                let x = s.1[i];
                assert(x == m(r).2[i - (queue.len() - 1)]);
                assert(m(r).2.contains(x));
                lemma_chain_extend(m, roots, r, x);
            }
        }
        assert forall|k: Seq<char>| #[trigger] s.0.contains(k)
            implies exists|q: (Seq<char>, Seq<char>)| reachable(m, roots, q) && m(q).0 && #[trigger] m(q).1 == k by {
            if keys.contains(k) {
            } else {
                assert(k == m(r).1);
                assert(reachable(m, roots, r));
            }
        }
        lemma_walk_sound(m, roots, s.0, s.1, done.push(r), (fuel - 1) as nat);
    }
}

/// The walk only ever records the key of a compatible package that a request reachable from
/// the roots resolved to.
pub proof fn lemma_walk_records_only_reachable(
    m: spec_fn((Seq<char>, Seq<char>)) -> (bool, Seq<char>, Seq<(Seq<char>, Seq<char>)>),
    roots: Seq<(Seq<char>, Seq<char>)>,
    fuel: nat,
)
    ensures
        keys_from_reachable(m, roots, walk(m, Seq::empty(), roots, Seq::empty(), fuel).0),
{
    assert forall|i: int| 0 <= i < roots.len() implies reachable(m, roots, #[trigger] roots[i]) by {
        let c = seq![roots[i]];
        assert(roots.contains(c[0]));
        assert(is_chain(m, roots, c) && c.last() == roots[i]);
    }
    lemma_walk_sound(m, roots, Seq::empty(), roots, Seq::empty(), fuel);
}

/// One key always comes with one dependency list.
pub open spec fn consistent_metadata(
    m: spec_fn((Seq<char>, Seq<char>)) -> (bool, Seq<char>, Seq<(Seq<char>, Seq<char>)>),
) -> bool {
    forall|a: (Seq<char>, Seq<char>), b: (Seq<char>, Seq<char>)|
        #![trigger m(a), m(b)]
        m(a).0 && m(b).0 && m(a).1 == m(b).1 ==> m(a).2 == m(b).2
}

/// What the walk keeps true of the requests answered (`done`) and those still queued.
pub open spec fn walk_closed(
    m: spec_fn((Seq<char>, Seq<char>)) -> (bool, Seq<char>, Seq<(Seq<char>, Seq<char>)>),
    roots: Seq<(Seq<char>, Seq<char>)>,
    keys: Seq<Seq<char>>,
    queue: Seq<(Seq<char>, Seq<char>)>,
    done: Seq<(Seq<char>, Seq<char>)>,
) -> bool {
    &&& forall|r: (Seq<char>, Seq<char>)| #[trigger] done.contains(r) && m(r).0 ==> keys.contains(m(r).1)
    &&& forall|k: Seq<char>| #[trigger] keys.contains(k) ==> exists|r: (Seq<char>, Seq<char>)|
            #[trigger] done.contains(r) && m(r).0 && m(r).1 == k
            && forall|x: (Seq<char>, Seq<char>)| #[trigger] m(r).2.contains(x) ==> done.contains(x) || queue.contains(x)
    &&& forall|x: (Seq<char>, Seq<char>)| #[trigger] roots.contains(x) ==> done.contains(x) || queue.contains(x)
}

proof fn lemma_walk_closed(
    m: spec_fn((Seq<char>, Seq<char>)) -> (bool, Seq<char>, Seq<(Seq<char>, Seq<char>)>),
    roots: Seq<(Seq<char>, Seq<char>)>,
    keys: Seq<Seq<char>>,
    queue: Seq<(Seq<char>, Seq<char>)>,
    done: Seq<(Seq<char>, Seq<char>)>,
    fuel: nat,
)
    requires
        walk_closed(m, roots, keys, queue, done),
    ensures
        walk_closed(m, roots, walk(m, keys, queue, done, fuel).0, walk(m, keys, queue, done, fuel).1,
            walk(m, keys, queue, done, fuel).2),
    decreases fuel,
{
    if fuel > 0 && queue.len() > 0 {
        let r = queue.last();
        let s = walk_step(m(r), keys, queue);
        let done2 = done.push(r);
        let q = queue.drop_last();
        assert(forall|x: (Seq<char>, Seq<char>)| queue.contains(x) ==> x == r || q.contains(x)) by {
            assert forall|x: (Seq<char>, Seq<char>)| queue.contains(x) implies x == r || q.contains(x) by {
                let j = choose|j: int| 0 <= j < queue.len() && queue[j] == x;
                if j < queue.len() - 1 { assert(q[j] == x); }
            }
        }
        assert(forall|x: (Seq<char>, Seq<char>)| q.contains(x) ==> s.1.contains(x)) by {
            assert forall|x: (Seq<char>, Seq<char>)| q.contains(x) implies s.1.contains(x) by {
                let j = choose|j: int| 0 <= j < q.len() && q[j] == x;
                assert(s.1[j] == x);
            }
        }
        assert(forall|x: (Seq<char>, Seq<char>)| done.contains(x) ==> done2.contains(x)) by {
            assert forall|x: (Seq<char>, Seq<char>)| done.contains(x) implies done2.contains(x) by {
                let j = choose|j: int| 0 <= j < done.len() && done[j] == x;
                assert(done2[j] == x);
            }
        }
        assert(done2.contains(r)) by { assert(done2[done.len() as int] == r); }
        assert(forall|k: Seq<char>| keys.contains(k) ==> s.0.contains(k)) by {
            assert forall|k: Seq<char>| keys.contains(k) implies s.0.contains(k) by {
                let j = choose|j: int| 0 <= j < keys.len() && keys[j] == k;
                assert(s.0[j] == k);
            }
        }
        if m(r).0 && !keys.contains(m(r).1) {
            assert(s.0.contains(m(r).1)) by { assert(s.0[keys.len() as int] == m(r).1); }
            assert forall|x: (Seq<char>, Seq<char>)| #[trigger] m(r).2.contains(x) implies s.1.contains(x) by {
                let deps = m(r).2;
                let j = choose|j: int| 0 <= j < deps.len() && deps[j] == x;
                assert(s.1[q.len() + j] == x);
            }
        }
        assert forall|k: Seq<char>| #[trigger] s.0.contains(k) implies exists|w: (Seq<char>, Seq<char>)|
            #[trigger] done2.contains(w) && m(w).0 && m(w).1 == k
            && forall|x: (Seq<char>, Seq<char>)| #[trigger] m(w).2.contains(x) ==> done2.contains(x) || s.1.contains(x) by {
            if keys.contains(k) {
                let w = choose|w: (Seq<char>, Seq<char>)| #[trigger] done.contains(w) && m(w).0 && m(w).1 == k
                    && forall|x: (Seq<char>, Seq<char>)| #[trigger] m(w).2.contains(x) ==> done.contains(x) || queue.contains(x);
                assert(done2.contains(w));
                assert forall|x: (Seq<char>, Seq<char>)| #[trigger] m(w).2.contains(x) implies done2.contains(x) || s.1.contains(x) by {
                    if done.contains(x) {} else if x == r {} else { assert(q.contains(x)); }
                }
            } else {
                assert(k == m(r).1);
                assert(done2.contains(r));
            }
        }
        assert forall|r0: (Seq<char>, Seq<char>)| #[trigger] done2.contains(r0) && m(r0).0 implies s.0.contains(m(r0).1) by {
            if r0 == r {
            } else {
                let j = choose|j: int| 0 <= j < done2.len() && done2[j] == r0;
                assert(done.contains(r0)) by { assert(done[j] == r0); }
            }
        }
        assert forall|x: (Seq<char>, Seq<char>)| #[trigger] roots.contains(x) implies done2.contains(x) || s.1.contains(x) by {
            if done.contains(x) {} else if x == r {} else { assert(q.contains(x)); }
        }
        lemma_walk_closed(m, roots, s.0, s.1, done2, (fuel - 1) as nat);
    }
}

proof fn lemma_chain_done(
    m: spec_fn((Seq<char>, Seq<char>)) -> (bool, Seq<char>, Seq<(Seq<char>, Seq<char>)>),
    roots: Seq<(Seq<char>, Seq<char>)>,
    keys: Seq<Seq<char>>,
    done: Seq<(Seq<char>, Seq<char>)>,
    c: Seq<(Seq<char>, Seq<char>)>,
    i: int,
)
    requires
        consistent_metadata(m),
        walk_closed(m, roots, keys, Seq::empty(), done),
        is_chain(m, roots, c),
        0 <= i < c.len(),
    ensures
        done.contains(c[i]),
    decreases i,
{
    let e = Seq::<(Seq<char>, Seq<char>)>::empty();
    if i == 0 {
        assert(roots.contains(c[0]));
        assert(!e.contains(c[0]));
    } else {
        lemma_chain_done(m, roots, keys, done, c, i - 1);
        let p = c[i - 1];
        let x = c[i];
        assert(feeds(m, p, x));
        assert(keys.contains(m(p).1));
        let w = choose|w: (Seq<char>, Seq<char>)| #[trigger] done.contains(w) && m(w).0 && m(w).1 == m(p).1
            && forall|y: (Seq<char>, Seq<char>)| #[trigger] m(w).2.contains(y) ==> done.contains(y) || e.contains(y);
        assert(m(w).2 == m(p).2);
        assert(m(w).2.contains(x));
        assert(!e.contains(x));
    }
}

/// Where the walk has answered every request, it has recorded every compatible package that
/// a request reachable from the roots resolves to, so long as one `name@version` always asks
/// for the same dependencies.
pub proof fn lemma_walk_records_all_reachable(
    m: spec_fn((Seq<char>, Seq<char>)) -> (bool, Seq<char>, Seq<(Seq<char>, Seq<char>)>),
    roots: Seq<(Seq<char>, Seq<char>)>,
    fuel: nat,
)
    requires
        consistent_metadata(m),
        walk(m, Seq::empty(), roots, Seq::empty(), fuel).1.len() == 0,
    ensures
        forall|r: (Seq<char>, Seq<char>)| reachable(m, roots, r) && #[trigger] m(r).0
            ==> walk(m, Seq::empty(), roots, Seq::empty(), fuel).0.contains(m(r).1),
{
    let e = Seq::<(Seq<char>, Seq<char>)>::empty();
    assert forall|x: (Seq<char>, Seq<char>)| #[trigger] roots.contains(x) implies e.contains(x) || roots.contains(x) by {}
    assert(walk_closed(m, roots, Seq::empty(), roots, e));
    lemma_walk_closed(m, roots, Seq::empty(), roots, e, fuel);
    let w = walk(m, Seq::empty(), roots, e, fuel);
    assert(w.1 =~= e);
    assert forall|r: (Seq<char>, Seq<char>)| reachable(m, roots, r) && #[trigger] m(r).0 implies w.0.contains(m(r).1) by {
        let c = choose|c: Seq<(Seq<char>, Seq<char>)>| #[trigger] is_chain(m, roots, c) && c.last() == r;
        lemma_chain_done(m, roots, w.0, w.2, c, c.len() - 1);
    }
}


// ---------------------------------------------------------------- comparators of a range

/// Rewriting a comparator keeps its operator: a token that starts with `>=`, `>`, `<`, `^`,
/// `~` or `=` is rewritten to a token that starts with the same operator (so a `~` range stays
/// a tilde range and never admits a greater minor number), and a `<=` token is rewritten to
/// one that starts with `<` (kept as `<=`, or turned into the exclusive `<` of the next
/// version). After a kept operator comes the token's version, completed as a bare version is.
pub proof fn lemma_comparator_keeps_operator(t: Seq<char>)
    ensures
        op_len(t) > 0 && !is_le_op(t) ==> norm_token(t).len() >= op_len(t)
            && norm_token(t).take(op_len(t)) == t.take(op_len(t))
            && norm_token(t).skip(op_len(t)) == norm_version(crate::range::token_version(t)),
        is_le_op(t) ==> norm_token(t).len() > 0 && norm_token(t)[0] == '<',
        t.len() > 0 && t[0] == '~' ==> norm_token(t).len() > 0 && norm_token(t)[0] == '~',
        t.len() > 0 && t[0] == '^' ==> norm_token(t).len() > 0 && norm_token(t)[0] == '^',
{
    let n = op_len(t);
    let op = t.take(n);
    if n > 0 {
        let r = op + norm_version(crate::range::token_version(t));
        assert(r.take(n) =~= op);
        assert(r.skip(n) =~= norm_version(crate::range::token_version(t)));
        assert(r[0] == t[0]);
    }
}

// ---------------------------------------------------------------- severity scales

/// The policy's scale is strictly increasing: `low` < `medium` < `high` < `critical`; and a
/// policy whose minimum is `critical` blocks exactly the vulnerabilities whose severity
/// lowercases to `critical`, while one whose minimum is `low` blocks every severity.
pub proof fn lemma_policy_scale_increasing(p: Policy, severity: Seq<char>)
    ensures
        index_or(policy_severity_index("low"@), 9) < index_or(policy_severity_index("medium"@), 0),
        index_or(policy_severity_index("medium"@), 9) < index_or(policy_severity_index("high"@), 0),
        index_or(policy_severity_index("high"@), 9) < index_or(policy_severity_index("critical"@), 0),
        p.min_severity@ == "critical"@ ==> (severity_blocked(p, severity) <==> lowercase(severity) == "critical"@),
        p.min_severity@ == "low"@ ==> severity_blocked(p, severity),
{
    reveal_strlit("low");
    reveal_strlit("medium");
    reveal_strlit("high");
    reveal_strlit("critical");
    assert("low"@.len() == 3 && "medium"@.len() == 6 && "high"@.len() == 4 && "critical"@.len() == 8);
    let l = lowercase(severity);
    if l == "critical"@ {
    } else {
        assert(index_or(policy_severity_index(l), 0) < 3);
    }
}

/// The audit scale is strictly increasing: `low` < `moderate` < `high` < `critical`; a
/// finding whose severity lowercases to a level below the threshold's never reaches it (a
/// `low` finding never meets a `moderate` threshold), a `critical` one meets every threshold,
/// and one at a level of the scale meets that same level.
pub proof fn lemma_audit_scale_increasing(severity: Seq<char>, threshold: Seq<char>)
    ensures
        index_or(audit_severity_index("low"@), 9) < index_or(audit_severity_index("moderate"@), 0),
        index_or(audit_severity_index("moderate"@), 9) < index_or(audit_severity_index("high"@), 0),
        index_or(audit_severity_index("high"@), 9) < index_or(audit_severity_index("critical"@), 0),
        lowercase(severity) == "low"@ && lowercase(threshold) == "moderate"@ ==> !reaches(severity, Some(threshold)),
        lowercase(severity) == "moderate"@ && lowercase(threshold) == "high"@ ==> !reaches(severity, Some(threshold)),
        lowercase(severity) == "high"@ && lowercase(threshold) == "critical"@ ==> !reaches(severity, Some(threshold)),
        lowercase(severity) == "critical"@ ==> reaches(severity, Some(threshold)),
        audit_severity_index(lowercase(severity)) is Some && lowercase(severity) == lowercase(threshold)
            ==> reaches(severity, Some(threshold)),
{
    reveal_strlit("low");
    reveal_strlit("moderate");
    reveal_strlit("high");
    reveal_strlit("critical");
    assert("low"@.len() == 3 && "moderate"@.len() == 8 && "high"@.len() == 4 && "critical"@.len() == 8);
    assert("moderate"@[0] == 'm' && "critical"@[0] == 'c');
    assert("moderate"@ != "critical"@);
}

// ---------------------------------------------------------------- upgrade kinds

/// A minor upgrade may move to any version with the same major number that is greater than
/// the current one (a patch release among them); a patch upgrade to any greater version with
/// the same major and minor numbers; no upgrade of either kind moves to a version that is not
/// greater or that changes the major number, and a patch upgrade never changes the minor one.
pub proof fn lemma_upgrade_candidates(cur: Seq<char>, v: Seq<char>)
    ensures
        (semver_parse(v) matches Some(p) && semver_parse(cur) matches Some(c)
            && p.0 == c.0 && semver_order(v, cur) > 0) ==> upgrade_candidate(ChangeType::Minor, cur, v),
        (semver_parse(v) matches Some(p) && semver_parse(cur) matches Some(c)
            && p.0 == c.0 && p.1 == c.1 && semver_order(v, cur) > 0) ==> upgrade_candidate(ChangeType::Patch, cur, v),
        upgrade_candidate(ChangeType::Minor, cur, v) || upgrade_candidate(ChangeType::Patch, cur, v)
            ==> semver_order(v, cur) > 0 && semver_parse(v)->Some_0.0 == semver_parse(cur)->Some_0.0,
        upgrade_candidate(ChangeType::Patch, cur, v) ==> semver_parse(v)->Some_0.1 == semver_parse(cur)->Some_0.1,
        !upgrade_candidate(ChangeType::Major, cur, v),
{
}

/// An upgrade of `kind` finds a target among the published versions exactly when one of them
/// is a version that kind may move to.
pub proof fn lemma_upgrade_target_found(kind: ChangeType, cur: Seq<char>, vs: Seq<Seq<char>>)
    ensures
        upgrade_target(kind, cur, vs) is Some
            <==> exists|k: int| 0 <= k < vs.len() && upgrade_candidate(kind, cur, #[trigger] vs[k]),
    decreases vs.len(),
{
    if vs.len() > 0 {
        lemma_upgrade_target_found(kind, cur, vs.drop_last());
        if exists|k: int| 0 <= k < vs.len() && upgrade_candidate(kind, cur, #[trigger] vs[k]) {
            let k = choose|k: int| 0 <= k < vs.len() && upgrade_candidate(kind, cur, #[trigger] vs[k]);
            if k < vs.len() - 1 {
                assert(vs.drop_last()[k] == vs[k]);
            }
        }
        if exists|k: int| 0 <= k < vs.drop_last().len() && upgrade_candidate(kind, cur, #[trigger] vs.drop_last()[k]) {
            let k = choose|k: int| 0 <= k < vs.drop_last().len() && upgrade_candidate(kind, cur, #[trigger] vs.drop_last()[k]);
            assert(vs[k] == vs.drop_last()[k]);
        }
    }
}

// ---------------------------------------------------------------- one-off installs

/// Which key of a package a one-off install keeps: of two versions that both satisfy the
/// requested range, the later one replaces the kept one exactly when it is greater by
/// `semver`; one that satisfies the range always replaces one that does not, and never the
/// other way round.
pub proof fn lemma_kx_prefers_greatest_match(range: Option<Seq<char>>, v: Seq<char>, e: Seq<char>)
    ensures
        satisfies(range, v) && satisfies(range, e) ==> (kx_better(range, v, e) <==> semver_order(v, e) > 0),
        satisfies(range, v) && !satisfies(range, e) ==> kx_better(range, v, e),
        !satisfies(range, v) && satisfies(range, e) ==> !kx_better(range, v, e),
{
}
} // verus!
