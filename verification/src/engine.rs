//! The security engine: the checks that a package must pass before it is installed.
use vstd::prelude::*;
use crate::text::{str_views, contains_str, split_on, split_on_vec, to_chars, string_of_all, str_eq, views};
use crate::typo::{suspiciously_similar, is_suspiciously_similar};
use crate::policy::{
    Policy, TrustLevel, Vulnerability, trust_rank, trust_of, lowercase, to_lowercase,
    policy_severity_index, policy_severity_index_exec, index_or,
};

verus! {

/// Whether a text is a date-time in RFC 3339 that `chrono::DateTime::parse_from_rfc3339` reads.
pub uninterp spec fn rfc3339_valid(s: Seq<char>) -> bool;

/// The minutes since the instant written `published_at`: it is parsed with
/// `chrono::DateTime::parse_from_rfc3339` and subtracted from `chrono::Utc::now()`
/// (`signed_duration_since`, then `num_minutes`). The number depends on the clock and is left
/// unsaid; that one comes back exactly where the text parses is stated.
#[verifier::external_body]
fn minutes_since(published_at: &str) -> (r: Option<i64>)
    ensures
        r is Some <==> rfc3339_valid(published_at@),
{
    match chrono::DateTime::parse_from_rfc3339(published_at) {
        Ok(dt) => Some(chrono::Utc::now().signed_duration_since(dt.with_timezone(&chrono::Utc)).num_minutes()),
        Err(_) => None,
    }
}

/// The age in minutes of a publication date where it is given and readable.
pub fn release_age(published_at: Option<&str>) -> (r: Option<i64>)
    ensures
        r is Some <==> (published_at matches Some(p) && rfc3339_valid(p@)),
{
    match published_at {
        Some(p) => minutes_since(p),
        None => None,
    }
}

/// A name with its scope taken off: for `@scope/name`, the part after the first `/` (up to any
/// next one); other names unchanged.
pub open spec fn unscoped(n: Seq<char>) -> Seq<char> {
    if n.len() > 0 && n[0] == '@' && split_on(n, '/').len() > 1 {
        split_on(n, '/')[1]
    } else {
        n
    }
}

fn unscoped_exec(n: &str) -> (r: String)
    ensures
        r@ == unscoped(n@),
{
    let c = to_chars(n);
    if c.len() > 0 && c[0] == '@' {
        let parts = split_on_vec(&c, '/');
        if parts.len() > 1 {
            assert(views(parts@)[1] == parts@[1]@);
            return string_of_all(&parts[1]);
        }
    }
    n.to_owned()
}

/// The first name of `list` that `name` is suspiciously similar to, each taken unscoped
/// where `strip` is set.
pub open spec fn first_similar(list: Seq<Seq<char>>, name: Seq<char>, strip: bool) -> Option<Seq<char>>
    decreases list.len(),
{
    if list.len() == 0 {
        None
    } else if suspiciously_similar(name, if strip { unscoped(list[0]) } else { list[0] }) {
        Some(list[0])
    } else {
        first_similar(list.drop_first(), name, strip)
    }
}

fn first_similar_exec(list: &Vec<String>, name: &str, strip: bool) -> (r: Option<String>)
    ensures
        (match r {
            Some(s) => first_similar(str_views(list@), name@, strip) == Some(s@),
            None => first_similar(str_views(list@), name@, strip) is None,
        }),
{
    let ghost l = str_views(list@);
    let mut i: usize = 0;
    assert(l.skip(0) =~= l);
    while i < list.len()
        invariant
            i <= list@.len(),
            l == str_views(list@),
            first_similar(l, name@, strip) == first_similar(l.skip(i as int), name@, strip),
        decreases list@.len() - i,
    {
        let ghost rest = l.skip(i as int);
        assert(rest[0] == list@[i as int]@);
        let candidate = if strip { unscoped_exec(list[i].as_str()) } else { list[i].clone() };
        if is_suspiciously_similar(name, candidate.as_str()) {
            return Some(list[i].clone());
        }
        assert(rest.drop_first() =~= l.skip(i + 1));
        i += 1;
    }
    None
}

/// The text of an optional string.
pub open spec fn opt_view(o: Option<&str>) -> Option<Seq<char>> {
    match o {
        Some(s) => Some(s@),
        None => None,
    }
}

/// What the local checks make of a package before its vulnerabilities are looked up.
#[derive(Clone, Copy, Debug, PartialEq, Eq, Structural)]
pub enum PackageVerdict {
    /// The package may be installed without further checks.
    Allowed,
    /// The policy refuses the package.
    Denied,
    /// The package passed; its vulnerabilities decide.
    CheckVulnerabilities,
}

/// The security checks, with the popular package names that typosquatting is measured against.
#[derive(Clone, Debug)]
pub struct SecurityEngine {
    pub policy: Policy,
    pub popular_packages: Vec<String>,
}

/// The days after which the list of popular packages is fetched again, in seconds.
pub const POPULAR_REFRESH_SECS: u64 = 604800;

/// The most popular names that are kept.
pub const POPULAR_LIMIT: usize = 1000;

/// The local verdict on a package (see `SecurityEngine::package_verdict`).
pub open spec fn verdict_of(
    p: Policy,
    name: Seq<char>,
    license: Option<Seq<char>>,
    is_deprecated: bool,
    age_minutes: Option<i64>,
    has_install_scripts: bool,
) -> PackageVerdict {
    let trusted = str_views(p.trusted_packages@).contains(name);
    if trusted {
        PackageVerdict::Allowed
    } else if str_views(p.blocked_packages@).contains(name) {
        PackageVerdict::Denied
    } else if p.block_deprecated && is_deprecated {
        PackageVerdict::Denied
    } else if p.minimum_release_age > 0 && (age_minutes matches Some(a) && a < (p.minimum_release_age as i64)) {
        PackageVerdict::Denied
    } else if !p.allow_postinstall && has_install_scripts && !trusted {
        PackageVerdict::Denied
    } else if license matches Some(l) && p.allowed_licenses@.len() > 0
        && !str_views(p.allowed_licenses@).contains(l) {
        PackageVerdict::Denied
    } else {
        PackageVerdict::CheckVulnerabilities
    }
}

/// Whether a trust downgrade from `old_level` to `new_level` is let through.
pub open spec fn downgrade_allowed(
    p: Policy,
    name: Seq<char>,
    new_level: TrustLevel,
    old_level: TrustLevel,
    age_minutes: Option<i64>,
) -> bool {
    p.trust_policy@ != "no-downgrade"@
        || str_views(p.trust_policy_exclude@).contains(name)
        || trust_rank(new_level) >= trust_rank(old_level)
        || (p.trust_policy_ignore_after > 0 && (age_minutes matches Some(a) && a > (p.trust_policy_ignore_after as i64)))
}

/// Whether a vulnerability of `severity` is blocked: its lowercase form is placed on the scale
/// `low`, `medium`, `high`, `critical` (unknown: `low`) against the policy's minimum severity
/// as written (unknown: `high`).
pub open spec fn severity_blocked(p: Policy, severity: Seq<char>) -> bool {
    index_or(policy_severity_index(lowercase(severity)), 0) >= index_or(policy_severity_index(p.min_severity@), 2)
}

/// The name that `name` would typosquat (see `SecurityEngine::check_typosquatting`).
pub open spec fn typosquat_target(
    p: Policy,
    popular: Seq<Seq<char>>,
    name: Seq<char>,
    existing: Seq<Seq<char>>,
) -> Option<Seq<char>> {
    let n = unscoped(name);
    if str_views(p.trusted_packages@).contains(name) || str_views(p.protected_packages@).contains(n)
        || existing.contains(name) || popular.contains(name) {
        None
    } else if first_similar(popular, n, true) is Some {
        first_similar(popular, n, true)
    } else if first_similar(str_views(p.protected_packages@), n, false) is Some {
        first_similar(str_views(p.protected_packages@), n, false)
    } else {
        first_similar(existing, n, true)
    }
}

impl SecurityEngine {
    /// An engine for `policy`, with the popular names known so far.
    pub fn new(policy: Policy, popular_packages: Vec<String>) -> (r: SecurityEngine)
        ensures
            r.policy == policy,
            r.popular() == str_views(popular_packages@),
    {
        SecurityEngine { policy, popular_packages }
    }

    /// The popular package names.
    pub open spec fn popular(&self) -> Seq<Seq<char>> {
        str_views(self.popular_packages@)
    }

    /// The popular package names.
    pub fn popular_packages(&self) -> (r: &Vec<String>)
        ensures
            str_views(r@) == self.popular(),
    {
        &self.popular_packages
    }

    /// Whether the list of popular packages is old enough to be fetched again: when its age in
    /// seconds is unknown, or over a week.
    pub fn needs_refresh(age_secs: Option<u64>) -> (r: bool)
        ensures
            r == (match age_secs { Some(a) => a > POPULAR_REFRESH_SECS, None => true }),
    {
        match age_secs {
            Some(a) => a > POPULAR_REFRESH_SECS,
            None => true,
        }
    }

    /// Takes a freshly fetched list of names: its first thousand replace the known ones,
    /// unless it is empty.
    pub fn refresh_with(&mut self, fetched: Vec<String>)
        ensures
            final(self).policy == old(self).policy,
            final(self).popular() == (if fetched@.len() == 0 {
                old(self).popular()
            } else if fetched@.len() <= POPULAR_LIMIT {
                str_views(fetched@)
            } else {
                str_views(fetched@).take(POPULAR_LIMIT as int)
            }),
    {
        if fetched.len() == 0 {
            return;
        }
        let mut kept: Vec<String> = Vec::new();
        let mut i: usize = 0;
        while i < fetched.len() && i < POPULAR_LIMIT
            invariant
                i <= fetched@.len(),
                i <= POPULAR_LIMIT,
                kept@.len() == i,
                forall|k: int| 0 <= k < i ==> #[trigger] kept@[k]@ == fetched@[k]@,
            decreases fetched@.len() - i,
        {
            kept.push(fetched[i].clone());
            i += 1;
        }
        proof {
            if fetched@.len() <= POPULAR_LIMIT {
                assert(str_views(kept@) =~= str_views(fetched@));
            } else {
                assert(str_views(kept@) =~= str_views(fetched@).take(POPULAR_LIMIT as int));
            }
        }
        self.popular_packages = kept;
    }

    /// The trust that a version earns: see `trust_of`.
    pub fn get_trust_level(&self, has_signatures: bool, has_attestations: bool) -> (r: TrustLevel)
        ensures
            r == trust_of(has_signatures, has_attestations),
    {
        if has_attestations {
            TrustLevel::High
        } else if has_signatures {
            TrustLevel::Medium
        } else {
            TrustLevel::Low
        }
    }

    /// Whether a trust downgrade is let through, the age of the new version being known:
    /// see `downgrade_allowed`.
    pub fn downgrade_verdict(
        &self,
        name: &str,
        new_level: TrustLevel,
        old_level: TrustLevel,
        age_minutes: Option<i64>,
    ) -> (r: bool)
        ensures
            r == downgrade_allowed(self.policy, name@, new_level, old_level, age_minutes),
    {
        if !str_eq(self.policy.trust_policy.as_str(), "no-downgrade") {
            return true;
        }
        if contains_str(&self.policy.trust_policy_exclude, name) {
            return true;
        }
        if new_level.rank() >= old_level.rank() {
            return true;
        }
        if self.policy.trust_policy_ignore_after > 0 {
            if let Some(a) = age_minutes {
                if a > self.policy.trust_policy_ignore_after as i64 {
                    return true;
                }
            }
        }
        false
    }

    /// Whether a trust downgrade is let through, the age being read from the publication date:
    /// `downgrade_allowed` with the age that the clock gives, which is known where the date is
    /// given and readable.
    pub fn validate_trust_downgrade(
        &self,
        name: &str,
        new_level: TrustLevel,
        old_level: TrustLevel,
        published_at: Option<&str>,
    ) -> (r: bool)
        ensures
            exists|age: Option<i64>| (age is Some <==> (published_at matches Some(p) && rfc3339_valid(p@)))
                && r == #[trigger] downgrade_allowed(self.policy, name@, new_level, old_level, age),
    {
        let age = release_age(published_at);
        self.downgrade_verdict(name, new_level, old_level, age)
    }

    /// The local verdict on a package, its age being known: trusted packages pass, blocked or
    /// (by policy) deprecated ones, ones younger than the minimum age, ones with install scripts
    /// where those are not allowed, and ones under a license out of the allowed list fail; the
    /// rest go on to the vulnerability check (see `verdict_of`).
    pub fn package_verdict(
        &self,
        name: &str,
        license: Option<&str>,
        is_deprecated: bool,
        age_minutes: Option<i64>,
        has_install_scripts: bool,
    ) -> (r: PackageVerdict)
        ensures
            r == verdict_of(self.policy, name@, opt_view(license),
                is_deprecated, age_minutes, has_install_scripts),
    {
        let trusted = contains_str(&self.policy.trusted_packages, name);
        if trusted {
            return PackageVerdict::Allowed;
        }
        if contains_str(&self.policy.blocked_packages, name) {
            return PackageVerdict::Denied;
        }
        if self.policy.block_deprecated && is_deprecated {
            return PackageVerdict::Denied;
        }
        if self.policy.minimum_release_age > 0 {
            if let Some(a) = age_minutes {
                if a < self.policy.minimum_release_age as i64 {
                    return PackageVerdict::Denied;
                }
            }
        }
        if !self.policy.allow_postinstall && has_install_scripts && !trusted {
            return PackageVerdict::Denied;
        }
        if let Some(l) = license {
            if self.policy.allowed_licenses.len() > 0 && !contains_str(&self.policy.allowed_licenses, l) {
                return PackageVerdict::Denied;
            }
        }
        PackageVerdict::CheckVulnerabilities
    }

    /// The local verdict on a package, its age being read from the publication date:
    /// `verdict_of` with the age that the clock gives, which is known where the date is given
    /// and readable.
    pub fn precheck_package(
        &self,
        name: &str,
        license: Option<&str>,
        is_deprecated: bool,
        published_at: Option<&str>,
        has_install_scripts: bool,
    ) -> (r: PackageVerdict)
        ensures
            exists|age: Option<i64>| (age is Some <==> (published_at matches Some(p) && rfc3339_valid(p@)))
                && r == #[trigger] verdict_of(self.policy, name@, opt_view(license),
                    is_deprecated, age, has_install_scripts),
    {
        let age = release_age(published_at);
        self.package_verdict(name, license, is_deprecated, age, has_install_scripts)
    }

    /// Whether the policy blocks a vulnerability of this severity: see `severity_blocked`.
    pub fn is_severity_blocked(&self, severity: &str) -> (r: bool)
        ensures
            r == severity_blocked(self.policy, severity@),
    {
        let min_idx: u8 = match policy_severity_index_exec(self.policy.min_severity.as_str()) {
            Some(n) => n,
            None => 2,
        };
        let lower = to_lowercase(severity);
        let curr_idx: u8 = match policy_severity_index_exec(lower.as_str()) {
            Some(n) => n,
            None => 0,
        };
        curr_idx >= min_idx
    }

    /// Whether a package with these reported vulnerabilities passes: none of them is blocked.
    pub fn vulnerabilities_allowed(&self, vulns: &Vec<Vulnerability>) -> (r: bool)
        ensures
            r == forall|k: int| 0 <= k < vulns@.len() ==> !severity_blocked(self.policy, #[trigger] vulns@[k].severity@),
    {
        let mut i: usize = 0;
        while i < vulns.len()
            invariant
                i <= vulns@.len(),
                forall|k: int| 0 <= k < i ==> !severity_blocked(self.policy, #[trigger] vulns@[k].severity@),
            decreases vulns@.len() - i,
        {
            if self.is_severity_blocked(vulns[i].severity.as_str()) {
                return false;
            }
            i += 1;
        }
        true
    }

    /// The known name that `name` looks like a typo of, if any: none for a trusted, protected,
    /// already used or popular name; else the first similar popular name, then protected name,
    /// then name already in use (see `typosquat_target`).
    pub fn check_typosquatting(&self, name: &str, existing_deps: &Vec<String>) -> (r: Option<String>)
        ensures
            (match r {
                Some(s) => typosquat_target(self.policy, self.popular(), name@, str_views(existing_deps@)) == Some(s@),
                None => typosquat_target(self.policy, self.popular(), name@, str_views(existing_deps@)) is None,
            }),
    {
        let n = unscoped_exec(name);
        if contains_str(&self.policy.trusted_packages, name)
            || contains_str(&self.policy.protected_packages, n.as_str())
            || contains_str(existing_deps, name)
            || contains_str(&self.popular_packages, name)
        {
            return None;
        }
        match first_similar_exec(&self.popular_packages, n.as_str(), true) {
            Some(s) => return Some(s),
            None => {},
        }
        match first_similar_exec(&self.policy.protected_packages, n.as_str(), false) {
            Some(s) => return Some(s),
            None => {},
        }
        first_similar_exec(existing_deps, n.as_str(), true)
    }
}

/// A version at least as trusted as the one it replaces is never held back as a downgrade.
pub proof fn lemma_no_downgrade_when_trust_kept(
    p: Policy,
    name: Seq<char>,
    new_level: TrustLevel,
    old_level: TrustLevel,
    age: Option<i64>,
)
    requires
        trust_rank(new_level) >= trust_rank(old_level),
    ensures
        downgrade_allowed(p, name, new_level, old_level, age),
{
}

/// A trusted package is allowed whatever else holds of it; a blocked one that is not trusted
/// is denied.
pub proof fn lemma_trusted_and_blocked(
    p: Policy,
    name: Seq<char>,
    license: Option<Seq<char>>,
    is_deprecated: bool,
    age: Option<i64>,
    has_install_scripts: bool,
)
    ensures
        str_views(p.trusted_packages@).contains(name)
            ==> verdict_of(p, name, license, is_deprecated, age, has_install_scripts) == PackageVerdict::Allowed,
        !str_views(p.trusted_packages@).contains(name) && str_views(p.blocked_packages@).contains(name)
            ==> verdict_of(p, name, license, is_deprecated, age, has_install_scripts) == PackageVerdict::Denied,
{
}

} // verus!
