//! The security policy: its settings and defaults, trust levels, and the severity scales of
//! vulnerability reports.
use vstd::prelude::*;
use crate::text::str_eq;

verus! {

/// How much provenance a published version carries.
#[derive(Clone, Copy, Debug, PartialEq, Eq, Structural, PartialOrd, Ord)]
pub enum TrustLevel {
    Low,
    Medium,
    High,
}

/// The place of a trust level in the order `Low < Medium < High`.
pub open spec fn trust_rank(t: TrustLevel) -> nat {
    match t {
        TrustLevel::Low => 0,
        TrustLevel::Medium => 1,
        TrustLevel::High => 2,
    }
}

impl TrustLevel {
    /// Executable `trust_rank`.
    pub fn rank(&self) -> (r: u8)
        ensures
            r == trust_rank(*self),
    {
        match self {
            TrustLevel::Low => 0,
            TrustLevel::Medium => 1,
            TrustLevel::High => 2,
        }
    }

    /// The name of the level.
    pub fn name(&self) -> (r: &'static str)
        ensures
            r@ == (match *self {
                TrustLevel::Low => "Low"@,
                TrustLevel::Medium => "Medium"@,
                TrustLevel::High => "High"@,
            }),
    {
        match self {
            TrustLevel::Low => "Low",
            TrustLevel::Medium => "Medium",
            TrustLevel::High => "High",
        }
    }
}

/// The trust that a version earns: `High` with attestations, `Medium` with signatures alone,
/// else `Low`.
pub open spec fn trust_of(has_signatures: bool, has_attestations: bool) -> TrustLevel {
    if has_attestations {
        TrustLevel::High
    } else if has_signatures {
        TrustLevel::Medium
    } else {
        TrustLevel::Low
    }
}

/// A vulnerability that the OSV database reports for a version.
#[derive(Clone, Debug)]
pub struct Vulnerability {
    pub id: String,
    pub summary: String,
    pub severity: String,
}

impl Vulnerability {
    /// A report built from the fields found in an OSV answer, with the defaults of missing
    /// ones: id `unknown`, summary `No summary available`, severity `Medium`.
    pub fn from_fields(id: Option<String>, summary: Option<String>, severity: Option<String>) -> (r: Vulnerability)
        ensures
            r.id@ == (match id { Some(s) => s@, None => "unknown"@ }),
            r.summary@ == (match summary { Some(s) => s@, None => "No summary available"@ }),
            r.severity@ == (match severity { Some(s) => s@, None => "Medium"@ }),
    {
        Vulnerability {
            id: match id { Some(s) => s, None => "unknown".to_owned() },
            summary: match summary { Some(s) => s, None => "No summary available".to_owned() },
            severity: match severity { Some(s) => s, None => "Medium".to_owned() },
        }
    }
}

/// The settings of the security checks.
#[derive(Clone, Debug)]
pub struct Policy {
    pub block_deprecated: bool,
    pub min_severity: String,
    pub blocked_packages: Vec<String>,
    pub allowed_licenses: Vec<String>,
    pub minimum_release_age: u64,
    pub allow_postinstall: bool,
    pub trusted_packages: Vec<String>,
    pub trust_policy: String,
    pub trust_policy_exclude: Vec<String>,
    pub trust_policy_ignore_after: u64,
    pub protected_packages: Vec<String>,
    pub allowed_domains: Vec<String>,
    pub registry: String,
    /// The hosts that scripts may import HTTPS modules from (none: all such imports blocked).
    pub allowed_import_hosts: Vec<String>,
}

/// The licenses that the default policy admits.
pub open spec fn default_licenses() -> Seq<Seq<char>> {
    seq!["MIT"@, "Apache-2.0"@, "ISC"@, "BSD-3-Clause"@]
}

/// The hosts that the default policy trusts for tarballs.
pub open spec fn default_domains() -> Seq<Seq<char>> {
    seq!["github.com"@, "objects.githubusercontent.com"@, "registry.npmjs.org"@, "nodejs.org"@, "localhost"@]
}

fn owned_list(items: &[&str]) -> (r: Vec<String>)
    ensures
        r@.len() == items@.len(),
        forall|i: int| 0 <= i < items@.len() ==> #[trigger] r@[i]@ == items@[i]@,
{
    let mut r: Vec<String> = Vec::new();
    let mut i: usize = 0;
    while i < items.len()
        invariant
            i <= items@.len(),
            r@.len() == i,
            forall|k: int| 0 <= k < i ==> #[trigger] r@[k]@ == items@[k]@,
        decreases items@.len() - i,
    {
        r.push(items[i].to_owned());
        i += 1;
    }
    r
}

impl Default for Policy {
    /// Deprecated packages blocked, vulnerabilities from `high` up blocked, four permissive
    /// licenses, a day's wait after publication, no install scripts, no trust policy (a week's
    /// grace where one is set), five trusted hosts, the npm registry, no HTTPS import hosts.
    fn default() -> (p: Policy)
        ensures
            p.block_deprecated,
            p.min_severity@ == "high"@,
            p.blocked_packages@.len() == 0,
            crate::text::str_views(p.allowed_licenses@) == default_licenses(),
            p.minimum_release_age == 1440,
            !p.allow_postinstall,
            p.trusted_packages@.len() == 0,
            p.trust_policy@ == "none"@,
            p.trust_policy_exclude@.len() == 0,
            p.trust_policy_ignore_after == 10080,
            p.protected_packages@.len() == 0,
            crate::text::str_views(p.allowed_domains@) == default_domains(),
            p.registry@ == "npm"@,
            p.allowed_import_hosts@.len() == 0,
    {
        let licenses = owned_list(&["MIT", "Apache-2.0", "ISC", "BSD-3-Clause"]);
        let domains = owned_list(&[
            "github.com",
            "objects.githubusercontent.com",
            "registry.npmjs.org",
            "nodejs.org",
            "localhost",
        ]);
        let p = Policy {
            block_deprecated: true,
            min_severity: "high".to_owned(),
            blocked_packages: Vec::new(),
            allowed_licenses: licenses,
            minimum_release_age: 1440,
            allow_postinstall: false,
            trusted_packages: Vec::new(),
            trust_policy: "none".to_owned(),
            trust_policy_exclude: Vec::new(),
            trust_policy_ignore_after: 10080,
            protected_packages: Vec::new(),
            allowed_domains: domains,
            registry: "npm".to_owned(),
            allowed_import_hosts: Vec::new(),
        };
        assert(crate::text::str_views(p.allowed_licenses@) =~= default_licenses());
        assert(crate::text::str_views(p.allowed_domains@) =~= default_domains());
        p
    }
}

/// Every char of the text is ASCII.
pub open spec fn is_ascii_text(s: Seq<char>) -> bool {
    forall|i: int| 0 <= i < s.len() ==> (#[trigger] s[i] as int) < 128
}

/// An ASCII uppercase letter as its lowercase letter; any other char unchanged.
pub open spec fn ascii_lower_char(c: char) -> char {
    if 'A' <= c && c <= 'Z' { ((c as int) + 32) as char } else { c }
}

/// The text with its ASCII uppercase letters lowercased.
pub open spec fn ascii_lower(s: Seq<char>) -> Seq<char> {
    s.map_values(|c: char| ascii_lower_char(c))
}

/// What `str::to_lowercase` makes of a text that holds a char outside ASCII (Unicode's
/// lowercase mapping, with its context rules).
pub uninterp spec fn unicode_lowercase(s: Seq<char>) -> Seq<char>;

/// What a text turns into under `str::to_lowercase`: for ASCII text, `A`..`Z` become `a`..`z`
/// and every other char stays; other text by Unicode's mapping.
pub open spec fn lowercase(s: Seq<char>) -> Seq<char> {
    if is_ascii_text(s) { ascii_lower(s) } else { unicode_lowercase(s) }
}

/// `str::to_lowercase`. On ASCII text Unicode's lowercase mapping is the ASCII one.
#[verifier::external_body]
pub(crate) fn to_lowercase(s: &str) -> (r: String)
    ensures
        r@ == lowercase(s@),
        is_ascii_text(s@) ==> r@ == ascii_lower(s@),
        !is_ascii_text(s@) ==> r@ == unicode_lowercase(s@),
{
    s.to_lowercase()
}

/// The place of a severity on the scale `low`, `medium`, `high`, `critical` of the policy.
pub open spec fn policy_severity_index(s: Seq<char>) -> Option<nat> {
    if s == "low"@ {
        Some(0)
    } else if s == "medium"@ {
        Some(1)
    } else if s == "high"@ {
        Some(2)
    } else if s == "critical"@ {
        Some(3)
    } else {
        None
    }
}

/// The place of a severity on the scale `low`, `moderate`, `high`, `critical` of audits.
pub open spec fn audit_severity_index(s: Seq<char>) -> Option<nat> {
    if s == "low"@ {
        Some(0)
    } else if s == "moderate"@ {
        Some(1)
    } else if s == "high"@ {
        Some(2)
    } else if s == "critical"@ {
        Some(3)
    } else {
        None
    }
}

/// The index, or `default` where the severity is not on the scale.
pub open spec fn index_or(i: Option<nat>, default: nat) -> nat {
    match i {
        Some(n) => n,
        None => default,
    }
}

pub(crate) fn policy_severity_index_exec(s: &str) -> (r: Option<u8>)
    ensures
        (match r {
            Some(n) => policy_severity_index(s@) == Some(n as nat),
            None => policy_severity_index(s@) is None,
        }),
{
    if str_eq(s, "low") {
        Some(0)
    } else if str_eq(s, "medium") {
        Some(1)
    } else if str_eq(s, "high") {
        Some(2)
    } else if str_eq(s, "critical") {
        Some(3)
    } else {
        None
    }
}

fn audit_severity_index_exec(s: &str) -> (r: Option<u8>)
    ensures
        (match r {
            Some(n) => audit_severity_index(s@) == Some(n as nat),
            None => audit_severity_index(s@) is None,
        }),
{
    if str_eq(s, "low") {
        Some(0)
    } else if str_eq(s, "moderate") {
        Some(1)
    } else if str_eq(s, "high") {
        Some(2)
    } else if str_eq(s, "critical") {
        Some(3)
    } else {
        None
    }
}

/// Whether a finding of `severity` reaches the audit `threshold`: both are lowercased and
/// placed on the scale `low`, `moderate`, `high`, `critical`; an unknown severity counts as
/// `low`, an unknown threshold as `high`.
pub fn severity_meets_threshold(severity: &str, threshold: &str) -> (r: bool)
    ensures
        r == (index_or(audit_severity_index(lowercase(severity@)), 0)
            >= index_or(audit_severity_index(lowercase(threshold@)), 2)),
{
    let s = to_lowercase(severity);
    let t = to_lowercase(threshold);
    let si: u8 = match audit_severity_index_exec(s.as_str()) {
        Some(n) => n,
        None => 0,
    };
    let ti: u8 = match audit_severity_index_exec(t.as_str()) {
        Some(n) => n,
        None => 2,
    };
    si >= ti
}

/// A finding whose severity lowercases to `critical` meets every threshold.
pub proof fn lemma_critical_meets_all(severity: Seq<char>, threshold: Seq<char>)
    requires
        lowercase(severity) == "critical"@,
    ensures
        index_or(audit_severity_index(lowercase(severity)), 0)
            >= index_or(audit_severity_index(lowercase(threshold)), 2),
{
    reveal_strlit("critical");
    reveal_strlit("low");
    reveal_strlit("moderate");
    reveal_strlit("high");
    assert("critical"@.len() == 8);
    assert("low"@.len() == 3);
    assert("moderate"@.len() == 8);
    assert("high"@.len() == 4);
    assert("critical"@[0] != "moderate"@[0]);
}

} // verus!
