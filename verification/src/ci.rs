//! The decisions of `ci`: whether the lockfile is in step with the manifest, which
//! vulnerabilities fail the audit, and how findings are reported.
use vstd::prelude::*;
use crate::text::str_eq;
use crate::policy::{lowercase, to_lowercase, severity_meets_threshold, audit_severity_index, index_or, Vulnerability};
use crate::commands::AuditFinding;

verus! {

/// Why a frozen install refuses to start.
#[derive(Clone, Copy, Debug, PartialEq, Eq, Structural)]
pub enum FrozenError {
    /// There is no lockfile.
    MissingLock,
    /// The lockfile records another configuration hash.
    OutOfSync,
}

/// Checks a frozen install: the lockfile must exist and, where it records the hash of the
/// configuration, record the current one.
pub fn frozen_check(lock_exists: bool, recorded_hash: Option<&str>, config_hash: &str) -> (r: Result<(), FrozenError>)
    ensures
        r == (if !lock_exists {
            Err(FrozenError::MissingLock)
        } else if recorded_hash matches Some(h) && h@ != config_hash@ {
            Err(FrozenError::OutOfSync)
        } else {
            Ok(())
        }),
{
    if !lock_exists {
        return Err(FrozenError::MissingLock);
    }
    match recorded_hash {
        Some(h) => if !str_eq(h, config_hash) { Err(FrozenError::OutOfSync) } else { Ok(()) },
        None => Ok(()),
    }
}

/// A vulnerability reaches the audit threshold (`high` where none is given).
pub open spec fn reaches(severity: Seq<char>, threshold: Option<Seq<char>>) -> bool {
    let t = match threshold { Some(t) => t, None => "high"@ };
    index_or(audit_severity_index(lowercase(severity)), 0) >= index_or(audit_severity_index(lowercase(t)), 2)
}

/// The findings of one package: its vulnerabilities that reach the threshold, in order.
pub open spec fn findings_of(vulns: Seq<Vulnerability>, threshold: Option<Seq<char>>) -> Seq<Vulnerability>
    decreases vulns.len(),
{
    if vulns.len() == 0 {
        Seq::empty()
    } else if reaches(vulns.last().severity@, threshold) {
        findings_of(vulns.drop_last(), threshold).push(vulns.last())
    } else {
        findings_of(vulns.drop_last(), threshold)
    }
}

/// The findings that the vulnerabilities of one package give: those that reach the threshold,
/// each with the package's name and version (see `findings_of`).
pub fn audit_findings(name: &str, version: &str, vulns: &Vec<Vulnerability>, threshold: Option<&str>) -> (r: Vec<AuditFinding>)
    ensures
        r@.len() == findings_of(vulns@, match threshold { Some(t) => Some(t@), None => None }).len(),
        forall|k: int| 0 <= k < r@.len() ==> {
            let v = findings_of(vulns@, match threshold { Some(t) => Some(t@), None => None })[k];
            &&& (#[trigger] r@[k]).package@ == name@
            &&& r@[k].version@ == version@
            &&& r@[k].vuln_id@ == v.id@
            &&& r@[k].severity@ == v.severity@
            &&& r@[k].summary@ == v.summary@
        },
{
    let ghost th = match threshold { Some(t) => Some(t@), None => None::<Seq<char>> };
    let t: &str = match threshold {
        Some(t) => t,
        None => "high",
    };
    let mut r: Vec<AuditFinding> = Vec::new();
    let mut i: usize = 0;
    while i < vulns.len()
        invariant
            i <= vulns@.len(),
            th == match threshold { Some(t) => Some(t@), None => None::<Seq<char>> },
            t@ == match th { Some(x) => x, None => "high"@ },
            r@.len() == findings_of(vulns@.take(i as int), th).len(),
            forall|k: int| 0 <= k < r@.len() ==> {
                let v = findings_of(vulns@.take(i as int), th)[k];
                &&& (#[trigger] r@[k]).package@ == name@
                &&& r@[k].version@ == version@
                &&& r@[k].vuln_id@ == v.id@
                &&& r@[k].severity@ == v.severity@
                &&& r@[k].summary@ == v.summary@
            },
        decreases vulns@.len() - i,
    {
        assert(vulns@.take(i + 1).drop_last() =~= vulns@.take(i as int));
        assert(vulns@.take(i + 1).last() == vulns@[i as int]);
        let v = &vulns[i];
        if severity_meets_threshold(v.severity.as_str(), t) {
            r.push(AuditFinding {
                package: name.to_owned(),
                version: version.to_owned(),
                vuln_id: v.id.clone(),
                severity: v.severity.clone(),
                summary: v.summary.clone(),
            });
        }
        i += 1;
    }
    assert(vulns@.take(vulns@.len() as int) =~= vulns@);
    r
}

/// The SARIF level of a finding: `error` for critical or high, `warning` for moderate, else
/// `note` (the severity taken lowercase).
pub fn sarif_level(severity: &str) -> (r: &'static str)
    ensures
        r@ == (if lowercase(severity@) == "critical"@ || lowercase(severity@) == "high"@ {
            "error"@
        } else if lowercase(severity@) == "moderate"@ {
            "warning"@
        } else {
            "note"@
        }),
{
    let l = to_lowercase(severity);
    if str_eq(l.as_str(), "critical") || str_eq(l.as_str(), "high") {
        "error"
    } else if str_eq(l.as_str(), "moderate") {
        "warning"
    } else {
        "note"
    }
}

impl AuditFinding {
    /// `<id> (<package>@<version>): <summary>`.
    pub fn message(&self) -> (r: String)
        ensures
            r@ == self.vuln_id@ + " ("@ + self.package@ + "@"@ + self.version@ + "): "@ + self.summary@,
    {
        let mut m = self.vuln_id.clone();
        m.append(" (");
        m.append(self.package.as_str());
        m.append("@");
        m.append(self.version.as_str());
        m.append("): ");
        m.append(self.summary.as_str());
        m
    }
}

} // verus!
