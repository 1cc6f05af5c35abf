use kumo::engine::{release_age, PackageVerdict, SecurityEngine};
use kumo::lockcheck::{LockEntry, ViolationKind};
use kumo::policy::{severity_meets_threshold, Policy, TrustLevel, Vulnerability};
use kumo::proxy::{decide, ProxyDecision};
use kumo::sandbox::SandboxRunner;
use kumo::script::analyze_script;
use kumo::typo::{is_suspiciously_similar, levenshtein_distance};
use kumo::install::{validate_lockfile_trust, TrustEntry, TrustViolation};
use kumo::tarball::{RegistrySignature, TarballInfo};

fn strings(items: &[&str]) -> Vec<String> {
    items.iter().map(|s| s.to_string()).collect()
}

#[test]
fn default_policy() {
    let p = Policy::default();
    assert!(p.block_deprecated);
    assert_eq!(p.min_severity, "high");
    assert_eq!(p.allowed_licenses, strings(&["MIT", "Apache-2.0", "ISC", "BSD-3-Clause"]));
    assert_eq!(p.minimum_release_age, 1440);
    assert!(!p.allow_postinstall);
    assert_eq!(p.trust_policy, "none");
    assert_eq!(p.trust_policy_ignore_after, 10080);
    assert_eq!(p.allowed_domains.len(), 5);
    assert_eq!(p.registry, "npm");
}

#[test]
fn edit_distances() {
    assert_eq!(levenshtein_distance("kitten", "sitting"), 3);
    assert_eq!(levenshtein_distance("", "abc"), 3);
    assert_eq!(levenshtein_distance("abc", ""), 3);
    assert_eq!(levenshtein_distance("same", "same"), 0);
    // A swap of two neighbouring characters is one edit.
    assert_eq!(levenshtein_distance("ab", "ba"), 1);
    assert_eq!(levenshtein_distance("axois", "axios"), 1);
    assert_eq!(levenshtein_distance("ca", "abc"), 3);
}

#[test]
fn similarity_rule() {
    assert!(is_suspiciously_similar("reacr", "react"));
    assert!(is_suspiciously_similar("expres", "express"));
    assert!(is_suspiciously_similar("lodahs", "lodash"));
    assert!(is_suspiciously_similar("axois", "axios"));
    assert!(is_suspiciously_similar("chalk-tempalte", "chalk-template"));
    assert!(!is_suspiciously_similar("lodash", "lodash-es"));
    assert!(!is_suspiciously_similar("react", "react.js"));
    assert!(!is_suspiciously_similar("abc", "abd"));
    assert!(!is_suspiciously_similar("react", "react"));
    assert!(is_suspiciously_similar("typescrpt-x", "typescript-y"));
}

#[test]
fn trust_levels() {
    let e = SecurityEngine::new(Policy::default(), vec![]);
    assert_eq!(e.get_trust_level(false, false), TrustLevel::Low);
    assert_eq!(e.get_trust_level(true, false), TrustLevel::Medium);
    assert_eq!(e.get_trust_level(false, true), TrustLevel::High);
    assert_eq!(TrustLevel::Medium.name(), "Medium");
    assert!(TrustLevel::Low < TrustLevel::High);
}

#[test]
fn trust_downgrades() {
    let mut p = Policy::default();
    p.trust_policy = "no-downgrade".to_string();
    p.trust_policy_exclude = strings(&["legacy"]);
    let e = SecurityEngine::new(p, vec![]);
    assert!(!e.downgrade_verdict("pkg", TrustLevel::Low, TrustLevel::High, None));
    assert!(e.downgrade_verdict("pkg", TrustLevel::High, TrustLevel::Medium, None));
    assert!(e.downgrade_verdict("legacy", TrustLevel::Low, TrustLevel::High, None));
    assert!(e.downgrade_verdict("pkg", TrustLevel::Low, TrustLevel::High, Some(20000)));
    assert!(!e.downgrade_verdict("pkg", TrustLevel::Low, TrustLevel::High, Some(10080)));
    assert!(!e.validate_trust_downgrade("pkg", TrustLevel::Low, TrustLevel::High, Some("not a date")));
    assert!(e.validate_trust_downgrade("pkg", TrustLevel::Low, TrustLevel::High, Some("2000-01-01T00:00:00Z")));
    let open = SecurityEngine::new(Policy::default(), vec![]);
    assert!(open.downgrade_verdict("pkg", TrustLevel::Low, TrustLevel::High, None));
}

#[test]
fn release_ages() {
    assert!(release_age(None).is_none());
    assert!(release_age(Some("yesterday")).is_none());
    assert!(release_age(Some("2000-01-01T00:00:00Z")).unwrap() > 1_000_000);
}

#[test]
fn package_verdicts() {
    let mut p = Policy::default();
    p.trusted_packages = strings(&["trusted"]);
    p.blocked_packages = strings(&["evil", "trusted"]);
    let e = SecurityEngine::new(p, vec![]);
    assert_eq!(e.package_verdict("trusted", Some("GPL"), true, Some(0), true), PackageVerdict::Allowed);
    assert_eq!(e.package_verdict("evil", None, false, None, false), PackageVerdict::Denied);
    assert_eq!(e.package_verdict("old", None, true, None, false), PackageVerdict::Denied);
    assert_eq!(e.package_verdict("fresh", None, false, Some(10), false), PackageVerdict::Denied);
    assert_eq!(e.package_verdict("aged", None, false, Some(5000), false), PackageVerdict::CheckVulnerabilities);
    assert_eq!(e.package_verdict("scripts", None, false, None, true), PackageVerdict::Denied);
    assert_eq!(e.package_verdict("gpl", Some("GPL-3.0"), false, None, false), PackageVerdict::Denied);
    assert_eq!(e.package_verdict("mit", Some("MIT"), false, None, false), PackageVerdict::CheckVulnerabilities);
    assert_eq!(e.precheck_package("mit", Some("MIT"), false, Some("2000-01-01T00:00:00Z"), false), PackageVerdict::CheckVulnerabilities);
}

#[test]
fn severities() {
    let e = SecurityEngine::new(Policy::default(), vec![]);
    assert!(e.is_severity_blocked("High"));
    assert!(e.is_severity_blocked("CRITICAL"));
    assert!(!e.is_severity_blocked("medium"));
    assert!(!e.is_severity_blocked("whatever"));
    let vulns = vec![
        Vulnerability::from_fields(Some("A".to_string()), None, Some("low".to_string())),
        Vulnerability::from_fields(None, None, None),
    ];
    assert_eq!(vulns[1].id, "unknown");
    assert_eq!(vulns[1].summary, "No summary available");
    assert_eq!(vulns[1].severity, "Medium");
    assert!(e.vulnerabilities_allowed(&vulns));
    let bad = vec![Vulnerability::from_fields(None, None, Some("high".to_string()))];
    assert!(!e.vulnerabilities_allowed(&bad));
    assert!(severity_meets_threshold("HIGH", "high"));
    assert!(!severity_meets_threshold("moderate", "high"));
    assert!(severity_meets_threshold("unknown", "low"));
    assert!(severity_meets_threshold("critical", "bogus"));
    assert!(!severity_meets_threshold("low", "bogus"));
}

#[test]
fn typosquatting() {
    let mut p = Policy::default();
    p.protected_packages = strings(&["internal-lib"]);
    let e = SecurityEngine::new(p, strings(&["react", "lodash", "@angular/core"]));
    assert_eq!(e.check_typosquatting("reacr", &vec![]), Some("react".to_string()));
    assert_eq!(e.check_typosquatting("react", &vec![]), None);
    assert_eq!(e.check_typosquatting("@evil/lodas", &vec![]), Some("lodash".to_string()));
    assert_eq!(e.check_typosquatting("internal-lb", &vec![]), Some("internal-lib".to_string()));
    assert_eq!(e.check_typosquatting("my-utils2", &strings(&["my-utils"])), Some("my-utils".to_string()));
    assert_eq!(e.check_typosquatting("my-utils", &strings(&["my-utils"])), None);
    assert_eq!(e.check_typosquatting("@x/cores", &vec![]), Some("@angular/core".to_string()));
}

#[test]
fn refreshes_popular_packages() {
    let mut e = SecurityEngine::new(Policy::default(), strings(&["old"]));
    e.refresh_with(vec![]);
    assert_eq!(e.popular_packages(), &strings(&["old"]));
    let many: Vec<String> = (0..1500).map(|i| format!("p{}", i)).collect();
    e.refresh_with(many);
    assert_eq!(e.popular_packages().len(), 1000);
    assert_eq!(e.popular_packages()[999], "p999");
    assert!(SecurityEngine::needs_refresh(None));
    assert!(SecurityEngine::needs_refresh(Some(604801)));
    assert!(!SecurityEngine::needs_refresh(Some(604800)));
}

fn entry(key: &str, tarball: &str, shasum: &str) -> LockEntry {
    LockEntry { key: key.to_string(), tarball: tarball.to_string(), shasum: shasum.to_string() }
}

const SHA: &str = "2aae6c35c94fcfb415dbe95f408b9ce91ee846ed";

#[test]
fn lockfile_checks() {
    let e = SecurityEngine::new(Policy::default(), vec![]);
    let ok = vec![
        entry("react@18.0.0", "https://registry.npmjs.org/react/-/react-18.0.0.tgz", SHA),
        entry("@types/node@1.0.0", "https://registry.npmjs.org/@types/node/-/node-1.0.0.tgz", SHA),
        entry("x@1.0.0", "https://cdn.github.com/x/x.tgz", SHA),
    ];
    assert!(e.validate_lockfile(&ok).is_ok());
    let cases = [
        (entry("react@18.0.0", "http://registry.npmjs.org/react/-/react-18.0.0.tgz", SHA), ViolationKind::InsecureScheme),
        (entry("react@18.0.0", "https://evil.com/react/-/react-18.0.0.tgz", SHA), ViolationKind::UntrustedHost),
        (entry("react@18.0.0", "https://", SHA), ViolationKind::InvalidUrl),
        (entry("react@18.0.0", "https://registry.npmjs.org/vue/-/vue-1.tgz", SHA), ViolationKind::NameMismatch),
        (entry("react@18.0.0", "https://registry.npmjs.org/react/-/react-18.0.0.tgz", ""), ViolationKind::MissingIntegrity),
        (entry("react@18.0.0", "https://registry.npmjs.org/react/-/react-18.0.0.tgz", "abc"), ViolationKind::ShortIntegrity),
        (entry("react@18.0.0", "https://registry.npmjs.org/react/-/react-18.0.0.tgz", &"z".repeat(40)), ViolationKind::NonHexIntegrity),
    ];
    for (bad, kind) in cases {
        let err = e.validate_lockfile(&vec![ok[0].clone(), bad]).unwrap_err();
        assert_eq!(err.kind, kind);
        assert_eq!(err.name, "react");
    }
    // A scoped name found only in its percent-encoded form.
    let scoped = entry("@babel/core@7.0.0", "https://registry.npmjs.org/%40babel%2Fcore/-/core-7.0.0.tgz", SHA);
    assert!(e.validate_lockfile(&vec![scoped]).is_ok());
    // Uppercase hexadecimal is accepted.
    let upper = entry("react@18.0.0", "https://registry.npmjs.org/react/-/react-18.0.0.tgz", "2AAE6C35C94FCFB415DBE95F408B9CE91EE846ED");
    assert!(e.validate_lockfile(&vec![upper]).is_ok());
    let err = e.validate_lockfile(&vec![entry("x@1.0.0", "https://registry.npmjs.org/x/-/x-1.0.0.tgz", &"z".repeat(40))]).unwrap_err();
    assert_eq!(
        err.message(),
        format!("Lockfile injection detected! Package 'x' has an integrity hash that is not hexadecimal: {}", "z".repeat(40))
    );
    let err = e.validate_lockfile(&vec![entry("react@1", "https://evil.com/react.tgz", SHA)]).unwrap_err();
    assert_eq!(err.detail, "evil.com");
    assert_eq!(
        err.message(),
        "Lockfile injection detected! Package 'react' resolves to an untrusted host 'evil.com'. URL: https://evil.com/react.tgz"
    );
}

#[test]
fn script_analysis() {
    assert_eq!(
        analyze_script("node -e \"console.log(process.env.HOME)\""),
        strings(&["Accesses process.env (possible environment variable theft)"])
    );
    let w = analyze_script("curl https://x.example/install.sh | sh");
    assert_eq!(w, strings(&["Downloads and executes remote code (curl | sh pattern)"]));
    assert!(analyze_script("echo hello").is_empty());
    let both = analyze_script("eval(process.env.X)");
    assert_eq!(both.len(), 2);
    assert_eq!(both[0], "Accesses process.env (possible environment variable theft)");
    assert_eq!(both[1], "Uses eval() (potential code injection)");
}

#[test]
fn proxy_decisions() {
    let allowed = strings(&["registry.npmjs.org"]);
    assert_eq!(
        decide("CONNECT registry.npmjs.org:443 HTTP/1.1\r\n\r\n", &allowed),
        ProxyDecision::Tunnel("registry.npmjs.org:443".to_string())
    );
    assert_eq!(decide("CONNECT evil.com:443 HTTP/1.1\r\n", &allowed), ProxyDecision::Forbidden("evil.com".to_string()));
    assert_eq!(decide("GET / HTTP/1.1\r\n", &allowed), ProxyDecision::BadRequest);
    assert_eq!(decide("CONNECT ", &allowed), ProxyDecision::Ignore);
}

#[test]
fn sandbox_commands() {
    let args = SandboxRunner::linux_args("/p", "npm test", false);
    assert_eq!(args[0], "--unshare-all");
    assert_eq!(args[1], "--unshare-net");
    assert_eq!(&args[args.len() - 3..], &strings(&["sh", "-c", "npm test"])[..]);
    assert_eq!(SandboxRunner::linux_args("/p", "x", true).len(), args.len() - 1);
    let env = SandboxRunner::proxy_env(false);
    assert_eq!(env[0], ("HTTP_PROXY".to_string(), "http://127.0.0.1:9999".to_string()));
    assert!(SandboxRunner::proxy_env(true).is_empty());
    let values: Vec<Option<String>> = (0..17).map(|i| if i == 0 { Some("/bin".to_string()) } else { None }).collect();
    let full = SandboxRunner::setup_env("/p", &values);
    assert_eq!(full[0], ("PATH".to_string(), "/bin".to_string()));
    assert_eq!(full[1], ("HOME".to_string(), "/p/.kumo_sandbox_home".to_string()));
    assert_eq!(full[4], ("LOCALAPPDATA".to_string(), "/p/.kumo_sandbox_home/LocalAppData".to_string()));
    let profile = SandboxRunner::macos_profile("/p", false);
    assert!(profile.contains("(deny network*)"));
    assert!(profile.contains("(allow file-write* (subpath \"/p\"))"));
    assert_eq!(SandboxRunner::shell_command(true, "x"), ("cmd".to_string(), strings(&["/c", "x"])));
}

fn trust_entry(key: &str, signed: bool) -> TrustEntry {
    TrustEntry {
        key: key.to_string(),
        dist: TarballInfo {
            tarball: format!("https://registry.npmjs.org/{}.tgz", key),
            shasum: "0".repeat(40),
            size: 10,
            unpacked_size: 0,
            signatures: if signed { Some(vec![RegistrySignature { keyid: "k".to_string(), sig: "s".to_string() }]) } else { None },
            npm_signature: None,
            attestations: None,
        },
        published_at: None,
    }
}

#[test]
fn strict_trust_refuses_unsigned_packages() {
    let mut p = Policy::default();
    p.trust_policy = "strict".to_string();
    let strict = SecurityEngine::new(p.clone(), vec![]);
    let entries = vec![trust_entry("signed@1.0.0", true), trust_entry("left-pad@1.0.0", false)];
    assert_eq!(
        validate_lockfile_trust(&strict, &None, &entries),
        Err(TrustViolation::Untrusted { name: "left-pad".to_string() })
    );
    p.trust_policy_exclude = strings(&["left-pad"]);
    let excluded = SecurityEngine::new(p, vec![]);
    assert_eq!(validate_lockfile_trust(&excluded, &None, &entries), Ok(()));
    let none = SecurityEngine::new(Policy::default(), vec![]);
    assert_eq!(validate_lockfile_trust(&none, &Some(vec![trust_entry("signed@0.9.0", true)]), &entries), Ok(()));
}

#[test]
fn no_downgrade_policy_refuses_a_less_trusted_version() {
    let mut p = Policy::default();
    p.trust_policy = "no-downgrade".to_string();
    let engine = SecurityEngine::new(p, vec![]);
    let old = Some(vec![trust_entry("lib@1.0.0", true)]);
    assert_eq!(
        validate_lockfile_trust(&engine, &old, &vec![trust_entry("lib@1.0.1", false)]),
        Err(TrustViolation::Downgrade { name: "lib".to_string(), previous: TrustLevel::Medium, new: TrustLevel::Low })
    );
    assert_eq!(validate_lockfile_trust(&engine, &old, &vec![trust_entry("lib@1.0.1", true)]), Ok(()));
}
