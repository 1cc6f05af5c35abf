use kumo::range::{normalize_hyphen_range, normalize_npm_semver_clause, normalize_version_str};
use kumo::resolve::{resolve_step, try_resolve_step, ResolveError, ResolveStep, TreeState, ResolvedPackage};
use kumo::versions::{parse_version, parse_version_reqs, try_parse_version_reqs};

#[test]
fn test_parse_version_reqs() {
    let reqs = parse_version_reqs("^0.34.5").unwrap();
    let v = "0.34.5";
    assert!(reqs.iter().any(|r| r.matches(v)));

    let reqs_v = parse_version_reqs("v0.34.5").unwrap();
    assert!(reqs_v.iter().any(|r| r.matches(v)));

    let reqs_space = parse_version_reqs("^ 0.34.5").unwrap();
    assert!(reqs_space.iter().any(|r| r.matches(v)));

    let reqs_hyphen = parse_version_reqs("1 - 3").unwrap();
    let v1 = "1.0.0";
    let v2 = "2.5.0";
    let v3 = "3.9.9";
    let v4 = "4.0.0";
    assert!(reqs_hyphen.iter().any(|r| r.matches(v1)));
    assert!(reqs_hyphen.iter().any(|r| r.matches(v2)));
    assert!(reqs_hyphen.iter().any(|r| r.matches(v3)));
    assert!(!reqs_hyphen.iter().any(|r| r.matches(v4)));

    let reqs_hyphen_full = parse_version_reqs("1.0.0 - 2.0.0").unwrap();
    assert!(reqs_hyphen_full.iter().any(|r| r.matches(v1)));
    assert!(reqs_hyphen_full.iter().any(|r| r.matches("2.0.0")));
    assert!(!reqs_hyphen_full.iter().any(|r| r.matches("2.0.1")));

    let reqs_spaces = parse_version_reqs(">= 1.0.0 < 2.0.0").unwrap();
    assert!(reqs_spaces.iter().any(|r| r.matches(v1)));
    assert!(!reqs_spaces.iter().any(|r| r.matches("2.0.0")));

    let reqs_or = parse_version_reqs("1 - 3 || ^4.0.0").unwrap();
    assert!(reqs_or.iter().any(|r| r.matches(v2)));
    assert!(reqs_or.iter().any(|r| r.matches(v4)));
}

#[test]
fn normalizes_partial_versions() {
    assert_eq!(normalize_version_str("1"), "1.0.0");
    assert_eq!(normalize_version_str("1.2"), "1.2.0");
    assert_eq!(normalize_version_str("v1.2.3"), "1.2.3");
    assert_eq!(normalize_version_str("1.x"), "1.*");
    assert_eq!(normalize_version_str(""), "*");
    assert_eq!(normalize_version_str("X"), "*");
    assert_eq!(normalize_version_str("1-beta"), "1.0.0-beta");
    assert_eq!(normalize_version_str("1.2.3-beta"), "1.2.3-beta");
    assert_eq!(normalize_version_str("1.x.3"), "1.*.3");
}

#[test]
fn normalizes_hyphen_ranges() {
    assert_eq!(normalize_hyphen_range("1", "3"), ">=1.0.0, <4.0.0");
    assert_eq!(normalize_hyphen_range("1.0.0", "2.0.0"), ">=1.0.0, <=2.0.0");
    assert_eq!(normalize_hyphen_range("1.2", "1.4"), ">=1.2.0, <1.5.0");
}

#[test]
fn normalizes_clauses() {
    assert_eq!(normalize_npm_semver_clause(">= 1.0.0 < 2.0.0"), ">=1.0.0,<2.0.0");
    assert_eq!(normalize_npm_semver_clause("^ 0.34.5"), "^0.34.5");
    assert_eq!(normalize_npm_semver_clause("<=1"), "<2.0.0");
    assert_eq!(normalize_npm_semver_clause("<=1.2"), "<1.3.0");
    assert_eq!(normalize_npm_semver_clause("1.x"), "1.*");
    assert_eq!(normalize_npm_semver_clause(" 1 - 3 "), ">=1.0.0, <4.0.0");
}

#[test]
fn star_ranges_read_as_star() {
    for r in ["", "  ", "*", "x", "X", "latest"] {
        let reqs = parse_version_reqs(r).unwrap();
        assert_eq!(reqs.len(), 1);
        assert_eq!(reqs[0].as_str(), "*");
        assert!(reqs[0].matches("1.2.3"));
        assert!(!reqs[0].matches("1.2.3-alpha"));
    }
}

#[test]
fn invalid_range_reports_first_bad_clause() {
    let err = match parse_version_reqs("^1.0.0 || beta") {
        Err(e) => e,
        Ok(_) => panic!("expected an error"),
    };
    assert_eq!(err.range, "^1.0.0 || beta");
    assert_eq!(err.normalized, "beta");
    assert!(err.message().starts_with("Invalid semver range '^1.0.0 || beta' (normalized: 'beta'): "));
}

#[test]
fn overflowing_range_is_not_read() {
    assert!(try_parse_version_reqs("<=18446744073709551615").is_none());
    assert!(try_parse_version_reqs("<=1").is_some());
    // an earlier refused clause stops the reading before the overflow
    assert!(matches!(try_parse_version_reqs("beta || <=18446744073709551615"), Some(Err(_))));
}

#[test]
fn parses_versions() {
    let v = parse_version("1.2.3-rc.1+build.5").unwrap();
    assert_eq!((v.major, v.minor, v.patch), (1, 2, 3));
    assert_eq!(v.pre, "rc.1");
    assert_eq!(v.build, "build.5");
    assert_eq!(v.to_text(), "1.2.3-rc.1+build.5");
    assert_eq!(parse_version("1.2.3").unwrap().to_text(), "1.2.3");
    assert!(parse_version("1.2").is_none());
    assert!(parse_version("v1.2.3").is_none());
}

fn tags(pairs: &[(&str, &str)]) -> Vec<(String, String)> {
    pairs.iter().map(|(a, b)| (a.to_string(), b.to_string())).collect()
}

fn strings(items: &[&str]) -> Vec<String> {
    items.iter().map(|s| s.to_string()).collect()
}

#[test]
fn resolves_greatest_matching_version() {
    let t = tags(&[("latest", "2.0.0")]);
    let v = strings(&["1.0.0", "1.5.0", "2.0.0", "1.4.9"]);
    match resolve_step("pkg", &t, &v, "^1.0.0", false, 1) {
        ResolveStep::Found(s) => assert_eq!(s, "1.5.0"),
        _ => panic!("expected a version"),
    }
    match resolve_step("pkg", &t, &v, "latest", false, 1) {
        ResolveStep::Found(s) => assert_eq!(s, "2.0.0"),
        _ => panic!("expected a version"),
    }
    match resolve_step("pkg", &t, &v, "", false, 1) {
        ResolveStep::Found(s) => assert_eq!(s, "2.0.0"),
        _ => panic!("expected a version"),
    }
}

#[test]
fn refetches_once_from_cache_then_fails() {
    let t = tags(&[("latest", "2.0.0")]);
    let v = strings(&["1.0.0", "2.0.0"]);
    assert!(matches!(resolve_step("pkg", &t, &v, "^3.0.0", true, 1), ResolveStep::Refetch));
    match resolve_step("pkg", &t, &v, "^3.0.0", true, 2) {
        ResolveStep::Failed(ResolveError::NoMatch { range, name }) => {
            assert_eq!(range, "^3.0.0");
            assert_eq!(name, "pkg");
        },
        _ => panic!("expected no match"),
    }
    match resolve_step("pkg", &t, &v, "^3.0.0", false, 1) {
        ResolveStep::Failed(e) => assert_eq!(e.message(), "No version matching ^3.0.0 found for pkg"),
        _ => panic!("expected a failure"),
    }
}

#[test]
fn resolution_errors() {
    let v = strings(&["1.0.0"]);
    match resolve_step("pkg", &tags(&[]), &v, "beta", false, 1) {
        ResolveStep::Failed(e) => assert_eq!(e.message(), "Invalid semver range: beta"),
        _ => panic!("expected an invalid range"),
    }
    match resolve_step("pkg", &tags(&[]), &v, "latest", false, 1) {
        ResolveStep::Failed(e) => assert_eq!(e.message(), "No latest tag found for pkg"),
        _ => panic!("expected no latest tag"),
    }
    match resolve_step("pkg", &tags(&[("latest", "9.0.0")]), &v, "*", false, 1) {
        ResolveStep::Failed(e) => assert_eq!(e.message(), "Version data for 9.0.0 not found (resolved from latest tag)"),
        _ => panic!("expected missing data"),
    }
    match resolve_step("pkg", &tags(&[("1.x", "9.0.0")]), &v, "1.x", false, 1) {
        ResolveStep::Failed(e) => assert_eq!(e.message(), "Version data for 9.0.0 not found (resolved from tag 1.x)"),
        _ => panic!("expected missing data"),
    }
    match resolve_step("pkg", &tags(&[("next", "1.0.0")]), &v, "next", false, 1) {
        ResolveStep::Found(s) => assert_eq!(s, "1.0.0"),
        _ => panic!("expected the tagged version"),
    }
    assert!(try_resolve_step("pkg", &tags(&[]), &v, "<=18446744073709551615", false, 1).is_none());
}

#[test]
fn tree_walk_records_each_package_once() {
    let mut state = TreeState::new();
    let roots = strings(&["a"]);
    let meta = ResolvedPackage {
        name: "a".to_string(),
        version: "1.0.0".to_string(),
        compatible: true,
        dependencies: Some(tags(&[("b", "^1"), ("c", "^2")])),
        optional_dependencies: Some(tags(&[("c", "^3"), ("d", "1")])),
    };
    let step = state.step("a", &roots, &meta);
    assert!(step.inserted);
    assert_eq!(step.key, "a@1.0.0");
    assert_eq!(step.enqueue, tags(&[("b", "^1"), ("c", "^3"), ("d", "1")]));
    assert_eq!(state.roots, tags(&[("a", "1.0.0")]));
    let again = state.step("a", &roots, &meta);
    assert!(!again.inserted);
    assert!(again.enqueue.is_empty());
    assert_eq!(state.keys, strings(&["a@1.0.0"]));
    let skipped = ResolvedPackage { compatible: false, ..meta };
    let s = state.step("x", &roots, &skipped);
    assert!(!s.inserted);
    assert_eq!(state.keys.len(), 1);
}

fn package(name: &str, version: &str, compatible: bool, deps: &[(&str, &str)]) -> kumo::resolve::ResolvedPackage {
    kumo::resolve::ResolvedPackage {
        name: name.to_string(),
        version: version.to_string(),
        compatible,
        dependencies: Some(deps.iter().map(|(a, b)| (a.to_string(), b.to_string())).collect()),
        optional_dependencies: None,
    }
}

#[test]
fn tree_walk_records_reachable_compatible_packages() {
    let roots = vec![("a".to_string(), "^1".to_string()), ("b".to_string(), "^1".to_string())];
    let root_names = vec!["a".to_string(), "b".to_string()];
    let mut walk = kumo::resolve::TreeWalk::start(&roots);
    let mut order = Vec::new();
    while let Some((name, _range)) = walk.next_request() {
        let meta = match name.as_str() {
            "a" => package("a", "1.0.0", true, &[("c", "^2")]),
            "b" => package("b", "1.1.0", false, &[("d", "^1")]),
            "c" => package("c", "2.0.0", true, &[("a", "^1")]),
            _ => package(&name, "0.0.1", true, &[]),
        };
        let step = walk.advance(&root_names, &meta);
        order.push((name, step.inserted));
    }
    // `b` does not suit the platform, so `d` is never asked for; `a` is met twice.
    assert_eq!(walk.state.keys, vec!["a@1.0.0".to_string(), "c@2.0.0".to_string()]);
    assert_eq!(walk.state.roots, vec![("a".to_string(), "1.0.0".to_string())]);
    assert_eq!(order, vec![("b".to_string(), false), ("a".to_string(), true), ("c".to_string(), true), ("a".to_string(), false)]);
}

#[test]
fn sorted_versions_oldest_first() {
    let vs: Vec<String> = ["1.10.0", "1.2.0", "not-a-version", "1.2.0-beta.1", "0.9.0"].iter().map(|s| s.to_string()).collect();
    assert_eq!(
        kumo::resolve::sorted_available_versions(&vs),
        vec!["0.9.0", "1.2.0-beta.1", "1.2.0", "1.10.0"].into_iter().map(|s| s.to_string()).collect::<Vec<String>>()
    );
}
