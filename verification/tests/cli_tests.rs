use kumo::ci::{audit_findings, frozen_check, sarif_level, FrozenError};
use kumo::commands::AuditFinding;
use kumo::install::{bin_name_for, gitignore_addition_for, has_install_scripts, referenced_script_files, select_winners, size_unit, total_size, validate_typosquatting, SizeUnit};
use kumo::kx::{answer_is_yes, bin_candidate_names, create_binary_name, exec_bin_name, kx_entry_expired, kx_winners, tarball_tail, BinField};
use kumo::policy::{Policy, Vulnerability};
use kumo::engine::SecurityEngine;
use kumo::publish::{poll_outcome, resolve_publish_registry, tarball_location_for, PollOutcome};
use kumo::reports::{classify_prune_entry, default_package_name_for, dependency_graph, files_to_lock, fix_decision, key_is_about_exec, object_intact, version_to_save, FixDecision, GraphPackage, PruneEntry};
use kumo::runtime::{get_node_binary_subpath, get_platform_arch, is_eol_version, node_archive_for, node_shim_for, release_dir_name_for, resolve_version, NodeRelease, RuntimeError};
use kumo::scripts::{cache_plan, menu_item_for, node_options_for, output_path_of, script_cache_key, script_command_for};
use kumo::setup::{choose_manifest, get_deps_dir, is_compatible, metadata_cache_file_for, needs_update_check, newer_version_for, policy_key_for, resolve_registry_url, select_release, shim_for, tag_version, Manifest};
use kumo::tarball::TarballInfo;
use kumo::digest::base64_encode;
use kumo::setup::{config_value, ConfigValue};
use kumo::reports::unlockable;
use kumo::upgrade::{classify_change, clean_current_version, parse_upgrade_args, pick_upgrade_target, update_range_version, upgraded_range_for, upgrade_query, ChangeType, UpgradeQuery};
use kumo::scripts::{kumo_dts_for, package_has_types, types_dir_name_for, TypesProbe};

fn strings(items: &[&str]) -> Vec<String> {
    items.iter().map(|s| s.to_string()).collect()
}

fn pairs(items: &[(&str, &str)]) -> Vec<(String, String)> {
    items.iter().map(|(a, b)| (a.to_string(), b.to_string())).collect()
}

#[test]
fn gitignore_entries() {
    assert_eq!(gitignore_addition_for("target\n", "dependencies"), Some("dependencies/\n".to_string()));
    assert_eq!(gitignore_addition_for("target", "dependencies"), Some("\ndependencies/\n".to_string()));
    assert_eq!(gitignore_addition_for("", "dependencies"), Some("dependencies/\n".to_string()));
    assert_eq!(gitignore_addition_for("a\n  dependencies/ \nb", "dependencies"), None);
    assert_eq!(gitignore_addition_for("dependencies\r\n", "dependencies"), None);
}

#[test]
fn winners_pick_root_then_newest() {
    let keys = strings(&["a@1.0.0", "a@2.0.0", "b@1.0.0", "a@bogus", "@s/c@1.0.0", "@s/c@1.10.0", "@s/c@1.9.0"]);
    let w = select_winners(&keys, &pairs(&[("a", "1.0.0")]));
    assert_eq!(w, pairs(&[("a", "a@1.0.0"), ("b", "b@1.0.0"), ("@s/c", "@s/c@1.10.0")]));
    let w2 = select_winners(&keys, &pairs(&[]));
    assert_eq!(w2[0], ("a".to_string(), "a@2.0.0".to_string()));
    let w3 = select_winners(&keys, &pairs(&[("a", "3.0.0")]));
    assert_eq!(w3[0], ("a".to_string(), "a@1.0.0".to_string()));
}

#[test]
fn install_helpers() {
    assert_eq!(bin_name_for("@scope/tool", '/'), "tool");
    assert_eq!(bin_name_for("tool", '/'), "tool");
    assert!(has_install_scripts(&strings(&["test", "postinstall"])));
    assert!(!has_install_scripts(&strings(&["test", "build"])));
    assert_eq!(referenced_script_files("node setup.js && node x.mjs --flag y.txt"), strings(&["setup.js", "x.mjs"]));
    assert_eq!(size_unit(2 * 1024 * 1024 * 1024), SizeUnit::Gigabytes);
    assert_eq!(size_unit(1024 * 1024), SizeUnit::Megabytes);
    assert_eq!(size_unit(10), SizeUnit::Kilobytes);
    let info = |size: u64, unpacked: u64| TarballInfo {
        tarball: String::new(), shasum: String::new(), size, unpacked_size: unpacked,
        signatures: None, npm_signature: None, attestations: None,
    };
    assert_eq!(total_size(&vec![info(10, 0), info(10, 30)]), 40);
}

#[test]
fn typosquatting_in_new_lockfiles() {
    let mut p = Policy::default();
    p.trusted_packages = strings(&["reakt"]);
    let e = SecurityEngine::new(p, strings(&["react"]));
    assert!(validate_typosquatting(&e, &None, &strings(&["react"]), &strings(&["react@18.0.0", "reakt@1.0.0"])).is_ok());
    let err = validate_typosquatting(&e, &None, &strings(&[]), &strings(&["reacr@1.0.0"])).unwrap_err();
    assert_eq!(err.name, "reacr");
    assert_eq!(err.similar_to, "react");
    assert!(err.message().contains("The package 'reacr' is suspiciously similar to the popular package 'react'."));
}

#[test]
fn kx_helpers() {
    assert_eq!(create_binary_name("vite"), "create-vite");
    assert_eq!(create_binary_name("@scope/app"), "@scope/create-app");
    assert_eq!(create_binary_name("@scope"), "@scope/create");
    assert_eq!(bin_candidate_names(true, "tsc"), strings(&["tsc.cmd", "tsc.exe", "tsc.bat", "tsc"]));
    assert_eq!(bin_candidate_names(false, "tsc"), strings(&["tsc"]));
    assert_eq!(exec_bin_name("@scope/tool", &BinField::Path), "tool");
    assert_eq!(exec_bin_name("@scope/tool", &BinField::Commands(strings(&["tool", "x"]))), "tool");
    assert_eq!(exec_bin_name("typescript", &BinField::Commands(strings(&["tsc", "tsserver"]))), "typescript");
    assert_eq!(exec_bin_name("create-vite", &BinField::Commands(strings(&["cva"]))), "cva");
    assert_eq!(exec_bin_name("pkg", &BinField::Absent), "pkg");
    assert_eq!(tarball_tail("https://r/x/-/x-1.0.0.tgz"), "x-1.0.0.tgz");
    assert!(answer_is_yes("  Y \n"));
    assert!(!answer_is_yes("yes"));
    assert!(kx_entry_expired(Some(604801)));
    assert!(!kx_entry_expired(None));
}

#[test]
fn kx_winners_prefer_requested_range() {
    let keys = strings(&["b@2.0.0", "b@1.5.0", "c@1.0.0", "c@1.0.1"]);
    let deps = Some(pairs(&[("b", "^1.0.0")]));
    let w = kx_winners(&keys, &deps);
    assert_eq!(w, pairs(&[("b", "b@1.5.0"), ("c", "c@1.0.1")]));
    let w2 = kx_winners(&keys, &None);
    assert_eq!(w2[0], ("b".to_string(), "b@2.0.0".to_string()));
    let text = kx_winners(&strings(&["d@x", "d@y"]), &None);
    assert_eq!(text[0], ("d".to_string(), "d@y".to_string()));
}

#[test]
fn runtime_versions() {
    let rel = |v: &str, lts: Option<&str>| NodeRelease { version: Some(v.to_string()), lts: lts.map(|s| s.to_string()), security: false };
    let releases = vec![rel("v20.1.0", None), rel("v18.2.0", Some("Hydrogen")), rel("v18.1.0", Some("Hydrogen"))];
    assert_eq!(resolve_version(&releases, "latest").unwrap(), "v20.1.0");
    assert_eq!(resolve_version(&releases, "LTS").unwrap(), "v18.2.0");
    assert_eq!(resolve_version(&releases, "hydrogen").unwrap(), "v18.2.0");
    assert_eq!(resolve_version(&releases, "18").unwrap(), "v18.2.0");
    assert_eq!(resolve_version(&releases, "v18.1.0").unwrap(), "v18.1.0");
    assert_eq!(resolve_version(&releases, "18.1.0").unwrap(), "v18.1.0");
    let err = resolve_version(&releases, "99").unwrap_err();
    assert_eq!(err, RuntimeError::Unresolved("99".to_string()));
    assert_eq!(err.message(), "Could not resolve Node.js version '99'. Use 'latest', 'lts', a codename, or a specific version number.");
    assert_eq!(resolve_version(&vec![], "latest").unwrap_err(), RuntimeError::NoReleases);
    assert_eq!(resolve_version(&releases[..1].to_vec(), "lts").unwrap_err(), RuntimeError::NoLts);
    assert!(is_eol_version("v20.1.0"));
    assert!(!is_eol_version("v22.0.0"));
    assert!(is_eol_version("abc"));
    assert_eq!(get_node_binary_subpath(false), "bin/node");
    assert_eq!(get_node_binary_subpath(true), "node.exe");
    assert_eq!(get_platform_arch("linux", "x86_64").unwrap(), ("linux", "x64"));
    assert_eq!(get_platform_arch("windows", "aarch64").unwrap(), ("win", "arm64"));
    assert_eq!(get_platform_arch("macos", "x86_64").unwrap(), ("darwin", "x64"));
    assert!(get_platform_arch("linux", "riscv64").is_err());
    let (name, ext, url) = node_archive_for("v20.1.0", "linux", "x64");
    assert_eq!(name, "node-v20.1.0-linux-x64");
    assert_eq!(ext, "tar.gz");
    assert_eq!(url, "https://nodejs.org/dist/v20.1.0/node-v20.1.0-linux-x64.tar.gz");
    assert_eq!(node_archive_for("v20.1.0", "win", "x64").1, "zip");
    assert_eq!(node_shim_for(false, "/n/bin/node"), ("node", "#!/bin/sh\nexec \"/n/bin/node\" \"$@\"".to_string()));
    assert_eq!(release_dir_name_for("18.1.0"), "v18.1.0");
    assert_eq!(release_dir_name_for("v18.1.0"), "v18.1.0");
}

#[test]
fn upgrade_decisions() {
    assert_eq!(classify_change("1.2.3", "2.0.0"), ChangeType::Major);
    assert_eq!(classify_change("1.2.3", "1.3.0"), ChangeType::Minor);
    assert_eq!(classify_change("1.2.3", "1.2.4"), ChangeType::Patch);
    assert_eq!(classify_change("1.2.3", "1.2.3"), ChangeType::UpToDate);
    assert_eq!(classify_change("abc", "abc"), ChangeType::UpToDate);
    assert_eq!(classify_change("abc", "1.0.0"), ChangeType::Major);
    assert_eq!(classify_change("1.0.0", "xyz"), ChangeType::Major);
    assert_eq!(update_range_version("^1.2.3", "2.0.0"), "^2.0.0");
    assert_eq!(update_range_version("latest", "2.0.0"), "^2.0.0");
    assert_eq!(update_range_version(">=1.0.0", "2.0.0"), ">=2.0.0");
    assert_eq!(update_range_version("1.2.3", "2.0.0"), "2.0.0");
    assert_eq!(update_range_version("  ~1.0 ", "1.5.0"), "~1.5.0");
    assert_eq!(upgraded_range_for(true, Some("^1.0.0"), "2.0.0"), "2.0.0");
    assert_eq!(upgraded_range_for(false, Some("^1.0.0"), "2.0.0"), "^2.0.0");
    assert_eq!(upgraded_range_for(false, None, "2.0.0"), "2.0.0");
    assert_eq!(upgraded_range_for(false, Some("1.0.0"), "2.0.0"), "2.0.0");
    let (kind, names) = parse_upgrade_args(&strings(&["react", "MINOR", "vue", "parch"]));
    assert_eq!(kind, Some(ChangeType::Patch));
    assert_eq!(names, strings(&["react", "vue"]));
    assert_eq!(clean_current_version("^1.2.3"), "1.2.3");
    let versions = strings(&["1.2.3", "1.2.4", "1.2.10", "1.3.0", "2.0.0"]);
    assert_eq!(pick_upgrade_target(ChangeType::Patch, "1.2.3", &versions), Some("1.2.10".to_string()));
    assert_eq!(pick_upgrade_target(ChangeType::Minor, "1.2.3", &versions), Some("1.3.0".to_string()));
    assert_eq!(pick_upgrade_target(ChangeType::Minor, "2.0.0", &versions), None);
    assert_eq!(ChangeType::UpToDate.label(), "up to date");
}

#[test]
fn ci_decisions() {
    assert_eq!(frozen_check(false, None, "h"), Err(FrozenError::MissingLock));
    assert_eq!(frozen_check(true, Some("x"), "h"), Err(FrozenError::OutOfSync));
    assert_eq!(frozen_check(true, Some("h"), "h"), Ok(()));
    assert_eq!(frozen_check(true, None, "h"), Ok(()));
    let vulns = vec![
        Vulnerability::from_fields(Some("V1".to_string()), Some("bad".to_string()), Some("critical".to_string())),
        Vulnerability::from_fields(Some("V2".to_string()), None, Some("moderate".to_string())),
    ];
    let f = audit_findings("pkg", "1.0.0", &vulns, None);
    assert_eq!(f.len(), 1);
    assert_eq!(f[0].vuln_id, "V1");
    assert_eq!(audit_findings("pkg", "1.0.0", &vulns, Some("moderate")).len(), 2);
    assert_eq!(sarif_level("HIGH"), "error");
    assert_eq!(sarif_level("moderate"), "warning");
    assert_eq!(sarif_level("low"), "note");
    let finding = AuditFinding {
        package: "p".to_string(), version: "1".to_string(), vuln_id: "ID".to_string(),
        severity: "high".to_string(), summary: "s".to_string(),
    };
    assert_eq!(finding.message(), "ID (p@1): s");
}

#[test]
fn publish_decisions() {
    assert_eq!(resolve_publish_registry(None, "https://registry.npmjs.org").unwrap(), "https://kumo.unsetsoft.com");
    assert_eq!(resolve_publish_registry(Some("https://kumo.unsetsoft.com/"), "x").unwrap(), "https://kumo.unsetsoft.com");
    assert!(resolve_publish_registry(Some("https://other.example"), "x").is_err());
    let (file, url) = tarball_location_for("https://kumo.unsetsoft.com", "@me/pkg", "1.0.0");
    assert_eq!(file, "pkg-1.0.0.tgz");
    assert_eq!(url, "https://kumo.unsetsoft.com/@me/pkg/-/pkg-1.0.0.tgz");
    assert_eq!(poll_outcome(Some("done"), Some("t")), PollOutcome::Authorized("t".to_string()));
    assert_eq!(poll_outcome(Some("failed"), None), PollOutcome::Denied);
    assert_eq!(poll_outcome(None, Some("t")), PollOutcome::Pending);
    assert_eq!(poll_outcome(Some("done"), None), PollOutcome::Pending);
}

#[test]
fn report_helpers() {
    let pkgs = vec![
        GraphPackage { key: "a@1.0.0".to_string(), dependencies: Some(pairs(&[("b", "^1")])) },
        GraphPackage { key: "b@1.2.0".to_string(), dependencies: Some(pairs(&[("zz", "^2")])) },
    ];
    let dot = dependency_graph(&pairs(&[("a", "1.0.0")]), &pkgs);
    assert_eq!(
        dot,
        "digraph G {\n  node [shape=box, fontname=\"Arial\"];\n  \"Project\" -> \"a@1.0.0\";\n  \"a@1.0.0\" -> \"b@1.2.0\";\n  \"b@1.2.0\" -> \"zz@^2\";\n}\n"
    );
    assert!(key_is_about_exec("react@18.0.0", "react"));
    assert!(key_is_about_exec("react", "react"));
    assert!(!key_is_about_exec("react-dom@18.0.0", "react"));
    assert_eq!(version_to_save("latest", "1.2.3"), "^1.2.3");
    assert_eq!(version_to_save("1.2", "1.2.3"), "^1.2");
    assert_eq!(version_to_save("~1.2", "1.2.3"), "~1.2");
    assert_eq!(fix_decision("1.0.0", Some("2.0.0"), false), FixDecision::Upgrade("^2.0.0".to_string()));
    assert_eq!(fix_decision("1.0.0", Some("1.0.0"), false), FixDecision::AlreadyLatest);
    assert_eq!(fix_decision("1.0.0", Some("2.0.0"), true), FixDecision::LatestVulnerable);
    assert_eq!(fix_decision("1.0.0", None, false), FixDecision::Unresolved);
    assert_eq!(classify_prune_entry("node_modules", true, false, "dependencies", false), PruneEntry::Delete);
    assert_eq!(classify_prune_entry(".git", true, false, "dependencies", false), PruneEntry::Skip);
    assert_eq!(classify_prune_entry("src", true, false, "dependencies", false), PruneEntry::Descend);
    assert_eq!(classify_prune_entry("kumo.lock", false, true, "dependencies", true), PruneEntry::Delete);
    assert_eq!(classify_prune_entry("kumo.lock", false, true, "dependencies", false), PruneEntry::Skip);
    assert_eq!(files_to_lock(None), strings(&["kumo.config.json", "kumo.lock"]));
    assert!(object_intact("af", "1349b9f5f9a1a6a0404dea36dcc9499bcb25c9adc112b7cc9a93cae41f3262", b""));
    assert!(!object_intact("00", "11", b""));
    assert_eq!(default_package_name_for(Some("My Project")), "my-project");
    assert_eq!(default_package_name_for(None), "project");
}

#[test]
fn script_helpers() {
    let plan = cache_plan("build", None);
    assert!(plan.use_cache);
    assert_eq!(plan.inputs.len(), 12);
    assert_eq!(plan.inputs[0], "src/**/*");
    assert_eq!(plan.inputs[11], ".env*");
    assert_eq!(plan.outputs, strings(&["dist", "build", ".next"]));
    assert!(!cache_plan("test", None).use_cache);
    let custom = cache_plan("test", Some((strings(&["a"]), strings(&["out"]))));
    assert!(custom.use_cache && custom.inputs == strings(&["a"]));
    assert_eq!(output_path_of("dist/**"), "dist");
    assert_eq!(output_path_of("dist/*"), "dist");
    assert_eq!(output_path_of("dist//"), "dist");
    assert_eq!(node_options_for("/p/api.mjs", ""), "--import file:///p/api.mjs");
    assert_eq!(node_options_for("/p/api.mjs", "--x"), "--import file:///p/api.mjs --x");
    assert_eq!(script_command_for(false, "tsc", &strings(&["-p", "."])), ("sh".to_string(), strings(&["-c", "tsc", "-p", "."])));
    assert_eq!(menu_item_for("build", "tsc"), "build           tsc");
    assert_eq!(menu_item_for("a-very-long-script-name", "x"), "a-very-long-script-name x");
}

#[test]
fn setup_decisions() {
    assert_eq!(resolve_registry_url(None, None, None), "https://registry.npmjs.org");
    assert_eq!(resolve_registry_url(Some("  kumo "), Some("npm"), None), "https://kumo.unsetsoft.com");
    assert_eq!(resolve_registry_url(Some("   "), Some("kumo"), None), "https://registry.npmjs.org");
    assert_eq!(resolve_registry_url(None, None, Some("https://my.reg/")), "https://my.reg");
    assert_eq!(resolve_registry_url(None, Some("ftp://x"), None), "https://registry.npmjs.org");
    assert_eq!(metadata_cache_file_for("@types/node"), "@types__node.json");
    assert_eq!(get_deps_dir(Some(false), Some(true), false), "dependencies");
    assert_eq!(get_deps_dir(None, Some(true), false), "node_modules");
    assert_eq!(get_deps_dir(None, None, true), "node_modules");
    assert_eq!(choose_manifest(false, true, true), Some(Manifest::PackageJson));
    assert_eq!(choose_manifest(false, false, false), None);
    assert_eq!(policy_key_for("allowedImportHosts"), "AllowedImportHost");
    assert_eq!(policy_key_for("registry"), "registry");
    assert_eq!(
        shim_for(false, "tsc", "/d", "/d/typescript/bin/tsc"),
        ("tsc".to_string(), "#!/bin/sh\nexport NODE_PATH=\"/d\"\nnode \"/d/typescript/bin/tsc\" \"$@\"".to_string())
    );
    assert_eq!(shim_for(true, "tsc", "D", "T").0, "tsc.cmd");
    let l = |v: &[&str]| Some(strings(v));
    assert!(is_compatible(&None, &None, "linux", "x86_64"));
    assert!(is_compatible(&l(&["linux", "darwin"]), &l(&["x64"]), "linux", "x86_64"));
    assert!(!is_compatible(&l(&["darwin"]), &None, "linux", "x86_64"));
    assert!(!is_compatible(&l(&["!win32"]), &None, "windows", "x86_64"));
    assert!(is_compatible(&l(&["!win32"]), &None, "linux", "x86_64"));
    assert!(!is_compatible(&None, &l(&["arm64"]), "linux", "x86_64"));
    assert!(is_compatible(&l(&[]), &l(&["arm64"]), "macos", "aarch64"));
    assert!(needs_update_check(100000, 0, "1.0.0"));
    assert!(needs_update_check(10, 5, ""));
    assert!(!needs_update_check(10, 5, "1.0.0"));
    assert_eq!(tag_version("vv1.2.0"), "1.2.0");
    assert_eq!(newer_version_for("1.3.0", "1.2.0"), Some("1.3.0".to_string()));
    assert_eq!(newer_version_for("1.1.0", "1.2.0"), None);
    assert_eq!(newer_version_for("", "1.2.0"), None);
    let tags = vec![Some("v1.0.0".to_string()), None, Some("v2.0.0-beta.1".to_string()), Some("v1.5.0".to_string())];
    assert_eq!(select_release(&tags, None), Some(2));
    assert_eq!(select_release(&tags, Some("Beta")), Some(2));
    assert_eq!(select_release(&tags, Some("1.0.0")), Some(0));
    assert_eq!(select_release(&tags, Some("9.9.9")), None);
}

#[test]
fn base64_of_known_strings() {
    assert_eq!(base64_encode(b""), "");
    assert_eq!(base64_encode(b"f"), "Zg==");
    assert_eq!(base64_encode(b"fo"), "Zm8=");
    assert_eq!(base64_encode(b"foo"), "Zm9v");
    assert_eq!(base64_encode(b"foobar"), "Zm9vYmFy");
    assert_eq!(base64_encode(b"user:secret"), "dXNlcjpzZWNyZXQ=");
    assert_eq!(base64_encode(&[0xfb, 0xff]), "+/8=");
}

#[test]
fn config_values_from_the_command_line() {
    assert_eq!(config_value("true"), ConfigValue::Bool(true));
    assert_eq!(config_value("false"), ConfigValue::Bool(false));
    assert_eq!(config_value("1440"), ConfigValue::Int(1440));
    assert_eq!(config_value("+7"), ConfigValue::Int(7));
    assert_eq!(config_value("-12"), ConfigValue::Int(-12));
    assert_eq!(config_value("-9223372036854775808"), ConfigValue::Int(i64::MIN));
    assert_eq!(config_value("9223372036854775808"), ConfigValue::Text("9223372036854775808".to_string()));
    assert_eq!(config_value("-+3"), ConfigValue::Text("-+3".to_string()));
    assert_eq!(config_value("-"), ConfigValue::Text("-".to_string()));
    assert_eq!(config_value("True"), ConfigValue::Text("True".to_string()));
    assert_eq!(config_value("strict"), ConfigValue::Text("strict".to_string()));
}

#[test]
fn only_config_and_lock_unlock() {
    assert!(unlockable("kumo.config.json"));
    assert!(unlockable("kumo.lock"));
    assert!(!unlockable("package.json"));
    assert!(!unlockable("kumo.lock.bak"));
}

#[test]
fn installed_runtimes_newest_first() {
    let sorted = kumo::runtime::sort_newest_first(&strings(&["v18.2.0", "v20.1.0", "vnext", "v9.0.0", "v20.1.0-rc.1"]));
    assert_eq!(sorted, strings(&["v20.1.0", "v20.1.0-rc.1", "v18.2.0", "v9.0.0", "vnext"]));
}

#[test]
fn script_cache_key_covers_arguments_and_lockfile() {
    let script = b"vite build".to_vec();
    let files = vec![(b"src/a.ts".to_vec(), Some(b"x".to_vec()))];
    let plain = script_cache_key(&script, &vec![], &None, &files);
    assert_eq!(plain, kumo::digest::content_hash(b"vite buildsrc/a.tsx"));
    let with_args = script_cache_key(&script, &vec![b"--mode".to_vec(), b"prod".to_vec()], &None, &files);
    assert_eq!(with_args, kumo::digest::content_hash(b"vite build--mode\0prod\0src/a.tsx"));
    assert_ne!(plain, with_args);
    let with_lock = script_cache_key(&script, &vec![], &Some(b"lock".to_vec()), &files);
    assert_eq!(with_lock, kumo::digest::content_hash(b"vite buildlocksrc/a.tsx"));
}

#[test]
fn runtime_security_releases() {
    let rel = |v: &str, security: bool| NodeRelease { version: Some(v.to_string()), lts: None, security };
    let index = vec![rel("v22.12.0", true), rel("v22.11.0", false), rel("v21.0.0", true), rel("v20.18.1", false)];
    assert!(kumo::runtime::has_outstanding_security_fix(&index, "v22.11.0"));
    assert!(!kumo::runtime::has_outstanding_security_fix(&index, "v22.12.0"));
    assert!(!kumo::runtime::has_outstanding_security_fix(&index, "v20.18.1"));
    assert!(!kumo::runtime::has_outstanding_security_fix(&index, "v21.0.0"));
    assert!(kumo::runtime::is_security_release(&index, "v22.12.0"));
    assert!(!kumo::runtime::is_security_release(&index, "v22.11.0"));
}

#[test]
fn upgrade_queries() {
    assert_eq!(upgrade_query(Some(ChangeType::Patch), true), UpgradeQuery::Stepwise(ChangeType::Patch));
    assert_eq!(upgrade_query(Some(ChangeType::Minor), false), UpgradeQuery::Stepwise(ChangeType::Minor));
    assert_eq!(upgrade_query(Some(ChangeType::Major), false), UpgradeQuery::Latest);
    assert_eq!(upgrade_query(None, true), UpgradeQuery::Latest);
    assert_eq!(upgrade_query(None, false), UpgradeQuery::WithinRange);
}

fn probe(types_dir: bool, pkg_dir: bool, field: bool, exports: Option<&str>, index: bool, entry: bool) -> TypesProbe {
    TypesProbe {
        types_dir_exists: types_dir,
        package_dir_exists: pkg_dir,
        has_types_field: field,
        exports_json: exports.map(|s| s.to_string()),
        has_index_dts: index,
        has_dts_entry: entry,
    }
}

#[test]
fn package_types_detection() {
    // A package with only index.js.
    assert!(!package_has_types(&probe(false, true, false, None, false, false)));
    // A package with index.d.ts.
    assert!(package_has_types(&probe(false, true, false, None, true, true)));
    // A package whose manifest names its types.
    assert!(package_has_types(&probe(false, true, true, None, false, true)));
    // A package typed through @types.
    assert!(package_has_types(&probe(true, true, false, None, false, false)));
    // Exports that point at declarations.
    assert!(package_has_types(&probe(false, true, false, Some("{\".\":{\"types\":\"./x.d.ts\"}}"), false, false)));
    assert!(!package_has_types(&probe(false, true, false, Some("{\".\":\"./x.js\"}"), false, false)));
    // A missing package directory shows nothing.
    assert!(!package_has_types(&probe(false, false, true, None, true, true)));
}

#[test]
fn types_dir_names() {
    assert_eq!(types_dir_name_for("@babel/core"), "babel__core");
    assert_eq!(types_dir_name_for("lodash"), "lodash");
}

#[test]
fn kumo_dts_sections() {
    let names = vec!["a".to_string(), "b".to_string()];
    let typed = vec![true, false];
    let out = kumo_dts_for("BASE\n", &names, &typed);
    let expected = format!(
        "BASE\n\n// Fallback declarations for packages without built-in types\ndeclare module \"b\";\n\n// Dynamic URL modules for project dependencies\n{}{}",
        url_pair("a"),
        url_pair("b")
    );
    assert_eq!(out, expected);
    assert_eq!(kumo_dts_for("BASE\n", &Vec::new(), &Vec::new()), "BASE\n");
    let all_typed = kumo_dts_for("", &vec!["x".to_string()], &vec![true]);
    assert!(!all_typed.contains("Fallback"));
    assert!(all_typed.contains("declare module \"https://*/x\""));
}

fn url_pair(name: &str) -> String {
    format!(
        "declare module \"https://*/{0}\" {{\n    export * from \"{0}\";\n    const _default: any;\n    export default _default;\n}}\n\ndeclare module \"http://*/{0}\" {{\n    export * from \"{0}\";\n    const _default: any;\n    export default _default;\n}}\n\n",
        name
    )
}
