use kumo::credentials::{get_token, set_credential, Credentials};
use kumo::digest::{content_hash, hex_string, sha1_hex, verify_shasum};
use kumo::store::{is_unreferenced, ShieldManager, Store};
use kumo::tarball::{clean_entry_path, is_executable_path_exec, retry_link, unpack_package, RegistryAttestations, RegistrySignature, TarballInfo};

#[test]
fn test_verify_shasum() {
    let data = b"hello world";
    let expected = "2aae6c35c94fcfb415dbe95f408b9ce91ee846ed";

    assert!(verify_shasum(data, expected).is_ok());
    assert!(verify_shasum(data, "wrong").is_err());
}

#[test]
fn shasum_error_names_both_digests() {
    let err = verify_shasum(b"hello world", "wrong").unwrap_err();
    assert_eq!(err.expected, "wrong");
    assert_eq!(err.actual, "2aae6c35c94fcfb415dbe95f408b9ce91ee846ed");
    assert!(err.message().contains("Expected SHA-1: wrong"));
    assert_eq!(sha1_hex(b""), "da39a3ee5e6b4b0d3255bfef95601890afd80709");
}

#[test]
fn blake3_hex_of_empty_input() {
    assert_eq!(content_hash(b""), "af1349b9f5f9a1a6a0404dea36dcc9499bcb25c9adc112b7cc9a93cae41f3262");
    assert_eq!(content_hash(b"abc").len(), 64);
    assert_eq!(hex_string(&vec![0u8, 15, 16, 255]), "000f10ff");
}

#[test]
fn store_paths() {
    let store = Store::new("/home/u/.kumo/store".to_string(), ShieldManager::new(Some("/home/u")));
    assert_eq!(store.get_root(), "/home/u/.kumo/store");
    assert_eq!(store.get_path("abcdef"), "/home/u/.kumo/store/objects/ab/cdef");
    assert_eq!(
        store.get_index_path("@types/node@1.0.0"),
        "/home/u/.kumo/store/metadata/@@types__node@@1.0.0.json"
    );
    let trailing = Store::new("/s/".to_string(), ShieldManager::new(None));
    assert_eq!(trailing.get_path("0123"), "/s/objects/01/23");
}

#[test]
fn shield_state() {
    assert_eq!(ShieldManager::new(Some("/home/u")).state_path(), "/home/u/.kumo/.shield_state");
    assert_eq!(ShieldManager::new(None).state_path(), "./.kumo/.shield_state");
    assert!(ShieldManager::is_active_content(" on\n"));
    assert!(!ShieldManager::is_active_content("off"));
    assert_eq!(ShieldManager::state_text(true), "on");
    assert_eq!(ShieldManager::state_text(false), "off");
}

#[test]
fn unreferenced_objects() {
    let referenced = vec!["abcdef".to_string()];
    assert!(!is_unreferenced("ab", "cdef", &referenced));
    assert!(is_unreferenced("ab", "cdee", &referenced));
}

#[test]
fn credentials_read_back_what_was_set() {
    let mut creds = Credentials::default();
    assert_eq!(get_token(&creds, "https://r.example.com"), None);
    set_credential(&mut creds, "https://r.example.com//", "me".to_string(), "t1".to_string());
    assert_eq!(get_token(&creds, "https://r.example.com"), Some("t1".to_string()));
    assert_eq!(get_token(&creds, "https://r.example.com/"), Some("t1".to_string()));
    set_credential(&mut creds, "https://other.example.com", "you".to_string(), "t2".to_string());
    set_credential(&mut creds, "https://r.example.com", "me".to_string(), "t3".to_string());
    assert_eq!(get_token(&creds, "https://r.example.com"), Some("t3".to_string()));
    assert_eq!(get_token(&creds, "https://other.example.com"), Some("t2".to_string()));
    assert_eq!(creds.registries.len(), 2);
}

#[test]
fn tarball_sizes_and_paths() {
    let mut info = TarballInfo {
        tarball: "https://registry.npmjs.org/a/-/a-1.0.0.tgz".to_string(),
        shasum: "x".to_string(),
        size: 10,
        unpacked_size: 0,
        signatures: None,
        npm_signature: None,
        attestations: None,
    };
    assert_eq!(info.get_size(), 10);
    info.unpacked_size = 25;
    assert_eq!(info.get_size(), 25);
    assert!(!info.has_signatures());
    info.signatures = Some(vec![]);
    assert!(!info.has_signatures());
    info.signatures = Some(vec![RegistrySignature { keyid: "k".to_string(), sig: "s".to_string() }]);
    assert!(info.has_signatures());
    info.attestations = Some(RegistryAttestations { url: "u".to_string() });
    assert!(info.has_attestations());
    assert_eq!(clean_entry_path("package/lib/index.js"), "lib/index.js");
    assert_eq!(clean_entry_path("other/index.js"), "other/index.js");
    assert!(is_executable_path_exec("bin/cli.js"));
    assert!(is_executable_path_exec("lib/bin/cli.js"));
    assert!(is_executable_path_exec("scripts/run.sh"));
    assert!(!is_executable_path_exec("lib/index.js"));
    assert!(retry_link(1, Some(32)));
    assert!(!retry_link(10, Some(32)));
    assert!(!retry_link(1, Some(2)));
}

#[test]
fn unpacks_package_files() {
    let mut builder = tar::Builder::new(Vec::new());
    let data = b"console.log(1)";
    let mut header = tar::Header::new_gnu();
    header.set_size(data.len() as u64);
    header.set_mode(0o644);
    header.set_cksum();
    builder.append_data(&mut header, "package/index.js", &data[..]).unwrap();
    let mut dir = tar::Header::new_gnu();
    dir.set_entry_type(tar::EntryType::Directory);
    dir.set_size(0);
    dir.set_cksum();
    builder.append_data(&mut dir, "package/lib/", &[][..]).unwrap();
    let tar_bytes = builder.into_inner().unwrap();
    let mut enc = flate2::write::GzEncoder::new(Vec::new(), flate2::Compression::default());
    std::io::Write::write_all(&mut enc, &tar_bytes).unwrap();
    let gz = enc.finish().unwrap();
    let files = unpack_package(&gz).unwrap();
    assert_eq!(files, vec![("index.js".to_string(), data.to_vec())]);
    assert!(unpack_package(b"not a tarball").is_none());
}

#[test]
fn lockfile_reused_only_for_the_same_configuration() {
    let config = b"{\"registry\":\"npm\"}";
    let hash = kumo::digest::content_hash(config);
    assert!(kumo::install::lockfile_reusable(&Some(hash.clone()), config));
    assert!(!kumo::install::lockfile_reusable(&Some(hash), b"{}"));
    assert!(!kumo::install::lockfile_reusable(&None, config));
}
