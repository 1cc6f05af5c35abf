use kumo::pkgid::{package_key, parse_package_arg, parse_package_id};

#[test]
fn test_parse_package_id() {
    assert_eq!(
        parse_package_id("express@4.18.2"),
        ("express".to_string(), "4.18.2".to_string())
    );
    assert_eq!(
        parse_package_id("@types/node@14.14.31"),
        ("@types/node".to_string(), "14.14.31".to_string())
    );
    assert_eq!(
        parse_package_id("lodash"),
        ("lodash".to_string(), "unknown".to_string())
    );
    assert_eq!(
        parse_package_id("@nestjs/core"),
        ("@nestjs/core".to_string(), "unknown".to_string())
    );
}

#[test]
fn test_parse_package_arg() {
    assert_eq!(
        parse_package_arg("express@4.18.2"),
        ("express".to_string(), "4.18.2".to_string())
    );
    assert_eq!(
        parse_package_arg("@types/node@14.14.31"),
        ("@types/node".to_string(), "14.14.31".to_string())
    );
    assert_eq!(
        parse_package_arg("lodash"),
        ("lodash".to_string(), "latest".to_string())
    );
    assert_eq!(
        parse_package_arg("@nestjs/core"),
        ("@nestjs/core".to_string(), "latest".to_string())
    );
}

#[test]
fn package_key_splits_back() {
    let key = package_key("@scope/pkg", "1.2.3-rc.1");
    assert_eq!(key, "@scope/pkg@1.2.3-rc.1");
    assert_eq!(parse_package_id(&key), ("@scope/pkg".to_string(), "1.2.3-rc.1".to_string()));
}

#[test]
fn package_id_with_two_versions_splits_at_first() {
    assert_eq!(parse_package_id("a@1@2"), ("a".to_string(), "1@2".to_string()));
    assert_eq!(parse_package_arg("@"), ("@".to_string(), "latest".to_string()));
    assert_eq!(parse_package_arg(""), ("".to_string(), "latest".to_string()));
}
