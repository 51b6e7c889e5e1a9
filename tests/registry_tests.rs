use pro_serde_versioned::{parse_version_ident, ConfigurationError, Registry, VariantDecl};

fn decls(idents: &[&str]) -> Vec<VariantDecl> {
    idents.iter().map(|s| VariantDecl { ident: s.to_string(), arity: 1 }).collect()
}

#[test]
fn parses_version_identifiers() {
    assert_eq!(parse_version_ident("V1"), Some(1));
    assert_eq!(parse_version_ident("V12"), Some(12));
    assert_eq!(parse_version_ident("V007"), Some(7));
    assert_eq!(parse_version_ident("V0"), Some(0));
    assert_eq!(parse_version_ident("V18446744073709551615"), Some(18446744073709551615));
}

#[test]
fn rejects_bad_version_identifiers() {
    assert_eq!(parse_version_ident("V"), None);
    assert_eq!(parse_version_ident(""), None);
    assert_eq!(parse_version_ident("1"), None);
    assert_eq!(parse_version_ident("X1"), None);
    assert_eq!(parse_version_ident("V1a"), None);
    assert_eq!(parse_version_ident("V-1"), None);
    assert_eq!(parse_version_ident("V18446744073709551616"), None);
    assert_eq!(parse_version_ident("V99999999999999999999999"), None);
}

#[test]
fn registry_in_declaration_order() {
    let reg = Registry::build(&decls(&["V1", "V2", "V3"])).unwrap();
    assert_eq!(reg.first_version(), 1);
    assert_eq!(reg.latest_version(), 3);
    assert!(reg.is_latest(3));
    assert!(!reg.is_latest(2));
    assert!(reg.contains(1) && reg.contains(2) && reg.contains(3));
    assert!(!reg.contains(0));
    assert!(!reg.contains(4));
    assert!(!reg.contains(99));
}

#[test]
fn registry_out_of_order() {
    let reg = Registry::build(&decls(&["V3", "V1", "V2"])).unwrap();
    assert_eq!(reg.first_version(), 1);
    assert_eq!(reg.latest_version(), 3);
    assert_eq!(reg.variant_name(1), Some("V1".to_string()));
    assert_eq!(reg.variant_name(2), Some("V2".to_string()));
    assert_eq!(reg.variant_name(3), Some("V3".to_string()));
    assert_eq!(reg.variant_name(4), None);
}

#[test]
fn registry_of_one_variant() {
    let reg = Registry::build(&decls(&["V5"])).unwrap();
    assert_eq!(reg.first_version(), 5);
    assert_eq!(reg.latest_version(), 5);
    assert!(reg.is_latest(5));
}

#[test]
fn registry_rejects_invalid_identifier() {
    let r = Registry::build(&decls(&["V1", "Version2", "V3"]));
    assert_eq!(r.err(), Some(ConfigurationError::InvalidVersionIdent(1)));
}

#[test]
fn registry_rejects_wrong_arity() {
    let mut d = decls(&["V1", "V2"]);
    d[1].arity = 2;
    assert_eq!(Registry::build(&d).err(), Some(ConfigurationError::WrongArity(1)));
    d[0].arity = 0;
    assert_eq!(Registry::build(&d).err(), Some(ConfigurationError::WrongArity(0)));
}

#[test]
fn registry_rejects_duplicate_version() {
    let r = Registry::build(&decls(&["V1", "V2", "V01"]));
    assert_eq!(r.err(), Some(ConfigurationError::DuplicateVersion(2)));
}

#[test]
fn registry_rejects_empty() {
    let r = Registry::build(&decls(&[]));
    assert_eq!(r.err(), Some(ConfigurationError::Empty));
}

#[test]
fn registry_rejects_gap() {
    let r = Registry::build(&decls(&["V1", "V3"]));
    assert_eq!(r.err(), Some(ConfigurationError::MissingSuccessor(1)));
    let r = Registry::build(&decls(&["V4", "V2", "V1"]));
    assert_eq!(r.err(), Some(ConfigurationError::MissingSuccessor(2)));
}
