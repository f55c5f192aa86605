use agent_ssh::identifiers::{validate_identifier, ProfileName, ServerAlias, SignerName, MAX_IDENTIFIER_LEN};

#[test]
fn accepts_valid_identifiers() {
    assert!(ServerAlias::new("staging-api").is_ok());
    assert!(ProfileName::new("logs").is_ok());
    assert!(SignerName::new("step_ca").is_ok());
    assert!(ServerAlias::new("1server").is_ok());
    assert!(ServerAlias::new("a").is_ok());
}

#[test]
fn rejects_empty_identifier() {
    assert!(ServerAlias::new("").is_err());
    assert!(ProfileName::new("").is_err());
}

#[test]
fn rejects_uppercase_start() {
    assert!(ServerAlias::new("Staging").is_err());
}

#[test]
fn rejects_special_characters() {
    assert!(ServerAlias::new("staging api").is_err());
    assert!(ServerAlias::new("staging!").is_err());
    assert!(ServerAlias::new("staging/api").is_err());
    assert!(ServerAlias::new("staging@api").is_err());
}

#[test]
fn rejects_identifier_exceeding_max_length() {
    let long = "a".repeat(MAX_IDENTIFIER_LEN + 1);
    let err = ServerAlias::new(&long).expect_err("overlong identifier must be rejected");
    assert!(err.contains("exceed"), "error should mention length: {err}");
}

#[test]
fn accepts_identifier_at_max_length() {
    let exact = "a".repeat(MAX_IDENTIFIER_LEN);
    assert!(ServerAlias::new(&exact).is_ok());
}

#[test]
fn identifier_keeps_its_text() {
    let alias = ServerAlias::new("prod-web-1").expect("valid");
    assert_eq!(alias.as_str(), "prod-web-1");
    assert_eq!(alias.duplicate().as_str(), "prod-web-1");
}

#[test]
fn identifier_errors_name_each_rule() {
    assert_eq!(validate_identifier("").unwrap_err(), "identifier must not be empty");
    assert!(validate_identifier("-abc").is_err());
    assert!(validate_identifier("abC").is_err());
    assert!(validate_identifier("a_b-c9").is_ok());
}
