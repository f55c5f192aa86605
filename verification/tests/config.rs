use agent_ssh::config::{AuthMethod, Config};
use agent_ssh::error::ValidationError;
use agent_ssh::table::Table;
use agent_ssh::validate::{
    validate_config, RawBrokerConfig, RawConfig, RawProfileConfig, RawServerConfig, RawSignerConfig,
    MAX_HOST_LEN, MAX_TEMPLATE_LEN, MAX_USER_LEN,
};

fn table<V>(entries: Vec<(&str, V)>) -> Table<V> {
    let mut t = Table::new();
    for (k, v) in entries {
        t.insert(k.to_string(), v);
    }
    t
}

fn plain_server(host: &str, user: &str, environment: &str, profiles: &[&str]) -> RawServerConfig {
    RawServerConfig {
        host: host.to_string(),
        port: None,
        user: user.to_string(),
        environment: environment.to_string(),
        allowed_profiles: profiles.iter().map(|p| p.to_string()).collect(),
        requires_approval: None,
        signer: None,
        root_login_acknowledged: None,
        auth_method: None,
        password_env_var: None,
        password: None,
        password_secret_ref_env_var: None,
        legacy_password_acknowledged: None,
        fail2ban_allowlist_confirmed: None,
        allow_unrestricted_sessions: None,
    }
}

fn raw_profile(template: &str) -> RawProfileConfig {
    RawProfileConfig { description: None, template: template.to_string(), requires_approval: None }
}

fn step_ca() -> RawSignerConfig {
    RawSignerConfig { kind: "step-ca".to_string(), ca_url: None, provisioner: None, subject: None }
}

/// The configuration every test starts from, with `edit` applied to its one server.
fn valid_with(edit: impl FnOnce(&mut RawServerConfig)) -> RawConfig {
    let mut server = plain_server("10.0.1.10", "deploy", "staging", &["logs", "disk"]);
    server.port = Some(22);
    edit(&mut server);
    RawConfig {
        broker: RawBrokerConfig {
            cert_ttl_seconds: 120,
            audit_log_path: "./data/audit.jsonl".to_string(),
            default_signer: "step_ca".to_string(),
        },
        signers: table(vec![("step_ca", step_ca())]),
        servers: table(vec![("staging-api", server)]),
        profiles: table(vec![
            ("logs", raw_profile("journalctl -u {{service}} --since {{since}} --no-pager")),
            ("disk", raw_profile("df -h")),
        ]),
    }
}

fn valid() -> RawConfig {
    valid_with(|_| {})
}

fn accepted(raw: RawConfig) -> Config {
    match validate_config(raw) {
        Ok(config) => config,
        Err(error) => panic!("valid config should parse: {}", error.message()),
    }
}

fn rejected(raw: RawConfig) -> String {
    match validate_config(raw) {
        Ok(_) => panic!("configuration must be rejected"),
        Err(error) => error.message(),
    }
}

fn legacy(server: &mut RawServerConfig) {
    server.auth_method = Some("legacy_password".to_string());
    server.password_secret_ref_env_var = Some("AGENT_SSH_STAGING_PASSWORD_REF".to_string());
    server.legacy_password_acknowledged = Some(true);
    server.fail2ban_allowlist_confirmed = Some(true);
}

// ── Basic parsing ────────────────────────────────────────────────────────────

#[test]
fn parses_valid_configuration() {
    let config = accepted(valid());
    assert_eq!(config.servers.len(), 1);
    assert_eq!(config.profiles.len(), 2);
    assert_eq!(config.broker.default_signer.as_str(), "step_ca");
    assert_eq!(config.servers.get("staging-api").expect("server exists").allowed_profiles.len(), 2);
}

#[test]
fn rejects_root_user() {
    let message = rejected(valid_with(|s| s.user = "root".to_string()));
    assert!(message.contains("root_login_acknowledged"));
}

#[test]
fn accepts_root_user_when_acknowledged() {
    let config = accepted(valid_with(|s| {
        s.user = "root".to_string();
        s.root_login_acknowledged = Some(true);
    }));
    let server = config.servers.get("staging-api").expect("server exists");
    assert_eq!(server.user, "root");
}

#[test]
fn rejects_root_acknowledgement_for_non_root_user() {
    let message = rejected(valid_with(|s| s.root_login_acknowledged = Some(true)));
    assert!(message.contains("root_login_acknowledged is only allowed"));
}

#[test]
fn rejects_unknown_profile_reference() {
    let message = rejected(valid_with(|s| {
        s.allowed_profiles = vec!["logs".to_string(), "missing".to_string()]
    }));
    assert!(message.contains("references unknown profile 'missing'"));
}

#[test]
fn trims_host_user_and_environment_values() {
    let config = accepted(valid_with(|s| {
        s.host = " 10.0.1.10 ".to_string();
        s.user = " deploy ".to_string();
        s.environment = " staging ".to_string();
    }));
    let server = config.servers.get("staging-api").expect("staging-api should exist");
    assert_eq!(server.host, "10.0.1.10");
    assert_eq!(server.user, "deploy");
    assert_eq!(server.environment, "staging");
}

// ── AuthMethod ───────────────────────────────────────────────────────────────

#[test]
fn defaults_to_certificate_auth() {
    let config = accepted(valid());
    let server = config.servers.get("staging-api").expect("server exists");
    assert_eq!(server.auth_method, AuthMethod::Certificate);
}

#[test]
fn accepts_explicit_certificate_auth_method() {
    let config = accepted(valid_with(|s| s.auth_method = Some("certificate".to_string())));
    let server = config.servers.get("staging-api").expect("server exists");
    assert_eq!(server.auth_method, AuthMethod::Certificate);
}

#[test]
fn accepts_legacy_password_auth_with_secret_reference() {
    let config = accepted(valid_with(legacy));
    let server = config.servers.get("staging-api").expect("server exists");
    assert_eq!(server.auth_method, AuthMethod::LegacyPassword);
    assert_eq!(
        server.legacy_password.as_ref().expect("legacy password config").secret_ref_env_var,
        "AGENT_SSH_STAGING_PASSWORD_REF"
    );
}

#[test]
fn rejects_password_env_var() {
    let message = rejected(valid_with(|s| s.password_env_var = Some("LEGACY_SSH_PASS".to_string())));
    assert!(message.contains("password_secret_ref_env_var"));
}

#[test]
fn rejects_missing_legacy_password_reference() {
    let message = rejected(valid_with(|s| {
        legacy(s);
        s.password_secret_ref_env_var = None;
    }));
    assert!(message.contains("password_secret_ref_env_var is required"));
}

#[test]
fn rejects_legacy_password_without_acknowledgement() {
    let message = rejected(valid_with(|s| {
        legacy(s);
        s.legacy_password_acknowledged = None;
    }));
    assert!(message.contains("legacy_password_acknowledged must be true"));
}

#[test]
fn rejects_legacy_password_without_fail2ban_confirmation() {
    let message = rejected(valid_with(|s| {
        legacy(s);
        s.fail2ban_allowlist_confirmed = None;
    }));
    assert!(message.contains("fail2ban_allowlist_confirmed must be true"));
}

#[test]
fn rejects_invalid_secret_ref_env_var_name() {
    let message = rejected(valid_with(|s| {
        legacy(s);
        s.password_secret_ref_env_var = Some("BAD-NAME".to_string());
    }));
    assert!(message.contains("must be a valid environment variable name"));
}

#[test]
fn rejects_inline_password_field() {
    let message = rejected(valid_with(|s| s.password = Some("supersecret".to_string())));
    assert!(message.contains("plaintext passwords are not allowed"));
}

#[test]
fn rejects_unknown_auth_method() {
    let message = rejected(valid_with(|s| s.auth_method = Some("ssh-key".to_string())));
    assert!(message.contains("auth_method must be 'certificate' or 'legacy_password'"));
}

// ── Length limits ────────────────────────────────────────────────────────────

#[test]
fn rejects_host_exceeding_max_length() {
    let message = rejected(valid_with(|s| s.host = "a".repeat(MAX_HOST_LEN + 1)));
    assert!(message.contains("host must not exceed"));
}

#[test]
fn environment_length_counts_bytes() {
    let config = accepted(valid_with(|s| s.environment = "é".repeat(32)));
    assert_eq!(config.servers.get("staging-api").expect("server").environment, "é".repeat(32));
    let message = rejected(valid_with(|s| s.environment = "é".repeat(33)));
    assert!(message.contains("environment must not exceed 64 characters"));
}

#[test]
fn host_length_counts_characters() {
    let wide = "é".repeat(MAX_HOST_LEN);
    let config = accepted(valid_with(|s| s.host = wide.clone()));
    assert_eq!(config.servers.get("staging-api").expect("server").host, wide);
    let message = rejected(valid_with(|s| s.host = "é".repeat(MAX_HOST_LEN + 1)));
    assert!(message.contains("host must not exceed 253 characters"));
}

#[test]
fn rejects_user_exceeding_max_length() {
    let message = rejected(valid_with(|s| s.user = "a".repeat(MAX_USER_LEN + 1)));
    assert!(message.contains("user must not exceed"));
}

#[test]
fn rejects_template_exceeding_max_length() {
    let mut raw = valid();
    let long_template = format!("echo {}", "a".repeat(MAX_TEMPLATE_LEN));
    raw.profiles.insert("disk".to_string(), raw_profile(&long_template));
    let message = rejected(raw);
    assert!(message.contains("template must not exceed"));
}

// ── Structural rejections ────────────────────────────────────────────────────

#[test]
fn rejects_zero_cert_ttl() {
    let mut raw = valid();
    raw.broker.cert_ttl_seconds = 0;
    assert!(rejected(raw).contains("must be greater than zero"));
}

#[test]
fn rejects_cert_ttl_exceeding_one_hour() {
    let mut raw = valid();
    raw.broker.cert_ttl_seconds = 3601;
    assert!(rejected(raw).contains("less than or equal to 3600"));
}

#[test]
fn rejects_empty_server_list() {
    let mut raw = valid();
    raw.servers = Table::new();
    assert!(rejected(raw).contains("at least one server"));
}

#[test]
fn rejects_zero_port() {
    let message = rejected(valid_with(|s| s.port = Some(0)));
    assert!(message.contains("port must be greater than zero"));
}

#[test]
fn rejects_user_with_invalid_chars() {
    let message = rejected(valid_with(|s| s.user = "1deploy".to_string()));
    assert!(message.contains("conservative SSH username"));
}

#[test]
fn collects_multiple_validation_issues() {
    let message = rejected(valid_with(|s| {
        s.user = "root".to_string();
        s.port = Some(0);
    }));
    assert!(message.contains("root_login_acknowledged"), "{message}");
    assert!(message.contains("port must be greater than zero"), "{message}");
}

// ── Further cases ────────────────────────────────────────────────────────────

#[test]
fn validation_report_lists_sorted_issues() {
    let message = rejected(valid_with(|s| {
        s.user = "root".to_string();
        s.port = Some(0);
    }));
    assert_eq!(
        message,
        "configuration validation failed:\n\
         - servers.staging-api.port must be greater than zero\n\
         - servers.staging-api.user = \"root\" is discouraged and requires root_login_acknowledged = true\n"
    );
}

#[test]
fn validation_error_sorts_and_removes_repeats() {
    let e = ValidationError::new(vec!["b".to_string(), "a".to_string(), "b".to_string()]);
    assert_eq!(e.issues(), &vec!["a".to_string(), "b".to_string()]);
}

#[test]
fn default_port_is_twenty_two() {
    let config = accepted(valid_with(|s| s.port = None));
    assert_eq!(config.servers.get("staging-api").expect("server").port, 22);
}

#[test]
fn unknown_default_signer_is_reported() {
    let mut raw = valid();
    raw.broker.default_signer = "other".to_string();
    assert!(rejected(raw).contains("broker.default_signer references unknown signer 'other'"));
}

#[test]
fn invalid_default_signer_is_reported_for_servers_too() {
    let mut raw = valid();
    raw.broker.default_signer = "Bad Name".to_string();
    let message = rejected(raw);
    assert!(message.contains("broker.default_signer: identifier must start"), "{message}");
    assert!(message.contains("has no valid signer because broker.default_signer is invalid"), "{message}");
}

#[test]
fn blank_optional_strings_become_absent() {
    let mut raw = valid();
    raw.signers = table(vec![(
        "step_ca",
        RawSignerConfig {
            kind: " step-ca ".to_string(),
            ca_url: Some("   ".to_string()),
            provisioner: Some(" agent-ssh ".to_string()),
            subject: None,
        },
    )]);
    let config = accepted(raw);
    let signer = config.signers.get("step_ca").expect("signer");
    assert_eq!(signer.kind, "step-ca");
    assert_eq!(signer.ca_url, None);
    assert_eq!(signer.provisioner.as_deref(), Some("agent-ssh"));
}

#[test]
fn legacy_fields_refused_under_certificate_auth() {
    let message = rejected(valid_with(|s| s.legacy_password_acknowledged = Some(true)));
    assert!(message.contains("legacy_password_acknowledged is only allowed when auth_method = \"legacy_password\""));
}

#[test]
fn blank_auth_method_is_refused() {
    let message = rejected(valid_with(|s| s.auth_method = Some("  ".to_string())));
    assert!(message.contains("auth_method must not be empty when provided"));
}
