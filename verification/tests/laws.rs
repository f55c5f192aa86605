use agent_ssh::audit::{new_audit_event, AuditAction, AuditContext, AuditOutcome};
use agent_ssh::render::shell_escape;
use agent_ssh::session::{OpenSessionRequest, SessionManager, SessionMode};
use agent_ssh::table::Table;
use agent_ssh::validate::{
    validate_config, RawBrokerConfig, RawConfig, RawProfileConfig, RawServerConfig, RawSignerConfig,
};

/// Reads a single-quoted shell word back the way `sh` would.
fn read_back(quoted: &str) -> String {
    let mut out = String::new();
    let mut chars = quoted.chars().peekable();
    let mut in_single = false;
    let mut in_double = false;
    while let Some(c) = chars.next() {
        match c {
            '\'' if !in_double => in_single = !in_single,
            '"' if !in_single => in_double = !in_double,
            other => out.push(other),
        }
    }
    assert!(!in_single && !in_double, "quotes must balance in {quoted}");
    out
}

#[test]
fn shell_quoting_reads_back_to_the_value() {
    for value in ["", "plain", "it's", "'''", "$(rm -rf /)", "a\"b", "; echo x", "tab\there"] {
        assert_eq!(read_back(&shell_escape(value)), value);
    }
}

#[test]
fn session_lifetime_never_exceeds_an_hour() {
    let config = {
        let mut signers = Table::new();
        signers.insert(
            "step_ca".to_string(),
            RawSignerConfig { kind: "step-ca".to_string(), ca_url: None, provisioner: None, subject: None },
        );
        let mut servers = Table::new();
        servers.insert(
            "s".to_string(),
            RawServerConfig {
                host: "h".to_string(),
                port: None,
                user: "u".to_string(),
                environment: "e".to_string(),
                allowed_profiles: vec!["p".to_string()],
                requires_approval: None,
                signer: None,
                root_login_acknowledged: None,
                auth_method: None,
                password_env_var: None,
                password: None,
                password_secret_ref_env_var: None,
                legacy_password_acknowledged: None,
                fail2ban_allowlist_confirmed: None,
                allow_unrestricted_sessions: None,
            },
        );
        let mut profiles = Table::new();
        profiles.insert(
            "p".to_string(),
            RawProfileConfig { description: None, template: "uptime".to_string(), requires_approval: None },
        );
        validate_config(RawConfig {
            broker: RawBrokerConfig {
                cert_ttl_seconds: 60,
                audit_log_path: "a.jsonl".to_string(),
                default_signer: "step_ca".to_string(),
            },
            signers,
            servers,
            profiles,
        })
        .expect("valid")
    };
    let manager = SessionManager::new(config, Table::new(), ".".to_string());
    for asked in [None, Some(0), Some(3599), Some(3600), Some(3601), Some(u64::MAX)] {
        let request = OpenSessionRequest {
            actor: "t".to_string(),
            server_alias: "s".to_string(),
            mode: SessionMode::Restricted,
            ttl_seconds: asked,
            idle_timeout_seconds: None,
            approval_reference: None,
        };
        let record = manager.build_session_record(&request, "id", "00000000", 0).expect("opens");
        assert!(record.ttl_seconds <= 3600);
        assert_eq!(record.ttl_seconds, asked.unwrap_or(300).min(3600));
    }
}

#[test]
fn audit_event_time_is_rfc3339_in_utc() {
    let event = new_audit_event(
        "t",
        AuditAction::ConfigValidate,
        AuditOutcome::Succeeded,
        "ok".to_string(),
        AuditContext::empty(),
    );
    let t: Vec<char> = event.occurred_at.chars().collect();
    assert!(t.len() >= 20);
    for i in [0, 1, 2, 3, 5, 6, 8, 9, 11, 12, 14, 15, 17, 18] {
        assert!(t[i].is_ascii_digit());
    }
    assert_eq!((t[4], t[7], t[10], t[13], t[16]), ('-', '-', 'T', ':', ':'));
    assert_eq!(*t.last().unwrap(), 'Z');
    assert_ne!(event.occurred_at, "1970-01-01T00:00:00Z");
}
