use agent_ssh::audit::{AuditAction, AuditOutcome};
use agent_ssh::config::{AuthMethod, Config};
use agent_ssh::error::BrokerError;
use agent_ssh::executor::CommandOutput;
use agent_ssh::planner::Broker;
use agent_ssh::session::{
    control_ssh_args, exec_ssh_args, master_ssh_args, partition_live, truncate_output, ExecDecision, OpenSessionRequest, SessionExecRequest,
    SessionManager, SessionMode, SessionRecord, MAX_OUTPUT_BYTES,
};
use agent_ssh::table::Table;
use agent_ssh::validate::{
    validate_config, RawBrokerConfig, RawConfig, RawProfileConfig, RawServerConfig, RawSignerConfig,
};

fn table<V>(entries: Vec<(&str, V)>) -> Table<V> {
    let mut t = Table::new();
    for (k, v) in entries {
        t.insert(k.to_string(), v);
    }
    t
}

fn server(host: &str) -> RawServerConfig {
    RawServerConfig {
        host: host.to_string(),
        port: None,
        user: "deploy".to_string(),
        environment: "staging".to_string(),
        allowed_profiles: vec!["disk".to_string()],
        requires_approval: None,
        signer: None,
        root_login_acknowledged: None,
        auth_method: None,
        password_env_var: None,
        password: None,
        password_secret_ref_env_var: None,
        legacy_password_acknowledged: None,
        fail2ban_allowlist_confirmed: None,
        allow_unrestricted_sessions: None,
    }
}

fn unrestricted_config() -> Config {
    let mut staging = server("10.0.1.10");
    staging.requires_approval = Some(true);
    staging.allow_unrestricted_sessions = Some(true);
    let raw = RawConfig {
        broker: RawBrokerConfig {
            cert_ttl_seconds: 120,
            audit_log_path: "./data/test-audit.jsonl".to_string(),
            default_signer: "step_ca".to_string(),
        },
        signers: table(vec![(
            "step_ca",
            RawSignerConfig { kind: "step-ca".to_string(), ca_url: None, provisioner: None, subject: None },
        )]),
        servers: table(vec![("staging-api", staging), ("cert-only", server("10.0.1.11"))]),
        profiles: table(vec![(
            "disk",
            RawProfileConfig { description: None, template: "df -h".to_string(), requires_approval: None },
        )]),
    };
    match validate_config(raw) {
        Ok(c) => c,
        Err(e) => panic!("config: {}", e.message()),
    }
}

fn fixture_manager() -> SessionManager {
    let config = unrestricted_config();
    let broker = Broker::from_config(config.clone()).expect("compiled");
    SessionManager::new(config, broker.compiled_profiles().clone(), "/tmp/agent-ssh-test".to_string())
}

fn record(id: &str, mode: SessionMode, opened: i64, last_used: i64, ttl: u64, idle: u64) -> SessionRecord {
    SessionRecord {
        id: id.to_string(),
        server_alias: "staging-api".to_string(),
        host: "10.0.1.10".to_string(),
        port: 22,
        user: "deploy".to_string(),
        environment: "staging".to_string(),
        auth_method_kind: "certificate".to_string(),
        mode,
        opened_at_unix: opened,
        last_used_at_unix: last_used,
        ttl_seconds: ttl,
        idle_timeout_seconds: idle,
        approval_reference: None,
        control_socket_path: format!("/tmp/{id}.sock"),
    }
}

fn open_request(alias: &str, mode: SessionMode, approval: Option<&str>) -> OpenSessionRequest {
    OpenSessionRequest {
        actor: "test".to_string(),
        server_alias: alias.to_string(),
        mode,
        ttl_seconds: None,
        idle_timeout_seconds: None,
        approval_reference: approval.map(|s| s.to_string()),
    }
}

fn exec_request(id: &str, profile: Option<&str>, command: Option<&str>) -> SessionExecRequest {
    SessionExecRequest {
        actor: "test".to_string(),
        session_id: id.to_string(),
        profile: profile.map(|s| s.to_string()),
        args: Table::new(),
        command: command.map(|s| s.to_string()),
    }
}

// ── Lapse ────────────────────────────────────────────────────────────────────

#[test]
fn session_record_ttl_detection() {
    let now = 1_000_000_i64;
    let session = record("test-id", SessionMode::Restricted, now - 400, now - 10, 300, 60);
    assert!(session.is_expired(now), "session should be expired");
    assert!(!session.is_idle_timed_out(now), "session should not be idle-timed-out");
}

#[test]
fn session_record_idle_timeout_detection() {
    let now = 1_000_000_i64;
    let session = record("test-id", SessionMode::Restricted, now - 50, now - 90, 300, 60);
    assert!(!session.is_expired(now), "session should not be expired");
    assert!(session.is_idle_timed_out(now), "session should be idle-timed-out");
}

#[test]
fn lapse_is_exact_at_the_clock_bounds() {
    let session = record("x", SessionMode::Restricted, i64::MIN, i64::MIN, 300, 60);
    assert!(session.is_expired(i64::MAX));
    let far = record("y", SessionMode::Restricted, i64::MAX, i64::MAX, 300, 60);
    assert!(!far.is_expired(i64::MIN));
}

#[test]
fn huge_lifetimes_never_lapse_early() {
    let session = record("x", SessionMode::Restricted, 10, 10, u64::MAX, u64::MAX);
    assert!(!session.is_expired(10));
    assert!(!session.is_idle_timed_out(10));
    assert!(!session.is_expired(i64::MAX));
    assert!(!session.is_idle_timed_out(i64::MAX));
    let past_i64 = record("y", SessionMode::Restricted, 0, 0, (i64::MAX as u64) + 1, 1 << 63);
    assert!(!past_i64.is_expired(i64::MAX));
    assert!(!past_i64.is_idle_timed_out(i64::MAX));
}

#[test]
fn expiry_stays_once_reached() {
    let session = record("x", SessionMode::Restricted, 0, 0, 300, 60);
    assert!(!session.is_expired(300));
    for now in [301_i64, 302, 10_000, i64::MAX] {
        assert!(session.is_expired(now));
    }
}

// ── Opening ──────────────────────────────────────────────────────────────────

#[test]
fn open_session_blocks_unrestricted_when_flag_not_set() {
    let manager = fixture_manager();
    let request = open_request("cert-only", SessionMode::Unrestricted, Some("CAB-1"));
    let result = manager.prepare_session(&request);
    let event = manager.session_open_event(&request, &result);
    assert!(result.is_err());
    let err = result.expect_err("expected error").message();
    assert!(err.contains("allow_unrestricted_sessions"), "error should mention config flag: {err}");
    assert!(matches!(event.outcome, AuditOutcome::Denied), "audit outcome should be Denied");
}

#[test]
fn open_session_blocks_unrestricted_without_approval() {
    let manager = fixture_manager();
    let result = manager.prepare_session(&open_request("staging-api", SessionMode::Unrestricted, None));
    assert!(result.is_err());
    let err = result.expect_err("expected error").message();
    assert!(err.contains("approval"), "error should mention approval: {err}");
}

#[test]
fn open_session_blocks_unrestricted_without_server_requires_approval_flag() {
    let manager = fixture_manager();
    let result = manager.prepare_session(&open_request("cert-only", SessionMode::Unrestricted, Some("CAB-1")));
    assert!(result.is_err());
    assert!(result.expect_err("expected error").message().contains("allow_unrestricted_sessions"));
}

#[test]
fn open_session_builds_record_from_server() {
    let manager = fixture_manager();
    let mut request = open_request("staging-api", SessionMode::Unrestricted, Some("  CAB-7 "));
    request.ttl_seconds = Some(99_999);
    let record = manager
        .build_session_record(&request, "id-1", "0123456789abcdef0123456789abcdef", 1_000)
        .expect("opens");
    assert_eq!(record.id, "id-1");
    assert_eq!(record.host, "10.0.1.10");
    assert_eq!(record.port, 22);
    assert_eq!(record.ttl_seconds, 3600);
    assert_eq!(record.idle_timeout_seconds, 60);
    assert_eq!(record.opened_at_unix, 1_000);
    assert_eq!(record.last_used_at_unix, 1_000);
    assert_eq!(record.approval_reference.as_deref(), Some("CAB-7"));
    assert_eq!(record.control_socket_path, "/tmp/agent-ssh-01234567.sock");
    assert_eq!(record.auth_method_kind, "certificate");
}

#[test]
fn prepared_session_gets_fresh_identifiers() {
    let manager = fixture_manager();
    let record = manager
        .prepare_session(&open_request("cert-only", SessionMode::Restricted, None))
        .expect("restricted sessions need no approval");
    assert_eq!(record.id.len(), 36);
    assert_eq!(record.ttl_seconds, 300);
    assert!(record.control_socket_path.starts_with("/tmp/agent-ssh-"));
    assert!(record.control_socket_path.ends_with(".sock"));
    assert_eq!(record.control_socket_path.len(), "/tmp/agent-ssh-".len() + 8 + ".sock".len());
    assert_eq!(&record.id[..8], &record.control_socket_path[15..23]);
    for (i, c) in record.id.chars().enumerate() {
        if [8, 13, 18, 23].contains(&i) {
            assert_eq!(c, '-');
        } else {
            assert!(c.is_ascii_digit() || ('a'..='f').contains(&c));
        }
    }
}

#[test]
fn open_event_records_success() {
    let manager = fixture_manager();
    let request = open_request("staging-api", SessionMode::Restricted, None);
    let result = manager.build_session_record(&request, "abc", "abcdef0123", 5);
    let event = manager.session_open_event(&request, &result);
    assert_eq!(event.action, AuditAction::SessionOpen);
    assert_eq!(event.outcome, AuditOutcome::Succeeded);
    assert_eq!(event.message, "session 'abc' opened on server 'staging-api' (mode=restricted, ttl=300s)");
    assert_eq!(event.session_id.as_deref(), Some("abc"));
    assert_eq!(event.transport.as_deref(), Some("system_ssh"));
}

// ── Commands ─────────────────────────────────────────────────────────────────

#[test]
fn exec_in_session_fails_for_missing_session() {
    let manager = fixture_manager();
    let request = exec_request("nonexistent-session-id", None, Some("ls"));
    let result: Result<CommandOutput, BrokerError> =
        Err(BrokerError::SessionNotFound { id: request.session_id.clone() });
    let event = manager.session_command_event(None, &request, &result);
    assert!(result.is_err());
    assert!(result.expect_err("expected error").message().contains("not found"));
    assert_eq!(event.session_id.as_deref(), Some("nonexistent-session-id"));
    assert_eq!(event.server_alias.as_deref(), Some("(unknown)"));
}

#[test]
fn exec_in_session_fails_for_expired_session() {
    let manager = fixture_manager();
    let expired = record("expired-test", SessionMode::Restricted, 0, 0, 300, 60);
    let request = exec_request("expired-test", None, Some("ls"));
    let error = match manager.decide_exec(&expired, &request, 1_700_000_000) {
        ExecDecision::CloseAndRefuse(e) => e,
        _ => panic!("an expired session must be closed"),
    };
    let result: Result<CommandOutput, BrokerError> = Err(error);
    let event = manager.session_command_event(Some(&expired), &request, &result);
    let err = result.expect_err("expected error").message();
    assert!(err.contains("expired"), "error should mention expiry: {err}");
    assert_eq!(event.server_alias.as_deref(), Some("staging-api"));
    assert_eq!(event.session_id.as_deref(), Some("expired-test"));
    assert!(matches!(event.outcome, AuditOutcome::Expired), "audit outcome should preserve expiry context");
}

#[test]
fn exec_in_session_rejects_command_exceeding_max_length() {
    let manager = fixture_manager();
    let session = record("length-test", SessionMode::Unrestricted, 4_000_000_000, 4_000_000_000, 86400, 3600);
    let long_cmd = "a".repeat(4097);
    let request = exec_request("length-test", None, Some(&long_cmd));
    let err = match manager.decide_exec(&session, &request, 4_000_000_000) {
        ExecDecision::Refuse(e) => e.message(),
        _ => panic!("expected error"),
    };
    assert!(err.contains("exceeds maximum"), "error should mention length: {err}");
}

#[test]
fn exec_in_restricted_mode_rejects_disallowed_profile() {
    let manager = fixture_manager();
    let session = record("restricted-test", SessionMode::Restricted, 4_000_000_000, 4_000_000_000, 86400, 3600);
    let request = exec_request("restricted-test", Some("nonexistent-profile"), None);
    let err = match manager.decide_exec(&session, &request, 4_000_000_000) {
        ExecDecision::Refuse(e) => e.message(),
        _ => panic!("expected error"),
    };
    assert!(err.contains("not allowed") || err.contains("not configured"), "error should mention profile policy: {err}");
}

#[test]
fn close_session_keeps_audit_context_after_registry_cleanup() {
    let manager = fixture_manager();
    let session = record("close-test", SessionMode::Restricted, 4_000_000_000, 4_000_000_000, 300, 60);
    let event = manager.session_close_event(Some(&session), "close-test", "test", &Ok(()));
    assert_eq!(event.server_alias.as_deref(), Some("staging-api"));
    assert_eq!(event.session_id.as_deref(), Some("close-test"));
    assert!(matches!(event.outcome, AuditOutcome::Succeeded), "close should be audited as succeeded");
    assert_eq!(event.message, "session 'close-test' closed");
}

#[test]
fn restricted_session_renders_allowed_profile() {
    let manager = fixture_manager();
    let session = record("r", SessionMode::Restricted, 0, 0, 300, 60);
    let request = exec_request("r", Some("disk"), None);
    match manager.decide_exec(&session, &request, 10) {
        ExecDecision::Run(command) => assert_eq!(command, "df -h"),
        _ => panic!("allowed profile should run"),
    }
}

#[test]
fn unrestricted_session_refuses_control_characters_but_allows_tabs() {
    let manager = fixture_manager();
    let session = record("u", SessionMode::Unrestricted, 0, 0, 300, 60);
    let ok = exec_request("u", None, Some("printf 'a\tb'"));
    assert!(matches!(manager.resolve_command(&session, &ok), Ok(ref c) if c == "printf 'a\tb'"));
    let bad = exec_request("u", None, Some("ls\nrm"));
    let err = manager.resolve_command(&session, &bad).expect_err("newline refused");
    assert_eq!(err.message(), "session command denied on server 'staging-api': command must not contain control characters");
    let none = exec_request("u", None, None);
    assert!(manager.resolve_command(&session, &none).is_err());
}

#[test]
fn idle_session_is_closed() {
    let manager = fixture_manager();
    let session = record("i", SessionMode::Restricted, 0, 0, 300, 60);
    match manager.decide_exec(&session, &exec_request("i", Some("disk"), None), 100) {
        ExecDecision::CloseAndRefuse(BrokerError::SessionIdleTimeout { id }) => assert_eq!(id, "i"),
        _ => panic!("idle session must be closed"),
    }
}

#[test]
fn command_event_maps_outcomes() {
    let manager = fixture_manager();
    let request = exec_request("s", None, Some("ls"));
    let ok: Result<CommandOutput, BrokerError> =
        Ok(CommandOutput { stdout: String::new(), stderr: String::new(), exit_code: -1 });
    let event = manager.session_command_event(None, &request, &ok);
    assert_eq!(event.outcome, AuditOutcome::Executed);
    assert_eq!(event.message, "session command completed with exit code -1");
    assert_eq!(event.exit_code, Some(-1));
    let denied: Result<CommandOutput, BrokerError> = Err(BrokerError::SessionCommandTooLong { length: 5000, max: 4096 });
    assert_eq!(manager.session_command_event(None, &request, &denied).outcome, AuditOutcome::Denied);
    let failed: Result<CommandOutput, BrokerError> = Err(BrokerError::SshNotFound);
    assert_eq!(manager.session_command_event(None, &request, &failed).outcome, AuditOutcome::Failed);
}

// ── Output and listing ───────────────────────────────────────────────────────

#[test]
fn long_output_is_truncated_with_a_note() {
    let output = CommandOutput {
        stdout: "x".repeat(MAX_OUTPUT_BYTES + 10),
        stderr: "short".to_string(),
        exit_code: 0,
    };
    let out = truncate_output(output);
    assert_eq!(out.stdout.len(), MAX_OUTPUT_BYTES + "\n[output truncated]\n".len());
    assert!(out.stdout.ends_with("x\n[output truncated]\n"));
    assert_eq!(out.stderr, "short");
}

#[test]
fn output_at_the_limit_is_kept_whole() {
    let output = CommandOutput { stdout: "y".repeat(MAX_OUTPUT_BYTES), stderr: String::new(), exit_code: 1 };
    let out = truncate_output(output);
    assert_eq!(out.stdout.len(), MAX_OUTPUT_BYTES);
    assert_eq!(out.exit_code, 1);
}

#[test]
fn listing_keeps_live_sessions_in_order() {
    let sessions = vec![
        record("a", SessionMode::Restricted, 0, 0, 300, 60),
        record("b", SessionMode::Restricted, 90, 90, 300, 60),
        record("c", SessionMode::Restricted, 100, 50, 300, 60),
        record("d", SessionMode::Restricted, 95, 95, 300, 60),
    ];
    let (live, stale) = partition_live(sessions, 120);
    let ids = |v: &Vec<SessionRecord>| v.iter().map(|s| s.id.clone()).collect::<Vec<_>>();
    assert_eq!(ids(&live), vec!["b".to_string(), "d".to_string()]);
    assert_eq!(ids(&stale), vec!["a".to_string(), "c".to_string()]);
}

#[test]
fn mode_text_is_lowercase() {
    assert_eq!(SessionMode::Restricted.as_text(), "restricted");
    assert_eq!(SessionMode::Unrestricted.as_text(), "unrestricted");
}

// ── The session's connection ─────────────────────────────────────────────────

#[test]
fn master_arguments_are_publickey_only() {
    let config = unrestricted_config();
    let server = config.servers.get("staging-api").expect("server").clone();
    let session = record("m", SessionMode::Restricted, 0, 0, 300, 60);
    let args = master_ssh_args(&session, &server).expect("certificate servers hold a master");
    assert_eq!(&args[..3], &["-f".to_string(), "-N".to_string(), "-M".to_string()]);
    assert!(args.contains(&"ControlPath=/tmp/m.sock".to_string()));
    assert!(args.contains(&"PasswordAuthentication=no".to_string()));
    assert_eq!(args[args.len() - 2], "22");
    assert_eq!(args[args.len() - 1], "deploy@10.0.1.10");
    assert_eq!(
        control_ssh_args(&session, "check"),
        vec!["-O", "check", "-o", "ControlPath=/tmp/m.sock", "-p", "22", "deploy@10.0.1.10"]
            .into_iter()
            .map(String::from)
            .collect::<Vec<_>>()
    );
    let exec = exec_ssh_args(&session, "uname -a");
    assert_eq!(exec.last().map(String::as_str), Some("uname -a"));
    assert!(exec.contains(&"ControlMaster=no".to_string()));
}

#[test]
fn legacy_servers_hold_no_master() {
    let config = unrestricted_config();
    let mut server = config.servers.get("cert-only").expect("server").clone();
    server.auth_method = AuthMethod::LegacyPassword;
    let session = record("m", SessionMode::Restricted, 0, 0, 300, 60);
    let err = master_ssh_args(&session, &server).expect_err("refused");
    assert_eq!(
        err.message(),
        "session command denied on server 'staging-api': legacy_password auth is not supported for persistent sessions"
    );
}

#[test]
fn overlong_command_reports_its_byte_length() {
    let manager = fixture_manager();
    let session = record("u", SessionMode::Unrestricted, 0, 0, 300, 60);
    let command = "é".repeat(2049);
    let err = manager
        .resolve_command(&session, &exec_request("u", None, Some(&command)))
        .expect_err("4098 bytes is too long");
    assert_eq!(err.message(), "command length 4098 exceeds maximum of 4096 characters");
    let fits = "é".repeat(2048);
    assert!(manager.resolve_command(&session, &exec_request("u", None, Some(&fits))).is_ok());
}

#[test]
fn multibyte_output_is_cut_on_a_character_boundary() {
    let text = format!("{}{}", "a".repeat(MAX_OUTPUT_BYTES - 2), "é".repeat(4));
    let out = truncate_output(CommandOutput { stdout: String::new(), stderr: text, exit_code: 0 });
    assert_eq!(out.stderr, format!("{}é\n[output truncated]\n", "a".repeat(MAX_OUTPUT_BYTES - 2)));
}
