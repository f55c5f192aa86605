use agent_ssh::audit::{AuditAction, AuditOutcome};
use agent_ssh::config::{AuthMethod, Config};
use agent_ssh::error::BrokerError;
use agent_ssh::executor::{
    askpass_script_body, describe_invocation, parse_secret_reference, prepare_execution, CommandOutput,
    SshInvocation,
};
use agent_ssh::planner::{Broker, ExecutionMode, RunRequest, RunStep};
use agent_ssh::table::Table;
use agent_ssh::validate::{
    validate_config, RawBrokerConfig, RawConfig, RawProfileConfig, RawServerConfig, RawSignerConfig,
};

fn table<V>(entries: Vec<(&str, V)>) -> Table<V> {
    let mut t = Table::new();
    for (k, v) in entries {
        t.insert(k.to_string(), v);
    }
    t
}

fn server(host: &str, port: u16, environment: &str, profiles: &[&str]) -> RawServerConfig {
    RawServerConfig {
        host: host.to_string(),
        port: Some(port),
        user: "deploy".to_string(),
        environment: environment.to_string(),
        allowed_profiles: profiles.iter().map(|p| p.to_string()).collect(),
        requires_approval: None,
        signer: None,
        root_login_acknowledged: None,
        auth_method: None,
        password_env_var: None,
        password: None,
        password_secret_ref_env_var: None,
        legacy_password_acknowledged: None,
        fail2ban_allowlist_confirmed: None,
        allow_unrestricted_sessions: None,
    }
}

fn raw_profile(template: &str) -> RawProfileConfig {
    RawProfileConfig { description: None, template: template.to_string(), requires_approval: None }
}

fn raw_config(servers: Vec<(&str, RawServerConfig)>, profiles: Vec<(&str, RawProfileConfig)>) -> RawConfig {
    RawConfig {
        broker: RawBrokerConfig {
            cert_ttl_seconds: 120,
            audit_log_path: "./data/test-audit.jsonl".to_string(),
            default_signer: "step_ca".to_string(),
        },
        signers: table(vec![(
            "step_ca",
            RawSignerConfig { kind: "step-ca".to_string(), ca_url: None, provisioner: None, subject: None },
        )]),
        servers: table(servers),
        profiles: table(profiles),
    }
}

fn config_of(raw: RawConfig) -> Config {
    match validate_config(raw) {
        Ok(config) => config,
        Err(error) => panic!("valid config should parse: {}", error.message()),
    }
}

fn valid_config() -> Config {
    let mut prod = server("10.0.10.21", 22, "production", &["logs"]);
    prod.requires_approval = Some(true);
    config_of(raw_config(
        vec![("staging-api", server("10.0.1.10", 22, "staging", &["logs", "disk"])), ("prod-web-1", prod)],
        vec![
            ("logs", raw_profile("journalctl -u {{service}} --since {{since}} --no-pager")),
            ("disk", raw_profile("df -h")),
        ],
    ))
}

fn legacy_config() -> Config {
    let mut db = server("10.0.5.12", 22, "migration", &["disk"]);
    db.auth_method = Some("legacy_password".to_string());
    db.password_secret_ref_env_var = Some("AGENT_SSH_LEGACY_DB_PASSWORD_REF".to_string());
    db.legacy_password_acknowledged = Some(true);
    db.fail2ban_allowlist_confirmed = Some(true);
    config_of(raw_config(vec![("legacy-db", db)], vec![("disk", raw_profile("df -h"))]))
}

fn cert_config() -> Config {
    config_of(raw_config(
        vec![("staging-api", server("10.0.1.10", 2222, "staging", &["disk"]))],
        vec![("disk", raw_profile("df -h"))],
    ))
}

fn broker_of(config: Config) -> Broker {
    match Broker::from_config(config) {
        Ok(broker) => broker,
        Err(error) => panic!("valid broker should initialize: {}", error.message()),
    }
}

fn fixture_broker() -> Broker {
    broker_of(valid_config())
}

fn args(pairs: &[(&str, &str)]) -> Table<String> {
    table(pairs.iter().map(|(k, v)| (*k, v.to_string())).collect())
}

fn request(alias: &str, profile: &str, a: Table<String>, approval: Option<&str>) -> RunRequest {
    RunRequest {
        actor: "test".to_string(),
        server_alias: alias.to_string(),
        profile: profile.to_string(),
        args: a,
        approval_reference: approval.map(|s| s.to_string()),
    }
}

// ── Core planning ────────────────────────────────────────────────────────────

#[test]
fn plan_run_escapes_arguments_and_marks_plan_only() {
    let broker = fixture_broker();
    let outcome = broker.plan_run(request(
        "staging-api",
        "logs",
        args(&[("service", "api"), ("since", "10 min ago")]),
        None,
    ));
    let plan = match outcome.result {
        Ok(plan) => plan,
        Err(error) => panic!("plan should succeed: {}", error.message()),
    };
    assert_eq!(plan.rendered_command, "journalctl -u 'api' --since '10 min ago' --no-pager");
    assert!(matches!(outcome.audit_event.outcome, AuditOutcome::Planned));
    assert_eq!(plan.execution_mode, ExecutionMode::PlanOnly);
}

#[test]
fn blocks_missing_approval() {
    let broker = fixture_broker();
    let outcome = broker.plan_run(request(
        "prod-web-1",
        "logs",
        args(&[("service", "api"), ("since", "10 min ago")]),
        None,
    ));
    assert!(outcome.result.is_err());
    assert!(matches!(outcome.audit_event.outcome, AuditOutcome::Blocked));
    assert!(outcome.audit_event.requires_approval);
}

#[test]
fn accepts_valid_approval_reference() {
    let broker = fixture_broker();
    let outcome = broker.plan_run(request(
        "prod-web-1",
        "logs",
        args(&[("service", "nginx"), ("since", "5 min ago")]),
        Some("CAB-9999"),
    ));
    let plan = outcome.result.expect("plan with approval should succeed");
    assert!(plan.approval_provided);
    assert!(plan.requires_approval);
}

#[test]
fn rejects_blank_approval_references() {
    let broker = fixture_broker();
    let outcome = broker.plan_run(request(
        "prod-web-1",
        "logs",
        args(&[("service", "api"), ("since", "10 min ago")]),
        Some("   "),
    ));
    assert!(outcome.result.is_err());
    assert!(outcome.audit_event.requires_approval);
    assert_eq!(outcome.audit_event.approval_reference, None);
}

#[test]
fn rejects_unknown_alias_exactly() {
    let broker = fixture_broker();
    let outcome = broker.list_profiles("test", "staging");
    assert!(outcome.result.is_err());
}

#[test]
fn rejects_profile_not_allowed_for_server() {
    let broker = fixture_broker();
    let outcome = broker.plan_run(request(
        "prod-web-1",
        "disk",
        args(&[("service", "nginx"), ("since", "1 min ago")]),
        Some("CAB-1"),
    ));
    assert!(outcome.result.is_err());
    let err_msg = outcome.result.expect_err("expected error").message();
    assert!(err_msg.contains("not allowed"), "{err_msg}");
}

#[test]
fn rejects_unknown_profile() {
    let broker = fixture_broker();
    let outcome = broker.plan_run(request("staging-api", "nonexistent", Table::new(), None));
    assert!(outcome.result.is_err());
}

#[test]
fn rejects_unknown_server_in_run() {
    let broker = fixture_broker();
    let outcome = broker.plan_run(request("does-not-exist", "logs", Table::new(), None));
    assert!(outcome.result.is_err());
    let err_msg = outcome.result.expect_err("expected error").message();
    assert!(err_msg.contains("not configured"), "{err_msg}");
}

// ── Auth method propagation ──────────────────────────────────────────────────

#[test]
fn plan_carries_certificate_auth_method_by_default() {
    let broker = fixture_broker();
    let outcome = broker.plan_run(request("staging-api", "disk", Table::new(), None));
    let plan = outcome.result.expect("plan should succeed");
    assert_eq!(plan.auth_method, AuthMethod::Certificate);
    assert_eq!(plan.auth_method_label(), "certificate");
}

#[test]
fn legacy_password_runs_require_approval_even_when_server_does_not_flag_it() {
    let broker = broker_of(legacy_config());
    let outcome = broker.plan_run(request("legacy-db", "disk", Table::new(), None));
    assert!(outcome.result.is_err());
    assert!(outcome.audit_event.requires_approval);
    assert_eq!(outcome.audit_event.auth_method_kind.as_deref(), Some("legacy_password"));
}

#[test]
fn plan_carries_legacy_password_auth_method_and_redacted_audit_kind() {
    let broker = broker_of(legacy_config());
    let outcome = broker.plan_run(request("legacy-db", "disk", Table::new(), Some("CAB-77")));
    let plan = outcome.result.expect("plan should succeed");
    assert_eq!(plan.auth_method, AuthMethod::LegacyPassword);
    assert_eq!(plan.auth_method_label(), "legacy_password");
    assert_eq!(outcome.audit_event.auth_method_kind.as_deref(), Some("legacy_password"));
    let audit_debug = format!("{:?}", outcome.audit_event);
    assert!(
        !audit_debug.contains("AGENT_SSH_LEGACY_DB_PASSWORD_REF"),
        "env var names must not appear in audit output: {audit_debug}"
    );
    assert!(
        !audit_debug.contains("os_keychain:"),
        "secret references must not appear in audit output: {audit_debug}"
    );
}

#[test]
fn list_hosts_marks_legacy_password_server_as_approval_required() {
    let broker = broker_of(legacy_config());
    let hosts = broker.list_hosts("test").result.expect("hosts");
    let legacy = hosts.iter().find(|host| host.alias == "legacy-db").expect("legacy-db host");
    assert!(legacy.requires_approval);
}

// ── Injection / adversarial inputs ───────────────────────────────────────────

#[test]
fn rejects_extra_args_not_in_template() {
    let broker = fixture_broker();
    let outcome = broker.plan_run(request("staging-api", "disk", args(&[("injected", "value")]), None));
    assert!(outcome.result.is_err());
    let err = outcome.result.expect_err("expected error").message();
    assert!(err.contains("unexpected argument"), "{err}");
}

#[test]
fn rejects_missing_required_arg() {
    let broker = fixture_broker();
    let outcome = broker.plan_run(request("staging-api", "logs", args(&[("service", "api")]), None));
    assert!(outcome.result.is_err());
    let err = outcome.result.expect_err("expected error").message();
    assert!(err.contains("missing required argument"), "{err}");
}

#[test]
fn audit_event_does_not_contain_rendered_command_on_block() {
    let broker = fixture_broker();
    let outcome = broker.plan_run(request("prod-web-1", "logs", Table::new(), None));
    assert!(outcome.result.is_err());
    assert_eq!(outcome.audit_event.rendered_command, None);
}

#[test]
fn list_hosts_returns_all_servers() {
    let broker = fixture_broker();
    let hosts = broker.list_hosts("test").result.expect("list_hosts should succeed");
    assert_eq!(hosts.len(), 2);
    assert!(hosts.iter().any(|host| host.alias == "staging-api"));
    assert!(hosts.iter().any(|host| host.alias == "prod-web-1"));
}

#[test]
fn list_profiles_returns_allowed_profiles_only() {
    let broker = fixture_broker();
    let profiles = broker.list_profiles("test", "prod-web-1").result.expect("list_profiles should succeed");
    assert_eq!(profiles.len(), 1);
    assert_eq!(profiles[0].name, "logs");
}

// ── Execution ────────────────────────────────────────────────────────────────

#[test]
fn describe_invocation_is_publickey_only_and_non_interactive() {
    let broker = broker_of(cert_config());
    let plan = broker.plan_run(request("staging-api", "disk", Table::new(), None)).result.expect("plan");
    assert_eq!(plan.auth_method, AuthMethod::Certificate);
    let desc = describe_invocation(&plan);
    assert!(desc.contains("BatchMode=yes"), "cert invocation should include BatchMode: {desc}");
    assert!(
        desc.contains("PreferredAuthentications=publickey"),
        "invocation should prefer publickey auth only: {desc}"
    );
    assert!(desc.contains("PubkeyAuthentication=yes"), "invocation should enable publickey auth: {desc}");
    assert!(desc.contains("PasswordAuthentication=no"), "invocation should disable password auth: {desc}");
    assert!(
        desc.contains("KbdInteractiveAuthentication=no"),
        "invocation should disable keyboard-interactive auth: {desc}"
    );
    assert!(desc.contains("NumberOfPasswordPrompts=0"), "invocation should disable password prompts: {desc}");
    assert!(desc.contains("IdentitiesOnly=yes"), "invocation should limit offered identities: {desc}");
    assert!(desc.contains("-p 2222"), "should include custom port: {desc}");
    assert!(desc.contains("deploy@10.0.1.10"), "should include user@host: {desc}");
    assert!(desc.contains("df -h"), "should include rendered command: {desc}");
    assert!(!desc.contains("SSH_ASKPASS"), "certificate invocation should not mention askpass: {desc}");
}

#[test]
fn describe_invocation_for_legacy_password_is_redacted() {
    let broker = broker_of(legacy_config());
    let plan = broker.plan_run(request("legacy-db", "disk", Table::new(), Some("CAB-100"))).result.expect("plan");
    assert_eq!(plan.auth_method, AuthMethod::LegacyPassword);
    let desc = describe_invocation(&plan);
    assert!(desc.contains("SSH_ASKPASS=<broker-managed>"), "legacy password invocation should be redacted: {desc}");
    assert!(
        desc.contains("PreferredAuthentications=password"),
        "legacy password invocation should force password auth: {desc}"
    );
    assert!(
        desc.contains("NumberOfPasswordPrompts=1"),
        "legacy password invocation should allow only one prompt: {desc}"
    );
    assert!(!desc.contains("os_keychain:"), "secret references must not appear in dry-run output: {desc}");
}

#[test]
fn execute_plan_fails_closed_when_secret_reference_env_var_is_missing() {
    let config = legacy_config();
    let server = config.servers.get("legacy-db").expect("server").clone();
    let broker = broker_of(config);
    let plan = broker.plan_run(request("legacy-db", "disk", Table::new(), Some("CAB-100"))).result.expect("plan");
    let error = match prepare_execution(&plan, &server, &Table::new()) {
        Ok(_) => panic!("missing secret ref"),
        Err(error) => error,
    };
    assert!(error.message().contains("legacy password secret reference env var"), "{}", error.message());
}

#[test]
fn rejects_secret_reference_with_unsafe_characters() {
    let error = parse_secret_reference("legacy-db", "os_keychain:agent ssh:db/account")
        .expect_err("unsafe ref must fail");
    assert!(
        error.message().contains("secret reference service must use only ASCII letters"),
        "{}",
        error.message()
    );
}

#[test]
fn askpass_script_body_contains_only_secret_store_lookup() {
    let secret_ref =
        parse_secret_reference("legacy-db", "os_keychain:agent-ssh:legacy-db").expect("valid secret ref");
    let body = askpass_script_body(&secret_ref, "linux").expect("script body");
    assert!(body.starts_with("#!/bin/sh\nset -eu\n"), "{body}");
    assert!(
        body.contains("agent-ssh") && body.contains("legacy-db"),
        "script should contain only non-secret keychain identifiers: {body}"
    );
    assert!(!body.contains("supersecret"), "password material must never appear in askpass script: {body}");
}

// ── Further cases ────────────────────────────────────────────────────────────

#[test]
fn legacy_execution_resolves_the_secret_reference() {
    let config = legacy_config();
    let server = config.servers.get("legacy-db").expect("server").clone();
    let broker = broker_of(config);
    let plan = broker.plan_run(request("legacy-db", "disk", Table::new(), Some("CAB-100"))).result.expect("plan");
    let env = args(&[("AGENT_SSH_LEGACY_DB_PASSWORD_REF", "os_keychain:agent-ssh:legacy-db")]);
    match prepare_execution(&plan, &server, &env) {
        Ok(SshInvocation::LegacyPassword { secret_ref, args }) => {
            assert_eq!(secret_ref.service, "agent-ssh");
            assert_eq!(secret_ref.account, "legacy-db");
            assert!(args.iter().any(|a| a == "PreferredAuthentications=password"));
        }
        _ => panic!("expected a legacy password invocation"),
    }
}

#[test]
fn certificate_execution_needs_no_secret() {
    let broker = broker_of(cert_config());
    let server = broker.config().servers.get("staging-api").expect("server").clone();
    let plan = broker.plan_run(request("staging-api", "disk", Table::new(), None)).result.expect("plan");
    assert!(matches!(prepare_execution(&plan, &server, &Table::new()), Ok(SshInvocation::Certificate { .. })));
}

#[test]
fn run_step_executes_only_planned_runs() {
    let broker = fixture_broker();
    let ok = request("staging-api", "disk", Table::new(), None);
    let plan = broker.plan_run(ok.clone()).result.expect("plan");
    match broker.run_step(&ok, Ok(plan.clone())) {
        RunStep::Execute(p) => assert_eq!(p.rendered_command, plan.rendered_command),
        RunStep::Finished(_) => panic!("a planned run must execute"),
    }
    let blocked = request("prod-web-1", "logs", Table::new(), None);
    let error = broker.plan_run(blocked.clone()).result.expect_err("blocked");
    match broker.run_step(&blocked, Err(error.clone())) {
        RunStep::Execute(_) => panic!("a refused run must not execute"),
        RunStep::Finished(outcome) => {
            assert_eq!(outcome.result, Err(error));
            assert_eq!(outcome.audit_event.outcome, AuditOutcome::Blocked);
        }
    }
}

#[test]
fn skipped_execution_reports_blocked_planning() {
    let broker = fixture_broker();
    let req = request("prod-web-1", "logs", Table::new(), None);
    let planning_error = broker.plan_run(req.clone()).result.expect_err("blocked");
    assert!(matches!(planning_error, BrokerError::ApprovalRequired { .. }));
    let outcome = broker.skipped_execution(&req, planning_error.clone());
    assert_eq!(outcome.result, Err(planning_error));
    assert_eq!(outcome.audit_event.outcome, AuditOutcome::Blocked);
    assert_eq!(outcome.audit_event.action, AuditAction::RunExecute);
    assert_eq!(outcome.audit_event.message, "execution skipped because planning was blocked");
}

#[test]
fn recorded_execution_logs_exit_code() {
    let broker = fixture_broker();
    let req = request("staging-api", "disk", Table::new(), None);
    let plan = broker.plan_run(req.clone()).result.expect("plan");
    let output = CommandOutput { stdout: "ok\n".to_string(), stderr: String::new(), exit_code: 3 };
    let outcome = broker.recorded_execution(&req, &plan, Ok(output));
    assert_eq!(outcome.audit_event.outcome, AuditOutcome::Executed);
    assert_eq!(outcome.audit_event.exit_code, Some(3));
    assert_eq!(outcome.audit_event.message, "command completed with exit code 3");
    assert_eq!(outcome.audit_event.transport.as_deref(), Some("system_ssh"));
}

#[test]
fn config_validated_event_records_success() {
    let broker = fixture_broker();
    let event = broker.config_validated_event("test");
    assert_eq!(event.action, AuditAction::ConfigValidate);
    assert_eq!(event.outcome, AuditOutcome::Succeeded);
    assert_eq!(event.message, "configuration is valid");
    assert_eq!(broker.audit_log_path(), "./data/test-audit.jsonl");
}

#[test]
fn broker_refuses_config_with_unsafe_template() {
    let mut config = cert_config();
    config.profiles.insert(
        "disk".to_string(),
        agent_ssh::config::ProfileConfig {
            description: None,
            template: "df -h | head".to_string(),
            requires_approval: false,
        },
    );
    match Broker::from_config(config) {
        Err(BrokerError::UnsafeTemplate { profile, .. }) => assert_eq!(profile, "disk"),
        _ => panic!("unsafe template must be refused"),
    }
}
