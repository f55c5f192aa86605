use agent_ssh::client::{
    next_unrestricted_step, reusable_unrestricted_session_for_server, AgentCommandSettings, AgentSshClient,
    AgentSshError, UnrestrictedEvent, UnrestrictedStep,
};
use agent_ssh::error::BrokerError;
use agent_ssh::session::{SessionMode, SessionRecord};

fn record(id: &str, mode: SessionMode, last_used: i64, approval: Option<&str>) -> SessionRecord {
    SessionRecord {
        id: id.to_string(),
        server_alias: "staging-api".to_string(),
        host: "10.0.1.10".to_string(),
        port: 22,
        user: "deploy".to_string(),
        environment: "staging".to_string(),
        auth_method_kind: "certificate".to_string(),
        mode,
        opened_at_unix: 4_000_000_000,
        last_used_at_unix: last_used,
        ttl_seconds: 3600,
        idle_timeout_seconds: 600,
        approval_reference: approval.map(|s| s.to_string()),
        control_socket_path: format!("/tmp/{id}.sock"),
    }
}

#[test]
fn unrestricted_commands_can_be_disabled_by_user_settings() {
    let settings = AgentCommandSettings::default();
    let result = AgentSshClient::check_arbitrary_commands(&settings);
    assert!(matches!(result, Err(AgentSshError::ArbitraryCommandsDisabledBySettings)));
}

#[test]
fn reuses_newest_unrestricted_session_for_server() {
    let sessions = vec![
        record("older-session", SessionMode::Unrestricted, 4_000_000_100, Some("CAB-1")),
        record("newest-session", SessionMode::Unrestricted, 4_000_000_500, Some("CAB-1")),
        record("restricted-session", SessionMode::Restricted, 4_000_000_999, None),
    ];
    let selected =
        reusable_unrestricted_session_for_server(sessions, "staging-api").expect("should find unrestricted session");
    assert_eq!(selected.id, "newest-session");
}

#[test]
fn ties_go_to_the_session_listed_last() {
    let sessions = vec![
        record("first", SessionMode::Unrestricted, 7, None),
        record("second", SessionMode::Unrestricted, 7, None),
    ];
    assert_eq!(reusable_unrestricted_session_for_server(sessions, "staging-api").expect("found").id, "second");
}

#[test]
fn no_session_for_another_server() {
    let sessions = vec![record("a", SessionMode::Unrestricted, 1, None)];
    assert!(reusable_unrestricted_session_for_server(sessions, "prod").is_none());
}

#[test]
fn default_settings_reuse_connections() {
    let settings = AgentCommandSettings::default();
    assert!(!settings.allow_arbitrary_commands);
    assert!(settings.reuse_existing_connection);
    assert_eq!(settings.ttl_seconds, None);
    assert_eq!(settings.idle_timeout_seconds, None);
    let allowed = AgentCommandSettings { allow_arbitrary_commands: true, ..AgentCommandSettings::default() };
    assert!(AgentSshClient::check_arbitrary_commands(&allowed).is_ok());
}

#[test]
fn stale_session_errors_call_for_a_new_session() {
    assert!(AgentSshError::Broker(BrokerError::SessionExpired { id: "a".to_string() }).calls_for_new_session());
    assert!(AgentSshError::Broker(BrokerError::SessionIdleTimeout { id: "a".to_string() }).calls_for_new_session());
    assert!(AgentSshError::Broker(BrokerError::SessionNotFound { id: "a".to_string() }).calls_for_new_session());
    assert!(!AgentSshError::Broker(BrokerError::SshNotFound).calls_for_new_session());
    assert!(!AgentSshError::ArbitraryCommandsDisabledBySettings.calls_for_new_session());
}

#[test]
fn client_errors_read_as_their_source() {
    assert_eq!(
        AgentSshError::ArbitraryCommandsDisabledBySettings.message(),
        "arbitrary commands are disabled by the user's settings"
    );
    assert_eq!(
        AgentSshError::DotenvInvalidLine { line_number: 3, reason: "expected KEY=VALUE".to_string() }.message(),
        "invalid .env line 3: expected KEY=VALUE"
    );
}

#[test]
fn unrestricted_steps_follow_the_settings() {
    let mut settings = AgentCommandSettings::default();
    assert_eq!(
        next_unrestricted_step(&settings, UnrestrictedEvent::Start),
        UnrestrictedStep::Stop(AgentSshError::ArbitraryCommandsDisabledBySettings)
    );
    settings.allow_arbitrary_commands = true;
    assert_eq!(next_unrestricted_step(&settings, UnrestrictedEvent::Start), UnrestrictedStep::LookForSession);
    settings.reuse_existing_connection = false;
    assert_eq!(next_unrestricted_step(&settings, UnrestrictedEvent::Start), UnrestrictedStep::OpenSession);
}

#[test]
fn unrestricted_steps_reuse_or_reopen() {
    let mut settings = AgentCommandSettings::default();
    settings.allow_arbitrary_commands = true;
    let found = record("s-1", SessionMode::Unrestricted, 5, Some("CAB-1"));
    assert_eq!(
        next_unrestricted_step(&settings, UnrestrictedEvent::Found(Some(found))),
        UnrestrictedStep::UseSession { session_id: "s-1".to_string() }
    );
    assert_eq!(next_unrestricted_step(&settings, UnrestrictedEvent::Found(None)), UnrestrictedStep::OpenSession);
    let gone = AgentSshError::Broker(BrokerError::SessionNotFound { id: "s-1".to_string() });
    assert_eq!(next_unrestricted_step(&settings, UnrestrictedEvent::ReuseFailed(gone)), UnrestrictedStep::OpenSession);
    let other = AgentSshError::Broker(BrokerError::UnknownServer { alias: "x".to_string() });
    assert_eq!(
        next_unrestricted_step(&settings, UnrestrictedEvent::ReuseFailed(other.clone())),
        UnrestrictedStep::Stop(other)
    );
}
