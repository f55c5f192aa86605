//! The agent-facing client: a broker and the name of the agent that uses it,
//! the settings under which raw commands may run, and the errors it reports.
use vstd::prelude::*;

use crate::dotenv::DotenvError;
use crate::error::{issue_lines, BrokerError, ValidationError};
use crate::executor::CommandOutput;
use crate::planner::{AuditedOutcome, Broker, HostSummary, ProfileSummary, RunPlan};
use crate::session::{SessionMode, SessionRecord};
use crate::text::{cat, cat3, decimal, owned, u64_to_text};

verus! {

/// Successful profile execution with both the validated plan and command output.
#[derive(Debug, Clone)]
pub struct ProfileRunResult {
    pub plan: RunPlan,
    pub output: CommandOutput,
}

/// User-controlled settings for unrestricted command execution.
#[derive(Debug, Clone, PartialEq, Eq)]
pub struct AgentCommandSettings {
    /// Explicit user opt-in for arbitrary commands.
    pub allow_arbitrary_commands: bool,
    /// Reuse the newest matching unrestricted session when possible.
    pub reuse_existing_connection: bool,
    /// Optional requested TTL when opening a new unrestricted session.
    pub ttl_seconds: Option<u64>,
    /// Optional requested idle timeout when opening a new unrestricted session.
    pub idle_timeout_seconds: Option<u64>,
}

impl Default for AgentCommandSettings {
    /// Arbitrary commands off; reuse connections; no lifetime or idle timeout
    /// asked for.
    fn default() -> (r: Self)
        ensures
            !r.allow_arbitrary_commands,
            r.reuse_existing_connection,
            r.ttl_seconds is None,
            r.idle_timeout_seconds is None,
    {
        AgentCommandSettings {
            allow_arbitrary_commands: false,
            reuse_existing_connection: true,
            ttl_seconds: None,
            idle_timeout_seconds: None,
        }
    }
}

/// Result of an unrestricted command execution driven by user settings.
#[derive(Debug, Clone)]
pub struct AgentCommandResult {
    pub session_id: String,
    pub reused_session: bool,
    pub output: CommandOutput,
}

// ── Errors ──────────────────────────────────────────────────────────────────

/// Why a configuration could not be loaded. The sources of read and parse
/// errors are kept as their text.
#[derive(Debug, Clone, PartialEq, Eq)]
pub enum ConfigError {
    Read { path: String, source: String },
    Parse { source: String },
    Validation(ValidationError),
}

impl ConfigError {
    pub open spec fn text(&self) -> Seq<char> {
        match self {
            ConfigError::Read { path, source } => "failed to read configuration from "@ + path@ + ": "@
                + source@,
            ConfigError::Parse { source } => "failed to parse TOML configuration: "@ + source@,
            ConfigError::Validation(v) => "configuration validation failed:"@ + seq!['\n'] + issue_lines(v.issue_views()),
        }
    }

    pub fn message(&self) -> (r: String)
        ensures
            r@ == self.text(),
    {
        match self {
            ConfigError::Read { path, source } => cat(
                cat3("failed to read configuration from ", path.as_str(), ": ").as_str(),
                source.as_str(),
            ),
            ConfigError::Parse { source } => cat("failed to parse TOML configuration: ", source.as_str()),
            ConfigError::Validation(v) => v.message(),
        }
    }
}

#[derive(Debug, Clone, PartialEq, Eq)]
pub enum AgentSshError {
    Config(ConfigError),
    Broker(BrokerError),
    ArbitraryCommandsDisabledBySettings,
    DotenvRead { path: String, source: String },
    DotenvInvalidLine { line_number: usize, reason: String },
}

impl AgentSshError {
    pub open spec fn text(&self) -> Seq<char> {
        match self {
            AgentSshError::Config(e) => e.text(),
            AgentSshError::Broker(e) => e.text(),
            AgentSshError::ArbitraryCommandsDisabledBySettings => "arbitrary commands are disabled by the user's settings"@,
            AgentSshError::DotenvRead { path, source } => "failed to read dotenv file at "@ + path@ + ": "@
                + source@,
            AgentSshError::DotenvInvalidLine { line_number, reason } => "invalid .env line "@ + decimal(
                *line_number as nat,
            ) + ": "@ + reason@,
        }
    }

    pub fn message(&self) -> (r: String)
        ensures
            r@ == self.text(),
    {
        match self {
            AgentSshError::Config(e) => e.message(),
            AgentSshError::Broker(e) => e.message(),
            AgentSshError::ArbitraryCommandsDisabledBySettings => owned(
                "arbitrary commands are disabled by the user's settings",
            ),
            AgentSshError::DotenvRead { path, source } => cat(
                cat3("failed to read dotenv file at ", path.as_str(), ": ").as_str(),
                source.as_str(),
            ),
            AgentSshError::DotenvInvalidLine { line_number, reason } => {
                let n = u64_to_text(*line_number as u64);
                cat(cat3("invalid .env line ", n.as_str(), ": ").as_str(), reason.as_str())
            },
        }
    }

    /// The error reports a `.env` line that cannot be read.
    pub fn from_dotenv(e: DotenvError) -> (r: Self)
        ensures
            r == (AgentSshError::DotenvInvalidLine { line_number: e.line_number, reason: e.reason }),
    {
        AgentSshError::DotenvInvalidLine { line_number: e.line_number, reason: e.reason }
    }

    /// A command in a reused session failed only because that session is
    /// gone: a new session should be opened instead.
    pub open spec fn is_stale_session(&self) -> bool {
        match self {
            AgentSshError::Broker(BrokerError::SessionExpired { .. }) => true,
            AgentSshError::Broker(BrokerError::SessionIdleTimeout { .. }) => true,
            AgentSshError::Broker(BrokerError::SessionNotFound { .. }) => true,
            _ => false,
        }
    }

    pub fn calls_for_new_session(&self) -> (b: bool)
        ensures
            b == self.is_stale_session(),
    {
        match self {
            AgentSshError::Broker(BrokerError::SessionExpired { .. }) => true,
            AgentSshError::Broker(BrokerError::SessionIdleTimeout { .. }) => true,
            AgentSshError::Broker(BrokerError::SessionNotFound { .. }) => true,
            _ => false,
        }
    }
}

// ── The client ──────────────────────────────────────────────────────────────

/// Agent-friendly wrapper around the broker and session manager.
pub struct AgentSshClient {
    actor: String,
    broker: Broker,
}

impl AgentSshClient {
    pub closed spec fn actor_view(&self) -> Seq<char> {
        self.actor@
    }

    pub closed spec fn broker_view(&self) -> Broker {
        self.broker
    }

    pub fn new(actor: String, broker: Broker) -> (c: Self)
        ensures
            c.actor_view() == actor@,
            c.broker_view() == broker,
    {
        AgentSshClient { actor, broker }
    }

    pub fn actor(&self) -> (r: &str)
        ensures
            r@ == self.actor_view(),
    {
        self.actor.as_str()
    }

    pub fn broker(&self) -> (r: &Broker)
        ensures
            *r == self.broker_view(),
    {
        &self.broker
    }

    /// Every configured host, and the event that records the listing.
    pub fn list_hosts(&self) -> (r: AuditedOutcome<Vec<HostSummary>>)
        requires
            self.broker_view().wf(),
        ensures
            self.broker_view().hosts_listed(self.actor_view(), r),
    {
        self.broker.list_hosts(self.actor.as_str())
    }

    /// The profiles `server_alias` allows, and the event that records the
    /// listing.
    pub fn list_profiles(&self, server_alias: &str) -> (r: AuditedOutcome<Vec<ProfileSummary>>)
        requires
            self.broker_view().wf(),
        ensures
            self.broker_view().profiles_listed(self.actor_view(), server_alias@, r),
    {
        self.broker.list_profiles(self.actor.as_str(), server_alias)
    }

    /// Whether the user's settings let arbitrary commands run at all.
    pub fn check_arbitrary_commands(settings: &AgentCommandSettings) -> (r: Result<(), AgentSshError>)
        ensures
            r is Ok <==> settings.allow_arbitrary_commands,
            r matches Err(e) ==> e == AgentSshError::ArbitraryCommandsDisabledBySettings,
    {
        if !settings.allow_arbitrary_commands {
            return Err(AgentSshError::ArbitraryCommandsDisabledBySettings);
        }
        Ok(())
    }
}

// ── Running an unrestricted command ─────────────────────────────────────────

/// What the client does next while running an unrestricted command.
#[derive(Debug, Clone, PartialEq, Eq)]
pub enum UnrestrictedStep {
    /// Look for an unrestricted session on the server to reuse.
    LookForSession,
    /// Run the command in the session with this identifier.
    UseSession { session_id: String },
    /// Open a new unrestricted session and run the command in it.
    OpenSession,
    /// Stop with this error.
    Stop(AgentSshError),
}

/// What the client learned from its last step.
#[derive(Debug, Clone, PartialEq, Eq)]
pub enum UnrestrictedEvent {
    /// Nothing has been done yet.
    Start,
    /// The search for a session to reuse found this one, or none.
    Found(Option<SessionRecord>),
    /// Running the command in the reused session failed with this error.
    ReuseFailed(AgentSshError),
}

/// The next step: refuse when the settings forbid arbitrary commands; look
/// for a session to reuse when the settings ask for reuse; reuse the session
/// found; open a new session when none was found, reuse is off, or the reused
/// session turned out to be gone; otherwise stop with the error.
pub open spec fn unrestricted_step(settings: AgentCommandSettings, event: UnrestrictedEvent) -> UnrestrictedStep {
    match event {
        UnrestrictedEvent::Start => if !settings.allow_arbitrary_commands {
            UnrestrictedStep::Stop(AgentSshError::ArbitraryCommandsDisabledBySettings)
        } else if settings.reuse_existing_connection {
            UnrestrictedStep::LookForSession
        } else {
            UnrestrictedStep::OpenSession
        },
        UnrestrictedEvent::Found(found) => match found {
            Some(s) => UnrestrictedStep::UseSession { session_id: s.id },
            None => UnrestrictedStep::OpenSession,
        },
        UnrestrictedEvent::ReuseFailed(e) => if e.is_stale_session() {
            UnrestrictedStep::OpenSession
        } else {
            UnrestrictedStep::Stop(e)
        },
    }
}

/// Decides the next step of running an unrestricted command.
pub fn next_unrestricted_step(settings: &AgentCommandSettings, event: UnrestrictedEvent) -> (r:
    UnrestrictedStep)
    ensures
        r == unrestricted_step(*settings, event),
{
    match event {
        UnrestrictedEvent::Start => {
            if let Err(e) = AgentSshClient::check_arbitrary_commands(settings) {
                UnrestrictedStep::Stop(e)
            } else if settings.reuse_existing_connection {
                UnrestrictedStep::LookForSession
            } else {
                UnrestrictedStep::OpenSession
            }
        },
        UnrestrictedEvent::Found(found) => match found {
            Some(s) => UnrestrictedStep::UseSession { session_id: s.id },
            None => UnrestrictedStep::OpenSession,
        },
        UnrestrictedEvent::ReuseFailed(e) => {
            if e.calls_for_new_session() {
                UnrestrictedStep::OpenSession
            } else {
                UnrestrictedStep::Stop(e)
            }
        },
    }
}

// ── Choosing a session to reuse ─────────────────────────────────────────────

/// An unrestricted session on server `alias`.
pub open spec fn reusable(s: SessionRecord, alias: Seq<char>) -> bool {
    s.server_alias@ == alias && s.mode == SessionMode::Unrestricted
}

/// Position `j` holds the most recently used reusable session, and no later
/// position holds one used as recently.
pub open spec fn is_newest_reusable(v: Seq<SessionRecord>, alias: Seq<char>, j: int) -> bool {
    &&& 0 <= j < v.len()
    &&& reusable(v[j], alias)
    &&& forall|k: int|
        0 <= k < v.len() && reusable(#[trigger] v[k], alias) ==> v[k].last_used_at_unix
            <= v[j].last_used_at_unix
    &&& forall|k: int|
        j < k < v.len() && reusable(#[trigger] v[k], alias) ==> v[k].last_used_at_unix
            < v[j].last_used_at_unix
}

/// The unrestricted session on `server_alias` that was used last; of
/// sessions used at the same moment, the one listed last.
pub fn reusable_unrestricted_session_for_server(sessions: Vec<SessionRecord>, server_alias: &str) -> (r:
    Option<SessionRecord>)
    ensures
        match r {
            None => forall|k: int| 0 <= k < sessions@.len() ==> !reusable(#[trigger] sessions@[k], server_alias@),
            Some(s) => exists|j: int| is_newest_reusable(sessions@, server_alias@, j) && s == sessions@[j],
        },
{
    let mut best: Option<usize> = None;
    let mut i: usize = 0;
    while i < sessions.len()
        invariant
            i <= sessions@.len(),
            match best {
                None => forall|k: int| 0 <= k < i ==> !reusable(#[trigger] sessions@[k], server_alias@),
                Some(b) => b < i && reusable(sessions@[b as int], server_alias@) && (forall|k: int|
                    0 <= k < i && reusable(#[trigger] sessions@[k], server_alias@)
                        ==> sessions@[k].last_used_at_unix <= sessions@[b as int].last_used_at_unix) && (
                forall|k: int|
                    b < k < i && reusable(#[trigger] sessions@[k], server_alias@)
                        ==> sessions@[k].last_used_at_unix < sessions@[b as int].last_used_at_unix),
            },
        decreases sessions@.len() - i,
    {
        let s = &sessions[i];
        if crate::text::str_eq(s.server_alias.as_str(), server_alias) && s.mode == SessionMode::Unrestricted {
            match best {
                None => {
                    best = Some(i);
                },
                Some(b) => {
                    if sessions[b].last_used_at_unix <= s.last_used_at_unix {
                        best = Some(i);
                    }
                },
            }
        }
        i = i + 1;
    }
    match best {
        None => None,
        Some(b) => {
            let mut sessions = sessions;
            let ghost all = sessions@;
            let s = sessions.remove(b);
            assert(s == all[b as int]);
            Some(s)
        },
    }
}

} // verus!
