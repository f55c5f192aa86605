//! Broker-held interactive sessions: the records that describe them, when they
//! lapse, and the policy that decides whether one may be opened and which
//! command runs in it.
use vstd::prelude::*;

use crate::config::{AuthMethod, Config, ServerConfig};
use crate::error::BrokerError;
use crate::planner::{
    allows_profile, auth_label, auth_method_kind_label, normalize_request_reference,
    normalized_ref, server_allows, AuditLogger,
};
use crate::render::{render_outcome, render_result, CompiledProfile};
use crate::table::Table;
use crate::audit::{new_audit_event, AuditAction, AuditContext, AuditEvent, AuditOutcome};
use crate::executor::{text_views, CommandOutput};
use crate::text::{
    byte_len, cat, cat3, cat5, chars_in_bytes, chars_of, decimal, i64_to_text, is_char_boundary,
    is_ctrl, is_ctrl_char, opt_view, owned, signed_decimal, str_bytes_exceed, take_bytes, u64_to_text,
};

verus! {

/// Longest lifetime a caller may ask for, in seconds.
pub const MAX_SESSION_TTL_SECONDS: u64 = 3600;

/// Lifetime given when the caller names none, in seconds.
pub const DEFAULT_SESSION_TTL_SECONDS: u64 = 300;

/// Idle timeout given when the caller names none, in seconds.
pub const DEFAULT_IDLE_TIMEOUT_SECONDS: u64 = 60;

/// Longest raw command accepted in an unrestricted session, in bytes.
pub const MAX_COMMAND_LEN: usize = 4096;

/// Most output kept from one command, per stream, in bytes.
pub const MAX_OUTPUT_BYTES: usize = 1048576;

/// How a session may execute commands.
#[derive(Debug, Clone, Copy, PartialEq, Eq, Structural)]
pub enum SessionMode {
    /// Only commands that match the server's allowed profiles may execute.
    Restricted,
    /// Any command may execute. Requires explicit server opt-in and an approval reference.
    Unrestricted,
}

pub open spec fn mode_text(m: SessionMode) -> Seq<char> {
    match m {
        SessionMode::Restricted => "restricted"@,
        SessionMode::Unrestricted => "unrestricted"@,
    }
}

impl SessionMode {
    /// The mode as it is written: `restricted` or `unrestricted`.
    pub fn as_text(&self) -> (r: String)
        ensures
            r@ == mode_text(*self),
    {
        match self {
            SessionMode::Restricted => crate::text::owned("restricted"),
            SessionMode::Unrestricted => crate::text::owned("unrestricted"),
        }
    }
}

/// A persisted record for an open broker session.
#[derive(Debug, Clone, PartialEq, Eq)]
pub struct SessionRecord {
    /// Unique session identifier (UUID v4 as string).
    pub id: String,
    /// Server alias this session is connected to.
    pub server_alias: String,
    /// Remote host.
    pub host: String,
    /// Remote port.
    pub port: u16,
    /// Remote user.
    pub user: String,
    /// Environment label from server config.
    pub environment: String,
    /// Auth method kind: "certificate" or "legacy_password".
    pub auth_method_kind: String,
    /// Execution mode.
    pub mode: SessionMode,
    /// Unix timestamp (seconds) when the session was opened.
    pub opened_at_unix: i64,
    /// Unix timestamp (seconds) of the last command execution (or open time initially).
    pub last_used_at_unix: i64,
    /// Session TTL in seconds from open time.
    pub ttl_seconds: u64,
    /// Idle timeout in seconds from last command.
    pub idle_timeout_seconds: u64,
    /// Approval reference recorded at session open time.
    pub approval_reference: Option<String>,
    /// Filesystem path to the SSH ControlMaster socket.
    pub control_socket_path: String,
}

impl SessionRecord {
    /// More than the lifetime has passed since the session was opened.
    pub open spec fn expired_at(&self, now: int) -> bool {
        now - self.opened_at_unix > self.ttl_seconds
    }

    /// More than the idle timeout has passed since the session was last used.
    pub open spec fn idle_at(&self, now: int) -> bool {
        now - self.last_used_at_unix > self.idle_timeout_seconds
    }

    /// Returns true if the session's absolute TTL has elapsed.
    pub fn is_expired(&self, now_unix: i64) -> (b: bool)
        ensures
            b == self.expired_at(now_unix as int),
    {
        let age: i128 = now_unix as i128 - self.opened_at_unix as i128;
        age > self.ttl_seconds as i128
    }

    /// Returns true if the session's idle timeout has elapsed.
    pub fn is_idle_timed_out(&self, now_unix: i64) -> (b: bool)
        ensures
            b == self.idle_at(now_unix as int),
    {
        let idle: i128 = now_unix as i128 - self.last_used_at_unix as i128;
        idle > self.idle_timeout_seconds as i128
    }
}

/// Once a session has expired it stays expired, and once it has been idle
/// too long it stays so, as time moves on.
pub proof fn lapse_is_permanent(s: SessionRecord, earlier: i64, later: i64)
    requires
        earlier <= later,
    ensures
        s.expired_at(earlier as int) ==> s.expired_at(later as int),
        s.idle_at(earlier as int) ==> s.idle_at(later as int),
{
}

/// A session has not lapsed at the moment it was opened and last used.
pub proof fn fresh_session_is_live(s: SessionRecord, now: i64)
    requires
        s.opened_at_unix == now,
        s.last_used_at_unix == now,
    ensures
        !s.expired_at(now as int),
        !s.idle_at(now as int),
{
}

// ── Requests ────────────────────────────────────────────────────────────────

/// Request to open a new interactive session.
#[derive(Debug, Clone, PartialEq, Eq)]
pub struct OpenSessionRequest {
    pub actor: String,
    pub server_alias: String,
    pub mode: SessionMode,
    pub ttl_seconds: Option<u64>,
    pub idle_timeout_seconds: Option<u64>,
    pub approval_reference: Option<String>,
}

/// Request to execute a command inside an open session.
#[derive(Debug, Clone, PartialEq, Eq)]
pub struct SessionExecRequest {
    pub actor: String,
    pub session_id: String,
    /// Profile name — used in Restricted mode.
    pub profile: Option<String>,
    /// Profile arguments — used in Restricted mode.
    pub args: Table<String>,
    /// Raw command — used in Unrestricted mode.
    pub command: Option<String>,
}

// ── The manager ─────────────────────────────────────────────────────────────

/// Manages the lifecycle of broker-controlled SSH sessions.
pub struct SessionManager {
    config: Config,
    compiled_profiles: Table<CompiledProfile>,
    data_dir: String,
}

/// Why opening a session is refused.
pub ghost enum OpenRefusal {
    UnknownServer,
    UnrestrictedNotAllowed,
    ServerApprovalFlagMissing,
    ApprovalMissing,
    LegacyPassword,
}

pub open spec fn legacy_session_reason() -> Seq<char> {
    "legacy_password auth is not supported for persistent sessions; use `agent-ssh exec` instead"@
}

/// The first policy rule that opening a session for `req` breaks, if any.
pub open spec fn open_refusal(cfg: Config, req: OpenSessionRequest) -> Option<OpenRefusal> {
    match cfg.servers.lookup(req.server_alias@) {
        None => Some(OpenRefusal::UnknownServer),
        Some(s) => if req.mode == SessionMode::Unrestricted && !s.allow_unrestricted_sessions {
            Some(OpenRefusal::UnrestrictedNotAllowed)
        } else if req.mode == SessionMode::Unrestricted && !s.requires_approval {
            Some(OpenRefusal::ServerApprovalFlagMissing)
        } else if req.mode == SessionMode::Unrestricted && normalized_ref(req.approval_reference) is None {
            Some(OpenRefusal::ApprovalMissing)
        } else if s.auth_method == AuthMethod::LegacyPassword {
            Some(OpenRefusal::LegacyPassword)
        } else {
            None
        },
    }
}

/// `e` is the error that reports refusal `k` for the server alias `alias`.
pub open spec fn refused_with(k: OpenRefusal, alias: Seq<char>, e: BrokerError) -> bool {
    match k {
        OpenRefusal::UnknownServer => e matches BrokerError::UnknownServer { alias: a } && a@ == alias,
        OpenRefusal::UnrestrictedNotAllowed => e matches BrokerError::UnrestrictedSessionNotAllowed {
            server,
        } && server@ == alias,
        OpenRefusal::ServerApprovalFlagMissing => e matches BrokerError::UnrestrictedSessionRequiresServerApprovalFlag {
            server,
        } && server@ == alias,
        OpenRefusal::ApprovalMissing => e matches BrokerError::UnrestrictedSessionRequiresApproval {
            server,
        } && server@ == alias,
        OpenRefusal::LegacyPassword => e matches BrokerError::SessionCommandDenied { server, reason }
            && server@ == alias && reason@ == legacy_session_reason(),
    }
}

/// The lifetime a session opened for `req` gets.
pub open spec fn session_ttl(req: OpenSessionRequest) -> u64 {
    let asked = match req.ttl_seconds {
        Some(t) => t,
        None => DEFAULT_SESSION_TTL_SECONDS,
    };
    if asked < MAX_SESSION_TTL_SECONDS {
        asked
    } else {
        MAX_SESSION_TTL_SECONDS
    }
}

/// The idle timeout a session opened for `req` gets.
pub open spec fn session_idle_timeout(req: OpenSessionRequest) -> u64 {
    match req.idle_timeout_seconds {
        Some(t) => t,
        None => DEFAULT_IDLE_TIMEOUT_SECONDS,
    }
}

/// The control socket of a session whose identifier in hex is `hex`.
pub open spec fn socket_path_for(hex: Seq<char>) -> Seq<char> {
    "/tmp/agent-ssh-"@ + hex.take(8) + ".sock"@
}

/// `r` describes a session opened at `now` on server `s` for `req`.
pub open spec fn opened_record(r: SessionRecord, req: OpenSessionRequest, s: ServerConfig, now: int) -> bool {
    &&& r.server_alias@ == req.server_alias@
    &&& r.host@ == s.host@
    &&& r.port == s.port
    &&& r.user@ == s.user@
    &&& r.environment@ == s.environment@
    &&& r.auth_method_kind@ == auth_label(s.auth_method)
    &&& r.mode == req.mode
    &&& r.opened_at_unix == now
    &&& r.last_used_at_unix == now
    &&& r.ttl_seconds == session_ttl(req)
    &&& r.idle_timeout_seconds == session_idle_timeout(req)
    &&& opt_view(r.approval_reference) == normalized_ref(req.approval_reference)
}

/// The lower-case hex digit for `d` in `0..16`.
pub open spec fn hex_digit_char(d: int) -> char {
    if d < 10 {
        (48 + d) as char
    } else {
        (87 + d) as char
    }
}

/// The `i`-th four-bit digit of `v`, counting from the most significant.
pub open spec fn uuid_nibble(v: u128, i: int) -> int {
    ((v >> ((124 - 4 * i) as u128)) & 0xf) as int
}

/// The UUID with value `v` written as 32 lower-case hex digits.
pub open spec fn simple_uuid_text(v: u128) -> Seq<char> {
    Seq::new(32, |i: int| hex_digit_char(uuid_nibble(v, i)))
}

/// The position among the hex digits of character `j` of the hyphenated form.
pub open spec fn hyphenated_digit_index(j: int) -> int {
    if j < 8 {
        j
    } else if j < 13 {
        j - 1
    } else if j < 18 {
        j - 2
    } else if j < 23 {
        j - 3
    } else {
        j - 4
    }
}

/// The UUID with value `v` written as lower-case hex digits in groups of
/// 8-4-4-4-12.
pub open spec fn hyphenated_uuid_text(v: u128) -> Seq<char> {
    Seq::new(
        36,
        |j: int|
            if j == 8 || j == 13 || j == 18 || j == 23 {
                '-'
            } else {
                hex_digit_char(uuid_nibble(v, hyphenated_digit_index(j)))
            },
    )
}

/// `uuid::Uuid::as_u128`: the identifier as one big-endian 128-bit value.
/// Nothing is claimed of the value.
#[verifier::external_body]
fn uuid_value(id: &uuid::Uuid) -> u128 {
    id.as_u128()
}

/// `uuid::Uuid`'s `Display` (through `to_string`) of the identifier with value
/// `v`: its 32 lower-case hex digits, most significant first, with hyphens
/// after the 8th, 12th, 16th and 20th digit.
#[verifier::external_body]
fn uuid_hyphenated(v: u128) -> (t: String)
    ensures
        t@ == hyphenated_uuid_text(v),
{
    uuid::Uuid::from_u128(v).to_string()
}

/// `uuid::Uuid::simple` written out with `to_string`, of the identifier with
/// value `v`: its 32 lower-case hex digits, most significant first.
#[verifier::external_body]
fn uuid_simple(v: u128) -> (t: String)
    ensures
        t@ == simple_uuid_text(v),
{
    uuid::Uuid::from_u128(v).simple().to_string()
}

impl SessionManager {
    pub closed spec fn cfg(&self) -> Config {
        self.config
    }

    pub closed spec fn compiled(&self) -> Table<CompiledProfile> {
        self.compiled_profiles
    }

    pub closed spec fn dir(&self) -> Seq<char> {
        self.data_dir@
    }

    /// The tables are ordered.
    pub open spec fn wf(&self) -> bool {
        &&& self.cfg().servers.wf()
        &&& self.cfg().profiles.wf()
        &&& self.compiled().wf()
    }

    pub fn new(config: Config, compiled_profiles: Table<CompiledProfile>, data_dir: String) -> (m: Self)
        ensures
            m.cfg() == config,
            m.compiled() == compiled_profiles,
            m.dir() == data_dir@,
    {
        SessionManager { config, compiled_profiles, data_dir }
    }

    pub fn audit_logger(&self) -> (r: AuditLogger)
        ensures
            r.path_view() == self.cfg().broker.audit_log_path@,
    {
        AuditLogger::new(self.config.broker.audit_log_path.as_str())
    }

    /// The directory under which session records are kept.
    pub fn data_dir(&self) -> (r: &str)
        ensures
            r@ == self.dir(),
    {
        self.data_dir.as_str()
    }

    pub fn config(&self) -> (r: &Config)
        ensures
            *r == self.cfg(),
    {
        &self.config
    }

    /// The record of a session opened for `request` at `now` with the
    /// identifier `id` (and `id_hex`, the same identifier in plain hex), or
    /// the policy rule that forbids opening it.
    pub fn build_session_record(
        &self,
        request: &OpenSessionRequest,
        id: &str,
        id_hex: &str,
        now: i64,
    ) -> (r: Result<SessionRecord, BrokerError>)
        requires
            self.wf(),
            id_hex@.len() >= 8,
        ensures
            match open_refusal(self.cfg(), *request) {
                Some(k) => (r matches Err(e) && refused_with(k, request.server_alias@, e)),
                None => (r matches Ok(rec) && rec.id@ == id@ && rec.control_socket_path@ == socket_path_for(id_hex@)
                    && opened_record(rec, *request, self.cfg().servers.lookup(request.server_alias@)->0, now as int)),
            },
    {
        let alias = request.server_alias.as_str();
        let server = match self.config.servers.get(alias) {
            Some(s) => s,
            None => {
                return Err(BrokerError::UnknownServer { alias: owned(alias) });
            },
        };
        if request.mode == SessionMode::Unrestricted {
            if !server.allow_unrestricted_sessions {
                return Err(BrokerError::UnrestrictedSessionNotAllowed { server: owned(alias) });
            }
            if !server.requires_approval {
                return Err(
                    BrokerError::UnrestrictedSessionRequiresServerApprovalFlag { server: owned(alias) },
                );
            }
            if normalize_request_reference(&request.approval_reference).is_none() {
                return Err(BrokerError::UnrestrictedSessionRequiresApproval { server: owned(alias) });
            }
        }
        if server.auth_method == AuthMethod::LegacyPassword {
            return Err(
                BrokerError::SessionCommandDenied {
                    server: owned(alias),
                    reason: owned(
                        "legacy_password auth is not supported for persistent sessions; use `agent-ssh exec` instead",
                    ),
                },
            );
        }
        let asked = match request.ttl_seconds {
            Some(t) => t,
            None => DEFAULT_SESSION_TTL_SECONDS,
        };
        let ttl = if asked < MAX_SESSION_TTL_SECONDS {
            asked
        } else {
            MAX_SESSION_TTL_SECONDS
        };
        let idle_timeout = match request.idle_timeout_seconds {
            Some(t) => t,
            None => DEFAULT_IDLE_TIMEOUT_SECONDS,
        };
        let hex = chars_of(id_hex);
        let mut socket_path = owned("/tmp/agent-ssh-");
        let mut i: usize = 0;
        let ghost head = socket_path@;
        while i < 8
            invariant
                i <= 8,
                hex@ == id_hex@,
                hex@.len() >= 8,
                socket_path@ == head + hex@.take(i as int),
            decreases 8 - i,
        {
            crate::text::push_char(&mut socket_path, hex[i]);
            i = i + 1;
            assert(socket_path@ =~= head + hex@.take(i as int));
        }
        let socket_path = cat(socket_path.as_str(), ".sock");
        Ok(
            SessionRecord {
                id: owned(id),
                server_alias: owned(alias),
                host: owned(server.host.as_str()),
                port: server.port,
                user: owned(server.user.as_str()),
                environment: owned(server.environment.as_str()),
                auth_method_kind: auth_method_kind_label(&server.auth_method),
                mode: request.mode,
                opened_at_unix: now,
                last_used_at_unix: now,
                ttl_seconds: ttl,
                idle_timeout_seconds: idle_timeout,
                approval_reference: normalize_request_reference(&request.approval_reference),
                control_socket_path: socket_path,
            },
        )
    }

    /// The record of a new session for `request`, with a fresh identifier
    /// and the current time, or the policy rule that forbids opening it.
    pub fn prepare_session(&self, request: &OpenSessionRequest) -> (r: Result<SessionRecord, BrokerError>)
        requires
            self.wf(),
        ensures
            match open_refusal(self.cfg(), *request) {
                Some(k) => (r matches Err(e) && refused_with(k, request.server_alias@, e)),
                None => (r matches Ok(rec) && (exists|v: u128|
                    rec.id@ == hyphenated_uuid_text(v) && rec.control_socket_path@ == socket_path_for(
                        #[trigger] simple_uuid_text(v),
                    )) && rec.control_socket_path@ == socket_path_for(rec.id@)
                    && opened_record(rec, *request, self.cfg().servers.lookup(request.server_alias@)->0, rec.opened_at_unix as int)),
            },
    {
        let id = crate::audit::new_event_id();
        let v = uuid_value(&id);
        let id_text = uuid_hyphenated(v);
        let id_hex = uuid_simple(v);
        proof {
            assert(id_hex@.take(8) =~= id_text@.take(8));
        }
        let now = crate::audit::now_unix();
        self.build_session_record(request, id_text.as_str(), id_hex.as_str(), now)
    }

    /// The command that `request` runs in `session`, or why it may not run.
    pub fn resolve_command(&self, session: &SessionRecord, request: &SessionExecRequest) -> (r: Result<
        String,
        BrokerError,
    >)
        requires
            self.wf(),
            request.args.wf(),
        ensures
            command_resolved(self.cfg(), self.compiled(), *session, *request, r),
    {
        let alias = session.server_alias.as_str();
        match session.mode {
            SessionMode::Restricted => {
                let profile_name = match &request.profile {
                    Some(p) => p.as_str(),
                    None => {
                        return Err(
                            BrokerError::SessionCommandDenied {
                                server: owned(alias),
                                reason: owned("restricted sessions require --profile"),
                            },
                        );
                    },
                };
                let server = match self.config.servers.get(alias) {
                    Some(s) => s,
                    None => {
                        return Err(BrokerError::UnknownServer { alias: owned(alias) });
                    },
                };
                if !server_allows(server, profile_name) {
                    return Err(
                        BrokerError::ProfileNotAllowed {
                            server: owned(alias),
                            profile: owned(profile_name),
                        },
                    );
                }
                let compiled = match self.compiled_profiles.get(profile_name) {
                    Some(c) => c,
                    None => {
                        return Err(BrokerError::UnknownProfile { profile: owned(profile_name) });
                    },
                };
                compiled.render(profile_name, &request.args)
            },
            SessionMode::Unrestricted => {
                let cmd = match &request.command {
                    Some(c) => c.as_str(),
                    None => {
                        return Err(
                            BrokerError::SessionCommandDenied {
                                server: owned(alias),
                                reason: owned("unrestricted sessions require --cmd"),
                            },
                        );
                    },
                };
                let length = cmd.as_bytes().len();
                if length > MAX_COMMAND_LEN {
                    return Err(BrokerError::SessionCommandTooLong { length, max: MAX_COMMAND_LEN });
                }
                if has_forbidden_control(cmd) {
                    return Err(
                        BrokerError::SessionCommandDenied {
                            server: owned(alias),
                            reason: owned("command must not contain control characters"),
                        },
                    );
                }
                Ok(owned(cmd))
            },
        }
    }

    /// What to do with `request` against `session` at `now`: run a command,
    /// refuse, or refuse and close the session because it has lapsed.
    pub fn decide_exec(&self, session: &SessionRecord, request: &SessionExecRequest, now: i64) -> (d:
        ExecDecision)
        requires
            self.wf(),
            request.args.wf(),
        ensures
            exec_decided(self.cfg(), self.compiled(), *session, *request, now as int, d),
    {
        if session.is_expired(now) {
            return ExecDecision::CloseAndRefuse(
                BrokerError::SessionExpired { id: owned(request.session_id.as_str()) },
            );
        }
        if session.is_idle_timed_out(now) {
            return ExecDecision::CloseAndRefuse(
                BrokerError::SessionIdleTimeout { id: owned(request.session_id.as_str()) },
            );
        }
        match self.resolve_command(session, request) {
            Ok(command) => ExecDecision::Run(command),
            Err(e) => ExecDecision::Refuse(e),
        }
    }
}

// ── Running a command ───────────────────────────────────────────────────────

/// A control character other than a tab.
pub open spec fn is_forbidden_control(c: char) -> bool {
    is_ctrl(c) && c != '\t'
}

pub open spec fn has_forbidden(s: Seq<char>) -> bool {
    exists|i: int| 0 <= i < s.len() && is_forbidden_control(#[trigger] s[i])
}

pub open spec fn denied(e: BrokerError, server: Seq<char>, reason: Seq<char>) -> bool {
    e matches BrokerError::SessionCommandDenied { server: s, reason: r } && s@ == server && r@ == reason
}

/// `r` is what resolving the command of `req` in `session` gives.
pub open spec fn command_resolved(
    cfg: Config,
    compiled: Table<CompiledProfile>,
    session: SessionRecord,
    req: SessionExecRequest,
    r: Result<String, BrokerError>,
) -> bool {
    let alias = session.server_alias@;
    match session.mode {
        SessionMode::Restricted => match req.profile {
            None => r matches Err(e) && denied(e, alias, "restricted sessions require --profile"@),
            Some(p) => match cfg.servers.lookup(alias) {
                None => r matches Err(BrokerError::UnknownServer { alias: a }) && a@ == alias,
                Some(s) => if !allows_profile(s, p@) {
                    r matches Err(BrokerError::ProfileNotAllowed { server, profile }) && server@ == alias
                        && profile@ == p@
                } else {
                    match compiled.lookup(p@) {
                        None => r matches Err(BrokerError::UnknownProfile { profile }) && profile@ == p@,
                        Some(c) => render_result(render_outcome(c.toks(), c.phs(), req.args), p@, r),
                    }
                },
            },
        },
        SessionMode::Unrestricted => match req.command {
            None => r matches Err(e) && denied(e, alias, "unrestricted sessions require --cmd"@),
            Some(c) => if byte_len(c@) > MAX_COMMAND_LEN {
                r matches Err(BrokerError::SessionCommandTooLong { length, max }) && length == byte_len(c@)
                    && max == MAX_COMMAND_LEN
            } else if has_forbidden(c@) {
                r matches Err(e) && denied(e, alias, "command must not contain control characters"@)
            } else {
                r matches Ok(t) && t@ == c@
            },
        },
    }
}

/// What happens to a command request in a session.
#[derive(Debug)]
pub enum ExecDecision {
    /// Run this command over the session's connection.
    Run(String),
    /// Refuse with this error; the session stays open.
    Refuse(BrokerError),
    /// The session has lapsed: close it and refuse with this error.
    CloseAndRefuse(BrokerError),
}

pub open spec fn exec_decided(
    cfg: Config,
    compiled: Table<CompiledProfile>,
    session: SessionRecord,
    req: SessionExecRequest,
    now: int,
    d: ExecDecision,
) -> bool {
    if session.expired_at(now) {
        d matches ExecDecision::CloseAndRefuse(BrokerError::SessionExpired { id }) && id@ == req.session_id@
    } else if session.idle_at(now) {
        d matches ExecDecision::CloseAndRefuse(BrokerError::SessionIdleTimeout { id }) && id@
            == req.session_id@
    } else {
        match d {
            ExecDecision::Run(c) => command_resolved(cfg, compiled, session, req, Ok(c)),
            ExecDecision::Refuse(e) => command_resolved(cfg, compiled, session, req, Err(e)),
            ExecDecision::CloseAndRefuse(_) => false,
        }
    }
}

fn has_forbidden_control(s: &str) -> (b: bool)
    ensures
        b == has_forbidden(s@),
{
    let v = chars_of(s);
    let mut i: usize = 0;
    while i < v.len()
        invariant
            i <= v.len(),
            v@ == s@,
            forall|j: int| 0 <= j < i ==> !is_forbidden_control(#[trigger] v@[j]),
        decreases v.len() - i,
    {
        if is_ctrl_char(v[i]) && v[i] != '\t' {
            assert(is_forbidden_control(v@[i as int]));
            return true;
        }
        i = i + 1;
    }
    false
}

/// `s` cut to its first `MAX_OUTPUT_BYTES` bytes with a note appended, when
/// it is longer than that.
pub open spec fn truncated(s: Seq<char>) -> Seq<char> {
    if byte_len(s) > MAX_OUTPUT_BYTES {
        s.take(chars_in_bytes(s, MAX_OUTPUT_BYTES as int)) + "\n[output truncated]\n"@
    } else {
        s
    }
}

fn truncate_text(s: String) -> (r: String)
    requires
        byte_len(s@) > MAX_OUTPUT_BYTES ==> is_char_boundary(s@, MAX_OUTPUT_BYTES as int),
    ensures
        r@ == truncated(s@),
{
    if str_bytes_exceed(s.as_str(), MAX_OUTPUT_BYTES) {
        let kept = take_bytes(s.as_str(), MAX_OUTPUT_BYTES);
        cat(kept.as_str(), "\n[output truncated]\n")
    } else {
        s
    }
}

/// Caps each stream of `output` at `MAX_OUTPUT_BYTES`, noting the cut. A
/// stream is cut only where a character ends.
pub fn truncate_output(output: CommandOutput) -> (r: CommandOutput)
    requires
        byte_len(output.stdout@) > MAX_OUTPUT_BYTES ==> is_char_boundary(
            output.stdout@,
            MAX_OUTPUT_BYTES as int,
        ),
        byte_len(output.stderr@) > MAX_OUTPUT_BYTES ==> is_char_boundary(
            output.stderr@,
            MAX_OUTPUT_BYTES as int,
        ),
    ensures
        r.stdout@ == truncated(output.stdout@),
        r.stderr@ == truncated(output.stderr@),
        r.exit_code == output.exit_code,
{
    let CommandOutput { stdout, stderr, exit_code } = output;
    CommandOutput { stdout: truncate_text(stdout), stderr: truncate_text(stderr), exit_code }
}

// ── Audit events ────────────────────────────────────────────────────────────

/// The fields every session event sets the same way.
pub open spec fn session_event_shape(e: AuditEvent, actor: Seq<char>, action: AuditAction) -> bool {
    &&& e.actor@ == actor
    &&& e.action == action
    &&& e.profile is None
    &&& e.args.wf()
    &&& e.args.keys().len() == 0
    &&& e.rendered_command is None
    &&& !e.requires_approval
    &&& e.signer is None
    &&& opt_view(e.transport) == Some("system_ssh"@)
}

pub open spec fn open_message(rec: SessionRecord) -> Seq<char> {
    "session '"@ + rec.id@ + "' opened on server '"@ + rec.server_alias@ + "' (mode="@ + mode_text(rec.mode)
        + ", ttl="@ + decimal(rec.ttl_seconds as nat) + "s)"@
}

/// How a command request ended, as the audit trail records it.
pub open spec fn command_outcome(r: Result<CommandOutput, BrokerError>) -> AuditOutcome {
    match r {
        Ok(_) => AuditOutcome::Executed,
        Err(e) => match e {
            BrokerError::SessionCommandDenied { .. } => AuditOutcome::Denied,
            BrokerError::SessionCommandTooLong { .. } => AuditOutcome::Denied,
            BrokerError::ProfileNotAllowed { .. } => AuditOutcome::Denied,
            BrokerError::SessionExpired { .. } => AuditOutcome::Expired,
            BrokerError::SessionIdleTimeout { .. } => AuditOutcome::Expired,
            _ => AuditOutcome::Failed,
        },
    }
}

pub open spec fn snapshot_alias(s: Option<&SessionRecord>) -> Seq<char> {
    match s {
        Some(r) => r.server_alias@,
        None => "(unknown)"@,
    }
}

pub open spec fn snapshot_env(s: Option<&SessionRecord>) -> Option<Seq<char>> {
    match s {
        Some(r) => Some(r.environment@),
        None => None,
    }
}

pub open spec fn snapshot_kind(s: Option<&SessionRecord>) -> Option<Seq<char>> {
    match s {
        Some(r) => Some(r.auth_method_kind@),
        None => None,
    }
}

fn session_event(
    actor: &str,
    action: AuditAction,
    outcome: AuditOutcome,
    message: String,
    server_alias: String,
    environment: Option<String>,
    session_id: Option<String>,
    approval_reference: Option<String>,
    auth_method_kind: Option<String>,
    exit_code: Option<i32>,
) -> (e: AuditEvent)
    ensures
        session_event_shape(e, actor@, action),
        e.outcome == outcome,
        e.message@ == message@,
        opt_view(e.server_alias) == Some(server_alias@),
        e.environment == environment,
        e.session_id == session_id,
        e.approval_reference == approval_reference,
        e.auth_method_kind == auth_method_kind,
        e.exit_code == exit_code,
{
    let mut ctx = AuditContext::empty();
    ctx.server_alias = Some(server_alias);
    ctx.environment = environment;
    ctx.session_id = session_id;
    ctx.approval_reference = approval_reference;
    ctx.auth_method_kind = auth_method_kind;
    ctx.exit_code = exit_code;
    ctx.transport = Some(owned("system_ssh"));
    new_audit_event(actor, action, outcome, message, ctx)
}

fn snapshot_fields(snapshot: Option<&SessionRecord>) -> (r: (String, Option<String>, Option<String>))
    ensures
        r.0@ == snapshot_alias(snapshot),
        opt_view(r.1) == snapshot_env(snapshot),
        opt_view(r.2) == snapshot_kind(snapshot),
{
    match snapshot {
        Some(s) => (
            owned(s.server_alias.as_str()),
            Some(owned(s.environment.as_str())),
            Some(owned(s.auth_method_kind.as_str())),
        ),
        None => (owned("(unknown)"), None, None),
    }
}

impl SessionManager {
    /// The audit event for an attempt to open a session.
    pub fn session_open_event(
        &self,
        request: &OpenSessionRequest,
        result: &Result<SessionRecord, BrokerError>,
    ) -> (e: AuditEvent)
        requires
            self.wf(),
        ensures
            session_event_shape(e, request.actor@, AuditAction::SessionOpen),
            opt_view(e.server_alias) == Some(request.server_alias@),
            opt_view(e.approval_reference) == normalized_ref(request.approval_reference),
            e.exit_code is None,
            match *result {
                Ok(rec) => e.outcome == AuditOutcome::Succeeded && e.message@ == open_message(rec)
                    && opt_view(e.session_id) == Some(rec.id@) && opt_view(e.environment) == Some(
                    rec.environment@,
                ) && opt_view(e.auth_method_kind) == Some(rec.auth_method_kind@),
                Err(err) => e.outcome == AuditOutcome::Denied && e.message@ == err.text()
                    && e.session_id is None && match self.cfg().servers.lookup(request.server_alias@) {
                    Some(s) => opt_view(e.environment) == Some(s.environment@) && opt_view(
                        e.auth_method_kind,
                    ) == Some(auth_label(s.auth_method)),
                    None => e.environment is None && e.auth_method_kind is None,
                },
            },
    {
        let (outcome, message, session_id, environment, auth_method_kind) = match result {
            Ok(session) => {
                let mode = session.mode.as_text();
                let ttl = u64_to_text(session.ttl_seconds);
                let head = cat5(
                    "session '",
                    session.id.as_str(),
                    "' opened on server '",
                    session.server_alias.as_str(),
                    "' (mode=",
                );
                let tail = cat5(head.as_str(), mode.as_str(), ", ttl=", ttl.as_str(), "s)");
                (
                    AuditOutcome::Succeeded,
                    tail,
                    Some(owned(session.id.as_str())),
                    Some(owned(session.environment.as_str())),
                    Some(owned(session.auth_method_kind.as_str())),
                )
            },
            Err(error) => {
                let (env, kind) = match self.config.servers.get(request.server_alias.as_str()) {
                    Some(s) => (
                        Some(owned(s.environment.as_str())),
                        Some(auth_method_kind_label(&s.auth_method)),
                    ),
                    None => (None, None),
                };
                (AuditOutcome::Denied, error.message(), None, env, kind)
            },
        };
        session_event(
            request.actor.as_str(),
            AuditAction::SessionOpen,
            outcome,
            message,
            owned(request.server_alias.as_str()),
            environment,
            session_id,
            normalize_request_reference(&request.approval_reference),
            auth_method_kind,
            None,
        )
    }

    /// The audit event for a command request in a session; `snapshot` is the
    /// session as it was found, if it was.
    pub fn session_command_event(
        &self,
        snapshot: Option<&SessionRecord>,
        request: &SessionExecRequest,
        result: &Result<CommandOutput, BrokerError>,
    ) -> (e: AuditEvent)
        ensures
            session_event_shape(e, request.actor@, AuditAction::SessionCommand),
            opt_view(e.server_alias) == Some(snapshot_alias(snapshot)),
            opt_view(e.environment) == snapshot_env(snapshot),
            opt_view(e.auth_method_kind) == snapshot_kind(snapshot),
            opt_view(e.session_id) == Some(request.session_id@),
            e.approval_reference is None,
            e.outcome == command_outcome(*result),
            match *result {
                Ok(out) => e.message@ == "session command completed with exit code "@ + signed_decimal(
                    out.exit_code as int,
                ) && e.exit_code == Some(out.exit_code),
                Err(err) => e.message@ == err.text() && e.exit_code is None,
            },
    {
        let (server_alias, environment, auth_method_kind) = snapshot_fields(snapshot);
        let (outcome, message, exit_code) = match result {
            Ok(output) => {
                let code = i64_to_text(output.exit_code as i64);
                (
                    AuditOutcome::Executed,
                    cat("session command completed with exit code ", code.as_str()),
                    Some(output.exit_code),
                )
            },
            Err(error) => {
                let outcome = match error {
                    BrokerError::SessionCommandDenied { .. } => AuditOutcome::Denied,
                    BrokerError::SessionCommandTooLong { .. } => AuditOutcome::Denied,
                    BrokerError::ProfileNotAllowed { .. } => AuditOutcome::Denied,
                    BrokerError::SessionExpired { .. } => AuditOutcome::Expired,
                    BrokerError::SessionIdleTimeout { .. } => AuditOutcome::Expired,
                    _ => AuditOutcome::Failed,
                };
                (outcome, error.message(), None)
            },
        };
        session_event(
            request.actor.as_str(),
            AuditAction::SessionCommand,
            outcome,
            message,
            server_alias,
            environment,
            Some(owned(request.session_id.as_str())),
            None,
            auth_method_kind,
            exit_code,
        )
    }

    /// The audit event for closing session `session_id`; `snapshot` is the
    /// session as it was found, if it was.
    pub fn session_close_event(
        &self,
        snapshot: Option<&SessionRecord>,
        session_id: &str,
        actor: &str,
        result: &Result<(), BrokerError>,
    ) -> (e: AuditEvent)
        ensures
            session_event_shape(e, actor@, AuditAction::SessionClose),
            opt_view(e.server_alias) == Some(snapshot_alias(snapshot)),
            opt_view(e.environment) == snapshot_env(snapshot),
            opt_view(e.auth_method_kind) == snapshot_kind(snapshot),
            opt_view(e.session_id) == Some(session_id@),
            e.approval_reference is None,
            e.exit_code is None,
            match *result {
                Ok(()) => e.outcome == AuditOutcome::Succeeded && e.message@ == "session '"@ + session_id@
                    + "' closed"@,
                Err(err) => e.outcome == AuditOutcome::Failed && e.message@ == err.text(),
            },
    {
        let (server_alias, environment, auth_method_kind) = snapshot_fields(snapshot);
        let (outcome, message) = match result {
            Ok(()) => (AuditOutcome::Succeeded, cat3("session '", session_id, "' closed")),
            Err(error) => (AuditOutcome::Failed, error.message()),
        };
        session_event(
            actor,
            AuditAction::SessionClose,
            outcome,
            message,
            server_alias,
            environment,
            Some(owned(session_id)),
            None,
            auth_method_kind,
            None,
        )
    }
}

// ── Listing ─────────────────────────────────────────────────────────────────

/// The session has expired or been idle too long at `now`.
pub open spec fn lapsed(s: SessionRecord, now: int) -> bool {
    s.expired_at(now) || s.idle_at(now)
}

/// Splits `records` into the sessions still live at `now` and those that
/// have lapsed, each in the order given.
pub fn partition_live(records: Vec<SessionRecord>, now: i64) -> (r: (Vec<SessionRecord>, Vec<SessionRecord>))
    ensures
        r.0@ == records@.filter(|s: SessionRecord| !lapsed(s, now as int)),
        r.1@ == records@.filter(|s: SessionRecord| lapsed(s, now as int)),
{
    let ghost live_p = |s: SessionRecord| !lapsed(s, now as int);
    let ghost stale_p = |s: SessionRecord| lapsed(s, now as int);
    let mut live: Vec<SessionRecord> = Vec::new();
    let mut stale: Vec<SessionRecord> = Vec::new();
    let mut rest = records;
    let ghost all = rest@;
    let mut i: usize = 0;
    proof {
        reveal(Seq::filter);
        assert(all.take(0) =~= Seq::<SessionRecord>::empty());
    }
    assert(rest@ =~= all.skip(0));
    let total: usize = rest.len();
    assert(all.len() == total);
    while rest.len() > 0
        invariant
            i + rest@.len() == all.len(),
            all.len() <= usize::MAX,
            live_p == (|s: SessionRecord| !lapsed(s, now as int)),
            stale_p == (|s: SessionRecord| lapsed(s, now as int)),
            rest@ == all.skip(i as int),
            live@ == all.take(i as int).filter(live_p),
            stale@ == all.take(i as int).filter(stale_p),
        decreases rest@.len(),
    {
        let s = rest.remove(0);
        let ghost prev = all.take(i as int);
        let ghost next = all.take(i + 1);
        proof {
            assert(s == all[i as int]);
            assert(next.drop_last() =~= prev);
            assert(next.last() == s);
            reveal(Seq::filter);
            assert(next.filter(live_p) == (if live_p(s) {
                prev.filter(live_p).push(s)
            } else {
                prev.filter(live_p)
            }));
            assert(next.filter(stale_p) == (if stale_p(s) {
                prev.filter(stale_p).push(s)
            } else {
                prev.filter(stale_p)
            }));
        }
        if s.is_expired(now) || s.is_idle_timed_out(now) {
            assert(stale_p(s) && !live_p(s));
            stale.push(s);
        } else {
            assert(live_p(s) && !stale_p(s));
            live.push(s);
        }
        i = i + 1;
        proof {
            assert(rest@ =~= all.skip(i as int));
        }
    }
    proof {
        assert(all.take(i as int) =~= all);
    }
    (live, stale)
}

/// An unrestricted session opens only on a server that allows such
/// sessions and requires approval, only with a non-blank approval reference,
/// and never on a legacy-password server.
pub proof fn unrestricted_sessions_are_gated(cfg: Config, req: OpenSessionRequest)
    requires
        open_refusal(cfg, req) is None,
        req.mode == SessionMode::Unrestricted,
    ensures
        cfg.servers.lookup(req.server_alias@) matches Some(s) && s.allow_unrestricted_sessions
            && s.requires_approval && s.auth_method == AuthMethod::Certificate,
        normalized_ref(req.approval_reference) is Some,
{
}

/// No session lives longer than `MAX_SESSION_TTL_SECONDS`, whatever was
/// asked for.
pub proof fn session_lifetime_is_bounded(req: OpenSessionRequest)
    ensures
        session_ttl(req) <= MAX_SESSION_TTL_SECONDS,
        req.ttl_seconds is None ==> session_ttl(req) == DEFAULT_SESSION_TTL_SECONDS,
{
}

// ── The session's SSH connection ────────────────────────────────────────────

/// `user@host` of a session.
pub open spec fn session_target(s: SessionRecord) -> Seq<char> {
    s.user@ + "@"@ + s.host@
}

pub open spec fn control_path_option(s: SessionRecord) -> Seq<char> {
    "ControlPath="@ + s.control_socket_path@
}

/// The `ssh` arguments that start a session's ControlMaster in the
/// background: publickey only, no prompts, no forwarding.
pub open spec fn master_arg_list(s: SessionRecord) -> Seq<Seq<char>> {
    seq!["-f"@, "-N"@, "-M"@, "-o"@, "ControlPersist=yes"@, "-o"@, control_path_option(s), "-o"@, "BatchMode=yes"@, "-o"@, "StrictHostKeyChecking=accept-new"@, "-o"@, "ConnectTimeout=30"@, "-o"@, "ServerAliveInterval=30"@, "-o"@, "ServerAliveCountMax=3"@, "-o"@, "ForwardAgent=no"@, "-o"@, "ForwardX11=no"@, "-o"@, "PermitLocalCommand=no"@, "-o"@, "PreferredAuthentications=publickey"@, "-o"@, "PubkeyAuthentication=yes"@, "-o"@, "PasswordAuthentication=no"@, "-o"@, "KbdInteractiveAuthentication=no"@, "-o"@, "NumberOfPasswordPrompts=0"@, "-o"@, "IdentitiesOnly=yes"@, "-p"@, decimal(s.port as nat), session_target(s)]
}

/// The `ssh` arguments that send `op` (`check` or `exit`) to a session's
/// ControlMaster.
pub open spec fn control_arg_list(s: SessionRecord, op: Seq<char>) -> Seq<Seq<char>> {
    seq!["-O"@, op, "-o"@, control_path_option(s), "-p"@, decimal(s.port as nat), session_target(s)]
}

/// The `ssh` arguments that run `command` over a session's ControlMaster.
pub open spec fn exec_arg_list(s: SessionRecord, command: Seq<char>) -> Seq<Seq<char>> {
    seq!["-o"@, "ControlMaster=no"@, "-o"@, control_path_option(s), "-o"@, "BatchMode=yes"@, "-o"@, "ForwardAgent=no"@, "-o"@, "ForwardX11=no"@, "-p"@, decimal(s.port as nat), session_target(s), command]
}

pub open spec fn master_refusal_reason() -> Seq<char> {
    "legacy_password auth is not supported for persistent sessions"@
}

fn target_text(s: &SessionRecord) -> (r: String)
    ensures
        r@ == session_target(*s),
{
    cat3(s.user.as_str(), "@", s.host.as_str())
}

fn control_path_text(s: &SessionRecord) -> (r: String)
    ensures
        r@ == control_path_option(*s),
{
    cat("ControlPath=", s.control_socket_path.as_str())
}

/// The arguments that start `session`'s ControlMaster on `server`; a
/// legacy-password server cannot hold one.
pub fn master_ssh_args(session: &SessionRecord, server: &ServerConfig) -> (r: Result<Vec<String>, BrokerError>)
    ensures
        match server.auth_method {
            AuthMethod::Certificate => (r matches Ok(v) && text_views(v@) == master_arg_list(*session)),
            AuthMethod::LegacyPassword => (r matches Err(e) && denied(
                e,
                session.server_alias@,
                master_refusal_reason(),
            )),
        },
{
    if server.auth_method == AuthMethod::LegacyPassword {
        return Err(
            BrokerError::SessionCommandDenied {
                server: owned(session.server_alias.as_str()),
                reason: owned("legacy_password auth is not supported for persistent sessions"),
            },
        );
    }
    let mut v: Vec<String> = Vec::new();
    v.push(owned("-f"));
    v.push(owned("-N"));
    v.push(owned("-M"));
    v.push(owned("-o"));
    v.push(owned("ControlPersist=yes"));
    v.push(owned("-o"));
    v.push(control_path_text(session));
    v.push(owned("-o"));
    v.push(owned("BatchMode=yes"));
    v.push(owned("-o"));
    v.push(owned("StrictHostKeyChecking=accept-new"));
    v.push(owned("-o"));
    v.push(owned("ConnectTimeout=30"));
    v.push(owned("-o"));
    v.push(owned("ServerAliveInterval=30"));
    v.push(owned("-o"));
    v.push(owned("ServerAliveCountMax=3"));
    v.push(owned("-o"));
    v.push(owned("ForwardAgent=no"));
    v.push(owned("-o"));
    v.push(owned("ForwardX11=no"));
    v.push(owned("-o"));
    v.push(owned("PermitLocalCommand=no"));
    v.push(owned("-o"));
    v.push(owned("PreferredAuthentications=publickey"));
    v.push(owned("-o"));
    v.push(owned("PubkeyAuthentication=yes"));
    v.push(owned("-o"));
    v.push(owned("PasswordAuthentication=no"));
    v.push(owned("-o"));
    v.push(owned("KbdInteractiveAuthentication=no"));
    v.push(owned("-o"));
    v.push(owned("NumberOfPasswordPrompts=0"));
    v.push(owned("-o"));
    v.push(owned("IdentitiesOnly=yes"));
    v.push(owned("-p"));
    v.push(u64_to_text(session.port as u64));
    v.push(target_text(session));
    assert(text_views(v@) =~= master_arg_list(*session));
    Ok(v)
}

/// The arguments that send `op` to `session`'s ControlMaster.
pub fn control_ssh_args(session: &SessionRecord, op: &str) -> (r: Vec<String>)
    ensures
        text_views(r@) == control_arg_list(*session, op@),
{
    let mut v: Vec<String> = Vec::new();
    v.push(owned("-O"));
    v.push(owned(op));
    v.push(owned("-o"));
    v.push(control_path_text(session));
    v.push(owned("-p"));
    v.push(u64_to_text(session.port as u64));
    v.push(target_text(session));
    assert(text_views(v@) =~= control_arg_list(*session, op@));
    v
}

/// The arguments that run `command` over `session`'s ControlMaster.
pub fn exec_ssh_args(session: &SessionRecord, command: &str) -> (r: Vec<String>)
    ensures
        text_views(r@) == exec_arg_list(*session, command@),
{
    let mut v: Vec<String> = Vec::new();
    v.push(owned("-o"));
    v.push(owned("ControlMaster=no"));
    v.push(owned("-o"));
    v.push(control_path_text(session));
    v.push(owned("-o"));
    v.push(owned("BatchMode=yes"));
    v.push(owned("-o"));
    v.push(owned("ForwardAgent=no"));
    v.push(owned("-o"));
    v.push(owned("ForwardX11=no"));
    v.push(owned("-p"));
    v.push(u64_to_text(session.port as u64));
    v.push(target_text(session));
    v.push(owned(command));
    assert(text_views(v@) =~= exec_arg_list(*session, command@));
    v
}

} // verus!
