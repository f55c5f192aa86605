//! Audit events: one record for every broker decision.
use vstd::prelude::*;

use crate::table::Table;

verus! {

#[verifier::external_type_specification]
#[verifier::external_body]
pub struct ExUuid(uuid::Uuid);

#[derive(Debug, Clone, Copy, PartialEq, Eq, Structural)]
pub enum AuditAction {
    ConfigValidate,
    HostsList,
    ProfilesList,
    RunPlan,
    RunExecute,
    /// A broker-controlled interactive session was opened.
    SessionOpen,
    /// A broker-controlled interactive session was closed by the caller.
    SessionClose,
    /// A broker-controlled interactive session was expired by the broker.
    SessionExpire,
    /// A command was executed within a broker-controlled interactive session.
    SessionCommand,
}

#[derive(Debug, Clone, Copy, PartialEq, Eq, Structural)]
pub enum AuditOutcome {
    Succeeded,
    Blocked,
    Invalid,
    Planned,
    /// SSH command was sent to the remote host and output was captured.
    /// Check `exit_code` to determine whether the command itself succeeded.
    Executed,
    /// Broker could not initiate the SSH connection (not a remote command failure).
    Failed,
    /// Request was explicitly denied by session policy.
    Denied,
    /// A session or resource expired due to TTL or idle timeout.
    Expired,
}

#[derive(Debug)]
pub struct AuditEvent {
    pub event_id: uuid::Uuid,
    pub occurred_at: String,
    pub actor: String,
    pub action: AuditAction,
    pub outcome: AuditOutcome,
    pub message: String,
    pub server_alias: Option<String>,
    pub environment: Option<String>,
    pub profile: Option<String>,
    pub args: Table<String>,
    pub rendered_command: Option<String>,
    pub requires_approval: bool,
    pub approval_reference: Option<String>,
    pub signer: Option<String>,
    pub transport: Option<String>,
    /// The auth method kind label for the run (for example, "certificate").
    pub auth_method_kind: Option<String>,
    /// Exit code from the remote command. Present only for `run_execute` and `session_command` events.
    pub exit_code: Option<i32>,
    /// Session ID for session-scoped events.
    pub session_id: Option<String>,
}

/// The details an audit event records besides who, what and how it ended.
#[derive(Debug, Clone, PartialEq, Eq)]
pub struct AuditContext {
    pub server_alias: Option<String>,
    pub environment: Option<String>,
    pub profile: Option<String>,
    pub args: Table<String>,
    pub rendered_command: Option<String>,
    pub requires_approval: bool,
    pub approval_reference: Option<String>,
    pub signer: Option<String>,
    pub transport: Option<String>,
    /// Kind label only; never exposes env var values or raw password material.
    pub auth_method_kind: Option<String>,
    pub exit_code: Option<i32>,
    pub session_id: Option<String>,
}

impl AuditContext {
    /// A context that records nothing.
    pub fn empty() -> (c: Self)
        ensures
            c.is_empty(),
    {
        AuditContext {
            server_alias: None,
            environment: None,
            profile: None,
            args: Table::new(),
            rendered_command: None,
            requires_approval: false,
            approval_reference: None,
            signer: None,
            transport: None,
            auth_method_kind: None,
            exit_code: None,
            session_id: None,
        }
    }

    pub open spec fn is_empty(&self) -> bool {
        &&& self.server_alias is None
        &&& self.environment is None
        &&& self.profile is None
        &&& self.args.wf()
        &&& self.args.keys().len() == 0
        &&& self.rendered_command is None
        &&& !self.requires_approval
        &&& self.approval_reference is None
        &&& self.signer is None
        &&& self.transport is None
        &&& self.auth_method_kind is None
        &&& self.exit_code is None
        &&& self.session_id is None
    }
}

/// The event records exactly these values (its id and time aside).
pub open spec fn event_records(
    e: AuditEvent,
    actor: Seq<char>,
    action: AuditAction,
    outcome: AuditOutcome,
    message: Seq<char>,
    c: AuditContext,
) -> bool {
    &&& e.actor@ == actor
    &&& e.action == action
    &&& e.outcome == outcome
    &&& e.message@ == message
    &&& e.server_alias == c.server_alias
    &&& e.environment == c.environment
    &&& e.profile == c.profile
    &&& e.args == c.args
    &&& e.rendered_command == c.rendered_command
    &&& e.requires_approval == c.requires_approval
    &&& e.approval_reference == c.approval_reference
    &&& e.signer == c.signer
    &&& e.transport == c.transport
    &&& e.auth_method_kind == c.auth_method_kind
    &&& e.exit_code == c.exit_code
    &&& e.session_id == c.session_id
}

/// A new event with a fresh id and the current time.
pub fn new_audit_event(
    actor: &str,
    action: AuditAction,
    outcome: AuditOutcome,
    message: String,
    context: AuditContext,
) -> (e: AuditEvent)
    ensures
        event_records(e, actor@, action, outcome, message@, context),
        is_rfc3339_timestamp(e.occurred_at@),
{
    AuditEvent {
        event_id: new_event_id(),
        occurred_at: now_rfc3339(),
        actor: crate::text::owned(actor),
        action,
        outcome,
        message,
        server_alias: context.server_alias,
        environment: context.environment,
        profile: context.profile,
        args: context.args,
        rendered_command: context.rendered_command,
        requires_approval: context.requires_approval,
        approval_reference: context.approval_reference,
        signer: context.signer,
        transport: context.transport,
        auth_method_kind: context.auth_method_kind,
        exit_code: context.exit_code,
        session_id: context.session_id,
    }
}

impl AuditEvent {
    /// The details this event records, as a context.
    pub open spec fn context_of(&self) -> AuditContext {
        AuditContext {
            server_alias: self.server_alias,
            environment: self.environment,
            profile: self.profile,
            args: self.args,
            rendered_command: self.rendered_command,
            requires_approval: self.requires_approval,
            approval_reference: self.approval_reference,
            signer: self.signer,
            transport: self.transport,
            auth_method_kind: self.auth_method_kind,
            exit_code: self.exit_code,
            session_id: self.session_id,
        }
    }
}

/// `uuid::Uuid::new_v4`: a fresh random identifier. Nothing is claimed of
/// its value.
#[verifier::external_body]
pub(crate) fn new_event_id() -> uuid::Uuid {
    uuid::Uuid::new_v4()
}

#[verifier::external_type_specification]
#[verifier::external_body]
pub struct ExOffsetDateTime(time::OffsetDateTime);

#[verifier::external_type_specification]
#[verifier::external_body]
pub struct ExFormatError(time::error::Format);

/// `time::OffsetDateTime::now_utc`: the current time. It depends on the
/// clock; nothing is claimed of it.
#[verifier::external_body]
fn now_utc() -> time::OffsetDateTime {
    time::OffsetDateTime::now_utc()
}

/// A decimal digit.
pub open spec fn is_ascii_digit(c: char) -> bool {
    '0' <= c <= '9'
}

/// The fraction of a second: nothing, or a dot and one to nine digits.
pub open spec fn is_rfc3339_fraction(f: Seq<char>) -> bool {
    ||| f.len() == 0
    ||| {
        &&& 2 <= f.len() <= 10
        &&& f[0] == '.'
        &&& forall|i: int| 1 <= i < f.len() ==> #[trigger] is_ascii_digit(f[i])
    }
}

/// The offset: `Z`, or a sign and `HH:MM`.
pub open spec fn is_rfc3339_offset(z: Seq<char>) -> bool {
    ||| z == seq!['Z']
    ||| {
        &&& z.len() == 6
        &&& (z[0] == '+' || z[0] == '-')
        &&& is_ascii_digit(z[1])
        &&& is_ascii_digit(z[2])
        &&& z[3] == ':'
        &&& is_ascii_digit(z[4])
        &&& is_ascii_digit(z[5])
    }
}

/// RFC 3339 text as `YYYY-MM-DDTHH:MM:SS`, an optional fraction of a second,
/// then the offset.
pub open spec fn is_rfc3339_timestamp(t: Seq<char>) -> bool {
    &&& t.len() >= 20
    &&& is_ascii_digit(t[0])
    &&& is_ascii_digit(t[1])
    &&& is_ascii_digit(t[2])
    &&& is_ascii_digit(t[3])
    &&& t[4] == '-'
    &&& is_ascii_digit(t[5])
    &&& is_ascii_digit(t[6])
    &&& t[7] == '-'
    &&& is_ascii_digit(t[8])
    &&& is_ascii_digit(t[9])
    &&& t[10] == 'T'
    &&& is_ascii_digit(t[11])
    &&& is_ascii_digit(t[12])
    &&& t[13] == ':'
    &&& is_ascii_digit(t[14])
    &&& is_ascii_digit(t[15])
    &&& t[16] == ':'
    &&& is_ascii_digit(t[17])
    &&& is_ascii_digit(t[18])
    &&& exists|k: int|
        19 <= k <= t.len() && #[trigger] is_rfc3339_fraction(t.subrange(19, k))
            && is_rfc3339_offset(t.subrange(k, t.len() as int))
}

/// `time::OffsetDateTime::format` with the `Rfc3339` description. When it
/// succeeds the text has the RFC 3339 shape: a zero-padded four-digit year
/// and two-digit month, day, hour, minute and second, a fraction only when the
/// nanoseconds are not zero, then `Z` or a `±HH:MM` offset. Nothing is claimed
/// of the values of the fields or of when formatting fails (a year outside
/// 0..=9999 or an offset with seconds).
#[verifier::external_body]
fn format_rfc3339(t: time::OffsetDateTime) -> (r: Result<String, time::error::Format>)
    ensures
        r matches Ok(text) ==> is_rfc3339_timestamp(text@),
{
    t.format(&time::format_description::well_known::Rfc3339)
}

/// `time::OffsetDateTime::unix_timestamp`: seconds since the epoch. Nothing is
/// claimed of the value.
#[verifier::external_body]
fn unix_timestamp(t: time::OffsetDateTime) -> i64 {
    t.unix_timestamp()
}

/// The current time as RFC 3339 text, or the epoch when it cannot be
/// written so.
pub(crate) fn now_rfc3339() -> (r: String)
    ensures
        is_rfc3339_timestamp(r@),
{
    match format_rfc3339(now_utc()) {
        Ok(text) => text,
        Err(_) => {
            let epoch = crate::text::owned("1970-01-01T00:00:00Z");
            proof {
                reveal_strlit("1970-01-01T00:00:00Z");
                let t = epoch@;
                assert(is_rfc3339_fraction(t.subrange(19, 19)));
                assert(t.subrange(19, 20) =~= seq!['Z']);
            }
            epoch
        },
    }
}

/// The current time in seconds since the epoch.
pub(crate) fn now_unix() -> i64 {
    unix_timestamp(now_utc())
}

} // verus!
