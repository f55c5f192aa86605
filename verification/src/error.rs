//! The broker's error type. Errors that come from I/O carry the text of the
//! underlying error rather than the error value itself.
use vstd::prelude::*;

use crate::table::{sorted_keys, Table};
use crate::text::{cat, cat3, cat5, decimal, lemma_str_lt_irrefl, lemma_str_lt_trans, owned, push_char, u64_to_text};

verus! {

#[derive(Debug, Clone, PartialEq, Eq)]
pub enum BrokerError {
    // ── Planning errors ──────────────────────────────────────────────────────
    UnknownServer { alias: String },
    UnknownProfile { profile: String },
    ProfileNotAllowed { server: String, profile: String },
    ApprovalRequired { server: String, profile: String },
    MissingArgument { profile: String, name: String },
    UnexpectedArgument { profile: String, name: String },
    InvalidArgumentValue { profile: String, name: String },
    UnsafeTemplate { profile: String, reason: String },
    // ── Audit errors ─────────────────────────────────────────────────────────
    AuditIo { path: String, source: String },
    AuditSerialize { source: String },
    // ── Execution errors ─────────────────────────────────────────────────────
    LegacyPasswordConfigMissing { server: String },
    LegacyPasswordSecretRefMissing { server: String, env_var: String },
    LegacyPasswordSecretRefInvalid { server: String, reason: String },
    LegacyPasswordUnsupportedPlatform { platform: String },
    LegacyPasswordAskpassIo { source: String },
    /// The `ssh` binary is not in PATH.
    SshNotFound,
    /// An I/O error while spawning or waiting for the SSH process.
    SshIo { source: String },
    // ── Session errors ───────────────────────────────────────────────────────
    SessionNotFound { id: String },
    SessionExpired { id: String },
    SessionIdleTimeout { id: String },
    SessionCommandDenied { server: String, reason: String },
    SessionCommandTooLong { length: usize, max: usize },
    UnrestrictedSessionNotAllowed { server: String },
    UnrestrictedSessionRequiresServerApprovalFlag { server: String },
    UnrestrictedSessionRequiresApproval { server: String },
    SessionRegistryIo { path: String, source: String },
    SessionRegistryParse { source: String },
    SessionIo { source: String },
}

impl BrokerError {
    /// The human-readable text of the error.
    pub open spec fn text(&self) -> Seq<char> {
        match self {
            BrokerError::UnknownServer { alias } => "server alias '"@ + alias@ + "' is not configured"@,
            BrokerError::UnknownProfile { profile } => "profile '"@ + profile@ + "' is not configured"@,
            BrokerError::ProfileNotAllowed { server, profile } => "profile '"@ + profile@ + "' is not allowed for server '"@ + server@ + "'"@,
            BrokerError::ApprovalRequired { server, profile } => "approval is required for server '"@ + server@ + "' and profile '"@ + profile@ + "'"@,
            BrokerError::MissingArgument { profile, name } => "missing required argument '"@ + name@ + "' for profile '"@ + profile@ + "'"@,
            BrokerError::UnexpectedArgument { profile, name } => "unexpected argument '"@ + name@ + "' for profile '"@ + profile@ + "'"@,
            BrokerError::InvalidArgumentValue { profile, name } => "argument '"@ + name@ + "' for profile '"@ + profile@ + "' contains control characters and is rejected"@,
            BrokerError::UnsafeTemplate { profile, reason } => "profile '"@ + profile@ + "' has an unsafe template: "@ + reason@,
            BrokerError::AuditIo { path, source } => "failed to write audit log at "@ + path@ + ": "@ + source@,
            BrokerError::AuditSerialize { source } => "failed to serialize audit event: "@ + source@,
            BrokerError::LegacyPasswordConfigMissing { server } => "legacy password auth is misconfigured for server '"@ + server@ + "'"@,
            BrokerError::LegacyPasswordSecretRefMissing { server, env_var } => "legacy password secret reference env var '"@ + env_var@ + "' is not set for server '"@ + server@ + "'"@,
            BrokerError::LegacyPasswordSecretRefInvalid { server, reason } => "legacy password secret reference is invalid for server '"@ + server@ + "': "@ + reason@,
            BrokerError::LegacyPasswordUnsupportedPlatform { platform } => "legacy password auth is not supported on platform '"@ + platform@ + "'"@,
            BrokerError::LegacyPasswordAskpassIo { source } => "failed to prepare legacy password askpass helper: "@ + source@,
            BrokerError::SshNotFound => "the 'ssh' command was not found in PATH\nInstall OpenSSH:\n  Debian/Ubuntu:  sudo apt install openssh-client\n  macOS:           ssh ships with the OS — check your PATH"@,
            BrokerError::SshIo { source } => "failed to run ssh: "@ + source@,
            BrokerError::SessionNotFound { id } => "session '"@ + id@ + "' not found"@,
            BrokerError::SessionExpired { id } => "session '"@ + id@ + "' has expired"@,
            BrokerError::SessionIdleTimeout { id } => "session '"@ + id@ + "' expired after its idle timeout"@,
            BrokerError::SessionCommandDenied { server, reason } => "session command denied on server '"@ + server@ + "': "@ + reason@,
            BrokerError::SessionCommandTooLong { length, max } => "command length "@ + decimal(*length as nat) + " exceeds maximum of "@ + decimal(*max as nat) + " characters"@,
            BrokerError::UnrestrictedSessionNotAllowed { server } => "unrestricted sessions are not allowed for server '"@ + server@ + "' (set allow_unrestricted_sessions = true)"@,
            BrokerError::UnrestrictedSessionRequiresServerApprovalFlag { server } => "unrestricted sessions on server '"@ + server@ + "' require requires_approval = true"@,
            BrokerError::UnrestrictedSessionRequiresApproval { server } => "unrestricted sessions on server '"@ + server@ + "' require an approval reference"@,
            BrokerError::SessionRegistryIo { path, source } => "failed to access session registry at "@ + path@ + ": "@ + source@,
            BrokerError::SessionRegistryParse { source } => "failed to parse session record: "@ + source@,
            BrokerError::SessionIo { source } => "session I/O error: "@ + source@,
        }
    }

    /// The human-readable text of the error.
    pub fn message(&self) -> (r: String)
        ensures
            r@ == self.text(),
    {
        let r = match self {
            BrokerError::UnknownServer { alias } => cat3("server alias '", alias.as_str(), "' is not configured"),
            BrokerError::UnknownProfile { profile } => cat3("profile '", profile.as_str(), "' is not configured"),
            BrokerError::ProfileNotAllowed { server, profile } => cat5("profile '", profile.as_str(), "' is not allowed for server '", server.as_str(), "'"),
            BrokerError::ApprovalRequired { server, profile } => cat5("approval is required for server '", server.as_str(), "' and profile '", profile.as_str(), "'"),
            BrokerError::MissingArgument { profile, name } => cat5("missing required argument '", name.as_str(), "' for profile '", profile.as_str(), "'"),
            BrokerError::UnexpectedArgument { profile, name } => cat5("unexpected argument '", name.as_str(), "' for profile '", profile.as_str(), "'"),
            BrokerError::InvalidArgumentValue { profile, name } => cat5("argument '", name.as_str(), "' for profile '", profile.as_str(), "' contains control characters and is rejected"),
            BrokerError::UnsafeTemplate { profile, reason } => cat(cat("profile '", profile.as_str()).as_str(), cat("' has an unsafe template: ", reason.as_str()).as_str()),
            BrokerError::AuditIo { path, source } => cat(cat("failed to write audit log at ", path.as_str()).as_str(), cat(": ", source.as_str()).as_str()),
            BrokerError::AuditSerialize { source } => cat("failed to serialize audit event: ", source.as_str()),
            BrokerError::LegacyPasswordConfigMissing { server } => cat3("legacy password auth is misconfigured for server '", server.as_str(), "'"),
            BrokerError::LegacyPasswordSecretRefMissing { server, env_var } => cat5("legacy password secret reference env var '", env_var.as_str(), "' is not set for server '", server.as_str(), "'"),
            BrokerError::LegacyPasswordSecretRefInvalid { server, reason } => cat(cat("legacy password secret reference is invalid for server '", server.as_str()).as_str(), cat("': ", reason.as_str()).as_str()),
            BrokerError::LegacyPasswordUnsupportedPlatform { platform } => cat3("legacy password auth is not supported on platform '", platform.as_str(), "'"),
            BrokerError::LegacyPasswordAskpassIo { source } => cat("failed to prepare legacy password askpass helper: ", source.as_str()),
            BrokerError::SshNotFound => owned("the 'ssh' command was not found in PATH\nInstall OpenSSH:\n  Debian/Ubuntu:  sudo apt install openssh-client\n  macOS:           ssh ships with the OS — check your PATH"),
            BrokerError::SshIo { source } => cat("failed to run ssh: ", source.as_str()),
            BrokerError::SessionNotFound { id } => cat3("session '", id.as_str(), "' not found"),
            BrokerError::SessionExpired { id } => cat3("session '", id.as_str(), "' has expired"),
            BrokerError::SessionIdleTimeout { id } => cat3("session '", id.as_str(), "' expired after its idle timeout"),
            BrokerError::SessionCommandDenied { server, reason } => cat(cat("session command denied on server '", server.as_str()).as_str(), cat("': ", reason.as_str()).as_str()),
            BrokerError::SessionCommandTooLong { length, max } => {
                let a = u64_to_text(*length as u64);
                let b = u64_to_text(*max as u64);
                cat5("command length ", a.as_str(), " exceeds maximum of ", b.as_str(), " characters")
            },
            BrokerError::UnrestrictedSessionNotAllowed { server } => cat3("unrestricted sessions are not allowed for server '", server.as_str(), "' (set allow_unrestricted_sessions = true)"),
            BrokerError::UnrestrictedSessionRequiresServerApprovalFlag { server } => cat3("unrestricted sessions on server '", server.as_str(), "' require requires_approval = true"),
            BrokerError::UnrestrictedSessionRequiresApproval { server } => cat3("unrestricted sessions on server '", server.as_str(), "' require an approval reference"),
            BrokerError::SessionRegistryIo { path, source } => cat(cat("failed to access session registry at ", path.as_str()).as_str(), cat(": ", source.as_str()).as_str()),
            BrokerError::SessionRegistryParse { source } => cat("failed to parse session record: ", source.as_str()),
            BrokerError::SessionIo { source } => cat("session I/O error: ", source.as_str()),
        };
        proof {
            match self {
                BrokerError::SessionCommandTooLong { .. } => {},
                _ => {},
            }
        }
        r
    }
}

/// The issues found while validating a configuration, sorted and without
/// repetition.
#[derive(Debug, Clone, PartialEq, Eq)]
pub struct ValidationError {
    issues: Vec<String>,
}

pub open spec fn texts(v: Seq<String>) -> Seq<Seq<char>> {
    v.map_values(|s: String| s@)
}

/// Two strictly ascending sequences with the same elements are equal.
pub proof fn lemma_sorted_same_set(a: Seq<Seq<char>>, b: Seq<Seq<char>>)
    requires
        sorted_keys(a),
        sorted_keys(b),
        a.to_set() == b.to_set(),
    ensures
        a == b,
    decreases a.len(),
{
    if a.len() == 0 {
        if b.len() > 0 {
            assert(b.to_set().contains(b[0]));
        }
        assert(a =~= b);
    } else if b.len() == 0 {
        assert(a.to_set().contains(a[0]));
    } else {
        assert(b.to_set().contains(a[0]));
        let k = choose|k: int| 0 <= k < b.len() && b[k] == a[0];
        assert(a.to_set().contains(b[0]));
        let m = choose|m: int| 0 <= m < a.len() && a[m] == b[0];
        if k > 0 {
            if m > 0 {
                assert(str_lt_pair(a, 0, m));
                assert(str_lt_pair(b, 0, k));
                lemma_str_lt_trans(a[0], b[0], a[0]);
                lemma_str_lt_irrefl(a[0]);
            } else {
                assert(str_lt_pair(b, 0, k));
                lemma_str_lt_irrefl(b[0]);
            }
        }
        assert(a[0] == b[0]);
        let a1 = a.drop_first();
        let b1 = b.drop_first();
        assert forall|x: Seq<char>| a1.to_set().contains(x) implies b1.to_set().contains(x) by {
            let j = choose|j: int| 0 <= j < a1.len() && a1[j] == x;
            assert(a[j + 1] == x);
            assert(str_lt_pair(a, 0, j + 1));
            lemma_str_lt_irrefl(x);
            assert(b.to_set().contains(x));
            let q = choose|q: int| 0 <= q < b.len() && b[q] == x;
            assert(q != 0);
            assert(b1[q - 1] == x);
        }
        assert forall|x: Seq<char>| b1.to_set().contains(x) implies a1.to_set().contains(x) by {
            let j = choose|j: int| 0 <= j < b1.len() && b1[j] == x;
            assert(b[j + 1] == x);
            assert(str_lt_pair(b, 0, j + 1));
            lemma_str_lt_irrefl(x);
            assert(a.to_set().contains(x));
            let q = choose|q: int| 0 <= q < a.len() && a[q] == x;
            assert(q != 0);
            assert(a1[q - 1] == x);
        }
        assert(a1.to_set() =~= b1.to_set());
        assert forall|i: int, j: int| 0 <= i < j < a1.len() implies crate::text::str_lt(#[trigger] a1[i], #[trigger] a1[j]) by {
            assert(str_lt_pair(a, i + 1, j + 1));
        }
        assert forall|i: int, j: int| 0 <= i < j < b1.len() implies crate::text::str_lt(#[trigger] b1[i], #[trigger] b1[j]) by {
            assert(str_lt_pair(b, i + 1, j + 1));
        }
        lemma_sorted_same_set(a1, b1);
        assert(a =~= seq![a[0]] + a1);
        assert(b =~= seq![b[0]] + b1);
    }
}

pub open spec fn str_lt_pair(s: Seq<Seq<char>>, i: int, j: int) -> bool {
    crate::text::str_lt(s[i], s[j])
}

/// The issue list of a validation error depends only on which issues were
/// found: any two ascending, repetition-free lists of the same issues are
/// the same list, whatever order and repetition the issues were found in.
pub proof fn validation_issues_are_canonical(a: Seq<Seq<char>>, b: Seq<Seq<char>>)
    requires
        sorted_keys(a),
        sorted_keys(b),
        a.to_set() == b.to_set(),
    ensures
        a == b,
{
    lemma_sorted_same_set(a, b);
}

/// `- issue` lines after the heading, one per issue.
pub open spec fn issue_lines(issues: Seq<Seq<char>>) -> Seq<char>
    decreases issues.len(),
{
    if issues.len() == 0 {
        Seq::empty()
    } else {
        issue_lines(issues.drop_last()) + "- "@ + issues.last() + seq!['\n']
    }
}

impl ValidationError {
    pub closed spec fn issue_views(&self) -> Seq<Seq<char>> {
        texts(self.issues@)
    }

    /// The issues, sorted, each once.
    pub fn new(issues: Vec<String>) -> (r: Self)
        ensures
            sorted_keys(r.issue_views()),
            r.issue_views().to_set() == texts(issues@).to_set(),
    {
        let mut set: Table<()> = Table::new();
        let mut i: usize = 0;
        while i < issues.len()
            invariant
                i <= issues@.len(),
                set.wf(),
                set.keys().to_set() == texts(issues@.take(i as int)).to_set(),
            decreases issues@.len() - i,
        {
            set.insert(owned(issues[i].as_str()), ());
            proof {
                assert(texts(issues@.take(i + 1)) =~= texts(issues@.take(i as int)).push(issues@[i as int]@));
                texts(issues@.take(i as int)).lemma_push_to_set_commute(issues@[i as int]@);
            }
            i = i + 1;
        }
        assert(issues@.take(i as int) =~= issues@);
        let mut out: Vec<String> = Vec::new();
        let mut j: usize = 0;
        proof { set.lemma_lens(); }
        while j < set.len()
            invariant
                j <= set.keys().len(),
                texts(out@) == set.keys().take(j as int),
            decreases set.keys().len() - j,
        {
            out.push(owned(set.key_at(j)));
            assert(set.keys().take(j + 1) =~= set.keys().take(j as int).push(set.keys()[j as int]));
            j = j + 1;
        }
        assert(set.keys().take(j as int) =~= set.keys());
        ValidationError { issues: out }
    }

    pub fn issues(&self) -> (r: &Vec<String>)
        ensures
            texts(r@) == self.issue_views(),
    {
        &self.issues
    }

    /// The report: a heading, then one `- issue` line per issue.
    pub fn message(&self) -> (r: String)
        ensures
            r@ == "configuration validation failed:"@ + seq!['\n'] + issue_lines(self.issue_views()),
    {
        let mut r = owned("configuration validation failed:");
        push_char(&mut r, '\n');
        let ghost head = r@;
        let mut i: usize = 0;
        while i < self.issues.len()
            invariant
                i <= self.issues@.len(),
                r@ == head + issue_lines(texts(self.issues@).take(i as int)),
            decreases self.issues@.len() - i,
        {
            r.append("- ");
            r.append(self.issues[i].as_str());
            push_char(&mut r, '\n');
            proof {
                let t = texts(self.issues@).take(i + 1);
                assert(t.drop_last() =~= texts(self.issues@).take(i as int));
                assert(t.last() == self.issues@[i as int]@);
                assert(r@ =~= head + issue_lines(t));
            }
            i = i + 1;
        }
        assert(texts(self.issues@).take(i as int) =~= texts(self.issues@));
        r
    }
}

} // verus!
