//! What running a plan over SSH involves: the exact `ssh` argument lists, the
//! dry-run description, and the checks on legacy password secret references.
use vstd::prelude::*;

use crate::config::{AuthMethod, ServerConfig};
use crate::error::BrokerError;
use crate::planner::RunPlan;
use crate::render::{join_space, join_with_space};
use crate::table::Table;
use crate::text::{cat, cat3, cat5, chars_of, decimal, is_alnum, is_digit_char, is_lower_char, is_upper_char, owned, str_eq, string_from_chars, trim, trimmed, u64_to_text};

verus! {

/// Output captured from a completed remote command.
#[derive(Debug, Clone, PartialEq, Eq)]
pub struct CommandOutput {
    /// Standard output from the remote command (UTF-8, lossy).
    pub stdout: String,
    /// Standard error from the remote command (UTF-8, lossy).
    pub stderr: String,
    /// Exit code of the remote command, or -1 if it was killed by a signal.
    pub exit_code: i32,
}

/// `user@host` for a plan.
pub open spec fn target_of(plan: RunPlan) -> Seq<char> {
    plan.user@ + "@"@ + plan.host@
}

/// The `ssh` arguments for certificate-authenticated runs: publickey only,
/// no interactive prompts, host keys accepted on first use only.
pub open spec fn cert_args(plan: RunPlan) -> Seq<Seq<char>> {
    seq!["-o"@, "BatchMode=yes"@, "-o"@, "PreferredAuthentications=publickey"@, "-o"@, "PubkeyAuthentication=yes"@, "-o"@, "PasswordAuthentication=no"@, "-o"@, "KbdInteractiveAuthentication=no"@, "-o"@, "NumberOfPasswordPrompts=0"@, "-o"@, "IdentitiesOnly=yes"@, "-o"@, "ConnectTimeout=30"@, "-o"@, "StrictHostKeyChecking=accept-new"@, "-p"@, decimal(plan.port as nat), target_of(plan), plan.rendered_command@]
}

/// The `ssh` arguments for the legacy password lane: one password prompt,
/// answered by the askpass helper.
pub open spec fn legacy_args(plan: RunPlan) -> Seq<Seq<char>> {
    seq!["-o"@, "BatchMode=no"@, "-o"@, "PreferredAuthentications=password"@, "-o"@, "PasswordAuthentication=yes"@, "-o"@, "PubkeyAuthentication=no"@, "-o"@, "KbdInteractiveAuthentication=no"@, "-o"@, "NumberOfPasswordPrompts=1"@, "-o"@, "ConnectTimeout=30"@, "-o"@, "StrictHostKeyChecking=accept-new"@, "-p"@, decimal(plan.port as nat), target_of(plan), plan.rendered_command@]
}

pub open spec fn text_views(v: Seq<String>) -> Seq<Seq<char>> {
    v.map_values(|s: String| s@)
}

fn target(plan: &RunPlan) -> (r: String)
    ensures
        r@ == target_of(*plan),
{
    cat3(plan.user.as_str(), "@", plan.host.as_str())
}

/// SSH arguments for certificate-authenticated sessions.
pub fn cert_ssh_args(plan: &RunPlan) -> (r: Vec<String>)
    ensures
        text_views(r@) == cert_args(*plan),
{
    let mut v: Vec<String> = Vec::new();
    v.push(owned("-o"));
    v.push(owned("BatchMode=yes"));
    v.push(owned("-o"));
    v.push(owned("PreferredAuthentications=publickey"));
    v.push(owned("-o"));
    v.push(owned("PubkeyAuthentication=yes"));
    v.push(owned("-o"));
    v.push(owned("PasswordAuthentication=no"));
    v.push(owned("-o"));
    v.push(owned("KbdInteractiveAuthentication=no"));
    v.push(owned("-o"));
    v.push(owned("NumberOfPasswordPrompts=0"));
    v.push(owned("-o"));
    v.push(owned("IdentitiesOnly=yes"));
    v.push(owned("-o"));
    v.push(owned("ConnectTimeout=30"));
    v.push(owned("-o"));
    v.push(owned("StrictHostKeyChecking=accept-new"));
    v.push(owned("-p"));
    v.push(u64_to_text(plan.port as u64));
    v.push(target(plan));
    v.push(owned(plan.rendered_command.as_str()));
    assert(text_views(v@) =~= cert_args(*plan));
    v
}

/// SSH arguments for the legacy password lane.
pub fn legacy_password_ssh_args(plan: &RunPlan) -> (r: Vec<String>)
    ensures
        text_views(r@) == legacy_args(*plan),
{
    let mut v: Vec<String> = Vec::new();
    v.push(owned("-o"));
    v.push(owned("BatchMode=no"));
    v.push(owned("-o"));
    v.push(owned("PreferredAuthentications=password"));
    v.push(owned("-o"));
    v.push(owned("PasswordAuthentication=yes"));
    v.push(owned("-o"));
    v.push(owned("PubkeyAuthentication=no"));
    v.push(owned("-o"));
    v.push(owned("KbdInteractiveAuthentication=no"));
    v.push(owned("-o"));
    v.push(owned("NumberOfPasswordPrompts=1"));
    v.push(owned("-o"));
    v.push(owned("ConnectTimeout=30"));
    v.push(owned("-o"));
    v.push(owned("StrictHostKeyChecking=accept-new"));
    v.push(owned("-p"));
    v.push(u64_to_text(plan.port as u64));
    v.push(target(plan));
    v.push(owned(plan.rendered_command.as_str()));
    assert(text_views(v@) =~= legacy_args(*plan));
    v
}

pub open spec fn askpass_env_prefix() -> Seq<char> {
    "env SSH_ASKPASS=<broker-managed> SSH_ASKPASS_REQUIRE=force DISPLAY=agent-ssh:0 ssh "@
}

/// What a dry run shows for `plan`: the exact `ssh` command line; for the
/// legacy lane the askpass helper is shown only as `<broker-managed>`.
pub open spec fn invocation_text(plan: RunPlan) -> Seq<char> {
    match plan.auth_method {
        AuthMethod::Certificate => "ssh "@ + join_space(cert_args(plan)),
        AuthMethod::LegacyPassword => askpass_env_prefix() + join_space(legacy_args(plan)),
    }
}

/// A human-readable description of the SSH command that would be run.
pub fn describe_invocation(plan: &RunPlan) -> (r: String)
    ensures
        r@ == invocation_text(*plan),
{
    match plan.auth_method {
        AuthMethod::Certificate => {
            let args = cert_ssh_args(plan);
            let joined = join_with_space(&args);
            cat("ssh ", joined.as_str())
        },
        AuthMethod::LegacyPassword => {
            let args = legacy_password_ssh_args(plan);
            let joined = join_with_space(&args);
            cat(
                "env SSH_ASKPASS=<broker-managed> SSH_ASKPASS_REQUIRE=force DISPLAY=agent-ssh:0 ssh ",
                joined.as_str(),
            )
        },
    }
}

/// The dry-run text of a legacy-password run names the askpass helper only as
/// `<broker-managed>` and shows the fixed password-lane options, then the
/// port, `user@host` and the rendered command.
pub proof fn legacy_invocation_is_redacted(plan: RunPlan)
    requires
        plan.auth_method == AuthMethod::LegacyPassword,
    ensures
        invocation_text(plan) == "env SSH_ASKPASS=<broker-managed> SSH_ASKPASS_REQUIRE=force DISPLAY=agent-ssh:0 ssh -o BatchMode=no -o PreferredAuthentications=password -o PasswordAuthentication=yes -o PubkeyAuthentication=no -o KbdInteractiveAuthentication=no -o NumberOfPasswordPrompts=1 -o ConnectTimeout=30 -o StrictHostKeyChecking=accept-new -p "@ + decimal(
            plan.port as nat,
        ) + seq![' '] + target_of(plan) + seq![' '] + plan.rendered_command@,
{
    reveal_strlit("env SSH_ASKPASS=<broker-managed> SSH_ASKPASS_REQUIRE=force DISPLAY=agent-ssh:0 ssh ");
    reveal_strlit("env SSH_ASKPASS=<broker-managed> SSH_ASKPASS_REQUIRE=force DISPLAY=agent-ssh:0 ssh -o BatchMode=no -o PreferredAuthentications=password -o PasswordAuthentication=yes -o PubkeyAuthentication=no -o KbdInteractiveAuthentication=no -o NumberOfPasswordPrompts=1 -o ConnectTimeout=30 -o StrictHostKeyChecking=accept-new -p ");
    reveal_strlit("-o");
    reveal_strlit("-p");
    reveal_strlit("BatchMode=no");
    reveal_strlit("ConnectTimeout=30");
    reveal_strlit("KbdInteractiveAuthentication=no");
    reveal_strlit("NumberOfPasswordPrompts=1");
    reveal_strlit("PasswordAuthentication=yes");
    reveal_strlit("PreferredAuthentications=password");
    reveal_strlit("PubkeyAuthentication=no");
    reveal_strlit("StrictHostKeyChecking=accept-new");
    reveal_with_fuel(join_space, 20);
    assert(invocation_text(plan) =~= "env SSH_ASKPASS=<broker-managed> SSH_ASKPASS_REQUIRE=force DISPLAY=agent-ssh:0 ssh -o BatchMode=no -o PreferredAuthentications=password -o PasswordAuthentication=yes -o PubkeyAuthentication=no -o KbdInteractiveAuthentication=no -o NumberOfPasswordPrompts=1 -o ConnectTimeout=30 -o StrictHostKeyChecking=accept-new -p "@ + decimal(plan.port as nat) + seq![' '] + target_of(plan)
        + seq![' '] + plan.rendered_command@);
}

// ── Secret references ───────────────────────────────────────────────────────

/// A reference to a password held in the operating system's keychain.
#[derive(Debug, Clone, PartialEq, Eq)]
pub struct SecretReference {
    pub service: String,
    pub account: String,
}

pub open spec fn split_acc(s: Seq<char>, sep: char, cur: Seq<char>) -> Seq<Seq<char>>
    decreases s.len(),
{
    if s.len() == 0 {
        seq![cur]
    } else if s[0] == sep {
        seq![cur] + split_acc(s.drop_first(), sep, Seq::empty())
    } else {
        split_acc(s.drop_first(), sep, cur.push(s[0]))
    }
}

/// The pieces of `s` between occurrences of `sep`, empty pieces included, as
/// `str::split` yields them.
pub open spec fn split_on(s: Seq<char>, sep: char) -> Seq<Seq<char>> {
    split_acc(s, sep, Seq::empty())
}

/// Splits `s` at each `sep`.
pub fn split_char(s: &str, sep: char) -> (r: Vec<String>)
    ensures
        text_views(r@) == split_on(s@, sep),
{
    let v = chars_of(s);
    let mut r: Vec<String> = Vec::new();
    let mut cur: Vec<char> = Vec::new();
    let mut i: usize = 0;
    assert(v@.skip(0) =~= v@);
    assert(text_views(r@) =~= Seq::<Seq<char>>::empty());
    while i < v.len()
        invariant
            i <= v.len(),
            v@ == s@,
            text_views(r@) + split_acc(v@.skip(i as int), sep, cur@) == split_on(s@, sep),
        decreases v.len() - i,
    {
        let c = v[i];
        let ghost rest = v@.skip(i as int);
        assert(rest[0] == c);
        assert(rest.drop_first() =~= v@.skip(i + 1));
        if c == sep {
            let ghost rv = text_views(r@);
            let w = string_from_chars(&cur);
            r.push(w);
            assert(text_views(r@) =~= rv.push(cur@));
            assert(rv.push(cur@) + split_acc(v@.skip(i + 1), sep, Seq::empty()) =~= rv + (seq![
                cur@,
            ] + split_acc(v@.skip(i + 1), sep, Seq::empty())));
            cur = Vec::new();
            assert(cur@ =~= Seq::<char>::empty());
        } else {
            cur.push(c);
        }
        i = i + 1;
    }
    assert(v@.skip(i as int).len() == 0);
    let ghost rv = text_views(r@);
    let w = string_from_chars(&cur);
    r.push(w);
    assert(text_views(r@) =~= rv + seq![cur@]);
    r
}

pub open spec fn is_secret_ref_char(c: char) -> bool {
    is_alnum(c) || c == '.' || c == '_' || c == '-'
}

/// Non-empty, at most 128 characters, and only ASCII letters, digits, '.', '_'
/// and '-'.
pub open spec fn is_safe_component(v: Seq<char>) -> bool {
    &&& v.len() > 0
    &&& v.len() <= 128
    &&& forall|i: int| 0 <= i < v.len() ==> is_secret_ref_char(#[trigger] v[i])
}

pub fn is_safe_secret_reference_component(value: &str) -> (b: bool)
    ensures
        b == is_safe_component(value@),
{
    let v = chars_of(value);
    if v.len() == 0 || v.len() > 128 {
        return false;
    }
    let mut i: usize = 0;
    while i < v.len()
        invariant
            i <= v.len(),
            v@ == value@,
            forall|j: int| 0 <= j < i ==> is_secret_ref_char(#[trigger] v@[j]),
        decreases v.len() - i,
    {
        let c = v[i];
        if !(is_lower_char(c) || is_upper_char(c) || is_digit_char(c) || c == '.' || c == '_' || c
            == '-') {
            assert(!is_secret_ref_char(v@[i as int]));
            return false;
        }
        i = i + 1;
    }
    true
}

pub open spec fn msg_ref_form() -> Seq<char> {
    "secret reference must have the form os_keychain:<service>:<account>"@
}

/// What reading a secret reference gives: `os_keychain:<service>:<account>`
/// after trimming, with safe components; else the reason it is refused.
pub open spec fn secret_ref_outcome(value: Seq<char>) -> Result<(Seq<char>, Seq<char>), Seq<char>> {
    let parts = split_on(trimmed(value), ':');
    if parts.len() < 3 {
        Err(msg_ref_form())
    } else if parts.len() > 3 {
        Err("secret reference must have exactly three ':'-separated parts"@)
    } else if parts[0] != "os_keychain"@ {
        Err("only os_keychain secret references are currently supported"@)
    } else if !is_safe_component(parts[1]) {
        Err("secret reference service must use only ASCII letters, digits, '.', '_', or '-'"@)
    } else if !is_safe_component(parts[2]) {
        Err("secret reference account must use only ASCII letters, digits, '.', '_', or '-'"@)
    } else {
        Ok((parts[1], parts[2]))
    }
}

/// The pieces of a split put back together with the separator between them.
pub open spec fn join_on(parts: Seq<Seq<char>>, sep: char) -> Seq<char>
    decreases parts.len(),
{
    if parts.len() <= 1 {
        if parts.len() == 1 { parts[0] } else { Seq::empty() }
    } else {
        parts[0] + seq![sep] + join_on(parts.drop_first(), sep)
    }
}

proof fn lemma_split_acc_nonempty(s: Seq<char>, sep: char, cur: Seq<char>)
    ensures
        split_acc(s, sep, cur).len() >= 1,
    decreases s.len(),
{
    if s.len() > 0 {
        if s[0] == sep {
            lemma_split_acc_nonempty(s.drop_first(), sep, Seq::empty());
        } else {
            lemma_split_acc_nonempty(s.drop_first(), sep, cur.push(s[0]));
        }
    }
}

/// Splitting loses nothing: the pieces joined with the separator give back
/// the text.
proof fn lemma_split_acc_joins(s: Seq<char>, sep: char, cur: Seq<char>)
    ensures
        join_on(split_acc(s, sep, cur), sep) == cur + s,
    decreases s.len(),
{
    if s.len() == 0 {
        assert(cur + s =~= cur);
    } else if s[0] == sep {
        let rest = split_acc(s.drop_first(), sep, Seq::empty());
        lemma_split_acc_joins(s.drop_first(), sep, Seq::empty());
        lemma_split_acc_nonempty(s.drop_first(), sep, Seq::empty());
        let parts = seq![cur] + rest;
        assert(parts.drop_first() =~= rest);
        assert(Seq::<char>::empty() + s.drop_first() =~= s.drop_first());
        assert(cur + seq![sep] + s.drop_first() =~= cur + s);
    } else {
        lemma_split_acc_joins(s.drop_first(), sep, cur.push(s[0]));
        assert(cur.push(s[0]) + s.drop_first() =~= cur + s);
    }
}

/// A piece without the separator joins the piece being built.
proof fn lemma_split_acc_piece(x: Seq<char>, rest: Seq<char>, sep: char, cur: Seq<char>)
    requires
        !x.contains(sep),
    ensures
        split_acc(x + rest, sep, cur) == split_acc(rest, sep, cur + x),
    decreases x.len(),
{
    if x.len() == 0 {
        assert(x + rest =~= rest);
        assert(cur + x =~= cur);
    } else {
        assert((x + rest)[0] == x[0]);
        assert((x + rest).drop_first() =~= x.drop_first() + rest);
        assert(!x.drop_first().contains(sep)) by {
            if x.drop_first().contains(sep) {
                let k = choose|k: int| 0 <= k < x.drop_first().len() && x.drop_first()[k] == sep;
                assert(x[k + 1] == sep);
            }
        }
        lemma_split_acc_piece(x.drop_first(), rest, sep, cur.push(x[0]));
        assert(cur.push(x[0]) + x.drop_first() =~= cur + x);
    }
}

/// A safe component holds no `:`.
proof fn lemma_safe_component_has_no_colon(v: Seq<char>)
    requires
        is_safe_component(v),
    ensures
        !v.contains(':'),
{
    if v.contains(':') {
        let k = choose|k: int| 0 <= k < v.len() && v[k] == ':';
        assert(is_secret_ref_char(v[k]));
    }
}

/// A secret reference is read as service `s` and account `a` exactly when,
/// after trimming, it is `os_keychain:<s>:<a>` with both parts non-empty, at
/// most 128 characters, and made only of ASCII letters, digits, '.', '_' and
/// '-'.
pub proof fn secret_reference_grammar(value: Seq<char>, service: Seq<char>, account: Seq<char>)
    ensures
        (secret_ref_outcome(value) == Ok::<(Seq<char>, Seq<char>), Seq<char>>((service, account)))
            <==> (trimmed(value) == "os_keychain"@ + seq![':'] + service + seq![':'] + account
            && is_safe_component(service) && is_safe_component(account)),
{
    reveal_strlit("os_keychain");
    let t = trimmed(value);
    let parts = split_on(t, ':');
    let kc = "os_keychain"@;
    if secret_ref_outcome(value) == Ok::<(Seq<char>, Seq<char>), Seq<char>>((service, account)) {
        lemma_split_acc_joins(t, ':', Seq::empty());
        assert(Seq::<char>::empty() + t =~= t);
        let p1 = parts.drop_first();
        let p2 = p1.drop_first();
        assert(p2 =~= seq![parts[2]]);
        assert(join_on(p2, ':') == parts[2]);
        assert(join_on(p1, ':') == parts[1] + seq![':'] + parts[2]);
        assert(join_on(parts, ':') == parts[0] + seq![':'] + join_on(p1, ':'));
        assert(t =~= kc + seq![':'] + service + seq![':'] + account);
    }
    if t == kc + seq![':'] + service + seq![':'] + account && is_safe_component(service)
        && is_safe_component(account) {
        lemma_safe_component_has_no_colon(service);
        lemma_safe_component_has_no_colon(account);
        assert(!kc.contains(':')) by {
            if kc.contains(':') {
                let k = choose|k: int| 0 <= k < kc.len() && kc[k] == ':';
                assert(kc[k] != ':');
            }
        }
        let r1 = seq![':'] + service + seq![':'] + account;
        let r2 = seq![':'] + account;
        assert(t =~= kc + r1);
        lemma_split_acc_piece(kc, r1, ':', Seq::empty());
        assert(Seq::<char>::empty() + kc =~= kc);
        assert(r1[0] == ':');
        assert(r1.drop_first() =~= service + r2);
        lemma_split_acc_piece(service, r2, ':', Seq::empty());
        assert(Seq::<char>::empty() + service =~= service);
        assert(r2[0] == ':');
        assert(r2.drop_first() =~= account);
        assert(account =~= account + Seq::<char>::empty());
        lemma_split_acc_piece(account, Seq::<char>::empty(), ':', Seq::empty());
        assert(Seq::<char>::empty() + account =~= account);
        assert(split_acc(Seq::<char>::empty(), ':', account) == seq![account]);
        assert(split_acc(r2, ':', service) =~= seq![service] + seq![account]);
        assert(split_acc(r1, ':', kc) =~= seq![kc] + (seq![service] + seq![account]));
        assert(parts =~= seq![kc, service, account]);
    }
}

pub fn parse_secret_reference(server_alias: &str, value: &str) -> (r: Result<SecretReference, BrokerError>)
    ensures
        match secret_ref_outcome(value@) {
            Ok((service, account)) => r matches Ok(sr) && sr.service@ == service && sr.account@
                == account,
            Err(reason) => r matches Err(BrokerError::LegacyPasswordSecretRefInvalid { server, reason: why })
                && server@ == server_alias@ && why@ == reason,
        },
{
    let trimmed_value = trim(value);
    let parts = split_char(trimmed_value, ':');
    assert(parts@.len() == split_on(trimmed(value@), ':').len());
    let reason = if parts.len() < 3 {
        Some(owned("secret reference must have the form os_keychain:<service>:<account>"))
    } else if parts.len() > 3 {
        Some(owned("secret reference must have exactly three ':'-separated parts"))
    } else if !str_eq(parts[0].as_str(), "os_keychain") {
        assert(parts@[0]@ == split_on(trimmed(value@), ':')[0]);
        Some(owned("only os_keychain secret references are currently supported"))
    } else if !is_safe_secret_reference_component(parts[1].as_str()) {
        assert(parts@[1]@ == split_on(trimmed(value@), ':')[1]);
        Some(owned("secret reference service must use only ASCII letters, digits, '.', '_', or '-'"))
    } else if !is_safe_secret_reference_component(parts[2].as_str()) {
        assert(parts@[2]@ == split_on(trimmed(value@), ':')[2]);
        Some(owned("secret reference account must use only ASCII letters, digits, '.', '_', or '-'"))
    } else {
        None
    };
    match reason {
        Some(why) => Err(BrokerError::LegacyPasswordSecretRefInvalid { server: owned(server_alias), reason: why }),
        None => {
            assert(parts@[0]@ == split_on(trimmed(value@), ':')[0]);
            assert(parts@[1]@ == split_on(trimmed(value@), ':')[1]);
            assert(parts@[2]@ == split_on(trimmed(value@), ':')[2]);
            Ok(SecretReference { service: owned(parts[1].as_str()), account: owned(parts[2].as_str()) })
        },
    }
}

/// The askpass helper script for `os`: a single secret-store lookup of the
/// reference, never the secret itself.
pub open spec fn askpass_outcome(sr: SecretReference, os: Seq<char>) -> Result<Seq<char>, Seq<char>> {
    if os == "macos"@ {
        Ok("#!/bin/sh\nset -eu\n"@ + "exec security find-generic-password -w -s '"@ + sr.service@ + "' -a '"@ + sr.account@ + "'\n"@)
    } else if os == "linux"@ {
        Ok("#!/bin/sh\nset -eu\n"@ + "exec secret-tool lookup service '"@ + sr.service@ + "' account '"@ + sr.account@ + "'\n"@)
    } else {
        Err(os)
    }
}

pub fn askpass_script_body(secret_ref: &SecretReference, os: &str) -> (r: Result<String, BrokerError>)
    ensures
        match askpass_outcome(*secret_ref, os@) {
            Ok(body) => r matches Ok(b) && b@ == body,
            Err(p) => r matches Err(BrokerError::LegacyPasswordUnsupportedPlatform { platform }) && platform@ == p,
        },
{
    let command = if str_eq(os, "macos") {
        cat5(
            "exec security find-generic-password -w -s '",
            secret_ref.service.as_str(),
            "' -a '",
            secret_ref.account.as_str(),
            "'\n",
        )
    } else if str_eq(os, "linux") {
        cat5(
            "exec secret-tool lookup service '",
            secret_ref.service.as_str(),
            "' account '",
            secret_ref.account.as_str(),
            "'\n",
        )
    } else {
        return Err(BrokerError::LegacyPasswordUnsupportedPlatform { platform: owned(os) });
    };
    Ok(cat("#!/bin/sh\nset -eu\n", command.as_str()))
}

/// How to run a plan: the `ssh` arguments, and for the legacy lane the
/// secret reference the askpass helper looks up.
#[derive(Debug, Clone, PartialEq, Eq)]
pub enum SshInvocation {
    Certificate { args: Vec<String> },
    LegacyPassword { args: Vec<String>, secret_ref: SecretReference },
}

/// Decides how `plan` runs: certificate runs need nothing more; legacy
/// password runs need the server's secret reference variable, set in
/// `secret_env` to a valid reference.
pub fn prepare_execution(plan: &RunPlan, server: &ServerConfig, secret_env: &Table<String>) -> (r:
    Result<SshInvocation, BrokerError>)
    requires
        secret_env.wf(),
    ensures
        match plan.auth_method {
            AuthMethod::Certificate => r matches Ok(SshInvocation::Certificate { args }) && text_views(args@) == cert_args(*plan),
            AuthMethod::LegacyPassword => match server.legacy_password {
                None => r matches Err(BrokerError::LegacyPasswordConfigMissing { server: s }) && s@ == plan.server_alias@,
                Some(lp) => match secret_env.lookup(lp.secret_ref_env_var@) {
                    None => r matches Err(BrokerError::LegacyPasswordSecretRefMissing { server: s, env_var }) && s@ == plan.server_alias@ && env_var@ == lp.secret_ref_env_var@,
                    Some(value) => match secret_ref_outcome(value@) {
                        Ok((service, account)) => r matches Ok(SshInvocation::LegacyPassword { args, secret_ref }) && text_views(args@) == legacy_args(*plan) && secret_ref.service@ == service && secret_ref.account@ == account,
                        Err(reason) => r matches Err(BrokerError::LegacyPasswordSecretRefInvalid { server: s, reason: why }) && s@ == plan.server_alias@ && why@ == reason,
                    },
                },
            },
        },
{
    match plan.auth_method {
        AuthMethod::Certificate => Ok(SshInvocation::Certificate { args: cert_ssh_args(plan) }),
        AuthMethod::LegacyPassword => {
            let lp = match &server.legacy_password {
                Some(lp) => lp,
                None => {
                    return Err(BrokerError::LegacyPasswordConfigMissing { server: owned(plan.server_alias.as_str()) });
                },
            };
            let value = match secret_env.get(lp.secret_ref_env_var.as_str()) {
                Some(v) => v,
                None => {
                    return Err(
                        BrokerError::LegacyPasswordSecretRefMissing {
                            server: owned(plan.server_alias.as_str()),
                            env_var: owned(lp.secret_ref_env_var.as_str()),
                        },
                    );
                },
            };
            match parse_secret_reference(plan.server_alias.as_str(), value.as_str()) {
                Ok(secret_ref) => Ok(SshInvocation::LegacyPassword { args: legacy_password_ssh_args(plan), secret_ref }),
                Err(e) => Err(e),
            }
        },
    }
}

/// The certificate `ssh` arguments end with `-p`, the port in decimal, the
/// `user@host` destination and then the rendered command, so the command
/// runs on the destination.
pub proof fn cert_args_end_with_destination_then_command(plan: RunPlan)
    ensures
        cert_args(plan).len() == 22,
        cert_args(plan)[18] == "-p"@,
        cert_args(plan)[19] == decimal(plan.port as nat),
        cert_args(plan)[20] == plan.user@ + seq!['@'] + plan.host@,
        cert_args(plan)[21] == plan.rendered_command@,
{
    reveal_strlit("@");
}

/// The legacy password `ssh` arguments end the same way: `-p`, the port, the
/// `user@host` destination, then the rendered command.
pub proof fn legacy_args_end_with_destination_then_command(plan: RunPlan)
    ensures
        legacy_args(plan).len() == 20,
        legacy_args(plan)[16] == "-p"@,
        legacy_args(plan)[17] == decimal(plan.port as nat),
        legacy_args(plan)[18] == plan.user@ + seq!['@'] + plan.host@,
        legacy_args(plan)[19] == plan.rendered_command@,
{
    reveal_strlit("@");
}

} // verus!
