//! Validating a configuration as read from TOML: every rule is checked, every
//! broken rule is reported, and a configuration is produced only when none is
//! broken.
use vstd::prelude::*;

use crate::config::{
    AuthMethod, BrokerConfig, Config, LegacyPasswordConfig, ProfileConfig, ServerConfig,
    SignerConfig,
};
use crate::error::{texts, ValidationError};
use crate::identifiers::{identifier_error, is_identifier, ProfileName, SignerName};
use crate::planner::normalized_ref;
use crate::table::Table;
use crate::text::{
    any_ctrl, any_ws, byte_len, bytes_exceed, cat, cat3, cat5, chars_of, has_ctrl, has_ws,
    is_alnum, is_alpha, is_digit_char, is_lower_char, is_upper_char, opt_view, owned, str_eq,
    str_lt, trim, trimmed,
};

verus! {

pub const MAX_HOST_LEN: usize = 253;

pub const MAX_USER_LEN: usize = 32;

/// The most bytes a server's environment label may hold (in UTF-8).
pub const MAX_ENVIRONMENT_LEN: usize = 64;

pub const MAX_TEMPLATE_LEN: usize = 4096;

// ── The configuration as read ───────────────────────────────────────────────

#[derive(Debug, Clone, PartialEq, Eq)]
pub struct RawConfig {
    pub broker: RawBrokerConfig,
    pub signers: Table<RawSignerConfig>,
    pub servers: Table<RawServerConfig>,
    pub profiles: Table<RawProfileConfig>,
}

#[derive(Debug, Clone, PartialEq, Eq)]
pub struct RawBrokerConfig {
    pub cert_ttl_seconds: u64,
    pub audit_log_path: String,
    pub default_signer: String,
}

#[derive(Debug, Clone, PartialEq, Eq, Default)]
pub struct RawSignerConfig {
    pub kind: String,
    pub ca_url: Option<String>,
    pub provisioner: Option<String>,
    pub subject: Option<String>,
}

#[derive(Debug, Clone, PartialEq, Eq)]
pub struct RawServerConfig {
    pub host: String,
    pub port: Option<u16>,
    pub user: String,
    pub environment: String,
    pub allowed_profiles: Vec<String>,
    pub requires_approval: Option<bool>,
    pub signer: Option<String>,
    pub root_login_acknowledged: Option<bool>,
    /// Optional explicit auth selector.
    pub auth_method: Option<String>,
    /// Read only so that raw password-env configs are refused with a clear error.
    pub password_env_var: Option<String>,
    /// Read only so that inline passwords are refused with a clear error.
    pub password: Option<String>,
    /// Name of the env var whose value is an opaque secret reference such as
    /// `os_keychain:agent-ssh:prod-web-1`.
    pub password_secret_ref_env_var: Option<String>,
    /// Explicit operator acknowledgment of the compatibility-only password lane.
    pub legacy_password_acknowledged: Option<bool>,
    /// Explicit operator acknowledgment that fail2ban allowlisting is handled
    /// on the remote side.
    pub fail2ban_allowlist_confirmed: Option<bool>,
    /// Whether unrestricted interactive sessions are allowed for this server.
    pub allow_unrestricted_sessions: Option<bool>,
}

#[derive(Debug, Clone, PartialEq, Eq)]
pub struct RawProfileConfig {
    pub description: Option<String>,
    pub template: String,
    pub requires_approval: Option<bool>,
}

// ── Field rules ─────────────────────────────────────────────────────────────

pub open spec fn flag(o: Option<bool>) -> bool {
    o == Some(true)
}

pub open spec fn non_empty_no_controls(v: Seq<char>) -> bool {
    trimmed(v).len() > 0 && !has_ctrl(trimmed(v))
}

pub open spec fn non_empty_no_ws(v: Seq<char>) -> bool {
    trimmed(v).len() > 0 && !has_ws(trimmed(v))
}

pub open spec fn is_user_char(c: char) -> bool {
    is_alnum(c) || c == '.' || c == '_' || c == '-'
}

/// `[A-Za-z_][A-Za-z0-9._-]*`
pub open spec fn is_remote_user(v: Seq<char>) -> bool {
    &&& v.len() > 0
    &&& (is_alpha(v[0]) || v[0] == '_')
    &&& forall|i: int| 1 <= i < v.len() ==> is_user_char(#[trigger] v[i])
}

pub open spec fn is_env_char(c: char) -> bool {
    is_alnum(c) || c == '_'
}

/// `[A-Za-z_][A-Za-z0-9_]*`
pub open spec fn is_env_var_name(v: Seq<char>) -> bool {
    &&& v.len() > 0
    &&& (is_alpha(v[0]) || v[0] == '_')
    &&& forall|i: int| 1 <= i < v.len() ==> is_env_char(#[trigger] v[i])
}

pub fn is_non_empty_without_controls(value: &str) -> (b: bool)
    ensures
        b == non_empty_no_controls(value@),
{
    let t = trim(value);
    let v = chars_of(t);
    v.len() > 0 && !any_ctrl(&v)
}

pub fn is_non_empty_without_whitespace(value: &str) -> (b: bool)
    ensures
        b == non_empty_no_ws(value@),
{
    let t = trim(value);
    let v = chars_of(t);
    v.len() > 0 && !any_ws(&v)
}

pub fn is_valid_remote_user(value: &str) -> (b: bool)
    ensures
        b == is_remote_user(value@),
{
    let v = chars_of(value);
    if v.len() == 0 {
        return false;
    }
    let first = v[0];
    if !(is_lower_char(first) || is_upper_char(first) || first == '_') {
        return false;
    }
    let mut i: usize = 1;
    while i < v.len()
        invariant
            1 <= i <= v.len(),
            v@ == value@,
            forall|j: int| 1 <= j < i ==> is_user_char(#[trigger] v@[j]),
        decreases v.len() - i,
    {
        let c = v[i];
        if !(is_lower_char(c) || is_upper_char(c) || is_digit_char(c) || c == '.' || c == '_' || c
            == '-') {
            assert(!is_user_char(v@[i as int]));
            return false;
        }
        i = i + 1;
    }
    true
}

pub fn is_valid_env_var_name(value: &str) -> (b: bool)
    ensures
        b == is_env_var_name(value@),
{
    let v = chars_of(value);
    if v.len() == 0 {
        return false;
    }
    let first = v[0];
    if !(is_lower_char(first) || is_upper_char(first) || first == '_') {
        return false;
    }
    let mut i: usize = 1;
    while i < v.len()
        invariant
            1 <= i <= v.len(),
            v@ == value@,
            forall|j: int| 1 <= j < i ==> is_env_char(#[trigger] v@[j]),
        decreases v.len() - i,
    {
        let c = v[i];
        if !(is_lower_char(c) || is_upper_char(c) || is_digit_char(c) || c == '_') {
            assert(!is_env_char(v@[i as int]));
            return false;
        }
        i = i + 1;
    }
    true
}

/// An optional string trimmed; a blank one becomes absent.
pub fn normalize_optional_string(value: &Option<String>) -> (r: Option<String>)
    ensures
        opt_view(r) == normalized_ref(*value),
{
    match value {
        None => None,
        Some(v) => {
            let t = trim(v.as_str());
            if t.unicode_len() == 0 {
                None
            } else {
                Some(owned(t))
            }
        },
    }
}

// ── Item rules ──────────────────────────────────────────────────────────────

pub open spec fn signer_ok(name: Seq<char>, s: RawSignerConfig) -> bool {
    is_identifier(name) && non_empty_no_controls(trimmed(s.kind@))
}

pub open spec fn signer_built(c: SignerConfig, s: RawSignerConfig) -> bool {
    &&& c.kind@ == trimmed(s.kind@)
    &&& opt_view(c.ca_url) == normalized_ref(s.ca_url)
    &&& opt_view(c.provisioner) == normalized_ref(s.provisioner)
    &&& opt_view(c.subject) == normalized_ref(s.subject)
}

pub open spec fn profile_ok(name: Seq<char>, p: RawProfileConfig) -> bool {
    &&& is_identifier(name)
    &&& trimmed(p.template@).len() > 0
    &&& trimmed(p.template@).len() <= MAX_TEMPLATE_LEN
}

pub open spec fn profile_built(c: ProfileConfig, p: RawProfileConfig) -> bool {
    &&& opt_view(c.description) == normalized_ref(p.description)
    &&& c.template@ == trimmed(p.template@)
    &&& c.requires_approval == flag(p.requires_approval)
}

pub open spec fn port_of(s: RawServerConfig) -> u16 {
    match s.port {
        Some(p) => p,
        None => 22,
    }
}

/// Host, user, root acknowledgement, environment and port.
pub open spec fn basics_ok(s: RawServerConfig) -> bool {
    let host = trimmed(s.host@);
    let user = trimmed(s.user@);
    let env = trimmed(s.environment@);
    &&& non_empty_no_ws(host)
    &&& host.len() <= MAX_HOST_LEN
    &&& is_remote_user(user)
    &&& user.len() <= MAX_USER_LEN
    &&& (user == "root"@) == flag(s.root_login_acknowledged)
    &&& non_empty_no_controls(env)
    &&& byte_len(env) <= MAX_ENVIRONMENT_LEN
    &&& port_of(s) != 0
}

/// Every allowed profile names a configured profile, and there is one.
pub open spec fn allowed_ok(s: RawServerConfig, profile_keys: Seq<Seq<char>>) -> bool {
    &&& s.allowed_profiles@.len() > 0
    &&& forall|i: int|
        0 <= i < s.allowed_profiles@.len() ==> is_identifier((#[trigger] s.allowed_profiles@[i])@)
            && profile_keys.contains(s.allowed_profiles@[i]@)
}

pub open spec fn signer_ref_ok(s: RawServerConfig, signer_keys: Seq<Seq<char>>, default_ok: bool) -> bool {
    match s.signer {
        Some(n) => is_identifier(n@) && signer_keys.contains(n@),
        None => default_ok,
    }
}

/// The auth method selected, or `None` for an unknown or blank selector.
pub open spec fn auth_choice(s: RawServerConfig) -> Option<AuthMethod> {
    match s.auth_method {
        None => Some(AuthMethod::Certificate),
        Some(a) => if trimmed(a@) == "certificate"@ {
            Some(AuthMethod::Certificate)
        } else if trimmed(a@) == "legacy_password"@ {
            Some(AuthMethod::LegacyPassword)
        } else {
            None
        },
    }
}

/// No password material; a known auth method; the legacy lane only with a
/// valid reference variable and both acknowledgements, and none of these
/// outside it.
pub open spec fn auth_ok(s: RawServerConfig) -> bool {
    &&& s.password_env_var is None
    &&& s.password is None
    &&& match auth_choice(s) {
        None => false,
        Some(AuthMethod::Certificate) => s.password_secret_ref_env_var is None && !flag(
            s.legacy_password_acknowledged,
        ) && !flag(s.fail2ban_allowlist_confirmed),
        Some(AuthMethod::LegacyPassword) => match s.password_secret_ref_env_var {
            None => false,
            Some(r) => is_env_var_name(trimmed(r@)) && flag(s.legacy_password_acknowledged)
                && flag(s.fail2ban_allowlist_confirmed),
        },
    }
}

pub open spec fn server_ok(
    alias: Seq<char>,
    s: RawServerConfig,
    signer_keys: Seq<Seq<char>>,
    profile_keys: Seq<Seq<char>>,
    default_ok: bool,
) -> bool {
    &&& is_identifier(alias)
    &&& basics_ok(s)
    &&& allowed_ok(s, profile_keys)
    &&& signer_ref_ok(s, signer_keys, default_ok)
    &&& auth_ok(s)
}

pub open spec fn server_built(c: ServerConfig, s: RawServerConfig) -> bool {
    &&& c.host@ == trimmed(s.host@)
    &&& c.port == port_of(s)
    &&& c.user@ == trimmed(s.user@)
    &&& c.environment@ == trimmed(s.environment@)
    &&& c.allowed_profiles@.len() == s.allowed_profiles@.len()
    &&& forall|i: int|
        0 <= i < c.allowed_profiles@.len() ==> (#[trigger] c.allowed_profiles@[i])@
            == s.allowed_profiles@[i]@
    &&& c.requires_approval == flag(s.requires_approval)
    &&& (match c.signer {
        Some(n) => (s.signer matches Some(m) && n@ == m@),
        None => s.signer is None,
    })
    &&& Some(c.auth_method) == auth_choice(s)
    &&& (match c.auth_method {
        AuthMethod::Certificate => c.legacy_password is None,
        AuthMethod::LegacyPassword => (c.legacy_password matches Some(lp) && (s.password_secret_ref_env_var matches Some(r)
            && lp.secret_ref_env_var@ == trimmed(r@))),
    })
    &&& c.allow_unrestricted_sessions == flag(s.allow_unrestricted_sessions)
}

/// The broker section and the presence of each table.
pub open spec fn broker_ok(raw: RawConfig) -> bool {
    &&& is_identifier(raw.broker.default_signer@)
    &&& trimmed(raw.broker.audit_log_path@).len() > 0
    &&& 1 <= raw.broker.cert_ttl_seconds <= 3600
    &&& raw.signers.keys().len() > 0
    &&& raw.servers.keys().len() > 0
    &&& raw.profiles.keys().len() > 0
}

/// Every rule holds.
pub open spec fn raw_valid(raw: RawConfig) -> bool {
    &&& broker_ok(raw)
    &&& forall|i: int|
        0 <= i < raw.signers.keys().len() ==> signer_ok(
            #[trigger] raw.signers.keys()[i],
            raw.signers.vals()[i],
        )
    &&& raw.signers.keys().contains(raw.broker.default_signer@)
    &&& forall|i: int|
        0 <= i < raw.profiles.keys().len() ==> profile_ok(
            #[trigger] raw.profiles.keys()[i],
            raw.profiles.vals()[i],
        )
    &&& forall|i: int|
        0 <= i < raw.servers.keys().len() ==> server_ok(
            #[trigger] raw.servers.keys()[i],
            raw.servers.vals()[i],
            raw.signers.keys(),
            raw.profiles.keys(),
            true,
        )
}

/// The configuration that a valid `raw` describes.
pub open spec fn config_from(c: Config, raw: RawConfig) -> bool {
    &&& c.broker.cert_ttl_seconds == raw.broker.cert_ttl_seconds
    &&& c.broker.audit_log_path@ == trimmed(raw.broker.audit_log_path@)
    &&& c.broker.default_signer@ == raw.broker.default_signer@
    &&& c.signers.wf()
    &&& c.servers.wf()
    &&& c.profiles.wf()
    &&& c.signers.keys() == raw.signers.keys()
    &&& c.profiles.keys() == raw.profiles.keys()
    &&& c.servers.keys() == raw.servers.keys()
    &&& forall|i: int|
        0 <= i < c.signers.keys().len() ==> signer_built(
            #[trigger] c.signers.vals()[i],
            raw.signers.vals()[i],
        )
    &&& forall|i: int|
        0 <= i < c.profiles.keys().len() ==> profile_built(
            #[trigger] c.profiles.vals()[i],
            raw.profiles.vals()[i],
        )
    &&& forall|i: int|
        0 <= i < c.servers.keys().len() ==> server_built(
            #[trigger] c.servers.vals()[i],
            raw.servers.vals()[i],
        )
}

// ── The issues each rule reports ────────────────────────────────────────────

/// An issue about the server `name`: `servers.<name>` and then `tail`.
pub open spec fn on_server(name: Seq<char>, tail: Seq<char>) -> Seq<char> {
    "servers."@ + name + tail
}

pub open spec fn one_if(c: bool, issue: Seq<char>) -> Seq<Seq<char>> {
    if c {
        seq![issue]
    } else {
        Seq::empty()
    }
}

pub open spec fn host_issues(name: Seq<char>, s: RawServerConfig) -> Seq<Seq<char>> {
    let host = trimmed(s.host@);
    if !non_empty_no_ws(host) {
        seq![on_server(name, ".host must not be empty or contain whitespace"@)]
    } else {
        one_if(host.len() > MAX_HOST_LEN, on_server(name, ".host must not exceed 253 characters"@))
    }
}

pub open spec fn user_issues(name: Seq<char>, s: RawServerConfig) -> Seq<Seq<char>> {
    let user = trimmed(s.user@);
    if !is_remote_user(user) {
        seq![on_server(name, ".user must use a conservative SSH username character set"@)]
    } else {
        one_if(user.len() > MAX_USER_LEN, on_server(name, ".user must not exceed 32 characters"@))
    }
}

pub open spec fn root_issues(name: Seq<char>, s: RawServerConfig) -> Seq<Seq<char>> {
    let is_root = trimmed(s.user@) == "root"@;
    let ack = flag(s.root_login_acknowledged);
    one_if(
        is_root && !ack,
        on_server(name, ".user = \"root\" is discouraged and requires root_login_acknowledged = true"@),
    ) + one_if(
        !is_root && ack,
        on_server(name, ".root_login_acknowledged is only allowed when user = \"root\""@),
    )
}

pub open spec fn environment_issues(name: Seq<char>, s: RawServerConfig) -> Seq<Seq<char>> {
    let env = trimmed(s.environment@);
    if !non_empty_no_controls(env) {
        seq![on_server(name, ".environment must not be empty or contain control characters"@)]
    } else {
        one_if(
            byte_len(env) > MAX_ENVIRONMENT_LEN,
            on_server(name, ".environment must not exceed 64 characters"@),
        )
    }
}

/// What the host, user, root acknowledgement, environment and port of a
/// server are reported for, in that order.
pub open spec fn basics_issues(name: Seq<char>, s: RawServerConfig) -> Seq<Seq<char>> {
    host_issues(name, s) + user_issues(name, s) + root_issues(name, s) + environment_issues(name, s)
        + one_if(port_of(s) == 0, on_server(name, ".port must be greater than zero"@))
}

/// What each allowed profile of a server is reported for, in order.
pub open spec fn allowed_entry_issues(name: Seq<char>, profiles: Seq<String>, keys: Seq<Seq<char>>) -> Seq<Seq<char>>
    decreases profiles.len(),
{
    if profiles.len() == 0 {
        Seq::empty()
    } else {
        let p = profiles.last()@;
        allowed_entry_issues(name, profiles.drop_last(), keys) + match identifier_error(p) {
            Some(reason) => seq![
                on_server(name, ".allowed_profiles contains invalid profile '"@) + p + "': "@ + reason,
            ],
            None => one_if(
                !keys.contains(p),
                on_server(name, ".allowed_profiles references unknown profile '"@) + p + "'"@,
            ),
        }
    }
}

pub open spec fn allowed_issues(name: Seq<char>, s: RawServerConfig, keys: Seq<Seq<char>>) -> Seq<Seq<char>> {
    one_if(s.allowed_profiles@.len() == 0, on_server(name, ".allowed_profiles must not be empty"@))
        + allowed_entry_issues(name, s.allowed_profiles@, keys)
}

pub open spec fn no_signer_issue(name: Seq<char>) -> Seq<char> {
    on_server(name, " has no valid signer because broker.default_signer is invalid"@)
}

/// What a server's signer reference is reported for.
pub open spec fn signer_ref_issues(
    name: Seq<char>,
    s: RawServerConfig,
    keys: Seq<Seq<char>>,
    default_ok: bool,
) -> Seq<Seq<char>> {
    match s.signer {
        Some(n) => match identifier_error(n@) {
            None => one_if(!keys.contains(n@), on_server(name, ".signer references unknown signer '"@) + n@ + "'"@),
            Some(reason) => seq![on_server(name, ".signer: "@) + reason] + one_if(!default_ok, no_signer_issue(name)),
        },
        None => one_if(!default_ok, no_signer_issue(name)),
    }
}

/// What an explicit auth selector is reported for.
pub open spec fn selector_issues(name: Seq<char>, s: RawServerConfig) -> Seq<Seq<char>> {
    match s.auth_method {
        None => Seq::empty(),
        Some(a) => {
            let t = trimmed(a@);
            if t == "certificate"@ || t == "legacy_password"@ {
                Seq::empty()
            } else if t.len() == 0 {
                seq![on_server(name, ".auth_method must not be empty when provided"@)]
            } else {
                seq![on_server(name, ".auth_method must be 'certificate' or 'legacy_password', got '"@) + t + "'"@]
            }
        },
    }
}

/// The auth method a server is checked under: the one selected, or
/// certificates when the selector is not understood.
pub open spec fn effective_auth(s: RawServerConfig) -> AuthMethod {
    match auth_choice(s) {
        Some(m) => m,
        None => AuthMethod::Certificate,
    }
}

/// What the password lane settings of a server are reported for.
pub open spec fn lane_issues(name: Seq<char>, s: RawServerConfig) -> Seq<Seq<char>> {
    match effective_auth(s) {
        AuthMethod::Certificate => one_if(
            s.password_secret_ref_env_var is Some,
            on_server(name, ".password_secret_ref_env_var is only allowed when auth_method = \"legacy_password\""@),
        ) + one_if(
            flag(s.legacy_password_acknowledged),
            on_server(name, ".legacy_password_acknowledged is only allowed when auth_method = \"legacy_password\""@),
        ) + one_if(
            flag(s.fail2ban_allowlist_confirmed),
            on_server(name, ".fail2ban_allowlist_confirmed is only allowed when auth_method = \"legacy_password\""@),
        ),
        AuthMethod::LegacyPassword => match s.password_secret_ref_env_var {
            None => seq![
                on_server(name, ".password_secret_ref_env_var is required when auth_method = \"legacy_password\""@),
            ],
            Some(r) => one_if(
                !is_env_var_name(trimmed(r@)),
                on_server(name, ".password_secret_ref_env_var must be a valid environment variable name"@),
            ) + one_if(
                !flag(s.legacy_password_acknowledged),
                on_server(name, ".legacy_password_acknowledged must be true when auth_method = \"legacy_password\""@),
            ) + one_if(
                !flag(s.fail2ban_allowlist_confirmed),
                on_server(name, ".fail2ban_allowlist_confirmed must be true when auth_method = \"legacy_password\""@),
            ),
        },
    }
}

/// What a server's authentication settings are reported for.
pub open spec fn auth_issues(name: Seq<char>, s: RawServerConfig) -> Seq<Seq<char>> {
    password_field_issues(name, s) + selector_issues(name, s) + lane_issues(name, s)
}

/// What one server is reported for.
pub open spec fn server_issues(
    name: Seq<char>,
    s: RawServerConfig,
    signer_keys: Seq<Seq<char>>,
    profile_keys: Seq<Seq<char>>,
    default_ok: bool,
) -> Seq<Seq<char>> {
    match identifier_error(name) {
        Some(reason) => seq![on_server(name, ": "@) + reason],
        None => basics_issues(name, s) + allowed_issues(name, s, profile_keys) + signer_ref_issues(
            name,
            s,
            signer_keys,
            default_ok,
        ) + auth_issues(name, s),
    }
}

// ── Checking one server ─────────────────────────────────────────────────────

fn push_issue(issues: &mut Vec<String>, issue: String)
    ensures
        final(issues)@ == old(issues)@.push(issue),
        texts(final(issues)@) == texts(old(issues)@).push(issue@),
{
    issues.push(issue);
    assert(texts(issues@) =~= texts(old(issues)@).push(issue@));
}

fn flag_set(o: &Option<bool>) -> (b: bool)
    ensures
        b == flag(*o),
{
    match o {
        Some(v) => *v,
        None => false,
    }
}

fn check_host(name: &str, server: &RawServerConfig, issues: &mut Vec<String>) -> (r: String)
    ensures
        texts(final(issues)@) == texts(old(issues)@) + host_issues(name@, *server),
        final(issues)@.len() >= old(issues)@.len(),
        (final(issues)@.len() == old(issues)@.len()) == (non_empty_no_ws(trimmed(server.host@))
            && trimmed(server.host@).len() <= MAX_HOST_LEN),
        r@ == trimmed(server.host@),
{
    let host = trim(server.host.as_str());
    let hv = chars_of(host);
    if !is_non_empty_without_whitespace(host) {
        push_issue(issues, cat3("servers.", name, ".host must not be empty or contain whitespace"));
    } else if hv.len() > MAX_HOST_LEN {
        push_issue(issues, cat3("servers.", name, ".host must not exceed 253 characters"));
    } else {
        assert(texts(issues@) =~= texts(old(issues)@) + host_issues(name@, *server));
    }
    owned(host)
}

fn check_user(name: &str, server: &RawServerConfig, issues: &mut Vec<String>) -> (r: String)
    ensures
        texts(final(issues)@) == texts(old(issues)@) + user_issues(name@, *server),
        final(issues)@.len() >= old(issues)@.len(),
        (final(issues)@.len() == old(issues)@.len()) == (is_remote_user(trimmed(server.user@))
            && trimmed(server.user@).len() <= MAX_USER_LEN),
        r@ == trimmed(server.user@),
{
    let user = trim(server.user.as_str());
    let uv = chars_of(user);
    if !is_valid_remote_user(user) {
        push_issue(issues, cat3("servers.", name, ".user must use a conservative SSH username character set"));
    } else if uv.len() > MAX_USER_LEN {
        push_issue(issues, cat3("servers.", name, ".user must not exceed 32 characters"));
    } else {
        assert(texts(issues@) =~= texts(old(issues)@) + user_issues(name@, *server));
    }
    owned(user)
}

fn check_root(name: &str, server: &RawServerConfig, issues: &mut Vec<String>)
    ensures
        texts(final(issues)@) == texts(old(issues)@) + root_issues(name@, *server),
        final(issues)@.len() >= old(issues)@.len(),
        (final(issues)@.len() == old(issues)@.len()) == ((trimmed(server.user@) == "root"@) == flag(
            server.root_login_acknowledged,
        )),
{
    let user = trim(server.user.as_str());
    let is_root = str_eq(user, "root");
    let ack = flag_set(&server.root_login_acknowledged);
    let ghost start = texts(issues@);
    if is_root && !ack {
        push_issue(
            issues,
            cat3("servers.", name, ".user = \"root\" is discouraged and requires root_login_acknowledged = true"),
        );
    }
    if !is_root && ack {
        push_issue(issues, cat3("servers.", name, ".root_login_acknowledged is only allowed when user = \"root\""));
    }
    assert(texts(issues@) =~= start + root_issues(name@, *server));
}

fn check_environment(name: &str, server: &RawServerConfig, issues: &mut Vec<String>) -> (r: String)
    ensures
        texts(final(issues)@) == texts(old(issues)@) + environment_issues(name@, *server),
        final(issues)@.len() >= old(issues)@.len(),
        (final(issues)@.len() == old(issues)@.len()) == (non_empty_no_controls(trimmed(server.environment@))
            && byte_len(trimmed(server.environment@)) <= MAX_ENVIRONMENT_LEN),
        r@ == trimmed(server.environment@),
{
    let env = trim(server.environment.as_str());
    let ev = chars_of(env);
    if !is_non_empty_without_controls(env) {
        push_issue(issues, cat3("servers.", name, ".environment must not be empty or contain control characters"));
    } else if bytes_exceed(&ev, MAX_ENVIRONMENT_LEN) {
        push_issue(issues, cat3("servers.", name, ".environment must not exceed 64 characters"));
    } else {
        assert(texts(issues@) =~= texts(old(issues)@) + environment_issues(name@, *server));
    }
    owned(env)
}

fn check_server_basics(name: &str, server: &RawServerConfig, issues: &mut Vec<String>) -> (r: (
    String,
    String,
    String,
    u16,
))
    ensures
        final(issues)@.len() >= old(issues)@.len(),
        (final(issues)@.len() == old(issues)@.len()) == basics_ok(*server),
        texts(final(issues)@) == texts(old(issues)@) + basics_issues(name@, *server),
        r.0@ == trimmed(server.host@),
        r.1@ == trimmed(server.user@),
        r.2@ == trimmed(server.environment@),
        r.3 == port_of(*server),
{
    let ghost t0 = texts(issues@);
    let host = check_host(name, server, issues);
    let user = check_user(name, server, issues);
    check_root(name, server, issues);
    let env = check_environment(name, server, issues);
    let port: u16 = match server.port {
        Some(p) => p,
        None => 22,
    };
    if port == 0 {
        push_issue(issues, cat3("servers.", name, ".port must be greater than zero"));
    }
    assert(texts(issues@) =~= t0 + basics_issues(name@, *server));
    (host, user, env, port)
}

fn check_allowed_profiles(
    name: &str,
    server: &RawServerConfig,
    profiles: &Table<ProfileConfig>,
    issues: &mut Vec<String>,
) -> (r: Vec<ProfileName>)
    ensures
        final(issues)@.len() >= old(issues)@.len(),
        (final(issues)@.len() == old(issues)@.len()) == allowed_ok(*server, profiles.keys()),
        texts(final(issues)@) == texts(old(issues)@) + allowed_issues(name@, *server, profiles.keys()),
        allowed_ok(*server, profiles.keys()) ==> (r@.len() == server.allowed_profiles@.len() && (
        forall|i: int| 0 <= i < r@.len() ==> (#[trigger] r@[i])@ == server.allowed_profiles@[i]@)),
{
    let ghost start = issues@.len();
    let ghost t0 = texts(issues@);
    if server.allowed_profiles.len() == 0 {
        push_issue(issues, cat3("servers.", name, ".allowed_profiles must not be empty"));
    }
    let ghost n0 = issues@.len();
    let ghost t1 = texts(issues@);
    assert(server.allowed_profiles@.take(0) =~= Seq::<String>::empty());
    assert(t1 =~= t1 + allowed_entry_issues(name@, server.allowed_profiles@.take(0), profiles.keys()));
    let mut out: Vec<ProfileName> = Vec::new();
    let mut i: usize = 0;
    while i < server.allowed_profiles.len()
        invariant
            i <= server.allowed_profiles@.len(),
            start <= n0 <= issues@.len(),
            (n0 == start) == (server.allowed_profiles@.len() > 0),
            (issues@.len() == n0) == (forall|j: int|
                0 <= j < i ==> is_identifier((#[trigger] server.allowed_profiles@[j])@)
                    && profiles.keys().contains(server.allowed_profiles@[j]@)),
            issues@.len() == n0 ==> out@.len() == i && (forall|j: int|
                0 <= j < i ==> (#[trigger] out@[j])@ == server.allowed_profiles@[j]@),
            texts(issues@) == t1 + allowed_entry_issues(name@, server.allowed_profiles@.take(i as int), profiles.keys()),
        decreases server.allowed_profiles@.len() - i,
    {
        let profile_name = server.allowed_profiles[i].as_str();
        proof {
            let t = server.allowed_profiles@.take(i + 1);
            assert(t.drop_last() =~= server.allowed_profiles@.take(i as int));
            assert(t.last()@ == profile_name@);
        }
        match ProfileName::new(profile_name) {
            Err(reason) => {
                push_issue(
                    issues,
                    cat(
                        cat5("servers.", name, ".allowed_profiles contains invalid profile '", profile_name, "': ").as_str(),
                        reason.as_str(),
                    ),
                );
            },
            Ok(parsed) => {
                if !profiles.contains_key(parsed.as_str()) {
                    push_issue(
                        issues,
                        cat5("servers.", name, ".allowed_profiles references unknown profile '", profile_name, "'"),
                    );
                } else {
                    out.push(parsed);
                }
            },
        }
        assert(texts(issues@) =~= t1 + allowed_entry_issues(name@, server.allowed_profiles@.take(i + 1), profiles.keys()));
        i = i + 1;
    }
    assert(server.allowed_profiles@.take(i as int) =~= server.allowed_profiles@);
    assert(texts(issues@) =~= t0 + allowed_issues(name@, *server, profiles.keys()));
    out
}

fn check_server_signer(
    name: &str,
    server: &RawServerConfig,
    signers: &Table<SignerConfig>,
    default_ok: bool,
    issues: &mut Vec<String>,
) -> (r: Option<SignerName>)
    ensures
        final(issues)@.len() >= old(issues)@.len(),
        (final(issues)@.len() == old(issues)@.len()) == signer_ref_ok(*server, signers.keys(), default_ok),
        texts(final(issues)@) == texts(old(issues)@) + signer_ref_issues(name@, *server, signers.keys(), default_ok),
        signer_ref_ok(*server, signers.keys(), default_ok) ==> (match r {
            Some(n) => (server.signer matches Some(m) && n@ == m@),
            None => server.signer is None,
        }),
{
    let ghost t0 = texts(issues@);
    let signer = match &server.signer {
        Some(signer_name) => match SignerName::new(signer_name.as_str()) {
            Ok(parsed) => {
                if !signers.contains_key(parsed.as_str()) {
                    push_issue(
                        issues,
                        cat5("servers.", name, ".signer references unknown signer '", signer_name.as_str(), "'"),
                    );
                }
                Some(parsed)
            },
            Err(reason) => {
                push_issue(issues, cat(cat3("servers.", name, ".signer: ").as_str(), reason.as_str()));
                None
            },
        },
        None => None,
    };
    if signer.is_none() && !default_ok {
        push_issue(issues, cat3("servers.", name, " has no valid signer because broker.default_signer is invalid"));
    }
    assert(texts(issues@) =~= t0 + signer_ref_issues(name@, *server, signers.keys(), default_ok));
    signer
}

pub open spec fn password_field_issues(name: Seq<char>, s: RawServerConfig) -> Seq<Seq<char>> {
    one_if(
        s.password_env_var is Some,
        on_server(
            name,
            ".password_env_var is not supported; use password_secret_ref_env_var only with auth_method = \"legacy_password\" and an opaque secret reference"@,
        ),
    ) + one_if(
        s.password is Some,
        on_server(name, ".password is not supported; plaintext passwords are not allowed"@),
    )
}

fn check_password_fields(name: &str, server: &RawServerConfig, issues: &mut Vec<String>)
    ensures
        texts(final(issues)@) == texts(old(issues)@) + password_field_issues(name@, *server),
        (final(issues)@.len() == old(issues)@.len()) == (server.password_env_var is None
            && server.password is None),
        final(issues)@.len() >= old(issues)@.len(),
{
    let ghost t0 = texts(issues@);
    if server.password_env_var.is_some() {
        push_issue(issues, cat3("servers.", name, ".password_env_var is not supported; use password_secret_ref_env_var only with auth_method = \"legacy_password\" and an opaque secret reference"));
    }
    if server.password.is_some() {
        push_issue(issues, cat3("servers.", name, ".password is not supported; plaintext passwords are not allowed"));
    }
    assert(texts(issues@) =~= t0 + password_field_issues(name@, *server));
}

fn check_selector(name: &str, server: &RawServerConfig, issues: &mut Vec<String>) -> (r: AuthMethod)
    ensures
        texts(final(issues)@) == texts(old(issues)@) + selector_issues(name@, *server),
        (final(issues)@.len() == old(issues)@.len()) == (auth_choice(*server) is Some),
        final(issues)@.len() >= old(issues)@.len(),
        r == effective_auth(*server),
{
    let ghost t0 = texts(issues@);
    let auth = match &server.auth_method {
        None => AuthMethod::Certificate,
        Some(a) => {
            let t = trim(a.as_str());
            if str_eq(t, "certificate") {
                AuthMethod::Certificate
            } else if str_eq(t, "legacy_password") {
                AuthMethod::LegacyPassword
            } else if t.unicode_len() == 0 {
                push_issue(issues, cat3("servers.", name, ".auth_method must not be empty when provided"));
                AuthMethod::Certificate
            } else {
                push_issue(
                    issues,
                    cat5("servers.", name, ".auth_method must be 'certificate' or 'legacy_password', got '", t, "'"),
                );
                AuthMethod::Certificate
            }
        },
    };
    assert(texts(issues@) =~= t0 + selector_issues(name@, *server));
    auth
}

fn check_lane(name: &str, server: &RawServerConfig, auth: AuthMethod, issues: &mut Vec<String>) -> (r: Option<
    LegacyPasswordConfig,
>)
    requires
        auth == effective_auth(*server),
    ensures
        texts(final(issues)@) == texts(old(issues)@) + lane_issues(name@, *server),
        (final(issues)@.len() == old(issues)@.len()) == (lane_issues(name@, *server).len() == 0),
        final(issues)@.len() >= old(issues)@.len(),
        match auth {
            AuthMethod::Certificate => r is None,
            AuthMethod::LegacyPassword => (r matches Some(lp) ==> (server.password_secret_ref_env_var matches Some(x)
                && lp.secret_ref_env_var@ == trimmed(x@))) && (server.password_secret_ref_env_var is Some ==> r is Some),
        },
{
    let ghost t0 = texts(issues@);
    let legacy_ack = flag_set(&server.legacy_password_acknowledged);
    let fail2ban = flag_set(&server.fail2ban_allowlist_confirmed);
    let legacy = match auth {
        AuthMethod::Certificate => {
            if server.password_secret_ref_env_var.is_some() {
                push_issue(issues, cat3("servers.", name, ".password_secret_ref_env_var is only allowed when auth_method = \"legacy_password\""));
            }
            if legacy_ack {
                push_issue(issues, cat3("servers.", name, ".legacy_password_acknowledged is only allowed when auth_method = \"legacy_password\""));
            }
            if fail2ban {
                push_issue(issues, cat3("servers.", name, ".fail2ban_allowlist_confirmed is only allowed when auth_method = \"legacy_password\""));
            }
            None
        },
        AuthMethod::LegacyPassword => match &server.password_secret_ref_env_var {
            None => {
                push_issue(issues, cat3("servers.", name, ".password_secret_ref_env_var is required when auth_method = \"legacy_password\""));
                None
            },
            Some(r) => {
                let t = trim(r.as_str());
                if !is_valid_env_var_name(t) {
                    push_issue(issues, cat3("servers.", name, ".password_secret_ref_env_var must be a valid environment variable name"));
                }
                if !legacy_ack {
                    push_issue(issues, cat3("servers.", name, ".legacy_password_acknowledged must be true when auth_method = \"legacy_password\""));
                }
                if !fail2ban {
                    push_issue(issues, cat3("servers.", name, ".fail2ban_allowlist_confirmed must be true when auth_method = \"legacy_password\""));
                }
                Some(LegacyPasswordConfig { secret_ref_env_var: owned(t) })
            },
        },
    };
    assert(texts(issues@) =~= t0 + lane_issues(name@, *server));
    legacy
}

fn check_auth(name: &str, server: &RawServerConfig, issues: &mut Vec<String>) -> (r: (
    AuthMethod,
    Option<LegacyPasswordConfig>,
))
    ensures
        final(issues)@.len() >= old(issues)@.len(),
        (final(issues)@.len() == old(issues)@.len()) == auth_ok(*server),
        texts(final(issues)@) == texts(old(issues)@) + auth_issues(name@, *server),
        auth_ok(*server) ==> (Some(r.0) == auth_choice(*server) && (match r.0 {
            AuthMethod::Certificate => r.1 is None,
            AuthMethod::LegacyPassword => (r.1 matches Some(lp) && (server.password_secret_ref_env_var matches Some(x)
                && lp.secret_ref_env_var@ == trimmed(x@))),
        })),
{
    let ghost t0 = texts(issues@);
    check_password_fields(name, server, issues);
    let auth = check_selector(name, server, issues);
    let legacy = check_lane(name, server, auth, issues);
    assert(texts(issues@) =~= t0 + auth_issues(name@, *server));
    proof {
        assert(auth_issues(name@, *server) == password_field_issues(name@, *server) + selector_issues(name@, *server)
            + lane_issues(name@, *server));
        if texts(issues@).len() == t0.len() {
            assert(lane_issues(name@, *server).len() == 0);
        }
    }
    (auth, legacy)
}

/// Checks one server; `None` when its alias is not an identifier.
#[verifier::rlimit(50)]
#[verifier::spinoff_prover]
fn check_server(
    name: &str,
    server: &RawServerConfig,
    signers: &Table<SignerConfig>,
    profiles: &Table<ProfileConfig>,
    default_ok: bool,
    issues: &mut Vec<String>,
) -> (r: Option<ServerConfig>)
    ensures
        final(issues)@.len() >= old(issues)@.len(),
        (final(issues)@.len() == old(issues)@.len()) == server_ok(
            name@,
            *server,
            signers.keys(),
            profiles.keys(),
            default_ok,
        ),
        server_ok(name@, *server, signers.keys(), profiles.keys(), default_ok) ==> (r matches Some(c)
            && server_built(c, *server)),
        texts(final(issues)@) == texts(old(issues)@) + server_issues(
            name@,
            *server,
            signers.keys(),
            profiles.keys(),
            default_ok,
        ),
{
    let ghost t0 = texts(issues@);
    if let Err(reason) = crate::identifiers::validate_identifier(name) {
        push_issue(issues, cat(cat3("servers.", name, ": ").as_str(), reason.as_str()));
        return None;
    }
    let (host, user, environment, port) = check_server_basics(name, server, issues);
    let allowed_profiles = check_allowed_profiles(name, server, profiles, issues);
    let signer = check_server_signer(name, server, signers, default_ok, issues);
    let (auth_method, legacy_password) = check_auth(name, server, issues);
    assert(texts(issues@) =~= t0 + server_issues(name@, *server, signers.keys(), profiles.keys(), default_ok));
    let c = ServerConfig {
        host,
        port,
        user,
        environment,
        allowed_profiles,
        requires_approval: flag_set(&server.requires_approval),
        signer,
        auth_method,
        legacy_password,
        allow_unrestricted_sessions: flag_set(&server.allow_unrestricted_sessions),
    };
    Some(c)
}

// ── What the tables are reported for ───────────────────────────────────────

pub open spec fn signer_entry_issues(name: Seq<char>, s: RawSignerConfig) -> Seq<Seq<char>> {
    match identifier_error(name) {
        Some(reason) => seq!["signers."@ + name + ": "@ + reason],
        None => one_if(
            !non_empty_no_controls(trimmed(s.kind@)),
            "signers."@ + name + ".kind must not be empty or contain control characters"@,
        ),
    }
}

/// What the first `n` signers are reported for.
pub open spec fn signers_issues(keys: Seq<Seq<char>>, vals: Seq<RawSignerConfig>, n: int) -> Seq<Seq<char>>
    decreases n,
{
    if n <= 0 {
        Seq::empty()
    } else {
        signers_issues(keys, vals, n - 1) + signer_entry_issues(keys[n - 1], vals[n - 1])
    }
}

/// The names of the first `n` signers that pass their checks.
pub open spec fn good_signer_names(keys: Seq<Seq<char>>, vals: Seq<RawSignerConfig>, n: int) -> Seq<Seq<char>>
    decreases n,
{
    if n <= 0 {
        Seq::empty()
    } else if signer_ok(keys[n - 1], vals[n - 1]) {
        good_signer_names(keys, vals, n - 1).push(keys[n - 1])
    } else {
        good_signer_names(keys, vals, n - 1)
    }
}

pub open spec fn profile_entry_issues(name: Seq<char>, p: RawProfileConfig) -> Seq<Seq<char>> {
    match identifier_error(name) {
        Some(reason) => seq!["profiles."@ + name + ": "@ + reason],
        None => if trimmed(p.template@).len() == 0 {
            seq!["profiles."@ + name + ".template must not be empty"@]
        } else {
            one_if(
                trimmed(p.template@).len() > MAX_TEMPLATE_LEN,
                "profiles."@ + name + ".template must not exceed 4096 characters"@,
            )
        },
    }
}

/// What the first `n` profiles are reported for.
pub open spec fn profiles_issues(keys: Seq<Seq<char>>, vals: Seq<RawProfileConfig>, n: int) -> Seq<Seq<char>>
    decreases n,
{
    if n <= 0 {
        Seq::empty()
    } else {
        profiles_issues(keys, vals, n - 1) + profile_entry_issues(keys[n - 1], vals[n - 1])
    }
}

/// The names of the first `n` profiles that pass their checks.
pub open spec fn good_profile_names(keys: Seq<Seq<char>>, vals: Seq<RawProfileConfig>, n: int) -> Seq<Seq<char>>
    decreases n,
{
    if n <= 0 {
        Seq::empty()
    } else if profile_ok(keys[n - 1], vals[n - 1]) {
        good_profile_names(keys, vals, n - 1).push(keys[n - 1])
    } else {
        good_profile_names(keys, vals, n - 1)
    }
}

/// What the first `n` servers are reported for.
pub open spec fn servers_issues(
    keys: Seq<Seq<char>>,
    vals: Seq<RawServerConfig>,
    n: int,
    signer_keys: Seq<Seq<char>>,
    profile_keys: Seq<Seq<char>>,
    default_ok: bool,
) -> Seq<Seq<char>>
    decreases n,
{
    if n <= 0 {
        Seq::empty()
    } else {
        servers_issues(keys, vals, n - 1, signer_keys, profile_keys, default_ok) + server_issues(
            keys[n - 1],
            vals[n - 1],
            signer_keys,
            profile_keys,
            default_ok,
        )
    }
}

// ── Checking the tables ─────────────────────────────────────────────────────

#[verifier::rlimit(50)]
#[verifier::spinoff_prover]
fn check_signers(raw: &Table<RawSignerConfig>, issues: &mut Vec<String>) -> (t: Table<SignerConfig>)
    requires
        raw.wf(),
    ensures
        t.wf(),
        final(issues)@.len() >= old(issues)@.len(),
        (final(issues)@.len() == old(issues)@.len()) == (forall|i: int|
            0 <= i < raw.keys().len() ==> signer_ok(#[trigger] raw.keys()[i], raw.vals()[i])),
        final(issues)@.len() == old(issues)@.len() ==> (t.keys() == raw.keys() && forall|i: int|
            0 <= i < t.keys().len() ==> signer_built(#[trigger] t.vals()[i], raw.vals()[i])),
        texts(final(issues)@) == texts(old(issues)@) + signers_issues(raw.keys(), raw.vals(), raw.keys().len() as int),
        t.keys() == good_signer_names(raw.keys(), raw.vals(), raw.keys().len() as int),
{
    let ghost start = issues@.len();
    let ghost t0 = texts(issues@);
    let mut t: Table<SignerConfig> = Table::new();
    let mut i: usize = 0;
    while i < raw.len()
        invariant
            raw.wf(),
            t.wf(),
            i <= raw.keys().len(),
            issues@.len() >= start,
            (issues@.len() == start) == (forall|j: int|
                0 <= j < i ==> signer_ok(#[trigger] raw.keys()[j], raw.vals()[j])),
            issues@.len() == start ==> (t.keys() == raw.keys().take(i as int) && t.vals().len() == i
                && forall|j: int| 0 <= j < i ==> signer_built(#[trigger] t.vals()[j], raw.vals()[j])),
            t.keys().len() > 0 ==> exists|j: int| 0 <= j < i && t.keys().last() == raw.keys()[j],
            texts(issues@) == t0 + signers_issues(raw.keys(), raw.vals(), i as int),
            t.keys() == good_signer_names(raw.keys(), raw.vals(), i as int),
        decreases raw.keys().len() - i,
    {
        let name = raw.key_at(i);
        let signer = raw.value_at(i);
        let ghost before = issues@.len();
        match SignerName::new(name) {
            Err(reason) => {
                push_issue(issues, cat(cat3("signers.", name, ": ").as_str(), reason.as_str()));
            },
            Ok(_) => {
                let kind = trim(signer.kind.as_str());
                if !is_non_empty_without_controls(kind) {
                    push_issue(
                        issues,
                        cat3("signers.", name, ".kind must not be empty or contain control characters"),
                    );
                } else {
                    let c = SignerConfig {
                        kind: owned(kind),
                        ca_url: normalize_optional_string(&signer.ca_url),
                        provisioner: normalize_optional_string(&signer.provisioner),
                        subject: normalize_optional_string(&signer.subject),
                    };
                    proof {
                        if t.keys().len() > 0 {
                            let j = choose|j: int| 0 <= j < i && t.keys().last() == raw.keys()[j];
                            assert(str_lt(raw.keys()[j], raw.keys()[i as int]));
                        }
                    }
                    let ghost tv = t.vals();
                    t.push_last(owned(name), c);
                    proof {
                        if issues@.len() == start {
                            assert(t.keys() =~= raw.keys().take(i + 1));
                            assert forall|j: int| 0 <= j < i + 1 implies signer_built(
                                #[trigger] t.vals()[j],
                                raw.vals()[j],
                            ) by {
                                if j < i {
                                    assert(t.vals()[j] == tv[j]);
                                }
                            }
                        }
                    }
                }
            },
        }
        assert(texts(issues@) =~= t0 + signers_issues(raw.keys(), raw.vals(), i + 1));
        proof {
            if issues@.len() == start {
                assert(signer_ok(raw.keys()[i as int], raw.vals()[i as int]));
            }
            if issues@.len() != before {
                assert(!signer_ok(raw.keys()[i as int], raw.vals()[i as int]));
            }
        }
        i = i + 1;
    }
    proof {
        if issues@.len() == start {
            assert(t.keys() =~= raw.keys());
        }
    }
    t
}

#[verifier::rlimit(50)]
#[verifier::spinoff_prover]
fn check_profiles(raw: &Table<RawProfileConfig>, issues: &mut Vec<String>) -> (t: Table<ProfileConfig>)
    requires
        raw.wf(),
    ensures
        t.wf(),
        final(issues)@.len() >= old(issues)@.len(),
        (final(issues)@.len() == old(issues)@.len()) == (forall|i: int|
            0 <= i < raw.keys().len() ==> profile_ok(#[trigger] raw.keys()[i], raw.vals()[i])),
        final(issues)@.len() == old(issues)@.len() ==> (t.keys() == raw.keys() && forall|i: int|
            0 <= i < t.keys().len() ==> profile_built(#[trigger] t.vals()[i], raw.vals()[i])),
        texts(final(issues)@) == texts(old(issues)@) + profiles_issues(raw.keys(), raw.vals(), raw.keys().len() as int),
        t.keys() == good_profile_names(raw.keys(), raw.vals(), raw.keys().len() as int),
{
    let ghost start = issues@.len();
    let ghost t0 = texts(issues@);
    let mut t: Table<ProfileConfig> = Table::new();
    let mut i: usize = 0;
    while i < raw.len()
        invariant
            raw.wf(),
            t.wf(),
            i <= raw.keys().len(),
            issues@.len() >= start,
            (issues@.len() == start) == (forall|j: int|
                0 <= j < i ==> profile_ok(#[trigger] raw.keys()[j], raw.vals()[j])),
            issues@.len() == start ==> (t.keys() == raw.keys().take(i as int) && t.vals().len() == i
                && forall|j: int| 0 <= j < i ==> profile_built(#[trigger] t.vals()[j], raw.vals()[j])),
            t.keys().len() > 0 ==> exists|j: int| 0 <= j < i && t.keys().last() == raw.keys()[j],
            texts(issues@) == t0 + profiles_issues(raw.keys(), raw.vals(), i as int),
            t.keys() == good_profile_names(raw.keys(), raw.vals(), i as int),
        decreases raw.keys().len() - i,
    {
        let name = raw.key_at(i);
        let profile = raw.value_at(i);
        let ghost before = issues@.len();
        match ProfileName::new(name) {
            Err(reason) => {
                push_issue(issues, cat(cat3("profiles.", name, ": ").as_str(), reason.as_str()));
            },
            Ok(_) => {
                let template = trim(profile.template.as_str());
                if template.unicode_len() == 0 {
                    push_issue(issues, cat3("profiles.", name, ".template must not be empty"));
                } else if template.unicode_len() > MAX_TEMPLATE_LEN {
                    push_issue(
                        issues,
                        cat3("profiles.", name, ".template must not exceed 4096 characters"),
                    );
                } else {
                    let c = ProfileConfig {
                        description: normalize_optional_string(&profile.description),
                        template: owned(template),
                        requires_approval: flag_set(&profile.requires_approval),
                    };
                    proof {
                        if t.keys().len() > 0 {
                            let j = choose|j: int| 0 <= j < i && t.keys().last() == raw.keys()[j];
                            assert(str_lt(raw.keys()[j], raw.keys()[i as int]));
                        }
                    }
                    let ghost tv = t.vals();
                    t.push_last(owned(name), c);
                    proof {
                        if issues@.len() == start {
                            assert(t.keys() =~= raw.keys().take(i + 1));
                            assert forall|j: int| 0 <= j < i + 1 implies profile_built(
                                #[trigger] t.vals()[j],
                                raw.vals()[j],
                            ) by {
                                if j < i {
                                    assert(t.vals()[j] == tv[j]);
                                }
                            }
                        }
                    }
                }
            },
        }
        assert(texts(issues@) =~= t0 + profiles_issues(raw.keys(), raw.vals(), i + 1));
        proof {
            if issues@.len() == start {
                assert(profile_ok(raw.keys()[i as int], raw.vals()[i as int]));
            }
            if issues@.len() != before {
                assert(!profile_ok(raw.keys()[i as int], raw.vals()[i as int]));
            }
        }
        i = i + 1;
    }
    proof {
        if issues@.len() == start {
            assert(t.keys() =~= raw.keys());
        }
    }
    t
}

#[verifier::rlimit(50)]
#[verifier::spinoff_prover]
fn check_servers(
    raw: &Table<RawServerConfig>,
    signers: &Table<SignerConfig>,
    profiles: &Table<ProfileConfig>,
    default_ok: bool,
    issues: &mut Vec<String>,
) -> (t: Table<ServerConfig>)
    requires
        raw.wf(),
    ensures
        t.wf(),
        final(issues)@.len() >= old(issues)@.len(),
        (final(issues)@.len() == old(issues)@.len()) == (forall|i: int|
            0 <= i < raw.keys().len() ==> server_ok(
                #[trigger] raw.keys()[i],
                raw.vals()[i],
                signers.keys(),
                profiles.keys(),
                default_ok,
            )),
        final(issues)@.len() == old(issues)@.len() ==> (t.keys() == raw.keys() && forall|i: int|
            0 <= i < t.keys().len() ==> server_built(#[trigger] t.vals()[i], raw.vals()[i])),
        texts(final(issues)@) == texts(old(issues)@) + servers_issues(
            raw.keys(),
            raw.vals(),
            raw.keys().len() as int,
            signers.keys(),
            profiles.keys(),
            default_ok,
        ),
{
    let ghost start = issues@.len();
    let ghost t0 = texts(issues@);
    let mut t: Table<ServerConfig> = Table::new();
    let mut i: usize = 0;
    while i < raw.len()
        invariant
            raw.wf(),
            t.wf(),
            i <= raw.keys().len(),
            issues@.len() >= start,
            (issues@.len() == start) == (forall|j: int|
                0 <= j < i ==> server_ok(
                    #[trigger] raw.keys()[j],
                    raw.vals()[j],
                    signers.keys(),
                    profiles.keys(),
                    default_ok,
                )),
            issues@.len() == start ==> (t.keys() == raw.keys().take(i as int) && t.vals().len() == i
                && forall|j: int| 0 <= j < i ==> server_built(#[trigger] t.vals()[j], raw.vals()[j])),
            t.keys().len() > 0 ==> exists|j: int| 0 <= j < i && t.keys().last() == raw.keys()[j],
            texts(issues@) == t0 + servers_issues(
                raw.keys(),
                raw.vals(),
                i as int,
                signers.keys(),
                profiles.keys(),
                default_ok,
            ),
        decreases raw.keys().len() - i,
    {
        let name = raw.key_at(i);
        let server = raw.value_at(i);
        let built = check_server(name, server, signers, profiles, default_ok, issues);
        assert(texts(issues@) =~= t0 + servers_issues(
            raw.keys(),
            raw.vals(),
            i + 1,
            signers.keys(),
            profiles.keys(),
            default_ok,
        ));
        if let Some(c) = built {
            proof {
                if t.keys().len() > 0 {
                    let j = choose|j: int| 0 <= j < i && t.keys().last() == raw.keys()[j];
                    assert(str_lt(raw.keys()[j], raw.keys()[i as int]));
                }
            }
            let ghost tv = t.vals();
            t.push_last(owned(name), c);
            proof {
                if issues@.len() == start {
                    assert(t.keys() =~= raw.keys().take(i + 1));
                    assert forall|j: int| 0 <= j < i + 1 implies server_built(
                        #[trigger] t.vals()[j],
                        raw.vals()[j],
                    ) by {
                        if j < i {
                            assert(t.vals()[j] == tv[j]);
                        }
                    }
                }
            }
        }
        i = i + 1;
    }
    proof {
        if issues@.len() == start {
            assert(t.keys() =~= raw.keys());
        }
    }
    t
}

// ── The whole configuration ─────────────────────────────────────────────────

pub open spec fn default_name_issues(raw: RawConfig) -> Seq<Seq<char>> {
    match identifier_error(raw.broker.default_signer@) {
        Some(reason) => seq!["broker.default_signer: "@ + reason],
        None => Seq::empty(),
    }
}

pub open spec fn broker_field_issues(raw: RawConfig) -> Seq<Seq<char>> {
    one_if(trimmed(raw.broker.audit_log_path@).len() == 0, "broker.audit_log_path must not be empty"@)
        + one_if(raw.broker.cert_ttl_seconds == 0, "broker.cert_ttl_seconds must be greater than zero"@)
        + one_if(
        raw.broker.cert_ttl_seconds > 3600,
        "broker.cert_ttl_seconds must be less than or equal to 3600 seconds"@,
    )
}

pub open spec fn presence_issues(raw: RawConfig) -> Seq<Seq<char>> {
    one_if(raw.signers.keys().len() == 0, "at least one signer must be configured under [signers]"@)
        + one_if(raw.servers.keys().len() == 0, "at least one server must be configured under [servers]"@)
        + one_if(raw.profiles.keys().len() == 0, "at least one profile must be configured under [profiles]"@)
}

/// What the broker section and the presence of each table are reported for.
pub open spec fn broker_issues(raw: RawConfig) -> Seq<Seq<char>> {
    default_name_issues(raw) + broker_field_issues(raw) + presence_issues(raw)
}

/// The signers that pass their checks.
pub open spec fn good_signers(raw: RawConfig) -> Seq<Seq<char>> {
    good_signer_names(raw.signers.keys(), raw.signers.vals(), raw.signers.keys().len() as int)
}

/// The profiles that pass their checks.
pub open spec fn good_profiles(raw: RawConfig) -> Seq<Seq<char>> {
    good_profile_names(raw.profiles.keys(), raw.profiles.vals(), raw.profiles.keys().len() as int)
}

/// Every issue validation reports for `raw`, in the order it finds them:
/// the broker section, the signers, the default signer's reference, the
/// profiles, then the servers (checked against the signers and profiles
/// that pass their own checks).
pub open spec fn config_issues(raw: RawConfig) -> Seq<Seq<char>> {
    let d = raw.broker.default_signer@;
    broker_issues(raw) + signers_issues(raw.signers.keys(), raw.signers.vals(), raw.signers.keys().len() as int)
        + one_if(
        is_identifier(d) && !good_signers(raw).contains(d),
        unknown_default_issue(d),
    ) + profiles_issues(raw.profiles.keys(), raw.profiles.vals(), raw.profiles.keys().len() as int)
        + servers_issues(
        raw.servers.keys(),
        raw.servers.vals(),
        raw.servers.keys().len() as int,
        good_signers(raw),
        good_profiles(raw),
        is_identifier(d),
    )
}



fn check_default_name(raw: &RawConfig, issues: &mut Vec<String>) -> (r: Option<SignerName>)
    ensures
        texts(final(issues)@) == texts(old(issues)@) + default_name_issues(*raw),
        match r {
            Some(n) => is_identifier(raw.broker.default_signer@) && n@ == raw.broker.default_signer@,
            None => !is_identifier(raw.broker.default_signer@),
        },
{
    let ghost t0 = texts(issues@);
    let r = match SignerName::new(raw.broker.default_signer.as_str()) {
        Ok(name) => Some(name),
        Err(reason) => {
            push_issue(issues, cat("broker.default_signer: ", reason.as_str()));
            None
        },
    };
    assert(texts(issues@) =~= t0 + default_name_issues(*raw));
    r
}

fn check_broker_fields(raw: &RawConfig, issues: &mut Vec<String>)
    ensures
        texts(final(issues)@) == texts(old(issues)@) + broker_field_issues(*raw),
{
    let ghost t0 = texts(issues@);
    let audit_log_path = trim(raw.broker.audit_log_path.as_str());
    if audit_log_path.unicode_len() == 0 {
        push_issue(issues, owned("broker.audit_log_path must not be empty"));
    }
    if raw.broker.cert_ttl_seconds == 0 {
        push_issue(issues, owned("broker.cert_ttl_seconds must be greater than zero"));
    }
    if raw.broker.cert_ttl_seconds > 3600 {
        push_issue(issues, owned("broker.cert_ttl_seconds must be less than or equal to 3600 seconds"));
    }
    assert(texts(issues@) =~= t0 + broker_field_issues(*raw));
}

fn check_presence(raw: &RawConfig, issues: &mut Vec<String>)
    ensures
        texts(final(issues)@) == texts(old(issues)@) + presence_issues(*raw),
{
    let ghost t0 = texts(issues@);
    if raw.signers.is_empty() {
        push_issue(issues, owned("at least one signer must be configured under [signers]"));
    }
    if raw.servers.is_empty() {
        push_issue(issues, owned("at least one server must be configured under [servers]"));
    }
    if raw.profiles.is_empty() {
        push_issue(issues, owned("at least one profile must be configured under [profiles]"));
    }
    assert(texts(issues@) =~= t0 + presence_issues(*raw));
}

fn check_broker(raw: &RawConfig, issues: &mut Vec<String>) -> (r: Option<SignerName>)
    ensures
        texts(final(issues)@) == texts(old(issues)@) + broker_issues(*raw),
        final(issues)@.len() >= old(issues)@.len(),
        (final(issues)@.len() == old(issues)@.len()) == broker_ok(*raw),
        match r {
            Some(n) => is_identifier(raw.broker.default_signer@) && n@ == raw.broker.default_signer@,
            None => !is_identifier(raw.broker.default_signer@),
        },
{
    let ghost t0 = texts(issues@);
    let r = check_default_name(raw, issues);
    check_broker_fields(raw, issues);
    check_presence(raw, issues);
    assert(texts(issues@) =~= t0 + broker_issues(*raw));
    r
}

pub open spec fn unknown_default_issue(d: Seq<char>) -> Seq<char> {
    "broker.default_signer references unknown signer '"@ + d + "'"@
}

fn check_default_reference(
    default_signer: &Option<SignerName>,
    signers: &Table<SignerConfig>,
    issues: &mut Vec<String>,
)
    ensures
        texts(final(issues)@) == texts(old(issues)@) + match *default_signer {
            Some(d) => one_if(!signers.keys().contains(d@), unknown_default_issue(d@)),
            None => Seq::empty(),
        },
{
    let ghost t0 = texts(issues@);
    match default_signer {
        Some(d) => {
            if !signers.contains_key(d.as_str()) {
                push_issue(issues, cat3("broker.default_signer references unknown signer '", d.as_str(), "'"));
            }
        },
        None => {},
    }
    assert(texts(issues@) =~= t0 + match *default_signer {
        Some(d) => one_if(!signers.keys().contains(d@), unknown_default_issue(d@)),
        None => Seq::empty(),
    });
}

/// The report of `issues`, which must not be empty.
fn report(issues: Vec<String>) -> (e: ValidationError)
    requires
        issues@.len() > 0,
    ensures
        e.issue_views().to_set() == texts(issues@).to_set(),
        e.issue_views().len() > 0,
{
    let e = ValidationError::new(issues);
    proof {
        let x = texts(issues@)[0];
        assert(texts(issues@).to_set().contains(x));
        assert(e.issue_views().to_set().contains(x));
    }
    e
}

/// Checks every rule of `raw` and builds the configuration it describes; when
/// any rule is broken, every broken rule is reported instead.
pub fn validate_config(raw: RawConfig) -> (r: Result<Config, ValidationError>)
    requires
        raw.signers.wf(),
        raw.servers.wf(),
        raw.profiles.wf(),
    ensures
        r is Ok <==> raw_valid(raw),
        r is Ok <==> config_issues(raw).len() == 0,
        r matches Ok(c) ==> config_from(c, raw),
        r matches Err(e) ==> e.issue_views().to_set() == config_issues(raw).to_set(),
{
    let mut issues: Vec<String> = Vec::new();
    assert(texts(issues@) =~= Seq::<Seq<char>>::empty());
    let default_signer = check_broker(&raw, &mut issues);
    let signers = check_signers(&raw.signers, &mut issues);
    let ghost t_signers = texts(issues@);
    check_default_reference(&default_signer, &signers, &mut issues);
    assert(texts(issues@) =~= t_signers + one_if(
        is_identifier(raw.broker.default_signer@) && !good_signers(raw).contains(raw.broker.default_signer@),
        unknown_default_issue(raw.broker.default_signer@),
    ));
    let profiles = check_profiles(&raw.profiles, &mut issues);
    let servers = check_servers(
        &raw.servers,
        &signers,
        &profiles,
        default_signer.is_some(),
        &mut issues,
    );
    assert(texts(issues@) =~= config_issues(raw));
    if issues.len() > 0 {
        return Err(report(issues));
    }
    let audit_log_path = trim(raw.broker.audit_log_path.as_str());
    match default_signer {
        Some(default_signer) => Ok(
            Config {
                broker: BrokerConfig {
                    cert_ttl_seconds: raw.broker.cert_ttl_seconds,
                    audit_log_path: owned(audit_log_path),
                    default_signer,
                },
                signers,
                servers,
                profiles,
            },
        ),
        None => {
            let mut one: Vec<String> = Vec::new();
            one.push(owned("broker.default_signer must be valid"));
            Err(report(one))
        },
    }
}

// ── What validation guarantees ──────────────────────────────────────────────

/// One server's settings hang together.
pub open spec fn server_consistent(c: Config, s: ServerConfig) -> bool {
    &&& non_empty_no_ws(s.host@)
    &&& s.host@.len() <= MAX_HOST_LEN
    &&& is_remote_user(s.user@)
    &&& s.user@.len() <= MAX_USER_LEN
    &&& non_empty_no_controls(s.environment@)
    &&& byte_len(s.environment@) <= MAX_ENVIRONMENT_LEN
    &&& s.port != 0
    &&& s.allowed_profiles@.len() > 0
    &&& forall|j: int|
        0 <= j < s.allowed_profiles@.len() ==> c.profiles.has((#[trigger] s.allowed_profiles@[j])@)
    &&& (s.signer matches Some(n) ==> c.signers.has(n@))
    &&& (s.auth_method == AuthMethod::LegacyPassword <==> s.legacy_password is Some)
    &&& (s.legacy_password matches Some(lp) ==> is_env_var_name(lp.secret_ref_env_var@))
}

/// Every reference in the configuration names something configured, and the
/// certificate lifetime is within bounds.
pub open spec fn config_consistent(c: Config) -> bool {
    &&& 1 <= c.broker.cert_ttl_seconds <= 3600
    &&& c.signers.has(c.broker.default_signer@)
    &&& c.servers.keys().len() > 0
    &&& c.profiles.keys().len() > 0
    &&& forall|i: int|
        0 <= i < c.servers.vals().len() ==> server_consistent(c, #[trigger] c.servers.vals()[i])
}

/// A configuration that validation accepts is consistent: each server's
/// host (at most 253 characters), user (at most 32 characters) and
/// environment (at most 64 bytes) are within their bounds, its allowed
/// profiles and signer are configured, the default signer is configured,
/// ports are non-zero and the certificate lifetime lies in 1..=3600 seconds.
pub proof fn validated_config_is_consistent(raw: RawConfig, c: Config)
    requires
        raw.signers.wf(),
        raw.servers.wf(),
        raw.profiles.wf(),
        raw_valid(raw),
        config_from(c, raw),
    ensures
        config_consistent(c),
{
    c.servers.lemma_lens();
    raw.servers.lemma_lens();
    assert forall|i: int| 0 <= i < c.servers.vals().len() implies server_consistent(
        c,
        #[trigger] c.servers.vals()[i],
    ) by {
        let s = c.servers.vals()[i];
        let rs = raw.servers.vals()[i];
        assert(server_built(s, rs));
        assert(server_ok(raw.servers.keys()[i], rs, raw.signers.keys(), raw.profiles.keys(), true));
        assert forall|j: int| 0 <= j < s.allowed_profiles@.len() implies c.profiles.has(
            (#[trigger] s.allowed_profiles@[j])@,
        ) by {
            assert(s.allowed_profiles@[j]@ == rs.allowed_profiles@[j]@);
        }
    }
}

// ── What validation reports ─────────────────────────────────────────────────

proof fn lemma_contains_concat(a: Seq<Seq<char>>, b: Seq<Seq<char>>, m: Seq<char>)
    ensures
        a.contains(m) ==> (a + b).contains(m),
        b.contains(m) ==> (a + b).contains(m),
{
    if a.contains(m) {
        let k = choose|k: int| 0 <= k < a.len() && a[k] == m;
        assert((a + b)[k] == m);
    }
    if b.contains(m) {
        let k = choose|k: int| 0 <= k < b.len() && b[k] == m;
        assert((a + b)[a.len() + k] == m);
    }
}

proof fn lemma_server_issue_kept(
    keys: Seq<Seq<char>>,
    vals: Seq<RawServerConfig>,
    n: int,
    sk: Seq<Seq<char>>,
    pk: Seq<Seq<char>>,
    d: bool,
    i: int,
    m: Seq<char>,
)
    requires
        0 <= i < n,
        server_issues(keys[i], vals[i], sk, pk, d).contains(m),
    ensures
        servers_issues(keys, vals, n, sk, pk, d).contains(m),
    decreases n,
{
    if i < n - 1 {
        lemma_server_issue_kept(keys, vals, n - 1, sk, pk, d, i, m);
    }
    lemma_contains_concat(
        servers_issues(keys, vals, n - 1, sk, pk, d),
        server_issues(keys[n - 1], vals[n - 1], sk, pk, d),
        m,
    );
}

proof fn lemma_profile_issue_kept(keys: Seq<Seq<char>>, vals: Seq<RawProfileConfig>, n: int, i: int, m: Seq<char>)
    requires
        0 <= i < n,
        profile_entry_issues(keys[i], vals[i]).contains(m),
    ensures
        profiles_issues(keys, vals, n).contains(m),
    decreases n,
{
    if i < n - 1 {
        lemma_profile_issue_kept(keys, vals, n - 1, i, m);
    }
    lemma_contains_concat(profiles_issues(keys, vals, n - 1), profile_entry_issues(keys[n - 1], vals[n - 1]), m);
}

/// An issue about server `i` is among the issues of the whole configuration.
proof fn lemma_reported_for_server(raw: RawConfig, i: int, m: Seq<char>)
    requires
        0 <= i < raw.servers.keys().len(),
        server_issues(
            raw.servers.keys()[i],
            raw.servers.vals()[i],
            good_signers(raw),
            good_profiles(raw),
            is_identifier(raw.broker.default_signer@),
        ).contains(m),
    ensures
        config_issues(raw).contains(m),
{
    let d = raw.broker.default_signer@;
    lemma_server_issue_kept(
        raw.servers.keys(),
        raw.servers.vals(),
        raw.servers.keys().len() as int,
        good_signers(raw),
        good_profiles(raw),
        is_identifier(d),
        i,
        m,
    );
    let front = broker_issues(raw) + signers_issues(
        raw.signers.keys(),
        raw.signers.vals(),
        raw.signers.keys().len() as int,
    ) + one_if(is_identifier(d) && !good_signers(raw).contains(d), unknown_default_issue(d))
        + profiles_issues(raw.profiles.keys(), raw.profiles.vals(), raw.profiles.keys().len() as int);
    lemma_contains_concat(
        front,
        servers_issues(
            raw.servers.keys(),
            raw.servers.vals(),
            raw.servers.keys().len() as int,
            good_signers(raw),
            good_profiles(raw),
            is_identifier(d),
        ),
        m,
    );
}

/// The legacy password lane is checked: a server with a valid alias that
/// selects `legacy_password` is reported when it names no reference variable,
/// and otherwise for each of a reference variable that is not a valid
/// environment variable name, a missing `legacy_password_acknowledged = true`
/// and a missing `fail2ban_allowlist_confirmed = true`; any of these makes
/// validation fail.
pub proof fn legacy_password_lane_is_checked(raw: RawConfig, i: int)
    requires
        raw.servers.wf(),
        0 <= i < raw.servers.keys().len(),
        is_identifier(raw.servers.keys()[i]),
        raw.servers.vals()[i].auth_method matches Some(a) && trimmed(a@) == "legacy_password"@,
    ensures
        raw.servers.vals()[i].password_secret_ref_env_var is None ==> config_issues(raw).contains(
            on_server(
                raw.servers.keys()[i],
                ".password_secret_ref_env_var is required when auth_method = \"legacy_password\""@,
            ),
        ),
        raw.servers.vals()[i].password_secret_ref_env_var matches Some(r) ==> (!is_env_var_name(trimmed(r@))
            ==> config_issues(raw).contains(
            on_server(raw.servers.keys()[i], ".password_secret_ref_env_var must be a valid environment variable name"@),
        )),
        raw.servers.vals()[i].password_secret_ref_env_var is Some ==> (!flag(
            raw.servers.vals()[i].legacy_password_acknowledged,
        ) ==> config_issues(raw).contains(
            on_server(
                raw.servers.keys()[i],
                ".legacy_password_acknowledged must be true when auth_method = \"legacy_password\""@,
            ),
        )),
        raw.servers.vals()[i].password_secret_ref_env_var is Some ==> (!flag(
            raw.servers.vals()[i].fail2ban_allowlist_confirmed,
        ) ==> config_issues(raw).contains(
            on_server(
                raw.servers.keys()[i],
                ".fail2ban_allowlist_confirmed must be true when auth_method = \"legacy_password\""@,
            ),
        )),
        (match raw.servers.vals()[i].password_secret_ref_env_var {
            None => true,
            Some(r) => !is_env_var_name(trimmed(r@)),
        } || !flag(raw.servers.vals()[i].legacy_password_acknowledged) || !flag(
            raw.servers.vals()[i].fail2ban_allowlist_confirmed,
        )) ==> config_issues(raw).len() > 0,
{
    let name = raw.servers.keys()[i];
    let s = raw.servers.vals()[i];
    raw.servers.lemma_lens();
    let sk = good_signers(raw);
    let pk = good_profiles(raw);
    let d = is_identifier(raw.broker.default_signer@);
    reveal_strlit("certificate");
    reveal_strlit("legacy_password");
    assert("legacy_password"@ != "certificate"@) by {
        assert("legacy_password"@.len() != "certificate"@.len());
    }
    assert(effective_auth(s) == AuthMethod::LegacyPassword);
    let li = lane_issues(name, s);
    let head = basics_issues(name, s) + allowed_issues(name, s, pk) + signer_ref_issues(name, s, sk, d);
    let ai = auth_issues(name, s);
    assert(server_issues(name, s, sk, pk, d) == head + ai);
    let pf = password_field_issues(name, s) + selector_issues(name, s);
    assert(ai == pf + li);
    assert forall|m: Seq<char>| li.contains(m) implies config_issues(raw).contains(m) by {
        lemma_contains_concat(pf, li, m);
        lemma_contains_concat(head, ai, m);
        lemma_reported_for_server(raw, i, m);
    }
    match s.password_secret_ref_env_var {
        None => {
            assert(li[0] == on_server(name, ".password_secret_ref_env_var is required when auth_method = \"legacy_password\""@));
            assert(li.contains(li[0]));
        },
        Some(r) => {
            let a1 = one_if(!is_env_var_name(trimmed(r@)), on_server(name, ".password_secret_ref_env_var must be a valid environment variable name"@));
            let a2 = one_if(!flag(s.legacy_password_acknowledged), on_server(name, ".legacy_password_acknowledged must be true when auth_method = \"legacy_password\""@));
            let a3 = one_if(!flag(s.fail2ban_allowlist_confirmed), on_server(name, ".fail2ban_allowlist_confirmed must be true when auth_method = \"legacy_password\""@));
            assert(li == a1 + a2 + a3);
            if !is_env_var_name(trimmed(r@)) {
                assert(a1[0] == on_server(name, ".password_secret_ref_env_var must be a valid environment variable name"@));
                lemma_contains_concat(a1, a2, a1[0]);
                lemma_contains_concat(a1 + a2, a3, a1[0]);
            }
            if !flag(s.legacy_password_acknowledged) {
                assert(a2[0] == on_server(name, ".legacy_password_acknowledged must be true when auth_method = \"legacy_password\""@));
                lemma_contains_concat(a1, a2, a2[0]);
                lemma_contains_concat(a1 + a2, a3, a2[0]);
            }
            if !flag(s.fail2ban_allowlist_confirmed) {
                assert(a3[0] == on_server(name, ".fail2ban_allowlist_confirmed must be true when auth_method = \"legacy_password\""@));
                lemma_contains_concat(a1 + a2, a3, a3[0]);
            }
        },
    }
}

/// The pieces of the configuration's issues, in order.
proof fn lemma_config_issue_parts(raw: RawConfig, m: Seq<char>)
    ensures
        broker_issues(raw).contains(m) ==> config_issues(raw).contains(m),
        profiles_issues(raw.profiles.keys(), raw.profiles.vals(), raw.profiles.keys().len() as int).contains(m)
            ==> config_issues(raw).contains(m),
{
    let d = raw.broker.default_signer@;
    let a = broker_issues(raw);
    let b = signers_issues(raw.signers.keys(), raw.signers.vals(), raw.signers.keys().len() as int);
    let c = one_if(is_identifier(d) && !good_signers(raw).contains(d), unknown_default_issue(d));
    let p = profiles_issues(raw.profiles.keys(), raw.profiles.vals(), raw.profiles.keys().len() as int);
    let v = servers_issues(
        raw.servers.keys(),
        raw.servers.vals(),
        raw.servers.keys().len() as int,
        good_signers(raw),
        good_profiles(raw),
        is_identifier(d),
    );
    lemma_contains_concat(a, b, m);
    lemma_contains_concat(a + b, c, m);
    lemma_contains_concat(a + b + c, p, m);
    lemma_contains_concat(a + b + c + p, v, m);
}

/// The broker's bounds are checked: a certificate lifetime of zero or above
/// 3600 seconds, and a configuration without servers, are each reported.
pub proof fn broker_bounds_are_reported(raw: RawConfig)
    ensures
        raw.broker.cert_ttl_seconds == 0 ==> config_issues(raw).contains(
            "broker.cert_ttl_seconds must be greater than zero"@,
        ),
        raw.broker.cert_ttl_seconds > 3600 ==> config_issues(raw).contains(
            "broker.cert_ttl_seconds must be less than or equal to 3600 seconds"@,
        ),
        raw.servers.keys().len() == 0 ==> config_issues(raw).contains(
            "at least one server must be configured under [servers]"@,
        ),
{
    let d = default_name_issues(raw);
    let f1 = one_if(trimmed(raw.broker.audit_log_path@).len() == 0, "broker.audit_log_path must not be empty"@);
    let f2 = one_if(raw.broker.cert_ttl_seconds == 0, "broker.cert_ttl_seconds must be greater than zero"@);
    let f3 = one_if(raw.broker.cert_ttl_seconds > 3600, "broker.cert_ttl_seconds must be less than or equal to 3600 seconds"@);
    let q1 = one_if(raw.signers.keys().len() == 0, "at least one signer must be configured under [signers]"@);
    let q2 = one_if(raw.servers.keys().len() == 0, "at least one server must be configured under [servers]"@);
    let q3 = one_if(raw.profiles.keys().len() == 0, "at least one profile must be configured under [profiles]"@);
    let f = broker_field_issues(raw);
    let q = presence_issues(raw);
    assert(f == f1 + f2 + f3);
    assert(q == q1 + q2 + q3);
    assert(broker_issues(raw) == d + f + q);
    if raw.broker.cert_ttl_seconds == 0 {
        let m = "broker.cert_ttl_seconds must be greater than zero"@;
        assert(f2[0] == m);
        lemma_contains_concat(f1, f2, m);
        lemma_contains_concat(f1 + f2, f3, m);
        lemma_contains_concat(d, f, m);
        lemma_contains_concat(d + f, q, m);
        lemma_config_issue_parts(raw, m);
    }
    if raw.broker.cert_ttl_seconds > 3600 {
        let m = "broker.cert_ttl_seconds must be less than or equal to 3600 seconds"@;
        assert(f3[0] == m);
        lemma_contains_concat(f1 + f2, f3, m);
        lemma_contains_concat(d, f, m);
        lemma_contains_concat(d + f, q, m);
        lemma_config_issue_parts(raw, m);
    }
    if raw.servers.keys().len() == 0 {
        let m = "at least one server must be configured under [servers]"@;
        assert(q2[0] == m);
        lemma_contains_concat(q1, q2, m);
        lemma_contains_concat(q1 + q2, q3, m);
        lemma_contains_concat(d + f, q, m);
        lemma_config_issue_parts(raw, m);
    }
}

/// A server with a valid alias is reported for a zero port, a host longer
/// than 253 characters, a user outside the conservative character set or
/// longer than 32 characters, and an auth selector other than `certificate`
/// or `legacy_password`.
pub proof fn server_bounds_are_reported(raw: RawConfig, i: int)
    requires
        raw.servers.wf(),
        0 <= i < raw.servers.keys().len(),
        is_identifier(raw.servers.keys()[i]),
    ensures
        port_of(raw.servers.vals()[i]) == 0 ==> config_issues(raw).contains(
            on_server(raw.servers.keys()[i], ".port must be greater than zero"@),
        ),
        non_empty_no_ws(trimmed(raw.servers.vals()[i].host@)) && trimmed(raw.servers.vals()[i].host@).len()
            > MAX_HOST_LEN ==> config_issues(raw).contains(
            on_server(raw.servers.keys()[i], ".host must not exceed 253 characters"@),
        ),
        !is_remote_user(trimmed(raw.servers.vals()[i].user@)) ==> config_issues(raw).contains(
            on_server(raw.servers.keys()[i], ".user must use a conservative SSH username character set"@),
        ),
        is_remote_user(trimmed(raw.servers.vals()[i].user@)) && trimmed(raw.servers.vals()[i].user@).len()
            > MAX_USER_LEN ==> config_issues(raw).contains(
            on_server(raw.servers.keys()[i], ".user must not exceed 32 characters"@),
        ),
        raw.servers.vals()[i].auth_method matches Some(a) ==> (trimmed(a@).len() == 0 ==> config_issues(
            raw,
        ).contains(on_server(raw.servers.keys()[i], ".auth_method must not be empty when provided"@))),
        raw.servers.vals()[i].auth_method matches Some(a) ==> (auth_choice(raw.servers.vals()[i]) is None
            && trimmed(a@).len() > 0 ==> config_issues(raw).contains(
            on_server(raw.servers.keys()[i], ".auth_method must be 'certificate' or 'legacy_password', got '"@)
                + trimmed(a@) + "'"@,
        )),
{
    let name = raw.servers.keys()[i];
    let s = raw.servers.vals()[i];
    raw.servers.lemma_lens();
    let sk = good_signers(raw);
    let pk = good_profiles(raw);
    let d = is_identifier(raw.broker.default_signer@);
    let hi = host_issues(name, s);
    let ui = user_issues(name, s);
    let ri = root_issues(name, s);
    let ei = environment_issues(name, s);
    let pi = one_if(port_of(s) == 0, on_server(name, ".port must be greater than zero"@));
    let bi = basics_issues(name, s);
    assert(bi == hi + ui + ri + ei + pi);
    let mid = allowed_issues(name, s, pk) + signer_ref_issues(name, s, sk, d);
    let ai = auth_issues(name, s);
    let pf = password_field_issues(name, s);
    let si = selector_issues(name, s);
    let li = lane_issues(name, s);
    assert(ai == pf + si + li);
    assert(server_issues(name, s, sk, pk, d) == bi + allowed_issues(name, s, pk) + signer_ref_issues(
        name,
        s,
        sk,
        d,
    ) + ai);
    assert forall|m: Seq<char>| bi.contains(m) implies config_issues(raw).contains(m) by {
        lemma_contains_concat(bi, allowed_issues(name, s, pk), m);
        lemma_contains_concat(bi + allowed_issues(name, s, pk), signer_ref_issues(name, s, sk, d), m);
        lemma_contains_concat(bi + allowed_issues(name, s, pk) + signer_ref_issues(name, s, sk, d), ai, m);
        lemma_reported_for_server(raw, i, m);
    }
    assert forall|m: Seq<char>| si.contains(m) implies config_issues(raw).contains(m) by {
        lemma_contains_concat(pf, si, m);
        lemma_contains_concat(pf + si, li, m);
        lemma_contains_concat(bi + allowed_issues(name, s, pk) + signer_ref_issues(name, s, sk, d), ai, m);
        lemma_reported_for_server(raw, i, m);
    }
    if port_of(s) == 0 {
        let m = on_server(name, ".port must be greater than zero"@);
        assert(pi[0] == m);
        lemma_contains_concat(hi + ui + ri + ei, pi, m);
    }
    if non_empty_no_ws(trimmed(s.host@)) && trimmed(s.host@).len() > MAX_HOST_LEN {
        let m = on_server(name, ".host must not exceed 253 characters"@);
        assert(hi[0] == m);
        lemma_contains_concat(hi, ui, m);
        lemma_contains_concat(hi + ui, ri, m);
        lemma_contains_concat(hi + ui + ri, ei, m);
        lemma_contains_concat(hi + ui + ri + ei, pi, m);
    }
    if !is_remote_user(trimmed(s.user@)) || trimmed(s.user@).len() > MAX_USER_LEN {
        assert(ui.len() > 0);
        let m = ui[0];
        lemma_contains_concat(hi, ui, m);
        lemma_contains_concat(hi + ui, ri, m);
        lemma_contains_concat(hi + ui + ri, ei, m);
        lemma_contains_concat(hi + ui + ri + ei, pi, m);
    }
    if let Some(a) = s.auth_method {
        if auth_choice(s) is None {
            assert(si.contains(si[0]));
        } else if trimmed(a@).len() == 0 {
            reveal_strlit("certificate");
            reveal_strlit("legacy_password");
        }
    }
}

/// A profile with a valid name whose trimmed template is longer than 4096
/// characters is reported.
pub proof fn template_bound_is_reported(raw: RawConfig, i: int)
    requires
        raw.profiles.wf(),
        0 <= i < raw.profiles.keys().len(),
        is_identifier(raw.profiles.keys()[i]),
        trimmed(raw.profiles.vals()[i].template@).len() > MAX_TEMPLATE_LEN,
    ensures
        config_issues(raw).contains(
            "profiles."@ + raw.profiles.keys()[i] + ".template must not exceed 4096 characters"@,
        ),
{
    raw.profiles.lemma_lens();
    let e = profile_entry_issues(raw.profiles.keys()[i], raw.profiles.vals()[i]);
    assert(e[0] == "profiles."@ + raw.profiles.keys()[i] + ".template must not exceed 4096 characters"@);
    assert(e.contains(e[0]));
    lemma_profile_issue_kept(
        raw.profiles.keys(),
        raw.profiles.vals(),
        raw.profiles.keys().len() as int,
        i,
        e[0],
    );
    lemma_config_issue_parts(raw, e[0]);
}

/// A remote user is exactly a non-empty name that starts with an ASCII
/// letter or '_' and goes on with ASCII letters, digits, '.', '_' and '-'
/// (`[A-Za-z_][A-Za-z0-9._-]*`), such as `ec2-user`.
pub proof fn remote_user_grammar(v: Seq<char>)
    ensures
        is_remote_user(v) <==> (v.len() > 0 && (('a' <= v[0] && v[0] <= 'z') || ('A' <= v[0] && v[0]
            <= 'Z') || v[0] == '_') && forall|i: int|
            1 <= i < v.len() ==> {
                let c = #[trigger] v[i];
                ('a' <= c && c <= 'z') || ('A' <= c && c <= 'Z') || ('0' <= c && c <= '9') || c == '.'
                    || c == '_' || c == '-'
            }),
{
}

/// A user that, once trimmed, matches `[A-Za-z_][A-Za-z0-9._-]*` and has at
/// most 32 characters draws no issue about the user.
pub proof fn conservative_users_are_accepted(name: Seq<char>, s: RawServerConfig)
    requires
        trimmed(s.user@).len() > 0,
        trimmed(s.user@).len() <= 32,
        ('a' <= trimmed(s.user@)[0] && trimmed(s.user@)[0] <= 'z') || ('A' <= trimmed(s.user@)[0]
            && trimmed(s.user@)[0] <= 'Z') || trimmed(s.user@)[0] == '_',
        forall|i: int|
            1 <= i < trimmed(s.user@).len() ==> {
                let c = #[trigger] trimmed(s.user@)[i];
                ('a' <= c && c <= 'z') || ('A' <= c && c <= 'Z') || ('0' <= c && c <= '9') || c == '.'
                    || c == '_' || c == '-'
            },
    ensures
        user_issues(name, s).len() == 0,
{
    remote_user_grammar(trimmed(s.user@));
}

} // verus!
