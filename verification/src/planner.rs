//! Planning: turning a run request into a fully rendered execution plan, or
//! into the reason it is refused, and recording either in an audit event.
use vstd::prelude::*;

use crate::audit::{event_records, new_audit_event, AuditAction, AuditContext, AuditEvent, AuditOutcome};
use crate::config::{AuthMethod, Config, ProfileConfig, ServerConfig};
use crate::error::BrokerError;
use crate::executor::CommandOutput;
use crate::render::{compile_template, is_render_error, render_outcome, CompiledProfile, RenderFail};
use crate::table::{find_key, same_texts, Table};
use crate::text::{cat, cat3, i64_to_text, opt_owned, opt_view, owned, signed_decimal, trim, trimmed, u64_to_text, decimal};

verus! {

/// Where audit events are appended.
#[derive(Debug, Clone, PartialEq, Eq)]
pub struct AuditLogger {
    path: String,
}

impl AuditLogger {
    pub closed spec fn path_view(&self) -> Seq<char> {
        self.path@
    }

    pub fn new(path: &str) -> (r: Self)
        ensures
            r.path_view() == path@,
    {
        AuditLogger { path: owned(path) }
    }

    pub fn path(&self) -> (r: &str)
        ensures
            r@ == self.path_view(),
    {
        self.path.as_str()
    }
}

#[derive(Debug, Clone)]
pub struct Broker {
    config: Config,
    compiled_profiles: Table<CompiledProfile>,
    secret_env: Table<String>,
}

#[derive(Debug, Clone, PartialEq, Eq)]
pub struct HostSummary {
    pub alias: String,
    pub environment: String,
    pub user: String,
    pub requires_approval: bool,
}

#[derive(Debug, Clone, PartialEq, Eq)]
pub struct ProfileSummary {
    pub name: String,
    pub description: Option<String>,
    pub requires_approval: bool,
}

#[derive(Debug, Clone, PartialEq, Eq)]
pub struct RunRequest {
    pub actor: String,
    pub server_alias: String,
    pub profile: String,
    pub args: Table<String>,
    pub approval_reference: Option<String>,
}

#[derive(Debug, Clone, PartialEq, Eq)]
pub struct RunPlan {
    pub server_alias: String,
    pub host: String,
    pub port: u16,
    pub user: String,
    pub environment: String,
    pub signer: String,
    pub profile: String,
    pub rendered_command: String,
    pub requires_approval: bool,
    pub approval_provided: bool,
    pub execution_mode: ExecutionMode,
    /// How the broker authenticates to the remote server.
    pub auth_method: AuthMethod,
}

#[derive(Debug, Clone, Copy, PartialEq, Eq, Structural)]
pub enum ExecutionMode {
    PlanOnly,
}

#[derive(Debug)]
pub struct AuditedOutcome<T> {
    pub result: Result<T, BrokerError>,
    pub audit_event: AuditEvent,
}

/// The execution side of a run after planning: run the plan, or the outcome
/// already decided without running anything.
#[derive(Debug)]
pub enum RunStep {
    Execute(RunPlan),
    Finished(AuditedOutcome<CommandOutput>),
}

/// `r` records a run whose execution was skipped because planning was refused
/// with `e`: the same error, and a blocked execute event naming the server
/// and profile.
pub open spec fn execution_skipped(request: RunRequest, e: BrokerError, r: AuditedOutcome<CommandOutput>) -> bool {
    &&& r.result == Err::<CommandOutput, BrokerError>(e)
    &&& r.audit_event.actor@ == request.actor@
    &&& r.audit_event.action == AuditAction::RunExecute
    &&& r.audit_event.outcome == AuditOutcome::Blocked
    &&& r.audit_event.message@ == "execution skipped because planning was blocked"@
    &&& some_text(r.audit_event.server_alias, request.server_alias@)
    &&& some_text(r.audit_event.profile, request.profile@)
    &&& r.audit_event.rendered_command is None
    &&& r.audit_event.exit_code is None
}

/// The label of an auth method, as logged.
pub open spec fn auth_label(m: AuthMethod) -> Seq<char> {
    match m {
        AuthMethod::Certificate => "certificate"@,
        AuthMethod::LegacyPassword => "legacy_password"@,
    }
}

pub fn auth_method_kind_label(method: &AuthMethod) -> (r: String)
    ensures
        r@ == auth_label(*method),
{
    match method {
        AuthMethod::Certificate => owned("certificate"),
        AuthMethod::LegacyPassword => owned("legacy_password"),
    }
}

impl RunPlan {
    /// Human-readable label for the auth method, safe to print or log.
    pub fn auth_method_label(&self) -> (r: String)
        ensures
            r@ == auth_label(self.auth_method),
    {
        auth_method_kind_label(&self.auth_method)
    }
}

/// An approval reference after trimming; a blank one counts as absent.
pub open spec fn normalized_ref(o: Option<String>) -> Option<Seq<char>> {
    match o {
        None => None,
        Some(s) => if trimmed(s@).len() == 0 {
            None
        } else {
            Some(trimmed(s@))
        },
    }
}

pub fn normalize_approval_reference(value: Option<&str>) -> (r: Option<String>)
    ensures
        opt_view(r) == match value {
            None => None,
            Some(s) => if trimmed(s@).len() == 0 {
                None::<Seq<char>>
            } else {
                Some(trimmed(s@))
            },
        },
{
    match value {
        None => None,
        Some(v) => {
            let t = trim(v);
            if t.unicode_len() == 0 {
                None
            } else {
                Some(owned(t))
            }
        },
    }
}

pub(crate) fn normalize_request_reference(value: &Option<String>) -> (r: Option<String>)
    ensures
        opt_view(r) == normalized_ref(*value),
{
    match value {
        None => normalize_approval_reference(None),
        Some(s) => normalize_approval_reference(Some(s.as_str())),
    }
}

/// A server needs approval when it says so or when it uses the legacy
/// password lane.
pub open spec fn server_needs_approval(s: ServerConfig) -> bool {
    s.requires_approval || s.auth_method == AuthMethod::LegacyPassword
}

pub open spec fn allows_profile(s: ServerConfig, p: Seq<char>) -> bool {
    exists|i: int| 0 <= i < s.allowed_profiles@.len() && (#[trigger] s.allowed_profiles@[i])@ == p
}

/// The signer a server uses: its own, or the broker's default.
pub open spec fn signer_of(cfg: Config, s: ServerConfig) -> Seq<char> {
    match s.signer {
        Some(n) => n@,
        None => cfg.broker.default_signer@,
    }
}

pub(crate) fn server_allows(server: &ServerConfig, profile: &str) -> (b: bool)
    ensures
        b == allows_profile(*server, profile@),
{
    let mut i: usize = 0;
    while i < server.allowed_profiles.len()
        invariant
            i <= server.allowed_profiles@.len(),
            forall|j: int| 0 <= j < i ==> (#[trigger] server.allowed_profiles@[j])@ != profile@,
        decreases server.allowed_profiles@.len() - i,
    {
        if crate::text::str_eq(server.allowed_profiles[i].as_str(), profile) {
            return true;
        }
        i = i + 1;
    }
    false
}

pub fn server_requires_approval(server: &ServerConfig) -> (b: bool)
    ensures
        b == server_needs_approval(*server),
{
    server.requires_approval || server.auth_method == AuthMethod::LegacyPassword
}

/// The plan for `req` carries exactly these values.
pub open spec fn plan_fields(
    plan: RunPlan,
    req: RunRequest,
    cfg: Config,
    server: ServerConfig,
    text: Seq<char>,
    needs: bool,
) -> bool {
    &&& plan.server_alias@ == req.server_alias@
    &&& plan.host@ == server.host@
    &&& plan.port == server.port
    &&& plan.user@ == server.user@
    &&& plan.environment@ == server.environment@
    &&& plan.signer@ == signer_of(cfg, server)
    &&& plan.profile@ == req.profile@
    &&& plan.rendered_command@ == text
    &&& plan.requires_approval == needs
    &&& plan.approval_provided == (normalized_ref(req.approval_reference) is Some)
    &&& plan.execution_mode == ExecutionMode::PlanOnly
    &&& plan.auth_method == server.auth_method
}

/// Whether the server or the profile named in `req` asks for approval.
pub open spec fn request_needs_approval(cfg: Config, req: RunRequest) -> bool {
    (cfg.servers.lookup(req.server_alias@) matches Some(s) && server_needs_approval(s)) || (
    cfg.profiles.lookup(req.profile@) matches Some(p) && p.requires_approval)
}

pub open spec fn some_text(o: Option<String>, t: Seq<char>) -> bool {
    o matches Some(s) && s@ == t
}

/// The event `ev` records the plan `plan` made for `req`.
pub open spec fn planned_event(ev: AuditEvent, req: RunRequest, plan: RunPlan) -> bool {
    &&& ev.actor@ == req.actor@
    &&& ev.action == AuditAction::RunPlan
    &&& ev.outcome == AuditOutcome::Planned
    &&& ev.message@ == "request validated and execution plan created"@
    &&& some_text(ev.server_alias, plan.server_alias@)
    &&& some_text(ev.environment, plan.environment@)
    &&& some_text(ev.profile, plan.profile@)
    &&& ev.args == req.args
    &&& some_text(ev.rendered_command, plan.rendered_command@)
    &&& ev.requires_approval == plan.requires_approval
    &&& opt_view(ev.approval_reference) == normalized_ref(req.approval_reference)
    &&& some_text(ev.signer, plan.signer@)
    &&& some_text(ev.transport, "system_ssh"@)
    &&& some_text(ev.auth_method_kind, auth_label(plan.auth_method))
    &&& ev.exit_code is None
    &&& ev.session_id is None
}

/// The event `ev` records that `req` was refused with `err`.
pub open spec fn blocked_event(ev: AuditEvent, cfg: Config, req: RunRequest, err: BrokerError) -> bool {
    let server = cfg.servers.lookup(req.server_alias@);
    &&& ev.actor@ == req.actor@
    &&& ev.action == AuditAction::RunPlan
    &&& ev.outcome == AuditOutcome::Blocked
    &&& ev.message@ == err.text()
    &&& some_text(ev.server_alias, req.server_alias@)
    &&& opt_view(ev.environment) == (match server {
        Some(s) => Some(s.environment@),
        None => None,
    })
    &&& some_text(ev.profile, req.profile@)
    &&& ev.args == req.args
    &&& ev.rendered_command is None
    &&& ev.requires_approval == request_needs_approval(cfg, req)
    &&& opt_view(ev.approval_reference) == normalized_ref(req.approval_reference)
    &&& opt_view(ev.signer) == (match server {
        Some(s) => Some(signer_of(cfg, s)),
        None => None,
    })
    &&& some_text(ev.transport, "system_ssh"@)
    &&& opt_view(ev.auth_method_kind) == (match server {
        Some(s) => Some(auth_label(s.auth_method)),
        None => None,
    })
    &&& ev.exit_code is None
    &&& ev.session_id is None
}

/// The summary of the server `alias`.
pub open spec fn host_summary_of(h: HostSummary, alias: Seq<char>, s: ServerConfig) -> bool {
    &&& h.alias@ == alias
    &&& h.environment@ == s.environment@
    &&& h.user@ == s.user@
    &&& h.requires_approval == server_needs_approval(s)
}

/// The summaries of those of `names` that are configured profiles, in order.
pub open spec fn profile_summaries(
    cfg: Config,
    s: ServerConfig,
    names: Seq<crate::identifiers::ProfileName>,
) -> Seq<(Seq<char>, Option<Seq<char>>, bool)>
    decreases names.len(),
{
    if names.len() == 0 {
        Seq::empty()
    } else {
        let rest = profile_summaries(cfg, s, names.drop_last());
        match cfg.profiles.lookup(names.last()@) {
            Some(p) => rest.push(
                (
                    names.last()@,
                    opt_view(p.description),
                    server_needs_approval(s) || p.requires_approval,
                ),
            ),
            None => rest,
        }
    }
}

/// The summaries as plain values.
pub open spec fn summary_views(v: Seq<ProfileSummary>) -> Seq<(Seq<char>, Option<Seq<char>>, bool)> {
    v.map_values(|p: ProfileSummary| summary_view(p))
}

pub open spec fn summary_view(p: ProfileSummary) -> (Seq<char>, Option<Seq<char>>, bool) {
    (p.name@, opt_view(p.description), p.requires_approval)
}

/// The profile at position `i` is the first whose template does not compile.
pub open spec fn is_first_bad_profile(profiles: Table<ProfileConfig>, i: int) -> bool {
    &&& 0 <= i < profiles.vals().len()
    &&& compile_template(profiles.vals()[i].template@) is Err
    &&& forall|j: int| 0 <= j < i ==> compile_template((#[trigger] profiles.vals()[j]).template@) is Ok
}

/// `e` reports that the template of the profile at position `i` does not
/// compile, with the reason.
pub open spec fn bad_profile_error(profiles: Table<ProfileConfig>, i: int, e: BrokerError) -> bool {
    e matches BrokerError::UnsafeTemplate { profile, reason } && profile@ == profiles.keys()[i]
        && compile_template(profiles.vals()[i].template@) == Err::<
        Seq<crate::render::Tok>,
        Seq<char>,
    >(reason@)
}

/// The event `ev` records the execution of `plan` for `req` and its result.
pub open spec fn executed_event(
    ev: AuditEvent,
    req: RunRequest,
    plan: RunPlan,
    result: Result<CommandOutput, BrokerError>,
) -> bool {
    &&& ev.actor@ == req.actor@
    &&& ev.action == AuditAction::RunExecute
    &&& some_text(ev.server_alias, plan.server_alias@)
    &&& some_text(ev.environment, plan.environment@)
    &&& some_text(ev.profile, plan.profile@)
    &&& same_texts(ev.args, req.args)
    &&& some_text(ev.rendered_command, plan.rendered_command@)
    &&& ev.requires_approval == plan.requires_approval
    &&& some_text(ev.signer, plan.signer@)
    &&& some_text(ev.transport, "system_ssh"@)
    &&& some_text(ev.auth_method_kind, auth_label(plan.auth_method))
    &&& ev.session_id is None
    &&& match result {
        Ok(out) => {
            &&& ev.outcome == AuditOutcome::Executed
            &&& ev.message@ == "command completed with exit code "@ + signed_decimal(out.exit_code as int)
            &&& opt_view(ev.approval_reference) == normalized_ref(req.approval_reference)
            &&& ev.exit_code == Some(out.exit_code)
        },
        Err(e) => {
            &&& ev.outcome == AuditOutcome::Failed
            &&& ev.message@ == e.text()
            &&& ev.approval_reference is None
            &&& ev.exit_code is None
        },
    }
}

impl Broker {
    pub closed spec fn cfg(&self) -> Config {
        self.config
    }

    pub closed spec fn compiled(&self) -> Table<CompiledProfile> {
        self.compiled_profiles
    }

    pub closed spec fn secrets(&self) -> Table<String> {
        self.secret_env
    }

    /// The tables are ordered and every configured profile has its compiled
    /// form.
    pub open spec fn wf(&self) -> bool {
        &&& self.cfg().signers.wf()
        &&& self.cfg().servers.wf()
        &&& self.cfg().profiles.wf()
        &&& self.compiled().wf()
        &&& self.compiled().keys() == self.cfg().profiles.keys()
        &&& self.secrets().wf()
    }

    /// What planning `req` gives: the first of an unknown server, an unknown
    /// profile, a profile the server does not allow, a missing approval
    /// reference, or a rendering failure; else the plan.
    pub open spec fn plan_matches(&self, req: RunRequest, r: Result<RunPlan, BrokerError>) -> bool {
        match self.cfg().servers.lookup(req.server_alias@) {
            None => r matches Err(BrokerError::UnknownServer { alias }) && alias@
                == req.server_alias@,
            Some(server) => match self.cfg().profiles.lookup(req.profile@) {
                None => r matches Err(BrokerError::UnknownProfile { profile }) && profile@
                    == req.profile@,
                Some(profile) => {
                    let needs = server_needs_approval(server) || profile.requires_approval;
                    if !allows_profile(server, req.profile@) {
                        r matches Err(BrokerError::ProfileNotAllowed { server: s, profile: p })
                            && s@ == req.server_alias@ && p@ == req.profile@
                    } else if needs && normalized_ref(req.approval_reference) is None {
                        r matches Err(BrokerError::ApprovalRequired { server: s, profile: p })
                            && s@ == req.server_alias@ && p@ == req.profile@
                    } else {
                        match self.compiled().lookup(req.profile@) {
                            None => r matches Err(BrokerError::UnknownProfile { profile: p }) && p@
                                == req.profile@,
                            Some(c) => match render_outcome(c.toks(), c.phs(), req.args) {
                                Ok(text) => r matches Ok(plan) && plan_fields(
                                    plan,
                                    req,
                                    self.cfg(),
                                    server,
                                    text,
                                    needs,
                                ),
                                Err(f) => r matches Err(e) && is_render_error(f, req.profile@, e),
                            },
                        }
                    }
                },
            },
        }
    }

    /// A broker for `config` with no secret references.
    pub fn from_config(config: Config) -> (r: Result<Self, BrokerError>)
        requires
            config.signers.wf(),
            config.servers.wf(),
            config.profiles.wf(),
        ensures
            match r {
                Ok(b) => b.wf() && b.cfg() == config && b.secrets().keys().len() == 0 && b.compiles(),
                Err(e) => exists|i: int| #[trigger] is_first_bad_profile(config.profiles, i)
                    && bad_profile_error(config.profiles, i, e),
            },
            r is Err <==> exists|i: int| is_first_bad_profile(config.profiles, i),
    {
        Self::from_config_with_secret_env(config, Table::new())
    }

    /// Each profile's compiled form is its template compiled.
    pub open spec fn compiles(&self) -> bool {
        forall|i: int|
            0 <= i < self.cfg().profiles.vals().len() ==> compile_template(
                (#[trigger] self.cfg().profiles.vals()[i]).template@,
            ) == Ok::<Seq<crate::render::Tok>, Seq<char>>(self.compiled().vals()[i].toks())
    }

    /// A broker for `config` that resolves secret references in `secret_env`;
    /// fails on the first profile (in name order) whose template does not
    /// compile.
    pub fn from_config_with_secret_env(config: Config, secret_env: Table<String>) -> (r: Result<
        Self,
        BrokerError,
    >)
        requires
            config.signers.wf(),
            config.servers.wf(),
            config.profiles.wf(),
            secret_env.wf(),
        ensures
            match r {
                Ok(b) => b.wf() && b.cfg() == config && b.secrets() == secret_env && b.compiles(),
                Err(e) => exists|i: int| #[trigger] is_first_bad_profile(config.profiles, i)
                    && bad_profile_error(config.profiles, i, e),
            },
            r is Err <==> exists|i: int| is_first_bad_profile(config.profiles, i),
    {
        let mut compiled_profiles: Table<CompiledProfile> = Table::new();
        let mut i: usize = 0;
        proof { config.profiles.lemma_lens(); }
        while i < config.profiles.len()
            invariant
                i <= config.profiles.keys().len(),
                config.profiles.wf(),
                compiled_profiles.wf(),
                compiled_profiles.keys() == config.profiles.keys().take(i as int),
                compiled_profiles.vals().len() == i,
                forall|j: int|
                    0 <= j < i ==> compile_template(
                        (#[trigger] config.profiles.vals()[j]).template@,
                    ) == Ok::<Seq<crate::render::Tok>, Seq<char>>(compiled_profiles.vals()[j].toks()),
            decreases config.profiles.keys().len() - i,
        {
            let name = config.profiles.key_at(i);
            let profile = config.profiles.value_at(i);
            match CompiledProfile::compile(name, profile) {
                Ok(c) => {
                    proof {
                        if i > 0 {
                            assert(compiled_profiles.keys().last() == config.profiles.keys()[i - 1]);
                        }
                    }
                    compiled_profiles.push_last(owned(name), c);
                    proof {
                        assert(config.profiles.keys().take(i + 1) =~= config.profiles.keys().take(
                            i as int,
                        ).push(config.profiles.keys()[i as int]));
                    }
                },
                Err(e) => {
                    proof {
                        assert(is_first_bad_profile(config.profiles, i as int));
                        assert forall|k: int| is_first_bad_profile(config.profiles, k) implies k
                            == i by {
                            if k < i {
                                assert(compile_template(config.profiles.vals()[k].template@) is Ok);
                            } else if k > i {
                                assert(compile_template(config.profiles.vals()[i as int].template@) is Ok);
                            }
                        }
                    }
                    return Err(e);
                },
            }
            i = i + 1;
        }
        proof {
            assert(config.profiles.keys().take(i as int) =~= config.profiles.keys());
            assert forall|k: int| !is_first_bad_profile(config.profiles, k) by {
                if 0 <= k < config.profiles.vals().len() {
                    assert(compile_template(config.profiles.vals()[k].template@) is Ok);
                }
            }
        }
        Ok(Broker { config, compiled_profiles, secret_env })
    }

    /// The execution-side outcome when planning was refused with
    /// `planning_error`: no command runs, and the same error is reported.
    pub fn skipped_execution(&self, request: &RunRequest, planning_error: BrokerError) -> (r:
        AuditedOutcome<CommandOutput>)
        ensures
            execution_skipped(*request, planning_error, r),
    {
        let mut ctx = AuditContext::empty();
        ctx.server_alias = Some(owned(request.server_alias.as_str()));
        ctx.profile = Some(owned(request.profile.as_str()));
        let ev = new_audit_event(
            request.actor.as_str(),
            AuditAction::RunExecute,
            AuditOutcome::Blocked,
            owned("execution skipped because planning was blocked"),
            ctx,
        );
        AuditedOutcome {
            result: Err(planning_error),
            audit_event: ev,
        }
    }

    /// What a run does once planning has answered: execute the plan when
    /// planning succeeded; otherwise skip execution and report the planning
    /// error.
    pub fn run_step(&self, request: &RunRequest, plan_result: Result<RunPlan, BrokerError>) -> (r: RunStep)
        ensures
            match plan_result {
                Ok(plan) => r == RunStep::Execute(plan),
                Err(e) => r matches RunStep::Finished(o) && execution_skipped(*request, e, o),
            },
    {
        match plan_result {
            Ok(plan) => RunStep::Execute(plan),
            Err(e) => RunStep::Finished(self.skipped_execution(request, e)),
        }
    }

    /// The execution-side outcome of running `plan`, given what running it
    /// gave.
    pub fn recorded_execution(
        &self,
        request: &RunRequest,
        plan: &RunPlan,
        exec_result: Result<CommandOutput, BrokerError>,
    ) -> (r: AuditedOutcome<CommandOutput>)
        ensures
            r.result == exec_result,
            executed_event(r.audit_event, *request, *plan, exec_result),
    {
        let mut ctx = AuditContext::empty();
        ctx.server_alias = Some(owned(plan.server_alias.as_str()));
        ctx.environment = Some(owned(plan.environment.as_str()));
        ctx.profile = Some(owned(plan.profile.as_str()));
        ctx.args = request.args.duplicate();
        ctx.rendered_command = Some(owned(plan.rendered_command.as_str()));
        ctx.requires_approval = plan.requires_approval;
        ctx.signer = Some(owned(plan.signer.as_str()));
        ctx.transport = Some(owned("system_ssh"));
        ctx.auth_method_kind = Some(plan.auth_method_label());
        let (outcome, message) = match &exec_result {
            Ok(output) => {
                ctx.approval_reference = normalize_request_reference(&request.approval_reference);
                ctx.exit_code = Some(output.exit_code);
                let code = i64_to_text(output.exit_code as i64);
                (AuditOutcome::Executed, cat("command completed with exit code ", code.as_str()))
            },
            Err(error) => (AuditOutcome::Failed, error.message()),
        };
        let ev = new_audit_event(request.actor.as_str(), AuditAction::RunExecute, outcome, message, ctx);
        AuditedOutcome { result: exec_result, audit_event: ev }
    }

    pub fn config(&self) -> (r: &Config)
        ensures
            *r == self.cfg(),
    {
        &self.config
    }

    /// Each profile's compiled template, by profile name.
    pub fn compiled_profiles(&self) -> (r: &Table<CompiledProfile>)
        ensures
            *r == self.compiled(),
    {
        &self.compiled_profiles
    }

    pub fn secret_env(&self) -> (r: &Table<String>)
        ensures
            *r == self.secrets(),
    {
        &self.secret_env
    }

    pub fn audit_log_path(&self) -> (r: &str)
        ensures
            r@ == self.cfg().broker.audit_log_path@,
    {
        self.config.broker.audit_log_path.as_str()
    }

    pub fn audit_logger(&self) -> (r: AuditLogger)
        ensures
            r.path_view() == self.cfg().broker.audit_log_path@,
    {
        AuditLogger::new(self.audit_log_path())
    }

    fn effective_signer_name(&self, server: &ServerConfig) -> (r: String)
        ensures
            r@ == signer_of(self.cfg(), *server),
    {
        match &server.signer {
            Some(n) => owned(n.as_str()),
            None => owned(self.config.broker.default_signer.as_str()),
        }
    }

    /// The event recorded when the configuration validates.
    pub fn config_validated_event(&self, actor: &str) -> (e: AuditEvent)
        ensures
            event_records(
                e,
                actor@,
                AuditAction::ConfigValidate,
                AuditOutcome::Succeeded,
                "configuration is valid"@,
                e.context_of(),
            ),
            e.context_of().is_empty(),
    {
        new_audit_event(
            actor,
            AuditAction::ConfigValidate,
            AuditOutcome::Succeeded,
            owned("configuration is valid"),
            AuditContext::empty(),
        )
    }

    /// `r` lists every configured server, in alias order, with a
    /// `hosts_list` event by `actor`.
    pub open spec fn hosts_listed(&self, actor: Seq<char>, r: AuditedOutcome<Vec<HostSummary>>) -> bool {
        &&& r.result matches Ok(hosts) && hosts@.len() == self.cfg().servers.keys().len() && (forall|i: int|
            0 <= i < hosts@.len() ==> host_summary_of(
                #[trigger] hosts@[i],
                self.cfg().servers.keys()[i],
                self.cfg().servers.vals()[i],
            )) && r.audit_event.message@ == "listed "@ + decimal(hosts@.len()) + " configured hosts"@
        &&& r.audit_event.actor@ == actor
        &&& r.audit_event.action == AuditAction::HostsList
        &&& r.audit_event.outcome == AuditOutcome::Succeeded
        &&& r.audit_event.context_of().is_empty()
    }

    /// Every configured server, in alias order, and a `hosts_list` event.
    pub fn list_hosts(&self, actor: &str) -> (r: AuditedOutcome<Vec<HostSummary>>)
        requires
            self.wf(),
        ensures
            self.hosts_listed(actor@, r),
    {
        let servers = &self.config.servers;
        let mut hosts: Vec<HostSummary> = Vec::new();
        let mut i: usize = 0;
        while i < servers.len()
            invariant
                i <= servers.keys().len(),
                servers == self.cfg().servers,
                hosts@.len() == i,
                forall|j: int|
                    0 <= j < i ==> host_summary_of(
                        #[trigger] hosts@[j],
                        servers.keys()[j],
                        servers.vals()[j],
                    ),
            decreases servers.keys().len() - i,
        {
            let server = servers.value_at(i);
            hosts.push(
                HostSummary {
                    alias: owned(servers.key_at(i)),
                    environment: owned(server.environment.as_str()),
                    user: owned(server.user.as_str()),
                    requires_approval: server_requires_approval(server),
                },
            );
            i = i + 1;
        }
        let count = u64_to_text(hosts.len() as u64);
        let message = cat3("listed ", count.as_str(), " configured hosts");
        let ev = new_audit_event(
            actor,
            AuditAction::HostsList,
            AuditOutcome::Succeeded,
            message,
            AuditContext::empty(),
        );
        AuditedOutcome { result: Ok(hosts), audit_event: ev }
    }

    /// The allowed profiles of `server` that are configured, in the order the
    /// server lists them.
    fn profiles_for_server(&self, server: &ServerConfig) -> (r: Vec<ProfileSummary>)
        requires
            self.wf(),
        ensures
            summary_views(r@) == profile_summaries(
                self.cfg(),
                *server,
                server.allowed_profiles@,
            ),
    {
        let mut out: Vec<ProfileSummary> = Vec::new();
        let mut i: usize = 0;
        let server_requires = server_requires_approval(server);
        while i < server.allowed_profiles.len()
            invariant
                i <= server.allowed_profiles@.len(),
                self.wf(),
                server_requires == server_needs_approval(*server),
                summary_views(out@) == profile_summaries(
                    self.cfg(),
                    *server,
                    server.allowed_profiles@.take(i as int),
                ),
            decreases server.allowed_profiles@.len() - i,
        {
            let name = &server.allowed_profiles[i];
            let ghost before = summary_views(out@);
            proof {
                let t = server.allowed_profiles@.take(i + 1);
                assert(t.drop_last() =~= server.allowed_profiles@.take(i as int));
                assert(t.last() == *name);
            }
            match self.config.profiles.get(name.as_str()) {
                Some(profile) => {
                    out.push(
                        ProfileSummary {
                            name: owned(name.as_str()),
                            description: opt_owned(&profile.description),
                            requires_approval: server_requires || profile.requires_approval,
                        },
                    );
                    assert(summary_views(out@) =~= before.push(summary_view(out@.last())));
                },
                None => {},
            }
            i = i + 1;
        }
        assert(server.allowed_profiles@.take(i as int) =~= server.allowed_profiles@);
        out
    }

    /// `r` lists the profiles the server `alias` allows, with a
    /// `profiles_list` event by `actor`: `succeeded` for a configured alias,
    /// `blocked` otherwise.
    pub open spec fn profiles_listed(
        &self,
        actor: Seq<char>,
        alias: Seq<char>,
        r: AuditedOutcome<Vec<ProfileSummary>>,
    ) -> bool {
        &&& r.audit_event.actor@ == actor
        &&& r.audit_event.action == AuditAction::ProfilesList
        &&& some_text(r.audit_event.server_alias, alias)
        &&& match self.cfg().servers.lookup(alias) {
            Some(server) => r.result matches Ok(profiles) && summary_views(profiles@)
                == profile_summaries(self.cfg(), server, server.allowed_profiles@)
                && r.audit_event.outcome == AuditOutcome::Succeeded && r.audit_event.message@
                == "listed "@ + decimal(profiles@.len()) + " profiles for server '"@ + alias + "'"@
                && some_text(r.audit_event.environment, server.environment@)
                && r.audit_event.requires_approval == server_needs_approval(server),
            None => r.result matches Err(BrokerError::UnknownServer { alias: a }) && a@ == alias
                && r.audit_event.outcome == AuditOutcome::Blocked && r.audit_event.message@
                == r.result->Err_0.text() && r.audit_event.environment is None
                && !r.audit_event.requires_approval,
        }
        &&& r.audit_event.profile is None
        &&& r.audit_event.rendered_command is None
        &&& r.audit_event.args.keys().len() == 0
    }

    /// The profiles the server `alias` allows, and a `profiles_list` event.
    pub fn list_profiles(&self, actor: &str, alias: &str) -> (r: AuditedOutcome<Vec<ProfileSummary>>)
        requires
            self.wf(),
        ensures
            self.profiles_listed(actor@, alias@, r),
    {
        match self.config.servers.get(alias) {
            Some(server) => {
                let profiles = self.profiles_for_server(server);
                let count = u64_to_text(profiles.len() as u64);
                let message = cat(
                    cat3("listed ", count.as_str(), " profiles for server '").as_str(),
                    cat(alias, "'").as_str(),
                );
                assert(message@ =~= "listed "@ + count@ + " profiles for server '"@ + alias@ + "'"@);
                let mut ctx = AuditContext::empty();
                ctx.server_alias = Some(owned(alias));
                ctx.environment = Some(owned(server.environment.as_str()));
                ctx.requires_approval = server_requires_approval(server);
                let ev = new_audit_event(
                    actor,
                    AuditAction::ProfilesList,
                    AuditOutcome::Succeeded,
                    message,
                    ctx,
                );
                AuditedOutcome { result: Ok(profiles), audit_event: ev }
            },
            None => {
                let error = BrokerError::UnknownServer { alias: owned(alias) };
                let mut ctx = AuditContext::empty();
                ctx.server_alias = Some(owned(alias));
                let ev = new_audit_event(
                    actor,
                    AuditAction::ProfilesList,
                    AuditOutcome::Blocked,
                    error.message(),
                    ctx,
                );
                AuditedOutcome { result: Err(error), audit_event: ev }
            },
        }
    }

    fn requires_approval_for_request(&self, request: &RunRequest) -> (b: bool)
        requires
            self.wf(),
        ensures
            b == request_needs_approval(self.cfg(), *request),
    {
        let server_requires = match self.config.servers.get(request.server_alias.as_str()) {
            Some(s) => server_requires_approval(s),
            None => false,
        };
        let profile_requires = match self.config.profiles.get(request.profile.as_str()) {
            Some(p) => p.requires_approval,
            None => false,
        };
        server_requires || profile_requires
    }

    /// Plans `request` and records the decision: a `planned` event with the
    /// rendered command, or a `blocked` event that names the error and holds
    /// no rendered command.
    pub fn plan_run(&self, request: RunRequest) -> (r: AuditedOutcome<RunPlan>)
        requires
            self.wf(),
            request.args.wf(),
        ensures
            self.plan_matches(request, r.result),
            r.result matches Ok(plan) ==> planned_event(r.audit_event, request, plan),
            r.result matches Err(e) ==> blocked_event(r.audit_event, self.cfg(), request, e),
    {
        let result = self.plan_run_inner(&request);
        let approval = normalize_request_reference(&request.approval_reference);
        match result {
            Ok(plan) => {
                let mut ctx = AuditContext::empty();
                ctx.server_alias = Some(owned(plan.server_alias.as_str()));
                ctx.environment = Some(owned(plan.environment.as_str()));
                ctx.profile = Some(owned(plan.profile.as_str()));
                ctx.rendered_command = Some(owned(plan.rendered_command.as_str()));
                ctx.requires_approval = plan.requires_approval;
                ctx.approval_reference = approval;
                ctx.signer = Some(owned(plan.signer.as_str()));
                ctx.transport = Some(owned("system_ssh"));
                ctx.auth_method_kind = Some(plan.auth_method_label());
                ctx.args = request.args;
                let ev = new_audit_event(
                    request.actor.as_str(),
                    AuditAction::RunPlan,
                    AuditOutcome::Planned,
                    owned("request validated and execution plan created"),
                    ctx,
                );
                AuditedOutcome { result: Ok(plan), audit_event: ev }
            },
            Err(error) => {
                let mut ctx = AuditContext::empty();
                ctx.server_alias = Some(owned(request.server_alias.as_str()));
                ctx.profile = Some(owned(request.profile.as_str()));
                ctx.requires_approval = self.requires_approval_for_request(&request);
                ctx.approval_reference = approval;
                ctx.transport = Some(owned("system_ssh"));
                match self.config.servers.get(request.server_alias.as_str()) {
                    Some(server) => {
                        ctx.environment = Some(owned(server.environment.as_str()));
                        ctx.signer = Some(self.effective_signer_name(server));
                        ctx.auth_method_kind = Some(auth_method_kind_label(&server.auth_method));
                    },
                    None => {},
                }
                ctx.args = request.args;
                let ev = new_audit_event(
                    request.actor.as_str(),
                    AuditAction::RunPlan,
                    AuditOutcome::Blocked,
                    error.message(),
                    ctx,
                );
                AuditedOutcome { result: Err(error), audit_event: ev }
            },
        }
    }

    fn plan_run_inner(&self, request: &RunRequest) -> (r: Result<RunPlan, BrokerError>)
        requires
            self.wf(),
            request.args.wf(),
        ensures
            self.plan_matches(*request, r),
    {
        let server = match self.config.servers.get(request.server_alias.as_str()) {
            Some(s) => s,
            None => {
                return Err(BrokerError::UnknownServer { alias: owned(request.server_alias.as_str()) });
            },
        };
        let profile = match self.config.profiles.get(request.profile.as_str()) {
            Some(p) => p,
            None => {
                return Err(BrokerError::UnknownProfile { profile: owned(request.profile.as_str()) });
            },
        };
        if !server_allows(server, request.profile.as_str()) {
            return Err(
                BrokerError::ProfileNotAllowed {
                    server: owned(request.server_alias.as_str()),
                    profile: owned(request.profile.as_str()),
                },
            );
        }
        let requires_approval = server_requires_approval(server) || profile.requires_approval;
        let approval_reference = normalize_request_reference(&request.approval_reference);
        if requires_approval && approval_reference.is_none() {
            return Err(
                BrokerError::ApprovalRequired {
                    server: owned(request.server_alias.as_str()),
                    profile: owned(request.profile.as_str()),
                },
            );
        }
        let compiled = match self.compiled_profiles.get(request.profile.as_str()) {
            Some(c) => c,
            None => {
                return Err(BrokerError::UnknownProfile { profile: owned(request.profile.as_str()) });
            },
        };
        let rendered_command = match compiled.render(request.profile.as_str(), &request.args) {
            Ok(text) => text,
            Err(e) => {
                return Err(e);
            },
        };
        Ok(
            RunPlan {
                server_alias: owned(request.server_alias.as_str()),
                host: owned(server.host.as_str()),
                port: server.port,
                user: owned(server.user.as_str()),
                environment: owned(server.environment.as_str()),
                signer: self.effective_signer_name(server),
                profile: owned(request.profile.as_str()),
                rendered_command,
                requires_approval,
                approval_provided: approval_reference.is_some(),
                execution_mode: ExecutionMode::PlanOnly,
                auth_method: server.auth_method,
            },
        )
    }
}

/// A plan is made only for a server configured under exactly the alias
/// asked for, with a profile that server allows; when the server, its
/// authentication or the profile asks for approval, only with a non-blank
/// approval reference. Legacy-password servers always ask.
pub proof fn plans_respect_policy(b: Broker, req: RunRequest, r: Result<RunPlan, BrokerError>)
    requires
        b.wf(),
        b.plan_matches(req, r),
        r is Ok,
    ensures
        b.cfg().servers.has(req.server_alias@),
        b.cfg().profiles.has(req.profile@),
        b.cfg().servers.lookup(req.server_alias@) matches Some(s) && allows_profile(s, req.profile@)
            && (s.auth_method == AuthMethod::LegacyPassword ==> r->Ok_0.requires_approval),
        r->Ok_0.requires_approval == request_needs_approval(b.cfg(), req),
        r->Ok_0.requires_approval ==> normalized_ref(req.approval_reference) is Some,
        r->Ok_0.approval_provided == (normalized_ref(req.approval_reference) is Some),
{
    let keys = b.cfg().servers.keys();
    let pkeys = b.cfg().profiles.keys();
    if find_key(keys, req.server_alias@) is None {
        assert(b.cfg().servers.lookup(req.server_alias@) is None);
    }
    if find_key(pkeys, req.profile@) is None {
        assert(b.cfg().profiles.lookup(req.profile@) is None);
    }
}

/// Planning refuses a request for the first policy rule it breaks, in this
/// order: the server is not configured; the profile is not configured; the
/// server does not allow the profile; the request needs approval (the server
/// or profile asks for it, or the server uses the legacy password lane) and
/// carries no approval reference; any other refusal comes from rendering the
/// arguments.
pub proof fn refusals_follow_policy_order(b: Broker, req: RunRequest, r: Result<RunPlan, BrokerError>)
    requires
        b.wf(),
        b.plan_matches(req, r),
    ensures
        (r matches Err(BrokerError::UnknownServer { .. })) <==> b.cfg().servers.lookup(
            req.server_alias@,
        ) is None,
        b.cfg().servers.lookup(req.server_alias@) is Some ==> ((r matches Err(
            BrokerError::UnknownProfile { .. },
        )) <==> b.cfg().profiles.lookup(req.profile@) is None),
        b.cfg().servers.lookup(req.server_alias@) matches Some(server) ==> (b.cfg().profiles.lookup(
            req.profile@,
        ) is Some ==> ((r matches Err(BrokerError::ProfileNotAllowed { .. })) <==> !allows_profile(
            server,
            req.profile@,
        ))),
        b.cfg().servers.lookup(req.server_alias@) matches Some(server) ==> (b.cfg().profiles.lookup(
            req.profile@,
        ) matches Some(profile) ==> (allows_profile(server, req.profile@) ==> ((r matches Err(
            BrokerError::ApprovalRequired { .. },
        )) <==> ((server_needs_approval(server) || profile.requires_approval) && normalized_ref(
            req.approval_reference,
        ) is None)))),
        b.cfg().servers.lookup(req.server_alias@) matches Some(server) ==> (b.cfg().profiles.lookup(
            req.profile@,
        ) matches Some(profile) ==> (allows_profile(server, req.profile@) && !((server_needs_approval(
            server,
        ) || profile.requires_approval) && normalized_ref(req.approval_reference) is None) ==> (r matches Err(e)
            ==> exists|f: RenderFail| is_render_error(f, req.profile@, e)))),
{
}

/// Each profile listed for a server is a configured profile, and it is
/// marked as needing approval exactly when planning it on that server needs
/// an approval reference: when the server asks for approval, the server uses
/// the legacy password lane, or the profile asks for approval.
pub proof fn listed_approval_matches_planning(
    cfg: Config,
    s: ServerConfig,
    names: Seq<crate::identifiers::ProfileName>,
    k: int,
)
    requires
        0 <= k < profile_summaries(cfg, s, names).len(),
    ensures
        cfg.profiles.lookup(profile_summaries(cfg, s, names)[k].0) matches Some(p) && profile_summaries(
            cfg,
            s,
            names,
        )[k].2 == (s.requires_approval || s.auth_method == AuthMethod::LegacyPassword || p.requires_approval),
    decreases names.len(),
{
    let rest = profile_summaries(cfg, s, names.drop_last());
    if k < rest.len() {
        listed_approval_matches_planning(cfg, s, names.drop_last(), k);
        assert(profile_summaries(cfg, s, names)[k] == rest[k]);
    }
}

/// A plan carries the signer of its server: the server's own signer when it
/// names one, and the broker's default signer only when it names none.
pub proof fn plan_uses_server_signer(b: Broker, req: RunRequest, plan: RunPlan)
    requires
        b.plan_matches(req, Ok(plan)),
    ensures
        b.cfg().servers.lookup(req.server_alias@) matches Some(s) && (s.signer matches Some(n) ==> plan.signer@
            == n@) && (s.signer is None ==> plan.signer@ == b.cfg().broker.default_signer@),
{
}

} // verus!
