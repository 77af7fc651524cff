//! The steps of carrying out an orchestration request: reserve a warm bot, report
//! progress, fetch the deployment's files, place them, start the strategy, and report
//! how it went. Each step names the outside work to do next and takes its outcome.
use vstd::prelude::*;

use crate::json::{JsonValue, JsonView};
use crate::orchestrator::{
    no_idle_slot_message, orchestration_status_message, script_file_name_for_request,
    script_file_name_spec, status_message_spec,
};
use crate::slot_store::{is_first_idle, reserved, update_named, with_assignment, with_error, SlotStore};
use crate::text::{clone_opt_string, clone_strings, opt_view, string_views};
use crate::types::{DeploymentFiles, OrchestrationRequest, SlotStatus, SlotView};

verus! {

/// Where an orchestration request stands.
#[derive(Clone, Copy, Debug, PartialEq, Eq, Structural)]
pub enum RequestPhase {
    /// The "reserved" report is being published.
    AwaitReserved,
    /// The "hydrating" report is being published.
    AwaitHydrating,
    /// The deployment's files are being fetched.
    Hydrating,
    /// The files are being placed in the bot's folder.
    Preparing,
    /// The "configuring" report is being published.
    AwaitConfiguring,
    /// The strategy is being started.
    Starting,
    /// The "running" report is being published.
    AwaitRunning,
    /// The "failed" report is being published.
    Failing,
    /// Nothing is left to do.
    Done,
}

/// The outcome of the outside work that a step asked for.
pub enum RequestEvent {
    Published(Result<(), String>),
    Hydrated(Result<(), String>),
    Prepared(Result<DeploymentFiles, String>),
    Started(Result<(), String>),
}

/// An outcome with its strings taken as characters; a placement keeps its controllers.
pub enum RequestEventView {
    Published(Result<(), Seq<char>>),
    Hydrated(Result<(), Seq<char>>),
    Prepared(Result<Seq<Seq<char>>, Seq<char>>),
    Started(Result<(), Seq<char>>),
}

/// An outcome without a value, with its error taken as characters.
pub open spec fn unit_view(r: Result<(), String>) -> Result<(), Seq<char>> {
    match r {
        Ok(_) => Ok(()),
        Err(e) => Err(e@),
    }
}

impl View for RequestEvent {
    type V = RequestEventView;

    open spec fn view(&self) -> RequestEventView {
        match self {
            RequestEvent::Published(r) => RequestEventView::Published(unit_view(*r)),
            RequestEvent::Hydrated(r) => RequestEventView::Hydrated(unit_view(*r)),
            RequestEvent::Prepared(r) => RequestEventView::Prepared(
                match r {
                    Ok(files) => Ok(string_views(files.controllers@)),
                    Err(e) => Err(e@),
                },
            ),
            RequestEvent::Started(r) => RequestEventView::Started(unit_view(*r)),
        }
    }
}

/// The outside work that a request needs next.
pub enum RequestAction {
    /// Publish this report on the orchestration status topic.
    Publish(JsonValue),
    /// Fetch these keys from object storage.
    Hydrate(Vec<String>),
    /// Place the fetched files in the bot's folder.
    Prepare {
        bot_name: String,
        script_config: Option<String>,
        controllers: Vec<String>,
        credentials_profile: String,
    },
    /// Start this script, or the generated config where there is one, and wait until the
    /// bot reports it running.
    Start { bot_name: String, script_file_name: String, script_config_name: Option<String> },
    /// Nothing is left to do.
    Finish,
}

/// The outside work, with its strings taken as characters.
pub enum RequestActionView {
    Publish(JsonView),
    Hydrate(Seq<Seq<char>>),
    Prepare {
        bot_name: Seq<char>,
        script_config: Option<Seq<char>>,
        controllers: Seq<Seq<char>>,
        credentials_profile: Seq<char>,
    },
    Start { bot_name: Seq<char>, script_file_name: Seq<char>, script_config_name: Option<Seq<char>> },
    Finish,
}

impl View for RequestAction {
    type V = RequestActionView;

    open spec fn view(&self) -> RequestActionView {
        match self {
            RequestAction::Publish(m) => RequestActionView::Publish(m@),
            RequestAction::Hydrate(keys) => RequestActionView::Hydrate(string_views(keys@)),
            RequestAction::Prepare { bot_name, script_config, controllers, credentials_profile } =>
                RequestActionView::Prepare {
                bot_name: bot_name@,
                script_config: opt_view(*script_config),
                controllers: string_views(controllers@),
                credentials_profile: credentials_profile@,
            },
            RequestAction::Start { bot_name, script_file_name, script_config_name } =>
                RequestActionView::Start {
                bot_name: bot_name@,
                script_file_name: script_file_name@,
                script_config_name: opt_view(*script_config_name),
            },
            RequestAction::Finish => RequestActionView::Finish,
        }
    }
}

/// What a request says, with its strings taken as characters.
pub struct RequestContext {
    pub request_id: Seq<char>,
    pub instance_name: Seq<char>,
    pub strategy_type: Seq<char>,
    pub strategy_name: Seq<char>,
    pub credentials_profile: Seq<char>,
    pub script_config: Option<Seq<char>>,
    pub controllers_config: Seq<Seq<char>>,
    pub keys: Seq<Seq<char>>,
}

pub open spec fn request_context(r: OrchestrationRequest) -> RequestContext {
    RequestContext {
        request_id: r.request_id@,
        instance_name: r.instance_name@,
        strategy_type: r.strategy_type@,
        strategy_name: r.strategy_name@,
        credentials_profile: r.credentials_profile@,
        script_config: opt_view(r.script_config),
        controllers_config: string_views(r.controllers_config@),
        keys: r.r2.keys.flat_keys(),
    }
}

/// A request in progress: what it says, the bot it holds, where it stands, and the
/// controllers placed for it.
pub struct RequestRunView {
    pub ctx: RequestContext,
    pub bot_name: Option<Seq<char>>,
    pub phase: RequestPhase,
    pub controllers: Seq<Seq<char>>,
}

/// What a step does to the pool.
pub enum PoolEffect {
    Unchanged,
    MarkError(Seq<char>),
    AssignConfiguring(Seq<Seq<char>>),
    AssignRunning(Seq<Seq<char>>),
}

/// A progress report for the request from its bot.
pub open spec fn progress_report(ctx: RequestContext, bot: Seq<char>, status: Seq<char>) -> JsonView {
    status_message_spec(ctx.request_id, ctx.instance_name, Some(bot), status, None)
}

/// A failure report for the request.
pub open spec fn failure_report(ctx: RequestContext, bot: Option<Seq<char>>, error: Seq<char>) -> JsonView {
    status_message_spec(ctx.request_id, ctx.instance_name, bot, "failed"@, Some(error))
}

/// The outcome that each phase waits for.
pub open spec fn expects(phase: RequestPhase, event: RequestEventView) -> bool {
    match phase {
        RequestPhase::AwaitReserved | RequestPhase::AwaitHydrating | RequestPhase::AwaitConfiguring
        | RequestPhase::AwaitRunning | RequestPhase::Failing => event is Published,
        RequestPhase::Hydrating => event is Hydrated,
        RequestPhase::Preparing => event is Prepared,
        RequestPhase::Starting => event is Started,
        RequestPhase::Done => false,
    }
}

/// One step of a request: the phase it moves to, the controllers it holds, the work it
/// asks for and what it does to the pool.
///
/// A failed report before "configuring" or after it ends the request with a failure report
/// that names no bot. A failed fetch, placement or start marks the bot failed and reports
/// the failure with the bot's name. The failure report's own outcome is not looked at.
pub open spec fn request_step_spec(run: RequestRunView, event: RequestEventView) -> (
    RequestPhase,
    Seq<Seq<char>>,
    RequestActionView,
    PoolEffect,
) {
    let ctx = run.ctx;
    let bot = match run.bot_name {
        Some(b) => b,
        None => Seq::empty(),
    };
    let keep = run.controllers;
    match (run.phase, event) {
        (RequestPhase::Failing, _) => (
            RequestPhase::Done,
            keep,
            RequestActionView::Finish,
            PoolEffect::Unchanged,
        ),
        (RequestPhase::AwaitReserved, RequestEventView::Published(Ok(_))) => (
            RequestPhase::AwaitHydrating,
            keep,
            RequestActionView::Publish(progress_report(ctx, bot, "hydrating"@)),
            PoolEffect::Unchanged,
        ),
        (RequestPhase::AwaitHydrating, RequestEventView::Published(Ok(_))) => (
            RequestPhase::Hydrating,
            keep,
            RequestActionView::Hydrate(ctx.keys),
            PoolEffect::Unchanged,
        ),
        (RequestPhase::Hydrating, RequestEventView::Hydrated(Ok(_))) => (
            RequestPhase::Preparing,
            keep,
            RequestActionView::Prepare {
                bot_name: bot,
                script_config: ctx.script_config,
                controllers: ctx.controllers_config,
                credentials_profile: ctx.credentials_profile,
            },
            PoolEffect::Unchanged,
        ),
        (RequestPhase::Hydrating, RequestEventView::Hydrated(Err(e))) => (
            RequestPhase::Failing,
            keep,
            RequestActionView::Publish(failure_report(ctx, Some(bot), e)),
            PoolEffect::MarkError(e),
        ),
        (RequestPhase::Preparing, RequestEventView::Prepared(Ok(placed))) => (
            RequestPhase::AwaitConfiguring,
            placed,
            RequestActionView::Publish(progress_report(ctx, bot, "configuring"@)),
            PoolEffect::AssignConfiguring(placed),
        ),
        (RequestPhase::Preparing, RequestEventView::Prepared(Err(e))) => (
            RequestPhase::Failing,
            keep,
            RequestActionView::Publish(failure_report(ctx, Some(bot), e)),
            PoolEffect::MarkError(e),
        ),
        (RequestPhase::AwaitConfiguring, RequestEventView::Published(Ok(_))) => (
            RequestPhase::Starting,
            keep,
            RequestActionView::Start {
                bot_name: bot,
                script_file_name: script_file_name_spec(ctx.strategy_type, ctx.strategy_name),
                script_config_name: ctx.script_config,
            },
            PoolEffect::Unchanged,
        ),
        (RequestPhase::Starting, RequestEventView::Started(Ok(_))) => (
            RequestPhase::AwaitRunning,
            keep,
            RequestActionView::Publish(progress_report(ctx, bot, "running"@)),
            PoolEffect::AssignRunning(keep),
        ),
        (RequestPhase::Starting, RequestEventView::Started(Err(e))) => (
            RequestPhase::Failing,
            keep,
            RequestActionView::Publish(failure_report(ctx, Some(bot), e)),
            PoolEffect::MarkError(e),
        ),
        (RequestPhase::AwaitRunning, RequestEventView::Published(Ok(_))) => (
            RequestPhase::Done,
            keep,
            RequestActionView::Finish,
            PoolEffect::Unchanged,
        ),
        (_, RequestEventView::Published(Err(e))) => (
            RequestPhase::Failing,
            keep,
            RequestActionView::Publish(failure_report(ctx, None, e)),
            PoolEffect::Unchanged,
        ),
        _ => (run.phase, keep, RequestActionView::Finish, PoolEffect::Unchanged),
    }
}

/// What a step's effect does to the pool, for the request's bot.
pub open spec fn apply_effect(
    s: Seq<SlotView>,
    bot: Option<Seq<char>>,
    effect: PoolEffect,
    ctx: RequestContext,
    now: i64,
) -> Seq<SlotView> {
    match bot {
        None => s,
        Some(b) => match effect {
            PoolEffect::Unchanged => s,
            PoolEffect::MarkError(e) => update_named(s, b, |v: SlotView| with_error(v, e, now)),
            PoolEffect::AssignConfiguring(c) => update_named(
                s,
                b,
                |v: SlotView|
                    with_assignment(
                        v,
                        SlotStatus::Configuring,
                        Some(ctx.instance_name),
                        ctx.credentials_profile,
                        ctx.script_config,
                        c,
                        now,
                    ),
            ),
            PoolEffect::AssignRunning(c) => update_named(
                s,
                b,
                |v: SlotView|
                    with_assignment(
                        v,
                        SlotStatus::Running,
                        Some(ctx.instance_name),
                        ctx.credentials_profile,
                        ctx.script_config,
                        c,
                        now,
                    ),
            ),
        },
    }
}

/// An orchestration request in progress.
pub struct RequestRun {
    request: OrchestrationRequest,
    bot_name: Option<String>,
    phase: RequestPhase,
    controllers: Vec<String>,
}

impl View for RequestRun {
    type V = RequestRunView;

    closed spec fn view(&self) -> RequestRunView {
        RequestRunView {
            ctx: request_context(self.request),
            bot_name: opt_view(self.bot_name),
            phase: self.phase,
            controllers: string_views(self.controllers@),
        }
    }
}

impl RequestRun {
    /// A request that is still under way holds a bot.
    #[verifier::type_invariant]
    spec fn holds_bot(&self) -> bool {
        self.phase != RequestPhase::Failing && self.phase != RequestPhase::Done ==> self.bot_name is Some
    }

    /// Whether the request waits for an outcome of the kind of `event`.
    pub fn accepts(&self, event: &RequestEvent) -> (r: bool)
        ensures
            r == expects(self@.phase, event@),
    {
        match self.phase {
            RequestPhase::AwaitReserved | RequestPhase::AwaitHydrating | RequestPhase::AwaitConfiguring
            | RequestPhase::AwaitRunning | RequestPhase::Failing => matches!(event, RequestEvent::Published(_)),
            RequestPhase::Hydrating => matches!(event, RequestEvent::Hydrated(_)),
            RequestPhase::Preparing => matches!(event, RequestEvent::Prepared(_)),
            RequestPhase::Starting => matches!(event, RequestEvent::Started(_)),
            RequestPhase::Done => false,
        }
    }

    /// Reserves the first idle bot for `request` and asks for the "reserved" report; with
    /// no idle bot, asks for a failure report that names none.
    pub fn begin(store: &mut SlotStore, request: OrchestrationRequest, now: i64) -> (r: (
        RequestRun,
        RequestAction,
    ))
        ensures
            r.0@.ctx == request_context(request),
            r.0@.controllers == Seq::<Seq<char>>::empty(),
            match r.0@.bot_name {
                Some(b) => exists|i: int|
                    is_first_idle(old(store)@, i) && b == old(store)@[i].bot_name
                        && final(store)@ == old(store)@.update(i, reserved(old(store)@[i], now))
                        && r.0@.phase == RequestPhase::AwaitReserved && r.1@
                        == RequestActionView::Publish(
                        progress_report(request_context(request), b, "reserved"@),
                    ),
                None => (forall|i: int|
                    0 <= i < old(store)@.len() ==> old(store)@[i].status != SlotStatus::Idle)
                    && final(store)@ == old(store)@ && r.0@.phase == RequestPhase::Failing
                    && r.1@ == RequestActionView::Publish(
                    failure_report(request_context(request), None, no_idle_slot_message()),
                ),
            },
    {
        let controllers: Vec<String> = Vec::new();
        assert(string_views(controllers@) =~= Seq::<Seq<char>>::empty());
        match store.reserve_idle_at(now) {
            Some(slot) => {
                let message = orchestration_status_message(
                    request.request_id.as_str(),
                    request.instance_name.as_str(),
                    Some(slot.bot_name.as_str()),
                    "reserved",
                    None,
                );
                let run = RequestRun {
                    request,
                    bot_name: Some(slot.bot_name),
                    phase: RequestPhase::AwaitReserved,
                    controllers,
                };
                (run, RequestAction::Publish(message))
            },
            None => {
                let message = orchestration_status_message(
                    request.request_id.as_str(),
                    request.instance_name.as_str(),
                    None,
                    "failed",
                    Some("No idle warm-pool slots are available"),
                );
                let run = RequestRun {
                    request,
                    bot_name: None,
                    phase: RequestPhase::Failing,
                    controllers,
                };
                (run, RequestAction::Publish(message))
            },
        }
    }

    /// Whether the request is done.
    pub fn is_done(&self) -> (r: bool)
        ensures
            r == (self@.phase == RequestPhase::Done),
    {
        self.phase == RequestPhase::Done
    }

    /// The phase that the request stands in.
    pub fn phase(&self) -> (r: RequestPhase)
        ensures
            r == self@.phase,
    {
        self.phase
    }

    /// A report on the request, from its bot where it holds one.
    fn report(&self, status: &str, error: Option<&str>, with_bot: bool) -> (r: JsonValue)
        ensures
            r@ == status_message_spec(
                self@.ctx.request_id,
                self@.ctx.instance_name,
                if with_bot {
                    self@.bot_name
                } else {
                    None
                },
                status@,
                match error {
                    Some(e) => Some(e@),
                    None => None,
                },
            ),
    {
        let bot: Option<&str> = if with_bot {
            match &self.bot_name {
                Some(b) => Some(b.as_str()),
                None => None,
            }
        } else {
            None
        };
        orchestration_status_message(
            self.request.request_id.as_str(),
            self.request.instance_name.as_str(),
            bot,
            status,
            error,
        )
    }

    /// The name of the bot the request holds, or an empty name.
    fn bot(&self) -> (r: String)
        ensures
            r@ == match self@.bot_name {
                Some(b) => b,
                None => Seq::empty(),
            },
    {
        match &self.bot_name {
            Some(b) => b.clone(),
            None => String::new(),
        }
    }

    /// Takes the outcome of the work that the last step asked for, and asks for the next.
    pub fn step(&mut self, store: &mut SlotStore, event: RequestEvent, now: i64) -> (r:
        RequestAction)
        requires
            expects(old(self)@.phase, event@),
        ensures
            final(self)@.ctx == old(self)@.ctx,
            final(self)@.bot_name == old(self)@.bot_name,
            final(self)@.phase != RequestPhase::Failing && final(self)@.phase != RequestPhase::Done
                ==> final(self)@.bot_name is Some,
            ({
                let (phase, controllers, action, effect) = request_step_spec(old(self)@, event@);
                &&& final(self)@.phase == phase
                &&& final(self)@.controllers == controllers
                &&& r@ == action
                &&& final(store)@ == apply_effect(
                    old(store)@,
                    old(self)@.bot_name,
                    effect,
                    old(self)@.ctx,
                    now,
                )
            }),
    {
        proof {
            use_type_invariant(&*self);
        }
        if self.phase == RequestPhase::Failing {
            self.phase = RequestPhase::Done;
            return RequestAction::Finish;
        }
        match event {
            RequestEvent::Published(Err(e)) => {
                let message = self.report("failed", Some(e.as_str()), false);
                self.phase = RequestPhase::Failing;
                RequestAction::Publish(message)
            },
            RequestEvent::Published(Ok(_)) => {
                if self.phase == RequestPhase::AwaitReserved {
                    let message = self.report("hydrating", None, true);
                    self.phase = RequestPhase::AwaitHydrating;
                    RequestAction::Publish(message)
                } else if self.phase == RequestPhase::AwaitHydrating {
                    let keys = self.request.r2.keys.flatten();
                    self.phase = RequestPhase::Hydrating;
                    RequestAction::Hydrate(keys)
                } else if self.phase == RequestPhase::AwaitConfiguring {
                    let script_file_name = script_file_name_for_request(&self.request);
                    let action = RequestAction::Start {
                        bot_name: self.bot(),
                        script_file_name,
                        script_config_name: clone_opt_string(&self.request.script_config),
                    };
                    self.phase = RequestPhase::Starting;
                    action
                } else {
                    self.phase = RequestPhase::Done;
                    RequestAction::Finish
                }
            },
            RequestEvent::Hydrated(Ok(_)) => {
                let action = RequestAction::Prepare {
                    bot_name: self.bot(),
                    script_config: clone_opt_string(&self.request.script_config),
                    controllers: clone_strings(&self.request.controllers_config),
                    credentials_profile: self.request.credentials_profile.clone(),
                };
                self.phase = RequestPhase::Preparing;
                action
            },
            RequestEvent::Hydrated(Err(e)) => {
                let message = self.report("failed", Some(e.as_str()), true);
                let bot = self.bot();
                store.mark_error_at(bot.as_str(), e, now);
                self.phase = RequestPhase::Failing;
                RequestAction::Publish(message)
            },
            RequestEvent::Prepared(Ok(files)) => {
                let bot = self.bot();
                store.assign_configuring_at(
                    bot.as_str(),
                    Some(self.request.instance_name.clone()),
                    self.request.credentials_profile.clone(),
                    clone_opt_string(&self.request.script_config),
                    clone_strings(&files.controllers),
                    now,
                );
                let message = self.report("configuring", None, true);
                self.controllers = files.controllers;
                self.phase = RequestPhase::AwaitConfiguring;
                RequestAction::Publish(message)
            },
            RequestEvent::Prepared(Err(e)) => {
                let message = self.report("failed", Some(e.as_str()), true);
                let bot = self.bot();
                store.mark_error_at(bot.as_str(), e, now);
                self.phase = RequestPhase::Failing;
                RequestAction::Publish(message)
            },
            RequestEvent::Started(Ok(_)) => {
                let bot = self.bot();
                store.assign_running_at(
                    bot.as_str(),
                    Some(self.request.instance_name.clone()),
                    self.request.credentials_profile.clone(),
                    clone_opt_string(&self.request.script_config),
                    clone_strings(&self.controllers),
                    now,
                );
                let message = self.report("running", None, true);
                self.phase = RequestPhase::AwaitRunning;
                RequestAction::Publish(message)
            },
            RequestEvent::Started(Err(e)) => {
                let message = self.report("failed", Some(e.as_str()), true);
                let bot = self.bot();
                store.mark_error_at(bot.as_str(), e, now);
                self.phase = RequestPhase::Failing;
                RequestAction::Publish(message)
            },
        }
    }
}

/// How far a phase lies along a request.
pub open spec fn phase_rank(p: RequestPhase) -> nat {
    match p {
        RequestPhase::AwaitReserved => 0,
        RequestPhase::AwaitHydrating => 1,
        RequestPhase::Hydrating => 2,
        RequestPhase::Preparing => 3,
        RequestPhase::AwaitConfiguring => 4,
        RequestPhase::Starting => 5,
        RequestPhase::AwaitRunning => 6,
        RequestPhase::Failing => 7,
        RequestPhase::Done => 8,
    }
}

/// When a request's files are placed, its bot is recorded as being configured for it, and
/// when its strategy starts, as running it: the request's instance, account and script
/// config, the controllers placed, no error, stamped `now`. Every other slot stays as it
/// was, and the matching progress report names the bot.
pub proof fn law_progress_records_assignment(
    run: RequestRunView,
    placed: Seq<Seq<char>>,
    pool: Seq<SlotView>,
    now: i64,
)
    requires
        run.bot_name is Some,
    ensures
        ({
            let bot = run.bot_name->0;
            let ctx = run.ctx;
            let (p1, c1, a1, e1) = request_step_spec(
                RequestRunView { phase: RequestPhase::Preparing, ..run },
                RequestEventView::Prepared(Ok(placed)),
            );
            let (p2, c2, a2, e2) = request_step_spec(
                RequestRunView { phase: RequestPhase::Starting, ..run },
                RequestEventView::Started(Ok(())),
            );
            let configured = apply_effect(pool, run.bot_name, e1, ctx, now);
            let running = apply_effect(pool, run.bot_name, e2, ctx, now);
            &&& p1 == RequestPhase::AwaitConfiguring && c1 == placed
            &&& p2 == RequestPhase::AwaitRunning && c2 == run.controllers
            &&& configured.len() == pool.len() && running.len() == pool.len()
            &&& forall|i: int|
                0 <= i < pool.len() && pool[i].bot_name == bot ==> #[trigger] configured[i] == (
                SlotView {
                    status: SlotStatus::Configuring,
                    assigned_instance_name: Some(ctx.instance_name),
                    account_name: Some(ctx.credentials_profile),
                    current_config_name: ctx.script_config,
                    current_controller_ids: placed,
                    last_error: None,
                    updated_at: now,
                    ..pool[i]
                })
            &&& forall|i: int|
                0 <= i < pool.len() && pool[i].bot_name == bot ==> #[trigger] running[i] == (
                SlotView {
                    status: SlotStatus::Running,
                    assigned_instance_name: Some(ctx.instance_name),
                    account_name: Some(ctx.credentials_profile),
                    current_config_name: ctx.script_config,
                    current_controller_ids: run.controllers,
                    last_error: None,
                    updated_at: now,
                    ..pool[i]
                })
            &&& forall|i: int|
                0 <= i < pool.len() && pool[i].bot_name != bot ==> #[trigger] configured[i]
                    == pool[i] && running[i] == pool[i]
            &&& a1 == RequestActionView::Publish(progress_report(ctx, bot, "configuring"@))
            &&& a2 == RequestActionView::Publish(progress_report(ctx, bot, "running"@))
        }),
{
}

/// When a request's fetch, placement or strategy start fails, the request's bot is marked
/// failed with that error and stamped `now`, every other slot stays as it was, and the
/// failure is reported on the status topic naming the bot and the error.
pub proof fn law_failure_marks_bot_failed(
    run: RequestRunView,
    event: RequestEventView,
    e: Seq<char>,
    pool: Seq<SlotView>,
    now: i64,
)
    requires
        run.bot_name is Some,
        (run.phase == RequestPhase::Hydrating && event == RequestEventView::Hydrated(Err(e))) || (
        run.phase == RequestPhase::Preparing && event == RequestEventView::Prepared(Err(e))) || (
        run.phase == RequestPhase::Starting && event == RequestEventView::Started(Err(e))),
    ensures
        ({
            let bot = run.bot_name->0;
            let (phase, controllers, action, effect) = request_step_spec(run, event);
            let after = apply_effect(pool, run.bot_name, effect, run.ctx, now);
            &&& phase == RequestPhase::Failing
            &&& after.len() == pool.len()
            &&& forall|i: int|
                0 <= i < pool.len() && pool[i].bot_name == bot ==> #[trigger] after[i] == (
                SlotView {
                    status: SlotStatus::Error,
                    last_error: Some(e),
                    updated_at: now,
                    ..pool[i]
                })
            &&& forall|i: int|
                0 <= i < pool.len() && pool[i].bot_name != bot ==> #[trigger] after[i] == pool[i]
            &&& action == RequestActionView::Publish(
                JsonView::Object(
                    seq![
                        ("request_id"@, JsonView::Str(run.ctx.request_id)),
                        ("instance_name"@, JsonView::Str(run.ctx.instance_name)),
                        ("bot_name"@, JsonView::Str(bot)),
                        ("status"@, JsonView::Str("failed"@)),
                        ("error"@, JsonView::Str(e)),
                    ],
                ),
            )
        }),
{
    let bot = run.bot_name->0;
    let after = apply_effect(pool, run.bot_name, PoolEffect::MarkError(e), run.ctx, now);
    assert(after == update_named(pool, bot, |v: SlotView| with_error(v, e, now)));
    assert forall|i: int| 0 <= i < pool.len() implies #[trigger] after[i] == (if pool[i].bot_name
        == bot {
        SlotView { status: SlotStatus::Error, last_error: Some(e), updated_at: now, ..pool[i] }
    } else {
        pool[i]
    }) by {}
    assert(failure_report(run.ctx, Some(bot), e)->Object_0 =~= seq![
        ("request_id"@, JsonView::Str(run.ctx.request_id)),
        ("instance_name"@, JsonView::Str(run.ctx.instance_name)),
        ("bot_name"@, JsonView::Str(bot)),
        ("status"@, JsonView::Str("failed"@)),
        ("error"@, JsonView::Str(e)),
    ]);
}

/// Every step moves a request forward, so a request is done after at most eight steps;
/// it gets there only from reporting "running" or from reporting a failure; it reports
/// "running" only together with recording the bot as running, and any move into failure
/// asks for a failure report.
pub proof fn law_request_reports_outcome(run: RequestRunView, event: RequestEventView)
    requires
        expects(run.phase, event),
    ensures
        phase_rank(request_step_spec(run, event).0) > phase_rank(run.phase),
        request_step_spec(run, event).0 == RequestPhase::Done ==> (run.phase
            == RequestPhase::AwaitRunning || run.phase == RequestPhase::Failing),
        request_step_spec(run, event).0 == RequestPhase::AwaitRunning ==> request_step_spec(
            run,
            event,
        ).2 == RequestActionView::Publish(
            progress_report(
                run.ctx,
                match run.bot_name {
                    Some(b) => b,
                    None => Seq::empty(),
                },
                "running"@,
            ),
        ) && request_step_spec(run, event).3 == PoolEffect::AssignRunning(run.controllers),
        request_step_spec(run, event).0 == RequestPhase::Failing ==> exists|bot: Option<
            Seq<char>,
        >, e: Seq<char>|
            request_step_spec(run, event).2 == RequestActionView::Publish(
                #[trigger] failure_report(run.ctx, bot, e),
            ),
{
    let (p, c, a, e) = request_step_spec(run, event);
    if p == RequestPhase::Failing {
        match event {
            RequestEventView::Published(Err(err)) => {
                assert(a == RequestActionView::Publish(failure_report(run.ctx, None, err)));
            },
            RequestEventView::Hydrated(Err(err)) => {
                assert(a == RequestActionView::Publish(
                    failure_report(run.ctx, Some(run.bot_name.unwrap_or(Seq::empty())), err),
                ));
            },
            RequestEventView::Prepared(Err(err)) => {
                assert(a == RequestActionView::Publish(
                    failure_report(run.ctx, Some(run.bot_name.unwrap_or(Seq::empty())), err),
                ));
            },
            RequestEventView::Started(Err(err)) => {
                assert(a == RequestActionView::Publish(
                    failure_report(run.ctx, Some(run.bot_name.unwrap_or(Seq::empty())), err),
                ));
            },
            _ => {},
        }
    }
}

} // verus!
