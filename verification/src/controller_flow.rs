//! The steps of a manual controller deployment onto an idle warm bot.
use vstd::prelude::*;

use crate::clock::{is_timestamp_label, utc_now_nanos, utc_timestamp_label};
use crate::orchestrator::{no_idle_slot_message, AppError};
use crate::slot_store::{is_first_idle, reserved, update_named, with_assignment, with_error, SlotStore};
use crate::text::{clone_strings, string_views};
use crate::types::{DeployResponse, DeploymentFiles, SlotStatus, SlotView};

verus! {

/// Where a controller deployment stands.
#[derive(Clone, Copy, Debug, PartialEq, Eq, Structural)]
pub enum ControllerPhase {
    /// The files are being written into the bot's folder.
    Preparing,
    /// The strategy is being started.
    Starting,
    /// The bot's recent logs are being gathered to explain a failed start.
    Diagnosing,
    /// Nothing is left to do.
    Done,
}

/// The outcome of the outside work that a step asked for.
pub enum ControllerEvent {
    Prepared(Result<DeploymentFiles, AppError>),
    Started(Result<(), String>),
    /// The explanation of a failed start, logs included.
    Diagnosed(String),
}

/// The outside work that a controller deployment needs next.
pub enum ControllerAction {
    /// Write the deployment's files for this bot, under these names.
    Prepare { bot_name: String, unique_instance_name: String, script_config_name: String },
    /// Start the controller runner with this config and wait until the bot runs it.
    Start { bot_name: String, script_file_name: String, script_config_name: String },
    /// Gather the bot's recent logs to explain `error`.
    Diagnose { bot_name: String, error: String },
    /// The deployment is over, with this answer.
    Finish(Result<DeployResponse, AppError>),
}

/// The outcome that each phase of a controller deployment waits for.
pub open spec fn controller_expects(phase: ControllerPhase, event: ControllerEvent) -> bool {
    match phase {
        ControllerPhase::Preparing => event is Prepared,
        ControllerPhase::Starting => event is Started,
        ControllerPhase::Diagnosing => event is Diagnosed,
        ControllerPhase::Done => false,
    }
}

/// A controller deployment in progress.
pub struct ControllerRun {
    bot_name: String,
    unique_instance_name: String,
    script_config_name: String,
    credentials_profile: String,
    generated_config: String,
    controllers: Vec<String>,
    phase: ControllerPhase,
}

/// The message that a successful deployment answers with.
pub open spec fn assigned_message(unique_instance_name: Seq<char>, bot_name: Seq<char>) -> Seq<char> {
    "Assigned "@ + unique_instance_name + " to warm pool slot "@ + bot_name + "."@
}

/// How a deployment of `controller_count` controllers starts at `timestamp` and `now` on
/// the pool `before`, leaving `after`: see `ControllerRun::begin_at`.
pub open spec fn begin_outcome(
    before: Seq<SlotView>,
    after: Seq<SlotView>,
    instance_name: Seq<char>,
    credentials_profile: Seq<char>,
    controller_count: nat,
    timestamp: Seq<char>,
    now: i64,
    r: Result<(ControllerRun, ControllerAction), AppError>,
) -> bool {
    match r {
        Ok((run, act)) => controller_count > 0 && exists|i: int|
            is_first_idle(before, i) && after == before.update(i, reserved(before[i], now))
                && run.bot_name_view() == before[i].bot_name && run.unique_instance_name_view()
                == instance_name + "-"@ + timestamp && run.script_config_name_view()
                == before[i].bot_name + "-"@ + timestamp + ".yml"@
                && run.credentials_profile_view() == credentials_profile && run.phase_view()
                == ControllerPhase::Preparing && (act matches ControllerAction::Prepare {
                bot_name,
                unique_instance_name,
                script_config_name,
            } && bot_name@ == run.bot_name_view() && unique_instance_name@
                == run.unique_instance_name_view() && script_config_name@
                == run.script_config_name_view()),
        Err(e) => after == before && if controller_count == 0 {
            e matches AppError::BadRequest(m) && m@ == "controllers_config must not be empty"@
        } else {
            (forall|i: int| 0 <= i < before.len() ==> before[i].status != SlotStatus::Idle) && (
            e matches AppError::Conflict(m) && m@ == no_idle_slot_message())
        },
    }
}

impl ControllerRun {
    pub closed spec fn bot_name_view(&self) -> Seq<char> {
        self.bot_name@
    }

    pub closed spec fn unique_instance_name_view(&self) -> Seq<char> {
        self.unique_instance_name@
    }

    pub closed spec fn script_config_name_view(&self) -> Seq<char> {
        self.script_config_name@
    }

    pub closed spec fn credentials_profile_view(&self) -> Seq<char> {
        self.credentials_profile@
    }

    pub closed spec fn generated_config_view(&self) -> Seq<char> {
        self.generated_config@
    }

    pub closed spec fn controllers_view(&self) -> Seq<Seq<char>> {
        string_views(self.controllers@)
    }

    pub closed spec fn phase_view(&self) -> ControllerPhase {
        self.phase
    }

    /// Whether the deployment waits for an outcome of the kind of `event`.
    pub fn accepts(&self, event: &ControllerEvent) -> (r: bool)
        ensures
            r == controller_expects(self.phase_view(), *event),
    {
        match self.phase {
            ControllerPhase::Preparing => matches!(event, ControllerEvent::Prepared(_)),
            ControllerPhase::Starting => matches!(event, ControllerEvent::Started(_)),
            ControllerPhase::Diagnosing => matches!(event, ControllerEvent::Diagnosed(_)),
            ControllerPhase::Done => false,
        }
    }

    /// Starts a deployment of the controllers `controller_count` names at `timestamp`:
    /// none is a bad request, no idle bot a conflict; else the first idle bot is
    /// reserved, the instance is named `<instance>-<timestamp>`, its config
    /// `<bot>-<timestamp>.yml`, and the files are asked for.
    pub fn begin_at(
        store: &mut SlotStore,
        instance_name: &str,
        credentials_profile: String,
        controller_count: usize,
        timestamp: &str,
        now: i64,
    ) -> (r: Result<(ControllerRun, ControllerAction), AppError>)
        ensures
            begin_outcome(
                old(store)@,
                final(store)@,
                instance_name@,
                credentials_profile@,
                controller_count as nat,
                timestamp@,
                now,
                r,
            ),
    {
        if controller_count == 0 {
            return Err(AppError::BadRequest(String::from_str("controllers_config must not be empty")));
        }
        match store.reserve_idle_at(now) {
            None => Err(AppError::Conflict(String::from_str("No idle warm-pool slots are available"))),
            Some(slot) => {
                let mut unique = String::from_str(instance_name);
                unique.append("-");
                unique.append(timestamp);
                let mut config = slot.bot_name.clone();
                config.append("-");
                config.append(timestamp);
                config.append(".yml");
                let act = ControllerAction::Prepare {
                    bot_name: slot.bot_name.clone(),
                    unique_instance_name: unique.clone(),
                    script_config_name: config.clone(),
                };
                let controllers: Vec<String> = Vec::new();
                let run = ControllerRun {
                    bot_name: slot.bot_name,
                    unique_instance_name: unique,
                    script_config_name: config,
                    credentials_profile,
                    generated_config: String::new(),
                    controllers,
                    phase: ControllerPhase::Preparing,
                };
                Ok((run, act))
            },
        }
    }

    /// Starts a deployment stamped with the current time.
    pub fn begin(
        store: &mut SlotStore,
        instance_name: &str,
        credentials_profile: String,
        controller_count: usize,
    ) -> (r: Result<(ControllerRun, ControllerAction), AppError>)
        ensures
            controller_count == 0 ==> final(store)@ == old(store)@ && (r matches Err(
                AppError::BadRequest(m),
            ) && m@ == "controllers_config must not be empty"@),
            controller_count > 0 && (forall|i: int|
                0 <= i < old(store)@.len() ==> old(store)@[i].status != SlotStatus::Idle)
                ==> final(store)@ == old(store)@ && (r matches Err(AppError::Conflict(m)) && m@
                == no_idle_slot_message()),
            controller_count > 0 && (exists|i: int|
                0 <= i < old(store)@.len() && old(store)@[i].status == SlotStatus::Idle) ==> r is Ok,
            exists|timestamp: Seq<char>, now: i64|
                is_timestamp_label(timestamp) && #[trigger] begin_outcome(
                    old(store)@,
                    final(store)@,
                    instance_name@,
                    credentials_profile@,
                    controller_count as nat,
                    timestamp,
                    now,
                    r,
                ),
    {
        let now = utc_now_nanos();
        let timestamp = utc_timestamp_label();
        let r = Self::begin_at(
            store,
            instance_name,
            credentials_profile,
            controller_count,
            timestamp.as_str(),
            now,
        );
        proof {
            if controller_count > 0 && exists|i: int|
                0 <= i < old(store)@.len() && old(store)@[i].status == SlotStatus::Idle {
                let i = choose|i: int|
                    0 <= i < old(store)@.len() && old(store)@[i].status == SlotStatus::Idle;
                assert(old(store)@[i].status == SlotStatus::Idle);
            }
        }
        r
    }

    /// Takes the outcome of the work that the last step asked for, and asks for the next.
    ///
    /// Files that cannot be written mark the bot failed and end the deployment with that
    /// error. Written files put the bot in configuring and ask for the start. A failed
    /// start asks for the bot's logs, then marks the bot failed with the explanation and
    /// ends with it as unavailable. A start that succeeds records the bot as running and
    /// answers with the deployment.
    pub fn step(&mut self, store: &mut SlotStore, event: ControllerEvent, now: i64) -> (r: ControllerAction)
        requires
            controller_expects(old(self).phase_view(), event),
        ensures
            final(self).bot_name_view() == old(self).bot_name_view(),
            final(self).unique_instance_name_view() == old(self).unique_instance_name_view(),
            final(self).script_config_name_view() == old(self).script_config_name_view(),
            final(self).credentials_profile_view() == old(self).credentials_profile_view(),
            ({
                let bot = old(self).bot_name_view();
                let unique = old(self).unique_instance_name_view();
                let config = old(self).script_config_name_view();
                let account = old(self).credentials_profile_view();
                match event {
                    ControllerEvent::Prepared(Err(e)) => final(self).phase_view() == ControllerPhase::Done
                        && final(store)@ == update_named(
                        old(store)@,
                        bot,
                        |v: SlotView| with_error(v, e.message_view(), now),
                    ) && (r matches ControllerAction::Finish(Err(err)) && err == e),
                    ControllerEvent::Prepared(Ok(files)) => final(self).phase_view()
                        == ControllerPhase::Starting && final(self).controllers_view()
                        == string_views(files.controllers@) && final(self).generated_config_view()
                        == files.script_config_name@ && final(store)@ == update_named(
                        old(store)@,
                        bot,
                        |v: SlotView|
                            with_assignment(
                                v,
                                SlotStatus::Configuring,
                                Some(unique),
                                account,
                                Some(config),
                                string_views(files.controllers@),
                                now,
                            ),
                    ) && (r matches ControllerAction::Start {
                        bot_name,
                        script_file_name,
                        script_config_name,
                    } && bot_name@ == bot && script_file_name@ == "v2_with_controllers.py"@
                        && script_config_name@ == config),
                    ControllerEvent::Started(Err(e)) => final(self).phase_view()
                        == ControllerPhase::Diagnosing && final(store)@ == old(store)@ && (
                    r matches ControllerAction::Diagnose { bot_name, error } && bot_name@ == bot
                        && error@ == e@),
                    ControllerEvent::Diagnosed(logs) => final(self).phase_view()
                        == ControllerPhase::Done && final(store)@ == update_named(
                        old(store)@,
                        bot,
                        |v: SlotView| with_error(v, logs@, now),
                    ) && (r matches ControllerAction::Finish(Err(err))
                        && err matches AppError::ServiceUnavailable(m) && m@ == logs@),
                    ControllerEvent::Started(Ok(_)) => final(self).phase_view()
                        == ControllerPhase::Done && final(store)@ == update_named(
                        old(store)@,
                        bot,
                        |v: SlotView|
                            with_assignment(
                                v,
                                SlotStatus::Running,
                                Some(unique),
                                account,
                                Some(config),
                                old(self).controllers_view(),
                                now,
                            ),
                    ) && (r matches ControllerAction::Finish(Ok(resp)) && resp.success
                        && resp.message@ == assigned_message(unique, bot) && resp.bot_name@ == bot
                        && resp.unique_instance_name@ == unique && resp.script_config_generated@
                        == old(self).generated_config_view() && string_views(resp.controllers_deployed@)
                        == old(self).controllers_view()),
                }
            }),
    {
        match event {
            ControllerEvent::Prepared(Err(e)) => {
                store.mark_error_at(self.bot_name.as_str(), e.message(), now);
                self.phase = ControllerPhase::Done;
                ControllerAction::Finish(Err(e))
            },
            ControllerEvent::Prepared(Ok(files)) => {
                store.assign_configuring_at(
                    self.bot_name.as_str(),
                    Some(self.unique_instance_name.clone()),
                    self.credentials_profile.clone(),
                    Some(self.script_config_name.clone()),
                    clone_strings(&files.controllers),
                    now,
                );
                self.controllers = files.controllers;
                self.generated_config = files.script_config_name;
                self.phase = ControllerPhase::Starting;
                ControllerAction::Start {
                    bot_name: self.bot_name.clone(),
                    script_file_name: String::from_str("v2_with_controllers.py"),
                    script_config_name: self.script_config_name.clone(),
                }
            },
            ControllerEvent::Started(Err(e)) => {
                self.phase = ControllerPhase::Diagnosing;
                ControllerAction::Diagnose { bot_name: self.bot_name.clone(), error: e }
            },
            ControllerEvent::Diagnosed(logs) => {
                store.mark_error_at(self.bot_name.as_str(), logs.clone(), now);
                self.phase = ControllerPhase::Done;
                ControllerAction::Finish(Err(AppError::ServiceUnavailable(logs)))
            },
            ControllerEvent::Started(Ok(_)) => {
                store.assign_running_at(
                    self.bot_name.as_str(),
                    Some(self.unique_instance_name.clone()),
                    self.credentials_profile.clone(),
                    Some(self.script_config_name.clone()),
                    clone_strings(&self.controllers),
                    now,
                );
                let mut message = String::from_str("Assigned ");
                message.append(self.unique_instance_name.as_str());
                message.append(" to warm pool slot ");
                message.append(self.bot_name.as_str());
                message.append(".");
                self.phase = ControllerPhase::Done;
                ControllerAction::Finish(
                    Ok(
                        DeployResponse {
                            success: true,
                            message,
                            bot_name: self.bot_name.clone(),
                            unique_instance_name: self.unique_instance_name.clone(),
                            script_config_generated: self.generated_config.clone(),
                            controllers_deployed: clone_strings(&self.controllers),
                        },
                    ),
                )
            },
        }
    }
}

} // verus!
