//! The steps of stopping a bot's strategy and returning the bot to the pool.
use vstd::prelude::*;

use crate::json::{JsonValue, JsonView};
use crate::log_store::LogStore;
use crate::orchestrator::{slot_not_found_message, stop_payload, stop_result, AppError};
use crate::slot_store::{has_slot, released, update_named, with_status, SlotStore};
use crate::text::{clone_opt_string, clone_strings, opt_view, string_views};
use crate::types::{SlotStatus, SlotView, StopBotAction};

verus! {

/// Where a stop stands.
#[derive(Clone, Copy, Debug, PartialEq, Eq, Structural)]
pub enum StopPhase {
    /// The `stop` command is being sent.
    SendingStop,
    /// The bot's status is being polled until it shows no strategy.
    AwaitStopped,
    /// The deployment's files are being removed.
    CleaningUp,
    /// Nothing is left to do.
    Done,
}

/// The outcome of the outside work that a stop step asked for.
pub enum StopEvent {
    /// The `stop` command was sent, or could not be.
    StopSent(Result<(), String>),
    /// The status poll ended: in time or not, or with an error.
    StopObserved(Result<(), String>),
    /// The files were removed, or could not be.
    CleanedUp(Result<(), String>),
}

/// The outside work that a stop needs next.
pub enum StopAction {
    /// Send the `stop` command with this data to the bot.
    SendStop { bot_name: String, payload: JsonValue },
    /// Poll the bot's status until it shows no strategy, or time runs out.
    AwaitStopped { bot_name: String },
    /// Remove the files of this config and these controllers from the bot's folder.
    CleanUp { bot_name: String, config_name: String, controllers: Vec<String> },
    /// The stop is over, with this answer.
    Finish(Result<JsonValue, AppError>),
}

/// The outcome that each phase of a stop waits for.
pub open spec fn stop_expects(phase: StopPhase, event: StopEvent) -> bool {
    match phase {
        StopPhase::SendingStop => event is StopSent,
        StopPhase::AwaitStopped => event is StopObserved,
        StopPhase::CleaningUp => event is CleanedUp,
        StopPhase::Done => false,
    }
}

/// A stop in progress.
pub struct StopRun {
    bot_name: String,
    config_name: Option<String>,
    controllers: Vec<String>,
    phase: StopPhase,
}

impl StopRun {
    pub closed spec fn bot_name_view(&self) -> Seq<char> {
        self.bot_name@
    }

    pub closed spec fn config_name_view(&self) -> Option<Seq<char>> {
        opt_view(self.config_name)
    }

    pub closed spec fn controllers_view(&self) -> Seq<Seq<char>> {
        string_views(self.controllers@)
    }

    pub closed spec fn phase_view(&self) -> StopPhase {
        self.phase
    }

    /// Whether the stop waits for an outcome of the kind of `event`.
    pub fn accepts(&self, event: &StopEvent) -> (r: bool)
        ensures
            r == stop_expects(self.phase_view(), *event),
    {
        match self.phase {
            StopPhase::SendingStop => matches!(event, StopEvent::StopSent(_)),
            StopPhase::AwaitStopped => matches!(event, StopEvent::StopObserved(_)),
            StopPhase::CleaningUp => matches!(event, StopEvent::CleanedUp(_)),
            StopPhase::Done => false,
        }
    }

    /// Whether the stop is over.
    pub fn is_done(&self) -> (r: bool)
        ensures
            r == (self.phase_view() == StopPhase::Done),
    {
        self.phase == StopPhase::Done
    }

    /// Starts stopping the bot that `action` names: remembers its deployment's files,
    /// marks it stopping, and asks for the `stop` command; a bot the pool does not hold
    /// is not found.
    pub fn begin(store: &mut SlotStore, action: &StopBotAction, now: i64) -> (r: Result<
        (StopRun, StopAction),
        AppError,
    >)
        ensures
            match r {
                Ok((run, act)) => exists|i: int|
                    0 <= i < old(store)@.len() && old(store)@[i].bot_name == action.bot_name@
                        && run.bot_name_view() == action.bot_name@ && run.config_name_view()
                        == old(store)@[i].current_config_name && run.controllers_view() == old(store)@[i].current_controller_ids && run.phase_view() == StopPhase::SendingStop
                        && final(store)@ == update_named(
                        old(store)@,
                        action.bot_name@,
                        |v: SlotView| with_status(v, SlotStatus::Stopping, now),
                    ) && (act matches StopAction::SendStop { bot_name, payload } && bot_name@
                        == action.bot_name@ && payload@ == JsonView::Object(
                        seq![
                            ("skip_order_cancellation"@, JsonView::Bool(
                                action.skip_order_cancellation,
                            )),
                            ("async_backend"@, JsonView::Bool(action.async_backend)),
                        ],
                    )),
                Err(e) => !has_slot(old(store)@, action.bot_name@) && (e matches AppError::NotFound(
                    m,
                ) && m@ == "Pool slot '"@ + action.bot_name@ + "' not found"@) && final(store)@
                    == old(store)@,
            },
    {
        match store.get(action.bot_name.as_str()) {
            None => Err(AppError::NotFound(slot_not_found_message(action.bot_name.as_str()))),
            Some(slot) => {
                let config_name = clone_opt_string(&slot.current_config_name);
                let controllers = clone_strings(&slot.current_controller_ids);
                store.mark_status_at(action.bot_name.as_str(), SlotStatus::Stopping, now);
                let run = StopRun {
                    bot_name: action.bot_name.clone(),
                    config_name,
                    controllers,
                    phase: StopPhase::SendingStop,
                };
                let act = StopAction::SendStop {
                    bot_name: action.bot_name.clone(),
                    payload: stop_payload(action),
                };
                Ok((run, act))
            },
        }
    }

    /// Returns the bot to the pool: forgets its logs and releases it.
    fn finish_ok<T>(&mut self, store: &mut SlotStore, logs: &mut LogStore<T>, now: i64) -> (r:
        StopAction)
        ensures
            final(store)@ == update_named(
                old(store)@,
                old(self).bot_name_view(),
                |v: SlotView| released(v, now),
            ),
            final(logs)@ == old(logs)@.remove(old(self).bot_name_view()),
            final(self).bot_name_view() == old(self).bot_name_view(),
            final(self).config_name_view() == old(self).config_name_view(),
            final(self).controllers_view() == old(self).controllers_view(),
            final(self).phase_view() == StopPhase::Done,
            r matches StopAction::Finish(Ok(v)) && v@ == JsonView::Object(
                seq![
                    ("success"@, JsonView::Bool(true)),
                    ("bot_name"@, JsonView::Str(old(self).bot_name_view())),
                    ("status"@, JsonView::Str("idle"@)),
                ],
            ),
    {
        logs.clear(self.bot_name.as_str());
        store.release_idle_at(self.bot_name.as_str(), now);
        self.phase = StopPhase::Done;
        StopAction::Finish(Ok(stop_result(self.bot_name.as_str())))
    }

    /// Takes the outcome of the work that the last step asked for, and asks for the next.
    ///
    /// A `stop` command that cannot be sent, or a poll that fails, ends the stop with the
    /// bot left stopping. A poll that runs out of time goes on as one that saw the stop.
    /// The bot is then marked in cleanup; where it had a config, its files are removed,
    /// and a failed removal ends the stop with an error; else its logs are forgotten, it
    /// is released, and the answer says it is idle.
    pub fn step<T>(&mut self, store: &mut SlotStore, logs: &mut LogStore<T>, event: StopEvent, now: i64) -> (r: StopAction)
        requires
            stop_expects(old(self).phase_view(), event),
        ensures
            final(self).bot_name_view() == old(self).bot_name_view(),
            final(self).config_name_view() == old(self).config_name_view(),
            final(self).controllers_view() == old(self).controllers_view(),
            ({
                let bot = old(self).bot_name_view();
                let cleanup = update_named(
                    old(store)@,
                    bot,
                    |v: SlotView| with_status(v, SlotStatus::Cleanup, now),
                );
                match event {
                    StopEvent::StopSent(Ok(_)) => final(self).phase_view() == StopPhase::AwaitStopped
                        && (r matches StopAction::AwaitStopped { bot_name } && bot_name@ == bot)
                        && final(store)@ == old(store)@ && final(logs)@ == old(logs)@,
                    StopEvent::StopSent(Err(e)) | StopEvent::StopObserved(Err(e)) => final(self).phase_view() == StopPhase::Done && (r matches StopAction::Finish(Err(err))
                        && err matches AppError::ServiceUnavailable(m) && m@ == e@) && final(store)@ == old(store)@ && final(logs)@ == old(logs)@,
                    StopEvent::StopObserved(Ok(_)) => match old(self).config_name_view() {
                        Some(c) => final(self).phase_view() == StopPhase::CleaningUp && (
                        r matches StopAction::CleanUp { bot_name, config_name, controllers }
                            && bot_name@ == bot && config_name@ == c && string_views(
                            controllers@,
                        ) == old(self).controllers_view()) && final(store)@ == cleanup && final(logs)@ == old(logs)@,
                        None => final(self).phase_view() == StopPhase::Done && final(store)@
                            == update_named(cleanup, bot, |v: SlotView| released(v, now)) && final(logs)@ == old(logs)@.remove(bot) && (r matches StopAction::Finish(Ok(v))
                            && v@ == JsonView::Object(
                            seq![
                                ("success"@, JsonView::Bool(true)),
                                ("bot_name"@, JsonView::Str(bot)),
                                ("status"@, JsonView::Str("idle"@)),
                            ],
                        )),
                    },
                    StopEvent::CleanedUp(Err(e)) => final(self).phase_view() == StopPhase::Done && (
                    r matches StopAction::Finish(Err(err)) && err matches AppError::Internal(m)
                        && m@ == e@) && final(store)@ == old(store)@ && final(logs)@ == old(logs)@,
                    StopEvent::CleanedUp(Ok(_)) => final(self).phase_view() == StopPhase::Done
                        && final(store)@ == update_named(
                        old(store)@,
                        bot,
                        |v: SlotView| released(v, now),
                    ) && final(logs)@ == old(logs)@.remove(bot) && (r matches StopAction::Finish(
                        Ok(v),
                    ) && v@ == JsonView::Object(
                        seq![
                            ("success"@, JsonView::Bool(true)),
                            ("bot_name"@, JsonView::Str(bot)),
                            ("status"@, JsonView::Str("idle"@)),
                        ],
                    )),
                }
            }),
    {
        match event {
            StopEvent::StopSent(Ok(_)) => {
                self.phase = StopPhase::AwaitStopped;
                StopAction::AwaitStopped { bot_name: self.bot_name.clone() }
            },
            StopEvent::StopSent(Err(e)) => {
                self.phase = StopPhase::Done;
                StopAction::Finish(Err(AppError::ServiceUnavailable(e)))
            },
            StopEvent::StopObserved(Err(e)) => {
                self.phase = StopPhase::Done;
                StopAction::Finish(Err(AppError::ServiceUnavailable(e)))
            },
            StopEvent::StopObserved(Ok(_)) => {
                store.mark_status_at(self.bot_name.as_str(), SlotStatus::Cleanup, now);
                match &self.config_name {
                    Some(c) => {
                        let act = StopAction::CleanUp {
                            bot_name: self.bot_name.clone(),
                            config_name: c.clone(),
                            controllers: clone_strings(&self.controllers),
                        };
                        self.phase = StopPhase::CleaningUp;
                        act
                    },
                    None => self.finish_ok(store, logs, now),
                }
            },
            StopEvent::CleanedUp(Err(e)) => {
                self.phase = StopPhase::Done;
                StopAction::Finish(Err(AppError::Internal(e)))
            },
            StopEvent::CleanedUp(Ok(_)) => self.finish_ok(store, logs, now),
        }
    }
}

} // verus!
