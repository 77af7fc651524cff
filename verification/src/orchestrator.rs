//! The orchestrator's decisions: the messages it sends, how a deployment reads, and the
//! steps of deploying and stopping a strategy on a warm bot.
use vstd::prelude::*;

use crate::docker::ContainerHealth;
use crate::json::{entries_view, json_object, json_opt_string, json_string, member, JsonValue, JsonView};
use crate::text::{ends_with, join3, seq_ends_with, str_equal};
use crate::types::{OrchestrationRequest, SlotState, SlotStatus, StopBotAction};

verus! {

/// The topic on which the progress of orchestration requests is reported.
pub const ORCHESTRATE_STATUS_TOPIC: &'static str = "orchestrate/status";

/// How a request to the orchestrator fails.
#[derive(Clone, Debug)]
pub enum AppError {
    NotFound(String),
    BadRequest(String),
    Conflict(String),
    ServiceUnavailable(String),
    Internal(String),
}

impl AppError {
    /// The error's message, as characters.
    pub open spec fn message_view(&self) -> Seq<char> {
        match self {
            AppError::NotFound(m) => m@,
            AppError::BadRequest(m) => m@,
            AppError::Conflict(m) => m@,
            AppError::ServiceUnavailable(m) => m@,
            AppError::Internal(m) => m@,
        }
    }

    /// The error's message.
    pub fn message(&self) -> (r: String)
        ensures
            r@ == self.message_view(),
    {
        match self {
            AppError::NotFound(m) => m.clone(),
            AppError::BadRequest(m) => m.clone(),
            AppError::Conflict(m) => m.clone(),
            AppError::ServiceUnavailable(m) => m.clone(),
            AppError::Internal(m) => m.clone(),
        }
    }
}

/// The message when no warm bot is idle.
pub open spec fn no_idle_slot_message() -> Seq<char> {
    "No idle warm-pool slots are available"@
}

/// The script that a request runs: the controller runner for controller strategies,
/// else the strategy's own script, with `.py` added where its name lacks it.
pub open spec fn script_file_name_spec(strategy_type: Seq<char>, strategy_name: Seq<char>) -> Seq<char> {
    if strategy_type == "controller"@ {
        "v2_with_controllers.py"@
    } else if seq_ends_with(strategy_name, ".py"@) {
        strategy_name
    } else {
        strategy_name + ".py"@
    }
}

/// The script that an orchestration request runs.
pub fn script_file_name_for_request(request: &OrchestrationRequest) -> (r: String)
    ensures
        r@ == script_file_name_spec(request.strategy_type@, request.strategy_name@),
{
    if str_equal(request.strategy_type.as_str(), "controller") {
        String::from_str("v2_with_controllers.py")
    } else if ends_with(request.strategy_name.as_str(), ".py") {
        request.strategy_name.clone()
    } else {
        let mut r = request.strategy_name.clone();
        r.append(".py");
        r
    }
}

/// The overall state of a deployment: a failed slot or a container that stopped with a
/// non-zero code is failed, a running slot is running, anything else is deploying.
pub open spec fn overall_status_spec(
    status: SlotStatus,
    container_running: bool,
    exit_code: Option<i64>,
) -> Seq<char> {
    if status == SlotStatus::Error {
        "failed"@
    } else if status == SlotStatus::Running {
        "running"@
    } else if !container_running && (exit_code matches Some(code) && code != 0) {
        "failed"@
    } else {
        "deploying"@
    }
}

/// The overall state of a deployment, from its slot and its container.
pub fn derive_overall_status(slot: &SlotState, container: &ContainerHealth) -> (r: &'static str)
    ensures
        r@ == overall_status_spec(slot.status, container.running, container.exit_code),
{
    if slot.status == SlotStatus::Error {
        "failed"
    } else if slot.status == SlotStatus::Running {
        "running"
    } else if !container.running && match container.exit_code {
        Some(code) => code != 0,
        None => false,
    } {
        "failed"
    } else {
        "deploying"
    }
}

/// A progress report on an orchestration request.
pub open spec fn status_message_spec(
    request_id: Seq<char>,
    instance_name: Seq<char>,
    bot_name: Option<Seq<char>>,
    status: Seq<char>,
    error: Option<Seq<char>>,
) -> JsonView {
    JsonView::Object(
        seq![
            ("request_id"@, JsonView::Str(request_id)),
            ("instance_name"@, JsonView::Str(instance_name)),
            ("bot_name"@, match bot_name {
                Some(b) => JsonView::Str(b),
                None => JsonView::Null,
            }),
            ("status"@, JsonView::Str(status)),
            ("error"@, match error {
                Some(e) => JsonView::Str(e),
                None => JsonView::Null,
            }),
        ],
    )
}

/// The progress report that says `status` of an orchestration request.
pub fn orchestration_status_message(
    request_id: &str,
    instance_name: &str,
    bot_name: Option<&str>,
    status: &str,
    error: Option<&str>,
) -> (r: JsonValue)
    ensures
        r@ == status_message_spec(
            request_id@,
            instance_name@,
            match bot_name {
                Some(b) => Some(b@),
                None => None,
            },
            status@,
            match error {
                Some(e) => Some(e@),
                None => None,
            },
        ),
{
    let mut es: Vec<(String, JsonValue)> = Vec::new();
    es.push(member("request_id", json_string(request_id)));
    es.push(member("instance_name", json_string(instance_name)));
    es.push(member("bot_name", json_opt_string(bot_name)));
    es.push(member("status", json_string(status)));
    es.push(member("error", json_opt_string(error)));
    let ghost s = es@;
    let r = json_object(es);
    assert(entries_view(s) =~= status_message_spec(
        request_id@,
        instance_name@,
        match bot_name {
            Some(b) => Some(b@),
            None => None,
        },
        status@,
        match error {
            Some(e) => Some(e@),
            None => None,
        },
    )->Object_0);
    r
}

/// The data of a `start` command: log level, quick start and an asynchronous reply, with
/// the generated script config where there is one, else the script to run.
pub open spec fn start_payload_spec(script_file_name: Seq<char>, script_config_name: Option<Seq<char>>) -> JsonView {
    JsonView::Object(
        seq![
            ("log_level"@, JsonView::Str("INFO"@)),
            ("is_quickstart"@, JsonView::Bool(true)),
            ("async_backend"@, JsonView::Bool(true)),
            match script_config_name {
                Some(c) => ("v2_conf"@, JsonView::Str(c)),
                None => ("script"@, JsonView::Str(script_file_name)),
            },
        ],
    )
}

/// The data of the `start` command for a strategy.
pub fn start_payload(script_file_name: &str, script_config_name: Option<&str>) -> (r: JsonValue)
    ensures
        r@ == start_payload_spec(
            script_file_name@,
            match script_config_name {
                Some(c) => Some(c@),
                None => None,
            },
        ),
{
    let mut es: Vec<(String, JsonValue)> = Vec::new();
    es.push(member("log_level", json_string("INFO")));
    es.push(member("is_quickstart", JsonValue::Bool(true)));
    es.push(member("async_backend", JsonValue::Bool(true)));
    match script_config_name {
        Some(c) => es.push(member("v2_conf", json_string(c))),
        None => es.push(member("script", json_string(script_file_name))),
    }
    let ghost s = es@;
    let r = json_object(es);
    assert(entries_view(s) =~= start_payload_spec(
        script_file_name@,
        match script_config_name {
            Some(c) => Some(c@),
            None => None,
        },
    )->Object_0);
    r
}

/// The data of the `stop` command for `action`.
pub fn stop_payload(action: &StopBotAction) -> (r: JsonValue)
    ensures
        r@ == JsonView::Object(
            seq![
                ("skip_order_cancellation"@, JsonView::Bool(action.skip_order_cancellation)),
                ("async_backend"@, JsonView::Bool(action.async_backend)),
            ],
        ),
{
    let mut es: Vec<(String, JsonValue)> = Vec::new();
    es.push(member("skip_order_cancellation", JsonValue::Bool(action.skip_order_cancellation)));
    es.push(member("async_backend", JsonValue::Bool(action.async_backend)));
    let ghost s = es@;
    let r = json_object(es);
    assert(entries_view(s) =~= seq![
        ("skip_order_cancellation"@, JsonView::Bool(action.skip_order_cancellation)),
        ("async_backend"@, JsonView::Bool(action.async_backend)),
    ]);
    r
}

/// The answer to a completed stop: the bot is idle again.
pub fn stop_result(bot_name: &str) -> (r: JsonValue)
    ensures
        r@ == JsonView::Object(
            seq![
                ("success"@, JsonView::Bool(true)),
                ("bot_name"@, JsonView::Str(bot_name@)),
                ("status"@, JsonView::Str("idle"@)),
            ],
        ),
{
    let mut es: Vec<(String, JsonValue)> = Vec::new();
    es.push(member("success", JsonValue::Bool(true)));
    es.push(member("bot_name", json_string(bot_name)));
    es.push(member("status", json_string("idle")));
    let ghost s = es@;
    let r = json_object(es);
    assert(entries_view(s) =~= seq![
        ("success"@, JsonView::Bool(true)),
        ("bot_name"@, JsonView::Str(bot_name@)),
        ("status"@, JsonView::Str("idle"@)),
    ]);
    r
}

/// The service's health report.
pub fn health_report(mqtt_connected: bool) -> (r: JsonValue)
    ensures
        r@ == JsonView::Object(
            seq![
                ("service"@, JsonView::Str("principia-aves"@)),
                ("status"@, JsonView::Str("ok"@)),
                ("mqtt_connected"@, JsonView::Bool(mqtt_connected)),
            ],
        ),
{
    let mut es: Vec<(String, JsonValue)> = Vec::new();
    es.push(member("service", json_string("principia-aves")));
    es.push(member("status", json_string("ok")));
    es.push(member("mqtt_connected", JsonValue::Bool(mqtt_connected)));
    let ghost s = es@;
    let r = json_object(es);
    assert(entries_view(s) =~= seq![
        ("service"@, JsonView::Str("principia-aves"@)),
        ("status"@, JsonView::Str("ok"@)),
        ("mqtt_connected"@, JsonView::Bool(mqtt_connected)),
    ]);
    r
}

/// The text that explains a failed start: the error, then the bot's recent MQTT logs,
/// then its container's logs.
pub fn failure_report(error: &str, mqtt_logs: &str, container_logs: &str) -> (r: String)
    ensures
        r@ == error@ + "\n\nMQTT logs:\n"@ + mqtt_logs@ + "\n\nContainer logs:\n"@
            + container_logs@,
{
    let mut r = String::from_str(error);
    r.append("\n\nMQTT logs:\n");
    r.append(mqtt_logs);
    r.append("\n\nContainer logs:\n");
    r.append(container_logs);
    r
}

/// How a strategy start ends once the status poll is over: started where the bot was
/// seen running, else timed out.
pub fn start_outcome(observed_running: bool) -> (r: Result<(), String>)
    ensures
        observed_running ==> r is Ok,
        !observed_running ==> (r matches Err(m) && m@
            == "timed out waiting for /status content to show running strategy"@),
{
    if observed_running {
        Ok(())
    } else {
        Err(String::from_str("timed out waiting for /status content to show running strategy"))
    }
}

/// The message for a pool slot that does not exist.
pub fn slot_not_found_message(bot_name: &str) -> (r: String)
    ensures
        r@ == "Pool slot '"@ + bot_name@ + "' not found"@,
{
    join3("Pool slot '", bot_name, "' not found")
}

/// The message for a deployment that no slot runs.
pub fn deployment_not_found_message(instance_name: &str) -> (r: String)
    ensures
        r@ == "Deployment '"@ + instance_name@ + "' not found"@,
{
    join3("Deployment '", instance_name, "' not found")
}

} // verus!
