//! What the MQTT side decides: reconnection delays, how a bot's status reply reads,
//! where an incoming message goes, and the messages that the sidecar publishes.
use vstd::prelude::*;

use crate::config::Settings;
use crate::json::{
    entries_view, json_as_i64, json_as_str, json_from_bytes, json_get, json_object, json_string,
    lossy_text, member, parse_json_bytes, text_of_bytes, JsonValue, JsonView,
};
use crate::clock::millis;
use crate::text::{
    ascii_lower_codes, ascii_lower_contains, codes, decimal_seq, dots_to_slashes,
    dots_to_slashes_seq, find_char, format_decimal, index_of_char, lemma_find_char, occurs_at, opt_view,
    seq_contains, seq_starts_with, starts_with, str_equal, trim, trim_seq,
};
use crate::types::SlotStatus;

verus! {

/// The topic on which orchestration requests arrive.
pub const ORCHESTRATE_DEPLOY_TOPIC: &'static str = "orchestrate/deploy";

/// Seconds to wait before the first reconnection attempt.
pub const MQTT_RECONNECT_BACKOFF_INITIAL_SECS: u64 = 1;

/// Upper bound on the reconnection delay, in seconds.
pub const MQTT_RECONNECT_BACKOFF_MAX_SECS: u64 = 30;

/// The next reconnection delay: twice the current one, capped at the maximum.
pub open spec fn backoff_after(current_secs: nat) -> nat {
    if current_secs * 2 <= MQTT_RECONNECT_BACKOFF_MAX_SECS {
        current_secs * 2
    } else {
        MQTT_RECONNECT_BACKOFF_MAX_SECS as nat
    }
}

/// Doubles a reconnection delay, capped at the maximum. A delay whose double does not fit
/// is left out, as doubling such a `Duration` panics.
pub fn next_reconnect_backoff(current_secs: u64) -> (next: u64)
    requires
        current_secs * 2 <= u64::MAX,
    ensures
        next == backoff_after(current_secs as nat),
{
    let doubled = current_secs * 2;
    if doubled <= MQTT_RECONNECT_BACKOFF_MAX_SECS {
        doubled
    } else {
        MQTT_RECONNECT_BACKOFF_MAX_SECS
    }
}

/// Backoff delays stay between the initial delay and the maximum, and grow until they
/// reach the maximum.
pub proof fn law_backoff_bounded(current_secs: nat)
    requires
        MQTT_RECONNECT_BACKOFF_INITIAL_SECS <= current_secs <= MQTT_RECONNECT_BACKOFF_MAX_SECS,
    ensures
        MQTT_RECONNECT_BACKOFF_INITIAL_SECS <= backoff_after(current_secs)
            <= MQTT_RECONNECT_BACKOFF_MAX_SECS,
        current_secs < MQTT_RECONNECT_BACKOFF_MAX_SECS ==> current_secs < backoff_after(
            current_secs,
        ),
        current_secs == MQTT_RECONNECT_BACKOFF_MAX_SECS ==> backoff_after(current_secs)
            == current_secs,
{
}

/// What a bot's `/status` reply says of its strategy.
#[derive(Clone, Copy, Debug, PartialEq, Eq, Structural)]
pub enum StrategyContentState {
    Running,
    Stopped,
    Unknown,
}

/// An incoming message: the JSON document that its bytes hold, else its bytes as text.
pub fn parse_payload(payload: &[u8]) -> (r: JsonValue)
    ensures
        match json_from_bytes(payload@) {
            Some(v) => r@ == v,
            None => r@ == JsonView::Str(lossy_text(payload@)),
        },
{
    match parse_json_bytes(payload) {
        Some(v) => v,
        None => JsonValue::Str(text_of_bytes(payload)),
    }
}

/// A reply counts as running only with status 200 and a status text that is not blank:
/// an empty acknowledgement is never taken for a running strategy, whatever its status.
/// A text too short to say that no strategy runs, with status 200, is running; a reply
/// taken for stopped has a text at least that long.
pub proof fn law_running_needs_status_text(v: JsonValue)
    ensures
        reply_message(v).len() == 0 ==> classify_spec(v) == StrategyContentState::Unknown,
        classify_spec(v) == StrategyContentState::Running ==> reply_status(v) == Some(200i64)
            && reply_message(v).len() > 0,
        classify_spec(v) == StrategyContentState::Stopped ==> reply_message(v).len()
            >= stopped_phrase().len(),
        reply_status(v) == Some(200i64) && 0 < reply_message(v).len() < stopped_phrase().len()
            ==> classify_spec(v) == StrategyContentState::Running,
{
    reveal_strlit("no strategy is currently running");
    let hay = ascii_lower_codes(reply_message(v));
    let needle = codes(stopped_phrase());
    assert(needle.len() == stopped_phrase().len());
    assert(stopped_phrase().len() == 32);
    if seq_contains(hay, needle) {
        let i = choose|i: int| occurs_at(hay, needle, i);
        assert(hay.len() == reply_message(v).len());
    }
}

/// The member `field` of a reply, or else the member `field` of its `data` member.
pub open spec fn response_field_spec(v: JsonValue, field: Seq<char>) -> Option<JsonValue> {
    match json_get(v, field) {
        Some(x) => Some(x),
        None => match json_get(v, "data"@) {
            Some(d) => json_get(d, field),
            None => None,
        },
    }
}

/// The phrase by which a bot says that it runs no strategy.
pub open spec fn stopped_phrase() -> Seq<char> {
    "no strategy is currently running"@
}

/// The reply's `status` member, where it is an integer.
pub open spec fn reply_status(v: JsonValue) -> Option<i64> {
    match response_field_spec(v, "status"@) {
        Some(x) => json_as_i64(x),
        None => None,
    }
}

/// The reply's `msg` member, trimmed; empty where it is missing or not a string.
pub open spec fn reply_message(v: JsonValue) -> Seq<char> {
    trim_seq(
        match response_field_spec(v, "msg"@) {
            Some(x) => match json_as_str(x) {
                Some(s) => s,
                None => Seq::empty(),
            },
            None => Seq::empty(),
        },
    )
}

/// A message that says no strategy runs means stopped; status 200 with a non-empty
/// message means running; anything else is unknown.
pub open spec fn classify_spec(v: JsonValue) -> StrategyContentState {
    if seq_contains(ascii_lower_codes(reply_message(v)), codes(stopped_phrase())) {
        StrategyContentState::Stopped
    } else if reply_status(v) == Some(200i64) && reply_message(v).len() > 0 {
        StrategyContentState::Running
    } else {
        StrategyContentState::Unknown
    }
}

/// The member `field` of a reply, or of its `data` member.
pub fn response_field<'a>(value: &'a JsonValue, field: &str) -> (r: Option<&'a JsonValue>)
    ensures
        match response_field_spec(*value, field@) {
            Some(x) => r is Some && *(r->0) == x,
            None => r is None,
        },
{
    match value.get(field) {
        Some(x) => Some(x),
        None => match value.get("data") {
            Some(d) => d.get(field),
            None => None,
        },
    }
}

/// Reads what a bot's `/status` reply says of its strategy.
pub fn classify_strategy_status_response(value: &JsonValue) -> (r: StrategyContentState)
    ensures
        r == classify_spec(*value),
{
    let status = match response_field(value, "status") {
        Some(x) => x.as_i64(),
        None => None,
    };
    let empty = "";
    proof {
        reveal_strlit("");
    }
    let raw = match response_field(value, "msg") {
        Some(x) => match x.as_str() {
            Some(s) => s,
            None => empty,
        },
        None => empty,
    };
    let msg = trim(raw);
    assert(raw@ == (match response_field_spec(*value, "msg"@) {
        Some(x) => match json_as_str(x) {
            Some(s) => s,
            None => Seq::empty(),
        },
        None => Seq::empty(),
    }));
    assert(msg@ == reply_message(*value));
    assert(status == reply_status(*value));
    if ascii_lower_contains(msg, "no strategy is currently running") {
        return StrategyContentState::Stopped;
    }
    if status == Some(200i64) && msg.unicode_len() != 0 {
        return StrategyContentState::Running;
    }
    StrategyContentState::Unknown
}

/// Where an incoming message goes.
pub enum PublishRoute {
    /// An orchestration request, for the orchestration listener.
    Orchestrate,
    /// A reply to a command, for whoever waits on its topic.
    Response,
    /// A heartbeat from the bot.
    Heartbeat(String),
    /// A lifecycle update that sets the bot's status.
    SetStatus(String, SlotStatus),
    /// A lifecycle update that says the bot's strategy failed.
    StrategyFailed(String),
    /// A log line from the bot.
    Log(String),
    /// Nothing to do.
    Ignore,
}

/// A route with its bot name taken as characters.
pub enum RouteView {
    Orchestrate,
    Response,
    Heartbeat(Seq<char>),
    SetStatus(Seq<char>, SlotStatus),
    StrategyFailed(Seq<char>),
    Log(Seq<char>),
    Ignore,
}

impl View for PublishRoute {
    type V = RouteView;

    open spec fn view(&self) -> RouteView {
        match self {
            PublishRoute::Orchestrate => RouteView::Orchestrate,
            PublishRoute::Response => RouteView::Response,
            PublishRoute::Heartbeat(b) => RouteView::Heartbeat(b@),
            PublishRoute::SetStatus(b, s) => RouteView::SetStatus(b@, *s),
            PublishRoute::StrategyFailed(b) => RouteView::StrategyFailed(b@),
            PublishRoute::Log(b) => RouteView::Log(b@),
            PublishRoute::Ignore => RouteView::Ignore,
        }
    }
}

/// The lifecycle update that a `status_updates` message carries, by its `type` and `msg`.
pub open spec fn status_update_route(bot: Seq<char>, value: JsonValue) -> RouteView {
    let kind = match json_get(value, "type"@) {
        Some(x) => json_as_str(x),
        None => None,
    };
    let msg = match json_get(value, "msg"@) {
        Some(x) => json_as_str(x),
        None => None,
    };
    if kind == Some("bootstrap"@) && msg == Some("bootstrapping"@) {
        RouteView::SetStatus(bot, SlotStatus::Bootstrapping)
    } else if kind == Some("strategy"@) && msg == Some("idle"@) {
        RouteView::SetStatus(bot, SlotStatus::Idle)
    } else if kind == Some("strategy"@) && msg == Some("running"@) {
        RouteView::SetStatus(bot, SlotStatus::Running)
    } else if kind == Some("strategy"@) && msg == Some("failed"@) {
        RouteView::StrategyFailed(bot)
    } else {
        RouteView::Ignore
    }
}

/// Where a message on `topic` goes. A bot topic is `hbot/<bot>/<channel>`: the bot name
/// lies between the first two `/`, the channel is all that follows the second.
pub open spec fn route_spec(topic: Seq<char>, value: JsonValue) -> RouteView {
    if topic == ORCHESTRATE_DEPLOY_TOPIC@ {
        RouteView::Orchestrate
    } else if seq_starts_with(topic, "hummingbot-api/response/"@) {
        RouteView::Response
    } else {
        match find_char(topic, '/') {
            None => RouteView::Ignore,
            Some(p) => {
                let rest = topic.subrange(p + 1, topic.len() as int);
                match find_char(rest, '/') {
                    None => RouteView::Ignore,
                    Some(q) => {
                        let head = topic.subrange(0, p);
                        let bot = rest.subrange(0, q);
                        let channel = rest.subrange(q + 1, rest.len() as int);
                        if head != "hbot"@ {
                            RouteView::Ignore
                        } else if channel == "hb"@ {
                            RouteView::Heartbeat(bot)
                        } else if channel == "status_updates"@ {
                            status_update_route(bot, value)
                        } else if channel == "log"@ {
                            RouteView::Log(bot)
                        } else {
                            RouteView::Ignore
                        }
                    },
                }
            },
        }
    }
}

/// The string member `key` of a message, where it is a string.
pub open spec fn member_text(value: JsonValue, key: Seq<char>) -> Option<Seq<char>> {
    match json_get(value, key) {
        Some(x) => json_as_str(x),
        None => None,
    }
}

/// A bot topic `hbot/<bot>/<channel>` splits into its bot and its channel, and is neither
/// the orchestration topic nor a reply topic.
proof fn lemma_bot_topic(bot: Seq<char>, channel: Seq<char>)
    requires
        !bot.contains('/'),
    ensures
        ({
            let topic = "hbot/"@ + bot + "/"@ + channel;
            &&& topic != ORCHESTRATE_DEPLOY_TOPIC@
            &&& !seq_starts_with(topic, "hummingbot-api/response/"@)
            &&& find_char(topic, '/') == Some(4int)
            &&& topic.subrange(0, 4) == "hbot"@
            &&& find_char(topic.subrange(5, topic.len() as int), '/') == Some(bot.len() as int)
            &&& topic.subrange(5, topic.len() as int).subrange(0, bot.len() as int) == bot
            &&& ({
                let rest = topic.subrange(5, topic.len() as int);
                rest.subrange(bot.len() as int + 1, rest.len() as int) == channel
            })
        }),
{
    reveal_strlit("hbot/");
    reveal_strlit("/");
    reveal_strlit("hbot");
    reveal_strlit("orchestrate/deploy");
    reveal_strlit("hummingbot-api/response/");
    let topic = "hbot/"@ + bot + "/"@ + channel;
    assert(topic[0] == 'h' && topic[1] == 'b' && topic[4] == '/');
    assert(topic != ORCHESTRATE_DEPLOY_TOPIC@) by {
        if topic == ORCHESTRATE_DEPLOY_TOPIC@ {
            assert(ORCHESTRATE_DEPLOY_TOPIC@[0] == 'o');
        }
    }
    assert(!seq_starts_with(topic, "hummingbot-api/response/"@)) by {
        if seq_starts_with(topic, "hummingbot-api/response/"@) {
            assert(topic.subrange(0, 24)[1] == topic[1]);
        }
    }
    lemma_find_char(topic, '/');
    assert(topic.subrange(0, 4) =~= "hbot"@);
    let rest = topic.subrange(5, topic.len() as int);
    assert(rest =~= bot + "/"@ + channel);
    lemma_find_char(rest, '/');
    assert(rest[bot.len() as int] == '/');
    assert forall|j: int| 0 <= j < bot.len() implies rest[j] != '/' by {
        assert(rest[j] == bot[j]);
    }
    assert(rest.subrange(0, bot.len() as int) =~= bot);
    assert(rest.subrange(bot.len() as int + 1, rest.len() as int) =~= channel);
}

/// Where a message from a bot goes, for a bot name without `/`: a heartbeat to the bot,
/// a log line to its logs, and a lifecycle update by its `type` and `msg`: a bootstrap
/// sets the bot bootstrapping, a strategy that is idle or running sets it idle or running,
/// a failed strategy marks it failed, and any other update is ignored.
pub proof fn law_bot_messages_route(bot: Seq<char>, value: JsonValue)
    requires
        !bot.contains('/'),
    ensures
        route_spec("hbot/"@ + bot + "/"@ + "hb"@, value) == RouteView::Heartbeat(bot),
        route_spec("hbot/"@ + bot + "/"@ + "log"@, value) == RouteView::Log(bot),
        ({
            let topic = "hbot/"@ + bot + "/"@ + "status_updates"@;
            let kind = member_text(value, "type"@);
            let msg = member_text(value, "msg"@);
            &&& kind == Some("bootstrap"@) && msg == Some("bootstrapping"@) ==> route_spec(
                topic,
                value,
            ) == RouteView::SetStatus(bot, SlotStatus::Bootstrapping)
            &&& kind == Some("strategy"@) && msg == Some("idle"@) ==> route_spec(topic, value)
                == RouteView::SetStatus(bot, SlotStatus::Idle)
            &&& kind == Some("strategy"@) && msg == Some("running"@) ==> route_spec(topic, value)
                == RouteView::SetStatus(bot, SlotStatus::Running)
            &&& kind == Some("strategy"@) && msg == Some("failed"@) ==> route_spec(topic, value)
                == RouteView::StrategyFailed(bot)
            &&& !(kind == Some("bootstrap"@) && msg == Some("bootstrapping"@)) && !(kind == Some(
                "strategy"@,
            ) && (msg == Some("idle"@) || msg == Some("running"@) || msg == Some("failed"@)))
                ==> route_spec(topic, value) == RouteView::Ignore
        }),
{
    lemma_bot_topic(bot, "hb"@);
    lemma_bot_topic(bot, "log"@);
    lemma_bot_topic(bot, "status_updates"@);
    reveal_strlit("hb");
    reveal_strlit("log");
    reveal_strlit("status_updates");
    reveal_strlit("bootstrap");
    reveal_strlit("bootstrapping");
    reveal_strlit("strategy");
    reveal_strlit("idle");
    reveal_strlit("running");
    reveal_strlit("failed");
    assert("hb"@.len() == 2 && "log"@.len() == 3 && "status_updates"@.len() == 14);
    assert("bootstrap"@.len() == 9 && "strategy"@.len() == 8);
    assert("idle"@.len() == 4 && "running"@.len() == 7 && "failed"@.len() == 6);
}

/// Whether an optional string holds exactly `expected`.
fn is_str(v: Option<&str>, expected: &str) -> (r: bool)
    ensures
        r == (match v {
            Some(s) => s@ == expected@,
            None => false,
        }),
{
    match v {
        Some(s) => str_equal(s, expected),
        None => false,
    }
}

/// The string member `key` of a message, where it is a string.
fn str_member<'a>(value: &'a JsonValue, key: &str) -> (r: Option<&'a str>)
    ensures
        match (match json_get(*value, key@) {
            Some(x) => json_as_str(x),
            None => None,
        }) {
            Some(s) => r is Some && r->0@ == s,
            None => r is None,
        },
{
    match value.get(key) {
        Some(x) => x.as_str(),
        None => None,
    }
}

/// Decides where a message that arrived on `topic` goes.
pub fn route_publish(topic: &str, value: &JsonValue) -> (r: PublishRoute)
    ensures
        r@ == route_spec(topic@, *value),
{
    if str_equal(topic, ORCHESTRATE_DEPLOY_TOPIC) {
        return PublishRoute::Orchestrate;
    }
    if starts_with(topic, "hummingbot-api/response/") {
        return PublishRoute::Response;
    }
    proof {
        lemma_find_char(topic@, '/');
    }
    let n = topic.unicode_len();
    let p = match index_of_char(topic, '/') {
        None => {
            return PublishRoute::Ignore;
        },
        Some(p) => p,
    };
    let rest = topic.substring_char(p + 1, n);
    proof {
        lemma_find_char(rest@, '/');
    }
    let q = match index_of_char(rest, '/') {
        None => {
            return PublishRoute::Ignore;
        },
        Some(q) => q,
    };
    let rlen = rest.unicode_len();
    let head = topic.substring_char(0, p);
    let bot = rest.substring_char(0, q);
    let channel = rest.substring_char(q + 1, rlen);
    if !str_equal(head, "hbot") {
        return PublishRoute::Ignore;
    }
    if str_equal(channel, "hb") {
        return PublishRoute::Heartbeat(String::from_str(bot));
    }
    if str_equal(channel, "status_updates") {
        let kind = str_member(value, "type");
        let msg = str_member(value, "msg");
        if is_str(kind, "bootstrap") && is_str(msg, "bootstrapping") {
            return PublishRoute::SetStatus(String::from_str(bot), SlotStatus::Bootstrapping);
        } else if is_str(kind, "strategy") && is_str(msg, "idle") {
            return PublishRoute::SetStatus(String::from_str(bot), SlotStatus::Idle);
        } else if is_str(kind, "strategy") && is_str(msg, "running") {
            return PublishRoute::SetStatus(String::from_str(bot), SlotStatus::Running);
        } else if is_str(kind, "strategy") && is_str(msg, "failed") {
            return PublishRoute::StrategyFailed(String::from_str(bot));
        }
        return PublishRoute::Ignore;
    }
    if str_equal(channel, "log") {
        return PublishRoute::Log(String::from_str(bot));
    }
    PublishRoute::Ignore
}

/// The topic of command `command` for bot `bot_name`: `hbot/<bot>/<command>`, with the
/// dots of the bot name written as `/`.
pub open spec fn command_topic_spec(bot_name: Seq<char>, command: Seq<char>) -> Seq<char> {
    "hbot/"@ + dots_to_slashes_seq(bot_name) + "/"@ + command
}

/// The topic on which the reply to a command sent at `now` arrives.
pub open spec fn reply_topic_spec(command: Seq<char>, now: nat) -> Seq<char> {
    "hummingbot-api/response/"@ + command + "-"@ + decimal_seq(now)
}

/// The name under which the sidecar signs its commands.
pub open spec fn node_name() -> Seq<char> {
    "principia-aves"@
}

/// A command message: a header that says when it was sent, where to reply and who sent
/// it, then the command's data.
pub open spec fn envelope_spec(reply_to: Seq<char>, now: u64, data: JsonView) -> JsonView {
    JsonView::Object(
        seq![
            ("header"@, JsonView::Object(
                seq![
                    ("timestamp"@, JsonView::PosInt(now)),
                    ("reply_to"@, JsonView::Str(reply_to)),
                    ("msg_id"@, JsonView::PosInt(now)),
                    ("node_id"@, JsonView::Str(node_name())),
                    ("agent"@, JsonView::Str(node_name())),
                    ("properties"@, JsonView::Object(Seq::empty())),
                ],
            )),
            ("data"@, data),
        ],
    )
}

/// The topic of command `command` for bot `bot_name`.
pub fn command_topic(bot_name: &str, command: &str) -> (r: String)
    ensures
        r@ == command_topic_spec(bot_name@, command@),
{
    let bot = dots_to_slashes(bot_name);
    let mut r = String::from_str("hbot/");
    r.append(bot.as_str());
    r.append("/");
    r.append(command);
    r
}

/// The topic on which the reply to a command sent at `now` arrives.
pub fn reply_topic(command: &str, now: u128) -> (r: String)
    ensures
        r@ == reply_topic_spec(command@, now as nat),
{
    let stamp = format_decimal(now);
    let mut r = String::from_str("hummingbot-api/response/");
    r.append(command);
    r.append("-");
    r.append(stamp.as_str());
    r
}

/// The message that carries a command's `data`.
pub fn command_message(reply_to: &str, now: u64, data: JsonValue) -> (r: JsonValue)
    ensures
        r@ == envelope_spec(reply_to@, now, data@),
{
    let mut header: Vec<(String, JsonValue)> = Vec::new();
    header.push(member("timestamp", JsonValue::PosInt(now)));
    header.push(member("reply_to", json_string(reply_to)));
    header.push(member("msg_id", JsonValue::PosInt(now)));
    header.push(member("node_id", json_string("principia-aves")));
    header.push(member("agent", json_string("principia-aves")));
    let no_properties = json_object(Vec::new());
    assert(entries_view(Seq::<(String, JsonValue)>::empty()) =~= Seq::empty());
    header.push(member("properties", no_properties));
    let ghost hs = header@;
    let h = json_object(header);
    assert(entries_view(hs) =~= seq![
        ("timestamp"@, JsonView::PosInt(now)),
        ("reply_to"@, JsonView::Str(reply_to@)),
        ("msg_id"@, JsonView::PosInt(now)),
        ("node_id"@, JsonView::Str(node_name())),
        ("agent"@, JsonView::Str(node_name())),
        ("properties"@, JsonView::Object(Seq::empty())),
    ]);
    let ghost dv = data@;
    let mut top: Vec<(String, JsonValue)> = Vec::new();
    top.push(member("header", h));
    top.push(member("data", data));
    let ghost ts = top@;
    let r = json_object(top);
    assert(entries_view(ts) =~= envelope_spec(reply_to@, now, dv)->Object_0);
    r
}

/// A command ready to be published: its topic, the topic of its reply, and its message.
pub struct CommandPublication {
    pub topic: String,
    pub reply_to: String,
    pub message: JsonValue,
}

/// The publication of command `command` with `data` for bot `bot_name`, sent at `now`.
pub fn prepare_command_at(bot_name: &str, command: &str, data: JsonValue, now: u64) -> (r:
    CommandPublication)
    ensures
        r.topic@ == command_topic_spec(bot_name@, command@),
        r.reply_to@ == reply_topic_spec(command@, now as nat),
        r.message@ == envelope_spec(r.reply_to@, now, data@),
{
    let topic = command_topic(bot_name, command);
    let reply_to = reply_topic(command, now as u128);
    let message = command_message(reply_to.as_str(), now, data);
    CommandPublication { topic, reply_to, message }
}

/// The publication of command `command` with `data` for bot `bot_name`, stamped with the
/// current time; `None` for a clock reading too large for a JSON number.
pub fn prepare_command(bot_name: &str, command: &str, data: JsonValue) -> (r: Option<
    CommandPublication,
>)
    ensures
        match r {
            Some(p) => exists|now: u64|
                p.topic@ == command_topic_spec(bot_name@, command@) && p.reply_to@
                    == reply_topic_spec(command@, now as nat) && p.message@ == envelope_spec(
                    p.reply_to@,
                    now,
                    data@,
                ),
            None => true,
        },
{
    let now = millis();
    if now > u64::MAX as u128 {
        return None;
    }
    let p = prepare_command_at(bot_name, command, data, now as u64);
    assert(p.reply_to@ == reply_topic_spec(command@, (now as u64) as nat));
    Some(p)
}

/// The data of a `/status` query that asks for the answer in the reply.
pub fn status_query() -> (r: JsonValue)
    ensures
        r@ == JsonView::Object(seq![("async_backend"@, JsonView::Bool(false))]),
{
    let mut es: Vec<(String, JsonValue)> = Vec::new();
    es.push(member("async_backend", JsonValue::Bool(false)));
    let ghost s = es@;
    let r = json_object(es);
    assert(entries_view(s) =~= seq![("async_backend"@, JsonView::Bool(false))]);
    r
}

/// The topics that the sidecar listens on.
pub fn default_subscriptions() -> (r: Vec<&'static str>)
    ensures
        r@.map_values(|t: &str| t@) == seq![
            "hbot/+/hb"@,
            "hbot/+/status_updates"@,
            "hbot/+/log"@,
            "hbot/+/notify"@,
            "hbot/+/performance"@,
            "hummingbot-api/response/+"@,
            ORCHESTRATE_DEPLOY_TOPIC@,
        ],
{
    let mut r: Vec<&'static str> = Vec::new();
    r.push("hbot/+/hb");
    r.push("hbot/+/status_updates");
    r.push("hbot/+/log");
    r.push("hbot/+/notify");
    r.push("hbot/+/performance");
    r.push("hummingbot-api/response/+");
    r.push(ORCHESTRATE_DEPLOY_TOPIC);
    assert(r@.map_values(|t: &str| t@) =~= seq![
        "hbot/+/hb"@,
        "hbot/+/status_updates"@,
        "hbot/+/log"@,
        "hbot/+/notify"@,
        "hbot/+/performance"@,
        "hummingbot-api/response/+"@,
        ORCHESTRATE_DEPLOY_TOPIC@,
    ]);
    r
}

/// How to connect to the broker.
pub struct ConnectionPlan {
    pub client_id: String,
    pub host: String,
    pub port: u16,
    pub keep_alive_secs: u64,
    pub credentials: Option<(String, String)>,
    pub use_tls: bool,
}

/// The client name for a connection made at `now`.
pub open spec fn client_id_spec(now: nat) -> Seq<char> {
    "principia-aves-"@ + decimal_seq(now)
}

/// Credentials are sent only where both a user name and a password are set.
pub open spec fn plan_credentials(settings: Settings) -> Option<(Seq<char>, Seq<char>)> {
    match (settings.broker_username, settings.broker_password) {
        (Some(u), Some(p)) => Some((u@, p@)),
        _ => None,
    }
}

/// The connection for `settings`, made at `now`: keep-alive of 30 seconds, credentials
/// where both are set, TLS where the settings ask for it.
pub fn connection_plan_at(settings: &Settings, now: u128) -> (r: ConnectionPlan)
    ensures
        r.client_id@ == client_id_spec(now as nat),
        r.host@ == settings.broker_host@,
        r.port == settings.broker_port,
        r.keep_alive_secs == 30,
        match (r.credentials, plan_credentials(*settings)) {
            (Some(c), Some(e)) => c.0@ == e.0 && c.1@ == e.1,
            (None, None) => true,
            _ => false,
        },
        r.use_tls == settings.broker_ssl,
{
    let stamp = format_decimal(now);
    let mut client_id = String::from_str("principia-aves-");
    client_id.append(stamp.as_str());
    let credentials = match (&settings.broker_username, &settings.broker_password) {
        (Some(u), Some(p)) => Some((u.clone(), p.clone())),
        _ => None,
    };
    ConnectionPlan {
        client_id,
        host: settings.broker_host.clone(),
        port: settings.broker_port,
        keep_alive_secs: 30,
        credentials,
        use_tls: settings.broker_ssl,
    }
}

/// The connection for `settings`, named after the current time.
pub fn connection_plan(settings: &Settings) -> (r: ConnectionPlan)
    ensures
        exists|now: nat| r.client_id@ == #[trigger] client_id_spec(now),
        r.host@ == settings.broker_host@,
        r.port == settings.broker_port,
        r.keep_alive_secs == 30,
        match (r.credentials, plan_credentials(*settings)) {
            (Some(c), Some(e)) => c.0@ == e.0 && c.1@ == e.1,
            (None, None) => true,
            _ => false,
        },
        r.use_tls == settings.broker_ssl,
{
    let now = millis();
    connection_plan_at(settings, now)
}

/// What the MQTT event loop reported.
#[derive(Clone, Copy, Debug, PartialEq, Eq, Structural)]
pub enum BusEvent {
    /// The broker accepted the connection.
    ConnAck,
    /// A message arrived.
    Publish,
    /// The client sent a disconnect.
    OutgoingDisconnect,
    /// Any other successful poll.
    OtherOk,
    /// The poll failed.
    PollError,
}

/// What the event loop does next.
#[derive(Clone, Copy, Debug, PartialEq, Eq, Structural)]
pub enum BusReaction {
    /// Subscribe to the default topics again.
    Resubscribe,
    /// Hand the message to the router.
    HandlePublish,
    /// Poll again.
    Continue,
    /// Wait this many seconds, then poll again.
    RetryAfter(u64),
}

/// Whether the client is connected, and the delay before the next reconnection attempt.
#[derive(Clone, Copy, Debug)]
pub struct LinkState {
    pub connected: bool,
    pub backoff_secs: u64,
}

impl LinkState {
    /// The delay lies between the initial delay and the maximum.
    pub open spec fn wf(&self) -> bool {
        MQTT_RECONNECT_BACKOFF_INITIAL_SECS <= self.backoff_secs <= MQTT_RECONNECT_BACKOFF_MAX_SECS
    }

    /// Not connected yet, with the initial delay.
    pub fn initial() -> (s: LinkState)
        ensures
            s.wf(),
            !s.connected,
            s.backoff_secs == MQTT_RECONNECT_BACKOFF_INITIAL_SECS,
    {
        LinkState { connected: false, backoff_secs: MQTT_RECONNECT_BACKOFF_INITIAL_SECS }
    }
}

/// The event loop's step: a connection acknowledgement or a message means connected and
/// resets the delay; a disconnect means not connected; any other success resets the
/// delay; a failure means not connected, a wait of the current delay, and a doubled one.
pub open spec fn link_step(state: LinkState, event: BusEvent) -> (LinkState, BusReaction) {
    match event {
        BusEvent::ConnAck => (
            LinkState { connected: true, backoff_secs: MQTT_RECONNECT_BACKOFF_INITIAL_SECS },
            BusReaction::Resubscribe,
        ),
        BusEvent::Publish => (
            LinkState { connected: true, backoff_secs: MQTT_RECONNECT_BACKOFF_INITIAL_SECS },
            BusReaction::HandlePublish,
        ),
        BusEvent::OutgoingDisconnect => (
            LinkState { connected: false, backoff_secs: state.backoff_secs },
            BusReaction::Continue,
        ),
        BusEvent::OtherOk => (
            LinkState {
                connected: state.connected,
                backoff_secs: MQTT_RECONNECT_BACKOFF_INITIAL_SECS,
            },
            BusReaction::Continue,
        ),
        BusEvent::PollError => (
            LinkState {
                connected: false,
                backoff_secs: backoff_after(state.backoff_secs as nat) as u64,
            },
            BusReaction::RetryAfter(state.backoff_secs),
        ),
    }
}

/// Decides what the event loop does after `event`.
pub fn on_bus_event(state: LinkState, event: BusEvent) -> (r: (LinkState, BusReaction))
    requires
        state.wf(),
    ensures
        r == link_step(state, event),
        r.0.wf(),
{
    match event {
        BusEvent::ConnAck => (
            LinkState { connected: true, backoff_secs: MQTT_RECONNECT_BACKOFF_INITIAL_SECS },
            BusReaction::Resubscribe,
        ),
        BusEvent::Publish => (
            LinkState { connected: true, backoff_secs: MQTT_RECONNECT_BACKOFF_INITIAL_SECS },
            BusReaction::HandlePublish,
        ),
        BusEvent::OutgoingDisconnect => (
            LinkState { connected: false, backoff_secs: state.backoff_secs },
            BusReaction::Continue,
        ),
        BusEvent::OtherOk => (
            LinkState {
                connected: state.connected,
                backoff_secs: MQTT_RECONNECT_BACKOFF_INITIAL_SECS,
            },
            BusReaction::Continue,
        ),
        BusEvent::PollError => (
            LinkState { connected: false, backoff_secs: next_reconnect_backoff(state.backoff_secs) },
            BusReaction::RetryAfter(state.backoff_secs),
        ),
    }
}

/// The link after `k` poll errors in a row from `state`.
pub open spec fn after_errors(state: LinkState, k: nat) -> LinkState
    decreases k,
{
    if k == 0 {
        state
    } else {
        link_step(after_errors(state, (k - 1) as nat), BusEvent::PollError).0
    }
}

/// Two to the power `k`.
pub open spec fn two_to(k: nat) -> nat
    decreases k,
{
    if k == 0 {
        1
    } else {
        2 * two_to((k - 1) as nat)
    }
}

/// The smaller of `2^k` seconds and the maximum delay.
pub open spec fn capped_wait(k: nat) -> nat {
    if two_to(k) < MQTT_RECONNECT_BACKOFF_MAX_SECS {
        two_to(k)
    } else {
        MQTT_RECONNECT_BACKOFF_MAX_SECS as nat
    }
}

/// Over a run of events: a connection acknowledgement, a message or any other success
/// but a disconnect resets the delay to the initial one, and a disconnect keeps it. From a
/// reset delay, after `k` poll errors in a row the client is not connected, and the next
/// error waits `min(2^k, 30)` seconds: the `n`-th error in a row waits `min(2^(n-1), 30)`.
pub proof fn law_backoff_over_errors(state: LinkState, k: nat)
    requires
        state.backoff_secs == MQTT_RECONNECT_BACKOFF_INITIAL_SECS,
    ensures
        link_step(state, BusEvent::ConnAck).0.backoff_secs == MQTT_RECONNECT_BACKOFF_INITIAL_SECS,
        link_step(state, BusEvent::Publish).0.backoff_secs == MQTT_RECONNECT_BACKOFF_INITIAL_SECS,
        link_step(state, BusEvent::OtherOk).0.backoff_secs == MQTT_RECONNECT_BACKOFF_INITIAL_SECS,
        link_step(state, BusEvent::OutgoingDisconnect).0.backoff_secs == state.backoff_secs,
        after_errors(state, k).backoff_secs == capped_wait(k),
        k > 0 ==> !after_errors(state, k).connected,
        link_step(after_errors(state, k), BusEvent::PollError).1 == BusReaction::RetryAfter(
            capped_wait(k) as u64,
        ),
    decreases k,
{
    if k > 0 {
        law_backoff_over_errors(state, (k - 1) as nat);
        assert(two_to(k) == 2 * two_to((k - 1) as nat));
    }
}

/// However the event loop goes, the delay stays between the initial delay and the
/// maximum, a retry never waits longer than the maximum, and a failure always leaves the
/// client marked not connected.
pub proof fn law_link_step_bounded(state: LinkState, event: BusEvent)
    requires
        state.wf(),
    ensures
        link_step(state, event).0.wf(),
        link_step(state, event).1 matches BusReaction::RetryAfter(w) ==> w
            <= MQTT_RECONNECT_BACKOFF_MAX_SECS,
        event == BusEvent::PollError ==> !link_step(state, event).0.connected,
        event == BusEvent::ConnAck || event == BusEvent::Publish ==> link_step(
            state,
            event,
        ).0.connected,
{
}

/// What a status poll does before it asks: give up once no time is left, else ask and wait
/// for at most five seconds.
#[derive(Clone, Copy, Debug, PartialEq, Eq, Structural)]
pub enum PollAsk {
    GiveUp,
    Ask { wait_ms: u64 },
}

/// What a status poll does with a reply: stop with it when it shows the expected state,
/// else pause for at most a second.
#[derive(Clone, Copy, Debug, PartialEq, Eq, Structural)]
pub enum PollAfter {
    Satisfied,
    PauseMs(u64),
}

/// The smaller of two numbers.
pub open spec fn min_u64(a: u64, b: u64) -> u64 {
    if a < b {
        a
    } else {
        b
    }
}

/// The step before a status poll asks, with `remaining_ms` left.
pub fn poll_before_ask(remaining_ms: u64) -> (r: PollAsk)
    ensures
        remaining_ms == 0 ==> r == PollAsk::GiveUp,
        remaining_ms > 0 ==> r == (PollAsk::Ask { wait_ms: min_u64(remaining_ms, 5000) }),
{
    if remaining_ms == 0 {
        PollAsk::GiveUp
    } else if remaining_ms < 5000 {
        PollAsk::Ask { wait_ms: remaining_ms }
    } else {
        PollAsk::Ask { wait_ms: 5000 }
    }
}

/// The step after a status poll asked, with `remaining_ms` left before it asked.
pub fn poll_after_reply(
    reply: Option<&JsonValue>,
    expected: StrategyContentState,
    remaining_ms: u64,
) -> (r: PollAfter)
    ensures
        r == (match reply {
            Some(v) => if classify_spec(*v) == expected {
                PollAfter::Satisfied
            } else {
                PollAfter::PauseMs(min_u64(remaining_ms, 1000))
            },
            None => PollAfter::PauseMs(min_u64(remaining_ms, 1000)),
        }),
{
    let pause = if remaining_ms < 1000 {
        remaining_ms
    } else {
        1000
    };
    match reply {
        Some(v) => {
            if classify_strategy_status_response(v) == expected {
                PollAfter::Satisfied
            } else {
                PollAfter::PauseMs(pause)
            }
        },
        None => PollAfter::PauseMs(pause),
    }
}

} // verus!
