//! The data that the orchestrator keeps and exchanges.
use vstd::prelude::*;

use crate::clock::utc_now_nanos;
use crate::json::JsonValue;
use crate::text::{
    clone_opt_string, clone_strings, ends_with, opt_view, seq_ends_with, string_views,
};

verus! {

/// The lifecycle state of one warm-pool bot.
#[derive(Clone, Copy, Debug, PartialEq, Eq, Structural)]
pub enum SlotStatus {
    Offline,
    Bootstrapping,
    Idle,
    Reserved,
    Configuring,
    Running,
    Stopping,
    Cleanup,
    Error,
}

/// One warm-pool bot and what it runs. Times are nanoseconds since the Unix epoch.
#[derive(Clone, Debug)]
pub struct SlotState {
    pub bot_name: String,
    pub status: SlotStatus,
    pub assigned_instance_name: Option<String>,
    pub account_name: Option<String>,
    pub last_heartbeat: Option<i64>,
    pub current_config_name: Option<String>,
    pub current_controller_ids: Vec<String>,
    pub last_error: Option<String>,
    pub updated_at: i64,
}

/// A slot with its strings taken as characters.
pub struct SlotView {
    pub bot_name: Seq<char>,
    pub status: SlotStatus,
    pub assigned_instance_name: Option<Seq<char>>,
    pub account_name: Option<Seq<char>>,
    pub last_heartbeat: Option<i64>,
    pub current_config_name: Option<Seq<char>>,
    pub current_controller_ids: Seq<Seq<char>>,
    pub last_error: Option<Seq<char>>,
    pub updated_at: i64,
}

impl View for SlotState {
    type V = SlotView;

    open spec fn view(&self) -> SlotView {
        SlotView {
            bot_name: self.bot_name@,
            status: self.status,
            assigned_instance_name: opt_view(self.assigned_instance_name),
            account_name: opt_view(self.account_name),
            last_heartbeat: self.last_heartbeat,
            current_config_name: opt_view(self.current_config_name),
            current_controller_ids: string_views(self.current_controller_ids@),
            last_error: opt_view(self.last_error),
            updated_at: self.updated_at,
        }
    }
}

/// A slot that has just been learned of: offline, with nothing assigned.
pub open spec fn fresh_slot(bot_name: Seq<char>, now: i64) -> SlotView {
    SlotView {
        bot_name,
        status: SlotStatus::Offline,
        assigned_instance_name: None,
        account_name: None,
        last_heartbeat: None,
        current_config_name: None,
        current_controller_ids: Seq::empty(),
        last_error: None,
        updated_at: now,
    }
}

impl SlotState {
    /// A fresh slot for `bot_name`, stamped with `now`.
    pub fn new_at(bot_name: String, now: i64) -> (s: SlotState)
        ensures
            s@ == fresh_slot(bot_name@, now),
    {
        let s = SlotState {
            bot_name,
            status: SlotStatus::Offline,
            assigned_instance_name: None,
            account_name: None,
            last_heartbeat: None,
            current_config_name: None,
            current_controller_ids: Vec::new(),
            last_error: None,
            updated_at: now,
        };
        assert(s@.current_controller_ids =~= Seq::<Seq<char>>::empty());
        s
    }

    /// A fresh slot for `bot_name`, stamped with the current time.
    pub fn new(bot_name: String) -> (s: SlotState)
        ensures
            s@ == fresh_slot(bot_name@, s.updated_at),
    {
        let now = utc_now_nanos();
        Self::new_at(bot_name, now)
    }

    /// A copy of the slot.
    pub fn duplicate(&self) -> (r: SlotState)
        ensures
            r@ == self@,
    {
        SlotState {
            bot_name: self.bot_name.clone(),
            status: self.status,
            assigned_instance_name: clone_opt_string(&self.assigned_instance_name),
            account_name: clone_opt_string(&self.account_name),
            last_heartbeat: self.last_heartbeat,
            current_config_name: clone_opt_string(&self.current_config_name),
            current_controller_ids: clone_strings(&self.current_controller_ids),
            last_error: clone_opt_string(&self.last_error),
            updated_at: self.updated_at,
        }
    }
}

/// Where an orchestration request's files lie in object storage.
pub struct OrchestrationR2 {
    pub prefix: String,
    pub keys: OrchestrationR2Keys,
}

/// The object keys of one deployment's files.
pub struct OrchestrationR2Keys {
    pub credential_profile: String,
    pub script_config: Option<String>,
    pub controllers: Vec<String>,
    pub scripts_runtime: Option<String>,
    pub controllers_runtime: Option<String>,
}

/// A key that names a folder: it ends with `/`.
pub open spec fn prefix_key_seq(key: Seq<char>) -> Seq<char> {
    if seq_ends_with(key, seq!['/']) {
        key
    } else {
        key.push('/')
    }
}

/// An optional key, as a list of zero or one keys.
pub open spec fn opt_list(k: Option<Seq<char>>) -> Seq<Seq<char>> {
    match k {
        Some(s) => seq![s],
        None => Seq::empty(),
    }
}

/// An optional folder key, as a list of zero or one keys.
pub open spec fn opt_prefix_list(k: Option<Seq<char>>) -> Seq<Seq<char>> {
    match k {
        Some(s) => seq![prefix_key_seq(s)],
        None => Seq::empty(),
    }
}

impl OrchestrationR2Keys {
    /// Every key to fetch: the credential profile folder, the script config, the
    /// controllers, then the two runtime folders; folders end with `/`.
    pub open spec fn flat_keys(&self) -> Seq<Seq<char>> {
        seq![prefix_key_seq(self.credential_profile@)] + opt_list(opt_view(self.script_config))
            + string_views(self.controllers@) + opt_prefix_list(opt_view(self.scripts_runtime))
            + opt_prefix_list(opt_view(self.controllers_runtime))
    }

    /// Every key to fetch, folders written with a trailing `/`.
    pub fn flatten(&self) -> (keys: Vec<String>)
        ensures
            string_views(keys@) == self.flat_keys(),
    {
        let mut keys: Vec<String> = Vec::new();
        keys.push(as_prefix_key(self.credential_profile.as_str()));
        assert(string_views(keys@) =~= seq![prefix_key_seq(self.credential_profile@)]);
        let ghost k0 = string_views(keys@);
        match &self.script_config {
            Some(script_config) => {
                keys.push(script_config.clone());
            },
            None => {},
        }
        assert(string_views(keys@) =~= k0 + opt_list(opt_view(self.script_config)));
        let ghost k1 = string_views(keys@);
        let mut i: usize = 0;
        while i < self.controllers.len()
            invariant
                i <= self.controllers.len(),
                string_views(keys@) == k1 + string_views(self.controllers@.take(i as int)),
            decreases self.controllers.len() - i,
        {
            let ghost before = string_views(keys@);
            keys.push(self.controllers[i].clone());
            assert(string_views(keys@) =~= before.push(self.controllers@[i as int]@));
            assert(string_views(self.controllers@.take(i + 1)) =~= string_views(
                self.controllers@.take(i as int),
            ).push(self.controllers@[i as int]@));
            i += 1;
        }
        assert(self.controllers@.take(self.controllers.len() as int) =~= self.controllers@);
        let ghost k2 = string_views(keys@);
        match &self.scripts_runtime {
            Some(r) => {
                keys.push(as_prefix_key(r.as_str()));
            },
            None => {},
        }
        assert(string_views(keys@) =~= k2 + opt_prefix_list(opt_view(self.scripts_runtime)));
        let ghost k3 = string_views(keys@);
        match &self.controllers_runtime {
            Some(r) => {
                keys.push(as_prefix_key(r.as_str()));
            },
            None => {},
        }
        assert(string_views(keys@) =~= k3 + opt_prefix_list(opt_view(self.controllers_runtime)));
        keys
    }
}

/// `key` with a trailing `/`, added where it has none.
pub fn as_prefix_key(key: &str) -> (r: String)
    ensures
        r@ == prefix_key_seq(key@),
{
    let slash = "/";
    proof {
        reveal_strlit("/");
        assert(slash@ =~= seq!['/']);
        assert(key@ + slash@ =~= key@.push('/'));
    }
    if ends_with(key, slash) {
        String::from_str(key)
    } else {
        let mut r = String::from_str(key);
        r.append(slash);
        r
    }
}

/// The image that a controller deployment runs when it names none.
pub fn default_image() -> (r: String)
    ensures
        r@ == "hummingbot/hummingbot:latest"@,
{
    String::from_str("hummingbot/hummingbot:latest")
}

/// A request to deploy a strategy onto a warm bot.
pub struct OrchestrationRequest {
    pub request_id: String,
    pub instance_name: String,
    pub strategy_type: String,
    pub strategy_name: String,
    pub credentials_profile: String,
    pub script_config: Option<String>,
    pub controllers_config: Vec<String>,
    pub r2: OrchestrationR2,
    pub deployment_config: JsonValue,
}

/// A request to stop the strategy that a bot runs.
#[derive(Clone, Debug)]
pub struct StopBotAction {
    pub bot_name: String,
    pub skip_order_cancellation: bool,
    pub async_backend: bool,
}

/// The answer to a manual controller deployment.
#[derive(Clone, Debug)]
pub struct DeployResponse {
    pub success: bool,
    pub message: String,
    pub bot_name: String,
    pub unique_instance_name: String,
    pub script_config_generated: String,
    pub controllers_deployed: Vec<String>,
}

/// The files that a deployment placed in a bot's folder.
#[derive(Clone, Debug)]
pub struct DeploymentFiles {
    pub script_config_name: String,
    pub controllers: Vec<String>,
}

} // verus!
