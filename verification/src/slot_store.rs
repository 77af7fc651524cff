//! The warm pool: one slot per bot, kept in order of bot name.
use vstd::prelude::*;

use crate::text::{
    lemma_seq_less_order, lemma_seq_less_transitive, opt_view, seq_less, str_equal, str_less,
    string_views,
};
use crate::clock::utc_now_nanos;
use crate::types::{fresh_slot, SlotState, SlotStatus, SlotView};

verus! {

/// Every slot comes before the slots after it in name order; so no name occurs twice.
pub open spec fn names_sorted(s: Seq<SlotView>) -> bool {
    forall|i: int, j: int| 0 <= i < j < s.len() ==> seq_less(s[i].bot_name, s[j].bot_name)
}

/// The pool holds a slot for `name`.
pub open spec fn has_slot(s: Seq<SlotView>, name: Seq<char>) -> bool {
    exists|i: int| 0 <= i < s.len() && s[i].bot_name == name
}

/// The pool with `f` applied to the slot named `name`, and every other slot as it was.
pub open spec fn update_named(
    s: Seq<SlotView>,
    name: Seq<char>,
    f: spec_fn(SlotView) -> SlotView,
) -> Seq<SlotView> {
    s.map_values(|v: SlotView| if v.bot_name == name { f(v) } else { v })
}

/// The slot set to `status`.
pub open spec fn with_status(v: SlotView, status: SlotStatus, now: i64) -> SlotView {
    SlotView { status, updated_at: now, ..v }
}

/// The slot marked failed with `error`.
pub open spec fn with_error(v: SlotView, error: Seq<char>, now: i64) -> SlotView {
    SlotView { status: SlotStatus::Error, last_error: Some(error), updated_at: now, ..v }
}

/// The slot given a deployment, in `status`.
pub open spec fn with_assignment(
    v: SlotView,
    status: SlotStatus,
    instance_name: Option<Seq<char>>,
    account_name: Seq<char>,
    config_name: Option<Seq<char>>,
    controllers: Seq<Seq<char>>,
    now: i64,
) -> SlotView {
    SlotView {
        status,
        assigned_instance_name: instance_name,
        account_name: Some(account_name),
        current_config_name: config_name,
        current_controller_ids: controllers,
        last_error: None,
        updated_at: now,
        ..v
    }
}

/// The slot idle again, with no deployment.
pub open spec fn released(v: SlotView, now: i64) -> SlotView {
    SlotView {
        status: SlotStatus::Idle,
        assigned_instance_name: None,
        account_name: None,
        current_config_name: None,
        current_controller_ids: Seq::empty(),
        last_error: None,
        updated_at: now,
        ..v
    }
}

/// The slot taken for a deployment.
pub open spec fn reserved(v: SlotView, now: i64) -> SlotView {
    SlotView { status: SlotStatus::Reserved, last_error: None, updated_at: now, ..v }
}

/// The slot after a heartbeat: an offline or bootstrapping bot is running again if it had
/// a deployment, idle if not.
pub open spec fn beat(v: SlotView, now: i64) -> SlotView {
    SlotView {
        last_heartbeat: Some(now),
        status: if v.status == SlotStatus::Offline || v.status == SlotStatus::Bootstrapping {
            if v.assigned_instance_name is Some {
                SlotStatus::Running
            } else {
                SlotStatus::Idle
            }
        } else {
            v.status
        },
        updated_at: now,
        ..v
    }
}

/// A slot whose status the heartbeat reaper leaves alone.
pub open spec fn reaper_exempt(status: SlotStatus) -> bool {
    status == SlotStatus::Reserved || status == SlotStatus::Configuring || status
        == SlotStatus::Stopping
}

/// No heartbeat was seen, or the last one is more than `timeout_secs` old.
pub open spec fn is_stale(last_heartbeat: Option<i64>, timeout_secs: u64, now: i64) -> bool {
    match last_heartbeat {
        Some(seen) => now - seen > timeout_secs * 1_000_000_000,
        None => true,
    }
}

/// The slot after the heartbeat reaper has looked at it.
pub open spec fn reaped(v: SlotView, timeout_secs: u64, now: i64) -> SlotView {
    if !reaper_exempt(v.status) && is_stale(v.last_heartbeat, timeout_secs, now) {
        SlotView { status: SlotStatus::Offline, updated_at: now, ..v }
    } else {
        v
    }
}

/// `i` is the first idle slot.
pub open spec fn is_first_idle(s: Seq<SlotView>, i: int) -> bool {
    0 <= i < s.len() && s[i].status == SlotStatus::Idle && forall|j: int|
        0 <= j < i ==> s[j].status != SlotStatus::Idle
}

/// Slots in name order are slots in order; two slots never share a name.
pub proof fn lemma_sorted_distinct(s: Seq<SlotView>, i: int, j: int)
    requires
        names_sorted(s),
        0 <= i < s.len(),
        0 <= j < s.len(),
        i != j,
    ensures
        s[i].bot_name != s[j].bot_name,
{
    if i < j {
        lemma_seq_less_order(s[i].bot_name, s[j].bot_name);
    } else {
        lemma_seq_less_order(s[j].bot_name, s[i].bot_name);
    }
}

/// Changing the slot at `i`, which is the slot named `name`, changes that slot only.
pub proof fn lemma_update_at(s: Seq<SlotView>, i: int, f: spec_fn(SlotView) -> SlotView)
    requires
        names_sorted(s),
        0 <= i < s.len(),
        forall|v: SlotView| #[trigger] f(v).bot_name == v.bot_name,
    ensures
        update_named(s, s[i].bot_name, f) == s.update(i, f(s[i])),
        names_sorted(s.update(i, f(s[i]))),
{
    assert forall|j: int| 0 <= j < s.len() && j != i implies s[j].bot_name != s[i].bot_name by {
        lemma_sorted_distinct(s, i, j);
    }
    assert(update_named(s, s[i].bot_name, f) =~= s.update(i, f(s[i])));
    assert(f(s[i]).bot_name == s[i].bot_name);
}

/// Replacing a slot by one of the same name keeps the set of names.
pub proof fn lemma_has_slot_update(s: Seq<SlotView>, k: int, x: SlotView)
    requires
        0 <= k < s.len(),
        s[k].bot_name == x.bot_name,
    ensures
        forall|n: Seq<char>| has_slot(s.update(k, x), n) <==> has_slot(s, n),
{
    assert forall|n: Seq<char>| has_slot(s.update(k, x), n) <==> has_slot(s, n) by {
        if has_slot(s.update(k, x), n) {
            let j = choose|j: int| 0 <= j < s.len() && s.update(k, x)[j].bot_name == n;
            assert(s[j].bot_name == n);
        }
        if has_slot(s, n) {
            let j = choose|j: int| 0 <= j < s.len() && s[j].bot_name == n;
            assert(s.update(k, x)[j].bot_name == n);
        }
    }
}

/// Inserting a slot adds its name to the set of names.
pub proof fn lemma_has_slot_insert(s: Seq<SlotView>, p: int, x: SlotView)
    requires
        0 <= p <= s.len(),
    ensures
        forall|n: Seq<char>| has_slot(s.insert(p, x), n) <==> (has_slot(s, n) || n == x.bot_name),
{
    assert forall|n: Seq<char>| has_slot(s.insert(p, x), n) <==> (has_slot(s, n) || n
        == x.bot_name) by {
        let t = s.insert(p, x);
        if has_slot(t, n) {
            let j = choose|j: int| 0 <= j < t.len() && t[j].bot_name == n;
            if j < p {
                assert(s[j].bot_name == n);
            } else if j > p {
                assert(s[j - 1].bot_name == n);
            }
        }
        if has_slot(s, n) {
            let j = choose|j: int| 0 <= j < s.len() && s[j].bot_name == n;
            if j < p {
                assert(t[j].bot_name == n);
            } else {
                assert(t[j + 1].bot_name == n);
            }
        }
        if n == x.bot_name {
            assert(t[p].bot_name == n);
        }
    }
}

/// A pool without the slot `name` is left as it is by any change to that slot.
pub proof fn lemma_update_absent(s: Seq<SlotView>, name: Seq<char>, f: spec_fn(SlotView) -> SlotView)
    requires
        !has_slot(s, name),
    ensures
        update_named(s, name, f) == s,
{
    assert forall|j: int| 0 <= j < s.len() implies s[j].bot_name != name by {
        if s[j].bot_name == name {
            assert(has_slot(s, name));
        }
    }
    assert(update_named(s, name, f) =~= s);
}

/// In a pool in name order, the first idle slot has the least name of all idle slots.
pub proof fn law_first_idle_is_least(s: Seq<SlotView>, i: int)
    requires
        names_sorted(s),
        is_first_idle(s, i),
    ensures
        forall|j: int|
            0 <= j < s.len() && j != i && #[trigger] s[j].status == SlotStatus::Idle ==> seq_less(
                s[i].bot_name,
                s[j].bot_name,
            ),
{
}

/// A heartbeat records when the bot was heard and revives a silent bot: one that was
/// offline or bootstrapping runs again where it still holds a deployment, and is idle
/// where it holds none. A bot in any other state keeps it. Nothing else of the slot but
/// its update time changes.
pub proof fn law_heartbeat_revives(v: SlotView, now: i64)
    ensures
        beat(v, now).last_heartbeat == Some(now),
        beat(v, now).updated_at == now,
        (v.status == SlotStatus::Offline || v.status == SlotStatus::Bootstrapping)
            && v.assigned_instance_name is Some ==> beat(v, now).status == SlotStatus::Running,
        (v.status == SlotStatus::Offline || v.status == SlotStatus::Bootstrapping)
            && v.assigned_instance_name is None ==> beat(v, now).status == SlotStatus::Idle,
        v.status != SlotStatus::Offline && v.status != SlotStatus::Bootstrapping ==> beat(
            v,
            now,
        ).status == v.status,
        beat(v, now).bot_name == v.bot_name,
        beat(v, now).assigned_instance_name == v.assigned_instance_name,
        beat(v, now).account_name == v.account_name,
        beat(v, now).current_config_name == v.current_config_name,
        beat(v, now).current_controller_ids == v.current_controller_ids,
        beat(v, now).last_error == v.last_error,
{
}

/// The reaper spares exactly the reserved, configuring and stopping slots. Any other slot,
/// a running one included, that was never heard or was last heard more than
/// `timeout_secs` seconds (in nanoseconds) before `now` goes offline, stamped `now`; every
/// other slot stays as it was.
pub proof fn law_reaper_marks_silent_bots_offline(v: SlotView, timeout_secs: u64, now: i64)
    ensures
        v.status == SlotStatus::Reserved || v.status == SlotStatus::Configuring || v.status
            == SlotStatus::Stopping ==> reaped(v, timeout_secs, now) == v,
        v.status != SlotStatus::Reserved && v.status != SlotStatus::Configuring && v.status
            != SlotStatus::Stopping && (match v.last_heartbeat {
            Some(seen) => now - seen > timeout_secs * 1_000_000_000,
            None => true,
        }) ==> reaped(v, timeout_secs, now) == (SlotView {
            status: SlotStatus::Offline,
            updated_at: now,
            ..v
        }),
        (match v.last_heartbeat {
            Some(seen) => now - seen <= timeout_secs * 1_000_000_000,
            None => false,
        }) ==> reaped(v, timeout_secs, now) == v,
{
}

/// A slot handed out by a reservation is not handed out by the next one: after the first
/// idle slot is reserved, the first idle slot of the new pool, if any, has another name.
pub proof fn law_reservation_is_exclusive(s: Seq<SlotView>, i: int, now: i64, j: int)
    requires
        names_sorted(s),
        is_first_idle(s, i),
        is_first_idle(s.update(i, reserved(s[i], now)), j),
    ensures
        s.update(i, reserved(s[i], now))[j].bot_name != s[i].bot_name,
{
    if j != i {
        lemma_sorted_distinct(s, i, j);
    }
}

/// Releasing a slot forgets its deployment: assigning a deployment and then releasing the
/// slot leaves the pool as releasing it alone would.
pub proof fn law_release_undoes_assignment(
    s: Seq<SlotView>,
    name: Seq<char>,
    status: SlotStatus,
    instance_name: Option<Seq<char>>,
    account_name: Seq<char>,
    config_name: Option<Seq<char>>,
    controllers: Seq<Seq<char>>,
    assigned_at: i64,
    now: i64,
)
    ensures
        update_named(
            update_named(
                s,
                name,
                |v: SlotView|
                    with_assignment(
                        v,
                        status,
                        instance_name,
                        account_name,
                        config_name,
                        controllers,
                        assigned_at,
                    ),
            ),
            name,
            |v: SlotView| released(v, now),
        ) == update_named(s, name, |v: SlotView| released(v, now)),
{
    let assigned = update_named(
        s,
        name,
        |v: SlotView|
            with_assignment(
                v,
                status,
                instance_name,
                account_name,
                config_name,
                controllers,
                assigned_at,
            ),
    );
    assert(update_named(assigned, name, |v: SlotView| released(v, now)) =~= update_named(
        s,
        name,
        |v: SlotView| released(v, now),
    ));
}

/// A change to one named slot that keeps slot names keeps the pool's names and their order.
pub proof fn law_update_keeps_names(
    s: Seq<SlotView>,
    name: Seq<char>,
    f: spec_fn(SlotView) -> SlotView,
)
    requires
        forall|v: SlotView| #[trigger] f(v).bot_name == v.bot_name,
    ensures
        update_named(s, name, f).len() == s.len(),
        forall|i: int|
            0 <= i < s.len() ==> #[trigger] update_named(s, name, f)[i].bot_name == s[i].bot_name,
        names_sorted(s) ==> names_sorted(update_named(s, name, f)),
{
    assert forall|i: int| 0 <= i < s.len() implies #[trigger] update_named(s, name, f)[i].bot_name
        == s[i].bot_name by {
        assert(f(s[i]).bot_name == s[i].bot_name);
    }
}

/// The heartbeat reaper never changes a slot's name, never touches a slot that is
/// reserved, being configured or stopping, and only ever sets a slot offline.
pub proof fn law_reaper_scope(v: SlotView, timeout_secs: u64, now: i64)
    ensures
        reaped(v, timeout_secs, now).bot_name == v.bot_name,
        reaper_exempt(v.status) ==> reaped(v, timeout_secs, now) == v,
        reaped(v, timeout_secs, now) == v || reaped(v, timeout_secs, now).status
            == SlotStatus::Offline,
{
}

/// A bot whose heartbeat has just been recorded is not reaped at that moment.
pub proof fn law_fresh_heartbeat_survives_reaper(v: SlotView, timeout_secs: u64, now: i64)
    ensures
        reaped(beat(v, now), timeout_secs, now) == beat(v, now),
{
}

/// The slots of the warm pool; kept in name order by every change.
struct SlotList {
    slots: Vec<SlotState>,
}

impl View for SlotList {
    type V = Seq<SlotView>;

    closed spec fn view(&self) -> Seq<SlotView> {
        self.slots@.map_values(|s: SlotState| s@)
    }
}

impl SlotList {
    /// The slots are kept in name order.
    spec fn wf(&self) -> bool {
        names_sorted(self@)
    }

    /// Where the slot named `name` is, or where it would go.
    fn locate(&self, name: &str) -> (r: Result<usize, usize>)
        requires
            self.wf(),
        ensures
            match r {
                Ok(i) => i < self@.len() && self@[i as int].bot_name == name@,
                Err(p) => p <= self@.len() && !has_slot(self@, name@) && (forall|j: int|
                    0 <= j < p ==> seq_less(self@[j].bot_name, name@)) && (forall|j: int|
                    p <= j < self@.len() ==> seq_less(name@, self@[j].bot_name)),
            },
    {
        let mut i: usize = 0;
        while i < self.slots.len() && str_less(self.slots[i].bot_name.as_str(), name)
            invariant
                i <= self.slots.len(),
                self@.len() == self.slots.len(),
                forall|k: int| 0 <= k < self@.len() ==> #[trigger] self@[k] == self.slots@[k]@,
                forall|j: int| 0 <= j < i ==> seq_less(self@[j].bot_name, name@),
            decreases self.slots.len() - i,
        {
            i += 1;
        }
        if i < self.slots.len() && str_equal(self.slots[i].bot_name.as_str(), name) {
            return Ok(i);
        }
        proof {
            if i < self@.len() {
                lemma_seq_less_order(self@[i as int].bot_name, name@);
                assert(seq_less(name@, self@[i as int].bot_name));
                assert forall|j: int| i <= j < self@.len() implies seq_less(
                    name@,
                    self@[j].bot_name,
                ) by {
                    if j > i {
                        lemma_seq_less_transitive(
                            name@,
                            self@[i as int].bot_name,
                            self@[j].bot_name,
                        );
                    }
                }
            }
            assert forall|j: int| 0 <= j < self@.len() implies self@[j].bot_name != name@ by {
                if j < i {
                    lemma_seq_less_order(self@[j].bot_name, name@);
                } else {
                    lemma_seq_less_order(name@, self@[j].bot_name);
                }
            }
        }
        Err(i)
    }

    /// Puts `slot` at position `p`, where it keeps the name order.
    fn insert_at(&mut self, p: usize, slot: SlotState)
        requires
            old(self).wf(),
            p <= old(self)@.len(),
            forall|j: int| 0 <= j < p ==> seq_less(old(self)@[j].bot_name, slot.bot_name@),
            forall|j: int|
                p <= j < old(self)@.len() ==> seq_less(slot.bot_name@, old(self)@[j].bot_name),
        ensures
            final(self).wf(),
            final(self)@ == old(self)@.insert(p as int, slot@),
    {
        let ghost before = self@;
        let ghost x = slot@;
        self.slots.insert(p, slot);
        assert(self@ =~= before.insert(p as int, x));
        assert forall|i: int, j: int| 0 <= i < j < self@.len() implies seq_less(
            self@[i].bot_name,
            self@[j].bot_name,
        ) by {
            if i < p && j == p {
            } else if i < p && j > p {
                assert(self@[j] == before[j - 1]);
            } else if i == p && j > p {
                assert(self@[j] == before[j - 1]);
            } else if i > p {
                assert(self@[i] == before[i - 1]);
                assert(self@[j] == before[j - 1]);
            }
        }
    }

    /// Replaces the slot at `i` by `slot`, which has the same name.
    fn replace_at(&mut self, i: usize, slot: SlotState)
        requires
            old(self).wf(),
            i < old(self)@.len(),
            slot.bot_name@ == old(self)@[i as int].bot_name,
        ensures
            final(self).wf(),
            final(self)@ == old(self)@.update(i as int, slot@),
    {
        let ghost before = self@;
        let ghost x = slot@;
        self.slots.set(i, slot);
        assert(self@ =~= before.update(i as int, x));
    }

    /// A pool with an offline slot for each name, stamped with `now`.
    fn new_at(bot_names: Vec<String>, now: i64) -> (store: SlotList)
        ensures
            store.wf(),
            forall|n: Seq<char>| has_slot(store@, n) <==> string_views(bot_names@).contains(n),
            forall|i: int|
                0 <= i < store@.len() ==> store@[i] == fresh_slot(store@[i].bot_name, now),
    {
        let mut store = SlotList { slots: Vec::new() };
        let mut names = bot_names;
        let ghost all = string_views(names@);
        let mut i: usize = 0;
        assert(store@ =~= Seq::<SlotView>::empty());
        while i < names.len()
            invariant
                i <= names.len(),
                all == string_views(names@),
                store.wf(),
                forall|n: Seq<char>| has_slot(store@, n) <==> all.take(i as int).contains(n),
                forall|k: int|
                    0 <= k < store@.len() ==> store@[k] == fresh_slot(store@[k].bot_name, now),
            decreases names.len() - i,
        {
            let name = names[i].clone();
            let ghost before = store@;
            let slot = SlotState::new_at(name, now);
            let ghost x_name = slot.bot_name@;
            match store.locate(slot.bot_name.as_str()) {
                Ok(k) => {
                    let ghost x = slot@;
                    store.replace_at(k, slot);
                    proof {
                        lemma_has_slot_update(before, k as int, x);
                        assert(before[k as int].bot_name == x_name);
                        assert(has_slot(before, x_name));
                    }
                },
                Err(p) => {
                    let ghost x = slot@;
                    store.insert_at(p, slot);
                    proof {
                        lemma_has_slot_insert(before, p as int, x);
                    }
                },
            }
            proof {
                assert(all[i as int] == x_name);
                let t1 = all.take(i + 1);
                let t0 = all.take(i as int);
                assert forall|n: Seq<char>| t1.contains(n) <==> (t0.contains(n) || n == x_name) by {
                    if t1.contains(n) {
                        let k = choose|k: int| 0 <= k < t1.len() && t1[k] == n;
                        if k < i {
                            assert(t0[k] == n);
                        }
                    }
                    if t0.contains(n) {
                        let k = choose|k: int| 0 <= k < t0.len() && t0[k] == n;
                        assert(t1[k] == n);
                    }
                    if n == x_name {
                        assert(t1[i as int] == n);
                    }
                }
                assert forall|n: Seq<char>| has_slot(store@, n) <==> t1.contains(n) by {
                    assert(has_slot(store@, n) <==> (has_slot(before, n) || n == x_name));
                    assert(has_slot(before, n) <==> t0.contains(n));
                    assert(t1.contains(n) <==> (t0.contains(n) || n == x_name));
                }
            }
            i += 1;
        }
        assert(all.take(names.len() as int) =~= all);
        store
    }

    /// Applies a change that keeps the name to the slot at `i`.
    fn change_at(&mut self, i: usize, slot: SlotState, Ghost(f): Ghost<spec_fn(SlotView) -> SlotView>)
        requires
            old(self).wf(),
            i < old(self)@.len(),
            slot@ == f(old(self)@[i as int]),
            forall|v: SlotView| #[trigger] f(v).bot_name == v.bot_name,
        ensures
            final(self).wf(),
            final(self)@ == update_named(old(self)@, old(self)@[i as int].bot_name, f),
    {
        proof {
            lemma_update_at(self@, i as int, f);
            assert(f(self@[i as int]).bot_name == self@[i as int].bot_name);
        }
        self.replace_at(i, slot);
    }

    /// Sets the status of the slot `bot_name`, if there is one.
    fn mark_status_at(&mut self, bot_name: &str, status: SlotStatus, now: i64)
        requires
            old(self).wf(),
        ensures
            final(self).wf(),
            final(self)@ == update_named(
                old(self)@,
                bot_name@,
                |v: SlotView| with_status(v, status, now),
            ),
    {
        let ghost f = |v: SlotView| with_status(v, status, now);
        match self.locate(bot_name) {
            Ok(i) => {
                let mut slot = self.slots[i].duplicate();
                slot.status = status;
                slot.updated_at = now;
                self.change_at(i, slot, Ghost(f));
            },
            Err(_) => {
                proof {
                    lemma_update_absent(self@, bot_name@, f);
                }
            },
        }
    }

    /// Marks the slot `bot_name` failed with `error`, if there is one.
    fn mark_error_at(&mut self, bot_name: &str, error: String, now: i64)
        requires
            old(self).wf(),
        ensures
            final(self).wf(),
            final(self)@ == update_named(
                old(self)@,
                bot_name@,
                |v: SlotView| with_error(v, error@, now),
            ),
    {
        let ghost f = |v: SlotView| with_error(v, error@, now);
        match self.locate(bot_name) {
            Ok(i) => {
                let mut slot = self.slots[i].duplicate();
                slot.status = SlotStatus::Error;
                slot.last_error = Some(error);
                slot.updated_at = now;
                self.change_at(i, slot, Ghost(f));
            },
            Err(_) => {
                proof {
                    lemma_update_absent(self@, bot_name@, f);
                }
            },
        }
    }

    /// Gives the slot `bot_name` a deployment in `status`, if there is such a slot.
    fn assign_at(
        &mut self,
        bot_name: &str,
        status: SlotStatus,
        instance_name: Option<String>,
        account_name: String,
        config_name: Option<String>,
        controllers: Vec<String>,
        now: i64,
    )
        requires
            old(self).wf(),
        ensures
            final(self).wf(),
            final(self)@ == update_named(
                old(self)@,
                bot_name@,
                |v: SlotView|
                    with_assignment(
                        v,
                        status,
                        opt_view(instance_name),
                        account_name@,
                        opt_view(config_name),
                        string_views(controllers@),
                        now,
                    ),
            ),
    {
        let ghost f = |v: SlotView|
            with_assignment(
                v,
                status,
                opt_view(instance_name),
                account_name@,
                opt_view(config_name),
                string_views(controllers@),
                now,
            );
        match self.locate(bot_name) {
            Ok(i) => {
                let mut slot = self.slots[i].duplicate();
                slot.status = status;
                slot.assigned_instance_name = instance_name;
                slot.account_name = Some(account_name);
                slot.current_config_name = config_name;
                slot.current_controller_ids = controllers;
                slot.last_error = None;
                slot.updated_at = now;
                self.change_at(i, slot, Ghost(f));
            },
            Err(_) => {
                proof {
                    lemma_update_absent(self@, bot_name@, f);
                }
            },
        }
    }

    /// Records that the slot `bot_name` runs a deployment.
    fn assign_running_at(
        &mut self,
        bot_name: &str,
        instance_name: Option<String>,
        account_name: String,
        config_name: Option<String>,
        controllers: Vec<String>,
        now: i64,
    )
        requires
            old(self).wf(),
        ensures
            final(self).wf(),
            final(self)@ == update_named(
                old(self)@,
                bot_name@,
                |v: SlotView|
                    with_assignment(
                        v,
                        SlotStatus::Running,
                        opt_view(instance_name),
                        account_name@,
                        opt_view(config_name),
                        string_views(controllers@),
                        now,
                    ),
            ),
    {
        self.assign_at(
            bot_name,
            SlotStatus::Running,
            instance_name,
            account_name,
            config_name,
            controllers,
            now,
        );
    }

    /// Records that the slot `bot_name` is being configured for a deployment.
    fn assign_configuring_at(
        &mut self,
        bot_name: &str,
        instance_name: Option<String>,
        account_name: String,
        config_name: Option<String>,
        controllers: Vec<String>,
        now: i64,
    )
        requires
            old(self).wf(),
        ensures
            final(self).wf(),
            final(self)@ == update_named(
                old(self)@,
                bot_name@,
                |v: SlotView|
                    with_assignment(
                        v,
                        SlotStatus::Configuring,
                        opt_view(instance_name),
                        account_name@,
                        opt_view(config_name),
                        string_views(controllers@),
                        now,
                    ),
            ),
    {
        self.assign_at(
            bot_name,
            SlotStatus::Configuring,
            instance_name,
            account_name,
            config_name,
            controllers,
            now,
        );
    }

    /// Returns the slot `bot_name` to idle, dropping its deployment.
    fn release_idle_at(&mut self, bot_name: &str, now: i64)
        requires
            old(self).wf(),
        ensures
            final(self).wf(),
            final(self)@ == update_named(old(self)@, bot_name@, |v: SlotView| released(v, now)),
    {
        let ghost f = |v: SlotView| released(v, now);
        match self.locate(bot_name) {
            Ok(i) => {
                let mut slot = self.slots[i].duplicate();
                slot.status = SlotStatus::Idle;
                slot.assigned_instance_name = None;
                slot.account_name = None;
                slot.current_config_name = None;
                slot.current_controller_ids = Vec::new();
                slot.last_error = None;
                slot.updated_at = now;
                assert(slot@.current_controller_ids =~= Seq::<Seq<char>>::empty());
                self.change_at(i, slot, Ghost(f));
            },
            Err(_) => {
                proof {
                    lemma_update_absent(self@, bot_name@, f);
                }
            },
        }
    }

    /// Takes the first idle slot in name order for a deployment and returns it.
    fn reserve_idle_at(&mut self, now: i64) -> (r: Option<SlotState>)
        requires
            old(self).wf(),
        ensures
            final(self).wf(),
            match r {
                Some(slot) => exists|i: int|
                    is_first_idle(old(self)@, i) && final(self)@ == old(self)@.update(
                        i,
                        reserved(old(self)@[i], now),
                    ) && slot@ == final(self)@[i],
                None => (forall|i: int|
                    0 <= i < old(self)@.len() ==> old(self)@[i].status != SlotStatus::Idle)
                    && final(self)@ == old(self)@,
            },
    {
        let ghost start = self@;
        let mut i: usize = 0;
        while i < self.slots.len()
            invariant
                i <= self.slots.len(),
                self.wf(),
                self@ == start,
                start == old(self)@,
                self@.len() == self.slots.len(),
                forall|k: int| 0 <= k < self@.len() ==> #[trigger] self@[k] == self.slots@[k]@,
                forall|j: int| 0 <= j < i ==> self@[j].status != SlotStatus::Idle,
            decreases self.slots.len() - i,
        {
            if self.slots[i].status == SlotStatus::Idle {
                assert(self@[i as int] == self.slots@[i as int]@);
                let mut slot = self.slots[i].duplicate();
                slot.status = SlotStatus::Reserved;
                slot.last_error = None;
                slot.updated_at = now;
                assert(slot@ == reserved(start[i as int], now));
                let result = slot.duplicate();
                self.replace_at(i, slot);
                assert(is_first_idle(start, i as int));
                assert(self@ == start.update(i as int, reserved(start[i as int], now)));
                assert(result@ == self@[i as int]);
                return Some(result);
            }
            i += 1;
        }
        None
    }

    /// Records a heartbeat from `bot_name`, adding a slot for a bot not seen before.
    fn mark_heartbeat_at(&mut self, bot_name: &str, now: i64)
        requires
            old(self).wf(),
        ensures
            final(self).wf(),
            has_slot(old(self)@, bot_name@) ==> final(self)@ == update_named(
                old(self)@,
                bot_name@,
                |v: SlotView| beat(v, now),
            ),
            !has_slot(old(self)@, bot_name@) ==> exists|p: int|
                0 <= p <= old(self)@.len() && final(self)@ == old(self)@.insert(
                    p,
                    beat(fresh_slot(bot_name@, now), now),
                ),
    {
        let ghost f = |v: SlotView| beat(v, now);
        match self.locate(bot_name) {
            Ok(i) => {
                let mut slot = self.slots[i].duplicate();
                slot.last_heartbeat = Some(now);
                if slot.status == SlotStatus::Offline || slot.status == SlotStatus::Bootstrapping {
                    slot.status = if slot.assigned_instance_name.is_some() {
                        SlotStatus::Running
                    } else {
                        SlotStatus::Idle
                    };
                }
                slot.updated_at = now;
                self.change_at(i, slot, Ghost(f));
            },
            Err(p) => {
                let mut slot = SlotState::new_at(String::from_str(bot_name), now);
                slot.last_heartbeat = Some(now);
                slot.status = SlotStatus::Idle;
                slot.updated_at = now;
                self.insert_at(p, slot);
            },
        }
    }

    /// Marks offline every slot whose bot has been silent for more than `timeout_secs`,
    /// except slots that are reserved, being configured, or stopping.
    fn mark_stale_offline_at(&mut self, timeout_secs: u64, now: i64)
        requires
            old(self).wf(),
        ensures
            final(self).wf(),
            final(self)@ == old(self)@.map_values(|v: SlotView| reaped(v, timeout_secs, now)),
    {
        let ghost start = self@;
        let mut i: usize = 0;
        while i < self.slots.len()
            invariant
                i <= self.slots.len(),
                self.wf(),
                self@.len() == start.len(),
                forall|k: int| 0 <= k < i ==> self@[k] == reaped(start[k], timeout_secs, now),
                forall|k: int| i <= k < self@.len() ==> self@[k] == start[k],
            decreases self.slots.len() - i,
        {
            let status = self.slots[i].status;
            if !(status == SlotStatus::Reserved || status == SlotStatus::Configuring || status
                == SlotStatus::Stopping) {
                let stale = match self.slots[i].last_heartbeat {
                    Some(seen) => (now as i128) - (seen as i128) > (timeout_secs as i128) * 1_000_000_000,
                    None => true,
                };
                if stale {
                    let ghost before = self@;
                    let mut slot = self.slots[i].duplicate();
                    slot.status = SlotStatus::Offline;
                    slot.updated_at = now;
                    self.replace_at(i, slot);
                }
            }
            i += 1;
        }
        assert(self@ =~= start.map_values(|v: SlotView| reaped(v, timeout_secs, now)));
    }

    /// A copy of the slot `bot_name`.
    fn get(&self, bot_name: &str) -> (r: Option<SlotState>)
        requires
            self.wf(),
        ensures
            match r {
                Some(slot) => exists|i: int|
                    0 <= i < self@.len() && self@[i].bot_name == bot_name@ && slot@ == self@[i],
                None => !has_slot(self@, bot_name@),
            },
    {
        match self.locate(bot_name) {
            Ok(i) => Some(self.slots[i].duplicate()),
            Err(_) => None,
        }
    }

    /// Copies of every slot, in name order.
    fn list(&self) -> (r: Vec<SlotState>)
        ensures
            r@.map_values(|s: SlotState| s@) == self@,
    {
        let mut r: Vec<SlotState> = Vec::new();
        let mut i: usize = 0;
        while i < self.slots.len()
            invariant
                i <= self.slots.len(),
                r@.map_values(|s: SlotState| s@) == self@.take(i as int),
            decreases self.slots.len() - i,
        {
            let ghost before = r@;
            let copy = self.slots[i].duplicate();
            let ghost x = copy@;
            r.push(copy);
            assert(r@ =~= before.push(copy));
            assert(x == self@[i as int]);
            assert(r@.map_values(|s: SlotState| s@) =~= before.map_values(|s: SlotState| s@).push(
                x,
            ));
            assert(self@.take(i + 1) =~= self@.take(i as int).push(self@[i as int]));
            i += 1;
        }
        assert(self@.take(self.slots.len() as int) =~= self@);
        r
    }

    /// A copy of the first slot, in name order, that runs the deployment `instance_name`.
    fn find_by_instance(&self, instance_name: &str) -> (r: Option<SlotState>)
        ensures
            match r {
                Some(slot) => exists|i: int|
                    0 <= i < self@.len() && self@[i].assigned_instance_name == Some(
                        instance_name@,
                    ) && slot@ == self@[i] && forall|j: int|
                        0 <= j < i ==> self@[j].assigned_instance_name != Some(instance_name@),
                None => forall|i: int|
                    0 <= i < self@.len() ==> self@[i].assigned_instance_name != Some(
                        instance_name@,
                    ),
            },
    {
        let mut i: usize = 0;
        while i < self.slots.len()
            invariant
                i <= self.slots.len(),
                self@.len() == self.slots.len(),
                forall|k: int| 0 <= k < self@.len() ==> #[trigger] self@[k] == self.slots@[k]@,
                forall|j: int|
                    0 <= j < i ==> self@[j].assigned_instance_name != Some(instance_name@),
            decreases self.slots.len() - i,
        {
            let found = match &self.slots[i].assigned_instance_name {
                Some(name) => str_equal(name.as_str(), instance_name),
                None => false,
            };
            if found {
                assert(self@[i as int] == self.slots@[i as int]@);
                return Some(self.slots[i].duplicate());
            }
            i += 1;
        }
        None
    }
}

/// The slots of the warm pool, kept in name order.
pub struct SlotStore {
    inner: SlotList,
}

impl View for SlotStore {
    type V = Seq<SlotView>;

    closed spec fn view(&self) -> Seq<SlotView> {
        self.inner@
    }
}

impl SlotStore {
    #[verifier::type_invariant]
    spec fn sorted(&self) -> bool {
        self.inner.wf()
    }

    /// A pool with an offline slot for each name, stamped with `now`.
    pub fn new_at(bot_names: Vec<String>, now: i64) -> (store: SlotStore)
        ensures
            names_sorted(store@),
            forall|n: Seq<char>| has_slot(store@, n) <==> string_views(bot_names@).contains(n),
            forall|i: int|
                0 <= i < store@.len() ==> store@[i] == fresh_slot(store@[i].bot_name, now),
    {
        SlotStore { inner: SlotList::new_at(bot_names, now) }
    }

    /// Sets the status of the slot `bot_name`, if there is one.
    pub fn mark_status_at(&mut self, bot_name: &str, status: SlotStatus, now: i64)
        ensures
            names_sorted(final(self)@),
            final(self)@ == update_named(
                old(self)@,
                bot_name@,
                |v: SlotView| with_status(v, status, now),
            ),
    {
        proof {
            use_type_invariant(&*self);
        }
        let mut inner = SlotList { slots: Vec::new() };
        assert(inner@ =~= Seq::<SlotView>::empty());
        std::mem::swap(&mut inner, &mut self.inner);
        let r = inner.mark_status_at(bot_name, status, now);
        self.inner = inner;
        r
    }

    /// Marks the slot `bot_name` failed with `error`, if there is one.
    pub fn mark_error_at(&mut self, bot_name: &str, error: String, now: i64)
        ensures
            names_sorted(final(self)@),
            final(self)@ == update_named(
                old(self)@,
                bot_name@,
                |v: SlotView| with_error(v, error@, now),
            ),
    {
        proof {
            use_type_invariant(&*self);
        }
        let mut inner = SlotList { slots: Vec::new() };
        assert(inner@ =~= Seq::<SlotView>::empty());
        std::mem::swap(&mut inner, &mut self.inner);
        let r = inner.mark_error_at(bot_name, error, now);
        self.inner = inner;
        r
    }

    /// Records that the slot `bot_name` runs a deployment.
    pub fn assign_running_at(
        &mut self,
        bot_name: &str,
        instance_name: Option<String>,
        account_name: String,
        config_name: Option<String>,
        controllers: Vec<String>,
        now: i64,
    )
        ensures
            names_sorted(final(self)@),
            final(self)@ == update_named(
                old(self)@,
                bot_name@,
                |v: SlotView|
                    with_assignment(
                        v,
                        SlotStatus::Running,
                        opt_view(instance_name),
                        account_name@,
                        opt_view(config_name),
                        string_views(controllers@),
                        now,
                    ),
            ),
    {
        proof {
            use_type_invariant(&*self);
        }
        let mut inner = SlotList { slots: Vec::new() };
        assert(inner@ =~= Seq::<SlotView>::empty());
        std::mem::swap(&mut inner, &mut self.inner);
        let r = inner.assign_running_at(bot_name, instance_name, account_name, config_name, controllers, now);
        self.inner = inner;
        r
    }

    /// Records that the slot `bot_name` is being configured for a deployment.
    pub fn assign_configuring_at(
        &mut self,
        bot_name: &str,
        instance_name: Option<String>,
        account_name: String,
        config_name: Option<String>,
        controllers: Vec<String>,
        now: i64,
    )
        ensures
            names_sorted(final(self)@),
            final(self)@ == update_named(
                old(self)@,
                bot_name@,
                |v: SlotView|
                    with_assignment(
                        v,
                        SlotStatus::Configuring,
                        opt_view(instance_name),
                        account_name@,
                        opt_view(config_name),
                        string_views(controllers@),
                        now,
                    ),
            ),
    {
        proof {
            use_type_invariant(&*self);
        }
        let mut inner = SlotList { slots: Vec::new() };
        assert(inner@ =~= Seq::<SlotView>::empty());
        std::mem::swap(&mut inner, &mut self.inner);
        let r = inner.assign_configuring_at(bot_name, instance_name, account_name, config_name, controllers, now);
        self.inner = inner;
        r
    }

    /// Returns the slot `bot_name` to idle, dropping its deployment.
    pub fn release_idle_at(&mut self, bot_name: &str, now: i64)
        ensures
            names_sorted(final(self)@),
            final(self)@ == update_named(old(self)@, bot_name@, |v: SlotView| released(v, now)),
    {
        proof {
            use_type_invariant(&*self);
        }
        let mut inner = SlotList { slots: Vec::new() };
        assert(inner@ =~= Seq::<SlotView>::empty());
        std::mem::swap(&mut inner, &mut self.inner);
        let r = inner.release_idle_at(bot_name, now);
        self.inner = inner;
        r
    }

    /// Takes the first idle slot in name order for a deployment and returns it.
    pub fn reserve_idle_at(&mut self, now: i64) -> (r: Option<SlotState>)
        ensures
            names_sorted(final(self)@),
            names_sorted(old(self)@),
            r matches Some(slot) ==> forall|j: int|
                0 <= j < old(self)@.len() && #[trigger] old(self)@[j].status == SlotStatus::Idle
                    ==> old(self)@[j].bot_name == slot.bot_name@ || seq_less(
                    slot.bot_name@,
                    old(self)@[j].bot_name,
                ),
            match r {
                Some(slot) => exists|i: int|
                    is_first_idle(old(self)@, i) && final(self)@ == old(self)@.update(
                        i,
                        reserved(old(self)@[i], now),
                    ) && slot@ == final(self)@[i],
                None => (forall|i: int|
                    0 <= i < old(self)@.len() ==> old(self)@[i].status != SlotStatus::Idle)
                    && final(self)@ == old(self)@,
            },
    {
        proof {
            use_type_invariant(&*self);
        }
        let mut inner = SlotList { slots: Vec::new() };
        assert(inner@ =~= Seq::<SlotView>::empty());
        std::mem::swap(&mut inner, &mut self.inner);
        let r = inner.reserve_idle_at(now);
        self.inner = inner;
        proof {
            if r is Some {
                let i = choose|i: int|
                    is_first_idle(old(self)@, i) && final(self)@ == old(self)@.update(
                        i,
                        reserved(old(self)@[i], now),
                    ) && r->0@ == final(self)@[i];
                law_first_idle_is_least(old(self)@, i);
            }
        }
        r
    }

    /// Records a heartbeat from `bot_name`, adding a slot for a bot not seen before.
    pub fn mark_heartbeat_at(&mut self, bot_name: &str, now: i64)
        ensures
            names_sorted(final(self)@),
            has_slot(old(self)@, bot_name@) ==> final(self)@ == update_named(
                old(self)@,
                bot_name@,
                |v: SlotView| beat(v, now),
            ),
            !has_slot(old(self)@, bot_name@) ==> exists|p: int|
                0 <= p <= old(self)@.len() && final(self)@ == old(self)@.insert(
                    p,
                    beat(fresh_slot(bot_name@, now), now),
                ),
    {
        proof {
            use_type_invariant(&*self);
        }
        let mut inner = SlotList { slots: Vec::new() };
        assert(inner@ =~= Seq::<SlotView>::empty());
        std::mem::swap(&mut inner, &mut self.inner);
        let r = inner.mark_heartbeat_at(bot_name, now);
        self.inner = inner;
        r
    }

    /// Marks offline every slot whose bot has been silent for more than `timeout_secs`,
    /// except slots that are reserved, being configured, or stopping.
    pub fn mark_stale_offline_at(&mut self, timeout_secs: u64, now: i64)
        ensures
            names_sorted(final(self)@),
            final(self)@ == old(self)@.map_values(|v: SlotView| reaped(v, timeout_secs, now)),
    {
        proof {
            use_type_invariant(&*self);
        }
        let mut inner = SlotList { slots: Vec::new() };
        assert(inner@ =~= Seq::<SlotView>::empty());
        std::mem::swap(&mut inner, &mut self.inner);
        let r = inner.mark_stale_offline_at(timeout_secs, now);
        self.inner = inner;
        r
    }

    /// A copy of the slot `bot_name`.
    pub fn get(&self, bot_name: &str) -> (r: Option<SlotState>)
        ensures
            match r {
                Some(slot) => exists|i: int|
                    0 <= i < self@.len() && self@[i].bot_name == bot_name@ && slot@ == self@[i],
                None => !has_slot(self@, bot_name@),
            },
    {
        proof {
            use_type_invariant(self);
        }
        let r = self.inner.get(bot_name);
        assert(self@ == self.inner@);
        r
    }

    /// Copies of every slot, in name order.
    pub fn list(&self) -> (r: Vec<SlotState>)
        ensures
            names_sorted(self@),
            r@.map_values(|s: SlotState| s@) == self@,
    {
        proof {
            use_type_invariant(self);
        }
        self.inner.list()
    }

    /// A copy of the first slot, in name order, that runs the deployment `instance_name`.
    pub fn find_by_instance(&self, instance_name: &str) -> (r: Option<SlotState>)
        ensures
            match r {
                Some(slot) => exists|i: int|
                    0 <= i < self@.len() && self@[i].assigned_instance_name == Some(
                        instance_name@,
                    ) && slot@ == self@[i] && forall|j: int|
                        0 <= j < i ==> self@[j].assigned_instance_name != Some(instance_name@),
                None => forall|i: int|
                    0 <= i < self@.len() ==> self@[i].assigned_instance_name != Some(
                        instance_name@,
                    ),
            },
    {
        proof {
            use_type_invariant(self);
        }
        self.inner.find_by_instance(instance_name)
    }

    /// Sets the status of the slot `bot_name`, stamped with the current time, which it returns.
    pub fn mark_status(&mut self, bot_name: &str, status: SlotStatus) -> (now: i64)
        ensures
            names_sorted(final(self)@),
            final(self)@ == update_named(
                old(self)@,
                bot_name@,
                |v: SlotView| with_status(v, status, now),
            ),
    {
        let now = utc_now_nanos();
        self.mark_status_at(bot_name, status, now);
        now
    }

    /// Marks the slot `bot_name` failed, stamped with the current time.
    pub fn mark_error(&mut self, bot_name: &str, error: String) -> (now: i64)
        ensures
            names_sorted(final(self)@),
            final(self)@ == update_named(
                old(self)@,
                bot_name@,
                |v: SlotView| with_error(v, error@, now),
            ),
    {
        let now = utc_now_nanos();
        self.mark_error_at(bot_name, error, now);
        now
    }

    /// Records that the slot `bot_name` runs a deployment, stamped with the current time.
    pub fn assign_running(
        &mut self,
        bot_name: &str,
        instance_name: Option<String>,
        account_name: String,
        config_name: Option<String>,
        controllers: Vec<String>,
    ) -> (now: i64)
        ensures
            names_sorted(final(self)@),
            final(self)@ == update_named(
                old(self)@,
                bot_name@,
                |v: SlotView|
                    with_assignment(
                        v,
                        SlotStatus::Running,
                        opt_view(instance_name),
                        account_name@,
                        opt_view(config_name),
                        string_views(controllers@),
                        now,
                    ),
            ),
    {
        let now = utc_now_nanos();
        self.assign_running_at(bot_name, instance_name, account_name, config_name, controllers, now);
        now
    }

    /// Records that the slot `bot_name` is being configured, stamped with the current time.
    pub fn assign_configuring(
        &mut self,
        bot_name: &str,
        instance_name: Option<String>,
        account_name: String,
        config_name: Option<String>,
        controllers: Vec<String>,
    ) -> (now: i64)
        ensures
            names_sorted(final(self)@),
            final(self)@ == update_named(
                old(self)@,
                bot_name@,
                |v: SlotView|
                    with_assignment(
                        v,
                        SlotStatus::Configuring,
                        opt_view(instance_name),
                        account_name@,
                        opt_view(config_name),
                        string_views(controllers@),
                        now,
                    ),
            ),
    {
        let now = utc_now_nanos();
        self.assign_configuring_at(
            bot_name,
            instance_name,
            account_name,
            config_name,
            controllers,
            now,
        );
        now
    }

    /// Returns the slot `bot_name` to idle, stamped with the current time.
    pub fn release_idle(&mut self, bot_name: &str) -> (now: i64)
        ensures
            names_sorted(final(self)@),
            final(self)@ == update_named(old(self)@, bot_name@, |v: SlotView| released(v, now)),
    {
        let now = utc_now_nanos();
        self.release_idle_at(bot_name, now);
        now
    }

    /// Takes the first idle slot in name order, stamped with the current time.
    pub fn reserve_idle(&mut self) -> (r: Option<SlotState>)
        ensures
            names_sorted(final(self)@),
            names_sorted(old(self)@),
            r matches Some(slot) ==> forall|j: int|
                0 <= j < old(self)@.len() && #[trigger] old(self)@[j].status == SlotStatus::Idle
                    ==> old(self)@[j].bot_name == slot.bot_name@ || seq_less(
                    slot.bot_name@,
                    old(self)@[j].bot_name,
                ),
            match r {
                Some(slot) => exists|i: int|
                    is_first_idle(old(self)@, i) && final(self)@ == old(self)@.update(
                        i,
                        reserved(old(self)@[i], slot.updated_at),
                    ) && slot@ == final(self)@[i],
                None => (forall|i: int|
                    0 <= i < old(self)@.len() ==> old(self)@[i].status != SlotStatus::Idle)
                    && final(self)@ == old(self)@,
            },
    {
        let now = utc_now_nanos();
        self.reserve_idle_at(now)
    }

    /// Records a heartbeat from `bot_name`, stamped with the current time.
    pub fn mark_heartbeat(&mut self, bot_name: &str) -> (now: i64)
        ensures
            names_sorted(final(self)@),
            has_slot(old(self)@, bot_name@) ==> final(self)@ == update_named(
                old(self)@,
                bot_name@,
                |v: SlotView| beat(v, now),
            ),
            !has_slot(old(self)@, bot_name@) ==> exists|p: int|
                0 <= p <= old(self)@.len() && final(self)@ == old(self)@.insert(
                    p,
                    beat(fresh_slot(bot_name@, now), now),
                ),
    {
        let now = utc_now_nanos();
        self.mark_heartbeat_at(bot_name, now);
        now
    }

    /// Marks silent bots offline, as of the current time.
    pub fn mark_stale_offline(&mut self, timeout_secs: u64) -> (now: i64)
        ensures
            names_sorted(final(self)@),
            final(self)@ == old(self)@.map_values(|v: SlotView| reaped(v, timeout_secs, now)),
    {
        let now = utc_now_nanos();
        self.mark_stale_offline_at(timeout_secs, now);
        now
    }

    /// A pool with an offline slot for each name, stamped with the current time.
    pub fn new(bot_names: Vec<String>) -> (store: SlotStore)
        ensures
            names_sorted(store@),
            forall|n: Seq<char>| has_slot(store@, n) <==> string_views(bot_names@).contains(n),
            forall|i: int|
                0 <= i < store@.len() ==> store@[i] == fresh_slot(
                    store@[i].bot_name,
                    store@[i].updated_at,
                ),
    {
        let now = utc_now_nanos();
        Self::new_at(bot_names, now)
    }
}

} // verus!
