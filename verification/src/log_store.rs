//! The recent log lines of each bot, at most a fixed number per bot.
use vstd::prelude::*;

use crate::text::str_equal;

verus! {

/// How many log lines are kept per bot.
pub const BOT_LOG_CAPACITY: usize = 100;

/// The log after `entry` arrives: a full log drops its oldest line first.
pub open spec fn appended<T>(log: Seq<T>, entry: T) -> Seq<T> {
    if log.len() >= BOT_LOG_CAPACITY {
        log.drop_first().push(entry)
    } else {
        log.push(entry)
    }
}

/// No bot has two logs.
pub open spec fn distinct_names<T>(s: Seq<(String, Vec<T>)>) -> bool {
    forall|i: int, j: int| 0 <= i < j < s.len() ==> s[i].0@ != s[j].0@
}

/// Where the log of `name` lies.
pub open spec fn name_index<T>(s: Seq<(String, Vec<T>)>, name: Seq<char>) -> int {
    choose|i: int| 0 <= i < s.len() && s[i].0@ == name
}

/// The log that a bot name leads to.
pub open spec fn logs_map<T>(s: Seq<(String, Vec<T>)>) -> Map<Seq<char>, Seq<T>> {
    Map::new(
        |name: Seq<char>| exists|i: int| 0 <= i < s.len() && s[i].0@ == name,
        |name: Seq<char>| s[name_index(s, name)].1@,
    )
}

/// With distinct names, a name leads to the one log that carries it.
pub proof fn lemma_name_index<T>(s: Seq<(String, Vec<T>)>, i: int)
    requires
        distinct_names(s),
        0 <= i < s.len(),
    ensures
        name_index(s, s[i].0@) == i,
        logs_map(s).contains_key(s[i].0@),
        logs_map(s)[s[i].0@] == s[i].1@,
{
    let k = s[i].0@;
    assert(exists|j: int| 0 <= j < s.len() && s[j].0@ == k);
    let j = name_index(s, k);
    if j != i {
        if j < i {
            assert(s[j].0@ != s[i].0@);
        } else {
            assert(s[i].0@ != s[j].0@);
        }
    }
}

/// The recent log lines of each bot, as a list.
struct LogList<T> {
    logs: Vec<(String, Vec<T>)>,
}

impl<T> View for LogList<T> {
    type V = Map<Seq<char>, Seq<T>>;

    closed spec fn view(&self) -> Map<Seq<char>, Seq<T>> {
        logs_map(self.logs@)
    }
}

impl<T> LogList<T> {
    /// Names are distinct, and no log holds more than the capacity.
    spec fn wf(&self) -> bool {
        &&& distinct_names(self.logs@)
        &&& forall|i: int| 0 <= i < self.logs@.len() ==> self.logs@[i].1@.len() <= BOT_LOG_CAPACITY
    }

    /// No logs.
    fn new() -> (r: LogList<T>)
        ensures
            r.wf(),
            r@ == Map::<Seq<char>, Seq<T>>::empty(),
    {
        let r = LogList { logs: Vec::new() };
        assert(r@ =~= Map::<Seq<char>, Seq<T>>::empty());
        r
    }

    /// Where the log of `name` lies.
    fn position(&self, name: &str) -> (r: Option<usize>)
        requires
            self.wf(),
        ensures
            match r {
                Some(i) => i < self.logs@.len() && self.logs@[i as int].0@ == name@,
                None => !self@.contains_key(name@),
            },
    {
        let mut i: usize = 0;
        while i < self.logs.len()
            invariant
                i <= self.logs.len(),
                forall|j: int| 0 <= j < i ==> self.logs@[j].0@ != name@,
            decreases self.logs.len() - i,
        {
            if str_equal(self.logs[i].0.as_str(), name) {
                return Some(i);
            }
            i += 1;
        }
        None
    }

    /// Every log holds at most the capacity.
    proof fn lemma_bounded(&self, name: Seq<char>)
        requires
            self.wf(),
            self@.contains_key(name),
        ensures
            self@[name].len() <= BOT_LOG_CAPACITY,
    {
        let i = name_index(self.logs@, name);
        lemma_name_index(self.logs@, i);
    }

    /// The recent lines of `bot_name`, oldest first.
    fn recent(&self, bot_name: &str) -> (r: Option<&Vec<T>>)
        requires
            self.wf(),
        ensures
            match r {
                Some(v) => self@.contains_key(bot_name@) && v@ == self@[bot_name@],
                None => !self@.contains_key(bot_name@),
            },
    {
        match self.position(bot_name) {
            Some(i) => {
                proof {
                    lemma_name_index(self.logs@, i as int);
                }
                Some(&self.logs[i].1)
            },
            None => None,
        }
    }

    /// Adds a line to the log of `bot_name`, dropping its oldest line when it is full.
    fn record(&mut self, bot_name: String, entry: T)
        requires
            old(self).wf(),
        ensures
            final(self).wf(),
            final(self)@ == old(self)@.insert(
                bot_name@,
                if old(self)@.contains_key(bot_name@) {
                    appended(old(self)@[bot_name@], entry)
                } else {
                    seq![entry]
                },
            ),
    {
        let ghost before = self.logs@;
        let ghost name = bot_name@;
        match self.position(bot_name.as_str()) {
            Some(i) => {
                proof {
                    lemma_name_index(before, i as int);
                }
                let (n, mut log) = self.logs.remove(i);
                let ghost old_log = log@;
                if log.len() >= BOT_LOG_CAPACITY {
                    log.remove(0);
                    assert(log@ =~= old_log.drop_first());
                }
                log.push(entry);
                let ghost new_log = log@;
                self.logs.insert(i, (n, log));
                assert(self.logs@ =~= before.update(i as int, (before[i as int].0, self.logs@[i as int].1)));
                proof {
                    assert forall|a: int, b: int| 0 <= a < b < self.logs@.len() implies self.logs@[a].0@
                        != self.logs@[b].0@ by {
                        assert(self.logs@[a].0 == before[a].0);
                        assert(self.logs@[b].0 == before[b].0);
                    }
                    assert(new_log.len() <= BOT_LOG_CAPACITY);
                    let expected = logs_map(before).insert(name, new_log);
                    assert forall|k: Seq<char>| #[trigger] logs_map(self.logs@).contains_key(k) <==> expected.contains_key(k) by {
                        if logs_map(self.logs@).contains_key(k) {
                            let j = choose|j: int| 0 <= j < self.logs@.len() && self.logs@[j].0@ == k;
                            assert(before[j].0@ == k);
                        }
                        if logs_map(before).contains_key(k) {
                            let j = choose|j: int| 0 <= j < before.len() && before[j].0@ == k;
                            assert(self.logs@[j].0@ == k);
                        }
                    }
                    assert forall|k: Seq<char>| #[trigger] logs_map(self.logs@).contains_key(k) implies logs_map(self.logs@)[k] == expected[k] by {
                        let j = choose|j: int| 0 <= j < self.logs@.len() && self.logs@[j].0@ == k;
                        lemma_name_index(self.logs@, j);
                        if j != i {
                            lemma_name_index(before, j);
                        }
                    }
                    assert(logs_map(self.logs@) =~= expected);
                }
            },
            None => {
                let mut log: Vec<T> = Vec::new();
                log.push(entry);
                let ghost new_log = log@;
                self.logs.push((bot_name, log));
                proof {
                    let s = self.logs@;
                    assert(s.drop_last() =~= before);
                    assert forall|a: int, b: int| 0 <= a < b < s.len() implies s[a].0@ != s[b].0@ by {
                        if b == s.len() - 1 {
                            assert(before[a].0@ != name) by {
                                if before[a].0@ == name {
                                    assert(logs_map(before).contains_key(name));
                                }
                            }
                        }
                    }
                    let expected = logs_map(before).insert(name, new_log);
                    assert forall|k: Seq<char>| #[trigger] logs_map(s).contains_key(k) <==> expected.contains_key(k) by {
                        if logs_map(s).contains_key(k) {
                            let j = choose|j: int| 0 <= j < s.len() && s[j].0@ == k;
                            if j < before.len() {
                                assert(before[j].0@ == k);
                            }
                        }
                        if logs_map(before).contains_key(k) {
                            let j = choose|j: int| 0 <= j < before.len() && before[j].0@ == k;
                            assert(s[j].0@ == k);
                        }
                        if k == name {
                            assert(s[s.len() - 1].0@ == k);
                        }
                    }
                    assert forall|k: Seq<char>| #[trigger] logs_map(s).contains_key(k) implies logs_map(s)[k] == expected[k] by {
                        let j = choose|j: int| 0 <= j < s.len() && s[j].0@ == k;
                        lemma_name_index(s, j);
                        if j < before.len() {
                            lemma_name_index(before, j);
                        }
                    }
                    assert(logs_map(s) =~= expected);
                    assert(new_log =~= seq![entry]);
                }
            },
        }
    }

    /// Forgets the log of `bot_name`.
    fn clear(&mut self, bot_name: &str)
        requires
            old(self).wf(),
        ensures
            final(self).wf(),
            final(self)@ == old(self)@.remove(bot_name@),
    {
        let ghost before = self.logs@;
        match self.position(bot_name) {
            Some(i) => {
                self.logs.remove(i);
                proof {
                    let s = self.logs@;
                    assert(s =~= before.remove(i as int));
                    assert forall|a: int, b: int| 0 <= a < b < s.len() implies s[a].0@ != s[b].0@ by {
                        let a0 = if a < i { a } else { a + 1 };
                        let b0 = if b < i { b } else { b + 1 };
                        assert(s[a] == before[a0]);
                        assert(s[b] == before[b0]);
                    }
                    let expected = logs_map(before).remove(bot_name@);
                    assert forall|k: Seq<char>| #[trigger] logs_map(s).contains_key(k) <==> expected.contains_key(k) by {
                        if logs_map(s).contains_key(k) {
                            let j = choose|j: int| 0 <= j < s.len() && s[j].0@ == k;
                            let j0 = if j < i { j } else { j + 1 };
                            assert(before[j0].0@ == k);
                            assert(j0 != i);
                            if k == bot_name@ {
                                assert(before[i as int].0@ == k);
                                if j0 < i {
                                    assert(before[j0].0@ != before[i as int].0@);
                                } else {
                                    assert(before[i as int].0@ != before[j0].0@);
                                }
                            }
                        }
                        if expected.contains_key(k) {
                            let j = choose|j: int| 0 <= j < before.len() && before[j].0@ == k;
                            assert(j != i);
                            if j < i {
                                assert(s[j].0@ == k);
                            } else {
                                assert(s[j - 1].0@ == k);
                            }
                        }
                    }
                    assert forall|k: Seq<char>| #[trigger] logs_map(s).contains_key(k) implies logs_map(s)[k] == expected[k] by {
                        let j = choose|j: int| 0 <= j < s.len() && s[j].0@ == k;
                        let j0 = if j < i { j } else { j + 1 };
                        lemma_name_index(s, j);
                        lemma_name_index(before, j0);
                    }
                    assert(logs_map(s) =~= expected);
                }
            },
            None => {
                assert(logs_map(before).remove(bot_name@) =~= logs_map(before));
            },
        }
    }
}

/// The recent log lines of each bot.
pub struct LogStore<T> {
    inner: LogList<T>,
}

impl<T> View for LogStore<T> {
    type V = Map<Seq<char>, Seq<T>>;

    closed spec fn view(&self) -> Map<Seq<char>, Seq<T>> {
        self.inner@
    }
}

impl<T> LogStore<T> {
    #[verifier::type_invariant]
    spec fn well_kept(&self) -> bool {
        self.inner.wf()
    }

    /// No logs.
    pub fn new() -> (r: LogStore<T>)
        ensures
            r@ == Map::<Seq<char>, Seq<T>>::empty(),
    {
        LogStore { inner: LogList::new() }
    }

    /// The recent lines of `bot_name`, oldest first; never more than the capacity.
    pub fn recent(&self, bot_name: &str) -> (r: Option<&Vec<T>>)
        ensures
            match r {
                Some(v) => self@.contains_key(bot_name@) && v@ == self@[bot_name@] && v@.len()
                    <= BOT_LOG_CAPACITY,
                None => !self@.contains_key(bot_name@),
            },
    {
        proof {
            use_type_invariant(self);
        }
        let r = self.inner.recent(bot_name);
        proof {
            if r is Some {
                self.inner.lemma_bounded(bot_name@);
            }
        }
        r
    }

    /// Adds a line to the log of `bot_name`, dropping its oldest line when it is full.
    pub fn record(&mut self, bot_name: String, entry: T)
        ensures
            final(self)@ == old(self)@.insert(
                bot_name@,
                if old(self)@.contains_key(bot_name@) {
                    appended(old(self)@[bot_name@], entry)
                } else {
                    seq![entry]
                },
            ),
    {
        proof {
            use_type_invariant(&*self);
        }
        let mut inner = LogList::new();
        std::mem::swap(&mut inner, &mut self.inner);
        inner.record(bot_name, entry);
        self.inner = inner;
    }

    /// Forgets the log of `bot_name`.
    pub fn clear(&mut self, bot_name: &str)
        ensures
            final(self)@ == old(self)@.remove(bot_name@),
    {
        proof {
            use_type_invariant(&*self);
        }
        let mut inner = LogList::new();
        std::mem::swap(&mut inner, &mut self.inner);
        inner.clear(bot_name);
        self.inner = inner;
    }
}

/// A log never holds more than the capacity, and after a line arrives, the line is the
/// log's newest and the log keeps the newest lines before it.
pub proof fn law_log_keeps_newest<T>(log: Seq<T>, entry: T)
    requires
        log.len() <= BOT_LOG_CAPACITY,
    ensures
        appended(log, entry).len() <= BOT_LOG_CAPACITY,
        appended(log, entry).last() == entry,
        appended(log, entry).drop_last() == log.subrange(
            log.len() - (appended(log, entry).len() - 1),
            log.len() as int,
        ),
{
    if log.len() >= BOT_LOG_CAPACITY {
        assert(log.drop_first().push(entry).drop_last() =~= log.subrange(1, log.len() as int));
    } else {
        assert(log.push(entry).drop_last() =~= log.subrange(0, log.len() as int));
    }
}

} // verus!
