//! The cooperative task scheduler behind `task.spawn`, `task.defer`, `task.delay`,
//! `task.wait` and `task.cancel`. Threads are named by their Lua registry references;
//! time is a count of ticks taken from a monotonic clock by the host.
use vstd::prelude::*;
use std::collections::{HashMap, HashSet};

verus! {

broadcast use vstd::std_specs::hash::group_hash_axioms;

/// What a timer wakes: a waiting thread, or a delayed call by its id.
#[derive(Debug, Clone, Copy, PartialEq, Eq, Structural)]
pub enum TaskKey {
    ThreadRef(i32),
    DelayId(u64),
}

/// A timer: its due tick and what it wakes.
#[derive(Debug, Clone, Copy, PartialEq, Eq, Structural)]
pub struct ScheduledTask {
    pub due: u64,
    pub key: TaskKey,
}

/// The abstract state of the scheduler.
pub ghost struct SchedulerState {
    pub next_delay_id: u64,
    /// Threads started by `spawn` (and the entry chunk), in order.
    pub ready: Seq<i32>,
    /// Threads started by `defer` or that gave way with `wait()`, in order: they run after
    /// the ready ones.
    pub yielded: Seq<i32>,
    /// Pending timers, by due tick; timers due at the same tick keep their order.
    pub timers: Seq<ScheduledTask>,
    /// Threads sleeping in `wait(secs)`, with the tick they began waiting.
    pub waits: Map<i32, u64>,
    /// Pending delayed calls: id to thread.
    pub delay_threads: Map<u64, i32>,
    /// Known Lua threads (by address) and their references.
    pub thread_refs: Seq<(usize, i32)>,
    /// Threads canceled by `task.cancel(thread)`, by reference, until their reference is
    /// dropped.
    pub canceled_threads: Set<i32>,
    /// Delays canceled by `task.cancel(id)`, by delay id, until their timer comes due.
    pub canceled_delays: Set<u64>,
    /// Arguments to pass on the first resume of a thread.
    pub init_nargs: Map<i32, i32>,
}

// ---------------------------------------------------------------------------
// Thread reference table (address -> reference), first entry wins
// ---------------------------------------------------------------------------

/// The reference recorded for thread `th`: the first entry with that address.
pub open spec fn refs_lookup(s: Seq<(usize, i32)>, th: usize) -> Option<i32>
    decreases s.len(),
{
    if s.len() == 0 {
        None
    } else if s[0].0 == th {
        Some(s[0].1)
    } else {
        refs_lookup(s.skip(1), th)
    }
}

/// The table without any entry for thread `th`.
pub open spec fn refs_remove_key(s: Seq<(usize, i32)>, th: usize) -> Seq<(usize, i32)>
    decreases s.len(),
{
    if s.len() == 0 {
        s
    } else if s[0].0 == th {
        refs_remove_key(s.skip(1), th)
    } else {
        seq![s[0]] + refs_remove_key(s.skip(1), th)
    }
}

/// The table without any entry whose reference is `r`.
pub open spec fn refs_remove_value(s: Seq<(usize, i32)>, r: i32) -> Seq<(usize, i32)>
    decreases s.len(),
{
    if s.len() == 0 {
        s
    } else if s[0].1 == r {
        refs_remove_value(s.skip(1), r)
    } else {
        seq![s[0]] + refs_remove_value(s.skip(1), r)
    }
}

/// The table without its first entry whose reference is `r`.
pub open spec fn refs_remove_first_value(s: Seq<(usize, i32)>, r: i32) -> Seq<(usize, i32)>
    decreases s.len(),
{
    if s.len() == 0 {
        s
    } else if s[0].1 == r {
        s.skip(1)
    } else {
        seq![s[0]] + refs_remove_first_value(s.skip(1), r)
    }
}

/// The table with thread `th` mapped to `r`, replacing any earlier entry.
pub open spec fn refs_insert(s: Seq<(usize, i32)>, th: usize, r: i32) -> Seq<(usize, i32)> {
    refs_remove_key(s, th).push((th, r))
}

/// The references of the table, in order.
pub open spec fn refs_values(s: Seq<(usize, i32)>) -> Seq<i32> {
    s.map_values(|e: (usize, i32)| e.1)
}

/// No thread address occurs twice in the table (it is a map from addresses).
pub open spec fn refs_unique(s: Seq<(usize, i32)>) -> bool {
    forall|i: int, j: int| 0 <= i < j < s.len() ==> (#[trigger] s[i]).0 != (#[trigger] s[j]).0
}

proof fn lemma_refs_unique_tail(s: Seq<(usize, i32)>)
    requires
        refs_unique(s),
        s.len() > 0,
    ensures
        refs_unique(s.skip(1)),
        forall|e: (usize, i32)| s.skip(1).contains(e) ==> e.0 != s[0].0,
{
    let t = s.skip(1);
    assert forall|i: int, j: int| 0 <= i < j < t.len() implies (#[trigger] t[i]).0 != (#[trigger] t[j]).0 by {
        assert(t[i] == s[i + 1] && t[j] == s[j + 1]);
    }
    assert forall|e: (usize, i32)| t.contains(e) implies e.0 != s[0].0 by {
        let k = choose|k: int| 0 <= k < t.len() && t[k] == e;
        assert(t[k] == s[k + 1]);
    }
}

proof fn lemma_refs_cons_unique(x: (usize, i32), t: Seq<(usize, i32)>)
    requires
        refs_unique(t),
        forall|e: (usize, i32)| t.contains(e) ==> e.0 != x.0,
    ensures
        refs_unique(seq![x] + t),
{
    let u = seq![x] + t;
    assert forall|i: int, j: int| 0 <= i < j < u.len() implies (#[trigger] u[i]).0 != (#[trigger] u[j]).0 by {
        assert(u[j] == t[j - 1]);
        if i == 0 {
            assert(t.contains(t[j - 1]));
        } else {
            assert(u[i] == t[i - 1]);
        }
    }
}

proof fn lemma_cons_contains(x: (usize, i32), t: Seq<(usize, i32)>, e: (usize, i32))
    requires
        (seq![x] + t).contains(e),
    ensures
        e == x || t.contains(e),
{
    let u = seq![x] + t;
    let k = choose|k: int| 0 <= k < u.len() && u[k] == e;
    if k > 0 {
        assert(u[k] == t[k - 1]);
    }
}

proof fn lemma_skip_contains(s: Seq<(usize, i32)>, e: (usize, i32))
    requires
        s.len() > 0,
        s.skip(1).contains(e),
    ensures
        s.contains(e),
{
    let k = choose|k: int| 0 <= k < s.skip(1).len() && s.skip(1)[k] == e;
    assert(s[k + 1] == e);
}

/// Forgetting a thread keeps the table a map, without that thread.
pub proof fn lemma_refs_remove_key(s: Seq<(usize, i32)>, x: usize)
    ensures
        forall|e: (usize, i32)| #[trigger] refs_remove_key(s, x).contains(e) ==> s.contains(e) && e.0 != x,
        refs_unique(s) ==> refs_unique(refs_remove_key(s, x)),
    decreases s.len(),
{
    if s.len() > 0 {
        let t = s.skip(1);
        let ft = refs_remove_key(t, x);
        lemma_refs_remove_key(t, x);
        assert forall|e: (usize, i32)| refs_remove_key(s, x).contains(e) implies s.contains(e) && e.0 != x by {
            if s[0].0 != x {
                lemma_cons_contains(s[0], ft, e);
                if e != s[0] {
                    assert(ft.contains(e));
                    lemma_skip_contains(s, e);
                } else {
                    assert(s[0] == e);
                    assert(s.contains(e));
                }
            } else {
                assert(ft.contains(e));
                lemma_skip_contains(s, e);
            }
        }
        if refs_unique(s) {
            lemma_refs_unique_tail(s);
            if s[0].0 != x {
                assert forall|e: (usize, i32)| ft.contains(e) implies e.0 != s[0].0 by {
                    assert(t.contains(e));
                }
                lemma_refs_cons_unique(s[0], ft);
            }
        }
    }
}

/// Forgetting a reference keeps the table a map.
pub proof fn lemma_refs_remove_value(s: Seq<(usize, i32)>, x: i32)
    ensures
        forall|e: (usize, i32)| #[trigger] refs_remove_value(s, x).contains(e) ==> s.contains(e),
        refs_unique(s) ==> refs_unique(refs_remove_value(s, x)),
    decreases s.len(),
{
    if s.len() > 0 {
        let t = s.skip(1);
        let ft = refs_remove_value(t, x);
        lemma_refs_remove_value(t, x);
        assert forall|e: (usize, i32)| refs_remove_value(s, x).contains(e) implies s.contains(e) by {
            if s[0].1 != x {
                lemma_cons_contains(s[0], ft, e);
                if e != s[0] {
                    assert(ft.contains(e));
                    lemma_skip_contains(s, e);
                }
            } else {
                assert(ft.contains(e));
                lemma_skip_contains(s, e);
            }
        }
        if refs_unique(s) {
            lemma_refs_unique_tail(s);
            if s[0].1 != x {
                assert forall|e: (usize, i32)| ft.contains(e) implies e.0 != s[0].0 by {
                    assert(t.contains(e));
                }
                lemma_refs_cons_unique(s[0], ft);
            }
        }
    }
}

/// Forgetting the first entry of a reference keeps the table a map.
pub proof fn lemma_refs_remove_first_value(s: Seq<(usize, i32)>, x: i32)
    ensures
        forall|e: (usize, i32)| #[trigger] refs_remove_first_value(s, x).contains(e) ==> s.contains(e),
        refs_unique(s) ==> refs_unique(refs_remove_first_value(s, x)),
    decreases s.len(),
{
    if s.len() > 0 {
        let t = s.skip(1);
        let ft = refs_remove_first_value(t, x);
        lemma_refs_remove_first_value(t, x);
        assert forall|e: (usize, i32)| refs_remove_first_value(s, x).contains(e) implies s.contains(e) by {
            if s[0].1 != x {
                lemma_cons_contains(s[0], ft, e);
                if e != s[0] {
                    assert(ft.contains(e));
                    lemma_skip_contains(s, e);
                }
            } else {
                assert(t.contains(e));
                lemma_skip_contains(s, e);
            }
        }
        if refs_unique(s) {
            lemma_refs_unique_tail(s);
            if s[0].1 != x {
                assert forall|e: (usize, i32)| ft.contains(e) implies e.0 != s[0].0 by {
                    assert(t.contains(e));
                }
                lemma_refs_cons_unique(s[0], ft);
            }
        }
    }
}

/// Registering a thread keeps the table a map.
pub proof fn lemma_refs_insert(s: Seq<(usize, i32)>, th: usize, r: i32)
    requires
        refs_unique(s),
    ensures
        refs_unique(refs_insert(s, th, r)),
{
    let t = refs_remove_key(s, th);
    lemma_refs_remove_key(s, th);
    assert(refs_unique(t));
    let u = t.push((th, r));
    assert forall|i: int, j: int| 0 <= i < j < u.len() implies (#[trigger] u[i]).0 != (#[trigger] u[j]).0 by {
        assert(u[i] == t[i]);
        if j == t.len() {
            assert(t.contains(t[i]));
            assert(refs_remove_key(s, th).contains(t[i]));
            assert(u[j] == (th, r));
        } else {
            assert(u[j] == t[j]);
        }
    }
    assert(refs_insert(s, th, r) == u);
}

/// A thread forgotten by address is not found any more.
pub proof fn lemma_refs_lookup_remove_key(s: Seq<(usize, i32)>, th: usize)
    ensures
        refs_lookup(refs_remove_key(s, th), th) is None,
    decreases s.len(),
{
    if s.len() > 0 {
        lemma_refs_lookup_remove_key(s.skip(1), th);
        if s[0].0 != th {
            assert((seq![s[0]] + refs_remove_key(s.skip(1), th)).skip(1) =~= refs_remove_key(
                s.skip(1),
                th,
            ));
        }
    }
}

/// A thread is found under the reference it was last registered with (`register_thread`,
/// `spawn`, `defer`, `delay`).
pub proof fn lemma_refs_lookup_insert(s: Seq<(usize, i32)>, th: usize, r: i32)
    ensures
        refs_lookup(refs_insert(s, th, r), th) == Some(r),
{
    lemma_refs_lookup_remove_key(s, th);
    lemma_refs_lookup_push(refs_remove_key(s, th), th, r);
}

proof fn lemma_refs_lookup_push(s: Seq<(usize, i32)>, th: usize, r: i32)
    requires
        refs_lookup(s, th) is None,
    ensures
        refs_lookup(s.push((th, r)), th) == Some(r),
    decreases s.len(),
{
    if s.len() == 0 {
        assert(s.push((th, r))[0] == (th, r));
    } else {
        assert(s.push((th, r)).skip(1) =~= s.skip(1).push((th, r)));
        lemma_refs_lookup_push(s.skip(1), th, r);
    }
}

// ---------------------------------------------------------------------------
// Timers, kept sorted by due tick
// ---------------------------------------------------------------------------

/// Timers in nondecreasing order of due tick.
pub open spec fn timers_sorted(ts: Seq<ScheduledTask>) -> bool {
    forall|i: int, j: int| 0 <= i <= j < ts.len() ==> ts[i].due <= ts[j].due
}

/// The timers with `t` added after every timer due no later than it.
pub open spec fn timers_insert(ts: Seq<ScheduledTask>, t: ScheduledTask) -> Seq<ScheduledTask>
    decreases ts.len(),
{
    if ts.len() == 0 {
        seq![t]
    } else if ts[0].due > t.due {
        seq![t] + ts
    } else {
        seq![ts[0]] + timers_insert(ts.skip(1), t)
    }
}

/// Inserting at the first timer due later than `t` is `timers_insert`.
proof fn lemma_timers_insert_at(ts: Seq<ScheduledTask>, t: ScheduledTask, i: int)
    requires
        0 <= i <= ts.len(),
        forall|j: int| 0 <= j < i ==> ts[j].due <= t.due,
        i < ts.len() ==> ts[i].due > t.due,
    ensures
        timers_insert(ts, t) == ts.insert(i, t),
    decreases ts.len(),
{
    if ts.len() == 0 {
        assert(ts.insert(i, t) =~= seq![t]);
    } else if i == 0 {
        assert(ts.insert(i, t) =~= seq![t] + ts);
    } else {
        assert forall|j: int| 0 <= j < i - 1 implies ts.skip(1)[j].due <= t.due by {
            assert(ts.skip(1)[j] == ts[j + 1]);
        }
        lemma_timers_insert_at(ts.skip(1), t, i - 1);
        assert(ts.insert(i, t) =~= seq![ts[0]] + ts.skip(1).insert(i - 1, t));
    }
}

/// The number of leading timers due no later than `now`.
pub open spec fn due_count(ts: Seq<ScheduledTask>, now: u64) -> nat
    decreases ts.len(),
{
    if ts.len() == 0 || ts[0].due > now {
        0
    } else {
        1 + due_count(ts.skip(1), now)
    }
}

/// The queue without the reference `r`.
pub open spec fn queue_without(q: Seq<i32>, r: i32) -> Seq<i32>
    decreases q.len(),
{
    if q.len() == 0 {
        q
    } else if q[0] == r {
        queue_without(q.skip(1), r)
    } else {
        seq![q[0]] + queue_without(q.skip(1), r)
    }
}

/// The timers without those that wake `key`.
pub open spec fn timers_without(ts: Seq<ScheduledTask>, key: TaskKey) -> Seq<ScheduledTask>
    decreases ts.len(),
{
    if ts.len() == 0 {
        ts
    } else if ts[0].key == key {
        timers_without(ts.skip(1), key)
    } else {
        seq![ts[0]] + timers_without(ts.skip(1), key)
    }
}

/// Removing timers keeps them sorted, and no kept timer is due before the first one.
pub proof fn lemma_timers_without_sorted(ts: Seq<ScheduledTask>, key: TaskKey)
    requires
        timers_sorted(ts),
    ensures
        timers_sorted(timers_without(ts, key)),
        ts.len() > 0 ==> forall|k: int|
            0 <= k < timers_without(ts, key).len() ==> timers_without(ts, key)[k].due >= ts[0].due,
    decreases ts.len(),
{
    if ts.len() > 0 {
        let rest = ts.skip(1);
        assert(timers_sorted(rest)) by {
            assert forall|i: int, j: int| 0 <= i <= j < rest.len() implies rest[i].due <= rest[j].due by {
                assert(rest[i] == ts[i + 1] && rest[j] == ts[j + 1]);
            }
        }
        lemma_timers_without_sorted(rest, key);
        if rest.len() > 0 {
            assert(rest[0] == ts[1]);
        }
    }
}

/// Whether some timer wakes `key`.
pub open spec fn has_timer(ts: Seq<ScheduledTask>, key: TaskKey) -> bool {
    exists|i: int| 0 <= i < ts.len() && ts[i].key == key
}

/// The entry of a map as an option.
pub open spec fn map_get<K, V>(m: Map<K, V>, k: K) -> Option<V> {
    if m.contains_key(k) { Some(m[k]) } else { None }
}

/// One due timer handled: a canceled thread or delay is released (its reference is handed
/// back for the host to drop), a waiting thread or a pending delay is resumed.
/// The result is the new state, the thread to resume and the thread to release.
pub open spec fn due_step(s: SchedulerState, t: ScheduledTask) -> (SchedulerState, Option<i32>, Option<i32>) {
    match t.key {
        TaskKey::ThreadRef(r) => {
            if s.canceled_threads.contains(r) {
                (SchedulerState {
                    canceled_threads: s.canceled_threads.remove(r),
                    waits: s.waits.remove(r),
                    thread_refs: refs_remove_first_value(s.thread_refs, r),
                    ..s
                }, None, Some(r))
            } else if s.waits.contains_key(r) {
                (s, Some(r), None)
            } else {
                (s, None, None)
            }
        },
        TaskKey::DelayId(id) => {
            if s.canceled_delays.contains(id) {
                if s.delay_threads.contains_key(id) {
                    let r = s.delay_threads[id];
                    (SchedulerState {
                        canceled_delays: s.canceled_delays.remove(id),
                        delay_threads: s.delay_threads.remove(id),
                        waits: s.waits.remove(r),
                        thread_refs: refs_remove_first_value(s.thread_refs, r),
                        ..s
                    }, None, Some(r))
                } else {
                    (SchedulerState { canceled_delays: s.canceled_delays.remove(id), ..s }, None, None)
                }
            } else if s.delay_threads.contains_key(id) {
                let r = s.delay_threads[id];
                (SchedulerState { delay_threads: s.delay_threads.remove(id), ..s }, Some(r), None)
            } else {
                (s, None, None)
            }
        },
    }
}

proof fn lemma_due_step_keeps_refs_unique(s: SchedulerState, t: ScheduledTask)
    requires
        refs_unique(s.thread_refs),
    ensures
        refs_unique(due_step(s, t).0.thread_refs),
{
    match t.key {
        TaskKey::ThreadRef(r) => lemma_refs_remove_first_value(s.thread_refs, r),
        TaskKey::DelayId(id) => {
            if s.delay_threads.contains_key(id) {
                lemma_refs_remove_first_value(s.thread_refs, s.delay_threads[id]);
            }
        },
    }
}

/// Due timers handled in order, accumulating the threads to resume and to release.
pub open spec fn process_due(
    s: SchedulerState,
    ts: Seq<ScheduledTask>,
    resumed: Seq<i32>,
    released: Seq<i32>,
) -> (SchedulerState, Seq<i32>, Seq<i32>)
    decreases ts.len(),
{
    if ts.len() == 0 {
        (s, resumed, released)
    } else {
        let (s1, a, b) = due_step(s, ts[0]);
        process_due(
            s1,
            ts.skip(1),
            match a {
                Some(r) => resumed.push(r),
                None => resumed,
            },
            match b {
                Some(r) => released.push(r),
                None => released,
            },
        )
    }
}

/// The effect of taking the timers due at `now`: the new state (without those timers),
/// the threads to resume and the threads to release, in timer order.
pub open spec fn pop_due_effect(s: SchedulerState, now: u64) -> (SchedulerState, Seq<i32>, Seq<i32>) {
    let k = due_count(s.timers, now) as int;
    let (s1, resumed, released) = process_due(s, s.timers.take(k), Seq::empty(), Seq::empty());
    (SchedulerState { timers: s.timers.skip(k), ..s1 }, resumed, released)
}

/// The first `due_count` timers are due, the rest are not.
pub proof fn lemma_due_count(ts: Seq<ScheduledTask>, now: u64)
    requires
        timers_sorted(ts),
    ensures
        due_count(ts, now) <= ts.len(),
        forall|i: int| 0 <= i < due_count(ts, now) ==> ts[i].due <= now,
        forall|i: int| due_count(ts, now) <= i < ts.len() ==> ts[i].due > now,
    decreases ts.len(),
{
    if ts.len() > 0 && ts[0].due <= now {
        let rest = ts.skip(1);
        assert(timers_sorted(rest)) by {
            assert forall|i: int, j: int| 0 <= i <= j < rest.len() implies rest[i].due <= rest[j].due by {
                assert(rest[i] == ts[i + 1] && rest[j] == ts[j + 1]);
            }
        }
        lemma_due_count(rest, now);
        assert forall|i: int| 0 <= i < due_count(ts, now) implies ts[i].due <= now by {
            if i > 0 {
                assert(ts[i] == rest[i - 1]);
            }
        }
        assert forall|i: int| due_count(ts, now) <= i < ts.len() implies ts[i].due > now by {
            assert(ts[i] == rest[i - 1]);
        }
    }
}

// ---------------------------------------------------------------------------
// The scheduler
// ---------------------------------------------------------------------------

/// Scheduler state. Queues hold thread references; the host owns the Lua side.
pub struct Scheduler {
    next_delay_id: u64,
    ready: Vec<i32>,
    yielded: Vec<i32>,
    timers: Vec<ScheduledTask>,
    waits: HashMap<i32, u64>,
    delay_threads: HashMap<u64, i32>,
    thread_refs: Vec<(usize, i32)>,
    canceled_threads: HashSet<i32>,
    canceled_delays: HashSet<u64>,
    thread_init_nargs: HashMap<i32, i32>,
}

impl View for Scheduler {
    type V = SchedulerState;

    closed spec fn view(&self) -> SchedulerState {
        SchedulerState {
            next_delay_id: self.next_delay_id,
            ready: self.ready@,
            yielded: self.yielded@,
            timers: self.timers@,
            waits: self.waits@,
            delay_threads: self.delay_threads@,
            thread_refs: self.thread_refs@,
            canceled_threads: self.canceled_threads@,
            canceled_delays: self.canceled_delays@,
            init_nargs: self.thread_init_nargs@,
        }
    }
}

/// The state of a fresh scheduler.
pub open spec fn fresh_state() -> SchedulerState {
    SchedulerState {
        next_delay_id: 1,
        ready: Seq::empty(),
        yielded: Seq::empty(),
        timers: Seq::empty(),
        waits: Map::empty(),
        delay_threads: Map::empty(),
        thread_refs: Seq::empty(),
        canceled_threads: Set::empty(),
        canceled_delays: Set::empty(),
        init_nargs: Map::empty(),
    }
}

/// The well-formedness of a scheduler state: delay ids are never 0, timers are sorted and
/// no thread address is recorded twice.
pub open spec fn state_wf(s: SchedulerState) -> bool {
    &&& s.next_delay_id != 0
    &&& timers_sorted(s.timers)
    &&& refs_unique(s.thread_refs)
}

/// The delay id that follows `id`: the next integer, skipping 0 on wrap-around.
pub open spec fn following_delay_id(id: u64) -> u64 {
    if id == u64::MAX { 1 } else { (id + 1) as u64 }
}

/// The arguments handed to a spawned or deferred function: the values after it.
pub open spec fn spawn_arg_count(nargs: i32) -> i32 {
    if nargs > 0 { (nargs - 1) as i32 } else { 0 }
}

/// The arguments handed to a delayed function: the values after the delay and it.
pub open spec fn delay_arg_count(nargs: i32) -> i32 {
    if nargs > 2 { (nargs - 2) as i32 } else { 0 }
}

impl Scheduler {
    pub open spec fn wf(&self) -> bool {
        state_wf(self@)
    }

    pub fn new() -> (r: Self)
        ensures
            r@ == fresh_state(),
            r.wf(),
    {
        Scheduler {
            next_delay_id: 1,
            ready: Vec::new(),
            yielded: Vec::new(),
            timers: Vec::new(),
            waits: HashMap::new(),
            delay_threads: HashMap::new(),
            thread_refs: Vec::new(),
            canceled_threads: HashSet::new(),
            canceled_delays: HashSet::new(),
            thread_init_nargs: HashMap::new(),
        }
    }

    /// Whether any thread is queued or any timer pending.
    pub fn has_work(&self) -> (r: bool)
        ensures
            r == (self@.ready.len() > 0 || self@.yielded.len() > 0 || self@.timers.len() > 0),
    {
        self.ready.len() > 0 || self.yielded.len() > 0 || self.timers.len() > 0
    }

    fn refs_position(&self, th: usize) -> (r: Option<usize>)
        ensures
            match r {
                Some(i) => i < self.thread_refs@.len() && self.thread_refs@[i as int].0 == th
                    && refs_lookup(self.thread_refs@, th) == Some(self.thread_refs@[i as int].1),
                None => refs_lookup(self.thread_refs@, th) is None,
            },
    {
        let mut i: usize = 0;
        assert(self.thread_refs@.skip(0) =~= self.thread_refs@);
        while i < self.thread_refs.len()
            invariant
                i <= self.thread_refs@.len(),
                refs_lookup(self.thread_refs@, th) == refs_lookup(self.thread_refs@.skip(i as int), th),
            decreases self.thread_refs@.len() - i,
        {
            if self.thread_refs[i].0 == th {
                return Some(i);
            }
            assert(self.thread_refs@.skip(i as int).skip(1) =~= self.thread_refs@.skip(i + 1));
            i = i + 1;
        }
        None
    }

    /// The reference recorded for the Lua thread at address `th`.
    pub fn get_thread_ref_for_state(&self, th: usize) -> (r: Option<i32>)
        ensures
            r == refs_lookup(self@.thread_refs, th),
    {
        match self.refs_position(th) {
            Some(i) => Some(self.thread_refs[i].1),
            None => None,
        }
    }

    fn refs_remove_key_exec(&mut self, th: usize)
        ensures
            final(self).thread_refs@ == refs_remove_key(old(self).thread_refs@, th),
            final(self).next_delay_id == old(self).next_delay_id,
            final(self).ready == old(self).ready,
            final(self).yielded == old(self).yielded,
            final(self).timers == old(self).timers,
            final(self).waits == old(self).waits,
            final(self).delay_threads == old(self).delay_threads,
            final(self).canceled_threads == old(self).canceled_threads,
            final(self).canceled_delays == old(self).canceled_delays,
            final(self).thread_init_nargs == old(self).thread_init_nargs,
    {
        let ghost s0 = self.thread_refs@;
        let mut out: Vec<(usize, i32)> = Vec::new();
        let mut i: usize = 0;
        assert(s0.skip(0) =~= s0);
        while i < self.thread_refs.len()
            invariant
                s0 == self.thread_refs@,
                i <= s0.len(),
                out@ + refs_remove_key(s0.skip(i as int), th) == refs_remove_key(s0, th),
            decreases s0.len() - i,
        {
            let e = self.thread_refs[i];
            assert(s0.skip(i as int).skip(1) =~= s0.skip(i + 1));
            if e.0 != th {
                let ghost before = out@;
                out.push(e);
                assert(out@ + refs_remove_key(s0.skip(i + 1), th) =~= before + (seq![e]
                    + refs_remove_key(s0.skip(i + 1), th)));
            }
            i = i + 1;
        }
        assert(s0.skip(s0.len() as int) =~= Seq::<(usize, i32)>::empty());
        assert(out@ + Seq::<(usize, i32)>::empty() =~= out@);
        self.thread_refs = out;
    }

    fn refs_remove_value_exec(&mut self, r: i32)
        ensures
            final(self).thread_refs@ == refs_remove_value(old(self).thread_refs@, r),
            final(self).next_delay_id == old(self).next_delay_id,
            final(self).ready == old(self).ready,
            final(self).yielded == old(self).yielded,
            final(self).timers == old(self).timers,
            final(self).waits == old(self).waits,
            final(self).delay_threads == old(self).delay_threads,
            final(self).canceled_threads == old(self).canceled_threads,
            final(self).canceled_delays == old(self).canceled_delays,
            final(self).thread_init_nargs == old(self).thread_init_nargs,
    {
        let ghost s0 = self.thread_refs@;
        let mut out: Vec<(usize, i32)> = Vec::new();
        let mut i: usize = 0;
        assert(s0.skip(0) =~= s0);
        while i < self.thread_refs.len()
            invariant
                s0 == self.thread_refs@,
                i <= s0.len(),
                out@ + refs_remove_value(s0.skip(i as int), r) == refs_remove_value(s0, r),
            decreases s0.len() - i,
        {
            let e = self.thread_refs[i];
            assert(s0.skip(i as int).skip(1) =~= s0.skip(i + 1));
            if e.1 != r {
                let ghost before = out@;
                out.push(e);
                assert(out@ + refs_remove_value(s0.skip(i + 1), r) =~= before + (seq![e]
                    + refs_remove_value(s0.skip(i + 1), r)));
            }
            i = i + 1;
        }
        assert(s0.skip(s0.len() as int) =~= Seq::<(usize, i32)>::empty());
        assert(out@ + Seq::<(usize, i32)>::empty() =~= out@);
        self.thread_refs = out;
    }

    fn first_value_position(&self, r: i32) -> (p: Option<usize>)
        ensures
            match p {
                Some(i) => i < self.thread_refs@.len() && refs_remove_first_value(self.thread_refs@, r)
                    == self.thread_refs@.remove(i as int),
                None => refs_remove_first_value(self.thread_refs@, r) == self.thread_refs@,
            },
    {
        let ghost s0 = self.thread_refs@;
        let mut i: usize = 0;
        assert(s0.skip(0) =~= s0);
        assert(s0.take(0) =~= Seq::<(usize, i32)>::empty());
        while i < self.thread_refs.len()
            invariant
                s0 == self.thread_refs@,
                i <= s0.len(),
                s0.take(i as int) + refs_remove_first_value(s0.skip(i as int), r)
                    == refs_remove_first_value(s0, r),
            decreases s0.len() - i,
        {
            assert(s0.skip(i as int).skip(1) =~= s0.skip(i + 1));
            if self.thread_refs[i].1 == r {
                assert(s0.remove(i as int) =~= s0.take(i as int) + s0.skip(i + 1));
                return Some(i);
            }
            assert(s0.take(i + 1) + refs_remove_first_value(s0.skip(i + 1), r) =~= s0.take(i as int)
                + (seq![s0[i as int]] + refs_remove_first_value(s0.skip(i + 1), r)));
            i = i + 1;
        }
        assert(s0.skip(s0.len() as int) =~= Seq::<(usize, i32)>::empty());
        assert(s0.take(s0.len() as int) + Seq::<(usize, i32)>::empty() =~= s0);
        None
    }

    fn refs_remove_first_value_exec(&mut self, r: i32)
        ensures
            final(self).thread_refs@ == refs_remove_first_value(old(self).thread_refs@, r),
            final(self).next_delay_id == old(self).next_delay_id,
            final(self).ready == old(self).ready,
            final(self).yielded == old(self).yielded,
            final(self).timers == old(self).timers,
            final(self).waits == old(self).waits,
            final(self).delay_threads == old(self).delay_threads,
            final(self).canceled_threads == old(self).canceled_threads,
            final(self).canceled_delays == old(self).canceled_delays,
            final(self).thread_init_nargs == old(self).thread_init_nargs,
    {
        if let Some(i) = self.first_value_position(r) {
            self.thread_refs.remove(i);
        }
    }

    /// Records that the Lua thread at address `th` has reference `thread_ref`.
    pub fn register_thread(&mut self, th: usize, thread_ref: i32)
        requires
            old(self).wf(),
        ensures
            final(self).wf(),
            final(self)@ == (SchedulerState {
                thread_refs: refs_insert(old(self)@.thread_refs, th, thread_ref),
                ..old(self)@
            }),
    {
        proof {
            lemma_refs_insert(self.thread_refs@, th, thread_ref);
        }
        self.refs_remove_key_exec(th);
        self.thread_refs.push((th, thread_ref));
    }
}

impl Scheduler {
    fn insert_timer(&mut self, t: ScheduledTask)
        requires
            old(self).wf(),
        ensures
            final(self).wf(),
            final(self)@ == (SchedulerState { timers: timers_insert(old(self)@.timers, t), ..old(self)@ }),
    {
        let ghost ts = self.timers@;
        let mut i: usize = 0;
        while i < self.timers.len() && self.timers[i].due <= t.due
            invariant
                ts == self.timers@,
                i <= ts.len(),
                forall|j: int| 0 <= j < i ==> ts[j].due <= t.due,
            decreases ts.len() - i,
        {
            i = i + 1;
        }
        proof {
            lemma_timers_insert_at(ts, t, i as int);
        }
        self.timers.insert(i, t);
        assert(timers_sorted(self.timers@)) by {
            let ns = self.timers@;
            assert forall|a: int, b: int| 0 <= a <= b < ns.len() implies ns[a].due <= ns[b].due by {
                if a < i && b < i {
                    assert(ns[a] == ts[a] && ns[b] == ts[b]);
                } else if a < i && b == i {
                } else if a < i {
                    assert(ns[a] == ts[a] && ns[b] == ts[b - 1]);
                } else if a == i && b > i {
                    assert(ns[b] == ts[b - 1]);
                    assert(ts[i as int].due <= ts[b - 1].due);
                } else if a > i {
                    assert(ns[a] == ts[a - 1] && ns[b] == ts[b - 1]);
                }
            }
        }
    }

    fn start_thread(&mut self, th: usize, thread_ref: i32, nargs: i32)
        requires
            old(self).wf(),
        ensures
            final(self).wf(),
            final(self)@ == (SchedulerState {
                ready: old(self)@.ready.push(thread_ref),
                thread_refs: refs_insert(old(self)@.thread_refs, th, thread_ref),
                init_nargs: old(self)@.init_nargs.insert(thread_ref, nargs),
                ..old(self)@
            }),
    {
        proof {
            lemma_refs_insert(self.thread_refs@, th, thread_ref);
        }
        self.ready.push(thread_ref);
        self.refs_remove_key_exec(th);
        self.thread_refs.push((th, thread_ref));
        self.thread_init_nargs.insert(thread_ref, nargs);
    }

    /// `task.spawn`: queues the new thread `thread_ref` (at address `th`) to run on the next
    /// round, passing it the `nargs - 1` values after the function.
    pub fn spawn(&mut self, th: usize, thread_ref: i32, nargs: i32)
        requires
            old(self).wf(),
        ensures
            nargs >= 1 ==> final(self)@.init_nargs[thread_ref] == nargs - 1,
            final(self).wf(),
            final(self)@ == (SchedulerState {
                ready: old(self)@.ready.push(thread_ref),
                thread_refs: refs_insert(old(self)@.thread_refs, th, thread_ref),
                init_nargs: old(self)@.init_nargs.insert(thread_ref, spawn_arg_count(nargs)),
                ..old(self)@
            }),
    {
        let n = if nargs > 0 { nargs - 1 } else { 0 };
        self.start_thread(th, thread_ref, n);
    }

    /// `task.defer`: queues the new thread `thread_ref` (at address `th`) behind the threads
    /// started by `spawn`, to run after them in the next round, passing it the `nargs - 1`
    /// values after the function.
    pub fn defer(&mut self, th: usize, thread_ref: i32, nargs: i32)
        requires
            old(self).wf(),
        ensures
            nargs >= 1 ==> final(self)@.init_nargs[thread_ref] == nargs - 1,
            final(self).wf(),
            final(self)@ == (SchedulerState {
                yielded: old(self)@.yielded.push(thread_ref),
                thread_refs: refs_insert(old(self)@.thread_refs, th, thread_ref),
                init_nargs: old(self)@.init_nargs.insert(thread_ref, spawn_arg_count(nargs)),
                ..old(self)@
            }),
    {
        let n = if nargs > 0 { nargs - 1 } else { 0 };
        proof {
            lemma_refs_insert(self.thread_refs@, th, thread_ref);
        }
        self.yielded.push(thread_ref);
        self.refs_remove_key_exec(th);
        self.thread_refs.push((th, thread_ref));
        self.thread_init_nargs.insert(thread_ref, n);
    }

    /// Queues the thread running the entry chunk, with no arguments.
    pub fn schedule_main_thread(&mut self, th: usize, thread_ref: i32)
        requires
            old(self).wf(),
        ensures
            final(self).wf(),
            final(self)@ == (SchedulerState {
                ready: old(self)@.ready.push(thread_ref),
                thread_refs: refs_insert(old(self)@.thread_refs, th, thread_ref),
                init_nargs: old(self)@.init_nargs.insert(thread_ref, 0),
                ..old(self)@
            }),
    {
        self.start_thread(th, thread_ref, 0);
    }

    /// `task.delay`: schedules the new thread to start at tick `due`, passing it the
    /// `nargs - 2` values after the delay and the function; returns the delay's id.
    pub fn delay(&mut self, th: usize, thread_ref: i32, nargs: i32, due: u64) -> (id: u64)
        requires
            old(self).wf(),
        ensures
            nargs >= 2 ==> final(self)@.init_nargs[thread_ref] == nargs - 2,
            final(self).wf(),
            id == old(self)@.next_delay_id,
            id != 0,
            final(self)@ == (SchedulerState {
                next_delay_id: following_delay_id(id),
                delay_threads: old(self)@.delay_threads.insert(id, thread_ref),
                thread_refs: refs_insert(old(self)@.thread_refs, th, thread_ref),
                init_nargs: old(self)@.init_nargs.insert(thread_ref, delay_arg_count(nargs)),
                timers: timers_insert(
                    old(self)@.timers,
                    ScheduledTask { due, key: TaskKey::DelayId(id) },
                ),
                ..old(self)@
            }),
    {
        let id = self.next_delay_id;
        self.next_delay_id = if id == u64::MAX { 1 } else { id + 1 };
        self.delay_threads.insert(id, thread_ref);
        proof {
            lemma_refs_insert(self.thread_refs@, th, thread_ref);
        }
        self.refs_remove_key_exec(th);
        self.thread_refs.push((th, thread_ref));
        let n = if nargs > 2 { nargs - 2 } else { 0 };
        self.thread_init_nargs.insert(thread_ref, n);
        self.insert_timer(ScheduledTask { due, key: TaskKey::DelayId(id) });
        id
    }

    /// `task.wait(secs)` with a positive delay: the thread sleeps from tick `now` until
    /// tick `due`.
    pub fn wait_until(&mut self, thread_ref: i32, now: u64, due: u64)
        requires
            old(self).wf(),
        ensures
            final(self).wf(),
            final(self)@ == (SchedulerState {
                waits: old(self)@.waits.insert(thread_ref, now),
                timers: timers_insert(
                    old(self)@.timers,
                    ScheduledTask { due, key: TaskKey::ThreadRef(thread_ref) },
                ),
                ..old(self)@
            }),
    {
        self.waits.insert(thread_ref, now);
        self.insert_timer(ScheduledTask { due, key: TaskKey::ThreadRef(thread_ref) });
    }

    /// Queues a thread to resume on the next round (`task.wait()` without a delay, or a
    /// thread giving way while another loads a module).
    pub fn resume_thread_by_ref(&mut self, thread_ref: i32)
        requires
            old(self).wf(),
        ensures
            final(self).wf(),
            final(self)@ == (SchedulerState { yielded: old(self)@.yielded.push(thread_ref), ..old(self)@ }),
    {
        self.yielded.push(thread_ref);
    }

    /// The due tick of the earliest pending timer.
    pub fn next_due(&self) -> (r: Option<u64>)
        requires
            self.wf(),
        ensures
            self@.timers.len() == 0 ==> r is None,
            self@.timers.len() > 0 ==> r == Some(self@.timers[0].due)
                && forall|i: int| 0 <= i < self@.timers.len() ==> self@.timers[0].due <= #[trigger] self@.timers[i].due,
    {
        if self.timers.len() == 0 {
            None
        } else {
            Some(self.timers[0].due)
        }
    }
}

/// What the host does for a thread it is about to resume.
#[derive(Debug, Clone, Copy, PartialEq, Eq, Structural)]
pub enum ResumePlan {
    /// The thread was canceled: drop its reference instead of resuming it.
    Canceled,
    /// Resume with `nargs` values on its stack; after a wait, the first is the time
    /// elapsed since tick `waited_since`.
    Resume { nargs: i32, waited_since: Option<u64> },
}

/// The threads to run in one scheduler round, and the canceled threads whose references
/// the host drops.
pub struct Round {
    pub runnable: Vec<i32>,
    pub released: Vec<i32>,
}

fn queue_without_exec(q: &Vec<i32>, r: i32) -> (out: Vec<i32>)
    ensures
        out@ == queue_without(q@, r),
{
    let mut out: Vec<i32> = Vec::new();
    let mut i: usize = 0;
    assert(q@.skip(0) =~= q@);
    while i < q.len()
        invariant
            i <= q@.len(),
            out@ + queue_without(q@.skip(i as int), r) == queue_without(q@, r),
        decreases q@.len() - i,
    {
        assert(q@.skip(i as int).skip(1) =~= q@.skip(i + 1));
        let x = q[i];
        if x != r {
            let ghost before = out@;
            out.push(x);
            assert(out@ + queue_without(q@.skip(i + 1), r) =~= before + (seq![x] + queue_without(
                q@.skip(i + 1),
                r,
            )));
        }
        i = i + 1;
    }
    assert(q@.skip(q@.len() as int) =~= Seq::<i32>::empty());
    assert(out@ + Seq::<i32>::empty() =~= out@);
    out
}

fn timers_without_exec(ts: &Vec<ScheduledTask>, key: TaskKey) -> (out: Vec<ScheduledTask>)
    ensures
        out@ == timers_without(ts@, key),
{
    let mut out: Vec<ScheduledTask> = Vec::new();
    let mut i: usize = 0;
    assert(ts@.skip(0) =~= ts@);
    while i < ts.len()
        invariant
            i <= ts@.len(),
            out@ + timers_without(ts@.skip(i as int), key) == timers_without(ts@, key),
        decreases ts@.len() - i,
    {
        assert(ts@.skip(i as int).skip(1) =~= ts@.skip(i + 1));
        let x = ts[i];
        if x.key != key {
            let ghost before = out@;
            out.push(x);
            assert(out@ + timers_without(ts@.skip(i + 1), key) =~= before + (seq![x]
                + timers_without(ts@.skip(i + 1), key)));
        }
        i = i + 1;
    }
    assert(ts@.skip(ts@.len() as int) =~= Seq::<ScheduledTask>::empty());
    assert(out@ + Seq::<ScheduledTask>::empty() =~= out@);
    out
}

impl Scheduler {
    /// `task.cancel(thread)`: when the thread at address `th` is known, marks its reference
    /// canceled, removes it from the queues, the waits and the timers, forgets the thread
    /// and answers `true`; otherwise changes nothing and answers `false`.
    pub fn cancel_thread(&mut self, th: usize) -> (found: bool)
        requires
            old(self).wf(),
        ensures
            final(self).wf(),
            found == (refs_lookup(old(self)@.thread_refs, th) is Some),
            !found ==> final(self)@ == old(self)@,
            found ==> ({
                let r = refs_lookup(old(self)@.thread_refs, th).unwrap();
                final(self)@ == SchedulerState {
                    canceled_threads: old(self)@.canceled_threads.insert(r),
                    ready: queue_without(old(self)@.ready, r),
                    yielded: queue_without(old(self)@.yielded, r),
                    waits: old(self)@.waits.remove(r),
                    thread_refs: refs_remove_key(old(self)@.thread_refs, th),
                    timers: timers_without(old(self)@.timers, TaskKey::ThreadRef(r)),
                    ..old(self)@
                }
            }),
    {
        match self.get_thread_ref_for_state(th) {
            None => false,
            Some(r) => {
                self.canceled_threads.insert(r);
                self.ready = queue_without_exec(&self.ready, r);
                self.yielded = queue_without_exec(&self.yielded, r);
                self.waits.remove(&r);
                proof {
                    lemma_refs_remove_key(self.thread_refs@, th);
                }
                self.refs_remove_key_exec(th);
                proof {
                    lemma_timers_without_sorted(self.timers@, TaskKey::ThreadRef(r));
                }
                self.timers = timers_without_exec(&self.timers, TaskKey::ThreadRef(r));
                true
            },
        }
    }

    fn has_timer_exec(&self, key: TaskKey) -> (r: bool)
        ensures
            r == has_timer(self.timers@, key),
    {
        let mut i: usize = 0;
        while i < self.timers.len()
            invariant
                i <= self.timers@.len(),
                forall|j: int| 0 <= j < i ==> self.timers@[j].key != key,
            decreases self.timers@.len() - i,
        {
            if self.timers[i].key == key {
                return true;
            }
            i = i + 1;
        }
        false
    }

    /// `task.cancel(id)`: when a timer or a pending call has delay id `id`, marks the id
    /// canceled, removes its timers and its pending call and answers `true`; otherwise
    /// changes nothing and answers `false`.
    pub fn cancel_delay(&mut self, id: u64) -> (found: bool)
        requires
            old(self).wf(),
        ensures
            final(self).wf(),
            found == (has_timer(old(self)@.timers, TaskKey::DelayId(id))
                || old(self)@.delay_threads.contains_key(id)),
            final(self)@.canceled_threads == old(self)@.canceled_threads,
            !found ==> final(self)@ == old(self)@,
            found ==> final(self)@ == (SchedulerState {
                canceled_delays: old(self)@.canceled_delays.insert(id),
                timers: timers_without(old(self)@.timers, TaskKey::DelayId(id)),
                delay_threads: old(self)@.delay_threads.remove(id),
                ..old(self)@
            }),
    {
        let exists = self.has_timer_exec(TaskKey::DelayId(id)) || self.delay_threads.contains_key(&id);
        if exists {
            self.canceled_delays.insert(id);
            proof {
                lemma_timers_without_sorted(self.timers@, TaskKey::DelayId(id));
            }
            self.timers = timers_without_exec(&self.timers, TaskKey::DelayId(id));
            self.delay_threads.remove(&id);
        }
        exists
    }

    fn due_step_exec(&mut self, t: ScheduledTask, resumed: &mut Vec<i32>, released: &mut Vec<i32>)
        ensures
            ({
                let (s1, a, b) = due_step(old(self)@, t);
                &&& final(self)@ == s1
                &&& final(resumed)@ == match a {
                    Some(r) => old(resumed)@.push(r),
                    None => old(resumed)@,
                }
                &&& final(released)@ == match b {
                    Some(r) => old(released)@.push(r),
                    None => old(released)@,
                }
            }),
    {
        let ghost s0 = self@;
        match t.key {
            TaskKey::ThreadRef(r) => {
                if self.canceled_threads.remove(&r) {
                    self.waits.remove(&r);
                    self.refs_remove_first_value_exec(r);
                    released.push(r);
                } else {
                    assert(self.canceled_threads@ =~= s0.canceled_threads);
                    if self.waits.contains_key(&r) {
                        resumed.push(r);
                    }
                }
            },
            TaskKey::DelayId(id) => {
                if self.canceled_delays.remove(&id) {
                    match self.delay_threads.remove(&id) {
                        Some(r) => {
                            self.waits.remove(&r);
                            self.refs_remove_first_value_exec(r);
                            released.push(r);
                        },
                        None => {
                            assert(self.delay_threads@ =~= s0.delay_threads);
                        },
                    }
                } else {
                    assert(self.canceled_delays@ =~= s0.canceled_delays);
                    match self.delay_threads.remove(&id) {
                        Some(r) => {
                            resumed.push(r);
                        },
                        None => {
                            assert(self.delay_threads@ =~= s0.delay_threads);
                        },
                    }
                }
            },
        }
    }

    /// Takes the timers due at tick `now`, in timer order: a waiting thread or a pending
    /// delayed call is resumed; a canceled one is released.
    pub fn pop_due(&mut self, now: u64) -> (r: Round)
        requires
            old(self).wf(),
        ensures
            final(self).wf(),
            ({
                let (s1, resumed, released) = pop_due_effect(old(self)@, now);
                &&& final(self)@ == s1
                &&& r.runnable@ == resumed
                &&& r.released@ == released
            }),
    {
        let ghost s0 = self@;
        let ghost ts = self.timers@;
        proof {
            lemma_due_count(ts, now);
        }
        let mut k: usize = 0;
        while k < self.timers.len() && self.timers[k].due <= now
            invariant
                ts == self.timers@,
                k <= due_count(ts, now),
                timers_sorted(ts),
                due_count(ts, now) <= ts.len(),
                forall|i: int| 0 <= i < due_count(ts, now) ==> ts[i].due <= now,
                forall|i: int| due_count(ts, now) <= i < ts.len() ==> ts[i].due > now,
            decreases ts.len() - k,
        {
            k = k + 1;
        }
        assert(k == due_count(ts, now));
        let ghost pre = ts.take(k as int);
        let mut resumed: Vec<i32> = Vec::new();
        let mut released: Vec<i32> = Vec::new();
        let mut i: usize = 0;
        assert(pre.skip(0) =~= pre);
        while i < k
            invariant
                k <= ts.len(),
                pre == ts.take(k as int),
                self.timers@ == ts,
                self.next_delay_id == s0.next_delay_id,
                timers_sorted(ts),
                refs_unique(self@.thread_refs),
                i <= k,
                process_due(s0, pre, Seq::empty(), Seq::empty()) == process_due(
                    self@,
                    pre.skip(i as int),
                    resumed@,
                    released@,
                ),
            decreases k - i,
        {
            let t = self.timers[i];
            assert(pre.skip(i as int)[0] == t);
            assert(pre.skip(i as int).skip(1) =~= pre.skip(i + 1));
            proof {
                lemma_due_step_keeps_refs_unique(self@, t);
            }
            self.due_step_exec(t, &mut resumed, &mut released);
            i = i + 1;
        }
        assert(pre.skip(k as int) =~= Seq::<ScheduledTask>::empty());
        let tail = self.timers.split_off(k);
        self.timers = tail;
        assert(self.timers@ =~= ts.skip(k as int));
        assert(timers_sorted(self.timers@)) by {
            assert forall|a: int, b: int| 0 <= a <= b < self.timers@.len() implies
                self.timers@[a].due <= self.timers@[b].due by {
                assert(self.timers@[a] == ts[a + k] && self.timers@[b] == ts[b + k]);
            }
        }
        Round { runnable: resumed, released }
    }

    /// One scheduler round: takes every spawned thread, then every thread that gave way,
    /// then the threads woken by timers due at tick `now`.
    pub fn collect_runnable(&mut self, now: u64) -> (r: Round)
        requires
            old(self).wf(),
        ensures
            final(self).wf(),
            ({
                let s0 = SchedulerState { ready: Seq::empty(), yielded: Seq::empty(), ..old(self)@ };
                let (s1, resumed, released) = pop_due_effect(s0, now);
                &&& final(self)@ == s1
                &&& r.runnable@ == old(self)@.ready + old(self)@.yielded + resumed
                &&& r.released@ == released
            }),
    {
        let mut runnable: Vec<i32> = Vec::new();
        runnable.append(&mut self.ready);
        runnable.append(&mut self.yielded);
        let mut due = self.pop_due(now);
        runnable.append(&mut due.runnable);
        Round { runnable, released: due.released }
    }

    /// Prepares resuming `thread_ref`: its wait ends; a canceled thread is forgotten and
    /// must not run; otherwise it resumes with the elapsed time after a wait, or with its
    /// initial arguments on its first run.
    pub fn begin_resume(&mut self, thread_ref: i32) -> (plan: ResumePlan)
        requires
            old(self).wf(),
        ensures
            final(self).wf(),
            ({
                let s = old(self)@;
                let waited = map_get(s.waits, thread_ref);
                let s1 = SchedulerState { waits: s.waits.remove(thread_ref), ..s };
                if s.canceled_threads.contains(thread_ref) {
                    &&& plan == ResumePlan::Canceled
                    &&& final(self)@ == SchedulerState {
                        canceled_threads: s.canceled_threads.remove(thread_ref),
                        thread_refs: refs_remove_value(s.thread_refs, thread_ref),
                        ..s1
                    }
                } else if waited is Some {
                    &&& plan == ResumePlan::Resume { nargs: 1, waited_since: waited }
                    &&& final(self)@ == s1
                } else {
                    &&& plan == ResumePlan::Resume {
                        nargs: match map_get(s.init_nargs, thread_ref) {
                            Some(n) => n,
                            None => 0,
                        },
                        waited_since: None,
                    }
                    &&& final(self)@ == SchedulerState {
                        init_nargs: s.init_nargs.remove(thread_ref),
                        ..s1
                    }
                }
            }),
    {
        let waited = self.waits.remove(&thread_ref);
        proof {
            lemma_refs_remove_value(self.thread_refs@, thread_ref);
        }
        if self.canceled_threads.remove(&thread_ref) {
            self.refs_remove_value_exec(thread_ref);
            self.waits.remove(&thread_ref);
            assert(self.waits@ =~= old(self)@.waits.remove(thread_ref));
            return ResumePlan::Canceled;
        }
        assert(self.canceled_threads@ =~= old(self)@.canceled_threads);
        match waited {
            Some(start) => ResumePlan::Resume { nargs: 1, waited_since: Some(start) },
            None => {
                let n = match self.thread_init_nargs.remove(&thread_ref) {
                    Some(n) => n,
                    None => {
                        assert(self.thread_init_nargs@ =~= old(self)@.init_nargs.remove(thread_ref));
                        0
                    },
                };
                ResumePlan::Resume { nargs: n, waited_since: None }
            },
        }
    }

    /// After resuming `thread_ref`: a thread that finished is forgotten everywhere (the
    /// host drops its reference); one that yielded stays as it is.
    pub fn finish_resume(&mut self, thread_ref: i32, completed: bool)
        requires
            old(self).wf(),
        ensures
            final(self).wf(),
            !completed ==> final(self)@ == old(self)@,
            completed ==> final(self)@ == (SchedulerState {
                thread_refs: refs_remove_value(old(self)@.thread_refs, thread_ref),
                waits: old(self)@.waits.remove(thread_ref),
                init_nargs: old(self)@.init_nargs.remove(thread_ref),
                ..old(self)@
            }),
    {
        proof {
            lemma_refs_remove_value(self.thread_refs@, thread_ref);
        }
        if completed {
            self.refs_remove_value_exec(thread_ref);
            self.waits.remove(&thread_ref);
            self.thread_init_nargs.remove(&thread_ref);
        }
    }

    /// Clears the scheduler back to its fresh state; answers the references of every known
    /// thread, for the host to drop.
    pub fn shutdown(&mut self) -> (refs: Vec<i32>)
        ensures
            final(self)@ == fresh_state(),
            final(self).wf(),
            refs@ == refs_values(old(self)@.thread_refs),
    {
        let mut refs: Vec<i32> = Vec::new();
        let mut i: usize = 0;
        while i < self.thread_refs.len()
            invariant
                i <= self.thread_refs@.len(),
                refs@ == refs_values(self.thread_refs@.take(i as int)),
            decreases self.thread_refs@.len() - i,
        {
            refs.push(self.thread_refs[i].1);
            assert(refs_values(self.thread_refs@.take(i + 1)) =~= refs_values(
                self.thread_refs@.take(i as int),
            ).push(self.thread_refs@[i as int].1));
            i = i + 1;
        }
        assert(self.thread_refs@.take(self.thread_refs@.len() as int) =~= self.thread_refs@);
        *self = Scheduler::new();
        refs
    }
}


/// What `run_until_idle` does after one round of collecting work.
pub enum IdleStep {
    /// Resume these threads (and drop the released references).
    Run(Round),
    /// Nothing is ready: sleep until tick `until`, when the earliest timer is due.
    Sleep { until: u64, released: Vec<i32> },
    /// Nothing is queued and no timer is pending: the run is over.
    Idle { released: Vec<i32> },
}

impl Scheduler {
    /// One turn of running until idle at tick `now`: collects the runnable threads; when
    /// there are none, says to sleep until the earliest timer, or that the run is over when
    /// no timer is left.
    pub fn idle_round(&mut self, now: u64) -> (step: IdleStep)
        requires
            old(self).wf(),
        ensures
            final(self).wf(),
            ({
                let s0 = SchedulerState { ready: Seq::empty(), yielded: Seq::empty(), ..old(self)@ };
                let (s1, resumed, released) = pop_due_effect(s0, now);
                let runnable = old(self)@.ready + old(self)@.yielded + resumed;
                &&& final(self)@ == s1
                &&& match step {
                    IdleStep::Run(r) => runnable.len() > 0 && r.runnable@ == runnable
                        && r.released@ == released,
                    IdleStep::Sleep { until, released: rel } => runnable.len() == 0
                        && s1.timers.len() > 0 && until == s1.timers[0].due && rel@ == released,
                    IdleStep::Idle { released: rel } => runnable.len() == 0 && s1.timers.len() == 0
                        && rel@ == released,
                }
            }),
    {
        let round = self.collect_runnable(now);
        if round.runnable.len() > 0 {
            return IdleStep::Run(round);
        }
        match self.next_due() {
            Some(until) => IdleStep::Sleep { until, released: round.released },
            None => IdleStep::Idle { released: round.released },
        }
    }
}

/// The longest delay a timer may have, in milliseconds: ten years.
pub const MAX_DELAY_MS: u64 = 315_360_000_000;

/// A delay in milliseconds as timers take it: at least 1 ms and at most ten years.
pub fn clamp_delay_ms(ms: u64) -> (r: u64)
    ensures
        r == (if ms < 1 { 1 } else if ms > MAX_DELAY_MS { MAX_DELAY_MS } else { ms }),
{
    if ms < 1 {
        1
    } else if ms > MAX_DELAY_MS {
        MAX_DELAY_MS
    } else {
        ms
    }
}

/// The Lua state whose registry the scheduler drops references from, and whether it is
/// still open.
pub struct CurrentState {
    state: usize,
    valid: bool,
}

impl CurrentState {
    pub closed spec fn state(&self) -> usize {
        self.state
    }

    pub closed spec fn valid(&self) -> bool {
        self.valid
    }

    /// No state yet.
    pub fn new() -> (r: Self)
        ensures
            r.state() == 0,
            !r.valid(),
    {
        CurrentState { state: 0, valid: false }
    }

    /// Records the state `l` before any scheduler work (`init`), without marking it open.
    pub fn set_state(&mut self, l: usize)
        ensures
            final(self).state() == l,
            final(self).valid() == old(self).valid(),
    {
        self.state = l;
    }

    /// The state `l` was just created and may have references dropped.
    pub fn mark_current_state_valid(&mut self, l: usize)
        ensures
            final(self).state() == l,
            final(self).valid(),
    {
        self.state = l;
        self.valid = true;
    }

    /// The state is about to close: no reference may be dropped from it any more.
    pub fn mark_current_state_invalid(&mut self)
        ensures
            final(self).state() == 0,
            !final(self).valid(),
    {
        self.valid = false;
        self.state = 0;
    }

    /// The state to drop a reference from: only a state marked open, and never address 0.
    pub fn unref_target(&self) -> (r: Option<usize>)
        ensures
            r == (if self.valid() && self.state() != 0 { Some(self.state()) } else { None::<usize> }),
    {
        if self.valid && self.state != 0 {
            Some(self.state)
        } else {
            None
        }
    }
}

// ---------------------------------------------------------------------------
// Laws
// ---------------------------------------------------------------------------

/// Removing a reference from a queue leaves none of it and keeps every other entry.
pub proof fn lemma_queue_without(q: Seq<i32>, r: i32)
    ensures
        !queue_without(q, r).contains(r),
        forall|x: i32| x != r && q.contains(x) ==> queue_without(q, r).contains(x),
    decreases q.len(),
{
    if q.len() > 0 {
        lemma_queue_without(q.skip(1), r);
        assert forall|x: i32| x != r && q.contains(x) implies queue_without(q, r).contains(x) by {
            let k = choose|k: int| 0 <= k < q.len() && q[k] == x;
            if k == 0 {
                assert((seq![q[0]] + queue_without(q.skip(1), r))[0] == x);
            } else {
                assert(q.skip(1)[k - 1] == x);
                assert(q.skip(1).contains(x));
                let w = queue_without(q.skip(1), r);
                assert(w.contains(x));
                if q[0] != r {
                    let j = choose|j: int| 0 <= j < w.len() && w[j] == x;
                    assert((seq![q[0]] + w)[j + 1] == x);
                }
            }
        }
        if q[0] != r {
            let w = queue_without(q.skip(1), r);
            assert forall|j: int| 0 <= j < (seq![q[0]] + w).len() implies (seq![q[0]] + w)[j] != r by {
                if j > 0 {
                    assert((seq![q[0]] + w)[j] == w[j - 1]);
                }
            }
        }
    }
}

/// Removing the timers of a key leaves none of them and keeps every other timer.
pub proof fn lemma_timers_without(ts: Seq<ScheduledTask>, key: TaskKey)
    ensures
        !has_timer(timers_without(ts, key), key),
        forall|t: ScheduledTask| t.key != key && ts.contains(t) ==> timers_without(ts, key).contains(t),
    decreases ts.len(),
{
    if ts.len() > 0 {
        lemma_timers_without(ts.skip(1), key);
        let w = timers_without(ts.skip(1), key);
        assert forall|t: ScheduledTask| t.key != key && ts.contains(t) implies timers_without(
            ts,
            key,
        ).contains(t) by {
            let k = choose|k: int| 0 <= k < ts.len() && ts[k] == t;
            if k == 0 {
                assert((seq![ts[0]] + w)[0] == t);
            } else {
                assert(ts.skip(1)[k - 1] == t);
                assert(ts.skip(1).contains(t));
                assert(w.contains(t));
                if ts[0].key != key {
                    let j = choose|j: int| 0 <= j < w.len() && w[j] == t;
                    assert((seq![ts[0]] + w)[j + 1] == t);
                }
            }
        }
        if ts[0].key != key {
            assert forall|j: int| 0 <= j < (seq![ts[0]] + w).len() implies (seq![ts[0]] + w)[j].key
                != key by {
                if j > 0 {
                    assert((seq![ts[0]] + w)[j] == w[j - 1]);
                }
            }
        }
    }
}

/// `task.cancel(thread)` that answers `true` takes the thread out of everything that could
/// resume it: neither queue holds it, no timer wakes it, it waits no more, its address is
/// forgotten, and a later due timer of it releases it instead of resuming it. Every other
/// queued thread stays queued.
pub proof fn lemma_cancel_thread_removes_it(s: SchedulerState, th: usize)
    requires
        refs_lookup(s.thread_refs, th) is Some,
    ensures
        ({
            let r = refs_lookup(s.thread_refs, th).unwrap();
            let s1 = SchedulerState {
                canceled_threads: s.canceled_threads.insert(r),
                ready: queue_without(s.ready, r),
                yielded: queue_without(s.yielded, r),
                waits: s.waits.remove(r),
                thread_refs: refs_remove_key(s.thread_refs, th),
                timers: timers_without(s.timers, TaskKey::ThreadRef(r)),
                ..s
            };
            &&& !s1.ready.contains(r)
            &&& !s1.yielded.contains(r)
            &&& !has_timer(s1.timers, TaskKey::ThreadRef(r))
            &&& !s1.waits.contains_key(r)
            &&& refs_lookup(s1.thread_refs, th) is None
            &&& s1.canceled_threads.contains(r)
            &&& forall|x: i32| x != r && s.ready.contains(x) ==> s1.ready.contains(x)
            &&& forall|x: i32| x != r && s.yielded.contains(x) ==> s1.yielded.contains(x)
        }),
{
    let r = refs_lookup(s.thread_refs, th).unwrap();
    lemma_queue_without(s.ready, r);
    lemma_queue_without(s.yielded, r);
    lemma_timers_without(s.timers, TaskKey::ThreadRef(r));
    lemma_refs_lookup_remove_key(s.thread_refs, th);
}

proof fn lemma_refs_lookup_found(s: Seq<(usize, i32)>, th: usize)
    requires
        refs_lookup(s, th) is Some,
    ensures
        s.contains((th, refs_lookup(s, th).unwrap())),
    decreases s.len(),
{
    if s[0].0 != th {
        lemma_refs_lookup_found(s.skip(1), th);
        lemma_skip_contains(s, (th, refs_lookup(s, th).unwrap()));
    } else {
        assert(s[0] == (th, refs_lookup(s, th).unwrap()));
    }
}

proof fn lemma_refs_remove_value_forgets(s: Seq<(usize, i32)>, th: usize, r: i32)
    requires
        refs_unique(s),
        refs_lookup(s, th) == Some(r),
    ensures
        refs_lookup(refs_remove_value(s, r), th) is None,
    decreases s.len(),
{
    let t = s.skip(1);
    lemma_refs_unique_tail(s);
    lemma_refs_remove_value(t, r);
    if s[0].0 == th {
        if refs_lookup(refs_remove_value(t, r), th) is Some {
            lemma_refs_lookup_found(refs_remove_value(t, r), th);
            let e = (th, refs_lookup(refs_remove_value(t, r), th).unwrap());
            assert(t.contains(e));
        }
    } else {
        lemma_refs_remove_value_forgets(t, th, r);
        if s[0].1 != r {
            assert((seq![s[0]] + refs_remove_value(t, r)).skip(1) =~= refs_remove_value(t, r));
        }
    }
}

/// A thread that finished (`finish_resume` with `completed`) is forgotten: `task.cancel` on
/// its address finds nothing.
pub proof fn lemma_completed_thread_cannot_be_canceled(s: SchedulerState, th: usize)
    requires
        state_wf(s),
        refs_lookup(s.thread_refs, th) is Some,
    ensures
        ({
            let r = refs_lookup(s.thread_refs, th).unwrap();
            refs_lookup(refs_remove_value(s.thread_refs, r), th) is None
        }),
{
    let r = refs_lookup(s.thread_refs, th).unwrap();
    lemma_refs_remove_value_forgets(s.thread_refs, th, r);
}

/// Canceling a delay touches no thread: every queued thread stays queued, no thread's
/// cancel mark changes, so a thread that was not canceled still resumes (`begin_resume`
/// plans a resume for it), whatever number its reference happens to share with the delay.
pub proof fn lemma_delay_cancel_spares_threads(s: SchedulerState, id: u64, r: i32)
    requires
        !s.canceled_threads.contains(r),
    ensures
        ({
            let s1 = SchedulerState {
                canceled_delays: s.canceled_delays.insert(id),
                timers: timers_without(s.timers, TaskKey::DelayId(id)),
                delay_threads: s.delay_threads.remove(id),
                ..s
            };
            &&& s1.canceled_threads == s.canceled_threads
            &&& !s1.canceled_threads.contains(r)
            &&& s1.ready == s.ready
            &&& s1.yielded == s.yielded
            &&& forall|t: ScheduledTask| t.key == TaskKey::ThreadRef(r) && s.timers.contains(t)
                ==> s1.timers.contains(t)
        }),
{
    lemma_timers_without(s.timers, TaskKey::DelayId(id));
}

/// `task.cancel(id)` that answers `true` leaves no timer and no pending call for the delay:
/// it never fires.
pub proof fn lemma_cancel_delay_removes_it(s: SchedulerState, id: u64)
    ensures
        ({
            let s1 = SchedulerState {
                canceled_delays: s.canceled_delays.insert(id),
                timers: timers_without(s.timers, TaskKey::DelayId(id)),
                delay_threads: s.delay_threads.remove(id),
                ..s
            };
            &&& !has_timer(s1.timers, TaskKey::DelayId(id))
            &&& !s1.delay_threads.contains_key(id)
            &&& forall|t: ScheduledTask| t.key != TaskKey::DelayId(id) && s.timers.contains(t)
                ==> s1.timers.contains(t)
        }),
{
    lemma_timers_without(s.timers, TaskKey::DelayId(id));
}

proof fn lemma_process_due_keeps_delay_gone(
    s: SchedulerState,
    ts: Seq<ScheduledTask>,
    resumed: Seq<i32>,
    released: Seq<i32>,
    id: u64,
)
    requires
        !s.delay_threads.contains_key(id),
    ensures
        !process_due(s, ts, resumed, released).0.delay_threads.contains_key(id),
    decreases ts.len(),
{
    if ts.len() > 0 {
        let (s1, a, b) = due_step(s, ts[0]);
        lemma_process_due_keeps_delay_gone(
            s1,
            ts.skip(1),
            match a {
                Some(r) => resumed.push(r),
                None => resumed,
            },
            match b {
                Some(r) => released.push(r),
                None => released,
            },
            id,
        );
    }
}

proof fn lemma_process_due_ends_delay(
    s: SchedulerState,
    ts: Seq<ScheduledTask>,
    resumed: Seq<i32>,
    released: Seq<i32>,
    id: u64,
    i: int,
)
    requires
        0 <= i < ts.len(),
        ts[i].key == TaskKey::DelayId(id),
    ensures
        !process_due(s, ts, resumed, released).0.delay_threads.contains_key(id),
    decreases ts.len(),
{
    let (s1, a, b) = due_step(s, ts[0]);
    let resumed1 = match a {
        Some(r) => resumed.push(r),
        None => resumed,
    };
    let released1 = match b {
        Some(r) => released.push(r),
        None => released,
    };
    if i == 0 {
        lemma_process_due_keeps_delay_gone(s1, ts.skip(1), resumed1, released1, id);
    } else {
        lemma_process_due_ends_delay(s1, ts.skip(1), resumed1, released1, id, i - 1);
    }
}

/// A delay whose timer has come due (it fired, or was released after a cancel) is over:
/// no timer and no pending call is left for it, so `task.cancel(id)` answers `false`.
/// The delay must have had no second timer under the same id, which only the id counter
/// wrapping around could give it.
pub proof fn lemma_fired_delay_cannot_be_canceled(s: SchedulerState, now: u64, id: u64, i: int)
    requires
        state_wf(s),
        0 <= i < due_count(s.timers, now),
        s.timers[i].key == TaskKey::DelayId(id),
        !has_timer(s.timers.skip(due_count(s.timers, now) as int), TaskKey::DelayId(id)),
    ensures
        ({
            let s1 = pop_due_effect(s, now).0;
            &&& !has_timer(s1.timers, TaskKey::DelayId(id))
            &&& !s1.delay_threads.contains_key(id)
        }),
{
    lemma_due_count(s.timers, now);
    let k = due_count(s.timers, now) as int;
    lemma_process_due_ends_delay(s, s.timers.take(k), Seq::empty(), Seq::empty(), id, i);
}

/// Taking the due timers at tick `now` leaves exactly the timers not yet due, in order:
/// every timer left is due after `now`, and they are the timers that followed the due ones.
pub proof fn lemma_pop_due_leaves_future_timers(s: SchedulerState, now: u64)
    requires
        state_wf(s),
    ensures
        ({
            let left = pop_due_effect(s, now).0.timers;
            &&& forall|i: int| 0 <= i < left.len() ==> left[i].due > now
            &&& left == s.timers.skip(due_count(s.timers, now) as int)
            &&& forall|i: int| 0 <= i < due_count(s.timers, now) ==> s.timers[i].due <= now
        }),
{
    lemma_due_count(s.timers, now);
    let k = due_count(s.timers, now) as int;
    let left = pop_due_effect(s, now).0.timers;
    assert forall|i: int| 0 <= i < left.len() implies left[i].due > now by {
        assert(left[i] == s.timers[i + k]);
    }
}

/// A due timer hands a thread back for its reference to be dropped only when it was
/// canceled, and never both resumes and releases: a timer of thread `r` releases `r` only
/// when `r` is marked canceled, and resumes it only when it is not canceled and waits; a
/// timer of delay `id` releases the delay's thread only when `id` is marked canceled, and
/// resumes it only when `id` is not canceled.
pub proof fn lemma_due_step_releases_only_canceled(s: SchedulerState, t: ScheduledTask)
    ensures
        ({
            let (s1, a, b) = due_step(s, t);
            &&& a is Some ==> b is None
            &&& b matches Some(r) ==> match t.key {
                TaskKey::ThreadRef(x) => x == r && s.canceled_threads.contains(r),
                TaskKey::DelayId(id) => s.canceled_delays.contains(id)
                    && s.delay_threads.contains_key(id) && s.delay_threads[id] == r,
            }
            &&& a matches Some(r) ==> match t.key {
                TaskKey::ThreadRef(x) => x == r && !s.canceled_threads.contains(r) && s.waits.contains_key(r),
                TaskKey::DelayId(id) => !s.canceled_delays.contains(id)
                    && s.delay_threads.contains_key(id) && s.delay_threads[id] == r,
            }
        }),
{
}

/// No timer of `ts` is marked canceled in `s`.
pub open spec fn none_canceled(s: SchedulerState, ts: Seq<ScheduledTask>) -> bool {
    forall|i: int| 0 <= i < ts.len() ==> match (#[trigger] ts[i]).key {
        TaskKey::ThreadRef(r) => !s.canceled_threads.contains(r),
        TaskKey::DelayId(id) => !s.canceled_delays.contains(id),
    }
}

proof fn lemma_process_due_without_cancels(
    s: SchedulerState,
    ts: Seq<ScheduledTask>,
    resumed: Seq<i32>,
    released: Seq<i32>,
)
    requires
        none_canceled(s, ts),
    ensures
        process_due(s, ts, resumed, released).2 == released,
    decreases ts.len(),
{
    if ts.len() > 0 {
        let (s1, a, b) = due_step(s, ts[0]);
        assert(b is None);
        assert(s1.canceled_threads == s.canceled_threads && s1.canceled_delays == s.canceled_delays);
        let rest = ts.skip(1);
        assert forall|i: int| 0 <= i < rest.len() implies match (#[trigger] rest[i]).key {
            TaskKey::ThreadRef(r) => !s1.canceled_threads.contains(r),
            TaskKey::DelayId(id) => !s1.canceled_delays.contains(id),
        } by {
            assert(rest[i] == ts[i + 1]);
        }
        lemma_process_due_without_cancels(
            s1,
            rest,
            match a {
                Some(r) => resumed.push(r),
                None => resumed,
            },
            released,
        );
    }
}

/// When no due timer was canceled, taking the due timers at tick `now` releases nothing:
/// every woken thread keeps its reference (it is resumed, not dropped).
pub proof fn lemma_uncanceled_timers_release_nothing(s: SchedulerState, now: u64)
    requires
        none_canceled(s, s.timers.take(due_count(s.timers, now) as int)),
    ensures
        pop_due_effect(s, now).2 == Seq::<i32>::empty(),
{
    let k = due_count(s.timers, now) as int;
    lemma_process_due_without_cancels(s, s.timers.take(k), Seq::empty(), Seq::empty());
}

/// Canceling a thread takes it out of a queue and keeps every other thread of the queue in
/// its order: the queue afterwards is the queue filtered of that reference.
pub proof fn lemma_queue_without_keeps_order(q: Seq<i32>, r: i32)
    ensures
        queue_without(q, r) == q.filter(|x: i32| x != r),
    decreases q.len(),
{
    reveal(Seq::filter);
    if q.len() > 0 {
        lemma_queue_without_keeps_order(q.skip(1), r);
        assert(q =~= seq![q[0]] + q.skip(1));
        Seq::filter_distributes_over_add(seq![q[0]], q.skip(1), |x: i32| x != r);
        assert(seq![q[0]].drop_last() =~= Seq::<i32>::empty());
        assert(seq![q[0]].last() == q[0]);
        if q[0] != r {
            assert(seq![q[0]].filter(|x: i32| x != r) =~= seq![q[0]]);
        } else {
            assert(seq![q[0]].drop_last().filter(|x: i32| x != r) =~= Seq::<i32>::empty());
            assert(seq![q[0]].filter(|x: i32| x != r) =~= Seq::<i32>::empty());
        }
    }
}

/// The arguments of a started thread: a spawned or deferred function gets every value
/// after it (`nargs - 1` of the `nargs` on the stack), a delayed function every value
/// after the delay and the function (`nargs - 2`); with fewer values, none.
pub proof fn lemma_start_argument_counts(nargs: i32)
    ensures
        nargs >= 1 ==> spawn_arg_count(nargs) == nargs - 1,
        nargs >= 2 ==> delay_arg_count(nargs) == nargs - 2,
        nargs < 1 ==> spawn_arg_count(nargs) == 0,
        nargs < 2 ==> delay_arg_count(nargs) == 0,
{
}

/// After `delay` with `nargs` values on the stack (the delay, the function and its
/// arguments), the delayed thread's first resume gets `nargs - 2` arguments.
pub proof fn lemma_delay_passes_its_arguments(s: SchedulerState, th: usize, thread_ref: i32, nargs: i32, id: u64)
    requires
        nargs >= 2,
    ensures
        s.init_nargs.insert(thread_ref, delay_arg_count(nargs))[thread_ref] == nargs - 2,
{
}

/// Delay ids are never 0, and the id handed out next differs from the one just handed out.
pub proof fn lemma_delay_ids(id: u64)
    requires
        id != 0,
    ensures
        following_delay_id(id) != 0,
        following_delay_id(id) != id,
{
}

/// A round runs the threads started by `spawn` first, then those started by `defer` or
/// giving way, then those woken by timers: a spawned thread runs before a deferred one
/// queued at the same time.
pub proof fn lemma_spawn_runs_before_defer(s: SchedulerState, a: i32, b: i32, now: u64)
    requires
        s.ready.len() == 0,
        s.yielded.len() == 0,
    ensures
        ({
            let s1 = SchedulerState { ready: s.ready.push(a), yielded: s.yielded.push(b), ..s };
            let s0 = SchedulerState { ready: Seq::empty(), yielded: Seq::empty(), ..s1 };
            let runnable = s1.ready + s1.yielded + pop_due_effect(s0, now).1;
            runnable[0] == a && runnable[1] == b
        }),
{
}

} // verus!
