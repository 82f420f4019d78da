//! The timing wheel: a single-threaded scheduler of delayed thunks, keyed
//! by absolute wall-clock milliseconds and advanced one tick at a time.
//!
//! Entries with a positive delay wait in the wheel; entries inserted with
//! delay zero wait in a separate zero bucket that the driver drains every
//! cycle before rolling. Each entry is addressed by a stable handle that
//! `cancel` resolves as long as the entry has neither fired nor been
//! cancelled; a roll emits exactly the entries whose time has come, so a
//! cancelled handle is never executed and nothing fires twice.

use vstd::prelude::*;
use vstd::multiset::Multiset;
use vstd::seq_lib::group_to_multiset_ensures;

verus! {

/// One scheduled callback: its stable handle, the absolute time (in
/// milliseconds) it is due, and the thunk itself.
pub struct TimerEntry<T> {
    pub id: u64,
    pub time_point: u64,
    pub elem: T,
}

/// Some position of `s` holds an entry with this handle.
pub open spec fn contains_id<T>(s: Seq<TimerEntry<T>>, id: u64) -> bool {
    exists|i: int| 0 <= i < s.len() && (#[trigger] s[i]).id == id
}

/// No two positions of `s` share a handle.
pub open spec fn ids_unique<T>(s: Seq<TimerEntry<T>>) -> bool {
    forall|i: int, j: int|
        0 <= i < j < s.len() ==> (#[trigger] s[i]).id != (#[trigger] s[j]).id
}

/// No handle occurs in both sequences.
pub open spec fn ids_disjoint<T>(a: Seq<TimerEntry<T>>, b: Seq<TimerEntry<T>>) -> bool {
    forall|i: int, j: int|
        0 <= i < a.len() && 0 <= j < b.len() ==> (#[trigger] a[i]).id != (#[trigger] b[j]).id
}

/// The entry `e` was removed from `pre`, leaving `post`.
pub open spec fn removed_entry<T>(
    pre: Seq<TimerEntry<T>>,
    post: Seq<TimerEntry<T>>,
    e: TimerEntry<T>,
) -> bool {
    exists|i: int| 0 <= i < pre.len() && (#[trigger] pre[i]) == e && post == pre.remove(i)
}

/// The wheel's state: the pending entries with a positive delay, the
/// zero bucket, the wheel's current time, its tick, and the next handle
/// to hand out. Entries are scanned in place at each roll rather than
/// bucketed by tick; what a roll emits is the same either way.
pub struct Wheel<T> {
    entries: Vec<TimerEntry<T>>,
    zero: Vec<TimerEntry<T>>,
    time: u64,
    tick_ms: u64,
    next_id: u64,
}

/// The smallest tick the wheel accepts, in milliseconds.
pub const MIN_TICK_MS: u64 = 10;

impl<T> Wheel<T> {
    pub closed spec fn pending(self) -> Seq<TimerEntry<T>> {
        self.entries@
    }

    pub closed spec fn zero_bucket(self) -> Seq<TimerEntry<T>> {
        self.zero@
    }

    pub closed spec fn spec_time(self) -> u64 {
        self.time
    }

    pub closed spec fn spec_tick(self) -> u64 {
        self.tick_ms
    }

    pub closed spec fn spec_next_id(self) -> u64 {
        self.next_id
    }

    /// Handles are unique across the wheel and below the counter, and the
    /// tick is at least the minimum.
    pub open spec fn wf(self) -> bool {
        &&& ids_unique(self.pending())
        &&& ids_unique(self.zero_bucket())
        &&& ids_disjoint(self.pending(), self.zero_bucket())
        &&& forall|i: int|
            0 <= i < self.pending().len() ==> (#[trigger] self.pending()[i]).id
                < self.spec_next_id()
        &&& forall|i: int|
            0 <= i < self.zero_bucket().len() ==> (#[trigger] self.zero_bucket()[i]).id
                < self.spec_next_id()
        &&& self.spec_tick() >= MIN_TICK_MS
    }

    /// An empty wheel at time zero; a tick below the minimum is raised to
    /// the minimum.
    pub fn new(tick_ms: u64) -> (w: Self)
        ensures
            w.wf(),
            w.pending().len() == 0,
            w.zero_bucket().len() == 0,
            w.spec_time() == 0,
            w.spec_tick() == if tick_ms < MIN_TICK_MS {
                MIN_TICK_MS as int
            } else {
                tick_ms as int
            },
            w.spec_next_id() == 0,
    {
        let tick = if tick_ms < MIN_TICK_MS {
            MIN_TICK_MS
        } else {
            tick_ms
        };
        Wheel { entries: Vec::new(), zero: Vec::new(), time: 0, tick_ms: tick, next_id: 0 }
    }

    /// The handle the next insertion will carry; callers check it is not
    /// exhausted before inserting.
    pub fn next_id(&self) -> (n: u64)
        ensures
            n == self.spec_next_id(),
    {
        self.next_id
    }

    /// Anchors the wheel's reference time; the driver sets it to the
    /// wall clock once, when it starts.
    pub fn set_time(&mut self, now: u64)
        requires
            old(self).wf(),
        ensures
            final(self).wf(),
            final(self).spec_time() == now,
            final(self).pending() == old(self).pending(),
            final(self).zero_bucket() == old(self).zero_bucket(),
            final(self).spec_tick() == old(self).spec_tick(),
            final(self).spec_next_id() == old(self).spec_next_id(),
    {
        self.time = now;
    }

    pub fn time(&self) -> (t: u64)
        ensures
            t == self.spec_time(),
    {
        self.time
    }

    pub fn tick(&self) -> (t: u64)
        ensures
            t == self.spec_tick(),
    {
        self.tick_ms
    }

    pub fn pending_len(&self) -> (n: usize)
        ensures
            n == self.pending().len(),
    {
        self.entries.len()
    }

    pub fn zero_len(&self) -> (n: usize)
        ensures
            n == self.zero_bucket().len(),
    {
        self.zero.len()
    }

    /// Schedules `elem` to fire `ms` milliseconds after the wheel's
    /// current time and returns its handle. A zero delay goes to the zero
    /// bucket, due at the current time; anything else joins the pending
    /// entries, due at `time + ms`.
    pub fn insert(&mut self, elem: T, ms: u64) -> (id: u64)
        requires
            old(self).wf(),
            old(self).spec_next_id() < u64::MAX,
            old(self).spec_time() + ms <= u64::MAX,
        ensures
            final(self).wf(),
            id == old(self).spec_next_id(),
            final(self).spec_next_id() == old(self).spec_next_id() + 1,
            final(self).spec_time() == old(self).spec_time(),
            final(self).spec_tick() == old(self).spec_tick(),
            ms == 0 ==> final(self).zero_bucket() == old(self).zero_bucket().push(
                TimerEntry { id, time_point: old(self).spec_time(), elem },
            ) && final(self).pending() == old(self).pending(),
            ms > 0 ==> final(self).pending() == old(self).pending().push(
                TimerEntry { id, time_point: (old(self).spec_time() + ms) as u64, elem },
            ) && final(self).zero_bucket() == old(self).zero_bucket(),
    {
        let id = self.next_id;
        self.next_id = self.next_id + 1;
        if ms == 0 {
            self.zero.push(TimerEntry { id, time_point: self.time, elem });
        } else {
            self.entries.push(TimerEntry { id, time_point: self.time + ms, elem });
        }
        id
    }

    /// Atomically removes the entry a handle refers to and returns its
    /// thunk. Returns `None` exactly when no live entry carries the
    /// handle — because it already fired, was already cancelled, or never
    /// existed — so a cancelled entry can never be executed and a fired
    /// one can never be cancelled.
    pub fn cancel(&mut self, id: u64) -> (r: Option<T>)
        requires
            old(self).wf(),
        ensures
            final(self).wf(),
            final(self).spec_time() == old(self).spec_time(),
            final(self).spec_tick() == old(self).spec_tick(),
            final(self).spec_next_id() == old(self).spec_next_id(),
            r is None ==> {
                &&& !contains_id(old(self).pending(), id)
                &&& !contains_id(old(self).zero_bucket(), id)
                &&& final(self).pending() == old(self).pending()
                &&& final(self).zero_bucket() == old(self).zero_bucket()
            },
            r matches Some(v) ==> exists|e: TimerEntry<T>|
                {
                    &&& e.id == id
                    &&& #[trigger] e.elem == v
                    &&& {
                        ||| removed_entry(old(self).pending(), final(self).pending(), e)
                            && final(self).zero_bucket() == old(self).zero_bucket()
                        ||| removed_entry(old(self).zero_bucket(), final(self).zero_bucket(), e)
                            && final(self).pending() == old(self).pending()
                    }
                },
            !contains_id(final(self).pending(), id),
            !contains_id(final(self).zero_bucket(), id),
    {
        let ghost pre = *self;
        let mut k: usize = 0;
        while k < self.entries.len()
            invariant
                *self == pre,
                pre == *old(self),
                pre.wf(),
                k <= self.entries@.len(),
                forall|i: int| 0 <= i < k ==> (#[trigger] self.entries@[i]).id != id,
            decreases self.entries@.len() - k,
        {
            if self.entries[k].id == id {
                let e = self.entries.remove(k);
                proof {
                    lemma_remove_keeps_ids_sound(pre.entries@, self.entries@, k as int, pre.next_id);
                    assert(removed_entry(pre.pending(), self.entries@, e));
                    assert forall|i: int|
                        0 <= i < self.entries@.len() implies (#[trigger] self.entries@[i]).id
                        != id by {
                        if i < k {
                            assert(self.entries@[i] == pre.entries@[i]);
                            assert(pre.entries@[i].id != id);
                        } else {
                            assert(self.entries@[i] == pre.entries@[i + 1]);
                            assert(pre.entries@[i + 1].id != pre.entries@[k as int].id);
                        }
                    }
                    assert forall|i: int, j: int|
                        0 <= i < self.entries@.len() && 0 <= j < self.zero@.len() implies (
                    #[trigger] self.entries@[i]).id != (#[trigger] self.zero@[j]).id by {
                        if i < k {
                            assert(self.entries@[i] == pre.entries@[i]);
                        } else {
                            assert(self.entries@[i] == pre.entries@[i + 1]);
                        }
                    }
                }
                return Some(e.elem);
            }
            k = k + 1;
        }
        proof {
            assert(forall|i: int|
                0 <= i < pre.entries@.len() ==> (#[trigger] pre.entries@[i]).id != id);
        }
        let mut k: usize = 0;
        while k < self.zero.len()
            invariant
                *self == pre,
                pre == *old(self),
                pre.wf(),
                k <= self.zero@.len(),
                forall|i: int| 0 <= i < pre.entries@.len() ==> (#[trigger] pre.entries@[i]).id != id,
                forall|i: int| 0 <= i < k ==> (#[trigger] self.zero@[i]).id != id,
            decreases self.zero@.len() - k,
        {
            if self.zero[k].id == id {
                let e = self.zero.remove(k);
                proof {
                    lemma_remove_keeps_ids_sound(pre.zero@, self.zero@, k as int, pre.next_id);
                    assert(removed_entry(pre.zero_bucket(), self.zero@, e));
                    assert forall|i: int|
                        0 <= i < self.zero@.len() implies (#[trigger] self.zero@[i]).id != id by {
                        if i < k {
                            assert(self.zero@[i] == pre.zero@[i]);
                            assert(pre.zero@[i].id != id);
                        } else {
                            assert(self.zero@[i] == pre.zero@[i + 1]);
                            assert(pre.zero@[i + 1].id != pre.zero@[k as int].id);
                        }
                    }
                    assert forall|i: int, j: int|
                        0 <= i < self.entries@.len() && 0 <= j < self.zero@.len() implies (
                    #[trigger] self.entries@[i]).id != (#[trigger] self.zero@[j]).id by {
                        if j < k {
                            assert(self.zero@[j] == pre.zero@[j]);
                        } else {
                            assert(self.zero@[j] == pre.zero@[j + 1]);
                        }
                    }
                    assert(forall|i: int|
                        0 <= i < pre.entries@.len() ==> (#[trigger] pre.entries@[i]).id != id);
                }
                return Some(e.elem);
            }
            k = k + 1;
        }
                None
    }

    /// Advances the wheel one tick and removes and returns every pending
    /// entry whose time has come. An entry is emitted only once its
    /// `time_point` is at or before the advanced wheel time — never
    /// early — and everything due is emitted, so nothing lingers past
    /// its tick.
    pub fn roll(&mut self) -> (due: Vec<TimerEntry<T>>)
        requires
            old(self).wf(),
            old(self).spec_time() + old(self).spec_tick() <= u64::MAX,
        ensures
            final(self).wf(),
            final(self).spec_time() == old(self).spec_time() + old(self).spec_tick(),
            final(self).spec_tick() == old(self).spec_tick(),
            final(self).spec_next_id() == old(self).spec_next_id(),
            final(self).zero_bucket() == old(self).zero_bucket(),
            forall|i: int|
                0 <= i < due@.len() ==> (#[trigger] due@[i]).time_point <= final(self).spec_time(),
            forall|i: int|
                0 <= i < final(self).pending().len()
                    ==> (#[trigger] final(self).pending()[i]).time_point
                    > final(self).spec_time(),
            old(self).pending().to_multiset() == final(self).pending().to_multiset().add(
                due@.to_multiset(),
            ),
            ids_unique(due@),
            ids_disjoint(final(self).pending(), due@),
    {
        proof {
            broadcast use group_to_multiset_ensures;

        }
        let ghost pre = *self;
        let new_time = self.time + self.tick_ms;
        self.time = new_time;
        let mut kept: Vec<TimerEntry<T>> = Vec::new();
        let mut due: Vec<TimerEntry<T>> = Vec::new();
        while self.entries.len() > 0
            invariant
                self.time == new_time,
                self.tick_ms == pre.tick_ms,
                self.next_id == pre.next_id,
                self.zero@ == pre.zero@,
                new_time == pre.time + pre.tick_ms,
                pre.entries@.to_multiset() =~= self.entries@.to_multiset().add(
                    kept@.to_multiset(),
                ).add(due@.to_multiset()),
                forall|i: int| 0 <= i < kept@.len() ==> (#[trigger] kept@[i]).time_point > new_time,
                forall|i: int| 0 <= i < due@.len() ==> (#[trigger] due@[i]).time_point <= new_time,
                ids_unique(self.entries@),
                ids_unique(kept@),
                ids_unique(due@),
                ids_disjoint(self.entries@, kept@),
                ids_disjoint(self.entries@, due@),
                ids_disjoint(kept@, due@),
                ids_disjoint(self.entries@, self.zero@),
                ids_disjoint(kept@, self.zero@),
                forall|i: int| 0 <= i < kept@.len() ==> (#[trigger] kept@[i]).id < self.next_id,
                forall|i: int|
                    0 <= i < self.entries@.len() ==> (#[trigger] self.entries@[i]).id
                        < self.next_id,
            decreases self.entries@.len(),
        {
            proof {
                broadcast use group_to_multiset_ensures;

            }
            let ghost rem = self.entries@;
            let e = match self.entries.pop() {
                Some(e) => e,
                None => vstd::pervasive::unreached(),
            };
            proof {
                assert(rem =~= self.entries@.push(e));
                assert(rem.to_multiset() =~= self.entries@.to_multiset().insert(e));
            }
            if e.time_point <= new_time {
                due.push(e);
            } else {
                kept.push(e);
            }
            proof {
                assert(pre.entries@.to_multiset() =~= self.entries@.to_multiset().add(
                    kept@.to_multiset(),
                ).add(due@.to_multiset()));
            }
        }
        proof {
            broadcast use group_to_multiset_ensures;
            broadcast use vstd::multiset::group_multiset_axioms;

            assert(self.entries@ =~= Seq::<TimerEntry<T>>::empty());
            vstd::multiset::lemma_multiset_empty_len(self.entries@.to_multiset());
            assert(self.entries@.to_multiset() =~= Multiset::<TimerEntry<T>>::empty());
            assert(pre.entries@.to_multiset() =~= kept@.to_multiset().add(due@.to_multiset()));
        }
        self.entries = kept;
        due
    }

    /// Empties the zero bucket and returns its entries in insertion
    /// order; the driver drains it every cycle, before and between rolls.
    pub fn take_zero(&mut self) -> (due: Vec<TimerEntry<T>>)
        requires
            old(self).wf(),
        ensures
            final(self).wf(),
            due@ == old(self).zero_bucket(),
            final(self).zero_bucket().len() == 0,
            final(self).pending() == old(self).pending(),
            final(self).spec_time() == old(self).spec_time(),
            final(self).spec_tick() == old(self).spec_tick(),
            final(self).spec_next_id() == old(self).spec_next_id(),
    {
        let mut due: Vec<TimerEntry<T>> = Vec::new();
        core::mem::swap(&mut due, &mut self.zero);
        due
    }

    /// How long the driver may sleep until the next tick boundary: zero
    /// once the boundary has passed.
    pub fn next_sleep(&self, now: u64) -> (ms: u64)
        requires
            self.spec_time() + self.spec_tick() <= u64::MAX,
        ensures
            ms == if now >= self.spec_time() + self.spec_tick() {
                0
            } else {
                self.spec_time() + self.spec_tick() - now
            },
    {
        let boundary = self.time + self.tick_ms;
        if now >= boundary {
            0
        } else {
            boundary - now
        }
    }

    /// Whether the wall clock has reached the next tick boundary, so the
    /// driver should roll.
    pub fn should_roll(&self, now: u64) -> (b: bool)
        requires
            self.spec_time() + self.spec_tick() <= u64::MAX,
        ensures
            b == (now >= self.spec_time() + self.spec_tick()),
    {
        now >= self.time + self.tick_ms
    }
}

/// Removing one position keeps handles unique, bounded, and keeps every
/// other handle where it was.
proof fn lemma_remove_keeps_ids_sound<T>(
    pre: Seq<TimerEntry<T>>,
    post: Seq<TimerEntry<T>>,
    k: int,
    bound: u64,
)
    requires
        ids_unique(pre),
        forall|i: int| 0 <= i < pre.len() ==> (#[trigger] pre[i]).id < bound,
        0 <= k < pre.len(),
        post == pre.remove(k),
    ensures
        ids_unique(post),
        forall|i: int| 0 <= i < post.len() ==> (#[trigger] post[i]).id < bound,
{
    assert forall|i: int, j: int|
        0 <= i < j < post.len() implies (#[trigger] post[i]).id != (#[trigger] post[j]).id by {
        let pi: int = if i < k { i } else { i + 1 };
        let pj: int = if j < k { j } else { j + 1 };
        assert(post[i] == pre[pi]);
        assert(post[j] == pre[pj]);
    }
    assert forall|i: int| 0 <= i < post.len() implies (#[trigger] post[i]).id < bound by {
        let pi: int = if i < k { i } else { i + 1 };
        assert(post[i] == pre[pi]);
    }
}

/// What the timer's driver does next in one cycle.
#[derive(Copy, Clone, Debug, PartialEq, Eq, Structural)]
pub enum DriverStep {
    /// Entries are waiting in the zero bucket: drain and dispatch them
    /// before anything else.
    DrainZero,
    /// The wall clock has passed the next tick boundary: roll the wheel
    /// and dispatch what came due.
    Roll,
    /// Nothing to do until the next boundary: sleep.
    Sleep,
}

/// The decision the driver takes at each point of its cycle: the zero
/// bucket is drained before any roll — and re-checked after each batch,
/// since dispatched work may schedule more zero-delay entries — then the
/// wheel rolls while the wall clock has passed the tick boundary, and
/// otherwise the driver sleeps until the boundary.
pub fn driver_step(zero_pending: usize, boundary_passed: bool) -> (s: DriverStep)
    ensures
        s == if zero_pending > 0 {
            DriverStep::DrainZero
        } else if boundary_passed {
            DriverStep::Roll
        } else {
            DriverStep::Sleep
        },
{
    if zero_pending > 0 {
        DriverStep::DrainZero
    } else if boundary_passed {
        DriverStep::Roll
    } else {
        DriverStep::Sleep
    }
}

/// A timer fires no earlier than its requested deadline, up to one tick
/// of quantization: `insert` stamps an entry due at its insertion time
/// plus the requested delay, and a roll emits an entry only once the
/// advanced wheel time has reached that stamp.
pub proof fn lemma_fires_no_earlier_than_deadline<T>(
    insert_time: u64,
    delay: u64,
    e: TimerEntry<T>,
    due: Seq<TimerEntry<T>>,
    wheel_time: u64,
)
    requires
        e.time_point == insert_time + delay,
        due.contains(e),
        forall|i: int| 0 <= i < due.len() ==> (#[trigger] due[i]).time_point <= wheel_time,
    ensures
        wheel_time >= insert_time + delay,
{
    let i = choose|i: int| 0 <= i < due.len() && due[i] == e;
}

/// Due entries do not linger: a roll leaves nothing pending that is due,
/// so an entry whose deadline the advanced wheel time has reached is
/// emitted by exactly that roll — with `insert`'s stamp and the
/// emit-only-due clause, a scheduled thunk fires at the first roll whose
/// wheel time reaches its insertion time plus its delay, unless it was
/// cancelled first.
pub proof fn lemma_due_entry_fires<T>(
    pending1: Seq<TimerEntry<T>>,
    pending2: Seq<TimerEntry<T>>,
    due: Seq<TimerEntry<T>>,
    wheel_time: u64,
    e: TimerEntry<T>,
)
    requires
        pending1.to_multiset() == pending2.to_multiset().add(due.to_multiset()),
        forall|i: int|
            0 <= i < pending2.len() ==> (#[trigger] pending2[i]).time_point > wheel_time,
        pending1.contains(e),
        e.time_point <= wheel_time,
    ensures
        due.contains(e),
{
    broadcast use group_to_multiset_ensures;

    assert(pending1.to_multiset().count(e) > 0);
    if due.to_multiset().count(e) == 0 {
        assert(pending2.to_multiset().count(e) > 0);
        assert(pending2.contains(e));
        let i = choose|i: int| 0 <= i < pending2.len() && pending2[i] == e;
        assert(pending2[i].time_point > wheel_time);
        assert(false);
    }
    assert(due.contains(e));
}

/// A cancelled handle is never executed: once a handle is absent from the
/// pending entries — as `cancel` ensures — no roll can emit it, because a
/// roll only redistributes what was pending.
pub proof fn lemma_cancel_prevents_fire<T>(
    pending1: Seq<TimerEntry<T>>,
    pending2: Seq<TimerEntry<T>>,
    due: Seq<TimerEntry<T>>,
    id: u64,
)
    requires
        !contains_id(pending1, id),
        pending1.to_multiset() == pending2.to_multiset().add(due.to_multiset()),
    ensures
        !contains_id(due, id),
        !contains_id(pending2, id),
{
    broadcast use group_to_multiset_ensures;

    assert forall|i: int| 0 <= i < due.len() implies (#[trigger] due[i]).id != id by {
        let e = due[i];
        assert(due.contains(e));
        assert(pending1.to_multiset().count(e) > 0);
        assert(pending1.contains(e));
        let k = choose|k: int| 0 <= k < pending1.len() && pending1[k] == e;
        assert(pending1[k].id == e.id);
    }
    assert forall|i: int| 0 <= i < pending2.len() implies (#[trigger] pending2[i]).id != id by {
        let e = pending2[i];
        assert(pending2.contains(e));
        assert(pending1.to_multiset().count(e) > 0);
        assert(pending1.contains(e));
        let k = choose|k: int| 0 <= k < pending1.len() && pending1[k] == e;
        assert(pending1[k].id == e.id);
    }
}

/// Nothing fires twice: the entries one roll emits are disjoint (by
/// handle) from what a later roll emits, because a roll leaves the
/// pending entries disjoint from what it emitted, and a later roll only
/// redistributes what was still pending.
pub proof fn lemma_no_double_fire<T>(
    pending1: Seq<TimerEntry<T>>,
    due1: Seq<TimerEntry<T>>,
    pending2: Seq<TimerEntry<T>>,
    due2: Seq<TimerEntry<T>>,
)
    requires
        ids_disjoint(pending1, due1),
        pending1.to_multiset() == pending2.to_multiset().add(due2.to_multiset()),
    ensures
        ids_disjoint(due2, due1),
{
    broadcast use group_to_multiset_ensures;

    assert forall|i: int, j: int|
        0 <= i < due2.len() && 0 <= j < due1.len() implies (#[trigger] due2[i]).id != (
    #[trigger] due1[j]).id by {
        let e = due2[i];
        assert(due2.contains(e));
        assert(pending1.to_multiset().count(e) > 0);
        assert(pending1.contains(e));
        let k = choose|k: int| 0 <= k < pending1.len() && pending1[k] == e;
        assert(pending1[k].id != due1[j].id);
    }
}


/// Counters the timer keeps about itself: entries scheduled, entries
/// cancelled, entries run, and cumulative run time in milliseconds. All
/// are observational; they saturate rather than wrap at the limit.
pub struct Statistics {
    pub all_count: u64,
    pub cancel_count: u64,
    pub run_count: u64,
    pub run_time: u64,
}

impl Statistics {
    /// All counters at zero.
    pub fn new() -> (s: Statistics)
        ensures
            s.all_count == 0,
            s.cancel_count == 0,
            s.run_count == 0,
            s.run_time == 0,
    {
        Statistics { all_count: 0, cancel_count: 0, run_count: 0, run_time: 0 }
    }
}

/// The timer: a wheel, its statistics, and the tick period the driver
/// sleeps by. The driver thread lives outside the verified core; it
/// anchors the wheel's time once, then alternately drains the zero
/// bucket, rolls while the wall clock has passed the tick boundary, and
/// sleeps until the next one.
pub struct Timer<T> {
    wheel: Wheel<T>,
    statistics: Statistics,
    clock_ms: u64,
}

impl<T> Timer<T> {
    pub closed spec fn spec_wheel(self) -> Wheel<T> {
        self.wheel
    }

    pub closed spec fn spec_statistics(self) -> Statistics {
        self.statistics
    }

    pub open spec fn wf(self) -> bool {
        self.spec_wheel().wf()
    }

    /// A timer over a fresh wheel; a tick below the minimum is raised to
    /// the minimum.
    pub fn new(clock_ms: u64) -> (t: Self)
        ensures
            t.wf(),
            t.spec_wheel().pending().len() == 0,
            t.spec_wheel().zero_bucket().len() == 0,
            t.spec_wheel().spec_tick() == if clock_ms < MIN_TICK_MS {
                MIN_TICK_MS as int
            } else {
                clock_ms as int
            },
            t.spec_statistics().all_count == 0,
            t.spec_statistics().cancel_count == 0,
            t.spec_statistics().run_count == 0,
            t.spec_statistics().run_time == 0,
    {
        let wheel = Wheel::new(clock_ms);
        let tick = wheel.tick();
        Timer { wheel, statistics: Statistics::new(), clock_ms: tick }
    }

    /// Schedules a thunk `ms` milliseconds out and returns its handle;
    /// counts the scheduling.
    pub fn set_timeout(&mut self, f: T, ms: u64) -> (id: u64)
        requires
            old(self).wf(),
            old(self).spec_wheel().spec_next_id() < u64::MAX,
            old(self).spec_wheel().spec_time() + ms <= u64::MAX,
        ensures
            final(self).wf(),
            id == old(self).spec_wheel().spec_next_id(),
            final(self).spec_wheel().spec_next_id() == old(self).spec_wheel().spec_next_id() + 1,
            final(self).spec_wheel().spec_time() == old(self).spec_wheel().spec_time(),
            final(self).spec_wheel().spec_tick() == old(self).spec_wheel().spec_tick(),
            ms == 0 ==> final(self).spec_wheel().zero_bucket() == old(self).spec_wheel().zero_bucket().push(
                TimerEntry { id, time_point: old(self).spec_wheel().spec_time(), elem: f },
            ) && final(self).spec_wheel().pending() == old(self).spec_wheel().pending(),
            ms > 0 ==> final(self).spec_wheel().pending() == old(self).spec_wheel().pending().push(
                TimerEntry {
                    id,
                    time_point: (old(self).spec_wheel().spec_time() + ms) as u64,
                    elem: f,
                },
            ) && final(self).spec_wheel().zero_bucket() == old(self).spec_wheel().zero_bucket(),
            final(self).spec_statistics().all_count == if old(self).spec_statistics().all_count
                < u64::MAX {
                old(self).spec_statistics().all_count + 1
            } else {
                u64::MAX as int
            },
            final(self).spec_statistics().cancel_count == old(self).spec_statistics().cancel_count,
            final(self).spec_statistics().run_count == old(self).spec_statistics().run_count,
            final(self).spec_statistics().run_time == old(self).spec_statistics().run_time,
    {
        self.statistics.all_count = self.statistics.all_count.saturating_add(1);
        self.wheel.insert(f, ms)
    }

    /// Removes the entry a handle refers to, returning its thunk; `None`
    /// once the entry has fired or been cancelled. Counts the
    /// cancellation only when one happened.
    pub fn cancel(&mut self, id: u64) -> (r: Option<T>)
        requires
            old(self).wf(),
        ensures
            final(self).wf(),
            final(self).spec_wheel().spec_time() == old(self).spec_wheel().spec_time(),
            final(self).spec_wheel().spec_tick() == old(self).spec_wheel().spec_tick(),
            final(self).spec_wheel().spec_next_id() == old(self).spec_wheel().spec_next_id(),
            r is None ==> {
                &&& !contains_id(old(self).spec_wheel().pending(), id)
                &&& !contains_id(old(self).spec_wheel().zero_bucket(), id)
                &&& final(self).spec_wheel().pending() == old(self).spec_wheel().pending()
                &&& final(self).spec_wheel().zero_bucket() == old(self).spec_wheel().zero_bucket()
                &&& final(self).spec_statistics() == old(self).spec_statistics()
            },
            r matches Some(v) ==> (exists|e: TimerEntry<T>|
                {
                    &&& e.id == id
                    &&& #[trigger] e.elem == v
                    &&& {
                        ||| removed_entry(
                            old(self).spec_wheel().pending(),
                            final(self).spec_wheel().pending(),
                            e,
                        ) && final(self).spec_wheel().zero_bucket() == old(self).spec_wheel().zero_bucket()
                        ||| removed_entry(
                            old(self).spec_wheel().zero_bucket(),
                            final(self).spec_wheel().zero_bucket(),
                            e,
                        ) && final(self).spec_wheel().pending() == old(self).spec_wheel().pending()
                    }
                }) && final(self).spec_statistics().cancel_count == (if old(self).spec_statistics().cancel_count < u64::MAX {
                old(self).spec_statistics().cancel_count + 1
            } else {
                u64::MAX as int
            }),
            !contains_id(final(self).spec_wheel().pending(), id),
            !contains_id(final(self).spec_wheel().zero_bucket(), id),
            final(self).spec_statistics().all_count == old(self).spec_statistics().all_count,
            final(self).spec_statistics().run_count == old(self).spec_statistics().run_count,
            final(self).spec_statistics().run_time == old(self).spec_statistics().run_time,
    {
        let r = self.wheel.cancel(id);
        if r.is_some() {
            self.statistics.cancel_count = self.statistics.cancel_count.saturating_add(1);
        }
        r
    }

    /// Anchors the wheel's time to the wall clock; the driver calls this
    /// once before its first cycle.
    pub fn set_time(&mut self, now: u64)
        requires
            old(self).wf(),
        ensures
            final(self).wf(),
            final(self).spec_wheel().spec_time() == now,
            final(self).spec_wheel().pending() == old(self).spec_wheel().pending(),
            final(self).spec_wheel().zero_bucket() == old(self).spec_wheel().zero_bucket(),
            final(self).spec_wheel().spec_tick() == old(self).spec_wheel().spec_tick(),
            final(self).spec_wheel().spec_next_id() == old(self).spec_wheel().spec_next_id(),
            final(self).spec_statistics() == old(self).spec_statistics(),
    {
        self.wheel.set_time(now);
    }

    /// The wheel's current time in milliseconds.
    pub fn time(&self) -> (t: u64)
        ensures
            t == self.spec_wheel().spec_time(),
    {
        self.wheel.time()
    }

    /// The tick period in milliseconds.
    pub fn tick(&self) -> (t: u64)
        ensures
            t == self.spec_wheel().spec_tick(),
    {
        self.wheel.tick()
    }

    /// The handle the next scheduling will carry.
    pub fn next_handle(&self) -> (n: u64)
        ensures
            n == self.spec_wheel().spec_next_id(),
    {
        self.wheel.next_id()
    }

    /// Whether the wall clock has reached the next tick boundary.
    pub fn should_roll(&self, now: u64) -> (b: bool)
        requires
            self.spec_wheel().spec_time() + self.spec_wheel().spec_tick() <= u64::MAX,
        ensures
            b == (now >= self.spec_wheel().spec_time() + self.spec_wheel().spec_tick()),
    {
        self.wheel.should_roll(now)
    }

    /// How long the driver may sleep until the next tick boundary.
    pub fn next_sleep(&self, now: u64) -> (ms: u64)
        requires
            self.spec_wheel().spec_time() + self.spec_wheel().spec_tick() <= u64::MAX,
        ensures
            ms == if now >= self.spec_wheel().spec_time() + self.spec_wheel().spec_tick() {
                0
            } else {
                self.spec_wheel().spec_time() + self.spec_wheel().spec_tick() - now
            },
    {
        self.wheel.next_sleep(now)
    }

    /// Advances the wheel one tick and takes everything due, counting the
    /// entries taken; the driver executes them (or dispatches them to the
    /// task pool) outside the lock.
    pub fn take_due(&mut self) -> (due: Vec<TimerEntry<T>>)
        requires
            old(self).wf(),
            old(self).spec_wheel().spec_time() + old(self).spec_wheel().spec_tick() <= u64::MAX,
        ensures
            final(self).wf(),
            final(self).spec_wheel().spec_time() == old(self).spec_wheel().spec_time() + old(self).spec_wheel().spec_tick(),
            final(self).spec_wheel().spec_tick() == old(self).spec_wheel().spec_tick(),
            final(self).spec_wheel().spec_next_id() == old(self).spec_wheel().spec_next_id(),
            final(self).spec_wheel().zero_bucket() == old(self).spec_wheel().zero_bucket(),
            forall|i: int|
                0 <= i < due@.len() ==> (#[trigger] due@[i]).time_point <= final(self).spec_wheel().spec_time(),
            forall|i: int|
                0 <= i < final(self).spec_wheel().pending().len()
                    ==> (#[trigger] final(self).spec_wheel().pending()[i]).time_point
                    > final(self).spec_wheel().spec_time(),
            old(self).spec_wheel().pending().to_multiset() == final(self).spec_wheel().pending().to_multiset().add(due@.to_multiset()),
            ids_unique(due@),
            ids_disjoint(final(self).spec_wheel().pending(), due@),
            final(self).spec_statistics().run_count == if old(self).spec_statistics().run_count
                + due@.len() <= u64::MAX {
                old(self).spec_statistics().run_count + due@.len()
            } else {
                u64::MAX as int
            },
    {
        let due = self.wheel.roll();
        self.statistics.run_count = self.statistics.run_count.saturating_add(due.len() as u64);
        due
    }

    /// Empties the zero bucket, counting the entries taken.
    pub fn take_zero(&mut self) -> (due: Vec<TimerEntry<T>>)
        requires
            old(self).wf(),
        ensures
            final(self).wf(),
            due@ == old(self).spec_wheel().zero_bucket(),
            final(self).spec_wheel().zero_bucket().len() == 0,
            final(self).spec_wheel().pending() == old(self).spec_wheel().pending(),
            final(self).spec_wheel().spec_time() == old(self).spec_wheel().spec_time(),
            final(self).spec_wheel().spec_tick() == old(self).spec_wheel().spec_tick(),
            final(self).spec_wheel().spec_next_id() == old(self).spec_wheel().spec_next_id(),
            final(self).spec_statistics().run_count == if old(self).spec_statistics().run_count
                + due@.len() <= u64::MAX {
                old(self).spec_statistics().run_count + due@.len()
            } else {
                u64::MAX as int
            },
    {
        let due = self.wheel.take_zero();
        self.statistics.run_count = self.statistics.run_count.saturating_add(due.len() as u64);
        due
    }

    /// Adds one batch's elapsed milliseconds to the cumulative run time.
    pub fn record_run_time(&mut self, elapsed_ms: u64)
        requires
            old(self).wf(),
        ensures
            final(self).wf(),
            final(self).spec_wheel() == old(self).spec_wheel(),
            final(self).spec_statistics().run_time == if old(self).spec_statistics().run_time
                + elapsed_ms <= u64::MAX {
                old(self).spec_statistics().run_time + elapsed_ms
            } else {
                u64::MAX as int
            },
    {
        self.statistics.run_time = self.statistics.run_time.saturating_add(elapsed_ms);
    }

    /// The counters so far: scheduled, cancelled, run, cumulative run time.
    pub fn counters(&self) -> (c: (u64, u64, u64, u64))
        ensures
            c.0 == self.spec_statistics().all_count,
            c.1 == self.spec_statistics().cancel_count,
            c.2 == self.spec_statistics().run_count,
            c.3 == self.spec_statistics().run_time,
    {
        (
            self.statistics.all_count,
            self.statistics.cancel_count,
            self.statistics.run_count,
            self.statistics.run_time,
        )
    }

    pub fn pending_len(&self) -> (n: usize)
        ensures
            n == self.spec_wheel().pending().len(),
    {
        self.wheel.pending_len()
    }

    pub fn zero_len(&self) -> (n: usize)
        ensures
            n == self.spec_wheel().zero_bucket().len(),
    {
        self.wheel.zero_len()
    }
}

} // verus!

