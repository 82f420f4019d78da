//! The multi-priority, multi-type task queue.
//!
//! Conceptually the pool maps each task type to a priority-ordered queue
//! of populated tasks, and keeps a bounded free-list of reusable slots.
//! `pop` returns the highest-priority task among the types a mask enables,
//! breaking ties by insertion order (every entry carries a stamp from a
//! global counter). A popped entry is removed, so no unit of work can be
//! delivered twice; recycled slots are cleared before reuse.

use vstd::prelude::*;
use crate::task::{Task, TaskCache, TaskType};

verus! {

/// An entry of the pool as the contracts see it: the priority and label it
/// was pushed with, its thunk, and the stamp that fixes insertion order.
pub ghost struct PoolEntry<T> {
    pub priority: u64,
    pub stamp: u64,
    pub func: Option<T>,
    pub info: Seq<char>,
}

/// The pool's mathematical model: one sequence of entries per task type
/// (in insertion order), and the next stamp to hand out.
pub ghost struct PoolView<T> {
    pub qs: Map<TaskType, Seq<PoolEntry<T>>>,
    pub next_stamp: u64,
}

/// Which task types a `pop` is willing to drain. The empty tag never
/// holds queued work, so no mask enables it.
#[derive(Copy, Clone, Debug)]
pub struct TaskMask {
    pub allow_async: bool,
    pub allow_sync: bool,
    pub allow_sync_imme: bool,
}

impl TaskMask {
    pub open spec fn enables(self, ty: TaskType) -> bool {
        match ty {
            TaskType::Empty => false,
            TaskType::Async => self.allow_async,
            TaskType::Sync => self.allow_sync,
            TaskType::SyncImme => self.allow_sync_imme,
        }
    }

    /// The mask that enables every queue: by default any worker may
    /// service any task type.
    pub fn all() -> (m: TaskMask)
        ensures
            forall|ty: TaskType| ty != TaskType::Empty ==> m.enables(ty),
    {
        TaskMask { allow_async: true, allow_sync: true, allow_sync_imme: true }
    }
}

/// Structural soundness of a pool model: every queued entry is populated
/// and stamped below the counter, stamps grow along each queue (insertion
/// order), and no stamp repeats anywhere in the pool.
pub open spec fn pool_wf<T>(v: PoolView<T>) -> bool {
    &&& forall|ty: TaskType, i: int|
        0 <= i < v.qs[ty].len() ==> (#[trigger] v.qs[ty][i]).func is Some
    &&& forall|ty: TaskType, i: int|
        0 <= i < v.qs[ty].len() ==> (#[trigger] v.qs[ty][i]).stamp < v.next_stamp
    &&& forall|ty: TaskType, i: int, j: int|
        0 <= i < j < v.qs[ty].len() ==> (#[trigger] v.qs[ty][i]).stamp < (#[trigger] v.qs[ty][j]).stamp
    &&& forall|ty1: TaskType, i1: int, ty2: TaskType, i2: int|
        ty1 != ty2 && 0 <= i1 < v.qs[ty1].len() && 0 <= i2 < v.qs[ty2].len()
            ==> (#[trigger] v.qs[ty1][i1]).stamp != (#[trigger] v.qs[ty2][i2]).stamp
}

/// Some enabled queue holds an entry.
pub open spec fn has_enabled_entry<T>(v: PoolView<T>, mask: TaskMask) -> bool {
    exists|ty: TaskType| mask.enables(ty) && (#[trigger] v.qs[ty]).len() > 0
}

/// `a` is scheduled no later than `b`: strictly higher priority, or equal
/// priority and a stamp at most `b`'s (FIFO within a priority).
pub open spec fn beats<T>(a: PoolEntry<T>, b: PoolEntry<T>) -> bool {
    b.priority < a.priority || (b.priority == a.priority && a.stamp <= b.stamp)
}

/// Entry `i` of queue `ty` beats every enabled entry: higher priority, or
/// equal priority and an earlier stamp (FIFO within a priority).
pub open spec fn is_best<T>(v: PoolView<T>, mask: TaskMask, ty: TaskType, i: int) -> bool {
    &&& mask.enables(ty)
    &&& 0 <= i < v.qs[ty].len()
    &&& forall|ty2: TaskType, j: int|
        mask.enables(ty2) && 0 <= j < v.qs[ty2].len() ==> beats(
            v.qs[ty][i],
            #[trigger] v.qs[ty2][j],
        )
}

/// The transition `pop` makes when it returns an entry: some best enabled
/// entry is removed, everything else is untouched.
pub open spec fn pop_transition<T>(
    pre: PoolView<T>,
    mask: TaskMask,
    e: PoolEntry<T>,
    post: PoolView<T>,
) -> bool {
    exists|ty: TaskType, i: int|
        {
            &&& #[trigger] is_best(pre, mask, ty, i)
            &&& e == pre.qs[ty][i]
            &&& post.qs == pre.qs.insert(ty, pre.qs[ty].remove(i))
            &&& post.next_stamp == pre.next_stamp
        }
}

/// The transition `push` makes: the new entry is appended to its type's
/// queue with the current stamp, and the stamp counter advances.
pub open spec fn push_transition<T>(
    pre: PoolView<T>,
    ty: TaskType,
    e: PoolEntry<T>,
    post: PoolView<T>,
) -> bool {
    &&& e.stamp == pre.next_stamp
    &&& post.qs == pre.qs.insert(ty, pre.qs[ty].push(e))
    &&& post.next_stamp == pre.next_stamp + 1
}

struct QueuedTask<T> {
    stamp: u64,
    task: Task<T>,
}

impl<T> QueuedTask<T> {
    spec fn entry(self) -> PoolEntry<T> {
        PoolEntry {
            priority: self.task.spec_priority(),
            stamp: self.stamp,
            func: self.task.spec_func(),
            info: self.task.spec_info(),
        }
    }
}

spec fn queue_view<T>(q: Seq<QueuedTask<T>>) -> Seq<PoolEntry<T>> {
    q.map_values(|qt: QueuedTask<T>| qt.entry())
}

/// The pool: one queue per non-empty task type, a free-list of cleared
/// slots, and the global insertion-order counter.
pub struct TaskPool<T> {
    async_q: Vec<QueuedTask<T>>,
    sync_q: Vec<QueuedTask<T>>,
    sync_imme_q: Vec<QueuedTask<T>>,
    cache: TaskCache<T>,
    next_stamp: u64,
}

impl<T> View for TaskPool<T> {
    type V = PoolView<T>;

    closed spec fn view(&self) -> PoolView<T> {
        PoolView {
            qs: Map::new(
                |ty: TaskType| true,
                |ty: TaskType|
                    match ty {
                        TaskType::Empty => Seq::empty(),
                        TaskType::Async => queue_view(self.async_q@),
                        TaskType::Sync => queue_view(self.sync_q@),
                        TaskType::SyncImme => queue_view(self.sync_imme_q@),
                    },
            ),
            next_stamp: self.next_stamp,
        }
    }
}

impl<T> TaskPool<T> {
    pub closed spec fn cache_wf(self) -> bool {
        self.cache.wf()
    }

    pub open spec fn wf(self) -> bool {
        pool_wf(self@) && self.cache_wf()
    }

    pub open spec fn len_of(self, ty: TaskType) -> nat {
        self@.qs[ty].len()
    }

    /// A fresh pool: empty queues and a free-list preallocated with
    /// `free_list_capacity` cleared slots.
    pub fn new(free_list_capacity: u32) -> (pool: Self)
        requires
            free_list_capacity >= 1,
        ensures
            pool.wf(),
            forall|ty: TaskType| (#[trigger] pool@.qs[ty]).len() == 0,
            pool@.next_stamp == 0,
    {
        let pool = TaskPool {
            async_q: Vec::new(),
            sync_q: Vec::new(),
            sync_imme_q: Vec::new(),
            cache: TaskCache::new(free_list_capacity),
            next_stamp: 0,
        };
        proof {
            assert forall|ty: TaskType| (#[trigger] pool@.qs[ty]).len() == 0 by {
                match ty {
                    TaskType::Empty => {},
                    TaskType::Async => {},
                    TaskType::Sync => {},
                    TaskType::SyncImme => {},
                }
            }
        }
        pool
    }

    /// How many tasks of one type are queued.
    pub fn len_by_type(&self, ty: TaskType) -> (n: usize)
        ensures
            n == self.len_of(ty),
    {
        match ty {
            TaskType::Empty => 0,
            TaskType::Async => self.async_q.len(),
            TaskType::Sync => self.sync_q.len(),
            TaskType::SyncImme => self.sync_imme_q.len(),
        }
    }

    /// How many tasks are queued over all types; saturates at the machine
    /// limit, which real queues cannot reach.
    pub fn len(&self) -> (n: usize)
        ensures
            n == if self.len_of(TaskType::Async) + self.len_of(TaskType::Sync) + self.len_of(
                TaskType::SyncImme,
            ) <= usize::MAX {
                (self.len_of(TaskType::Async) + self.len_of(TaskType::Sync) + self.len_of(
                    TaskType::SyncImme,
                )) as int
            } else {
                usize::MAX as int
            },
    {
        let n = self.async_q.len().saturating_add(self.sync_q.len());
        n.saturating_add(self.sync_imme_q.len())
    }

    /// The stamp the next push will carry; callers check it is not
    /// exhausted before pushing.
    pub fn next_stamp(&self) -> (n: u64)
        ensures
            n == self@.next_stamp,
    {
        self.next_stamp
    }

    /// Queues one unit of work: a slot is taken from the free-list (or
    /// made fresh), populated with the thunk, priority and label, stamped,
    /// and appended to its type's queue.
    pub fn push(&mut self, ty: TaskType, priority: u64, func: T, info: String)
        requires
            old(self).wf(),
            ty != TaskType::Empty,
            old(self)@.next_stamp < u64::MAX,
        ensures
            final(self).wf(),
            push_transition(
                old(self)@,
                ty,
                PoolEntry {
                    priority,
                    stamp: old(self)@.next_stamp,
                    func: Some(func),
                    info: info@,
                },
                final(self)@,
            ),
    {
        let ghost pre = self@;
        let ghost e = PoolEntry {
            priority,
            stamp: self@.next_stamp,
            func: Some(func),
            info: info@,
        };
        let mut slot = self.cache.pop();
        slot.set_priority(priority);
        slot.set_func(Some(func));
        slot.set_info(info);
        let qt = QueuedTask { stamp: self.next_stamp, task: slot };
        assert(qt.entry() == e);
        self.next_stamp = self.next_stamp + 1;
        match ty {
            TaskType::Empty => {},
            TaskType::Async => self.async_q.push(qt),
            TaskType::Sync => self.sync_q.push(qt),
            TaskType::SyncImme => self.sync_imme_q.push(qt),
        }
        proof {
            assert(self@.qs =~~= pre.qs.insert(ty, pre.qs[ty].push(e)));
            lemma_push_preserves_wf(pre, ty, e, self@);
        }
    }

    /// Returns the slot of an executed task to the free-list; the queues
    /// are untouched, and the slot is cleared before it can be reused.
    pub fn recycle(&mut self, task: Task<T>)
        requires
            old(self).wf(),
        ensures
            final(self).wf(),
            final(self)@ == old(self)@,
    {
        self.cache.push(task);
    }

    /// Index of the entry that beats every entry of one queue: the highest
    /// priority, earliest stamp first among equals.
    fn best_index(q: &Vec<QueuedTask<T>>) -> (r: Option<usize>)
        ensures
            match r {
                None => q@.len() == 0,
                Some(i) => 0 <= i < q@.len() && forall|j: int|
                    0 <= j < q@.len() ==> beats(q@[i as int].entry(), (#[trigger] q@[j]).entry()),
            },
    {
        if q.len() == 0 {
            return None;
        }
        let mut best: usize = 0;
        let mut k: usize = 1;
        while k < q.len()
            invariant
                0 < q@.len(),
                best < k,
                k <= q@.len(),
                forall|j: int|
                    0 <= j < k ==> beats(q@[best as int].entry(), (#[trigger] q@[j]).entry()),
            decreases q@.len() - k,
        {
            let bp = q[best].task.get_priority();
            let kp = q[k].task.get_priority();
            if kp > bp || (kp == bp && q[k].stamp < q[best].stamp) {
                best = k;
            }
            k = k + 1;
        }
        Some(best)
    }

    /// Removes and returns the best entry among the queues the mask
    /// enables: the highest priority, ties broken by insertion order.
    /// Returns `None` exactly when every enabled queue is empty.
    pub fn pop(&mut self, mask: TaskMask) -> (r: Option<Task<T>>)
        requires
            old(self).wf(),
        ensures
            final(self).wf(),
            match r {
                None => final(self)@ == old(self)@ && !has_enabled_entry(old(self)@, mask),
                Some(t) => has_enabled_entry(old(self)@, mask) && exists|e: PoolEntry<T>|
                    #[trigger] pop_transition(old(self)@, mask, e, final(self)@)
                        && t.spec_priority() == e.priority && t.spec_func() == e.func
                        && t.spec_info() == e.info,
            },
    {
        let ghost pre = self@;
        let mut sel: TaskType = TaskType::Empty;
        let mut sel_i: usize = 0;
        let mut sel_p: u64 = 0;
        let mut sel_s: u64 = 0;
        if mask.allow_async {
            if let Some(i) = Self::best_index(&self.async_q) {
                sel = TaskType::Async;
                sel_i = i;
                sel_p = self.async_q[i].task.get_priority();
                sel_s = self.async_q[i].stamp;
            }
        }
        if mask.allow_sync {
            if let Some(i) = Self::best_index(&self.sync_q) {
                let p = self.sync_q[i].task.get_priority();
                let s = self.sync_q[i].stamp;
                if matches!(sel, TaskType::Empty) || p > sel_p || (p == sel_p && s < sel_s) {
                    sel = TaskType::Sync;
                    sel_i = i;
                    sel_p = p;
                    sel_s = s;
                }
            }
        }
        if mask.allow_sync_imme {
            if let Some(i) = Self::best_index(&self.sync_imme_q) {
                let p = self.sync_imme_q[i].task.get_priority();
                let s = self.sync_imme_q[i].stamp;
                if matches!(sel, TaskType::Empty) || p > sel_p || (p == sel_p && s < sel_s) {
                    sel = TaskType::SyncImme;
                    sel_i = i;
                    sel_p = p;
                    sel_s = s;
                }
            }
        }
        proof {
            if sel != TaskType::Empty {
                assert(is_best(pre, mask, sel, sel_i as int));
            } else {
                assert(!has_enabled_entry(pre, mask)) by {
                    assert forall|ty: TaskType| mask.enables(ty) implies (#[trigger] pre.qs[ty]).len()
                        == 0 by {
                        match ty {
                            TaskType::Empty => {},
                            TaskType::Async => {},
                            TaskType::Sync => {},
                            TaskType::SyncImme => {},
                        }
                    }
                }
            }
        }
        let qt = match sel {
            TaskType::Empty => {
                proof {
                    assert(self@.qs =~~= pre.qs);
                }
                return None;
            },
            TaskType::Async => self.async_q.remove(sel_i),
            TaskType::Sync => self.sync_q.remove(sel_i),
            TaskType::SyncImme => self.sync_imme_q.remove(sel_i),
        };
        let ghost e = pre.qs[sel][sel_i as int];
        proof {
            assert(queue_view(match sel {
                TaskType::Empty => Seq::<QueuedTask<T>>::empty(),
                TaskType::Async => self.async_q@,
                TaskType::Sync => self.sync_q@,
                TaskType::SyncImme => self.sync_imme_q@,
            }) =~= pre.qs[sel].remove(sel_i as int));
            assert(self@.qs =~~= pre.qs.insert(sel, pre.qs[sel].remove(sel_i as int)));
            assert(pop_transition(pre, mask, e, self@));
            lemma_pop_preserves_wf(pre, mask, e, self@);
        }
        let t = qt.task;
        Some(t)
    }
}

/// A push keeps the pool sound: the fresh entry is populated and carries
/// a stamp above every older one, so order and uniqueness are preserved.
pub proof fn lemma_push_preserves_wf<T>(
    pre: PoolView<T>,
    ty: TaskType,
    e: PoolEntry<T>,
    post: PoolView<T>,
)
    requires
        pool_wf(pre),
        pre.next_stamp < u64::MAX,
        e.func is Some,
        push_transition(pre, ty, e, post),
    ensures
        pool_wf(post),
{
    assert forall|ty2: TaskType| #[trigger] post.qs[ty2] == if ty2 == ty {
        pre.qs[ty].push(e)
    } else {
        pre.qs[ty2]
    } by {}
}

/// A pop keeps the pool sound, removes exactly the entry it hands out, and
/// never invents entries: everything left was already queued, and the
/// popped stamp is gone for good.
pub proof fn lemma_pop_preserves_wf<T>(
    pre: PoolView<T>,
    mask: TaskMask,
    e: PoolEntry<T>,
    post: PoolView<T>,
)
    requires
        pool_wf(pre),
        pop_transition(pre, mask, e, post),
    ensures
        pool_wf(post),
        forall|ty2: TaskType, j: int|
            0 <= j < post.qs[ty2].len() ==> entry_at(pre, ty2, #[trigger] post.qs[ty2][j]),
        forall|ty2: TaskType, j: int|
            0 <= j < post.qs[ty2].len() ==> (#[trigger] post.qs[ty2][j]).stamp != e.stamp,
{
    let (ty, i): (TaskType, int) = choose|ty: TaskType, i: int|
        {
            &&& #[trigger] is_best(pre, mask, ty, i)
            &&& e == pre.qs[ty][i]
            &&& post.qs == pre.qs.insert(ty, pre.qs[ty].remove(i))
            &&& post.next_stamp == pre.next_stamp
        };
    assert forall|ty2: TaskType, j: int| 0 <= j < post.qs[ty2].len() implies entry_at(
        pre,
        ty2,
        #[trigger] post.qs[ty2][j],
    ) && post.qs[ty2][j].stamp != e.stamp by {
        if ty2 == ty {
            if j < i {
                assert(post.qs[ty2][j] == pre.qs[ty2][j]);
            } else {
                assert(post.qs[ty2][j] == pre.qs[ty2][j + 1]);
            }
        } else {
            assert(post.qs[ty2] == pre.qs[ty2]);
        }
    }
}

/// The entry stands at some position of queue `ty` in `v`.
pub open spec fn entry_at<T>(v: PoolView<T>, ty: TaskType, e: PoolEntry<T>) -> bool {
    exists|i: int| 0 <= i < v.qs[ty].len() && (#[trigger] v.qs[ty][i]) == e
}

/// No two distinct positions of the pool hold the same priority.
pub open spec fn distinct_priorities<T>(v: PoolView<T>) -> bool {
    forall|ty1: TaskType, i1: int, ty2: TaskType, i2: int|
        0 <= i1 < v.qs[ty1].len() && 0 <= i2 < v.qs[ty2].len() && (ty1 != ty2 || i1 != i2)
            ==> (#[trigger] v.qs[ty1][i1]).priority != (#[trigger] v.qs[ty2][i2]).priority
}

/// Priorities are served strictly in order: when every queued priority is
/// distinct, two successive pops under one mask deliver strictly
/// descending priorities.
pub proof fn lemma_pop_priority_descending<T>(
    v0: PoolView<T>,
    mask: TaskMask,
    e1: PoolEntry<T>,
    v1: PoolView<T>,
    e2: PoolEntry<T>,
    v2: PoolView<T>,
)
    requires
        pool_wf(v0),
        distinct_priorities(v0),
        pop_transition(v0, mask, e1, v1),
        pop_transition(v1, mask, e2, v2),
    ensures
        e2.priority < e1.priority,
{
    lemma_pop_preserves_wf(v0, mask, e1, v1);
    let (ty2, i2): (TaskType, int) = choose|ty: TaskType, i: int|
        {
            &&& #[trigger] is_best(v1, mask, ty, i)
            &&& e2 == v1.qs[ty][i]
            &&& v2.qs == v1.qs.insert(ty, v1.qs[ty].remove(i))
            &&& v2.next_stamp == v1.next_stamp
        };
    assert(entry_at(v0, ty2, e2));
    let j2 = choose|i: int| 0 <= i < v0.qs[ty2].len() && (#[trigger] v0.qs[ty2][i]) == e2;
    let (ty1, i1): (TaskType, int) = choose|ty: TaskType, i: int|
        {
            &&& #[trigger] is_best(v0, mask, ty, i)
            &&& e1 == v0.qs[ty][i]
            &&& v1.qs == v0.qs.insert(ty, v0.qs[ty].remove(i))
            &&& v1.next_stamp == v0.next_stamp
        };
    assert(beats(e1, v0.qs[ty2][j2]));
    assert(e2.stamp != e1.stamp);
    if ty1 == ty2 && i1 == j2 {
        assert(e1 == e2);
        assert(false);
    } else {
        assert(e1.priority != e2.priority);
    }
}

/// Pushes at one priority are served first-in, first-out: two successive
/// pops under one mask that deliver equal priorities deliver them in
/// stamp (insertion) order.
pub proof fn lemma_pop_fifo<T>(
    v0: PoolView<T>,
    mask: TaskMask,
    e1: PoolEntry<T>,
    v1: PoolView<T>,
    e2: PoolEntry<T>,
    v2: PoolView<T>,
)
    requires
        pool_wf(v0),
        pop_transition(v0, mask, e1, v1),
        pop_transition(v1, mask, e2, v2),
        e1.priority == e2.priority,
    ensures
        e1.stamp < e2.stamp,
{
    lemma_pop_preserves_wf(v0, mask, e1, v1);
    let (ty2, i2): (TaskType, int) = choose|ty: TaskType, i: int|
        {
            &&& #[trigger] is_best(v1, mask, ty, i)
            &&& e2 == v1.qs[ty][i]
            &&& v2.qs == v1.qs.insert(ty, v1.qs[ty].remove(i))
            &&& v2.next_stamp == v1.next_stamp
        };
    assert(entry_at(v0, ty2, e2));
    let j2 = choose|i: int| 0 <= i < v0.qs[ty2].len() && (#[trigger] v0.qs[ty2][i]) == e2;
    let (ty1, i1): (TaskType, int) = choose|ty: TaskType, i: int|
        {
            &&& #[trigger] is_best(v0, mask, ty, i)
            &&& e1 == v0.qs[ty][i]
            &&& v1.qs == v0.qs.insert(ty, v0.qs[ty].remove(i))
            &&& v1.next_stamp == v0.next_stamp
        };
    assert(beats(e1, v0.qs[ty2][j2]));
    assert(e2.stamp != e1.stamp);
}

/// No queued unit of work is delivered twice: a pop removes the entry it
/// returns, so the entries delivered by two successive pops are distinct
/// occurrences, whatever masks the pops used.
pub proof fn lemma_no_double_delivery<T>(
    v0: PoolView<T>,
    mask1: TaskMask,
    e1: PoolEntry<T>,
    v1: PoolView<T>,
    mask2: TaskMask,
    e2: PoolEntry<T>,
    v2: PoolView<T>,
)
    requires
        pool_wf(v0),
        pop_transition(v0, mask1, e1, v1),
        pop_transition(v1, mask2, e2, v2),
    ensures
        e1.stamp != e2.stamp,
{
    lemma_pop_preserves_wf(v0, mask1, e1, v1);
    let (ty2, i2): (TaskType, int) = choose|ty: TaskType, i: int|
        {
            &&& #[trigger] is_best(v1, mask2, ty, i)
            &&& e2 == v1.qs[ty][i]
            &&& v2.qs == v1.qs.insert(ty, v1.qs[ty].remove(i))
            &&& v2.next_stamp == v1.next_stamp
        };
}

} // verus!
