//! Tasks: opaque, priority-tagged, single-shot units of work, and a
//! bounded free-list of reusable task slots.
//!
//! A task carries a numeric priority, a type tag, a short human-readable
//! label and an optional thunk. The thunk is owned and single-use: it is
//! moved into the slot and moved back out exactly once, so no thunk can
//! be observed twice.

use vstd::prelude::*;

verus! {

/// Classification of a task, used by the pool to keep separate queues
/// and by workers to select which queues they are willing to drain.
#[derive(Copy, Clone, Debug, PartialEq, Eq, Structural)]
pub enum TaskType {
    Empty,
    Async,
    Sync,
    SyncImme,
}

/// A single unit of work: a priority, an optional owned thunk and a label.
///
/// The thunk type is generic so that the queueing logic is independent of
/// how callers represent work; a populated slot holds `Some` thunk, an
/// empty (reset or drained) slot holds `None`.
pub struct Task<T> {
    priority: u64,
    func: Option<T>,
    info: String,
}

impl<T> Task<T> {
    /// True of a slot that carries no work: reset priority, no thunk.
    pub open spec fn is_clear(self) -> bool {
        self.spec_priority() == 0 && self.spec_func() is None
    }

    pub closed spec fn spec_priority(self) -> u64 {
        self.priority
    }

    pub closed spec fn spec_func(self) -> Option<T> {
        self.func
    }

    pub closed spec fn spec_info(self) -> Seq<char> {
        self.info@
    }

    /// An empty task slot: zero priority, no thunk, blank label.
    pub fn new() -> (t: Self)
        ensures
            t.is_clear(),
            t.spec_info() == Seq::<char>::empty(),
    {
        Task { priority: 0, func: None, info: String::new() }
    }

    pub fn get_priority(&self) -> (p: u64)
        ensures
            p == self.spec_priority(),
    {
        self.priority
    }

    pub fn set_priority(&mut self, priority: u64)
        ensures
            final(self).spec_priority() == priority,
            final(self).spec_func() == old(self).spec_func(),
            final(self).spec_info() == old(self).spec_info(),
    {
        self.priority = priority;
    }

    /// Installs a thunk; `None` leaves the slot as it was, mirroring the
    /// behaviour of populating a slot only when work is actually handed in.
    pub fn set_func(&mut self, func: Option<T>)
        ensures
            final(self).spec_func() == if func is Some {
                func
            } else {
                old(self).spec_func()
            },
            final(self).spec_priority() == old(self).spec_priority(),
            final(self).spec_info() == old(self).spec_info(),
    {
        match func {
            Some(f) => {
                self.func = Some(f);
            },
            None => {},
        }
    }

    /// Removes and returns the thunk, leaving the slot without one. A
    /// second call returns `None`: the single-use discipline that keeps
    /// any thunk from being run twice.
    pub fn take_func(&mut self) -> (f: Option<T>)
        ensures
            f == old(self).spec_func(),
            final(self).spec_func() is None,
            final(self).spec_priority() == old(self).spec_priority(),
            final(self).spec_info() == old(self).spec_info(),
    {
        self.func.take()
    }

    pub fn get_info(&self) -> (s: &str)
        ensures
            s@ == self.spec_info(),
    {
        self.info.as_str()
    }

    pub fn set_info(&mut self, info: String)
        ensures
            final(self).spec_info() == info@,
            final(self).spec_priority() == old(self).spec_priority(),
            final(self).spec_func() == old(self).spec_func(),
    {
        self.info = info;
    }

    /// Moves every field into `dest`, the thunk included: the thunk is
    /// owned and single-use, so it is transferred, never duplicated. The
    /// source is left without a thunk.
    pub fn copy_to(&mut self, dest: &mut Self)
        ensures
            final(dest).spec_priority() == old(self).spec_priority(),
            final(dest).spec_func() == old(self).spec_func(),
            final(dest).spec_info() == old(self).spec_info(),
            final(self).spec_func() is None,
            final(self).spec_priority() == old(self).spec_priority(),
            final(self).spec_info() == old(self).spec_info(),
    {
        dest.priority = self.priority;
        dest.func = self.func.take();
        dest.info = self.info.clone();
    }

    /// Clears the slot: zero priority, no thunk, blank label. Run before a
    /// slot re-enters the free-list, so recycled slots never retain work.
    pub fn reset(&mut self)
        ensures
            final(self).is_clear(),
            final(self).spec_info() == Seq::<char>::empty(),
    {
        self.priority = 0;
        self.func = None;
        self.info = String::new();
    }
}

impl<T: FnOnce()> Task<T> {
    /// Executes the thunk exactly once and clears it; a no-op on an empty
    /// slot. A second call finds the slot empty, so nothing runs twice.
    pub fn run(&mut self)
        requires
            old(self).spec_func() matches Some(f) ==> call_requires(f, ()),
        ensures
            final(self).spec_func() is None,
            final(self).spec_priority() == old(self).spec_priority(),
            final(self).spec_info() == old(self).spec_info(),
            old(self).spec_func() matches Some(f) ==> exists|r: ()| call_ensures(f, (), r),
    {
        match self.func.take() {
            Some(f) => {
                f();
            },
            None => {},
        }
    }
}

/// A bounded free-list of reusable task slots.
///
/// Every cached slot is clear: a slot is reset before it re-enters the
/// list, so work handed back for recycling can never surface again.
pub struct TaskCache<T> {
    cache: std::collections::VecDeque<Task<T>>,
    capacity: usize,
}

impl<T> TaskCache<T> {
    pub closed spec fn spec_capacity(self) -> usize {
        self.capacity
    }

    pub closed spec fn slots(self) -> Seq<Task<T>> {
        self.cache@
    }

    /// Bounded, and holding only cleared slots.
    pub open spec fn wf(self) -> bool {
        &&& self.slots().len() <= self.spec_capacity()
        &&& forall|i: int| 0 <= i < self.slots().len() ==> (#[trigger] self.slots()[i]).is_clear()
    }

    /// A free-list preallocated to its capacity with empty slots.
    pub fn new(len: u32) -> (c: Self)
        requires
            len >= 1,
        ensures
            c.wf(),
            c.spec_capacity() == len,
            c.slots().len() == len,
    {
        let mut cache: std::collections::VecDeque<Task<T>> =
            std::collections::VecDeque::with_capacity(len as usize);
        let mut i: u32 = 0;
        while i < len
            invariant
                i <= len,
                cache@.len() == i,
                forall|j: int| 0 <= j < cache@.len() ==> (#[trigger] cache@[j]).is_clear(),
            decreases len - i,
        {
            cache.push_back(Task::new());
            i = i + 1;
        }
        TaskCache { cache, capacity: len as usize }
    }

    /// Hands out a reusable slot, or a fresh one when the list is empty.
    /// Either way the slot is clear: it carries no stale thunk.
    pub fn pop(&mut self) -> (t: Task<T>)
        requires
            old(self).wf(),
        ensures
            final(self).wf(),
            t.is_clear(),
            final(self).spec_capacity() == old(self).spec_capacity(),
            final(self).slots().len() == if old(self).slots().len() > 0 {
                old(self).slots().len() - 1
            } else {
                0
            },
    {
        match self.cache.pop_front() {
            Some(t) => t,
            None => Task::new(),
        }
    }

    /// Returns a slot to the free-list after clearing it; once the list is
    /// at capacity the slot is dropped instead.
    pub fn push(&mut self, entry: Task<T>)
        requires
            old(self).wf(),
        ensures
            final(self).wf(),
            final(self).spec_capacity() == old(self).spec_capacity(),
            final(self).slots().len() == if old(self).slots().len() < old(self).spec_capacity() {
                old(self).slots().len() + 1
            } else {
                old(self).slots().len()
            },
    {
        let mut entry = entry;
        if self.cache.len() < self.capacity {
            entry.reset();
            self.cache.push_back(entry);
        }
    }

    /// Reports how many reusable slots are cached; the list holds nothing
    /// that needs freeing beyond what dropping it releases.
    pub fn clean(&mut self) -> (n: usize)
        requires
            old(self).wf(),
        ensures
            *final(self) == *old(self),
            n == final(self).slots().len(),
    {
        self.size()
    }

    pub fn size(&self) -> (n: usize)
        ensures
            n == self.slots().len(),
    {
        self.cache.len()
    }
}

} // verus!
