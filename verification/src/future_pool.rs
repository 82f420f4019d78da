//! The future-task pool: hands out monotonically increasing ids and, for
//! each spawned task, a fresh single-slot channel and its pollable
//! handle. The executor that actually enqueues the task's thunk — and the
//! thunk itself, a closure over the producer end — live with the caller;
//! what is decided here is the id, the deadline and the channel.

use vstd::prelude::*;
use crate::future::{single_slot_channel, FutTask};

verus! {

/// Priority a future task's submission carries by default: deliberately
/// above routine work, so the submission outranks it; callers may choose
/// another per use site.
pub const FUTURE_TASK_PRIORITY: u64 = 10000000;

/// Allocator of future-task ids.
pub struct FutTaskPool {
    counter: usize,
}

impl FutTaskPool {
    pub closed spec fn spec_counter(self) -> usize {
        self.counter
    }

    /// A pool that has spawned nothing.
    pub fn new() -> (p: Self)
        ensures
            p.spec_counter() == 0,
    {
        FutTaskPool { counter: 0 }
    }

    /// How many future tasks have been spawned so far.
    pub fn counte(&self) -> (n: usize)
        ensures
            n == self.spec_counter(),
    {
        self.counter
    }

    /// Allocates everything one spawn needs: the next id (ids never
    /// repeat), a fresh single-slot channel, and the handle that polls
    /// its consumer end against a deadline `timeout` milliseconds after
    /// `now`. The caller wraps the producer end into the task's thunk and
    /// hands the thunk to its executor.
    pub fn spawn_parts<T, E>(&mut self, timeout: u32, now: i64) -> (parts: (
        FutTask<T, E>,
        npnc::bounded::mpmc::Producer<Result<T, E>>,
    ))
        requires
            old(self).spec_counter() < usize::MAX,
            now + timeout <= i64::MAX,
        ensures
            final(self).spec_counter() == old(self).spec_counter() + 1,
            parts.0.spec_uid() == old(self).spec_counter(),
            parts.0.spec_deadline() == now + timeout,
            !parts.0.spec_done(),
    {
        let uid = self.counter;
        self.counter = self.counter + 1;
        let (producer, consumer) = single_slot_channel::<Result<T, E>>();
        let task = FutTask::new(uid, timeout, now, consumer);
        (task, producer)
    }
}

} // verus!
