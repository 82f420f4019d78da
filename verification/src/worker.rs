//! Workers and the worker pool: the control state of each worker thread,
//! the decision its loop takes at every wakeup, and the overload
//! diagnostic thresholds shared by a pool.
//!
//! The threads, the mutex around the task pool and the condition variable
//! live outside the verified core; what is verified is the state machine
//! each thread runs: wait while the pool is empty and no stop was asked,
//! exit once one was, otherwise claim the best task and execute it
//! outside the lock.

use vstd::prelude::*;

verus! {

/// A worker's control state: created free, running once started, asked to
/// stop, and stopped once it observes the request at a wakeup.
#[derive(Copy, Clone, Debug, PartialEq, Eq, Structural)]
pub enum WorkerStatus {
    Free,
    Running,
    Stopping,
    Stopped,
}

/// What a worker does at a wakeup.
#[derive(Copy, Clone, Debug, PartialEq, Eq, Structural)]
pub enum WorkerAction {
    /// The pool is empty and no stop was asked: wait on the condition
    /// variable.
    Wait,
    /// A stop was asked: release the lock and exit.
    Exit,
    /// Pop the best eligible task and run it outside the lock.
    Claim,
}

/// The decision a worker takes at a wakeup, holding the pool's lock: exit
/// once stopping, wait while there is nothing to do, claim otherwise.
pub fn worker_decision(status: WorkerStatus, pool_empty: bool) -> (a: WorkerAction)
    ensures
        a == if status is Stopping || status is Stopped {
            WorkerAction::Exit
        } else if pool_empty {
            WorkerAction::Wait
        } else {
            WorkerAction::Claim
        },
{
    match status {
        WorkerStatus::Stopping | WorkerStatus::Stopped => WorkerAction::Exit,
        _ => if pool_empty {
            WorkerAction::Wait
        } else {
            WorkerAction::Claim
        },
    }
}

/// Whether one executed task trips the overload diagnostics: it ran
/// longer than the slack budget, or the queue behind it has grown past
/// the configured bound. Observational only; no task is rejected.
pub fn is_overloaded(elapsed_ns: u64, slack_ns: u64, queue_len: usize, max_queue_len: usize) -> (b:
    bool)
    ensures
        b == (elapsed_ns > slack_ns || queue_len > max_queue_len),
{
    elapsed_ns > slack_ns || queue_len > max_queue_len
}

/// One worker: its control state and the overload thresholds it checks
/// after each task.
pub struct Worker {
    status: WorkerStatus,
    slack_ns: u64,
    max_queue_len: usize,
}

impl Worker {
    pub closed spec fn spec_status(self) -> WorkerStatus {
        self.status
    }

    pub closed spec fn spec_slack_ns(self) -> u64 {
        self.slack_ns
    }

    pub closed spec fn spec_max_queue_len(self) -> usize {
        self.max_queue_len
    }

    /// A fresh worker, not yet attached to a thread.
    pub fn new(slack_ns: u64, max_queue_len: usize) -> (w: Self)
        ensures
            w.spec_status() is Free,
            w.spec_slack_ns() == slack_ns,
            w.spec_max_queue_len() == max_queue_len,
    {
        Worker { status: WorkerStatus::Free, slack_ns, max_queue_len }
    }

    pub fn status(&self) -> (s: WorkerStatus)
        ensures
            s == self.spec_status(),
    {
        self.status
    }

    /// Starts a free worker: its thread is about to enter the loop.
    pub fn start(&mut self)
        requires
            old(self).spec_status() is Free,
        ensures
            final(self).spec_status() is Running,
            final(self).spec_slack_ns() == old(self).spec_slack_ns(),
            final(self).spec_max_queue_len() == old(self).spec_max_queue_len(),
    {
        self.status = WorkerStatus::Running;
    }

    /// Asks a running worker to stop; it exits at its next wakeup.
    pub fn request_stop(&mut self)
        requires
            old(self).spec_status() is Running,
        ensures
            final(self).spec_status() is Stopping,
            final(self).spec_slack_ns() == old(self).spec_slack_ns(),
            final(self).spec_max_queue_len() == old(self).spec_max_queue_len(),
    {
        self.status = WorkerStatus::Stopping;
    }

    /// The worker observed the stop request at a wakeup and exited.
    pub fn observe_stop(&mut self)
        requires
            old(self).spec_status() is Stopping,
        ensures
            final(self).spec_status() is Stopped,
            final(self).spec_slack_ns() == old(self).spec_slack_ns(),
            final(self).spec_max_queue_len() == old(self).spec_max_queue_len(),
    {
        self.status = WorkerStatus::Stopped;
    }
}

/// A fixed set of workers sharing one pair of overload thresholds; each
/// worker is attached to at most one pool, and detaching is not
/// supported.
pub struct WorkerPool {
    workers: Vec<Worker>,
    slack_ns: u64,
    max_queue_len: usize,
}

impl WorkerPool {
    pub closed spec fn spec_workers(self) -> Seq<Worker> {
        self.workers@
    }

    pub closed spec fn spec_slack_ns(self) -> u64 {
        self.slack_ns
    }

    pub closed spec fn spec_max_queue_len(self) -> usize {
        self.max_queue_len
    }

    /// `count` fresh workers sharing the given thresholds.
    pub fn new(count: usize, slack_ns: u64, max_queue_len: usize) -> (p: Self)
        ensures
            p.spec_workers().len() == count,
            forall|i: int|
                0 <= i < count ==> (#[trigger] p.spec_workers()[i]).spec_status() is Free
                    && p.spec_workers()[i].spec_slack_ns() == slack_ns
                    && p.spec_workers()[i].spec_max_queue_len() == max_queue_len,
            p.spec_slack_ns() == slack_ns,
            p.spec_max_queue_len() == max_queue_len,
    {
        let mut workers: Vec<Worker> = Vec::new();
        let mut i: usize = 0;
        while i < count
            invariant
                i <= count,
                workers@.len() == i,
                forall|j: int|
                    0 <= j < i ==> (#[trigger] workers@[j]).spec_status() is Free
                        && workers@[j].spec_slack_ns() == slack_ns
                        && workers@[j].spec_max_queue_len() == max_queue_len,
            decreases count - i,
        {
            workers.push(Worker::new(slack_ns, max_queue_len));
            i = i + 1;
        }
        WorkerPool { workers, slack_ns, max_queue_len }
    }

    pub fn len(&self) -> (n: usize)
        ensures
            n == self.spec_workers().len(),
    {
        self.workers.len()
    }

    pub fn slack_ns(&self) -> (n: u64)
        ensures
            n == self.spec_slack_ns(),
    {
        self.slack_ns
    }

    pub fn max_queue_len(&self) -> (n: usize)
        ensures
            n == self.spec_max_queue_len(),
    {
        self.max_queue_len
    }

    /// Marks every worker started; the caller binds each to a thread over
    /// the task pool's lock and condition variable.
    pub fn start_all(&mut self)
        requires
            forall|i: int|
                0 <= i < old(self).spec_workers().len() ==> (#[trigger] old(self).spec_workers()[i]).spec_status() is Free,
        ensures
            final(self).spec_workers().len() == old(self).spec_workers().len(),
            forall|i: int|
                0 <= i < final(self).spec_workers().len() ==> (#[trigger] final(self).spec_workers()[i]).spec_status() is Running,
            final(self).spec_slack_ns() == old(self).spec_slack_ns(),
            final(self).spec_max_queue_len() == old(self).spec_max_queue_len(),
    {
        let n = self.workers.len();
        let mut i: usize = 0;
        while i < n
            invariant
                i <= n,
                n == self.workers@.len(),
                self.slack_ns == old(self).slack_ns,
                self.max_queue_len == old(self).max_queue_len,
                forall|j: int|
                    0 <= j < i ==> (#[trigger] self.workers@[j]).spec_status() is Running,
                forall|j: int|
                    0 <= j < n ==> (#[trigger] old(self).spec_workers()[j]).spec_status() is Free,
                forall|j: int|
                    i <= j < n ==> (#[trigger] self.workers@[j]) == old(self).spec_workers()[j],
            decreases n - i,
        {
            let mut w = self.workers.remove(i);
            w.start();
            self.workers.insert(i, w);
            i = i + 1;
        }
    }

    /// Asks every running worker to stop; each exits at its next wakeup
    /// once the condition variable is broadcast.
    pub fn request_stop_all(&mut self)
        requires
            forall|i: int|
                0 <= i < old(self).spec_workers().len() ==> (#[trigger] old(self).spec_workers()[i]).spec_status() is Running,
        ensures
            final(self).spec_workers().len() == old(self).spec_workers().len(),
            forall|i: int|
                0 <= i < final(self).spec_workers().len() ==> (#[trigger] final(self).spec_workers()[i]).spec_status() is Stopping,
            final(self).spec_slack_ns() == old(self).spec_slack_ns(),
            final(self).spec_max_queue_len() == old(self).spec_max_queue_len(),
    {
        let n = self.workers.len();
        let mut i: usize = 0;
        while i < n
            invariant
                i <= n,
                n == self.workers@.len(),
                self.slack_ns == old(self).slack_ns,
                self.max_queue_len == old(self).max_queue_len,
                forall|j: int|
                    0 <= j < i ==> (#[trigger] self.workers@[j]).spec_status() is Stopping,
                forall|j: int|
                    0 <= j < n ==> (#[trigger] old(self).spec_workers()[j]).spec_status() is Running,
                forall|j: int|
                    i <= j < n ==> (#[trigger] self.workers@[j]) == old(self).spec_workers()[j],
            decreases n - i,
        {
            let mut w = self.workers.remove(i);
            w.request_stop();
            self.workers.insert(i, w);
            i = i + 1;
        }
    }
}

} // verus!
