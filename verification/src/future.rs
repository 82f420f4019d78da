//! The future adapter: a callback-style task's single result is delivered
//! through a one-slot bounded channel, and the caller polls a handle that
//! carries the channel's consumer end and an absolute deadline.
//!
//! The channel is npnc's bounded MPMC queue, trusted through the
//! declarations and wrappers below; what each consume outcome means for
//! the poller is decided by verified code.

use vstd::prelude::*;

verus! {

#[verifier::external_type_specification]
#[verifier::external_body]
#[verifier::reject_recursive_types(T)]
pub struct ExProducer<T>(npnc::bounded::mpmc::Producer<T>);

#[verifier::external_type_specification]
#[verifier::external_body]
#[verifier::reject_recursive_types(T)]
pub struct ExConsumer<T>(npnc::bounded::mpmc::Consumer<T>);

/// What one attempt to consume the channel found: a produced value, an
/// empty slot, or an empty slot whose producers are all gone.
pub enum Consumed<V> {
    Value(V),
    Pending,
    Disconnected,
}

/// Relies on npnc::bounded::mpmc::channel: returns the two ends of a
/// bounded queue of the given capacity. The capacity is fixed at one
/// here — a power of two, so the call cannot panic — because the contract
/// of a future task is exactly one result.
#[verifier::external_body]
pub(crate) fn single_slot_channel<V>() -> (pc: (
    npnc::bounded::mpmc::Producer<V>,
    npnc::bounded::mpmc::Consumer<V>,
)) {
    npnc::bounded::mpmc::channel(1)
}

/// Relies on npnc Consumer::consume: removes and returns the item at the
/// front of the queue, or reports the queue empty (`Empty`), or empty
/// with no remaining producers (`Disconnected`). Which outcome comes back
/// depends on what other threads have produced, so nothing more is
/// promised of it.
#[verifier::external_body]
pub(crate) fn consume_slot<V>(c: &npnc::bounded::mpmc::Consumer<V>) -> (r: Consumed<V>) {
    match c.consume() {
        Ok(v) => Consumed::Value(v),
        Err(npnc::ConsumeError::Empty) => Consumed::Pending,
        Err(npnc::ConsumeError::Disconnected) => Consumed::Disconnected,
    }
}

/// What one poll of a future task reports.
pub enum PollOutcome<T, E> {
    /// The callback produced a successful result; it is handed over
    /// exactly once, the consume having removed it from the slot.
    Ready(T),
    /// Nothing produced yet; poll again.
    NotReady,
    /// The callback produced an error.
    UserError(E),
    /// The deadline passed before a result was consumed; a late result is
    /// silently discarded with the handle.
    TimedOut,
    /// The producer side is gone without ever producing.
    Disconnected,
}

/// The poll decision over an already-read slot: past the deadline the
/// poll times out whatever was read; otherwise a produced `Ok` is ready,
/// a produced `Err` is the user's error, an empty slot is not ready, and
/// a dead slot is the infrastructure's error.
pub fn poll_decision<T, E>(deadline: i64, now: i64, slot: Consumed<Result<T, E>>) -> (r:
    PollOutcome<T, E>)
    ensures
        deadline < now ==> r is TimedOut,
        deadline >= now ==> match slot {
            Consumed::Value(v) => match v {
                Ok(t) => r == PollOutcome::<T, E>::Ready(t),
                Err(e) => r == PollOutcome::<T, E>::UserError(e),
            },
            Consumed::Pending => r is NotReady,
            Consumed::Disconnected => r is Disconnected,
        },
{
    if deadline < now {
        PollOutcome::TimedOut
    } else {
        match slot {
            Consumed::Value(Ok(t)) => PollOutcome::Ready(t),
            Consumed::Value(Err(e)) => PollOutcome::UserError(e),
            Consumed::Pending => PollOutcome::NotReady,
            Consumed::Disconnected => PollOutcome::Disconnected,
        }
    }
}

/// A pollable handle for one submitted task: its id, its absolute
/// deadline in wall-clock milliseconds, the consumer end of the
/// single-slot channel its callback produces into, and whether a value
/// was already delivered.
#[verifier::reject_recursive_types(T)]
#[verifier::reject_recursive_types(E)]
pub struct FutTask<T, E> {
    uid: usize,
    timeout: i64,
    inner: npnc::bounded::mpmc::Consumer<Result<T, E>>,
    done: bool,
}

impl<T, E> FutTask<T, E> {
    pub closed spec fn spec_uid(self) -> usize {
        self.uid
    }

    pub closed spec fn spec_deadline(self) -> i64 {
        self.timeout
    }

    /// Whether a poll has already delivered the task's value.
    pub closed spec fn spec_done(self) -> bool {
        self.done
    }

    /// A handle whose deadline is `timeout` milliseconds after `now`.
    pub fn new(uid: usize, timeout: u32, now: i64, inner: npnc::bounded::mpmc::Consumer<
        Result<T, E>,
    >) -> (t: Self)
        requires
            now + timeout <= i64::MAX,
        ensures
            t.spec_uid() == uid,
            t.spec_deadline() == now + timeout,
            !t.spec_done(),
    {
        FutTask { uid, timeout: now + timeout as i64, inner, done: false }
    }

    pub fn get_uid(&self) -> (uid: usize)
        ensures
            uid == self.spec_uid(),
    {
        self.uid
    }

    /// Polls the handle at wall-clock time `now`: strictly past the
    /// deadline it times out without touching the channel (a late result
    /// is dropped with the handle); otherwise it consumes the slot and
    /// reports what `poll_decision` makes of what was found. A delivered
    /// value marks the handle done, and a done handle is never ready
    /// again: the value is handed over exactly once.
    pub fn poll(&mut self, now: i64) -> (r: PollOutcome<T, E>)
        ensures
            final(self).spec_uid() == old(self).spec_uid(),
            final(self).spec_deadline() == old(self).spec_deadline(),
            old(self).spec_deadline() < now ==> r is TimedOut,
            old(self).spec_deadline() >= now ==> !(r is TimedOut),
            final(self).spec_done() == (old(self).spec_done() || r is Ready),
            old(self).spec_done() && old(self).spec_deadline() >= now ==> r is NotReady,
    {
        if self.timeout < now {
            PollOutcome::TimedOut
        } else if self.done {
            PollOutcome::NotReady
        } else {
            let slot = consume_slot(&self.inner);
            let r = poll_decision(self.timeout, now, slot);
            if let PollOutcome::Ready(v) = r {
                self.done = true;
                PollOutcome::Ready(v)
            } else {
                r
            }
        }
    }
}

} // verus!
