use npnc::bounded::mpmc::channel;
use pi_base::future::{FutTask, PollOutcome};
use pi_base::future_pool::{FutTaskPool, FUTURE_TASK_PRIORITY};

#[test]
fn poll_not_ready_until_produced_then_ready_once() {
    let (producer, consumer) = channel::<Result<usize, String>>(1);
    let mut fut: FutTask<usize, String> = FutTask::new(0, 100, 1000, consumer);
    // nothing produced yet
    assert!(matches!(fut.poll(1000), PollOutcome::NotReady));
    assert!(matches!(fut.poll(1050), PollOutcome::NotReady));
    // the callback produces exactly one result
    assert!(producer.produce(Ok(42)).is_ok());
    match fut.poll(1060) {
        PollOutcome::Ready(v) => assert_eq!(v, 42),
        _ => panic!("expected the produced value"),
    }
    // the value was delivered: the handle is done and never ready again,
    // even if something were produced into the slot afterwards
    assert!(producer.produce(Ok(43)).is_ok());
    assert!(matches!(fut.poll(1070), PollOutcome::NotReady));
}

#[test]
fn poll_after_deadline_times_out_and_discards_late_result() {
    // a 20 ms timeout polled at +30: the timeout surfaces as an ordinary
    // error outcome, and the late result is silently discarded
    let (producer, consumer) = channel::<Result<usize, String>>(1);
    let mut fut: FutTask<usize, String> = FutTask::new(1, 20, 1000, consumer);
    assert!(producer.produce(Ok(7)).is_ok());
    assert!(matches!(fut.poll(1030), PollOutcome::TimedOut));
    // at the deadline itself the poll still consumes
    let (producer2, consumer2) = channel::<Result<usize, String>>(1);
    let mut fut2: FutTask<usize, String> = FutTask::new(2, 20, 1000, consumer2);
    assert!(producer2.produce(Ok(8)).is_ok());
    match fut2.poll(1020) {
        PollOutcome::Ready(v) => assert_eq!(v, 8),
        _ => panic!("expected the produced value at the deadline"),
    }
}

#[test]
fn poll_surfaces_user_error() {
    let (producer, consumer) = channel::<Result<usize, String>>(1);
    let mut fut: FutTask<usize, String> = FutTask::new(3, 100, 0, consumer);
    assert!(producer.produce(Err(String::from("boom"))).is_ok());
    match fut.poll(10) {
        PollOutcome::UserError(e) => assert_eq!(e, "boom"),
        _ => panic!("expected the callback's error"),
    }
}

#[test]
fn poll_reports_disconnect_as_infrastructure_error() {
    let (producer, consumer) = channel::<Result<usize, String>>(1);
    let mut fut: FutTask<usize, String> = FutTask::new(4, 100, 0, consumer);
    drop(producer);
    assert!(matches!(fut.poll(10), PollOutcome::Disconnected));
}

#[test]
fn fut_task_keeps_its_uid() {
    let (_producer, consumer) = channel::<Result<usize, String>>(1);
    let fut: FutTask<usize, String> = FutTask::new(17, 100, 0, consumer);
    assert_eq!(fut.get_uid(), 17);
}

#[test]
fn pool_hands_out_monotonic_uids() {
    let mut pool = FutTaskPool::new();
    assert_eq!(pool.counte(), 0);
    let (f0, _p0) = pool.spawn_parts::<usize, String>(100, 1000);
    let (f1, _p1) = pool.spawn_parts::<usize, String>(100, 1000);
    let (f2, _p2) = pool.spawn_parts::<usize, String>(100, 1000);
    assert_eq!(f0.get_uid(), 0);
    assert_eq!(f1.get_uid(), 1);
    assert_eq!(f2.get_uid(), 2);
    assert_eq!(pool.counte(), 3);
}

#[test]
fn spawned_parts_form_a_working_channel() {
    let mut pool = FutTaskPool::new();
    let (mut fut, producer) = pool.spawn_parts::<usize, String>(50, 2000);
    assert!(matches!(fut.poll(2000), PollOutcome::NotReady));
    assert!(producer.produce(Ok(5)).is_ok());
    match fut.poll(2040) {
        PollOutcome::Ready(v) => assert_eq!(v, 5),
        _ => panic!("expected the produced value"),
    }
    // past the deadline the handle reports a timeout
    assert!(matches!(fut.poll(2051), PollOutcome::TimedOut));
}

#[test]
fn default_submission_priority_outranks_routine_work() {
    assert_eq!(FUTURE_TASK_PRIORITY, 10000000);
    assert!(FUTURE_TASK_PRIORITY > 100);
}
