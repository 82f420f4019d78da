use pi_base::timer::{driver_step, DriverStep, Statistics, Timer, Wheel, MIN_TICK_MS};

#[test]
fn statistics_start_at_zero() {
    let s = Statistics::new();
    assert_eq!(s.all_count, 0);
    assert_eq!(s.cancel_count, 0);
    assert_eq!(s.run_count, 0);
    assert_eq!(s.run_time, 0);
}

#[test]
fn tick_is_clamped_to_minimum() {
    let w: Wheel<u32> = Wheel::new(3);
    assert_eq!(w.tick(), MIN_TICK_MS);
    let w: Wheel<u32> = Wheel::new(25);
    assert_eq!(w.tick(), 25);
}

#[test]
fn timer_fires_no_earlier_than_deadline() {
    // set_timeout(f, 50) with a 10 ms tick: nothing fires during the
    // first four rolls, the fifth delivers it
    let mut t: Timer<u32> = Timer::new(10);
    t.set_time(1000);
    let h = t.set_timeout(7, 50);
    assert_eq!(h, 0);
    for _ in 0..4 {
        let due = t.take_due();
        assert!(due.is_empty());
    }
    let due = t.take_due();
    assert_eq!(due.len(), 1);
    assert_eq!(due[0].id, h);
    assert_eq!(due[0].time_point, 1050);
    assert_eq!(due[0].elem, 7);
    // wheel time when it fired is at least the requested deadline
    assert!(1000 + 50 <= 1050);
}

#[test]
fn zero_delay_goes_to_zero_bucket() {
    // a zero-delay entry runs in the same driver cycle, before any
    // non-zero entry is rolled out
    let mut t: Timer<u32> = Timer::new(10);
    t.set_time(500);
    t.set_timeout(1, 20);
    let h0 = t.set_timeout(2, 0);
    assert_eq!(t.zero_len(), 1);
    assert_eq!(t.pending_len(), 1);
    let zero = t.take_zero();
    assert_eq!(zero.len(), 1);
    assert_eq!(zero[0].id, h0);
    assert_eq!(zero[0].elem, 2);
    assert_eq!(t.zero_len(), 0);
    // the delayed entry is untouched
    assert_eq!(t.pending_len(), 1);
}

#[test]
fn cancel_before_fire_prevents_execution() {
    let mut t: Timer<u32> = Timer::new(10);
    t.set_time(0);
    let h = t.set_timeout(9, 10);
    let cancelled = t.cancel(h);
    assert_eq!(cancelled, Some(9));
    // the entry never fires
    for _ in 0..3 {
        assert!(t.take_due().is_empty());
    }
    // a second cancel finds nothing
    assert_eq!(t.cancel(h), None);
}

#[test]
fn cancel_after_fire_returns_none() {
    let mut t: Timer<u32> = Timer::new(10);
    t.set_time(0);
    let h = t.set_timeout(9, 10);
    let due = t.take_due();
    assert_eq!(due.len(), 1);
    assert_eq!(due[0].id, h);
    // the handle is spent: cancelling is a no-op and nothing re-fires
    assert_eq!(t.cancel(h), None);
    assert!(t.take_due().is_empty());
}

#[test]
fn cancel_of_unknown_handle_is_none() {
    let mut t: Timer<u32> = Timer::new(10);
    assert_eq!(t.cancel(123), None);
}

#[test]
fn handles_are_distinct_and_fire_once() {
    let mut t: Timer<u32> = Timer::new(10);
    t.set_time(0);
    let a = t.set_timeout(1, 10);
    let b = t.set_timeout(2, 10);
    let c = t.set_timeout(3, 20);
    assert!(a != b && b != c && a != c);
    let first = t.take_due();
    assert_eq!(first.len(), 2);
    assert!(first.iter().any(|e| e.id == a && e.elem == 1));
    assert!(first.iter().any(|e| e.id == b && e.elem == 2));
    let second = t.take_due();
    assert_eq!(second.len(), 1);
    assert_eq!(second[0].id, c);
    assert!(t.take_due().is_empty());
}

#[test]
fn driver_arithmetic() {
    let mut t: Timer<u32> = Timer::new(10);
    t.set_time(100);
    assert!(!t.should_roll(105));
    assert!(t.should_roll(110));
    assert!(t.should_roll(130));
    assert_eq!(t.next_sleep(105), 5);
    assert_eq!(t.next_sleep(110), 0);
    assert_eq!(t.next_sleep(100), 10);
}

#[test]
fn counters_track_activity() {
    let mut t: Timer<u32> = Timer::new(10);
    t.set_time(0);
    let h1 = t.set_timeout(1, 0);
    let _h2 = t.set_timeout(2, 10);
    let _h3 = t.set_timeout(3, 10);
    let _ = t.cancel(h1);
    let _ = t.take_due();
    t.record_run_time(4);
    let (all, cancelled, run, run_time) = t.counters();
    assert_eq!(all, 3);
    assert_eq!(cancelled, 1);
    assert_eq!(run, 2);
    assert_eq!(run_time, 4);
}

#[test]
fn driver_drains_zero_bucket_before_rolling() {
    // zero-delay entries run in the same driver cycle, before any roll
    assert_eq!(driver_step(2, true), DriverStep::DrainZero);
    assert_eq!(driver_step(1, false), DriverStep::DrainZero);
    assert_eq!(driver_step(0, true), DriverStep::Roll);
    assert_eq!(driver_step(0, false), DriverStep::Sleep);
}
