use std::sync::atomic::{AtomicUsize, Ordering};
use std::sync::Arc;

use pi_base::task::{Task, TaskCache, TaskType};
use pi_base::task_pool::{TaskMask, TaskPool};

#[test]
fn task_starts_clear() {
    let mut t: Task<u32> = Task::new();
    assert_eq!(t.get_priority(), 0);
    assert_eq!(t.get_info(), "");
    assert!(t.take_func().is_none());
}

#[test]
fn task_fields_round_trip() {
    let mut t: Task<u32> = Task::new();
    t.set_priority(42);
    t.set_func(Some(7));
    t.set_info(String::from("answer"));
    assert_eq!(t.get_priority(), 42);
    assert_eq!(t.get_info(), "answer");
    assert_eq!(t.take_func(), Some(7));
}

#[test]
fn task_thunk_taken_once() {
    let mut t: Task<u32> = Task::new();
    t.set_func(Some(1));
    assert_eq!(t.take_func(), Some(1));
    assert_eq!(t.take_func(), None);
}

#[test]
fn task_run_executes_thunk_exactly_once() {
    let hits = Arc::new(AtomicUsize::new(0));
    let h = hits.clone();
    let mut t = Task::new();
    t.set_func(Some(move || {
        h.fetch_add(1, Ordering::SeqCst);
    }));
    t.run();
    assert_eq!(hits.load(Ordering::SeqCst), 1);
    // the slot is clear: running again is a no-op
    t.run();
    assert_eq!(hits.load(Ordering::SeqCst), 1);
}

#[test]
fn task_set_func_none_keeps_thunk() {
    let mut t: Task<u32> = Task::new();
    t.set_func(Some(5));
    t.set_func(None);
    assert_eq!(t.take_func(), Some(5));
}

#[test]
fn task_copy_to_moves_thunk() {
    let mut src: Task<u32> = Task::new();
    src.set_priority(9);
    src.set_func(Some(3));
    src.set_info(String::from("job"));
    let mut dst: Task<u32> = Task::new();
    src.copy_to(&mut dst);
    assert_eq!(dst.get_priority(), 9);
    assert_eq!(dst.get_info(), "job");
    assert_eq!(dst.take_func(), Some(3));
    assert_eq!(src.take_func(), None);
}

#[test]
fn task_reset_clears() {
    let mut t: Task<u32> = Task::new();
    t.set_priority(9);
    t.set_func(Some(3));
    t.set_info(String::from("job"));
    t.reset();
    assert_eq!(t.get_priority(), 0);
    assert_eq!(t.get_info(), "");
    assert!(t.take_func().is_none());
}

#[test]
fn cache_prefilled_and_bounded() {
    let mut c: TaskCache<u32> = TaskCache::new(3);
    assert_eq!(c.size(), 3);
    let mut popped = c.pop();
    assert!(popped.take_func().is_none());
    assert_eq!(c.size(), 2);
    // pushes past capacity are dropped on the floor
    let mut extra: Task<u32> = Task::new();
    extra.set_func(Some(1));
    c.push(extra);
    assert_eq!(c.size(), 3);
    let full: Task<u32> = Task::new();
    c.push(full);
    assert_eq!(c.size(), 3);
}

#[test]
fn cache_recycled_slot_is_clear() {
    let mut c: TaskCache<u32> = TaskCache::new(1);
    let _ = c.pop();
    assert_eq!(c.size(), 0);
    let mut used: Task<u32> = Task::new();
    used.set_priority(77);
    used.set_func(Some(99));
    used.set_info(String::from("stale"));
    c.push(used);
    let mut again = c.pop();
    assert_eq!(again.get_priority(), 0);
    assert_eq!(again.get_info(), "");
    assert!(again.take_func().is_none());
}

#[test]
fn cache_pop_when_empty_gives_fresh() {
    let mut c: TaskCache<u32> = TaskCache::new(1);
    let _ = c.pop();
    let mut fresh = c.pop();
    assert!(fresh.take_func().is_none());
    assert_eq!(c.size(), 0);
}

#[test]
fn cache_clean_reports_size() {
    let mut c: TaskCache<u32> = TaskCache::new(4);
    assert_eq!(c.clean(), 4);
    assert_eq!(c.size(), 4);
}

#[test]
fn pool_pop_highest_priority_first() {
    let mut p: TaskPool<u32> = TaskPool::new(4);
    p.push(TaskType::Sync, 10, 1, String::from("low"));
    p.push(TaskType::Sync, 1000, 2, String::from("high"));
    p.push(TaskType::Sync, 50, 3, String::from("mid"));
    let m = TaskMask::all();
    let mut a = p.pop(m).unwrap();
    let mut b = p.pop(m).unwrap();
    let mut c = p.pop(m).unwrap();
    assert_eq!(a.get_priority(), 1000);
    assert_eq!(b.get_priority(), 50);
    assert_eq!(c.get_priority(), 10);
    assert_eq!(a.take_func(), Some(2));
    assert_eq!(b.take_func(), Some(3));
    assert_eq!(c.take_func(), Some(1));
    assert!(p.pop(m).is_none());
}

#[test]
fn pool_equal_priority_is_fifo() {
    let mut p: TaskPool<u32> = TaskPool::new(4);
    p.push(TaskType::Sync, 7, 1, String::from("first"));
    p.push(TaskType::Sync, 7, 2, String::from("second"));
    p.push(TaskType::Sync, 7, 3, String::from("third"));
    let m = TaskMask::all();
    assert_eq!(p.pop(m).unwrap().get_info(), "first");
    assert_eq!(p.pop(m).unwrap().get_info(), "second");
    assert_eq!(p.pop(m).unwrap().get_info(), "third");
}

#[test]
fn pool_priority_beats_fifo_across_types() {
    let mut p: TaskPool<u32> = TaskPool::new(4);
    p.push(TaskType::Async, 5, 1, String::from("async-low"));
    p.push(TaskType::SyncImme, 9, 2, String::from("imme-high"));
    p.push(TaskType::Sync, 9, 3, String::from("sync-high-later"));
    let m = TaskMask::all();
    // equal priorities across types: insertion order breaks the tie
    assert_eq!(p.pop(m).unwrap().get_info(), "imme-high");
    assert_eq!(p.pop(m).unwrap().get_info(), "sync-high-later");
    assert_eq!(p.pop(m).unwrap().get_info(), "async-low");
}

#[test]
fn pool_mask_filters_types() {
    let mut p: TaskPool<u32> = TaskPool::new(4);
    p.push(TaskType::Sync, 10, 1, String::from("sync"));
    let async_only = TaskMask { allow_async: true, allow_sync: false, allow_sync_imme: false };
    assert!(p.pop(async_only).is_none());
    let sync_only = TaskMask { allow_async: false, allow_sync: true, allow_sync_imme: false };
    assert_eq!(p.pop(sync_only).unwrap().get_info(), "sync");
}

#[test]
fn pool_best_is_judged_among_enabled_queues_only() {
    let mut p: TaskPool<u32> = TaskPool::new(4);
    p.push(TaskType::Async, 100, 1, String::from("async-best"));
    p.push(TaskType::Sync, 50, 2, String::from("sync-best"));
    let sync_only = TaskMask { allow_async: false, allow_sync: true, allow_sync_imme: false };
    // the globally best entry is asynchronous, but the mask hides it
    assert_eq!(p.pop(sync_only).unwrap().get_info(), "sync-best");
    assert_eq!(p.pop(TaskMask::all()).unwrap().get_info(), "async-best");
}

#[test]
fn pool_lengths_count_by_type() {
    let mut p: TaskPool<u32> = TaskPool::new(4);
    p.push(TaskType::Sync, 1, 1, String::new());
    p.push(TaskType::Sync, 2, 2, String::new());
    p.push(TaskType::Async, 3, 3, String::new());
    assert_eq!(p.len_by_type(TaskType::Sync), 2);
    assert_eq!(p.len_by_type(TaskType::Async), 1);
    assert_eq!(p.len_by_type(TaskType::SyncImme), 0);
    assert_eq!(p.len(), 3);
    let _ = p.pop(TaskMask::all());
    assert_eq!(p.len(), 2);
}

#[test]
fn pool_no_task_observed_twice() {
    let mut p: TaskPool<u32> = TaskPool::new(2);
    p.push(TaskType::Sync, 5, 11, String::from("a"));
    p.push(TaskType::Sync, 5, 22, String::from("b"));
    let m = TaskMask::all();
    let mut first = p.pop(m).unwrap();
    let mut second = p.pop(m).unwrap();
    // distinct entries: their thunks are different and each is seen once
    let f1 = first.take_func().unwrap();
    let f2 = second.take_func().unwrap();
    assert_ne!(f1, f2);
    assert!(p.pop(m).is_none());
    // recycling returns slots cleared, so no stale thunk can resurface
    p.recycle(first);
    p.recycle(second);
    assert!(p.pop(m).is_none());
}

#[test]
fn pool_burst_then_high_priority_wins() {
    let mut p: TaskPool<u32> = TaskPool::new(16);
    for i in 0..100u32 {
        p.push(TaskType::Sync, 10, i, String::from("routine"));
    }
    p.push(TaskType::Sync, 1000, 999, String::from("urgent"));
    let mut t = p.pop(TaskMask::all()).unwrap();
    assert_eq!(t.get_priority(), 1000);
    assert_eq!(t.take_func(), Some(999));
}
