use pi_base::handler::Env;
use pi_base::worker::{
    is_overloaded, worker_decision, Worker, WorkerAction, WorkerPool, WorkerStatus,
};

#[test]
fn decision_table() {
    assert_eq!(worker_decision(WorkerStatus::Running, true), WorkerAction::Wait);
    assert_eq!(worker_decision(WorkerStatus::Running, false), WorkerAction::Claim);
    assert_eq!(worker_decision(WorkerStatus::Stopping, true), WorkerAction::Exit);
    assert_eq!(worker_decision(WorkerStatus::Stopping, false), WorkerAction::Exit);
    assert_eq!(worker_decision(WorkerStatus::Stopped, false), WorkerAction::Exit);
    assert_eq!(worker_decision(WorkerStatus::Free, false), WorkerAction::Claim);
}

#[test]
fn overload_thresholds() {
    assert!(!is_overloaded(100, 100, 5, 10));
    assert!(is_overloaded(101, 100, 5, 10));
    assert!(is_overloaded(100, 100, 11, 10));
    assert!(!is_overloaded(0, 0, 0, 0));
    assert!(is_overloaded(1, 0, 0, 0));
}

#[test]
fn worker_lifecycle() {
    let mut w = Worker::new(1024 * 1024, 10000);
    assert_eq!(w.status(), WorkerStatus::Free);
    w.start();
    assert_eq!(w.status(), WorkerStatus::Running);
    w.request_stop();
    assert_eq!(w.status(), WorkerStatus::Stopping);
    w.observe_stop();
    assert_eq!(w.status(), WorkerStatus::Stopped);
}

#[test]
fn pool_starts_and_stops_all() {
    let mut p = WorkerPool::new(10, 1024 * 1024, 10000);
    assert_eq!(p.len(), 10);
    assert_eq!(p.slack_ns(), 1024 * 1024);
    assert_eq!(p.max_queue_len(), 10000);
    p.start_all();
    p.request_stop_all();
}

struct MapEnv {
    entries: Vec<(String, u64)>,
}

impl Env<u64> for MapEnv {
    fn get_attr(&self, key: &str) -> Option<&u64> {
        self.entries.iter().find(|(k, _)| k == key).map(|(_, v)| v)
    }

    fn set_attr(&mut self, key: String, value: u64) -> Option<u64> {
        for pair in self.entries.iter_mut() {
            if pair.0 == key {
                let prev = pair.1;
                pair.1 = value;
                return Some(prev);
            }
        }
        self.entries.push((key, value));
        None
    }
}

#[test]
fn env_returns_previous_value_on_set() {
    let mut env = MapEnv { entries: Vec::new() };
    assert_eq!(env.get_attr("a"), None);
    assert_eq!(env.set_attr(String::from("a"), 1), None);
    assert_eq!(env.get_attr("a"), Some(&1));
    assert_eq!(env.set_attr(String::from("a"), 2), Some(1));
    assert_eq!(env.get_attr("a"), Some(&2));
}
