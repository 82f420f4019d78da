//! Priority-scheduled asynchronous infrastructure: a multi-priority task
//! pool drained by worker threads, an asynchronous file engine built on it,
//! a timing wheel for delayed callbacks, and a future adapter that
//! turns a callback-style completion into a pollable handle.

pub mod file;
pub mod future;
pub mod future_pool;
pub mod handler;
pub mod task;
pub mod task_pool;
pub mod timer;
pub mod worker;
