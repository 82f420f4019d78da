//! The environment interface: a property bag, polymorphic over the value
//! type, that callers hand to script handlers running against the task
//! pool. The library consumes it only abstractly; any consumer supplies a
//! concrete implementation.

use vstd::prelude::*;

verus! {

/// A property bag keyed by short strings: reading an attribute, and
/// setting one while handing back the value it replaced.
pub trait Env<V> {
    /// The value stored under `key`, if any.
    fn get_attr(&self, key: &str) -> Option<&V>;

    /// Stores `value` under `key` and returns the previous value, if any.
    fn set_attr(&mut self, key: String, value: V) -> Option<V>;
}

} // verus!
