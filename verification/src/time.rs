//! Points in time, as the coordinator records them.

use vstd::prelude::*;

verus! {

/// A point in time: whole seconds since the start of 1970 (UTC) and the
/// nanoseconds past that second.
#[derive(Debug, PartialEq, Eq, Copy, Clone, Hash, Structural)]
pub struct Timestamp {
    pub secs: i64,
    pub nanos: u32,
}

impl Timestamp {
    /// Whether `self` is strictly earlier than `other`.
    pub open spec fn before(self, other: Timestamp) -> bool {
        self.secs < other.secs || (self.secs == other.secs && self.nanos < other.nanos)
    }

    /// Exec counterpart of [`Timestamp::before`].
    pub fn is_before(&self, other: &Timestamp) -> (earlier: bool)
        ensures
            earlier == self.before(*other),
    {
        self.secs < other.secs || (self.secs == other.secs && self.nanos < other.nanos)
    }
}

} // verus!
