use vstd::prelude::*;

verus! {

/// A point in time: whole seconds and nanoseconds since the Unix epoch.
#[derive(Clone, Copy, Debug, PartialEq, Eq, Structural)]
pub struct Timestamp {
    pub secs: u64,
    pub nanos: u32,
}

/// Nanoseconds in one second.
pub const NANOS_PER_SEC: u128 = 1_000_000_000;

/// The freshness window of a snapshot, in seconds (24 hours).
pub const FRESHNESS_SECS: u64 = 86400;

impl Timestamp {
    /// Nanoseconds since the epoch.
    pub open spec fn total(self) -> int {
        self.secs as int * 1_000_000_000 + self.nanos as int
    }

    pub fn total_nanos(&self) -> (r: u128)
        ensures
            r == self.total(),
    {
        assert(self.secs as int * 1_000_000_000 <= 0xffff_ffff_ffff_ffffint * 1_000_000_000) by (nonlinear_arith);
        self.secs as u128 * NANOS_PER_SEC + self.nanos as u128
    }
}

/// The freshness window in nanoseconds.
pub open spec fn window() -> int {
    FRESHNESS_SECS as int * 1_000_000_000
}

} // verus!
