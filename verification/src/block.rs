//! The block in which a message or query runs.

use vstd::prelude::*;

verus! {

/// Nanoseconds in a second.
pub const NANOS_PER_SECOND: u64 = 1_000_000_000;

/// A point in time, in nanoseconds since the Unix epoch.
#[derive(Clone, Copy, Debug, PartialEq, Eq, Structural, Hash)]
pub struct Timestamp {
    pub nanos: u64,
}

impl Timestamp {
    /// The whole seconds of the timestamp.
    pub open spec fn spec_seconds(self) -> u64 {
        self.nanos / NANOS_PER_SECOND
    }

    /// The timestamp of `nanos` nanoseconds.
    pub fn from_nanos(nanos: u64) -> (r: Timestamp)
        ensures
            r.nanos == nanos,
    {
        Timestamp { nanos }
    }

    /// The timestamp of `seconds` seconds, where its nanoseconds fit in 64
    /// bits.
    pub fn from_seconds(seconds: u64) -> (r: Option<Timestamp>)
        ensures
            match r {
                Some(t) => t.nanos == seconds * NANOS_PER_SECOND && t.spec_seconds() == seconds,
                None => seconds * NANOS_PER_SECOND > u64::MAX,
            },
    {
        match seconds.checked_mul(NANOS_PER_SECOND) {
            Some(nanos) => {
                assert((seconds * 1_000_000_000) / 1_000_000_000 == seconds) by (nonlinear_arith);
                Some(Timestamp { nanos })
            },
            None => None,
        }
    }

    /// The timestamp `seconds` seconds later, where its nanoseconds fit in
    /// 64 bits.
    pub fn plus_seconds(&self, seconds: u64) -> (r: Option<Timestamp>)
        ensures
            match r {
                Some(t) => t.nanos == self.nanos + seconds * NANOS_PER_SECOND,
                None => self.nanos + seconds * NANOS_PER_SECOND > u64::MAX,
            },
    {
        match seconds.checked_mul(NANOS_PER_SECOND) {
            Some(delta) => match self.nanos.checked_add(delta) {
                Some(nanos) => Some(Timestamp { nanos }),
                None => None,
            },
            None => None,
        }
    }

    /// The whole seconds of the timestamp.
    pub fn seconds(&self) -> (r: u64)
        ensures
            r == self.spec_seconds(),
    {
        self.nanos / NANOS_PER_SECOND
    }
}

/// Height, time and chain of the current block.
#[derive(Clone, Debug, PartialEq, Eq)]
pub struct BlockInfo {
    pub height: u64,
    pub time: Timestamp,
    pub chain_id: String,
}

} // verus!
