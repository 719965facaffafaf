//! Spans of time in three units, equal where they last equally long.

use vstd::prelude::*;
use vstd::std_specs::cmp::PartialEqSpecImpl;

verus! {

/// A span of time, in the unit in which it was given.
#[derive(Clone, Copy, Debug)]
pub enum Duration {
    MilliSeconds(u64),
    Seconds(u32),
    Minutes(u16),
}

impl Duration {
    /// The span in milliseconds.
    pub open spec fn spec_to_ms(&self) -> u64 {
        match *self {
            Duration::MilliSeconds(ms) => ms,
            Duration::Seconds(s) => (s as int * 1000) as u64,
            Duration::Minutes(m) => (m as int * 60 * 1000) as u64,
        }
    }

    /// The span in milliseconds: a second has 1000 of them, a minute 60000.
    pub fn to_ms(&self) -> (ms: u64)
        ensures
            ms == self.spec_to_ms(),
            self matches Duration::Seconds(s) ==> ms == s * 1000,
            self matches Duration::Minutes(m) ==> ms == m * 60_000,
    {
        match *self {
            Duration::MilliSeconds(ms) => ms,
            Duration::Seconds(s) => (s as u64) * 1000,
            Duration::Minutes(m) => (m as u64) * 60 * 1000,
        }
    }
}

impl PartialEq for Duration {
    /// Two spans are equal where they have the same number of milliseconds.
    fn eq(&self, other: &Duration) -> (r: bool) {
        self.to_ms() == other.to_ms()
    }
}

impl PartialEqSpecImpl for Duration {
    open spec fn obeys_eq_spec() -> bool {
        true
    }

    open spec fn eq_spec(&self, other: &Duration) -> bool {
        self.spec_to_ms() == other.spec_to_ms()
    }
}

impl Eq for Duration {

}

} // verus!
