//! Conversions between simulated CPU cycles and time units.
//!
//! The simulator advances per-core virtual time in units of CPU cycles at
//! an assumed fixed frequency of 3 GHz; all cycle counts are therefore
//! nominal rather than measured.

use vstd::prelude::*;

verus! {

/// The assumed CPU frequency, in cycles per second.
pub const CYCLES_PER_SECOND: u64 = 3_000_000_000;

/// The assumed CPU frequency, in cycles per microsecond.
pub const CYCLES_PER_US: u64 = 3_000;

/// Return the CPU cycles per second assumed by the simulation.
pub fn cycles_per_second() -> (r: u64)
    ensures
        r == CYCLES_PER_SECOND,
{
    CYCLES_PER_SECOND
}

/// Return the CPU cycles per microsecond assumed by the simulation.
pub fn cycles_per_us() -> (r: u64)
    ensures
        r == CYCLES_PER_US,
{
    CYCLES_PER_US
}

/// Convert a duration in microseconds to CPU cycles.
pub fn us_to_cycles(us: u64) -> (r: u64)
    requires
        us * CYCLES_PER_US <= u64::MAX,
    ensures
        r == us * CYCLES_PER_US,
{
    us * CYCLES_PER_US
}

} // verus!
