//! Deadlines and requested durations.
//!
//! An [`Expiration`] is an absolute deadline, expressed either as a block
//! height or as a wall-clock time in nanoseconds since the Unix epoch.
//! A [`Duration`] is a relative deadline requested by a caller, in blocks
//! or in seconds; [`DurationBounds`] constrain what may be requested.

use vstd::prelude::*;

verus! {

/// Nanoseconds in one second, used to turn a relative duration in seconds
/// into an absolute time deadline.
pub const NANOS_PER_SECOND: u64 = 1_000_000_000;

/// An absolute deadline: a block height, a wall-clock time in nanoseconds
/// since the Unix epoch, or no deadline at all.
#[derive(Clone, Copy, Debug, PartialEq, Eq, Structural)]
pub enum Expiration {
    /// Expires at or after this block height.
    AtHeight(u64),
    /// Expires at or after this time, in nanoseconds since the Unix epoch.
    AtTime(u64),
    /// Never expires.
    Never,
}

/// A relative deadline requested by a caller.
#[derive(Clone, Copy, Debug, PartialEq, Eq, Structural)]
pub enum Duration {
    /// A number of blocks from the current height.
    Blocks(u64),
    /// A number of seconds from the current time.
    Seconds(u64),
}

/// One bound on requested durations: a pair of a block count and a
/// second count, compared against a [`Duration`] per its unit.
#[derive(Clone, Copy, Debug, PartialEq, Eq, Structural)]
pub struct DurationLimit {
    pub blocks: u64,
    pub seconds: u64,
}

/// Bounds on requested payout durations: a default used when the caller
/// requests none, and optional lower and upper limits per unit.
#[derive(Clone, Copy, Debug, PartialEq, Eq, Structural)]
pub struct DurationBounds {
    pub default: DurationLimit,
    pub max: Option<DurationLimit>,
    pub min: Option<DurationLimit>,
}

} // verus!
