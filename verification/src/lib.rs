pub mod cell;
pub mod engine;
mod random;

use vstd::prelude::*;

verus! {

/// Smallest lifetime, in ticks, that a freshly spawned stream may be given.
pub const MIN_STREAM_LENGTH: u8 = 6;

/// Largest lifetime, in ticks, that a freshly spawned stream may be given.
pub const MAX_STREAM_LENGTH: u8 = 14;

/// Numerator of the per-column, per-tick chance of spawning a new stream.
pub const DENSITY_NUMERATOR: u32 = 1;

/// Denominator of the per-column, per-tick chance of spawning a new stream.
pub const DENSITY_DENOMINATOR: u32 = 100;

} // verus!
