//! Fixed-point representation of the physical quantities.
//!
//! Lengths are in picometres, velocities in picometres per second,
//! accelerations in picometres per second squared, voltages in picovolts and
//! times in microseconds. With these units the controller's gains are exact
//! integers and a position of several thousand kilometres still fits an `i64`.
use vstd::prelude::*;

verus! {

/// Picometres in one metre.
pub const PM_PER_M: i64 = 1_000_000_000_000;

/// Picovolts in one volt.
pub const PV_PER_V: i64 = 1_000_000_000_000;

/// Microseconds in one second.
pub const US_PER_S: i64 = 1_000_000;

} // verus!
