//! The wall clock.

use std::time::SystemTime;
use vstd::prelude::*;

verus! {

/// `std::time::SystemTime`, a point in wall-clock time. The engine stores such
/// points and hands them back; it never looks inside one.
#[verifier::external_type_specification]
#[verifier::external_body]
pub struct ExSystemTime(std::time::SystemTime);

/// Calls `std::time::SystemTime::now`. Nothing is claimed of the point in time
/// that comes back: two readings may be equal, and the clock may even run
/// backwards between them.
#[verifier::external_body]
pub(crate) fn wall_clock() -> (now: SystemTime) {
    SystemTime::now()
}

} // verus!
