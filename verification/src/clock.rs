//! The clock by which frames are timed.

use vstd::prelude::*;

verus! {

/// Reads the high-resolution counter of the `time` crate, `precise_time_ns`:
/// nanoseconds since an epoch that the crate leaves unspecified. Nothing is
/// claimed of the value, which differs from call to call. On a target for
/// which the crate has no such counter the call does not return.
#[verifier::external_body]
pub(crate) fn precise_time_ns() -> (now: u64) {
    time::precise_time_ns()
}

} // verus!
