//! The monotonic clock that measures how long an app has been absent.

use std::time::{Duration, Instant};
use vstd::prelude::*;

verus! {

/// `std::time::Instant`, carried through the library as an opaque value.
#[verifier::external_type_specification]
#[verifier::external_body]
pub struct ExInstant(Instant);

/// What `Duration::as_nanos` returns for `d`: the whole span in nanoseconds.
pub uninterp spec fn duration_nanos(d: Duration) -> u128;

/// Calls `Duration::as_nanos`. The result is a function of the duration
/// alone, named `duration_nanos`; nothing more is claimed of it.
#[verifier::external_body]
pub(crate) fn duration_as_nanos(d: &Duration) -> (nanos: u128)
    ensures
        nanos == duration_nanos(*d),
{
    d.as_nanos()
}

/// Calls `Instant::now`. The reading depends on the time, so no clause
/// speaks of it.
#[verifier::external_body]
pub(crate) fn instant_now() -> Instant {
    Instant::now()
}

/// Calls `Instant::elapsed`, the time since `since`. It depends on the
/// time, so no clause speaks of it.
#[verifier::external_body]
pub(crate) fn instant_elapsed(since: &Instant) -> Duration {
    since.elapsed()
}

} // verus!
