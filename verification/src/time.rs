use vstd::prelude::*;

verus! {

/// Relies on chrono's `Utc::now`: the current instant read from the
/// system clock, whose `timestamp` counts seconds since the Unix
/// epoch. `Utc::now` panics on a host clock set before the epoch, so
/// a returned value is never negative; nothing more can be promised
/// of a clock reading.
#[verifier::external_body]
pub(crate) fn current_unix_time() -> (r: i64)
    ensures
        0 <= r,
{
    chrono::Utc::now().timestamp()
}

} // verus!
