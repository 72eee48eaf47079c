//! Time as the managers count it: nanoseconds since a manager or a report
//! was made.

use std::time::{Duration, Instant};
use vstd::prelude::*;

verus! {

/// A moment of the machine's clock. Nothing of it is visible here: it is
/// kept to ask later how much time has passed.
#[verifier::external_type_specification]
#[verifier::external_body]
pub struct ExInstant(std::time::Instant);

/// More time than `interval` has passed from `last` to `now`. All three are
/// in nanoseconds.
pub open spec fn is_due(last: int, now: int, interval: int) -> bool {
    now - last > interval
}

/// Whether more time than `interval` has passed from `last` to `now`.
pub fn due(last: u128, now: u128, interval: u128) -> (yes: bool)
    ensures
        yes == is_due(last as int, now as int, interval as int),
{
    now > last && now - last > interval
}

/// `Instant::now`: the present moment. Nothing is claimed of it.
#[verifier::external_body]
pub(crate) fn moment() -> (now: Instant) {
    Instant::now()
}

/// `Instant::elapsed`: the time that has passed since `began`. Nothing is
/// claimed of it.
#[verifier::external_body]
pub(crate) fn elapsed(began: &Instant) -> (span: Duration) {
    began.elapsed()
}

/// `Duration::as_nanos`: a span of time in nanoseconds. Nothing is claimed
/// of the number.
#[verifier::external_body]
pub(crate) fn nanoseconds(span: &Duration) -> (nanos: u128) {
    span.as_nanos()
}

/// The nanoseconds that have passed since `began`, as the machine's clock
/// counts them: any number may come back. The functions that take a time
/// say what is done with each.
pub(crate) fn nanos_since(began: &Instant) -> (nanos: u128) {
    let span = elapsed(began);
    nanoseconds(&span)
}

} // verus!
