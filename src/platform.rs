//! What this library relies on from the standard library beyond what vstd states.
use vstd::prelude::*;

verus! {

/// The standard library's monotonic clock reading, carried opaquely.
#[verifier::external_type_specification]
#[verifier::external_body]
pub struct ExInstant(std::time::Instant);

/// Relies on `Instant::now`: a reading of the monotonic clock. Nothing is
/// known of its value.
pub assume_specification[ std::time::Instant::now ]() -> std::time::Instant;

/// Relies on `Instant::elapsed`: the time since the reading. Nothing is
/// known of its value.
pub assume_specification[ std::time::Instant::elapsed ](i: &std::time::Instant) -> std::time::Duration;

/// The whole milliseconds of a duration, as `Duration::as_millis` gives them.
pub uninterp spec fn millis_of(d: core::time::Duration) -> u128;

/// Relies on `Duration::as_millis`: the whole milliseconds of a duration, a
/// function of the duration alone.
pub assume_specification[ core::time::Duration::as_millis ](d: &core::time::Duration) -> (r: u128)
    ensures
        r == millis_of(*d),
;

/// Relies on `String::push`: the character is appended at the end.
pub assume_specification[ String::push ](s: &mut String, ch: char)
    ensures
        final(s)@ == old(s)@.push(ch),
;

/// Relies on `str`'s `==`: two string slices are equal when they hold the
/// same characters.
pub assume_specification[ <str as PartialEq>::eq ](a: &str, b: &str) -> (r: bool)
    ensures
        r == (a@ == b@),
;

} // verus!
