//! The two types of `std::time` that the statistics carry, and what is taken
//! on trust about them.

use std::time::{Duration, Instant};
use vstd::prelude::*;

verus! {

/// A reading of the monotonic clock. Nothing is known of what it holds.
#[verifier::external_type_specification]
#[verifier::external_body]
pub struct ExInstant(Instant);

/// The length of a span of time in whole nanoseconds, as
/// `Duration::as_nanos` reports it.
pub uninterp spec fn nanos_of(span: Duration) -> nat;

/// `Instant::now` reads the clock. Two readings need not agree, so nothing is
/// said of the result.
pub assume_specification[ Instant::now ]() -> Instant;

/// `Clone::clone` of `Instant`, which is `Copy`: the same reading again.
pub assume_specification[ <Instant as Clone>::clone ](instant: &Instant) -> (copy: Instant)
    ensures
        copy == *instant,
;

/// `Clone::clone` of `Duration`, which is `Copy`: the same span again.
pub assume_specification[ <Duration as Clone>::clone ](span: &Duration) -> (copy: Duration)
    ensures
        copy == *span,
;

/// `Duration::from_nanos` makes the span that lasts `nanos` nanoseconds.
pub assume_specification[ Duration::from_nanos ](nanos: u64) -> (span: Duration)
    ensures
        nanos_of(span) == nanos,
;

} // verus!
