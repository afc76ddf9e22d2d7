//! Decisions of the milk dispenser. Its bucket holds five units, refills
//! one per second, and the dispenser either withdraws plain milk, converts
//! a well-formed unit-conversion request, or refuses.

use vstd::prelude::*;

verus! {

/// The bucket the dispenser starts with and refills to.
pub const MILK_BUCKET_SIZE: usize = 5;

/// How often one unit comes back, in milliseconds.
pub const MILK_REFILL_INTERVAL_MILLIS: u64 = 1000;

/// What the dispenser answers a milk request with.
#[derive(Clone, Copy, Debug, PartialEq, Eq, Structural)]
pub enum MilkOutcome {
    /// A well-formed conversion request: answer with the converted body.
    Converted,
    /// No conversion asked for: plain milk is withdrawn.
    Withdrawn,
    /// A conversion was asked for but the body does not parse.
    BadRequest,
    /// The bucket is empty: no milk available.
    NoMilk,
}

pub open spec fn spec_milk_outcome(acquired: bool, json_request: bool, parse_ok: bool) -> MilkOutcome {
    if !acquired {
        MilkOutcome::NoMilk
    } else if !json_request {
        MilkOutcome::Withdrawn
    } else if parse_ok {
        MilkOutcome::Converted
    } else {
        MilkOutcome::BadRequest
    }
}

/// The dispenser's decision, from whether a unit could be acquired,
/// whether the request announced a conversion body, and whether that body
/// parsed. The rate limit is checked first: an empty bucket refuses even a
/// malformed request.
pub fn milk_outcome(acquired: bool, json_request: bool, parse_ok: bool) -> (r: MilkOutcome)
    ensures
        r == spec_milk_outcome(acquired, json_request, parse_ok),
{
    if !acquired {
        MilkOutcome::NoMilk
    } else if !json_request {
        MilkOutcome::Withdrawn
    } else if parse_ok {
        MilkOutcome::Converted
    } else {
        MilkOutcome::BadRequest
    }
}

} // verus!
