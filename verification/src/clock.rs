//! The time, in milliseconds since the Unix epoch.

use vstd::prelude::*;

verus! {

/// `std::time::SystemTime`, of which nothing is known here.
#[verifier::external_type_specification]
#[verifier::external_body]
pub struct ExSystemTime(std::time::SystemTime);

/// `std::time::SystemTimeError`, of which nothing is known here.
#[verifier::external_type_specification]
#[verifier::external_body]
pub struct ExSystemTimeError(std::time::SystemTimeError);

/// `std::time::SystemTime::now`: the time of the machine. Nothing is promised of it.
pub assume_specification[ std::time::SystemTime::now ]() -> (time: std::time::SystemTime);

/// `std::time::SystemTime::duration_since`: how much later one time is than another, or an error
/// where it is earlier. Which of the two comes is left open.
pub assume_specification[ std::time::SystemTime::duration_since ](
    this: &std::time::SystemTime,
    earlier: std::time::SystemTime,
) -> (result: Result<std::time::Duration, std::time::SystemTimeError>);

/// `std::time::Duration::as_millis`: the whole milliseconds of a duration. Their number is left
/// open.
pub assume_specification[ std::time::Duration::as_millis ](this: &std::time::Duration) -> (millis: u128);

/// Calls for `std::time::UNIX_EPOCH`, the time from which the others are counted. Nothing is
/// promised of it.
#[verifier::external_body]
fn epoch() -> (time: std::time::SystemTime)
{
    std::time::UNIX_EPOCH
}

/// The lower 64 bits of the milliseconds since the epoch, or zero for a time before it.
pub fn stamp(millis: Option<u128>) -> (time: u64)
    ensures
        time == match millis {
            Some(count) => count as u64,
            None => 0,
        },
{
    match millis {
        Some(count) => #[verifier::truncate] (count as u64),
        None => 0,
    }
}

/// The time of the machine, in milliseconds since the epoch: the `stamp` of what its clock reads. The
/// clock may read any time, so nothing is promised of the number.
pub fn now() -> (time: u64)
{
    match std::time::SystemTime::now().duration_since(epoch()) {
        Ok(duration) => stamp(Some(duration.as_millis())),
        Err(_) => stamp(None),
    }
}

} // verus!
