//! Saturating arithmetic and conversions to the integers of the database.
use vstd::prelude::*;
use crate::duration;
use crate::duration::Duration;
use crate::error::{invalid_definition, DurableError, ErrorModel};

verus! {

/// The 64-bit integer nearest to `value`.
pub open spec fn clamp64(value: int) -> i64 {
    if value > i64::MAX {
        i64::MAX
    } else if value < i64::MIN {
        i64::MIN
    } else {
        value as i64
    }
}

/// The 32-bit integer nearest to `value`.
pub open spec fn clamp32(value: int) -> i32 {
    if value > i32::MAX {
        i32::MAX
    } else if value < i32::MIN {
        i32::MIN
    } else {
        value as i32
    }
}

/// The successor, or the largest 32-bit integer where there is none.
pub fn next_i32(value: i32) -> (next: i32)
    ensures
        next == clamp32(value + 1),
{
    if value == i32::MAX {
        value
    } else {
        value + 1
    }
}

/// The sum, kept within the range of 64-bit integers.
pub fn saturating_sum(a: i64, b: i64) -> (sum: i64)
    ensures
        sum == clamp64(a + b),
{
    let wide: i128 = a as i128 + b as i128;
    if wide > i64::MAX as i128 {
        i64::MAX
    } else if wide < i64::MIN as i128 {
        i64::MIN
    } else {
        wide as i64
    }
}

/// A 32-bit limit from an unsigned configuration value.
pub fn limit_i32(value: u32) -> (limit: i32)
    ensures
        limit == clamp32(value as int),
{
    if value > i32::MAX as u32 {
        i32::MAX
    } else {
        value as i32
    }
}

/// The smaller of two 32-bit integers.
pub fn min_i32(a: i32, b: i32) -> (least: i32)
    ensures
        least == (if a <= b {
            a
        } else {
            b
        }),
{
    if a <= b {
        a
    } else {
        b
    }
}

/// The whole milliseconds of a length of time, where a 64-bit integer holds them.
pub open spec fn millis_of(nanos: nat) -> Option<i64> {
    if duration::whole_millis(nanos) <= i64::MAX {
        Some(duration::whole_millis(nanos) as i64)
    } else {
        None
    }
}

/// The whole milliseconds of a length of time; refuses more than the database holds.
pub fn duration_millis(duration: Duration) -> (result: Result<i64, DurableError>)
    ensures
        match result {
            Ok(millis) => millis_of(duration@) == Some(millis),
            Err(error) => millis_of(duration@) is None && error@ == ErrorModel::InvalidDefinition(
                "duration exceeds the database range"@,
            ),
        },
{
    match whole_millis(duration) {
        Some(millis) => Ok(millis),
        None => Err(invalid_definition("duration exceeds the database range")),
    }
}

/// The whole milliseconds of a length of time, where a 64-bit integer holds them.
pub fn whole_millis(duration: Duration) -> (millis: Option<i64>)
    ensures
        millis == millis_of(duration@),
{
    let millis: u128 = duration.as_millis();
    if millis > i64::MAX as u128 {
        None
    } else {
        Some(millis as i64)
    }
}

/// Bounded numbers are kept as they are, and every other one goes to the nearest bound.
pub proof fn law_clamping_keeps_bounded_numbers(value: int)
    ensures
        i64::MIN <= value <= i64::MAX ==> clamp64(value) == value,
        value > i64::MAX ==> clamp64(value) == i64::MAX,
        value < i64::MIN ==> clamp64(value) == i64::MIN,
        i32::MIN <= value <= i32::MAX ==> clamp32(value) == value,
        value > i32::MAX ==> clamp32(value) == i32::MAX,
        value < i32::MIN ==> clamp32(value) == i32::MIN,
{
}

/// A length of time is stored as its whole milliseconds: at most a millisecond is lost,
/// nothing of whole milliseconds, and only what the database cannot hold is refused.
pub proof fn law_stored_time_is_whole_milliseconds(nanos: nat)
    ensures
        match millis_of(nanos) {
            Some(millis) => 0 <= millis && millis * 1_000_000 <= nanos < (millis + 1) * 1_000_000,
            None => nanos >= (i64::MAX + 1) * 1_000_000,
        },
{
}

} // verus!
