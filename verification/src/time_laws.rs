//! Days, delays and readings.
use crate::scalar::Scalar;
use crate::time::{
    Duration, MAX_UTC_NANOS, Timestamp, add_duration, day_end, day_start, duration_millis,
};
use vstd::prelude::*;

verus! {

/// A day begins at a multiple of a day's length, lasts for that length, and holds the instant.
pub proof fn law_day_holds_its_instants(at: Timestamp, start: Timestamp, end: Timestamp)
    requires
        at.schedulable(),
        call_ensures(day_start, (at,), start),
        call_ensures(day_end, (at,), end),
    ensures
        start.nanos <= at.nanos < end.nanos,
        end.nanos == start.nanos + 86_400_000_000_000,
        start.nanos as int % 86_400_000_000_000 == 0,
{
    let day = at.nanos as int / 86_400_000_000_000;
    assert(start.nanos == day * 86_400_000_000_000);
    vstd::arithmetic::div_mod::lemma_mod_multiples_basic(day, 86_400_000_000_000);
}

/// A delay is added in full, unless it leads beyond the last instant that has a date.
pub proof fn law_delay_is_added_in_full(at: Timestamp, by: Duration, sum: Timestamp)
    requires
        call_ensures(add_duration, (at, by), sum),
    ensures
        at.nanos + by.nanos <= MAX_UTC_NANOS ==> sum.nanos == at.nanos + by.nanos,
        at.nanos + by.nanos > MAX_UTC_NANOS ==> sum.nanos == MAX_UTC_NANOS,
{
}

/// Milliseconds are counted whole.
pub proof fn law_milliseconds_are_whole(span: Duration, millis: u64)
    requires
        call_ensures(duration_millis, (span,), millis),
    ensures
        millis * 1_000_000 <= span.nanos,
        millis < u64::MAX ==> span.nanos < (millis + 1) * 1_000_000,
{
}

/// The reading is a number.
pub open spec fn is_number(reading: Scalar) -> bool {
    -0x7ff0_0000_0000_0001 <= reading.key <= 0x7ff0_0000_0000_0000
}

/// Readings compare as their keys do, but for negative zero, which is as large as zero, and for
/// what is no number, which is neither less nor more than anything.
pub proof fn law_readings_compare_by_key(a: Scalar, b: Scalar, at_least: bool, below: bool)
    requires
        call_ensures(Scalar::is_at_least, (a, b), at_least),
        call_ensures(Scalar::is_below, (a, b), below),
    ensures
        below <==> is_number(a) && is_number(b) && a.key < b.key && !(a.key == -1 && b.key == 0),
        at_least <==> is_number(a) && is_number(b) && !below,
{
}

/// A share lies between zero and one hundred; a threshold is more than zero and finite.
pub proof fn law_shares_and_thresholds(reading: Scalar, share: bool, positive: bool)
    requires
        call_ensures(Scalar::is_percentage, (reading,), share),
        call_ensures(Scalar::is_finite_positive, (reading,), positive),
    ensures
        share <==> -1 <= reading.key <= 0x4059_0000_0000_0000,
        positive <==> 1 <= reading.key < 0x7ff0_0000_0000_0000,
{
}

} // verus!
