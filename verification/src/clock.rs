//! The wall clock, read in whole milliseconds.

use vstd::prelude::*;

verus! {

/// `chrono::Utc::now`, turned into milliseconds since the Unix epoch by
/// `DateTime::timestamp_millis`. Nothing is claimed of the value: it is
/// whatever the system clock says. `Utc::now` stops the program where the
/// system clock stands before 1970, which no argument of this library
/// decides.
#[verifier::external_body]
pub(crate) fn now_millis() -> (now: i64) {
    chrono::Utc::now().timestamp_millis()
}

/// The milliseconds from `start` to `end`, as the unsigned 64-bit number
/// that a duration holds: the difference taken modulo 2^64.
pub open spec fn elapsed_between(start: i64, end: i64) -> u64 {
    if end >= start {
        (end - start) as u64
    } else {
        (end - start + 0x1_0000_0000_0000_0000) as u64
    }
}

/// The milliseconds from `start` to `end`.
pub fn elapsed_millis(start: i64, end: i64) -> (ms: u64)
    ensures
        ms == elapsed_between(start, end),
{
    if end >= start {
        if start >= 0 || end < 0 {
            (end - start) as u64
        } else {
            // start < 0 <= end: the difference may not fit in an i64
            let back: u64 = if start == i64::MIN {
                0x8000_0000_0000_0000u64
            } else {
                (-start) as u64
            };
            (end as u64) + back
        }
    } else {
        // end < start: 2^64 minus the distance
        let distance: u64 = if end >= 0 || start < 0 {
            (start - end) as u64
        } else {
            let back: u64 = if end == i64::MIN {
                0x8000_0000_0000_0000u64
            } else {
                (-end) as u64
            };
            (start as u64) + back
        };
        (u64::MAX - distance) + 1
    }
}

} // verus!
