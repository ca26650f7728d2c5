//! The current time, read from the system clock, and the instants `chrono`
//! can represent.

use vstd::prelude::*;

verus! {

/// The last instant a `chrono::DateTime<Utc>` holds (the end of
/// December 31, 262142), in milliseconds since the Unix epoch.
pub const MAX_TIMESTAMP_MILLIS: i64 = 8_210_266_876_799_999;

/// The first instant a `chrono::DateTime<Utc>` holds (January 1, 262143
/// BCE), in milliseconds since the Unix epoch.
pub const MIN_TIMESTAMP_MILLIS: i64 = -8_334_601_315_200_000;

/// An instant the clock can report: after the epoch, within `chrono`'s range.
pub open spec fn is_instant(t: i64) -> bool {
    0 <= t <= MAX_TIMESTAMP_MILLIS
}

/// An instant, in milliseconds, that `chrono` can represent.
pub open spec fn representable(t: int) -> bool {
    MIN_TIMESTAMP_MILLIS <= t <= MAX_TIMESTAMP_MILLIS
}

/// `ms as i64`: a count of milliseconds read as a signed offset.
pub open spec fn signed_millis(ms: u64) -> int {
    if ms <= i64::MAX {
        ms as int
    } else {
        ms - 0x1_0000_0000_0000_0000int
    }
}

/// Whether `now` plus `ms as i64` milliseconds can be formed as a
/// `chrono::TimeDelta` and added to `now` without leaving `chrono`'s range.
pub open spec fn millis_fit(now: i64, ms: u64) -> bool {
    ms != 0x8000_0000_0000_0000u64 && representable(now + signed_millis(ms))
}

/// Whether `now` plus `secs` seconds stays within `chrono`'s range.
pub open spec fn seconds_fit(now: i64, secs: int) -> bool {
    representable(now + secs * 1000)
}

/// Milliseconds since the Unix epoch, read through `chrono::Utc::now`.
///
/// `chrono::Utc::now` panics when the system clock is before the epoch and
/// holds no instant past [`MAX_TIMESTAMP_MILLIS`], so the result lies between
/// the two; nothing else is known of it.
#[verifier::external_body]
pub fn now_millis() -> (r: i64)
    ensures
        is_instant(r),
{
    chrono::Utc::now().timestamp_millis()
}

/// `now + (ms as i64)` milliseconds, or `None` where that instant cannot be
/// formed (see [`millis_fit`]).
pub fn after_millis(now: i64, ms: u64) -> (r: Option<i64>)
    ensures
        r == (if millis_fit(now, ms) {
            Some((now + signed_millis(ms)) as i64)
        } else {
            None
        }),
{
    if ms == 0x8000_0000_0000_0000u64 {
        return None;
    }
    let d: i64 = if ms <= 0x7fff_ffff_ffff_ffffu64 {
        ms as i64
    } else {
        let low: u64 = ms - 0x8000_0000_0000_0000u64;
        (low as i64) - 0x7fff_ffff_ffff_ffffi64 - 1
    };
    assert(d == signed_millis(ms));
    match now.checked_add(d) {
        Some(t) => {
            if MIN_TIMESTAMP_MILLIS <= t && t <= MAX_TIMESTAMP_MILLIS {
                Some(t)
            } else {
                None
            }
        },
        None => None,
    }
}

/// `now + secs` seconds, in milliseconds, or `None` where that instant
/// leaves `chrono`'s range.
pub fn after_seconds(now: i64, secs: i64) -> (r: Option<i64>)
    requires
        is_instant(now),
    ensures
        r == (if seconds_fit(now, secs as int) {
            Some((now + secs * 1000) as i64)
        } else {
            None
        }),
{
    let span: i64 = MAX_TIMESTAMP_MILLIS / 1000 - MIN_TIMESTAMP_MILLIS / 1000 + 1;
    if secs > span || secs < -span {
        return None;
    }
    match now.checked_add(secs * 1000) {
        Some(t) => {
            if MIN_TIMESTAMP_MILLIS <= t && t <= MAX_TIMESTAMP_MILLIS {
                Some(t)
            } else {
                None
            }
        },
        None => None,
    }
}

} // verus!
