//! Wall-clock time, held as milliseconds since the Unix epoch.
use vstd::prelude::*;
use chrono::TimeZone;

verus! {

/// Whether chrono can represent the instant `ms` milliseconds after the Unix
/// epoch (`Utc.timestamp_millis_opt(ms).single().is_some()`): chrono's dates
/// run from January 1 of year -262143 to December 31 of year 262142.
pub open spec fn chrono_millis_valid(ms: i64) -> bool {
    -8_334_601_228_800_000 <= ms <= 8_210_266_876_799_999
}

/// `Utc::now().timestamp_millis()`. The clock is outside the library, so
/// nothing is claimed of the value but that it is not before the epoch (chrono
/// panics on such a clock) and that chrono can represent it.
#[verifier::external_body]
pub(crate) fn now_millis() -> (ms: i64)
    ensures
        ms >= 0,
        chrono_millis_valid(ms),
{
    chrono::Utc::now().timestamp_millis()
}

/// `Utc.timestamp_millis_opt(ms).single().is_some()`: whether chrono accepts
/// `ms` as an instant, which is whether its date falls in chrono's years.
#[verifier::external_body]
pub(crate) fn millis_valid(ms: i64) -> (r: bool)
    ensures
        r == chrono_millis_valid(ms),
{
    chrono::Utc.timestamp_millis_opt(ms).single().is_some()
}

/// The instant `duration_ms` after `now_ms`, as
/// `(Utc::now() + chrono::Duration::milliseconds(duration_ms as i64)).timestamp_millis()`
/// gives it; `None` where chrono would panic (a duration of `i64::MIN`
/// milliseconds, or a sum out of chrono's range).
pub fn instant_after(now_ms: i64, duration_ms: u64) -> (r: Option<i64>)
    ensures
        ({
            let d: int = if duration_ms <= i64::MAX {
                duration_ms as int
            } else {
                duration_ms - 0x1_0000_0000_0000_0000
            };
            let t: int = now_ms + d;
            match r {
                Some(v) => d != i64::MIN && i64::MIN <= t <= i64::MAX && v == t
                    && chrono_millis_valid(v),
                None => d == i64::MIN || !(i64::MIN <= t <= i64::MAX) || !chrono_millis_valid(
                    t as i64,
                ),
            }
        }),
{
    let d: i128 = if duration_ms <= i64::MAX as u64 {
        duration_ms as i128
    } else {
        duration_ms as i128 - 0x1_0000_0000_0000_0000i128
    };
    if d == i64::MIN as i128 {
        return None;
    }
    let t: i128 = now_ms as i128 + d;
    if t < i64::MIN as i128 || t > i64::MAX as i128 {
        return None;
    }
    let t64 = t as i64;
    if millis_valid(t64) {
        Some(t64)
    } else {
        None
    }
}

} // verus!
