//! Day-bucketed timestamps: a raw millisecond timestamp is truncated to the
//! start of its UTC calendar day, which is the stable key granularity of the
//! historic-price cache.

use vstd::prelude::*;

verus! {

/// Seconds in one UTC calendar day.
pub const SECONDS_PER_DAY: i64 = 86_400;

/// Milliseconds in one second.
pub const MS_PER_SECOND: i64 = 1_000;

/// The unix second that a unix millisecond timestamp falls in.
pub open spec fn spec_seconds_of_ms(ms: int) -> int {
    ms / 1000
}

/// The start of the UTC calendar day containing the given unix second.
pub open spec fn spec_day_start(secs: int) -> int {
    secs - (secs % 86_400)
}

/// The day bucket of a raw millisecond timestamp: its UTC day's first second.
pub open spec fn spec_day_bucket_of_ms(ms: int) -> int {
    spec_day_start(spec_seconds_of_ms(ms))
}

/// The target day for a request made `days_ago` days before `now_ms`:
/// the start of the current UTC day, moved back that many whole days.
pub open spec fn spec_target_day(now_ms: int, days_ago: int) -> int {
    spec_day_bucket_of_ms(now_ms) - days_ago * 86_400
}

/// Truncates a unix millisecond timestamp to the start of its UTC day,
/// in seconds.
pub fn day_bucket_of_ms(ms: i64) -> (day: i64)
    ensures
        day == spec_day_bucket_of_ms(ms as int),
{
    let secs: i64 = ms.checked_div_euclid(MS_PER_SECOND).unwrap();
    let rem: i64 = secs.checked_rem_euclid(SECONDS_PER_DAY).unwrap();
    secs - rem
}

/// The timestamp keying a request `days_ago` whole days before `now_ms`.
pub fn timestamp_from_days_ago(now_ms: i64, days_ago: u32) -> (day: i64)
    ensures
        day == spec_target_day(now_ms as int, days_ago as int),
{
    let today: i64 = day_bucket_of_ms(now_ms);
    today - (days_ago as i64) * SECONDS_PER_DAY
}

/// Relies on chrono's `Utc::now`: the present instant as unix
/// milliseconds. Nothing is assumed of the value — the clock answers what
/// it will — and every function that reasons about time takes the instant
/// as an argument instead.
#[verifier::external_body]
fn now_unix_ms() -> i64 {
    chrono::Utc::now().timestamp_millis()
}

/// Reads the clock and keys the UTC day `days_ago` whole days before the
/// present moment: whatever instant the clock answered, the result is a
/// whole-day timestamp.
pub fn current_target_day(days_ago: u32) -> (day: i64)
    ensures
        day as int % 86_400 == 0,
{
    let now_ms = now_unix_ms();
    let day = timestamp_from_days_ago(now_ms, days_ago);
    proof {
        let secs = spec_seconds_of_ms(now_ms as int);
        vstd::arithmetic::div_mod::lemma_fundamental_div_mod(secs, 86_400);
        assert(spec_day_start(secs) == 86_400 * (secs / 86_400));
        let k = secs / 86_400 - days_ago;
        assert(day as int == k * 86_400) by (nonlinear_arith)
            requires
                day as int == 86_400 * (secs / 86_400) - days_ago * 86_400 && k == secs / 86_400
                    - days_ago,
        ;
        vstd::arithmetic::div_mod::lemma_mod_multiples_basic(k, 86_400);
    }
    day
}

} // verus!
