//! Instants, durations and the arithmetic on them.
//!
//! An instant is a signed count of milliseconds since the Unix epoch (UTC).
//! All functions here are total on `i64`: intermediate values are widened so
//! that no input overflows.

use vstd::prelude::*;

verus! {

/// Milliseconds in one minute.
pub const MILLIS_PER_MINUTE: i64 = 60_000;

/// Milliseconds in one civil day.
pub const MILLIS_PER_DAY: i64 = 86_400_000;

/// Width of a history bucket: five minutes.
pub const BUCKET_WIDTH_MS: i64 = 300_000;

/// Seconds that the poller sleeps between two cycles.
pub const POLL_INTERVAL_SECS: u64 = 60;

/// Age in milliseconds above which a cached credential is stale: five minutes.
pub const CREDENTIAL_TTL_MS: i64 = 300_000;

/// Offset of the local market from UTC, in seconds east: eight hours.
pub const MARKET_OFFSET_SECS: i32 = 28_800;

/// `t` lies in the trailing window `(now - minutes, now]`.
pub open spec fn in_window(t: int, now: int, minutes: int) -> bool {
    now - minutes * 60_000 < t <= now
}

/// `t` lies in the half-open range that starts at `start` and, where `end` is
/// given, stops before it.
pub open spec fn in_range(t: int, start: int, end: Option<i64>) -> bool {
    &&& start <= t
    &&& match end {
        Some(e) => t < e,
        None => true,
    }
}

/// Start of the bucket of width `width` that holds `t`: the greatest multiple
/// of `width` that is not above `t`. The time line begins at `i64::MIN`, so
/// the one bucket that reaches below it starts there.
pub open spec fn bucket_start_of(t: int, width: int) -> int {
    let floor = t - t % width;
    if floor < i64::MIN {
        i64::MIN as int
    } else {
        floor
    }
}

/// Number of the civil day that holds `t` for a clock `offset_secs` seconds
/// east of UTC; day 0 begins at the epoch on that clock.
pub open spec fn civil_day_of(t: int, offset_secs: int) -> int {
    (t + offset_secs * 1000) / 86_400_000
}

/// Whether `t` falls in the trailing window of `minutes` minutes that ends at
/// `now`. A window of zero or fewer minutes holds nothing.
pub fn within_window(t: i64, now: i64, minutes: i32) -> (r: bool)
    ensures
        r == in_window(t as int, now as int, minutes as int),
{
    let span: i128 = (minutes as i128) * 60_000;
    let lower: i128 = (now as i128) - span;
    lower < (t as i128) && t <= now
}

/// Whether `t` falls in the range from `start` up to, not reaching, `end`.
pub fn within_range(t: i64, start: i64, end: Option<i64>) -> (r: bool)
    ensures
        r == in_range(t as int, start as int, end),
{
    match end {
        Some(e) => start <= t && t < e,
        None => start <= t,
    }
}

/// Truncates `t` to the start of its bucket.
pub fn bucket_start(t: i64, width: i64) -> (r: i64)
    requires
        width > 0,
    ensures
        r == bucket_start_of(t as int, width as int),
        r <= t,
{
    let wide: i128 = t as i128;
    let w: i128 = width as i128;
    let rem: i128 = if wide >= 0 {
        wide % w
    } else {
        let back: i128 = (-(wide + 1)) % w;
        w - 1 - back
    };
    proof {
        lemma_floor_remainder(t as int, width as int, rem as int);
    }
    let floor: i128 = wide - rem;
    if floor < i64::MIN as i128 {
        i64::MIN
    } else {
        floor as i64
    }
}

/// Number of the civil day of `t` on a clock `offset_secs` seconds east of UTC.
pub fn civil_day(t: i64, offset_secs: i32) -> (r: i64)
    ensures
        r == civil_day_of(t as int, offset_secs as int),
{
    let shifted: i128 = (t as i128) + (offset_secs as i128) * 1000;
    let day: i128 = 86_400_000;
    let q: i128 = if shifted >= 0 {
        shifted / day
    } else {
        -((-(shifted + 1)) / day) - 1
    };
    assert(q == shifted / 86_400_000);
    q as i64
}

/// The remainder computed on magnitudes is the mathematical one.
proof fn lemma_floor_remainder(t: int, w: int, rem: int)
    requires
        w > 0,
        t >= 0 ==> rem == t % w,
        t < 0 ==> rem == w - 1 - (-(t + 1)) % w,
    ensures
        rem == t % w,
        0 <= rem < w,
{
    if t < 0 {
        let m = -(t + 1);
        let q = m / w;
        let b = m % w;
        vstd::arithmetic::div_mod::lemma_fundamental_div_mod(m, w);
        assert(m == w * q + b);
        assert(0 <= b < w) by {
            vstd::arithmetic::div_mod::lemma_mod_pos_bound(m, w);
        }
        // t = -(m + 1) = w * (-q - 1) + (w - 1 - b)
        assert(t == w * (-q - 1) + (w - 1 - b)) by (nonlinear_arith)
            requires
                m == w * q + b,
                t == -(m + 1),
        ;
        vstd::arithmetic::div_mod::lemma_fundamental_div_mod_converse(t, w, -q - 1, w - 1 - b);
    } else {
        vstd::arithmetic::div_mod::lemma_mod_pos_bound(t, w);
    }
}

/// Truncation to a bucket keeps the order of instants.
pub proof fn lemma_bucket_start_monotone(t1: int, t2: int, width: int)
    requires
        width > 0,
        t1 <= t2,
    ensures
        bucket_start_of(t1, width) <= bucket_start_of(t2, width),
{
    let f1 = t1 - t1 % width;
    let f2 = t2 - t2 % width;
    vstd::arithmetic::div_mod::lemma_fundamental_div_mod(t1, width);
    vstd::arithmetic::div_mod::lemma_fundamental_div_mod(t2, width);
    vstd::arithmetic::div_mod::lemma_div_is_ordered(t1, t2, width);
    assert(f1 == width * (t1 / width));
    assert(f2 == width * (t2 / width));
    assert(width * (t1 / width) <= width * (t2 / width)) by (nonlinear_arith)
        requires
            width > 0,
            t1 / width <= t2 / width,
    ;
}

/// An instant lies in its own bucket, and the start of a bucket is its own
/// bucket start.
pub proof fn lemma_bucket_start_bounds(t: int, width: int)
    requires
        width > 0,
        i64::MIN <= t,
    ensures
        bucket_start_of(t, width) <= t < bucket_start_of(t, width) + width,
        bucket_start_of(bucket_start_of(t, width), width) == bucket_start_of(t, width),
        i64::MIN <= bucket_start_of(t, width),
{
    let f = t - t % width;
    let q = t / width;
    vstd::arithmetic::div_mod::lemma_mod_bound(t, width);
    vstd::arithmetic::div_mod::lemma_fundamental_div_mod(t, width);
    assert(f == q * width) by (nonlinear_arith)
        requires
            t == width * q + t % width,
            f == t - t % width,
    ;
    if f < i64::MIN {
        let m = i64::MIN as int;
        // f < m <= t, so m lies in the same bucket as t.
        vstd::arithmetic::div_mod::lemma_fundamental_div_mod_converse(m, width, q, m - f);
    } else {
        vstd::arithmetic::div_mod::lemma_fundamental_div_mod_converse(f, width, q, 0);
    }
}

} // verus!
