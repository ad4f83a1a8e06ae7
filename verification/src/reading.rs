//! Readings and the sums taken over them.
//!
//! A [`Reading`] is one fused observation. The statistics of this crate are
//! all of one shape: pick the readings whose instant a [`Selector`] accepts,
//! take one [`Channel`] of each, and keep the sum and the number of the values
//! that are present. [`tally_sum`] and [`tally_count`] say what those two
//! numbers are.

use crate::clock::{bucket_start_of, in_range, in_window};
use vstd::prelude::*;

verus! {

/// What one successful solar fetch yields: the power now, in milliwatts, and
/// the upstream response as it came.
#[derive(Clone, Debug, PartialEq, Eq)]
pub struct SolarPartial {
    pub current_power_mw: i64,
    pub raw_payload: Vec<u8>,
}

pub struct SolarPartialView {
    pub current_power_mw: i64,
    pub raw_payload: Seq<u8>,
}

impl View for SolarPartial {
    type V = SolarPartialView;

    open spec fn view(&self) -> SolarPartialView {
        SolarPartialView { current_power_mw: self.current_power_mw, raw_payload: self.raw_payload@ }
    }
}

/// One fused, timestamped observation. Power is in milliwatts, the UV index
/// and the temperature in thousandths of their unit, the instant in
/// milliseconds since the epoch.
#[derive(Clone, Debug, PartialEq, Eq)]
pub struct Reading {
    pub current_power_mw: i64,
    pub raw_payload: Vec<u8>,
    pub uv_index: Option<i64>,
    pub temperature: Option<i64>,
    pub observed_at: i64,
}

pub struct ReadingView {
    pub current_power_mw: i64,
    pub raw_payload: Seq<u8>,
    pub uv_index: Option<i64>,
    pub temperature: Option<i64>,
    pub observed_at: i64,
}

impl View for Reading {
    type V = ReadingView;

    open spec fn view(&self) -> ReadingView {
        ReadingView {
            current_power_mw: self.current_power_mw,
            raw_payload: self.raw_payload@,
            uv_index: self.uv_index,
            temperature: self.temperature,
            observed_at: self.observed_at,
        }
    }
}

/// The reading that a solar sample, two optional enrichments and a capture
/// instant make.
pub open spec fn fused(
    solar: SolarPartialView,
    uv_index: Option<i64>,
    temperature: Option<i64>,
    observed_at: i64,
) -> ReadingView {
    ReadingView {
        current_power_mw: solar.current_power_mw,
        raw_payload: solar.raw_payload,
        uv_index,
        temperature,
        observed_at,
    }
}

/// Combines one solar sample with whatever the weather and UV fetches gave
/// into a reading. Either enrichment, or both, may be absent; the reading
/// carries `None` in the place of an absent one.
pub fn fuse(
    solar: SolarPartial,
    uv_index: Option<i64>,
    temperature: Option<i64>,
    observed_at: i64,
) -> (r: Reading)
    ensures
        r@ == fused(solar@, uv_index, temperature, observed_at),
        r.current_power_mw == solar.current_power_mw,
        r.raw_payload@ == solar.raw_payload@,
        r.uv_index == uv_index,
        r.temperature == temperature,
        r.observed_at == observed_at,
{
    Reading {
        current_power_mw: solar.current_power_mw,
        raw_payload: solar.raw_payload,
        uv_index,
        temperature,
        observed_at,
    }
}

/// One of the three measured quantities of a reading.
#[derive(Clone, Copy, PartialEq, Eq, Structural, Debug)]
pub enum Channel {
    Power,
    Uv,
    Temperature,
}

/// The value that `r` holds for channel `c`, if it holds one.
pub open spec fn channel_value(r: Reading, c: Channel) -> Option<i64> {
    match c {
        Channel::Power => Some(r.current_power_mw),
        Channel::Uv => r.uv_index,
        Channel::Temperature => r.temperature,
    }
}

/// A choice of readings by their instant.
pub enum Selector {
    /// The trailing window `(now - minutes, now]`.
    Window { now: int, minutes: int },
    /// The readings of the range from `start` to `end` whose bucket of width
    /// `width` starts at `bucket`.
    Bucket { start: int, end: Option<i64>, width: int, bucket: int },
    /// The readings whose civil day, on a clock `offset_secs` east of UTC, is `day`.
    Day { offset_secs: int, day: int },
    /// Every reading.
    All,
}

/// Whether selector `s` accepts the instant `t`.
pub open spec fn selects(s: Selector, t: int) -> bool {
    match s {
        Selector::Window { now, minutes } => in_window(t, now, minutes),
        Selector::Bucket { start, end, width, bucket } => in_range(t, start, end)
            && bucket_start_of(t, width) == bucket,
        Selector::Day { offset_secs, day } => crate::clock::civil_day_of(t, offset_secs) == day,
        Selector::All => true,
    }
}

/// What `r` adds to the tally of channel `c` under selector `s`.
pub open spec fn contribution(r: Reading, s: Selector, c: Channel) -> Option<i64> {
    if selects(s, r.observed_at as int) {
        channel_value(r, c)
    } else {
        None
    }
}

/// Sum of the values of channel `c` over the readings that `s` selects.
pub open spec fn tally_sum(rows: Seq<Reading>, s: Selector, c: Channel) -> int
    decreases rows.len(),
{
    if rows.len() == 0 {
        0
    } else {
        tally_sum(rows.drop_last(), s, c) + match contribution(rows.last(), s, c) {
            Some(v) => v as int,
            None => 0,
        }
    }
}

/// Number of the readings that `s` selects and that hold a value for `c`.
pub open spec fn tally_count(rows: Seq<Reading>, s: Selector, c: Channel) -> int
    decreases rows.len(),
{
    if rows.len() == 0 {
        0
    } else {
        tally_count(rows.drop_last(), s, c) + match contribution(rows.last(), s, c) {
            Some(v) => 1int,
            None => 0int,
        }
    }
}

/// Taking one more reading into account adds its contribution.
pub proof fn lemma_tally_step(rows: Seq<Reading>, i: int, s: Selector, c: Channel)
    requires
        0 <= i < rows.len(),
    ensures
        tally_sum(rows.take(i + 1), s, c) == tally_sum(rows.take(i), s, c) + match contribution(
            rows[i],
            s,
            c,
        ) {
            Some(v) => v as int,
            None => 0,
        },
        tally_count(rows.take(i + 1), s, c) == tally_count(rows.take(i), s, c) + match contribution(
            rows[i],
            s,
            c,
        ) {
            Some(v) => 1int,
            None => 0int,
        },
{
    let next = rows.take(i + 1);
    assert(next.drop_last() =~= rows.take(i));
    assert(next.last() == rows[i]);
}

/// A tally counts at most every reading, and its sum is one that so many
/// `i64` values can have.
pub proof fn lemma_tally_bounds(rows: Seq<Reading>, s: Selector, c: Channel)
    ensures
        0 <= tally_count(rows, s, c) <= rows.len(),
        -(tally_count(rows, s, c) * 0x8000_0000_0000_0000) <= tally_sum(rows, s, c)
            <= tally_count(rows, s, c) * 0x7fff_ffff_ffff_ffff,
    decreases rows.len(),
{
    if rows.len() > 0 {
        lemma_tally_bounds(rows.drop_last(), s, c);
    }
}

/// The count of a tally is zero exactly when no reading contributes, and the
/// sum is zero with it.
pub proof fn lemma_tally_empty(rows: Seq<Reading>, s: Selector, c: Channel)
    ensures
        tally_count(rows, s, c) == 0 <==> (forall|m: int|
            0 <= m < rows.len() ==> (#[trigger] contribution(rows[m], s, c)) is None),
        tally_count(rows, s, c) == 0 ==> tally_sum(rows, s, c) == 0,
    decreases rows.len(),
{
    if rows.len() > 0 {
        let front = rows.drop_last();
        lemma_tally_empty(front, s, c);
        lemma_tally_bounds(front, s, c);
        if tally_count(rows, s, c) == 0 {
            assert forall|m: int| 0 <= m < rows.len() implies (#[trigger] contribution(
                rows[m],
                s,
                c,
            )) is None by {
                if m < rows.len() - 1 {
                    assert(front[m] == rows[m]);
                }
            }
        } else if contribution(rows.last(), s, c) is None {
            let m = choose|m: int|
                0 <= m < front.len() && !((#[trigger] contribution(front[m], s, c)) is None);
            assert(front[m] == rows[m]);
        } else {
            assert(rows[rows.len() - 1] == rows.last());
        }
    }
}

/// Every reading holds a power value, so the power tally counts exactly the
/// selected readings: it is zero when, and only when, none is selected.
pub proof fn lemma_power_count_zero(rows: Seq<Reading>, s: Selector)
    ensures
        tally_count(rows, s, Channel::Power) == 0 <==> (forall|m: int|
            0 <= m < rows.len() ==> !selects(s, (#[trigger] rows[m]).observed_at as int)),
{
    lemma_tally_empty(rows, s, Channel::Power);
    if tally_count(rows, s, Channel::Power) == 0 {
        assert forall|m: int| 0 <= m < rows.len() implies !selects(
            s,
            (#[trigger] rows[m]).observed_at as int,
        ) by {
            assert(contribution(rows[m], s, Channel::Power) is None);
        }
    }
    if forall|m: int| 0 <= m < rows.len() ==> !selects(s, (#[trigger] rows[m]).observed_at as int) {
        assert forall|m: int| 0 <= m < rows.len() implies (#[trigger] contribution(
            rows[m],
            s,
            Channel::Power,
        )) is None by {
            assert(!selects(s, rows[m].observed_at as int));
        }
    }
}

/// A selector that accepts no more than another counts no more than it does.
pub proof fn lemma_tally_count_monotone(rows: Seq<Reading>, narrow: Selector, wide: Selector, c: Channel)
    requires
        forall|m: int|
            0 <= m < rows.len() && selects(narrow, (#[trigger] rows[m]).observed_at as int)
                ==> selects(wide, rows[m].observed_at as int),
    ensures
        tally_count(rows, narrow, c) <= tally_count(rows, wide, c),
    decreases rows.len(),
{
    if rows.len() > 0 {
        let front = rows.drop_last();
        assert forall|m: int|
            0 <= m < front.len() && selects(
                narrow,
                (#[trigger] front[m]).observed_at as int,
            ) implies selects(wide, front[m].observed_at as int) by {
            assert(front[m] == rows[m]);
        }
        lemma_tally_count_monotone(front, narrow, wide, c);
        assert(rows.last() == rows[rows.len() - 1]);
    }
}

} // verus!
