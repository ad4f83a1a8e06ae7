//! Rolling averages of power over trailing windows.

use crate::clock::{in_window, within_window};
use crate::mean::{round_half_away, Mean};
use crate::reading::{
    lemma_power_count_zero, lemma_tally_bounds, lemma_tally_count_monotone, lemma_tally_step,
    selects, tally_count, tally_sum, Channel, Reading, Selector,
};
use crate::types::{SolarCurrentStatistics, SolarCurrentStatisticsAverages};
use vstd::prelude::*;

verus! {

/// A running sum with the number of values that went into it.
#[derive(Clone, Copy)]
pub(crate) struct Tally {
    pub(crate) sum: i128,
    pub(crate) count: u64,
}

impl Tally {
    /// The sum is one that `count` values of type `i64` can have.
    pub(crate) open spec fn bounded(self) -> bool {
        -(self.count * 0x8000_0000_0000_0000) <= self.sum <= self.count * 0x7fff_ffff_ffff_ffff
    }

    /// This tally is the one of channel `c` over the readings of `rows` that
    /// `s` selects.
    pub(crate) open spec fn tracks(self, rows: Seq<Reading>, s: Selector, c: Channel) -> bool {
        self.sum == tally_sum(rows, s, c) && self.count == tally_count(rows, s, c)
    }

    pub(crate) fn empty() -> (t: Tally)
        ensures
            t.sum == 0,
            t.count == 0,
    {
        Tally { sum: 0, count: 0 }
    }

    pub(crate) fn add(&mut self, value: i64)
        requires
            old(self).bounded(),
            old(self).count < u64::MAX,
        ensures
            final(self).sum == old(self).sum + value,
            final(self).count == old(self).count + 1,
    {
        self.sum = self.sum + value as i128;
        self.count = self.count + 1;
    }

    pub(crate) fn add_present(&mut self, value: Option<i64>)
        requires
            old(self).bounded(),
            old(self).count < u64::MAX,
        ensures
            final(self).sum == old(self).sum + match value {
                Some(v) => v as int,
                None => 0,
            },
            final(self).count == old(self).count + match value {
                Some(v) => 1int,
                None => 0int,
            },
    {
        match value {
            Some(v) => self.add(v),
            None => {},
        }
    }

    /// The mean of what was added, if anything was.
    pub(crate) fn mean(&self) -> (r: Option<Mean>)
        requires
            self.bounded(),
        ensures
            r is None <==> self.count == 0,
            r matches Some(m) ==> m.total() == self.sum && m.samples() == self.count,
    {
        if self.count == 0 {
            None
        } else {
            Some(Mean::from_parts(self.sum, self.count))
        }
    }
}

/// The selector of the trailing window of `minutes` minutes that ends at `now`.
pub open spec fn window(now: i64, minutes: i32) -> Selector {
    Selector::Window { now: now as int, minutes: minutes as int }
}

/// Average power over the readings observed in the last `s` minutes, that is
/// in `(now - s, now]`. The result is `None` when, and only when, no reading
/// falls in that window; it is never a zero that stands for "unknown". The
/// mean is exact: nothing is rounded here.
pub fn get_average_for_last_n_minutes(s: i32, readings: &Vec<Reading>, now: i64) -> (r: Option<Mean>)
    ensures
        r is None <==> (forall|m: int|
            0 <= m < readings.len() ==> !in_window(
                (#[trigger] readings[m]).observed_at as int,
                now as int,
                s as int,
            )),
        r is None <==> tally_count(readings@, window(now, s), Channel::Power) == 0,
        r matches Some(m) ==> m.total() == tally_sum(readings@, window(now, s), Channel::Power)
            && m.samples() == tally_count(readings@, window(now, s), Channel::Power),
{
    let ghost sel = window(now, s);
    let mut tally = Tally::empty();
    let mut i: usize = 0;
    while i < readings.len()
        invariant
            i <= readings.len(),
            sel == window(now, s),
            tally.tracks(readings@.take(i as int), sel, Channel::Power),
        decreases readings.len() - i,
    {
        proof {
            lemma_tally_step(readings@, i as int, sel, Channel::Power);
            lemma_tally_bounds(readings@.take(i as int), sel, Channel::Power);
        }
        if within_window(readings[i].observed_at, now, s) {
            tally.add(readings[i].current_power_mw);
        }
        i = i + 1;
    }
    proof {
        assert(readings@.take(i as int) =~= readings@);
        lemma_tally_bounds(readings@, sel, Channel::Power);
        lemma_power_count_zero(readings@, sel);
    }
    tally.mean()
}

/// The mean `n`, if there is one, as a rounded count of hundredths.
pub open spec fn rounded_mean(n: Option<Mean>) -> Option<i64> {
    match n {
        Some(m) => Some(round_half_away(m.total(), 10 * m.samples()) as i64),
        None => None,
    }
}

/// A mean of thousandths as a rounded count of hundredths: the value with two
/// decimal places. This is the one place where an average is rounded.
pub fn round(n: Option<Mean>) -> (r: Option<i64>)
    ensures
        r == rounded_mean(n),
{
    match n {
        Some(m) => Some(m.rounded_hundredths()),
        None => None,
    }
}

/// What `round` makes of the average over one window.
pub open spec fn rounded_window_average(rows: Seq<Reading>, now: i64, minutes: i32) -> Option<i64> {
    let count = tally_count(rows, window(now, minutes), Channel::Power);
    if count == 0 {
        None
    } else {
        Some(
            round_half_away(
                tally_sum(rows, window(now, minutes), Channel::Power),
                10 * count,
            ) as i64,
        )
    }
}

/// The rolling averages over the last 15, 60 and 180 minutes, each rounded to
/// two decimal places. The three are independent: each is taken from the
/// readings alone.
pub fn solar_statistics(readings: &Vec<Reading>, now: i64) -> (r: SolarCurrentStatistics)
    ensures
        r.averages.last_15_mins == rounded_window_average(readings@, now, 15),
        r.averages.last_1_hour == rounded_window_average(readings@, now, 60),
        r.averages.last_3_hours == rounded_window_average(readings@, now, 180),
{
    let avg_15_mins = get_average_for_last_n_minutes(15, readings, now);
    let avg_1_hour = get_average_for_last_n_minutes(60, readings, now);
    let avg_3_hours = get_average_for_last_n_minutes(180, readings, now);
    SolarCurrentStatistics {
        averages: SolarCurrentStatisticsAverages {
            last_15_mins: round(avg_15_mins),
            last_1_hour: round(avg_1_hour),
            last_3_hours: round(avg_3_hours),
        },
    }
}

/// A shorter window draws from a subset of the readings of a longer one that
/// ends at the same instant: every reading that the shorter window selects,
/// the longer selects too, and so it counts no fewer.
pub proof fn lemma_shorter_window_is_subset(rows: Seq<Reading>, now: i64, w1: i32, w2: i32)
    requires
        w1 < w2,
    ensures
        forall|m: int|
            0 <= m < rows.len() && selects(window(now, w1), (#[trigger] rows[m]).observed_at as int)
                ==> selects(window(now, w2), rows[m].observed_at as int),
        tally_count(rows, window(now, w1), Channel::Power) <= tally_count(
            rows,
            window(now, w2),
            Channel::Power,
        ),
{
    lemma_tally_count_monotone(rows, window(now, w1), window(now, w2), Channel::Power);
}

} // verus!
