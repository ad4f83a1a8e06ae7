//! The bucketed history and its split by civil day.
//!
//! Readings are grouped by truncating their instant to a bucket of fixed
//! width. A bucket is reported only if a reading fell into it, so the
//! sequence is sparse; it ascends by bucket start. What a bucket holds
//! depends on the readings, the range and the width alone, never on when the
//! question is asked.

use crate::clock::{
    bucket_start, bucket_start_of, civil_day, civil_day_of, in_range, within_range,
    BUCKET_WIDTH_MS, MARKET_OFFSET_SECS,
};
use crate::mean::Mean;
use crate::reading::{
    contribution, lemma_power_count_zero, lemma_tally_bounds, lemma_tally_empty, lemma_tally_step,
    selects, tally_count, tally_sum, Channel, Reading, Selector,
};
use crate::stats::Tally;
use crate::types::{GenerationHistory, SolarHistoryResponse, SolarHistoryV2Response};
use vstd::prelude::*;

verus! {

/// The selector of the readings of a range that fall into the bucket that
/// starts at `bucket`.
pub open spec fn bucket_of(start: i64, end: Option<i64>, width: i64, bucket: i64) -> Selector {
    Selector::Bucket { start: start as int, end, width: width as int, bucket: bucket as int }
}

/// `m` is the mean of channel `c` over what `s` selects, or is absent
/// because nothing selected holds a value for `c`.
pub open spec fn is_mean_of(m: Option<Mean>, rows: Seq<Reading>, s: Selector, c: Channel) -> bool {
    match m {
        None => tally_count(rows, s, c) == 0,
        Some(mean) => {
            &&& tally_count(rows, s, c) > 0
            &&& mean.samples() == tally_count(rows, s, c)
            &&& mean.total() == tally_sum(rows, s, c)
        },
    }
}

/// `g` is the summary of the bucket that starts at `g.timestamp`, and that
/// bucket is not empty.
pub open spec fn summarizes(
    g: GenerationHistory,
    rows: Seq<Reading>,
    start: i64,
    end: Option<i64>,
    width: i64,
) -> bool {
    let s = bucket_of(start, end, width, g.timestamp);
    &&& is_mean_of(Some(g.wh), rows, s, Channel::Power)
    &&& is_mean_of(g.uv_level, rows, s, Channel::Uv)
    &&& is_mean_of(g.temperature, rows, s, Channel::Temperature)
}

/// Some bucket of `h` starts at `b`.
pub open spec fn has_bucket(h: Seq<GenerationHistory>, b: int) -> bool {
    exists|i: int| 0 <= i < h.len() && (#[trigger] h[i]).timestamp == b
}

/// The bucket starts of `h` ascend strictly.
pub open spec fn ascending(h: Seq<GenerationHistory>) -> bool {
    forall|i: int, j: int| 0 <= i < j < h.len() ==> (#[trigger] h[i]).timestamp < (#[trigger] h[j]).timestamp
}

/// `h` is the history of `rows` over the range from `start` to `end` in
/// buckets of `width`: it ascends, each entry summarizes a bucket that is not
/// empty, and every reading of the range has its bucket in it.
pub open spec fn is_history(
    h: Seq<GenerationHistory>,
    rows: Seq<Reading>,
    start: i64,
    end: Option<i64>,
    width: i64,
) -> bool {
    &&& ascending(h)
    &&& forall|i: int| 0 <= i < h.len() ==> summarizes(#[trigger] h[i], rows, start, end, width)
    &&& forall|m: int|
        0 <= m < rows.len() && in_range((#[trigger] rows[m]).observed_at as int, start as int, end)
            ==> has_bucket(h, bucket_start_of(rows[m].observed_at as int, width as int))
}

/// The history of `rows` over a range, in buckets of `width`. By
/// [`lemma_history_is_determined`] there is at most one.
pub open spec fn history_of(rows: Seq<Reading>, start: i64, end: Option<i64>, width: i64) -> Seq<
    GenerationHistory,
> {
    choose|h: Seq<GenerationHistory>| is_history(h, rows, start, end, width)
}

/// The bucket `g` starts on the civil day of `now`, both taken on a clock
/// `offset_secs` seconds east of UTC.
pub open spec fn is_today(g: GenerationHistory, now: i64, offset_secs: i32) -> bool {
    civil_day_of(g.timestamp as int, offset_secs as int) == civil_day_of(
        now as int,
        offset_secs as int,
    )
}

/// The test that puts a bucket under "today".
pub open spec fn today_filter(now: i64, offset_secs: i32) -> spec_fn(GenerationHistory) -> bool {
    |g: GenerationHistory| is_today(g, now, offset_secs)
}

/// The test that puts a bucket under "yesterday": it is any bucket that is
/// not of today.
pub open spec fn not_today_filter(now: i64, offset_secs: i32) -> spec_fn(GenerationHistory) -> bool {
    |g: GenerationHistory| !is_today(g, now, offset_secs)
}

/// The instant at which civil day `day` begins on a clock `offset_secs`
/// seconds east of UTC, or the beginning of the time line where that day
/// begins before it.
pub open spec fn day_start_of(day: int, offset_secs: int) -> int {
    let begins = day * 86_400_000 - offset_secs * 1000;
    if begins < i64::MIN {
        i64::MIN as int
    } else {
        begins
    }
}

/// The running summary of one bucket.
#[derive(Clone, Copy)]
struct Slot {
    start: i64,
    power: Tally,
    uv: Tally,
    temperature: Tally,
}

impl Slot {
    /// The three tallies are those of this bucket over `rows`, and a reading
    /// of `rows` fell into it.
    spec fn tracks(self, rows: Seq<Reading>, start: i64, end: Option<i64>, width: i64) -> bool {
        let s = bucket_of(start, end, width, self.start);
        &&& self.power.tracks(rows, s, Channel::Power)
        &&& self.uv.tracks(rows, s, Channel::Uv)
        &&& self.temperature.tracks(rows, s, Channel::Temperature)
        &&& self.power.count > 0
    }
}

spec fn slots_ascending(slots: Seq<Slot>) -> bool {
    forall|a: int, b: int| 0 <= a < b < slots.len() ==> (#[trigger] slots[a]).start < (#[trigger] slots[b]).start
}

spec fn has_slot(slots: Seq<Slot>, b: int) -> bool {
    exists|k: int| 0 <= k < slots.len() && (#[trigger] slots[k]).start == b
}

/// Every reading of the range among the first `n` has a slot for its bucket.
spec fn covered(slots: Seq<Slot>, rows: Seq<Reading>, n: int, start: i64, end: Option<i64>, width: i64) -> bool {
    forall|m: int|
        0 <= m < n && in_range((#[trigger] rows[m]).observed_at as int, start as int, end)
            ==> has_slot(slots, bucket_start_of(rows[m].observed_at as int, width as int))
}

/// Index of the first slot that does not start before `b`.
fn find_slot(slots: &Vec<Slot>, b: i64) -> (j: usize)
    requires
        slots_ascending(slots@),
    ensures
        j <= slots.len(),
        forall|k: int| 0 <= k < j ==> (#[trigger] slots[k]).start < b,
        forall|k: int| j <= k < slots.len() ==> (#[trigger] slots[k]).start >= b,
{
    let mut j: usize = slots.len();
    while j > 0 && slots[j - 1].start >= b
        invariant
            j <= slots.len(),
            forall|k: int| j <= k < slots.len() ==> (#[trigger] slots[k]).start >= b,
        decreases j,
    {
        j = j - 1;
    }
    proof {
        if j > 0 {
            assert forall|k: int| 0 <= k < j implies (#[trigger] slots[k]).start < b by {
                if k < j - 1 {
                    assert(slots[k].start < slots[j - 1].start);
                }
            }
        }
    }
    j
}

/// A slot goes on tracking its bucket when a reading is taken into account
/// that the bucket does not select.
proof fn lemma_slot_unaffected(
    slot: Slot,
    rows: Seq<Reading>,
    i: int,
    start: i64,
    end: Option<i64>,
    width: i64,
)
    requires
        0 <= i < rows.len(),
        slot.tracks(rows.take(i), start, end, width),
        !selects(bucket_of(start, end, width, slot.start), rows[i].observed_at as int),
    ensures
        slot.tracks(rows.take(i + 1), start, end, width),
{
    let s = bucket_of(start, end, width, slot.start);
    lemma_tally_step(rows, i, s, Channel::Power);
    lemma_tally_step(rows, i, s, Channel::Uv);
    lemma_tally_step(rows, i, s, Channel::Temperature);
}

/// The tallies of a bucket that has no slot yet are all zero.
proof fn lemma_fresh_bucket(
    slots: Seq<Slot>,
    rows: Seq<Reading>,
    i: int,
    start: i64,
    end: Option<i64>,
    width: i64,
    b: i64,
    c: Channel,
)
    requires
        0 <= i <= rows.len(),
        covered(slots, rows, i, start, end, width),
        !has_slot(slots, b as int),
    ensures
        tally_count(rows.take(i), bucket_of(start, end, width, b), c) == 0,
        tally_sum(rows.take(i), bucket_of(start, end, width, b), c) == 0,
{
    let s = bucket_of(start, end, width, b);
    let front = rows.take(i);
    assert forall|m: int| 0 <= m < front.len() implies (#[trigger] contribution(front[m], s, c)) is None by {
        assert(front[m] == rows[m]);
        if selects(s, rows[m].observed_at as int) {
            assert(has_slot(slots, bucket_start_of(rows[m].observed_at as int, width as int)));
        }
    }
    lemma_tally_empty(front, s, c);
}

/// Takes the reading `rows[i]`, whose bucket starts at `slot.start`, into the
/// slot of that bucket.
fn absorb(
    slot: &mut Slot,
    reading: &Reading,
    Ghost(rows): Ghost<Seq<Reading>>,
    Ghost(i): Ghost<int>,
    Ghost(start): Ghost<i64>,
    Ghost(end): Ghost<Option<i64>>,
    Ghost(width): Ghost<i64>,
)
    requires
        0 <= i < rows.len(),
        rows.len() <= usize::MAX,
        rows[i] == *reading,
        selects(bucket_of(start, end, width, old(slot).start), reading.observed_at as int),
        old(slot).power.tracks(rows.take(i), bucket_of(start, end, width, old(slot).start), Channel::Power),
        old(slot).uv.tracks(rows.take(i), bucket_of(start, end, width, old(slot).start), Channel::Uv),
        old(slot).temperature.tracks(
            rows.take(i),
            bucket_of(start, end, width, old(slot).start),
            Channel::Temperature,
        ),
    ensures
        final(slot).start == old(slot).start,
        final(slot).tracks(rows.take(i + 1), start, end, width),
{
    let ghost s = bucket_of(start, end, width, slot.start);
    proof {
        lemma_tally_step(rows, i, s, Channel::Power);
        lemma_tally_step(rows, i, s, Channel::Uv);
        lemma_tally_step(rows, i, s, Channel::Temperature);
        lemma_tally_bounds(rows.take(i), s, Channel::Power);
        lemma_tally_bounds(rows.take(i), s, Channel::Uv);
        lemma_tally_bounds(rows.take(i), s, Channel::Temperature);
    }
    slot.power.add(reading.current_power_mw);
    slot.uv.add_present(reading.uv_index);
    slot.temperature.add_present(reading.temperature);
}

/// Groups the readings of the range `[range_start, range_end)`, or of
/// `[range_start, ..)` where no end is given, into buckets of `bucket_width`
/// milliseconds and averages each channel per bucket.
///
/// The result ascends by bucket start and holds one entry for each bucket
/// into which a reading of the range falls; empty buckets are left out, not
/// filled with zeros. The readings may come in any order.
pub fn history(
    readings: &Vec<Reading>,
    range_start: i64,
    range_end: Option<i64>,
    bucket_width: i64,
) -> (h: Vec<GenerationHistory>)
    requires
        bucket_width > 0,
    ensures
        is_history(h@, readings@, range_start, range_end, bucket_width),
        h@ == history_of(readings@, range_start, range_end, bucket_width),
{
    let ghost rows = readings@;
    let mut slots: Vec<Slot> = Vec::new();
    let mut i: usize = 0;
    while i < readings.len()
        invariant
            i <= readings.len(),
            rows == readings@,
            bucket_width > 0,
            slots_ascending(slots@),
            covered(slots@, rows, i as int, range_start, range_end, bucket_width),
            forall|k: int|
                0 <= k < slots.len() ==> (#[trigger] slots[k]).tracks(
                    rows.take(i as int),
                    range_start,
                    range_end,
                    bucket_width,
                ),
        decreases readings.len() - i,
    {
        let reading = &readings[i];
        let ghost before = slots@;
        if within_range(reading.observed_at, range_start, range_end) {
            let b = bucket_start(reading.observed_at, bucket_width);
            let j = find_slot(&slots, b);
            if j < slots.len() && slots[j].start == b {
                let mut slot = slots[j];
                absorb(
                    &mut slot,
                    reading,
                    Ghost(rows),
                    Ghost(i as int),
                    Ghost(range_start),
                    Ghost(range_end),
                    Ghost(bucket_width),
                );
                slots[j] = slot;
                proof {
                    assert(slots@ == before.update(j as int, slot));
                    assert forall|k: int| 0 <= k < slots.len() implies (#[trigger] slots[k]).tracks(
                        rows.take(i + 1),
                        range_start,
                        range_end,
                        bucket_width,
                    ) by {
                        if k != j {
                            assert(slots[k] == before[k]);
                            assert(before[k].start != before[j as int].start);
                            lemma_slot_unaffected(before[k], rows, i as int, range_start, range_end, bucket_width);
                        }
                    }
                    assert forall|m: int|
                        0 <= m < i + 1 && in_range(
                            (#[trigger] rows[m]).observed_at as int,
                            range_start as int,
                            range_end,
                        ) implies has_slot(
                        slots@,
                        bucket_start_of(rows[m].observed_at as int, bucket_width as int),
                    ) by {
                        let want = bucket_start_of(rows[m].observed_at as int, bucket_width as int);
                        if m < i {
                            assert(has_slot(before, want));
                            let k = choose|k: int| 0 <= k < before.len() && (#[trigger] before[k]).start == want;
                            assert(slots@[k].start == want);
                        } else {
                            assert(slots@[j as int].start == want);
                        }
                    }
                }
            } else {
                proof {
                    assert(!has_slot(before, b as int)) by {
                        if has_slot(before, b as int) {
                            let k = choose|k: int| 0 <= k < before.len() && (#[trigger] before[k]).start == b;
                            if k < j {
                                assert(before[k].start < b);
                            } else {
                                assert(before[k].start >= b);
                                if k > j {
                                    assert(before[j as int].start < before[k].start);
                                }
                            }
                        }
                    }
                    lemma_fresh_bucket(before, rows, i as int, range_start, range_end, bucket_width, b, Channel::Power);
                    lemma_fresh_bucket(before, rows, i as int, range_start, range_end, bucket_width, b, Channel::Uv);
                    lemma_fresh_bucket(
                        before,
                        rows,
                        i as int,
                        range_start,
                        range_end,
                        bucket_width,
                        b,
                        Channel::Temperature,
                    );
                }
                let mut slot = Slot {
                    start: b,
                    power: Tally::empty(),
                    uv: Tally::empty(),
                    temperature: Tally::empty(),
                };
                absorb(
                    &mut slot,
                    reading,
                    Ghost(rows),
                    Ghost(i as int),
                    Ghost(range_start),
                    Ghost(range_end),
                    Ghost(bucket_width),
                );
                slots.insert(j, slot);
                proof {
                    assert(slots@ == before.insert(j as int, slot));
                    assert forall|k: int| 0 <= k < slots.len() implies (#[trigger] slots[k]).tracks(
                        rows.take(i + 1),
                        range_start,
                        range_end,
                        bucket_width,
                    ) by {
                        if k < j {
                            assert(slots[k] == before[k]);
                            lemma_slot_unaffected(before[k], rows, i as int, range_start, range_end, bucket_width);
                        } else if k > j {
                            assert(slots[k] == before[k - 1]);
                            lemma_slot_unaffected(
                                before[k - 1],
                                rows,
                                i as int,
                                range_start,
                                range_end,
                                bucket_width,
                            );
                        }
                    }
                    assert forall|a: int, c: int| 0 <= a < c < slots.len() implies (#[trigger] slots[a]).start < (
                    #[trigger] slots[c]).start by {
                        let pa = if a < j { a } else { a - 1 };
                        let pc = if c < j { c } else { c - 1 };
                        if a != j && c != j {
                            assert(before[pa].start < before[pc].start);
                        } else if a == j {
                            assert(before[pc].start >= b);
                            assert(before[pc].start != b);
                        } else {
                            assert(before[pa].start < b);
                        }
                    }
                    assert forall|m: int|
                        0 <= m < i + 1 && in_range(
                            (#[trigger] rows[m]).observed_at as int,
                            range_start as int,
                            range_end,
                        ) implies has_slot(
                        slots@,
                        bucket_start_of(rows[m].observed_at as int, bucket_width as int),
                    ) by {
                        let want = bucket_start_of(rows[m].observed_at as int, bucket_width as int);
                        if m < i {
                            assert(has_slot(before, want));
                            let k = choose|k: int| 0 <= k < before.len() && (#[trigger] before[k]).start == want;
                            if k < j {
                                assert(slots@[k].start == want);
                            } else {
                                assert(slots@[k + 1].start == want);
                            }
                        } else {
                            assert(slots@[j as int].start == want);
                        }
                    }
                }
            }
        } else {
            proof {
                assert forall|k: int| 0 <= k < slots.len() implies (#[trigger] slots[k]).tracks(
                    rows.take(i + 1),
                    range_start,
                    range_end,
                    bucket_width,
                ) by {
                    lemma_slot_unaffected(slots[k], rows, i as int, range_start, range_end, bucket_width);
                }
            }
        }
        i = i + 1;
    }
    proof {
        assert(rows.take(i as int) =~= rows);
    }
    let mut out: Vec<GenerationHistory> = Vec::new();
    let mut k: usize = 0;
    while k < slots.len()
        invariant
            k <= slots.len(),
            out.len() == k,
            forall|q: int|
                0 <= q < slots.len() ==> (#[trigger] slots[q]).tracks(
                    rows,
                    range_start,
                    range_end,
                    bucket_width,
                ),
            forall|q: int|
                0 <= q < k ==> (#[trigger] out[q]).timestamp == slots[q].start && summarizes(
                    out[q],
                    rows,
                    range_start,
                    range_end,
                    bucket_width,
                ),
        decreases slots.len() - k,
    {
        let slot = slots[k];
        proof {
            let s = bucket_of(range_start, range_end, bucket_width, slot.start);
            assert(slots[k as int].tracks(rows, range_start, range_end, bucket_width));
            lemma_tally_bounds(rows, s, Channel::Power);
            lemma_tally_bounds(rows, s, Channel::Uv);
            lemma_tally_bounds(rows, s, Channel::Temperature);
        }
        let entry = GenerationHistory {
            wh: Mean::from_parts(slot.power.sum, slot.power.count),
            uv_level: slot.uv.mean(),
            temperature: slot.temperature.mean(),
            timestamp: slot.start,
        };
        out.push(entry);
        k = k + 1;
    }
    proof {
        assert forall|a: int, c: int| 0 <= a < c < out.len() implies (#[trigger] out[a]).timestamp < (
        #[trigger] out[c]).timestamp by {
            assert(slots[a].start < slots[c].start);
        }
        assert forall|m: int|
            0 <= m < rows.len() && in_range(
                (#[trigger] rows[m]).observed_at as int,
                range_start as int,
                range_end,
            ) implies has_bucket(out@, bucket_start_of(rows[m].observed_at as int, bucket_width as int)) by {
            let want = bucket_start_of(rows[m].observed_at as int, bucket_width as int);
            assert(has_slot(slots@, want));
            let q = choose|q: int| 0 <= q < slots.len() && (#[trigger] slots[q]).start == want;
            assert(out[q].timestamp == want);
        }
        assert(is_history(out@, rows, range_start, range_end, bucket_width));
        lemma_history_is_determined(
            out@,
            history_of(rows, range_start, range_end, bucket_width),
            rows,
            range_start,
            range_end,
            bucket_width,
        );
    }
    out
}

/// The history since `since`, in five-minute buckets, as one ascending list.
pub fn solar_history_with_query(readings: &Vec<Reading>, since: i64) -> (r: SolarHistoryV2Response)
    ensures
        r.history@ == history_of(readings@, since, None, BUCKET_WIDTH_MS),
        is_history(r.history@, readings@, since, None, BUCKET_WIDTH_MS),
{
    SolarHistoryV2Response { history: history(readings, since, None, BUCKET_WIDTH_MS) }
}

/// Splits a history into the buckets of today and all others, by the civil
/// date of each bucket start on a clock `offset_secs` seconds east of UTC.
/// The offset is a constant, not a calendar time zone.
///
/// A bucket whose date is today's goes to `today`. Every other bucket goes to
/// `yesterday`, whatever its date: the split is this coarse on purpose, and a
/// bucket older than yesterday, or one of a later day, is labelled
/// "yesterday" too. Both parts keep the order of `buckets`.
pub fn partition_today_yesterday(buckets: &Vec<GenerationHistory>, now: i64, offset_secs: i32) -> (r:
    SolarHistoryResponse)
    ensures
        r.today@ == buckets@.filter(today_filter(now, offset_secs)),
        r.yesterday@ == buckets@.filter(not_today_filter(now, offset_secs)),
        r.today@.len() + r.yesterday@.len() == buckets@.len(),
{
    let today_number = civil_day(now, offset_secs);
    let mut today: Vec<GenerationHistory> = Vec::new();
    let mut yesterday: Vec<GenerationHistory> = Vec::new();
    let mut i: usize = 0;
    proof {
        reveal(Seq::filter);
        assert(buckets@.take(0).len() == 0);
    }
    while i < buckets.len()
        invariant
            i <= buckets.len(),
            today_number == civil_day_of(now as int, offset_secs as int),
            today@ == buckets@.take(i as int).filter(today_filter(now, offset_secs)),
            yesterday@ == buckets@.take(i as int).filter(not_today_filter(now, offset_secs)),
            today@.len() + yesterday@.len() == i,
        decreases buckets.len() - i,
    {
        let g = buckets[i];
        proof {
            reveal(Seq::filter);
            let next = buckets@.take(i + 1);
            assert(next.drop_last() =~= buckets@.take(i as int));
            assert(next.last() == g);
        }
        if civil_day(g.timestamp, offset_secs) == today_number {
            today.push(g);
        } else {
            yesterday.push(g);
        }
        i = i + 1;
    }
    proof {
        assert(buckets@.take(i as int) =~= buckets@);
    }
    SolarHistoryResponse { today, yesterday }
}

/// The instant at which the civil day before that of `now` begins.
pub fn yesterday_start(now: i64, offset_secs: i32) -> (r: i64)
    ensures
        r == day_start_of(civil_day_of(now as int, offset_secs as int) - 1, offset_secs as int),
{
    let day: i128 = civil_day(now, offset_secs) as i128 - 1;
    let begins: i128 = day * 86_400_000 - (offset_secs as i128) * 1000;
    proof {
        // The day before that of `now` begins before `now`.
        let shifted = now as int + (offset_secs as int) * 1000;
        vstd::arithmetic::div_mod::lemma_fundamental_div_mod(shifted, 86_400_000);
        vstd::arithmetic::div_mod::lemma_mod_bound(shifted, 86_400_000);
        assert(begins <= now);
    }
    if begins < i64::MIN as i128 {
        i64::MIN
    } else {
        begins as i64
    }
}

/// The history of today and yesterday on the market clock: the readings
/// from the beginning of yesterday on, in five-minute buckets, split by
/// [`partition_today_yesterday`].
pub fn solar_history(readings: &Vec<Reading>, now: i64) -> (r: SolarHistoryResponse)
    ensures
        r.today@ == history_of(
            readings@,
            day_start_of(civil_day_of(now as int, MARKET_OFFSET_SECS as int) - 1, MARKET_OFFSET_SECS as int) as i64,
            None,
            BUCKET_WIDTH_MS,
        ).filter(today_filter(now, MARKET_OFFSET_SECS)),
        r.yesterday@ == history_of(
            readings@,
            day_start_of(civil_day_of(now as int, MARKET_OFFSET_SECS as int) - 1, MARKET_OFFSET_SECS as int) as i64,
            None,
            BUCKET_WIDTH_MS,
        ).filter(not_today_filter(now, MARKET_OFFSET_SECS)),
{
    let since = yesterday_start(now, MARKET_OFFSET_SECS);
    let all = history(readings, since, None, BUCKET_WIDTH_MS);
    partition_today_yesterday(&all, now, MARKET_OFFSET_SECS)
}

/// Every bucket of a history holds a reading, so another history of the same
/// readings has that bucket too.
proof fn lemma_bucket_is_shared(
    a: Seq<GenerationHistory>,
    b: Seq<GenerationHistory>,
    rows: Seq<Reading>,
    start: i64,
    end: Option<i64>,
    width: i64,
    i: int,
)
    requires
        is_history(a, rows, start, end, width),
        is_history(b, rows, start, end, width),
        0 <= i < a.len(),
    ensures
        has_bucket(b, a[i].timestamp as int),
{
    let s = bucket_of(start, end, width, a[i].timestamp);
    assert(summarizes(a[i], rows, start, end, width));
    lemma_power_count_zero(rows, s);
    let m = choose|m: int| 0 <= m < rows.len() && selects(s, (#[trigger] rows[m]).observed_at as int);
    assert(in_range(rows[m].observed_at as int, start as int, end));
}

/// Two strictly ascending sequences with the same bucket starts have them at
/// the same places.
proof fn lemma_same_starts(a: Seq<GenerationHistory>, b: Seq<GenerationHistory>)
    requires
        ascending(a),
        ascending(b),
        forall|i: int| 0 <= i < a.len() ==> has_bucket(b, (#[trigger] a[i]).timestamp as int),
        forall|j: int| 0 <= j < b.len() ==> has_bucket(a, (#[trigger] b[j]).timestamp as int),
    ensures
        a.len() == b.len(),
        forall|i: int| 0 <= i < a.len() ==> (#[trigger] a[i]).timestamp == b[i].timestamp,
    decreases a.len(),
{
    if a.len() == 0 {
        if b.len() > 0 {
            assert(has_bucket(a, b[0].timestamp as int));
        }
    } else {
        let la = a.len() - 1;
        assert(has_bucket(b, a[la].timestamp as int));
        let jb = choose|j: int| 0 <= j < b.len() && (#[trigger] b[j]).timestamp == a[la].timestamp;
        let lb = b.len() - 1;
        assert(has_bucket(a, b[lb].timestamp as int));
        let ja = choose|i: int| 0 <= i < a.len() && (#[trigger] a[i]).timestamp == b[lb].timestamp;
        // Each last start is the greatest of its sequence, and each occurs in the other.
        assert(a[la].timestamp == b[lb].timestamp) by {
            if jb < lb {
                assert(b[jb].timestamp < b[lb].timestamp);
            }
            if ja < la {
                assert(a[ja].timestamp < a[la].timestamp);
            }
        }
        let fa = a.drop_last();
        let fb = b.drop_last();
        assert forall|i: int| 0 <= i < fa.len() implies has_bucket(fb, (#[trigger] fa[i]).timestamp as int) by {
            assert(fa[i] == a[i]);
            assert(has_bucket(b, a[i].timestamp as int));
            let j = choose|j: int| 0 <= j < b.len() && (#[trigger] b[j]).timestamp == a[i].timestamp;
            assert(a[i].timestamp < a[la].timestamp);
            assert(j < lb);
            assert(fb[j] == b[j]);
        }
        assert forall|j: int| 0 <= j < fb.len() implies has_bucket(fa, (#[trigger] fb[j]).timestamp as int) by {
            assert(fb[j] == b[j]);
            assert(has_bucket(a, b[j].timestamp as int));
            let i = choose|i: int| 0 <= i < a.len() && (#[trigger] a[i]).timestamp == b[j].timestamp;
            assert(b[j].timestamp < b[lb].timestamp);
            assert(i < la);
            assert(fa[i] == a[i]);
        }
        assert(ascending(fa)) by {
            assert forall|i: int, j: int| 0 <= i < j < fa.len() implies (#[trigger] fa[i]).timestamp < (
            #[trigger] fa[j]).timestamp by {
                assert(fa[i] == a[i] && fa[j] == a[j]);
            }
        }
        assert(ascending(fb)) by {
            assert forall|i: int, j: int| 0 <= i < j < fb.len() implies (#[trigger] fb[i]).timestamp < (
            #[trigger] fb[j]).timestamp by {
                assert(fb[i] == b[i] && fb[j] == b[j]);
            }
        }
        lemma_same_starts(fa, fb);
        assert forall|i: int| 0 <= i < a.len() implies (#[trigger] a[i]).timestamp == b[i].timestamp by {
            if i < la {
                assert(fa[i] == a[i] && fb[i] == b[i]);
            }
        }
    }
}

/// Two means of one tally are one value.
proof fn lemma_one_mean(x: Option<Mean>, y: Option<Mean>, rows: Seq<Reading>, s: Selector, c: Channel)
    requires
        is_mean_of(x, rows, s, c),
        is_mean_of(y, rows, s, c),
    ensures
        x == y,
{
    if x is Some {
        Mean::lemma_equal_by_parts(x->0, y->0);
    }
}

/// Bucketing is a function of the readings, the range and the width: there
/// is one history of them and no other. Asking twice of an unchanged store
/// therefore gives the same sequence twice, in the same ascending order.
pub proof fn lemma_history_is_determined(
    a: Seq<GenerationHistory>,
    b: Seq<GenerationHistory>,
    rows: Seq<Reading>,
    start: i64,
    end: Option<i64>,
    width: i64,
)
    requires
        is_history(a, rows, start, end, width),
        is_history(b, rows, start, end, width),
    ensures
        a == b,
{
    assert forall|i: int| 0 <= i < a.len() implies has_bucket(b, (#[trigger] a[i]).timestamp as int) by {
        lemma_bucket_is_shared(a, b, rows, start, end, width, i);
    }
    assert forall|j: int| 0 <= j < b.len() implies has_bucket(a, (#[trigger] b[j]).timestamp as int) by {
        lemma_bucket_is_shared(b, a, rows, start, end, width, j);
    }
    lemma_same_starts(a, b);
    assert forall|i: int| 0 <= i < a.len() implies a[i] == b[i] by {
        let s = bucket_of(start, end, width, a[i].timestamp);
        assert(summarizes(a[i], rows, start, end, width));
        assert(summarizes(b[i], rows, start, end, width));
        lemma_one_mean(Some(a[i].wh), Some(b[i].wh), rows, s, Channel::Power);
        lemma_one_mean(a[i].uv_level, b[i].uv_level, rows, s, Channel::Uv);
        lemma_one_mean(a[i].temperature, b[i].temperature, rows, s, Channel::Temperature);
    }
    assert(a =~= b);
}

/// A history of no readings is empty.
pub proof fn lemma_history_of_nothing(h: Seq<GenerationHistory>, start: i64, end: Option<i64>, width: i64)
    requires
        is_history(h, Seq::<Reading>::empty(), start, end, width),
    ensures
        h.len() == 0,
{
    if h.len() > 0 {
        assert(summarizes(h[0], Seq::<Reading>::empty(), start, end, width));
    }
}

} // verus!
