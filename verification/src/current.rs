//! The current state of the installation: the latest reading, the last
//! reading of yesterday, and the answer that is made of them.

use crate::clock::{civil_day, civil_day_of, MARKET_OFFSET_SECS};
use crate::goodwe::types::{PlantDetailsByPowerStationIdResponse, SavedSolarData};
use crate::goodwe::GoodWeSemsAPI;
use crate::reading::{selects, Reading, Selector};
use crate::types::{SolarCurrentResponse, SolarCurrentStatistics};
use vstd::prelude::*;

verus! {

/// `rows[i]` is the latest of the readings that `s` selects: none of them
/// was observed after it, and none that follows it in `rows` was observed at
/// the same instant.
pub open spec fn is_latest(rows: Seq<Reading>, s: Selector, i: int) -> bool {
    &&& 0 <= i < rows.len()
    &&& selects(s, rows[i].observed_at as int)
    &&& forall|j: int|
        0 <= j < rows.len() && selects(s, (#[trigger] rows[j]).observed_at as int)
            ==> rows[j].observed_at <= rows[i].observed_at
    &&& forall|j: int|
        i < j < rows.len() && selects(s, (#[trigger] rows[j]).observed_at as int)
            ==> rows[j].observed_at < rows[i].observed_at
}

/// The selector of the readings of civil day `day` on the market clock.
pub open spec fn on_day(day: int) -> Selector {
    Selector::Day { offset_secs: MARKET_OFFSET_SECS as int, day }
}

/// Index of the latest reading of civil day `day` on the market clock, or of
/// the latest reading of all where no day is given.
fn latest_index(readings: &Vec<Reading>, day: Option<i64>) -> (r: Option<usize>)
    ensures
        match r {
            Some(i) => is_latest(
                readings@,
                match day {
                    Some(d) => on_day(d as int),
                    None => Selector::All,
                },
                i as int,
            ),
            None => forall|j: int|
                0 <= j < readings.len() ==> !selects(
                    match day {
                        Some(d) => on_day(d as int),
                        None => Selector::All,
                    },
                    (#[trigger] readings[j]).observed_at as int,
                ),
        },
{
    let ghost s = match day {
        Some(d) => on_day(d as int),
        None => Selector::All,
    };
    let mut best: Option<usize> = None;
    let mut i: usize = 0;
    while i < readings.len()
        invariant
            i <= readings.len(),
            s == (match day {
                Some(d) => on_day(d as int),
                None => Selector::All,
            }),
            match best {
                Some(b) => b < i && is_latest(readings@.take(i as int), s, b as int),
                None => forall|j: int|
                    0 <= j < i ==> !selects(s, (#[trigger] readings[j]).observed_at as int),
            },
        decreases readings.len() - i,
    {
        let t = readings[i].observed_at;
        let chosen = match day {
            Some(d) => civil_day(t, MARKET_OFFSET_SECS) == d,
            None => true,
        };
        let ghost before = readings@.take(i as int);
        let ghost next = readings@.take(i + 1);
        proof {
            assert(chosen == selects(s, t as int));
            assert forall|j: int| 0 <= j < i implies before[j] == readings[j] && next[j] == readings[j] by {}
            assert(next[i as int] == readings[i as int]);
        }
        if chosen {
            let later = match best {
                Some(b) => readings[b].observed_at <= t,
                None => true,
            };
            if later {
                best = Some(i);
                proof {
                    assert forall|j: int|
                        0 <= j < next.len() && selects(
                            s,
                            (#[trigger] next[j]).observed_at as int,
                        ) implies next[j].observed_at <= next[i as int].observed_at by {
                        if j < i {
                            assert(selects(s, before[j].observed_at as int));
                        }
                    }
                }
            } else {
                proof {
                    let b = best->0 as int;
                    assert(is_latest(before, s, b));
                    assert forall|j: int|
                        0 <= j < next.len() && selects(
                            s,
                            (#[trigger] next[j]).observed_at as int,
                        ) implies next[j].observed_at <= next[b].observed_at by {
                        if j < i {
                            assert(selects(s, before[j].observed_at as int));
                        }
                    }
                    assert forall|j: int|
                        b < j < next.len() && selects(
                            s,
                            (#[trigger] next[j]).observed_at as int,
                        ) implies next[j].observed_at < next[b].observed_at by {
                        if j < i {
                            assert(selects(s, before[j].observed_at as int));
                        }
                    }
                }
            }
        } else {
            proof {
                if let Some(b) = best {
                    let b = b as int;
                    assert(is_latest(before, s, b));
                    assert forall|j: int|
                        0 <= j < next.len() && selects(
                            s,
                            (#[trigger] next[j]).observed_at as int,
                        ) implies next[j].observed_at <= next[b].observed_at by {
                        if j < i {
                            assert(selects(s, before[j].observed_at as int));
                        }
                    }
                    assert forall|j: int|
                        b < j < next.len() && selects(
                            s,
                            (#[trigger] next[j]).observed_at as int,
                        ) implies next[j].observed_at < next[b].observed_at by {
                        if j < i {
                            assert(selects(s, before[j].observed_at as int));
                        }
                    }
                }
            }
        }
        i = i + 1;
    }
    proof {
        assert(readings@.take(i as int) =~= readings@);
    }
    best
}

impl GoodWeSemsAPI {
    /// The latest stored reading: the one observed last, and of several
    /// observed at the same instant the one stored last. A store without
    /// readings has none.
    pub fn get_latest_saved_solar_data(readings: &Vec<Reading>) -> (r: Option<&Reading>)
        ensures
            r is None <==> readings.len() == 0,
            r matches Some(latest) ==> exists|i: int|
                is_latest(readings@, Selector::All, i) && *latest == readings[i],
    {
        match latest_index(readings, None) {
            Some(i) => {
                proof {
                    assert(is_latest(readings@, Selector::All, i as int));
                }
                Some(&readings[i])
            },
            None => {
                proof {
                    if readings.len() > 0 {
                        assert(!selects(Selector::All, readings[0].observed_at as int));
                    }
                }
                None
            },
        }
    }
}

/// The last reading of yesterday: of the readings whose civil day on the
/// market clock is the day before that of `now`, the latest. Its payload
/// holds the energy that yesterday produced in all.
pub fn last_of_yesterday(readings: &Vec<Reading>, now: i64) -> (r: Option<&Reading>)
    ensures
        r is None <==> (forall|j: int|
            0 <= j < readings.len() ==> !selects(
                on_day(civil_day_of(now as int, MARKET_OFFSET_SECS as int) - 1),
                (#[trigger] readings[j]).observed_at as int,
            )),
        r matches Some(last) ==> exists|i: int|
            is_latest(readings@, on_day(civil_day_of(now as int, MARKET_OFFSET_SECS as int) - 1), i)
                && *last == readings[i],
{
    let today = civil_day(now, MARKET_OFFSET_SECS);
    assert(today > i64::MIN);
    match latest_index(readings, Some(today - 1)) {
        Some(i) => {
            proof {
                assert(is_latest(readings@, on_day(today - 1), i as int));
            }
            Some(&readings[i])
        },
        None => None,
    }
}

/// The energy of yesterday as the answer reports it: what the last reading
/// of yesterday says of its day, and zero where yesterday has no reading.
pub open spec fn yesterday_production(yesterday: Option<&PlantDetailsByPowerStationIdResponse>) -> i64 {
    match yesterday {
        Some(details) => details.data.kpi.power,
        None => 0,
    }
}

/// Makes the answer on the current state from the latest reading, the
/// decoded payload of the last reading of yesterday, and the statistics.
pub fn solar_current(
    latest: &SavedSolarData,
    yesterday: Option<&PlantDetailsByPowerStationIdResponse>,
    statistics: SolarCurrentStatistics,
) -> (r: SolarCurrentResponse)
    ensures
        r == (SolarCurrentResponse {
            current_production_wh: latest.raw_data.data.kpi.pac,
            today_production_kwh: latest.raw_data.data.kpi.power,
            yesterday_production_kwh: yesterday_production(yesterday),
            month_production_kwh: latest.raw_data.data.kpi.month_generation,
            all_time_production_kwh: latest.raw_data.data.kpi.total_power,
            statistics,
            uv_level: latest.uv_level,
            temperature: latest.temperature,
        }),
{
    let yesterday_value = match yesterday {
        Some(details) => details.data.kpi.power,
        None => 0,
    };
    SolarCurrentResponse {
        yesterday_production_kwh: yesterday_value,
        month_production_kwh: latest.raw_data.data.kpi.month_generation,
        current_production_wh: latest.raw_data.data.kpi.pac,
        today_production_kwh: latest.raw_data.data.kpi.power,
        all_time_production_kwh: latest.raw_data.data.kpi.total_power,
        uv_level: latest.uv_level,
        temperature: latest.temperature,
        statistics,
    }
}

/// The status that the liveness probe answers with: 204 while the polling
/// task runs or was never started, 503 once it has ended.
pub fn health(background_task_finished: Option<bool>) -> (status: u16)
    ensures
        status == (if background_task_finished == Some(true) {
            503u16
        } else {
            204u16
        }),
{
    let is_background_task_ok = match background_task_finished {
        Some(finished) => !finished,
        None => true,
    };
    if is_background_task_ok {
        204
    } else {
        503
    }
}

} // verus!
