//! What the query surface hands out.
//!
//! Averages that have not been rounded are [`Mean`] values. The statistics of
//! the current-state answer are rounded for display and are counts of
//! hundredths of a watt.

use crate::mean::Mean;
use vstd::prelude::*;
use vstd::string::StringExecFns;

verus! {

/// Rolling averages of power over the three standard windows, each in
/// hundredths of a watt, `None` where the window holds no reading.
#[derive(Clone, Copy, PartialEq, Eq, Structural, Debug)]
pub struct SolarCurrentStatisticsAverages {
    pub last_15_mins: Option<i64>,
    pub last_1_hour: Option<i64>,
    pub last_3_hours: Option<i64>,
}

#[derive(Clone, Copy, PartialEq, Eq, Structural, Debug)]
pub struct SolarCurrentStatistics {
    pub averages: SolarCurrentStatisticsAverages,
}

/// The current state of the installation. Production figures are in
/// thousandths of the unit that their name gives.
#[derive(Clone, Copy, PartialEq, Eq, Structural, Debug)]
pub struct SolarCurrentResponse {
    pub current_production_wh: i64,
    pub today_production_kwh: i64,
    pub yesterday_production_kwh: i64,
    pub month_production_kwh: i64,
    pub all_time_production_kwh: i64,
    pub statistics: SolarCurrentStatistics,
    pub uv_level: Option<i64>,
    pub temperature: Option<i64>,
}

/// One bucket of the history: the averages of the readings whose instant
/// truncates to `timestamp`. A bucket exists only where a reading fell into
/// it, so `wh` is always there; the two enrichments are `None` where no
/// reading of the bucket carried one.
#[derive(Clone, Copy, Debug, PartialEq, Eq)]
pub struct GenerationHistory {
    pub wh: Mean,
    pub uv_level: Option<Mean>,
    pub temperature: Option<Mean>,
    pub timestamp: i64,
}

/// A history split by civil day.
#[derive(Clone, Debug, PartialEq, Eq)]
pub struct SolarHistoryResponse {
    pub today: Vec<GenerationHistory>,
    pub yesterday: Vec<GenerationHistory>,
}

/// A history as one ascending list.
#[derive(Clone, Debug, PartialEq, Eq)]
pub struct SolarHistoryV2Response {
    pub history: Vec<GenerationHistory>,
}

/// A failure of the query surface. It carries the text of what failed in the
/// store or the query, never a detail of an upstream service.
#[derive(Clone, Debug, PartialEq, Eq)]
pub enum AppError {
    Error(String),
}

impl AppError {
    /// The status that every failure of the query surface answers with.
    pub const STATUS: u16 = 500;

    /// The text that the cause is wrapped in.
    pub open spec fn wrapped(cause: Seq<char>) -> Seq<char> {
        "Something went wrong: "@ + cause
    }

    /// The cause that this failure was made from.
    pub open spec fn cause(self) -> Seq<char> {
        match self {
            AppError::Error(e) => e@,
        }
    }

    /// Makes a failure from the text of its cause.
    pub fn from(err: String) -> (r: AppError)
        ensures
            r.cause() == err@,
    {
        AppError::Error(err)
    }

    /// The status code and the body of the answer: always 500, and the cause
    /// behind a fixed prefix.
    pub fn into_response(self) -> (r: (u16, String))
        ensures
            r.0 == 500,
            r.1@ == Self::wrapped(self.cause()),
    {
        match self {
            AppError::Error(e) => {
                let body = String::from_str("Something went wrong: ").concat(e.as_str());
                (500, body)
            },
        }
    }
}

} // verus!
