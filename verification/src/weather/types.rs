//! The documents that the weather service sends, as plain values. The
//! figures that the service gives with decimals (`Location::index`,
//! `WeatherData::temp`, `WeatherData::temp_feels_like`, `MaxTemp::value`) are
//! counts of thousandths; the others are whole numbers as they were sent.

use vstd::prelude::*;

verus! {

/// The UV document: one entry per station.
#[derive(Default, Clone, Debug, PartialEq, Eq)]
pub struct UVXMLDocument {
    pub text: Option<String>,
    pub location: Vec<Location>,
}

/// The UV reading of one station. `name` is the short name that a station
/// is looked up by; `index` is the UV index.
#[derive(Default, Clone, Debug, PartialEq, Eq)]
pub struct Location {
    pub id: String,
    pub text: Option<String>,
    pub name: String,
    pub index: i64,
    pub time: String,
    pub date: String,
    pub fulldate: String,
    pub utcdatetime: String,
    pub status: String,
}

/// The current observation of one place.
#[derive(Default, Clone, Debug, PartialEq, Eq)]
pub struct WeatherDetails {
    pub metadata: WeatherMetadata,
    pub data: WeatherData,
}

#[derive(Default, Clone, Debug, PartialEq, Eq)]
pub struct WeatherMetadata {
    pub response_timestamp: String,
    pub issue_time: String,
    pub observation_time: String,
    pub copyright: String,
}

#[derive(Default, Clone, Debug, PartialEq, Eq)]
pub struct WeatherData {
    pub temp: i64,
    pub temp_feels_like: i64,
    pub wind: Wind,
    pub gust: Gust,
    pub max_gust: MaxGust,
    pub max_temp: MaxTemp,
    pub min_temp: MinTemp,
    pub rain_since_9am: i64,
    pub humidity: i64,
    pub station: Station,
}

#[derive(Default, Clone, Debug, PartialEq, Eq)]
pub struct Wind {
    pub speed_kilometre: i64,
    pub speed_knot: i64,
    pub direction: String,
}

#[derive(Default, Clone, Debug, PartialEq, Eq)]
pub struct Gust {
    pub speed_kilometre: i64,
    pub speed_knot: i64,
}

#[derive(Default, Clone, Debug, PartialEq, Eq)]
pub struct MaxGust {
    pub speed_kilometre: i64,
    pub speed_knot: i64,
    pub time: String,
}

#[derive(Default, Clone, Debug, PartialEq, Eq)]
pub struct MaxTemp {
    pub time: String,
    pub value: i64,
}

#[derive(Default, Clone, Debug, PartialEq, Eq)]
pub struct MinTemp {
    pub time: String,
    pub value: i64,
}

/// Where an observation was taken.
#[derive(Default, Clone, Debug, PartialEq, Eq)]
pub struct Station {
    pub bom_id: String,
    pub name: String,
    pub distance: i64,
}

} // verus!
