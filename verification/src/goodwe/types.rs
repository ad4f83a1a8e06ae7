//! The documents that the solar portal exchanges, as plain values. The
//! figures of [`Kpi`] are counts of thousandths of their unit.

use crate::reading::SolarPartial;
use vstd::prelude::*;

verus! {

/// The latest stored reading with its payload decoded.
#[derive(Clone, Debug, PartialEq, Eq)]
pub struct SavedSolarData {
    pub raw_data: PlantDetailsByPowerStationIdResponse,
    pub temperature: Option<i64>,
    pub uv_level: Option<i64>,
}

/// The body of a login call.
#[derive(Clone, Debug, PartialEq, Eq)]
pub struct LoginRequest {
    pub account: String,
    pub pwd: String,
}

/// The answer to a login call.
#[derive(Default, Clone, Debug, PartialEq, Eq)]
pub struct LoginResponse {
    pub has_error: bool,
    pub code: i64,
    pub msg: String,
    pub data: LoginData,
    pub components: LoginComponents,
}

/// The session document of the portal. Its text is what a credential holds
/// and what a plant-details call presents, base64-encoded, as its token.
#[derive(Default, Clone, Debug, PartialEq, Eq)]
pub struct LoginData {
    pub uid: String,
    pub timestamp: i64,
    pub token: String,
    pub client: String,
    pub version: String,
    pub language: String,
}

/// What the portal says of itself in a login answer. `para` is kept as the
/// text it arrived as.
#[derive(Default, Clone, Debug, PartialEq, Eq)]
pub struct LoginComponents {
    pub para: Vec<u8>,
    pub lang_ver: i64,
    pub time_span: i64,
    pub api: Option<String>,
    pub msg_socket_adr: String,
}

/// The answer to a plant-details call.
#[derive(Default, Clone, Debug, PartialEq, Eq)]
pub struct PlantDetailsByPowerStationIdResponse {
    pub data: PlantDetailsData,
}

#[derive(Default, Clone, Debug, PartialEq, Eq)]
pub struct PlantDetailsData {
    pub kpi: Kpi,
}

/// The key figures of a plant: `pac` is the power now, `power` the energy
/// of today, `month_generation` and `total_power` the energy of the month
/// and of all time.
#[derive(Default, Clone, Debug, PartialEq, Eq)]
pub struct Kpi {
    pub month_generation: i64,
    pub pac: i64,
    pub power: i64,
    pub total_power: i64,
    pub day_income: i64,
    pub total_income: i64,
    pub yield_rate: i64,
    pub currency: String,
}

impl PlantDetailsByPowerStationIdResponse {
    /// What the poller keeps of a plant-details answer: the power now, and
    /// the answer as it arrived.
    pub fn into_partial(&self, raw_payload: Vec<u8>) -> (partial: SolarPartial)
        ensures
            partial.current_power_mw == self.data.kpi.pac,
            partial.raw_payload@ == raw_payload@,
    {
        SolarPartial { current_power_mw: self.data.kpi.pac, raw_payload }
    }
}

} // verus!
