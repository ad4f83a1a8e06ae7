//! What is pushed to the downstream sink after a reading has been stored.

use crate::reading::Reading;
use crate::types::SolarCurrentStatisticsAverages;
use vstd::prelude::*;

verus! {

/// Name of the header that carries the shared secret of the sink.
pub const API_KEY_HEADER: &'static str = "api-key";

/// Where readings are forwarded to, and the shared secret that the sink asks for.
#[derive(Clone, Debug, PartialEq, Eq)]
pub struct Endpoint {
    pub url: String,
    pub api_key: String,
}

/// The body of one push: the power of the latest reading in milliwatts, the
/// three rolling averages in hundredths of a watt, and the UV index of the
/// latest reading in thousandths.
#[derive(Clone, Copy, PartialEq, Eq, Structural, Debug)]
pub struct ForwardPayload {
    pub current_power: i64,
    pub averages: SolarCurrentStatisticsAverages,
    pub uv: Option<i64>,
}

/// One push, ready to be serialized and sent.
#[derive(Clone, Debug, PartialEq, Eq)]
pub struct ForwardRequest {
    pub url: String,
    pub api_key: String,
    pub body: ForwardPayload,
}

/// The body that the latest reading and the averages make.
pub open spec fn payload_of(latest: Reading, averages: SolarCurrentStatisticsAverages) -> ForwardPayload {
    ForwardPayload { current_power: latest.current_power_mw, averages, uv: latest.uv_index }
}

/// The push for the latest reading, or `None` where no destination is
/// configured: without one, forwarding is skipped altogether.
pub fn forward_request(
    target: &Option<Endpoint>,
    latest: &Reading,
    averages: SolarCurrentStatisticsAverages,
) -> (r: Option<ForwardRequest>)
    ensures
        r is None <==> target is None,
        r matches Some(request) ==> {
            &&& request.url@ == target->0.url@
            &&& request.api_key@ == target->0.api_key@
            &&& request.body == payload_of(*latest, averages)
        },
{
    match target {
        None => None,
        Some(endpoint) => Some(
            ForwardRequest {
                url: endpoint.url.clone(),
                api_key: endpoint.api_key.clone(),
                body: ForwardPayload {
                    current_power: latest.current_power_mw,
                    averages,
                    uv: latest.uv_index,
                },
            },
        ),
    }
}

} // verus!
