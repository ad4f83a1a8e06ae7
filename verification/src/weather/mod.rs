//! The weather service: where its documents are, which station of the UV
//! document is meant, and what an observation says of the temperature.
//!
//! Both enrichments are best effort. A failure here is a value that the
//! poller turns into an absent enrichment; it never fails a cycle.

use crate::weather::types::{UVXMLDocument, WeatherDetails};
use vstd::prelude::*;
use vstd::string::StringExecFns;

pub mod types;

verus! {

/// What can go wrong on the weather path.
#[derive(Clone, Copy, PartialEq, Eq, Structural, Debug)]
pub enum WeatherAPIError {
    /// The service could not be reached or answered with an error status.
    Http,
    /// The UV document is not well-formed.
    Xml,
    /// The document holds no station of the name asked for.
    Unknown,
}

/// Index of the first station of `locations` named `name`, if there is one.
pub open spec fn first_named(locations: Seq<types::Location>, name: Seq<char>) -> Option<int>
    decreases locations.len(),
{
    if locations.len() == 0 {
        None
    } else if locations[0].name@ == name {
        Some(0)
    } else {
        match first_named(locations.drop_first(), name) {
            Some(i) => Some(i + 1),
            None => None,
        }
    }
}

/// The first station named `name` is at the index that `first_named` gives,
/// no station before it has that name, and there is none exactly when no
/// station has it.
pub proof fn lemma_first_named(locations: Seq<types::Location>, name: Seq<char>)
    ensures
        match first_named(locations, name) {
            Some(i) => {
                &&& 0 <= i < locations.len()
                &&& locations[i].name@ == name
                &&& forall|j: int| 0 <= j < i ==> (#[trigger] locations[j]).name@ != name
            },
            None => forall|j: int| 0 <= j < locations.len() ==> (#[trigger] locations[j]).name@ != name,
        },
    decreases locations.len(),
{
    if locations.len() > 0 && locations[0].name@ != name {
        let rest = locations.drop_first();
        lemma_first_named(rest, name);
        match first_named(rest, name) {
            Some(i) => {
                assert forall|j: int| 0 <= j < i + 1 implies (#[trigger] locations[j]).name@ != name by {
                    if j > 0 {
                        assert(rest[j - 1] == locations[j]);
                    }
                }
            },
            None => {
                assert forall|j: int| 0 <= j < locations.len() implies (#[trigger] locations[j]).name@
                    != name by {
                    if j > 0 {
                        assert(rest[j - 1] == locations[j]);
                    }
                }
            },
        }
    }
}

/// The weather service. It holds no state: what it needs is in its constants.
#[derive(Clone, Debug)]
pub struct WeatherAPI {}

impl WeatherAPI {
    /// Where the UV document is.
    pub const UV_LEVELS_XML: &'static str = "https://uvdata.arpansa.gov.au/xml/uvvalues.xml";

    /// Short name of the UV station.
    pub const PERTH_NAME: &'static str = "per";

    /// Geocode of the place whose temperature is taken.
    pub const JANDAKOT_GEOCODE: &'static str = "qd63he";

    pub fn new() -> WeatherAPI {
        WeatherAPI {  }
    }

    /// The address of the observations of the place `geocode`.
    pub open spec fn observations_url(geocode: Seq<char>) -> Seq<char> {
        "https://api.weather.bom.gov.au/v1/locations/"@ + geocode + "/observations"@
    }

    /// Where the observations of `geocode` are asked for.
    pub fn get_weather_details(&self, geocode: &str) -> (url: String)
        ensures
            url@ == Self::observations_url(geocode@),
    {
        String::from_str("https://api.weather.bom.gov.au/v1/locations/").concat(geocode).concat(
            "/observations",
        )
    }

    /// The temperature that an observation reports, in thousandths of a degree.
    pub fn current_temperature(&self, details: &WeatherDetails) -> (t: i64)
        ensures
            t == details.data.temp,
    {
        details.data.temp
    }

    /// The UV index of the station named `name`: that of the first entry of
    /// the document with this name. A document without such an entry gives
    /// `Unknown`.
    pub fn get_uv_level(&self, document: &UVXMLDocument, name: &str) -> (r: Result<i64, WeatherAPIError>)
        ensures
            match first_named(document.location@, name@) {
                Some(i) => r == Ok::<i64, WeatherAPIError>(document.location@[i].index),
                None => r == Err::<i64, WeatherAPIError>(WeatherAPIError::Unknown),
            },
    {
        let wanted = String::from_str(name);
        let ghost all = document.location@;
        let mut i: usize = 0;
        proof {
            lemma_first_named(all, name@);
        }
        while i < document.location.len()
            invariant
                i <= document.location.len(),
                all == document.location@,
                wanted@ == name@,
                forall|j: int| 0 <= j < i ==> (#[trigger] all[j]).name@ != name@,
            decreases document.location.len() - i,
        {
            if document.location[i].name == wanted {
                proof {
                    lemma_first_named(all, name@);
                }
                return Ok(document.location[i].index);
            }
            i = i + 1;
        }
        proof {
            lemma_first_named(all, name@);
        }
        Err(WeatherAPIError::Unknown)
    }
}

} // verus!
