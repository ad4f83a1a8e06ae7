use solar_monitor::weather::types::{Location, UVXMLDocument, WeatherData, WeatherDetails};
use solar_monitor::weather::{WeatherAPI, WeatherAPIError};

fn station(name: &str, index: i64) -> Location {
    Location { name: name.to_string(), index, id: name.to_uppercase(), ..Location::default() }
}

#[test]
fn uv_level_is_that_of_the_named_station() {
    let document = UVXMLDocument {
        text: None,
        location: vec![station("adl", 1_200), station("per", 5_400), station("syd", 3_300)],
    };
    let api = WeatherAPI::new();
    assert_eq!(api.get_uv_level(&document, WeatherAPI::PERTH_NAME), Ok(5_400));
    assert_eq!(api.get_uv_level(&document, "adl"), Ok(1_200));
    assert_eq!(api.get_uv_level(&document, "syd"), Ok(3_300));
}

#[test]
fn uv_level_of_a_repeated_name_is_the_first() {
    let document = UVXMLDocument {
        text: None,
        location: vec![station("adl", 1_200), station("per", 5_400), station("per", 7_000)],
    };
    assert_eq!(WeatherAPI::new().get_uv_level(&document, "per"), Ok(5_400));
}

#[test]
fn uv_level_of_an_unknown_station_is_an_error() {
    let document = UVXMLDocument { text: None, location: vec![station("adl", 1_200)] };
    let api = WeatherAPI::new();
    assert_eq!(api.get_uv_level(&document, "per"), Err(WeatherAPIError::Unknown));
    assert_eq!(api.get_uv_level(&document, "ad"), Err(WeatherAPIError::Unknown));
    assert_eq!(api.get_uv_level(&document, "adl "), Err(WeatherAPIError::Unknown));
    assert_eq!(api.get_uv_level(&document, "ADL"), Err(WeatherAPIError::Unknown));
    assert_eq!(api.get_uv_level(&document, ""), Err(WeatherAPIError::Unknown));
    let empty = UVXMLDocument { text: None, location: Vec::new() };
    assert_eq!(api.get_uv_level(&empty, "per"), Err(WeatherAPIError::Unknown));
}

#[test]
fn observations_address_holds_the_geocode() {
    let api = WeatherAPI::new();
    assert_eq!(
        api.get_weather_details(WeatherAPI::JANDAKOT_GEOCODE),
        "https://api.weather.bom.gov.au/v1/locations/qd63he/observations"
    );
    assert_eq!(api.get_weather_details(""), "https://api.weather.bom.gov.au/v1/locations//observations");
    assert_eq!(WeatherAPI::UV_LEVELS_XML, "https://uvdata.arpansa.gov.au/xml/uvvalues.xml");
}

#[test]
fn temperature_is_read_from_the_observation() {
    let details = WeatherDetails {
        data: WeatherData { temp: 23_400, temp_feels_like: 21_000, ..WeatherData::default() },
        ..WeatherDetails::default()
    };
    assert_eq!(WeatherAPI::new().current_temperature(&details), 23_400);
}
