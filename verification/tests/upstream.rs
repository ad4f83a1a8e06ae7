use solar_monitor::goodwe::GoodWeSemsAPIError;
use solar_monitor::upstream::Exchange;
use solar_monitor::weather::WeatherAPIError;

fn answered(status: u16, readable: bool) -> Exchange {
    Exchange::Answered { status, readable }
}

#[test]
fn exchange_succeeds_on_a_readable_answer_of_the_two_hundreds() {
    assert!(answered(200, true).is_success());
    assert!(answered(204, true).is_success());
    assert!(answered(299, true).is_success());
    assert!(!answered(199, true).is_success());
    assert!(!answered(300, true).is_success());
    assert!(!answered(401, true).is_success());
    assert!(!answered(500, true).is_success());
    assert!(!answered(200, false).is_success());
    assert!(!Exchange::Unreachable.is_success());
    assert!(!answered(0, true).is_success());
    assert!(!answered(u16::MAX, true).is_success());
}

#[test]
fn exchange_is_accepted_whatever_its_body() {
    assert!(answered(200, false).is_accepted());
    assert!(answered(299, true).is_accepted());
    assert!(!answered(404, true).is_accepted());
    assert!(!answered(302, false).is_accepted());
    assert!(!Exchange::Unreachable.is_accepted());
}

#[test]
fn failed_login_is_an_auth_error() {
    assert_eq!(answered(200, true).login_result(), Ok(()));
    assert_eq!(answered(401, true).login_result(), Err(GoodWeSemsAPIError::Auth));
    assert_eq!(answered(500, false).login_result(), Err(GoodWeSemsAPIError::Auth));
    assert_eq!(answered(200, false).login_result(), Err(GoodWeSemsAPIError::Auth));
    assert_eq!(Exchange::Unreachable.login_result(), Err(GoodWeSemsAPIError::Auth));
}

#[test]
fn failed_plant_details_call_is_an_upstream_error() {
    assert_eq!(answered(200, true).plant_details_result(), Ok(()));
    assert_eq!(answered(401, true).plant_details_result(), Err(GoodWeSemsAPIError::Upstream));
    assert_eq!(answered(403, false).plant_details_result(), Err(GoodWeSemsAPIError::Upstream));
    assert_eq!(answered(200, false).plant_details_result(), Err(GoodWeSemsAPIError::Upstream));
    assert_eq!(Exchange::Unreachable.plant_details_result(), Err(GoodWeSemsAPIError::Upstream));
}

#[test]
fn unreadable_uv_document_is_an_xml_error() {
    assert_eq!(answered(200, true).uv_document_result(), Ok(()));
    assert_eq!(answered(200, false).uv_document_result(), Err(WeatherAPIError::Xml));
    assert_eq!(answered(503, false).uv_document_result(), Err(WeatherAPIError::Http));
    assert_eq!(answered(503, true).uv_document_result(), Err(WeatherAPIError::Http));
    assert_eq!(Exchange::Unreachable.uv_document_result(), Err(WeatherAPIError::Http));
}

#[test]
fn failed_observation_is_a_http_error() {
    assert_eq!(answered(200, true).observation_result(), Ok(()));
    assert_eq!(answered(200, false).observation_result(), Err(WeatherAPIError::Http));
    assert_eq!(answered(404, true).observation_result(), Err(WeatherAPIError::Http));
    assert_eq!(Exchange::Unreachable.observation_result(), Err(WeatherAPIError::Http));
}
