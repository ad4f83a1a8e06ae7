use solar_monitor::goodwe::types::{Kpi, PlantDetailsByPowerStationIdResponse, PlantDetailsData};
use solar_monitor::goodwe::{
    Credential, GoodWeSemsAPI, GoodWeSemsAPIError, GET_POWERSTATION_DETAILS_URL, LOGIN_TOKEN, LOGIN_URL,
    POWERSTATION_FIELD, TOKEN_HEADER,
};

const ANONYMOUS: &str =
    "{\"uid\":\"\",\"timestamp\":0,\"token\":\"\",\"client\":\"web\",\"version\":\"\",\"language\":\"en\"}";

const T0: i64 = 1_704_110_400_000;

fn session(cached: Vec<Credential>) -> GoodWeSemsAPI {
    GoodWeSemsAPI::new("me@example.org".to_string(), "hunter2".to_string(), "station-1".to_string(), cached)
}

fn issued(at: i64, tag: u8) -> Credential {
    Credential { login_data: vec![b'{', tag, b'}'], issued_at: at }
}

#[test]
fn empty_cache_asks_for_a_login() {
    let api = session(Vec::new());
    assert_eq!(api.get_new_or_cached_login_data(T0), None);
    assert_eq!(api.get_new_or_cached_login_data(i64::MIN), None);
}

#[test]
fn fresh_credential_is_reused() {
    let api = session(vec![issued(T0, 1)]);
    assert_eq!(api.get_new_or_cached_login_data(T0), Some(&issued(T0, 1)));
    assert_eq!(api.get_new_or_cached_login_data(T0 + 1), Some(&issued(T0, 1)));
    assert_eq!(api.get_new_or_cached_login_data(T0 + 299_999), Some(&issued(T0, 1)));
}

#[test]
fn credential_is_stale_once_its_age_exceeds_five_minutes() {
    let api = session(vec![issued(T0, 1)]);
    assert_eq!(api.get_new_or_cached_login_data(T0 + 300_000), Some(&issued(T0, 1)));
    assert_eq!(api.get_new_or_cached_login_data(T0 + 300_001), None);
    assert_eq!(api.get_new_or_cached_login_data(T0 + 3_600_000), None);
    assert_eq!(api.get_new_or_cached_login_data(i64::MAX), None);
}

#[test]
fn credential_issued_after_now_is_not_stale() {
    let api = session(vec![issued(T0, 1)]);
    assert_eq!(api.get_new_or_cached_login_data(T0 - 1), Some(&issued(T0, 1)));
    assert_eq!(api.get_new_or_cached_login_data(i64::MIN), Some(&issued(T0, 1)));
}

#[test]
fn only_the_newest_credential_counts() {
    let api = session(vec![issued(T0, 1), issued(T0 + 600_000, 2), issued(T0 + 100_000, 3)]);
    assert_eq!(api.get_new_or_cached_login_data(T0 + 700_000), Some(&issued(T0 + 600_000, 2)));
    // An older credential is never handed out, fresh or not.
    let old = session(vec![issued(T0 + 100_000, 3), issued(T0 - 600_000, 1)]);
    assert_eq!(old.get_new_or_cached_login_data(T0 + 100_000), Some(&issued(T0 + 100_000, 3)));
    assert_eq!(old.get_new_or_cached_login_data(T0 + 500_000), None);
    // Of two issued at the same instant the one appended last is current.
    let twins = session(vec![issued(T0, 1), issued(T0, 2)]);
    assert_eq!(twins.get_new_or_cached_login_data(T0), Some(&issued(T0, 2)));
}

#[test]
fn two_calls_within_the_threshold_share_one_login() {
    let mut api = session(Vec::new());
    assert_eq!(api.get_new_or_cached_login_data(T0), None);
    assert_eq!(api.login_and_save(Ok(ANONYMOUS.as_bytes().to_vec()), T0), Ok(()));
    let first = api.get_new_or_cached_login_data(T0).cloned();
    let second = api.get_new_or_cached_login_data(T0 + 300_000).cloned();
    assert_eq!(first, Some(Credential { login_data: ANONYMOUS.as_bytes().to_vec(), issued_at: T0 }));
    assert_eq!(first, second);
    // Past the threshold the next caller logs in again, and the new credential takes over.
    assert_eq!(api.get_new_or_cached_login_data(T0 + 300_001), None);
    assert_eq!(api.login_and_save(Ok(vec![b'x']), T0 + 300_001), Ok(()));
    assert_eq!(
        api.get_new_or_cached_login_data(T0 + 300_002),
        Some(&Credential { login_data: vec![b'x'], issued_at: T0 + 300_001 })
    );
}

#[test]
fn failed_login_writes_nothing() {
    let mut api = session(vec![issued(T0, 1)]);
    let later: i64 = T0 + 400_000;
    assert_eq!(api.get_new_or_cached_login_data(later), None);
    assert_eq!(api.login_and_save(Err(GoodWeSemsAPIError::Auth), later), Err(GoodWeSemsAPIError::Auth));
    assert_eq!(api.get_new_or_cached_login_data(later), None);
    assert_eq!(api.get_new_or_cached_login_data(T0 + 1), Some(&issued(T0, 1)));
    assert_eq!(api.login_and_save(Err(GoodWeSemsAPIError::Database), later), Err(GoodWeSemsAPIError::Database));
    assert_eq!(api.login_and_save(Err(GoodWeSemsAPIError::Upstream), later), Err(GoodWeSemsAPIError::Upstream));
    assert_eq!(api.get_new_or_cached_login_data(later), None);
}

#[test]
fn login_call_carries_the_account_and_the_fixed_token() {
    let api = session(Vec::new());
    let call = api.login();
    assert_eq!(call.url, LOGIN_URL);
    assert_eq!(call.url, "https://www.semsportal.com/api/v2/Common/CrossLogin");
    assert_eq!(call.body.account, "me@example.org");
    assert_eq!(call.body.pwd, "hunter2");
    assert_eq!(call.token, LOGIN_TOKEN);
    assert_eq!(TOKEN_HEADER, "token");
    assert_eq!(POWERSTATION_FIELD, "powerStationId");
}

#[test]
fn plant_details_call_presents_the_login_document_in_base64() {
    let api = session(Vec::new());
    let anonymous = Credential { login_data: ANONYMOUS.as_bytes().to_vec(), issued_at: T0 };
    let call = api.get_solar_data(&anonymous);
    assert_eq!(call.url, GET_POWERSTATION_DETAILS_URL);
    assert_eq!(call.url, "https://au.semsportal.com/api/v3/PowerStation/GetPlantDetailByPowerstationId");
    assert_eq!(call.powerstation_id, "station-1");
    assert_eq!(call.token, LOGIN_TOKEN);
    assert_ne!(call.token.as_bytes(), ANONYMOUS.as_bytes());
}

#[test]
fn base64_token_is_padded_to_a_multiple_of_four() {
    let api = session(Vec::new());
    let texts: Vec<(&str, &str)> = vec![
        ("", ""),
        ("f", "Zg=="),
        ("fo", "Zm8="),
        ("foo", "Zm9v"),
        ("foob", "Zm9vYg=="),
        ("fooba", "Zm9vYmE="),
        ("foobar", "Zm9vYmFy"),
    ];
    for (plain, encoded) in texts {
        let credential = Credential { login_data: plain.as_bytes().to_vec(), issued_at: 0 };
        assert_eq!(api.get_solar_data(&credential).token, encoded);
    }
    let binary = Credential { login_data: vec![0xfb, 0xff, 0xfe], issued_at: 0 };
    assert_eq!(api.get_solar_data(&binary).token, "+//+");
}

#[test]
fn plant_details_call_takes_the_token_it_is_given() {
    let api = session(Vec::new());
    let call = api.plant_details_call("abc".to_string());
    assert_eq!(call.token, "abc");
    assert_eq!(call.powerstation_id, "station-1");
    assert_eq!(call.url, GET_POWERSTATION_DETAILS_URL);
}

#[test]
fn partial_keeps_the_power_and_the_payload() {
    let details = PlantDetailsByPowerStationIdResponse {
        data: PlantDetailsData {
            kpi: Kpi {
                month_generation: 312_400,
                pac: 2_512_000,
                power: 14_200,
                total_power: 9_120_000,
                day_income: 3_550,
                total_income: 2_280_000,
                yield_rate: 250,
                currency: "AUD".to_string(),
            },
        },
    };
    let partial = details.into_partial(b"raw".to_vec());
    assert_eq!(partial.current_power_mw, 2_512_000);
    assert_eq!(partial.raw_payload, b"raw".to_vec());
}
