use solar_monitor::current::{health, last_of_yesterday, solar_current};
use solar_monitor::forward::{forward_request, Endpoint, ForwardPayload, API_KEY_HEADER};
use solar_monitor::goodwe::types::{Kpi, PlantDetailsByPowerStationIdResponse, PlantDetailsData, SavedSolarData};
use solar_monitor::goodwe::GoodWeSemsAPI;
use solar_monitor::reading::Reading;
use solar_monitor::types::{AppError, SolarCurrentStatistics, SolarCurrentStatisticsAverages};

// 2024-01-02T03:00:00Z, which is 11:00 on 2 January eight hours east.
const NOW: i64 = 1_704_164_400_000;

// 2024-01-01T16:00:00Z, which is midnight of 2 January eight hours east.
const LOCAL_MIDNIGHT: i64 = 1_704_124_800_000;

const DAY: i64 = 86_400_000;

fn seen(at: i64, tag: u8) -> Reading {
    Reading {
        current_power_mw: tag as i64 * 1000,
        raw_payload: vec![tag],
        uv_index: None,
        temperature: None,
        observed_at: at,
    }
}

fn details(pac: i64, power: i64) -> PlantDetailsByPowerStationIdResponse {
    PlantDetailsByPowerStationIdResponse {
        data: PlantDetailsData {
            kpi: Kpi { pac, power, month_generation: 312_400, total_power: 9_120_000, ..Kpi::default() },
        },
    }
}

fn averages() -> SolarCurrentStatistics {
    SolarCurrentStatistics {
        averages: SolarCurrentStatisticsAverages {
            last_15_mins: Some(251_200),
            last_1_hour: None,
            last_3_hours: Some(100_000),
        },
    }
}

#[test]
fn latest_reading_is_the_one_observed_last() {
    let store: Vec<Reading> = vec![seen(10, 1), seen(30, 2), seen(20, 3)];
    assert_eq!(GoodWeSemsAPI::get_latest_saved_solar_data(&store), Some(&seen(30, 2)));
    let twins: Vec<Reading> = vec![seen(30, 1), seen(30, 2), seen(20, 3)];
    assert_eq!(GoodWeSemsAPI::get_latest_saved_solar_data(&twins), Some(&seen(30, 2)));
    let empty: Vec<Reading> = Vec::new();
    assert_eq!(GoodWeSemsAPI::get_latest_saved_solar_data(&empty), None);
    let single: Vec<Reading> = vec![seen(i64::MIN, 9)];
    assert_eq!(GoodWeSemsAPI::get_latest_saved_solar_data(&single), Some(&seen(i64::MIN, 9)));
}

#[test]
fn last_of_yesterday_is_the_latest_reading_of_the_day_before() {
    let store: Vec<Reading> = vec![
        seen(LOCAL_MIDNIGHT - DAY - 1, 1),
        seen(LOCAL_MIDNIGHT - DAY, 2),
        seen(LOCAL_MIDNIGHT - 1, 3),
        seen(LOCAL_MIDNIGHT - 2, 4),
        seen(LOCAL_MIDNIGHT, 5),
        seen(NOW, 6),
    ];
    assert_eq!(last_of_yesterday(&store, NOW), Some(&seen(LOCAL_MIDNIGHT - 1, 3)));
    // On the day after, yesterday is 2 January.
    assert_eq!(last_of_yesterday(&store, NOW + DAY), Some(&seen(NOW, 6)));
}

#[test]
fn last_of_yesterday_is_none_for_a_day_without_readings() {
    let store: Vec<Reading> = vec![seen(LOCAL_MIDNIGHT, 5), seen(NOW, 6), seen(LOCAL_MIDNIGHT - DAY - 1, 1)];
    assert_eq!(last_of_yesterday(&store, NOW), None);
    let empty: Vec<Reading> = Vec::new();
    assert_eq!(last_of_yesterday(&empty, NOW), None);
    assert_eq!(last_of_yesterday(&store, i64::MIN), None);
}

#[test]
fn current_answer_reads_the_key_figures() {
    let latest = SavedSolarData { raw_data: details(2_512_000, 14_200), temperature: Some(23_400), uv_level: None };
    let before = details(0, 21_700);
    let r = solar_current(&latest, Some(&before), averages());
    assert_eq!(r.current_production_wh, 2_512_000);
    assert_eq!(r.today_production_kwh, 14_200);
    assert_eq!(r.yesterday_production_kwh, 21_700);
    assert_eq!(r.month_production_kwh, 312_400);
    assert_eq!(r.all_time_production_kwh, 9_120_000);
    assert_eq!(r.uv_level, None);
    assert_eq!(r.temperature, Some(23_400));
    assert_eq!(r.statistics, averages());
}

#[test]
fn current_answer_reports_zero_for_a_yesterday_without_readings() {
    let latest = SavedSolarData { raw_data: details(1, 2), temperature: None, uv_level: Some(11_000) };
    let r = solar_current(&latest, None, averages());
    assert_eq!(r.yesterday_production_kwh, 0);
    assert_eq!(r.uv_level, Some(11_000));
    assert_eq!(r.temperature, None);
}

#[test]
fn health_follows_the_polling_task() {
    assert_eq!(health(None), 204);
    assert_eq!(health(Some(false)), 204);
    assert_eq!(health(Some(true)), 503);
}

#[test]
fn query_failure_is_a_500_with_its_cause() {
    let failure = AppError::from("pool timed out".to_string());
    assert_eq!(failure, AppError::Error("pool timed out".to_string()));
    assert_eq!(failure.into_response(), (500, "Something went wrong: pool timed out".to_string()));
    assert_eq!(AppError::from(String::new()).into_response(), (500, "Something went wrong: ".to_string()));
    assert_eq!(AppError::STATUS, 500);
}

#[test]
fn forwarding_is_skipped_without_a_destination() {
    let latest = seen(NOW, 7);
    assert_eq!(forward_request(&None, &latest, averages().averages), None);
}

#[test]
fn forward_request_carries_the_latest_reading_and_the_averages() {
    let target = Some(Endpoint { url: "https://sink.example/ingest".to_string(), api_key: "s3cret".to_string() });
    let latest = Reading {
        current_power_mw: 2_512_000,
        raw_payload: b"{}".to_vec(),
        uv_index: Some(5_400),
        temperature: Some(23_400),
        observed_at: NOW,
    };
    let request = forward_request(&target, &latest, averages().averages).unwrap();
    assert_eq!(request.url, "https://sink.example/ingest");
    assert_eq!(request.api_key, "s3cret");
    assert_eq!(
        request.body,
        ForwardPayload { current_power: 2_512_000, averages: averages().averages, uv: Some(5_400) }
    );
    assert_eq!(API_KEY_HEADER, "api-key");
}
