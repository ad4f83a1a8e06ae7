use solar_monitor::background::{
    Action, BackgroundTask, BackgroundTaskError, CycleOutcome, Event, PollerState,
};
use solar_monitor::forward::Endpoint;
use solar_monitor::goodwe::GoodWeSemsAPIError;
use solar_monitor::reading::{fuse, Reading, SolarPartial};
use solar_monitor::weather::WeatherAPIError;

fn sink() -> Option<Endpoint> {
    Some(Endpoint { url: "https://sink.example/ingest".to_string(), api_key: "k".to_string() })
}

fn partial() -> SolarPartial {
    SolarPartial { current_power_mw: 1_234_500, raw_payload: b"{\"data\":{}}".to_vec() }
}

fn fetched(uv: Result<i64, WeatherAPIError>, weather: Result<i64, WeatherAPIError>) -> Event {
    Event::Fetched { solar: Ok(partial()), uv, weather, observed_at: 42 }
}

fn failed(e: GoodWeSemsAPIError) -> Event {
    Event::Fetched { solar: Err(e), uv: Ok(7_000), weather: Ok(25_000), observed_at: 42 }
}

fn asleep(outcome: CycleOutcome) -> Action {
    Action::Sleep { seconds: 60, outcome }
}

#[test]
fn fusion_without_enrichments_carries_neither() {
    let r = fuse(partial(), None, None, 99);
    assert_eq!(
        r,
        Reading {
            current_power_mw: 1_234_500,
            raw_payload: b"{\"data\":{}}".to_vec(),
            uv_index: None,
            temperature: None,
            observed_at: 99,
        }
    );
}

#[test]
fn fusion_takes_each_enrichment_that_is_there() {
    let both = fuse(partial(), Some(7_000), Some(25_500), 1);
    assert_eq!(both.uv_index, Some(7_000));
    assert_eq!(both.temperature, Some(25_500));
    assert_eq!(both.current_power_mw, 1_234_500);
    assert_eq!(both.raw_payload, partial().raw_payload);
    assert_eq!(both.observed_at, 1);
    let uv_only = fuse(partial(), Some(7_000), None, 2);
    assert_eq!(uv_only.uv_index, Some(7_000));
    assert_eq!(uv_only.temperature, None);
    let temperature_only = fuse(partial(), None, Some(-1_500), 3);
    assert_eq!(temperature_only.uv_index, None);
    assert_eq!(temperature_only.temperature, Some(-1_500));
}

#[test]
fn new_task_is_idle() {
    let task = BackgroundTask::new(None);
    assert_eq!(task.state(), PollerState::Idle);
    assert_eq!(*task.forward_target(), None);
    let forwarding = BackgroundTask::new(sink());
    assert_eq!(*forwarding.forward_target(), sink());
}

#[test]
fn cycle_without_destination_stores_and_sleeps() {
    let mut task = BackgroundTask::new(None);
    assert_eq!(task.start(), Action::Fetch);
    assert_eq!(task.state(), PollerState::Fetching);
    let action = task.step(fetched(Ok(7_000), Ok(25_000)));
    assert_eq!(action, Action::Persist(fuse(partial(), Some(7_000), Some(25_000), 42)));
    assert_eq!(task.state(), PollerState::Persisting);
    assert_eq!(task.step(Event::Persisted), asleep(CycleOutcome::Stored));
    assert_eq!(task.state(), PollerState::Sleeping);
    assert_eq!(task.step(Event::TimerFired), Action::Begin);
    assert_eq!(task.state(), PollerState::Idle);
}

#[test]
fn cycle_with_destination_forwards_after_storing() {
    let mut task = BackgroundTask::new(sink());
    assert_eq!(task.start(), Action::Fetch);
    let _ = task.step(fetched(Ok(1), Ok(2)));
    assert_eq!(task.step(Event::Persisted), Action::Forward);
    assert_eq!(task.state(), PollerState::Forwarding);
    assert_eq!(task.step(Event::Forwarded), asleep(CycleOutcome::Forwarded));
    assert_eq!(task.state(), PollerState::Sleeping);
    assert_eq!(*task.forward_target(), sink());
}

#[test]
fn failed_weather_fetch_does_not_keep_a_reading_from_the_store() {
    let cases: Vec<(Result<i64, WeatherAPIError>, Result<i64, WeatherAPIError>, Option<i64>, Option<i64>)> = vec![
        (Err(WeatherAPIError::Http), Err(WeatherAPIError::Http), None, None),
        (Err(WeatherAPIError::Xml), Ok(25_000), None, Some(25_000)),
        (Err(WeatherAPIError::Unknown), Ok(25_000), None, Some(25_000)),
        (Ok(7_000), Err(WeatherAPIError::Http), Some(7_000), None),
        (Ok(7_000), Ok(25_000), Some(7_000), Some(25_000)),
    ];
    for (uv, weather, uv_index, temperature) in cases {
        let mut task = BackgroundTask::new(None);
        let _ = task.start();
        let action = task.step(fetched(uv, weather));
        assert_eq!(action, Action::Persist(fuse(partial(), uv_index, temperature, 42)));
        assert_eq!(task.state(), PollerState::Persisting);
    }
}

#[test]
fn failed_solar_fetch_stores_nothing() {
    let errors: Vec<GoodWeSemsAPIError> =
        vec![GoodWeSemsAPIError::Auth, GoodWeSemsAPIError::Upstream, GoodWeSemsAPIError::Database];
    for e in errors {
        let mut task = BackgroundTask::new(sink());
        let _ = task.start();
        let action = task.step(failed(e));
        assert_eq!(action, asleep(CycleOutcome::Aborted(BackgroundTaskError::SolarAPI(e))));
        assert_eq!(task.state(), PollerState::Sleeping);
        // Whatever is reported now, no reading is stored before the next cycle.
        assert_eq!(task.step(Event::Persisted), Action::Ignore);
        assert_eq!(task.step(fetched(Ok(1), Ok(2))), Action::Ignore);
        assert_eq!(task.state(), PollerState::Sleeping);
    }
}

#[test]
fn failed_store_loses_the_reading_of_the_cycle() {
    let mut task = BackgroundTask::new(sink());
    let _ = task.start();
    let _ = task.step(fetched(Ok(1), Ok(2)));
    assert_eq!(task.step(Event::PersistFailed), asleep(CycleOutcome::Aborted(BackgroundTaskError::Database)));
    assert_eq!(task.state(), PollerState::Sleeping);
}

#[test]
fn failed_push_is_reported_and_no_more() {
    let mut task = BackgroundTask::new(sink());
    let _ = task.start();
    let _ = task.step(fetched(Ok(1), Ok(2)));
    let _ = task.step(Event::Persisted);
    assert_eq!(task.step(Event::ForwardFailed), asleep(CycleOutcome::ForwardFailed));
    assert_eq!(task.state(), PollerState::Sleeping);
    let mut faulty = BackgroundTask::new(sink());
    let _ = faulty.start();
    let _ = faulty.step(fetched(Ok(1), Ok(2)));
    let _ = faulty.step(Event::Persisted);
    assert_eq!(faulty.step(Event::Fault), asleep(CycleOutcome::ForwardFailed));
}

#[test]
fn fault_in_a_cycle_is_followed_by_another_cycle() {
    let mut task = BackgroundTask::new(None);
    assert_eq!(task.start(), Action::Fetch);
    // The solar fetch ends abnormally.
    let action = task.step(Event::Fault);
    assert_eq!(action, asleep(CycleOutcome::Aborted(BackgroundTaskError::Unknown)));
    assert_eq!(task.state(), PollerState::Sleeping);
    // After the fixed interval the timer fires and the next cycle runs.
    assert_eq!(task.step(Event::TimerFired), Action::Begin);
    assert_eq!(task.state(), PollerState::Idle);
    assert_eq!(task.start(), Action::Fetch);
    assert_eq!(task.state(), PollerState::Fetching);
    let stored = task.step(fetched(Err(WeatherAPIError::Http), Ok(20_000)));
    assert_eq!(stored, Action::Persist(fuse(partial(), None, Some(20_000), 42)));
}

#[test]
fn fault_while_storing_ends_the_cycle() {
    let mut task = BackgroundTask::new(None);
    let _ = task.start();
    let _ = task.step(fetched(Ok(1), Ok(2)));
    assert_eq!(task.step(Event::Fault), asleep(CycleOutcome::Aborted(BackgroundTaskError::Unknown)));
    assert_eq!(task.state(), PollerState::Sleeping);
}

#[test]
fn report_out_of_turn_ends_the_cycle() {
    let mut fetching = BackgroundTask::new(None);
    let _ = fetching.start();
    assert_eq!(fetching.step(Event::Persisted), asleep(CycleOutcome::Aborted(BackgroundTaskError::Unknown)));
    assert_eq!(fetching.state(), PollerState::Sleeping);
    let mut persisting = BackgroundTask::new(None);
    let _ = persisting.start();
    let _ = persisting.step(fetched(Ok(1), Ok(2)));
    assert_eq!(persisting.step(Event::TimerFired), asleep(CycleOutcome::Aborted(BackgroundTaskError::Unknown)));
    assert_eq!(persisting.state(), PollerState::Sleeping);
}

#[test]
fn cycles_do_not_overlap() {
    let mut task = BackgroundTask::new(None);
    assert_eq!(task.start(), Action::Fetch);
    assert_eq!(task.start(), Action::Ignore);
    assert_eq!(task.state(), PollerState::Fetching);
    let _ = task.step(fetched(Ok(1), Ok(2)));
    assert_eq!(task.start(), Action::Ignore);
    assert_eq!(task.state(), PollerState::Persisting);
    let _ = task.step(Event::Persisted);
    assert_eq!(task.start(), Action::Ignore);
    assert_eq!(task.state(), PollerState::Sleeping);
}

#[test]
fn idle_task_asks_to_be_started() {
    let mut task = BackgroundTask::new(None);
    assert_eq!(task.step(Event::TimerFired), Action::Begin);
    assert_eq!(task.step(Event::Fault), Action::Begin);
    assert_eq!(task.step(Event::Persisted), Action::Begin);
    assert_eq!(task.state(), PollerState::Idle);
}

#[test]
fn sleeping_task_wakes_on_the_timer_only() {
    let mut task = BackgroundTask::new(None);
    let _ = task.start();
    let _ = task.step(Event::Fault);
    assert_eq!(task.step(Event::Fault), Action::Ignore);
    assert_eq!(task.step(Event::Forwarded), Action::Ignore);
    assert_eq!(task.step(Event::PersistFailed), Action::Ignore);
    assert_eq!(task.state(), PollerState::Sleeping);
    assert_eq!(task.step(Event::TimerFired), Action::Begin);
}

#[test]
fn task_survives_many_bad_cycles() {
    let mut task = BackgroundTask::new(sink());
    let mut action = task.start();
    let mut slept: u32 = 0;
    let mut round: u32 = 0;
    while slept < 50 {
        action = match action {
            Action::Begin => task.start(),
            Action::Fetch => {
                round += 1;
                match round % 4 {
                    0 => task.step(Event::Fault),
                    1 => task.step(failed(GoodWeSemsAPIError::Auth)),
                    2 => task.step(fetched(Err(WeatherAPIError::Http), Err(WeatherAPIError::Xml))),
                    _ => task.step(fetched(Ok(1), Ok(2))),
                }
            },
            Action::Persist(_) => {
                if round % 4 == 2 {
                    task.step(Event::PersistFailed)
                } else {
                    task.step(Event::Persisted)
                }
            },
            Action::Forward => task.step(Event::ForwardFailed),
            Action::Sleep { seconds, .. } => {
                assert_eq!(seconds, 60);
                slept += 1;
                task.step(Event::TimerFired)
            },
            Action::Ignore => panic!("a report was ignored in a running loop"),
        };
    }
    assert_eq!(round, 50);
}
