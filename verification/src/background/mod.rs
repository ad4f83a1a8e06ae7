//! The polling cycle as a state machine.
//!
//! One cycle runs `Idle → Fetching → Persisting → (Forwarding) → Sleeping`,
//! and the timer brings the task back to `Idle`. The task decides; its caller
//! acts: each [`Action`] names the outside work to do next, and the outcome of
//! that work comes back as an [`Event`]. Whatever comes back, a cycle ends in
//! `Sleeping`: a failure ends the cycle it occurred in and nothing else.

use crate::clock::POLL_INTERVAL_SECS;
use crate::forward::Endpoint;
use crate::goodwe::GoodWeSemsAPIError;
use crate::reading::{fuse, fused, Reading, ReadingView, SolarPartial, SolarPartialView};
use crate::weather::WeatherAPIError;
use vstd::prelude::*;

verus! {

/// Why a cycle was given up.
#[derive(Clone, Copy, PartialEq, Eq, Structural, Debug)]
pub enum BackgroundTaskError {
    /// The login or the solar fetch failed.
    SolarAPI(GoodWeSemsAPIError),
    /// The reading could not be stored; it is lost for this cycle.
    Database,
    /// The cycle ended abnormally, or reported something that its state does
    /// not wait for.
    Unknown,
}

/// Where the task is in its cycle.
#[derive(Clone, Copy, PartialEq, Eq, Structural, Debug)]
pub enum PollerState {
    Idle,
    Fetching,
    Persisting,
    Forwarding,
    Sleeping,
}

/// How a cycle ended.
#[derive(Clone, Copy, PartialEq, Eq, Structural, Debug)]
pub enum CycleOutcome {
    /// The reading was stored; no destination is configured.
    Stored,
    /// The reading was stored and forwarded.
    Forwarded,
    /// The reading was stored; forwarding failed, which is only reported.
    ForwardFailed,
    /// The cycle was given up: nothing is known to have been stored.
    Aborted(BackgroundTaskError),
}

/// What the outside world reports to the task.
#[derive(Debug, PartialEq, Eq)]
pub enum Event {
    /// The sleep is over.
    TimerFired,
    /// The fetches have all returned, each with its own result.
    Fetched {
        solar: Result<SolarPartial, GoodWeSemsAPIError>,
        uv: Result<i64, WeatherAPIError>,
        weather: Result<i64, WeatherAPIError>,
        observed_at: i64,
    },
    /// The reading was stored.
    Persisted,
    /// The store refused the reading.
    PersistFailed,
    /// The sink took the push.
    Forwarded,
    /// The push failed.
    ForwardFailed,
    /// The work of the cycle ended abnormally.
    Fault,
}

pub enum EventView {
    TimerFired,
    Fetched {
        solar: Result<SolarPartialView, GoodWeSemsAPIError>,
        uv: Result<i64, WeatherAPIError>,
        weather: Result<i64, WeatherAPIError>,
        observed_at: i64,
    },
    Persisted,
    PersistFailed,
    Forwarded,
    ForwardFailed,
    Fault,
}

impl View for Event {
    type V = EventView;

    open spec fn view(&self) -> EventView {
        match *self {
            Event::TimerFired => EventView::TimerFired,
            Event::Fetched { solar, uv, weather, observed_at } => EventView::Fetched {
                solar: match solar {
                    Ok(s) => Ok(s@),
                    Err(e) => Err(e),
                },
                uv,
                weather,
                observed_at,
            },
            Event::Persisted => EventView::Persisted,
            Event::PersistFailed => EventView::PersistFailed,
            Event::Forwarded => EventView::Forwarded,
            Event::ForwardFailed => EventView::ForwardFailed,
            Event::Fault => EventView::Fault,
        }
    }
}

/// What the task asks its caller to do next.
#[derive(Clone, Debug, PartialEq, Eq)]
pub enum Action {
    /// Call [`BackgroundTask::start`]: the task is idle.
    Begin,
    /// Make sure of a credential, run the three fetches, and report `Fetched`.
    Fetch,
    /// Store this reading and report `Persisted` or `PersistFailed`.
    Persist(Reading),
    /// Push the latest reading to the destination and report `Forwarded` or
    /// `ForwardFailed`.
    Forward,
    /// Log the outcome, sleep for `seconds` and report `TimerFired`.
    Sleep { seconds: u64, outcome: CycleOutcome },
    /// Nothing: the task does not wait for what was reported.
    Ignore,
}

pub enum ActionView {
    Begin,
    Fetch,
    Persist(ReadingView),
    Forward,
    Sleep { seconds: u64, outcome: CycleOutcome },
    Ignore,
}

impl View for Action {
    type V = ActionView;

    open spec fn view(&self) -> ActionView {
        match *self {
            Action::Begin => ActionView::Begin,
            Action::Fetch => ActionView::Fetch,
            Action::Persist(r) => ActionView::Persist(r@),
            Action::Forward => ActionView::Forward,
            Action::Sleep { seconds, outcome } => ActionView::Sleep { seconds, outcome },
            Action::Ignore => ActionView::Ignore,
        }
    }
}

/// A failed enrichment is no value at all.
pub open spec fn enrichment(fetched: Result<i64, WeatherAPIError>) -> Option<i64> {
    match fetched {
        Ok(v) => Some(v),
        Err(_) => None,
    }
}

/// The end of a cycle: sleep for the fixed interval and log `outcome`.
pub open spec fn sleep(outcome: CycleOutcome) -> ActionView {
    ActionView::Sleep { seconds: 60, outcome }
}

/// The state that follows `state` on `event`, and what is to be done.
/// `forwarding` says whether a destination is configured.
pub open spec fn transition(state: PollerState, forwarding: bool, event: EventView) -> (
    PollerState,
    ActionView,
) {
    match state {
        PollerState::Idle => (PollerState::Idle, ActionView::Begin),
        PollerState::Fetching => match event {
            EventView::Fetched { solar: Ok(partial), uv, weather, observed_at } => (
                PollerState::Persisting,
                ActionView::Persist(fused(partial, enrichment(uv), enrichment(weather), observed_at)),
            ),
            EventView::Fetched { solar: Err(e), .. } => (
                PollerState::Sleeping,
                sleep(CycleOutcome::Aborted(BackgroundTaskError::SolarAPI(e))),
            ),
            _ => (PollerState::Sleeping, sleep(CycleOutcome::Aborted(BackgroundTaskError::Unknown))),
        },
        PollerState::Persisting => match event {
            EventView::Persisted => if forwarding {
                (PollerState::Forwarding, ActionView::Forward)
            } else {
                (PollerState::Sleeping, sleep(CycleOutcome::Stored))
            },
            EventView::PersistFailed => (
                PollerState::Sleeping,
                sleep(CycleOutcome::Aborted(BackgroundTaskError::Database)),
            ),
            _ => (PollerState::Sleeping, sleep(CycleOutcome::Aborted(BackgroundTaskError::Unknown))),
        },
        PollerState::Forwarding => match event {
            EventView::Forwarded => (PollerState::Sleeping, sleep(CycleOutcome::Forwarded)),
            _ => (PollerState::Sleeping, sleep(CycleOutcome::ForwardFailed)),
        },
        PollerState::Sleeping => match event {
            EventView::TimerFired => (PollerState::Idle, ActionView::Begin),
            _ => (PollerState::Sleeping, ActionView::Ignore),
        },
    }
}

/// How far a state is into the cycle.
pub open spec fn progress(state: PollerState) -> int {
    match state {
        PollerState::Idle => 0,
        PollerState::Fetching => 1,
        PollerState::Persisting => 2,
        PollerState::Forwarding => 3,
        PollerState::Sleeping => 4,
    }
}

/// The state is one of a running cycle.
pub open spec fn in_cycle(state: PollerState) -> bool {
    state == PollerState::Fetching || state == PollerState::Persisting || state
        == PollerState::Forwarding
}

/// The polling task: the state of its cycle and where, if anywhere, stored
/// readings are forwarded to.
#[derive(Clone, Debug)]
pub struct BackgroundTask {
    state: PollerState,
    forward_target: Option<Endpoint>,
}

impl BackgroundTask {
    /// The state of the cycle.
    pub closed spec fn current(self) -> PollerState {
        self.state
    }

    /// The configured destination.
    pub closed spec fn target(self) -> Option<Endpoint> {
        self.forward_target
    }

    /// An idle task. With `forward_target` absent the forwarding step is left
    /// out of every cycle.
    pub fn new(forward_target: Option<Endpoint>) -> (task: BackgroundTask)
        ensures
            task.current() == PollerState::Idle,
            task.target() == forward_target,
    {
        BackgroundTask { state: PollerState::Idle, forward_target }
    }

    pub fn state(&self) -> (s: PollerState)
        ensures
            s == self.current(),
    {
        self.state
    }

    pub fn forward_target(&self) -> (t: &Option<Endpoint>)
        ensures
            *t == self.target(),
    {
        &self.forward_target
    }

    /// Begins a cycle. An idle task starts to fetch. A task that is in a
    /// cycle or asleep stays as it is: cycles never overlap.
    pub fn start(&mut self) -> (action: Action)
        ensures
            final(self).target() == old(self).target(),
            old(self).current() == PollerState::Idle ==> final(self).current()
                == PollerState::Fetching && action@ == ActionView::Fetch,
            old(self).current() != PollerState::Idle ==> final(self).current() == old(
                self,
            ).current() && action@ == ActionView::Ignore,
    {
        match self.state {
            PollerState::Idle => {
                self.state = PollerState::Fetching;
                Action::Fetch
            },
            _ => Action::Ignore,
        }
    }

    /// Takes the report of the outside world and says what to do next.
    ///
    /// A solar failure, a store failure, a fault or a report that the state
    /// does not wait for ends the cycle: the task goes to sleep, and the
    /// caller is told to log the outcome and to wake it after the fixed
    /// interval. A failed weather or UV fetch ends nothing: the reading is
    /// stored without that value. A failed push is reported and no more.
    pub fn step(&mut self, event: Event) -> (action: Action)
        ensures
            (final(self).current(), action@) == transition(
                old(self).current(),
                old(self).target() is Some,
                event@,
            ),
            final(self).target() == old(self).target(),
    {
        let forwarding = self.forward_target.is_some();
        match self.state {
            PollerState::Idle => Action::Begin,
            PollerState::Fetching => match event {
                Event::Fetched { solar: Ok(partial), uv, weather, observed_at } => {
                    let uv_index = match uv {
                        Ok(v) => Some(v),
                        Err(_) => None,
                    };
                    let temperature = match weather {
                        Ok(v) => Some(v),
                        Err(_) => None,
                    };
                    self.state = PollerState::Persisting;
                    Action::Persist(fuse(partial, uv_index, temperature, observed_at))
                },
                Event::Fetched { solar: Err(e), .. } => {
                    self.state = PollerState::Sleeping;
                    Action::Sleep {
                        seconds: POLL_INTERVAL_SECS,
                        outcome: CycleOutcome::Aborted(BackgroundTaskError::SolarAPI(e)),
                    }
                },
                _ => {
                    self.state = PollerState::Sleeping;
                    Action::Sleep {
                        seconds: POLL_INTERVAL_SECS,
                        outcome: CycleOutcome::Aborted(BackgroundTaskError::Unknown),
                    }
                },
            },
            PollerState::Persisting => match event {
                Event::Persisted => {
                    if forwarding {
                        self.state = PollerState::Forwarding;
                        Action::Forward
                    } else {
                        self.state = PollerState::Sleeping;
                        Action::Sleep { seconds: POLL_INTERVAL_SECS, outcome: CycleOutcome::Stored }
                    }
                },
                Event::PersistFailed => {
                    self.state = PollerState::Sleeping;
                    Action::Sleep {
                        seconds: POLL_INTERVAL_SECS,
                        outcome: CycleOutcome::Aborted(BackgroundTaskError::Database),
                    }
                },
                _ => {
                    self.state = PollerState::Sleeping;
                    Action::Sleep {
                        seconds: POLL_INTERVAL_SECS,
                        outcome: CycleOutcome::Aborted(BackgroundTaskError::Unknown),
                    }
                },
            },
            PollerState::Forwarding => match event {
                Event::Forwarded => {
                    self.state = PollerState::Sleeping;
                    Action::Sleep { seconds: POLL_INTERVAL_SECS, outcome: CycleOutcome::Forwarded }
                },
                _ => {
                    self.state = PollerState::Sleeping;
                    Action::Sleep {
                        seconds: POLL_INTERVAL_SECS,
                        outcome: CycleOutcome::ForwardFailed,
                    }
                },
            },
            PollerState::Sleeping => match event {
                Event::TimerFired => {
                    self.state = PollerState::Idle;
                    Action::Begin
                },
                _ => Action::Ignore,
            },
        }
    }
}

/// When the solar fetch succeeds, a reading is stored whatever became of the
/// weather and UV fetches: each failed one leaves `None` in its place, and
/// with both failed the reading carries neither value.
pub proof fn lemma_enrichment_failure_never_blocks(
    forwarding: bool,
    partial: SolarPartialView,
    uv: Result<i64, WeatherAPIError>,
    weather: Result<i64, WeatherAPIError>,
    observed_at: i64,
)
    ensures
        transition(
            PollerState::Fetching,
            forwarding,
            EventView::Fetched { solar: Ok(partial), uv, weather, observed_at },
        ) == (
            PollerState::Persisting,
            ActionView::Persist(fused(partial, enrichment(uv), enrichment(weather), observed_at)),
        ),
        uv is Err ==> enrichment(uv) is None,
        weather is Err ==> enrichment(weather) is None,
        fused(partial, enrichment(uv), enrichment(weather), observed_at).current_power_mw
            == partial.current_power_mw,
{
}

/// When the solar fetch fails, the cycle ends at once and stores nothing:
/// the task sleeps and asks for no reading to be stored. More generally a
/// reading is stored by one step only, the one that takes a successful solar
/// fetch while fetching.
pub proof fn lemma_solar_failure_stores_nothing(
    forwarding: bool,
    e: GoodWeSemsAPIError,
    uv: Result<i64, WeatherAPIError>,
    weather: Result<i64, WeatherAPIError>,
    observed_at: i64,
)
    ensures
        transition(
            PollerState::Fetching,
            forwarding,
            EventView::Fetched { solar: Err(e), uv, weather, observed_at },
        ) == (PollerState::Sleeping, sleep(CycleOutcome::Aborted(BackgroundTaskError::SolarAPI(e)))),
        forall|state: PollerState, event: EventView|
            (#[trigger] transition(state, forwarding, event)).1 is Persist <==> (state
                == PollerState::Fetching && event is Fetched && event->solar is Ok),
{
}

/// No report stops the task. In a running cycle every report moves the task
/// forward, so a cycle is over after three reports at most; a fault, or a
/// report out of turn, sends the task to sleep for the fixed interval; and
/// the timer wakes a sleeping task for its next cycle.
pub proof fn lemma_cycle_always_ends(state: PollerState, forwarding: bool, event: EventView)
    ensures
        in_cycle(state) ==> progress(transition(state, forwarding, event).0) > progress(state),
        in_cycle(state) && event is Fault ==> transition(state, forwarding, event).0
            == PollerState::Sleeping && transition(state, forwarding, event).1 is Sleep,
        transition(state, forwarding, event).1 matches ActionView::Sleep { seconds, .. }
            ==> seconds == 60 && transition(state, forwarding, event).0 == PollerState::Sleeping,
        transition(PollerState::Sleeping, forwarding, EventView::TimerFired) == (
            PollerState::Idle,
            ActionView::Begin,
        ),
        state == PollerState::Sleeping && !(event is TimerFired) ==> transition(
            state,
            forwarding,
            event,
        ) == (PollerState::Sleeping, ActionView::Ignore),
{
}

/// The actions that a task in `state` takes on a sequence of reports, first
/// report first, and the state it is in after the last.
pub open spec fn run(state: PollerState, forwarding: bool, events: Seq<EventView>) -> (
    PollerState,
    Seq<ActionView>,
)
    decreases events.len(),
{
    if events.len() == 0 {
        (state, Seq::empty())
    } else {
        let (next, action) = transition(state, forwarding, events[0]);
        let (last, actions) = run(next, forwarding, events.drop_first());
        (last, seq![action] + actions)
    }
}

/// How many of `actions` ask for a reading to be stored.
pub open spec fn stored(actions: Seq<ActionView>) -> nat
    decreases actions.len(),
{
    if actions.len() == 0 {
        0
    } else {
        stored(actions.drop_first()) + if actions[0] is Persist {
            1nat
        } else {
            0nat
        }
    }
}

/// Reports alone never bring a task back to fetching, so between two starts
/// at most one reading is stored, and none unless the task was fetching.
pub proof fn lemma_one_reading_per_cycle(state: PollerState, forwarding: bool, events: Seq<EventView>)
    ensures
        stored(run(state, forwarding, events).1) <= 1,
        state != PollerState::Fetching ==> stored(run(state, forwarding, events).1) == 0,
        events.len() > 0 ==> run(state, forwarding, events).0 != PollerState::Fetching,
        run(state, forwarding, events).1.len() == events.len(),
    decreases events.len(),
{
    if events.len() > 0 {
        let (next, action) = transition(state, forwarding, events[0]);
        let rest = events.drop_first();
        lemma_one_reading_per_cycle(next, forwarding, rest);
        let actions = run(next, forwarding, rest).1;
        assert((seq![action] + actions).drop_first() =~= actions);
    }
}

/// A cycle whose solar fetch fails stores no reading, whatever is reported
/// after the failure; a cycle whose solar fetch succeeds asks for exactly one
/// reading to be stored, whatever became of the weather and UV fetches.
pub proof fn lemma_readings_stored_in_a_cycle(forwarding: bool, events: Seq<EventView>)
    requires
        events.len() > 0,
        events[0] is Fetched,
    ensures
        events[0]->solar is Err ==> stored(run(PollerState::Fetching, forwarding, events).1) == 0,
        events[0]->solar is Ok ==> stored(run(PollerState::Fetching, forwarding, events).1) == 1,
{
    let (next, action) = transition(PollerState::Fetching, forwarding, events[0]);
    let rest = events.drop_first();
    lemma_one_reading_per_cycle(next, forwarding, rest);
    let actions = run(next, forwarding, rest).1;
    assert((seq![action] + actions).drop_first() =~= actions);
}

} // verus!
