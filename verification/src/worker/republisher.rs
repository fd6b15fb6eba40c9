//! The continuous republisher: it opens its clients, finds its devices, and then polls the points
//! that are due, refreshes device addresses and pauses devices that fail, until it is stopped.

use std::collections::{HashMap, HashSet};
use vstd::prelude::*;

use crate::address::Ipv4Addr;
use crate::bacnet::poll::{device_instances, devices_of, enabled_of, enabled_points};
use crate::bacnet::refresh::{set_of, RefreshOutcome, RefreshOutcomeView};
use crate::config::BacnetConfig;
use crate::log::LogLevel;
use crate::model::{
    lemma_views_push, views, NetworkInterface, PointConfig, PointConfigView, PointIdentityView,
    PointSample, PointSampleView, PointStatusView, PollOutcome, PollOutcomeView,
};
use crate::network::{bind_address, resolve_bacnet_bind_address};
use crate::numerals::{decimal, decimal_text};
use crate::order::{ascending, sorted_set, sorted_unique};
use crate::statuses::{stale_identities, with_sample, StatusTable};
use crate::worker::backoff::{
    apply_refresh_state, backoff_messages, backoffs_after, backoffs_after_refresh, change_events,
    emit_refresh_state_change, failures_event, message_views, missing_failures, newly_resolved,
    newly_unresolved, record_failures, record_unresolved_failures, seconds, secs, unresolved_after,
    update_device_backoffs, with_failures, DeviceBackoff,
};
use crate::worker::{
    emit, emit_log, event_views, text2, text3, RepublisherLifecycle, RepublisherLifecycleView,
    WorkerEvent, WorkerEventView,
};

verus! {

/// How often devices that are missing are asked for again, in seconds.
pub const DEVICE_RERESOLVE_INTERVAL_SECS: u64 = 60;

/// How often all device addresses are refreshed, in seconds.
pub const DEVICE_TABLE_KEEPALIVE_INTERVAL_SECS: u64 = 240;

/// How long a client may take to stop, in seconds.
pub const CLIENT_STOP_TIMEOUT_SECS: u64 = 5;

/// The least that the longest pause of a device can be set to, in seconds.
pub const MIN_BACKOFF_MAX_SECS: u64 = 10;

/// How long the republisher rests between two rounds, in milliseconds.
pub const ROUND_REST_MS: u64 = 500;

/// What the republisher is waiting for.
#[derive(Debug, Clone, Copy, PartialEq, Eq, Structural)]
pub enum Phase {
    /// For the publisher to be opened.
    Publisher,
    /// For the BACnet client to be opened.
    Client,
    /// For the first refresh of device addresses.
    Startup,
    /// For the next round.
    Resting,
    /// For a refresh of all device addresses.
    Keepalive,
    /// For a refresh of the addresses of missing devices.
    Reresolve,
    /// For the points that are due to be polled.
    Polling,
    /// For the client to be stopped.
    Stopping,
    /// For nothing: it has ended.
    Ended,
}

/// What to do next.
#[derive(Debug)]
pub enum RepublisherAction {
    OpenPublisher,
    OpenClient(Ipv4Addr),
    /// Refresh the addresses of these devices.
    Refresh(Vec<u32>),
    /// Poll these points.
    Poll(Vec<PointConfig>),
    /// Publish the samples of the last poll, while so many points are stale; then rest.
    Publish { stale_points: usize },
    /// Begin a round at once.
    Round,
    /// Rest, then begin a round.
    Rest,
    StopClient,
    End,
}

/// The contents of a [`RepublisherAction`].
#[verifier::ext_equal]
pub enum RepublisherActionView {
    OpenPublisher,
    OpenClient(Ipv4Addr),
    Refresh(Seq<u32>),
    Poll(Seq<PointConfigView>),
    Publish { stale_points: usize },
    Round,
    Rest,
    StopClient,
    End,
}

impl View for RepublisherAction {
    type V = RepublisherActionView;

    open spec fn view(&self) -> RepublisherActionView {
        match *self {
            RepublisherAction::OpenPublisher => RepublisherActionView::OpenPublisher,
            RepublisherAction::OpenClient(address) => RepublisherActionView::OpenClient(address),
            RepublisherAction::Refresh(devices) => RepublisherActionView::Refresh(devices@),
            RepublisherAction::Poll(points) => RepublisherActionView::Poll(views(points@)),
            RepublisherAction::Publish { stale_points } => RepublisherActionView::Publish {
                stale_points,
            },
            RepublisherAction::Round => RepublisherActionView::Round,
            RepublisherAction::Rest => RepublisherActionView::Rest,
            RepublisherAction::StopClient => RepublisherActionView::StopClient,
            RepublisherAction::End => RepublisherActionView::End,
        }
    }
}

/// The state of the republisher.
#[derive(Debug)]
pub struct Republisher {
    pub bacnet: BacnetConfig,
    pub points: Vec<PointConfig>,
    /// The devices of the enabled points.
    pub devices: Vec<u32>,
    pub statuses: StatusTable,
    /// The devices that are missing.
    pub unresolved: HashSet<u32>,
    /// The devices that are paused.
    pub backoffs: HashMap<u32, DeviceBackoff>,
    /// When each point was last polled, by its place.
    pub last_polled: HashMap<usize, u128>,
    pub last_resolve_attempt: u128,
    pub last_full_refresh: u128,
    /// The places of the points that are being polled, and since when.
    pub due: Vec<usize>,
    pub polled_at: u128,
    pub phase: Phase,
}

/// The contents of a [`Republisher`].
#[verifier::ext_equal]
pub struct RepublisherView {
    pub bacnet: BacnetConfig,
    pub points: Seq<PointConfigView>,
    pub devices: Seq<u32>,
    pub statuses: Map<PointIdentityView, PointStatusView>,
    pub unresolved: Set<u32>,
    pub backoffs: Map<u32, DeviceBackoff>,
    pub last_polled: Map<usize, u128>,
    pub last_resolve_attempt: u128,
    pub last_full_refresh: u128,
    pub due: Seq<usize>,
    pub polled_at: u128,
    pub phase: Phase,
}

impl View for Republisher {
    type V = RepublisherView;

    open spec fn view(&self) -> RepublisherView {
        RepublisherView {
            bacnet: self.bacnet,
            points: views(self.points@),
            devices: self.devices@,
            statuses: self.statuses@,
            unresolved: self.unresolved@,
            backoffs: self.backoffs@,
            last_polled: self.last_polled@,
            last_resolve_attempt: self.last_resolve_attempt,
            last_full_refresh: self.last_full_refresh,
            due: self.due@,
            polled_at: self.polled_at,
            phase: self.phase,
        }
    }
}

/// The state at the beginning.
pub open spec fn republisher_start(
    bacnet: BacnetConfig,
    points: Seq<PointConfigView>,
) -> RepublisherView {
    RepublisherView {
        bacnet,
        points,
        devices: ascending(devices_of(enabled_of(points)).to_set()),
        statuses: Map::empty(),
        unresolved: Set::empty(),
        backoffs: Map::empty(),
        last_polled: Map::empty(),
        last_resolve_attempt: 0,
        last_full_refresh: 0,
        due: Seq::empty(),
        polled_at: 0,
        phase: Phase::Publisher,
    }
}

/// What is said at the beginning.
pub open spec fn start_events(points: Seq<PointConfigView>) -> Seq<WorkerEventView> {
    seq![
        WorkerEventView::RepublisherLifecycle(RepublisherLifecycleView::Starting),
        WorkerEventView::Log(
            LogLevel::Info,
            "Starting continuous republisher for "@ + decimal(points.len()) + " point(s)"@,
        ),
    ]
}

/// What is said where the republisher cannot start.
pub open spec fn failed_events(message: Seq<char>) -> Seq<WorkerEventView> {
    seq![
        WorkerEventView::Log(LogLevel::Error, message),
        WorkerEventView::RepublisherLifecycle(RepublisherLifecycleView::Failed(message)),
    ]
}

/// What is said after the first refresh.
pub open spec fn startup_events(
    devices: Seq<u32>,
    result: Result<RefreshOutcomeView, Seq<char>>,
) -> Seq<WorkerEventView> {
    match result {
        Ok(refresh) => if refresh.unresolved.len() > 0 {
            seq![
                WorkerEventView::Log(
                    LogLevel::Warning,
                    decimal(refresh.unresolved.len()) + " of "@ + decimal(devices.len())
                        + " device(s) not in I-Am cache; their points will be skipped (resolution retried every 60s)"@,
                ),
            ]
        } else {
            Seq::empty()
        },
        Err(error) => seq![
            WorkerEventView::Log(LogLevel::Warning, "Device table refresh failed: "@ + error),
        ],
    }
}

/// The devices that are missing after the first refresh.
pub open spec fn startup_missing(result: Result<RefreshOutcomeView, Seq<char>>) -> Set<u32> {
    match result {
        Ok(refresh) => refresh.unresolved.to_set(),
        Err(_) => Set::empty(),
    }
}

/// Whether some time has passed since a point in time.
pub open spec fn has_passed(since: u128, now: u128, count: u64) -> bool {
    now - since >= secs(count)
}

/// The interval at which a point is polled, at least a second.
pub open spec fn poll_interval(point: PointConfigView) -> u64 {
    if point.poll_interval_secs < 1 {
        1
    } else {
        point.poll_interval_secs
    }
}

/// Whether a point is to be polled: it is enabled, its device is neither missing nor paused, and
/// its interval has passed since it was last polled.
pub open spec fn is_due(state: RepublisherView, place: int, now: u128) -> bool {
    let point = state.points[place];
    &&& point.enabled
    &&& !state.unresolved.contains(point.device_instance)
    &&& state.backoffs.contains_key(point.device_instance)
        ==> now >= state.backoffs[point.device_instance].until
    &&& state.last_polled.contains_key(place as usize) ==> has_passed(
        state.last_polled[place as usize],
        now,
        poll_interval(point),
    )
}

/// The places, among the first, of the points that are to be polled.
pub open spec fn due_places(state: RepublisherView, now: u128, count: nat) -> Seq<usize>
    decreases count,
{
    if count == 0 {
        Seq::empty()
    } else {
        let before = due_places(state, now, (count - 1) as nat);
        if is_due(state, count - 1, now) {
            before.push((count - 1) as usize)
        } else {
            before
        }
    }
}

/// The points at some places.
pub open spec fn points_at(
    points: Seq<PointConfigView>,
    places: Seq<usize>,
) -> Seq<PointConfigView> {
    Seq::new(places.len(), |i: int| points[places[i] as int])
}

/// The end of a round: the points that are due are polled, or there is nothing to do.
pub open spec fn poll_due(
    state: RepublisherView,
    now: u128,
) -> (RepublisherView, RepublisherActionView) {
    let due = due_places(state, now, state.points.len());
    if due.len() > 0 {
        (
            RepublisherView { due, polled_at: now, phase: Phase::Polling, ..state },
            RepublisherActionView::Poll(points_at(state.points, due)),
        )
    } else {
        (RepublisherView { phase: Phase::Resting, ..state }, RepublisherActionView::Rest)
    }
}

/// A round: unless it is to stop, all device addresses are refreshed where that is due, or else
/// those of missing devices where that is, and then the points that are due are polled.
pub open spec fn round(
    state: RepublisherView,
    stop: bool,
    now: u128,
) -> (RepublisherView, RepublisherActionView) {
    if stop {
        (RepublisherView { phase: Phase::Stopping, ..state }, RepublisherActionView::StopClient)
    } else if has_passed(state.last_full_refresh, now, DEVICE_TABLE_KEEPALIVE_INTERVAL_SECS) {
        (
            RepublisherView {
                last_full_refresh: now,
                last_resolve_attempt: now,
                phase: Phase::Keepalive,
                ..state
            },
            RepublisherActionView::Refresh(state.devices),
        )
    } else if ascending(state.unresolved).len() > 0 && has_passed(
        state.last_resolve_attempt,
        now,
        DEVICE_RERESOLVE_INTERVAL_SECS,
    ) {
        (
            RepublisherView { last_resolve_attempt: now, phase: Phase::Reresolve, ..state },
            RepublisherActionView::Refresh(ascending(state.unresolved)),
        )
    } else {
        poll_due(state, now)
    }
}

/// What is said when a round begins.
pub open spec fn round_events(stop: bool) -> Seq<WorkerEventView> {
    if stop {
        seq![WorkerEventView::RepublisherLifecycle(RepublisherLifecycleView::Stopping)]
    } else {
        Seq::empty()
    }
}

/// What a refresh during the rounds is called.
pub open spec fn refresh_label(phase: Phase) -> Seq<char> {
    if phase == Phase::Keepalive {
        "device table keepalive"@
    } else {
        "device re-resolution"@
    }
}

/// What is said where a refresh during the rounds failed.
pub open spec fn refresh_failure(phase: Phase, error: Seq<char>) -> Seq<char> {
    if phase == Phase::Keepalive {
        "Device table keepalive failed: "@ + error
    } else {
        "Device re-resolution failed: "@ + error
    }
}

/// The state after a refresh during the rounds, before points are polled.
pub open spec fn refreshed_state(
    state: RepublisherView,
    result: Result<RefreshOutcomeView, Seq<char>>,
) -> RepublisherView {
    match result {
        Ok(refresh) => RepublisherView {
            unresolved: unresolved_after(state.unresolved, refresh),
            backoffs: backoffs_after_refresh(state.backoffs, refresh),
            statuses: with_failures(
                state.statuses,
                missing_failures(state.points, newly_unresolved(state.unresolved, refresh)),
            ),
            ..state
        },
        Err(_) => state,
    }
}

/// What is said after a refresh during the rounds.
pub open spec fn refreshed_events(
    state: RepublisherView,
    result: Result<RefreshOutcomeView, Seq<char>>,
) -> Seq<WorkerEventView> {
    match result {
        Ok(refresh) => change_events(
            state.points,
            refresh_label(state.phase),
            ascending(newly_resolved(state.unresolved, refresh)),
            newly_unresolved(state.unresolved, refresh),
        ),
        Err(error) => seq![
            WorkerEventView::Log(LogLevel::Warning, refresh_failure(state.phase, error)),
        ],
    }
}

/// When points were last polled, after those at some places were.
pub open spec fn with_polled(
    last_polled: Map<usize, u128>,
    places: Seq<usize>,
    now: u128,
) -> Map<usize, u128>
    decreases places.len(),
{
    if places.len() == 0 {
        last_polled
    } else {
        with_polled(last_polled, places.drop_last(), now).insert(places.last(), now)
    }
}

/// The statuses after samples.
pub open spec fn with_samples(
    statuses: Map<PointIdentityView, PointStatusView>,
    samples: Seq<PointSampleView>,
) -> Map<PointIdentityView, PointStatusView>
    decreases samples.len(),
{
    if samples.len() == 0 {
        statuses
    } else {
        with_sample(with_samples(statuses, samples.drop_last()), samples.last())
    }
}

/// The longest pause of a device.
pub open spec fn longest_backoff(bacnet: BacnetConfig) -> u128 {
    secs(
        if bacnet.device_backoff_max_secs < MIN_BACKOFF_MAX_SECS {
            MIN_BACKOFF_MAX_SECS
        } else {
            bacnet.device_backoff_max_secs
        },
    ) as u128
}

/// The state after a poll.
pub open spec fn polled_state(state: RepublisherView, outcome: PollOutcomeView) -> RepublisherView {
    RepublisherView {
        last_polled: with_polled(state.last_polled, state.due, state.polled_at),
        statuses: with_failures(with_samples(state.statuses, outcome.samples), outcome.failures),
        backoffs: backoffs_after(
            state.backoffs,
            devices_of(points_at(state.points, state.due)).to_set(),
            outcome,
            state.polled_at,
            longest_backoff(state.bacnet),
        ),
        due: Seq::empty(),
        phase: Phase::Resting,
        ..state
    }
}

/// Messages as events.
pub open spec fn log_events(messages: Seq<(LogLevel, Seq<char>)>) -> Seq<WorkerEventView> {
    Seq::new(messages.len(), |i: int| WorkerEventView::Log(messages[i].0, messages[i].1))
}

/// What is said after a poll, before its samples are published.
pub open spec fn polled_events(
    state: RepublisherView,
    outcome: PollOutcomeView,
) -> Seq<WorkerEventView> {
    log_events(
        backoff_messages(
            state.backoffs,
            outcome,
            longest_backoff(state.bacnet),
            ascending(devices_of(points_at(state.points, state.due)).to_set()),
        ),
    )
}

/// What is said at the end.
pub open spec fn stopped_events(timed_out: bool) -> Seq<WorkerEventView> {
    let first = if timed_out {
        seq![
            WorkerEventView::Log(
                LogLevel::Warning,
                "BACnet client did not stop within 5s; abandoning it"@,
            ),
        ]
    } else {
        Seq::empty()
    };
    first + seq![
        WorkerEventView::RepublisherLifecycle(RepublisherLifecycleView::Stopped),
        WorkerEventView::Finished("Continuous republisher stopped"@),
    ]
}

/// What a refresh came to.
pub open spec fn refresh_result(
    result: Result<RefreshOutcome, String>,
) -> Result<RefreshOutcomeView, Seq<char>> {
    match result {
        Ok(refresh) => Ok(refresh@),
        Err(error) => Err(error@),
    }
}

fn passed(since: u128, now: u128, count: u64) -> (result: bool)
    ensures
        result == has_passed(since, now, count),
{
    now >= since && now - since >= seconds(count)
}

fn emit_failed(events: &mut Vec<WorkerEvent>, message: String)
    ensures
        event_views(final(events)@) == event_views(old(events)@) + failed_events(message@),
{
    let ghost start = event_views(events@);
    emit_log(events, LogLevel::Error, message.clone());
    emit(events, WorkerEvent::RepublisherLifecycle(RepublisherLifecycle::Failed(message)));
    assert(event_views(events@) =~= start + failed_events(message@));
}

fn emit_messages(events: &mut Vec<WorkerEvent>, messages: &Vec<(LogLevel, String)>)
    ensures
        event_views(final(events)@) == event_views(old(events)@) + log_events(
            message_views(messages@),
        ),
{
    let ghost start = event_views(events@);
    let ghost all = log_events(message_views(messages@));
    let mut i: usize = 0;
    assert(start + all.take(0) =~= start);
    while i < messages.len()
        invariant
            i <= messages@.len(),
            all == log_events(message_views(messages@)),
            event_views(events@) == start + all.take(i as int),
        decreases messages.len() - i,
    {
        emit_log(events, messages[i].0, messages[i].1.clone());
        proof {
            assert(all[i as int] == WorkerEventView::Log(
                messages@[i as int].0,
                messages@[i as int].1@,
            ));
            assert((start + all.take(i as int)).push(all[i as int]) =~= start + all.take(
                i as int + 1,
            ));
        }
        i += 1;
    }
    assert(all.take(all.len() as int) =~= all);
}

/// Records samples in the statuses.
pub fn record_sample_statuses(statuses: &mut StatusTable, samples: &Vec<PointSample>)
    requires
        old(statuses).well_formed(),
    ensures
        final(statuses).well_formed(),
        final(statuses)@ == with_samples(old(statuses)@, views(samples@)),
{
    let ghost all = views(samples@);
    let ghost start = statuses@;
    let mut i: usize = 0;
    assert(all.take(0) =~= Seq::<PointSampleView>::empty());
    while i < samples.len()
        invariant
            i <= samples@.len(),
            all == views(samples@),
            statuses.well_formed(),
            statuses@ == with_samples(start, all.take(i as int)),
        decreases samples.len() - i,
    {
        proof {
            assert(all.take(i as int + 1).drop_last() =~= all.take(i as int));
            assert(all.take(i as int + 1).last() == samples@[i as int]@);
        }
        statuses.record_sample(&samples[i]);
        i += 1;
    }
    assert(all.take(all.len() as int) =~= all);
}

impl Republisher {
    /// What holds of every republisher.
    pub open spec fn well_formed(&self) -> bool {
        &&& self.statuses.well_formed()
        &&& forall|i: int| 0 <= i < self.due@.len() ==> #[trigger] self.due@[i] < self.points@.len()
    }

    pub fn start(
        bacnet: &BacnetConfig,
        points: Vec<PointConfig>,
        events: &mut Vec<WorkerEvent>,
    ) -> (started: (Republisher, RepublisherAction))
        ensures
            started.0.well_formed(),
            started.0@ == republisher_start(*bacnet, views(points@)),
            started.1@ == RepublisherActionView::OpenPublisher,
            event_views(final(events)@) == event_views(old(events)@) + start_events(
                views(points@),
            ),
    {
        broadcast use vstd::std_specs::hash::group_hash_axioms;
        let ghost begin = event_views(events@);
        emit(events, WorkerEvent::RepublisherLifecycle(RepublisherLifecycle::Starting));
        let message = text3(
            "Starting continuous republisher for ",
            decimal_text(points.len() as u64).as_str(),
            " point(s)",
        );
        assert(views(points@).len() == points@.len());
        emit_log(events, LogLevel::Info, message);
        assert(event_views(events@) =~= begin + start_events(views(points@)));
        let enabled = enabled_points(points.as_slice());
        let instances = device_instances(enabled.as_slice());
        let devices = sorted_unique(instances.as_slice());
        let state = Republisher {
            bacnet: *bacnet,
            points,
            devices,
            statuses: StatusTable::new(),
            unresolved: HashSet::new(),
            backoffs: HashMap::new(),
            last_polled: HashMap::new(),
            last_resolve_attempt: 0,
            last_full_refresh: 0,
            due: Vec::new(),
            polled_at: 0,
            phase: Phase::Publisher,
        };
        assert(state@ =~= republisher_start(*bacnet, views(points@)));
        (state, RepublisherAction::OpenPublisher)
    }

    /// To be called after an attempt to open the publisher, with the error where it failed.
    pub fn publisher_opened(
        &mut self,
        interfaces: &[NetworkInterface],
        error: Option<String>,
        events: &mut Vec<WorkerEvent>,
    ) -> (action: RepublisherAction)
        requires
            old(self).well_formed(),
        ensures
            final(self).well_formed(),
            match error {
                None => {
                    &&& final(self)@ == (RepublisherView { phase: Phase::Client, ..old(self)@ })
                    &&& action@ == RepublisherActionView::OpenClient(
                        bind_address(old(self)@.bacnet.selected_interface, views(interfaces@)),
                    )
                    &&& event_views(final(events)@) == event_views(old(events)@)
                },
                Some(text) => {
                    &&& final(self)@ == (RepublisherView { phase: Phase::Ended, ..old(self)@ })
                    &&& action@ == RepublisherActionView::End
                    &&& event_views(final(events)@) == event_views(old(events)@) + failed_events(
                        "MQTT publisher setup failed: "@ + text@,
                    )
                },
            },
    {
        match error {
            None => {
                self.phase = Phase::Client;
                RepublisherAction::OpenClient(
                    resolve_bacnet_bind_address(&self.bacnet, interfaces),
                )
            },
            Some(text) => {
                emit_failed(events, text2("MQTT publisher setup failed: ", text.as_str()));
                self.phase = Phase::Ended;
                RepublisherAction::End
            },
        }
    }

    /// To be called after an attempt to open the client, with the error where it failed.
    pub fn client_opened(
        &mut self,
        error: Option<String>,
        events: &mut Vec<WorkerEvent>,
    ) -> (action: RepublisherAction)
        requires
            old(self).well_formed(),
        ensures
            final(self).well_formed(),
            match error {
                None => {
                    &&& final(self)@ == (RepublisherView { phase: Phase::Startup, ..old(self)@ })
                    &&& action@ == RepublisherActionView::Refresh(old(self)@.devices)
                    &&& event_views(final(events)@) == event_views(old(events)@).push(
                        WorkerEventView::RepublisherLifecycle(RepublisherLifecycleView::Running),
                    )
                },
                Some(text) => {
                    &&& final(self)@ == (RepublisherView { phase: Phase::Ended, ..old(self)@ })
                    &&& action@ == RepublisherActionView::End
                    &&& event_views(final(events)@) == event_views(old(events)@) + failed_events(
                        "Failed to start BACnet client: "@ + text@,
                    )
                },
            },
    {
        match error {
            None => {
                emit(events, WorkerEvent::RepublisherLifecycle(RepublisherLifecycle::Running));
                self.phase = Phase::Startup;
                let devices = self.devices.clone();
                assert(devices@ =~= self.devices@);
                RepublisherAction::Refresh(devices)
            },
            Some(text) => {
                emit_failed(events, text2("Failed to start BACnet client: ", text.as_str()));
                self.phase = Phase::Ended;
                RepublisherAction::End
            },
        }
    }

    /// To be called after the first refresh; the rounds begin.
    pub fn startup_refreshed(
        &mut self,
        result: Result<RefreshOutcome, String>,
        now: u128,
        events: &mut Vec<WorkerEvent>,
    ) -> (action: RepublisherAction)
        requires
            old(self).well_formed(),
        ensures
            final(self).well_formed(),
            final(self)@ == (RepublisherView {
                unresolved: startup_missing(refresh_result(result)),
                statuses: with_failures(
                    old(self)@.statuses,
                    missing_failures(
                        old(self)@.points,
                        startup_missing(refresh_result(result)),
                    ),
                ),
                last_resolve_attempt: now,
                last_full_refresh: now,
                phase: Phase::Resting,
                ..old(self)@
            }),
            action@ == RepublisherActionView::Round,
            event_views(final(events)@) == event_views(old(events)@) + startup_events(
                old(self)@.devices,
                refresh_result(result),
            ) + failures_event(
                missing_failures(old(self)@.points, startup_missing(refresh_result(result))),
            ),
    {
        broadcast use vstd::std_specs::hash::group_hash_axioms;
        let ghost begin = event_views(events@);
        match &result {
            Ok(refresh) => {
                if refresh.unresolved.len() > 0 {
                    let mut message = text3(
                        decimal_text(refresh.unresolved.len() as u64).as_str(),
                        " of ",
                        decimal_text(self.devices.len() as u64).as_str(),
                    );
                    message.append(
                        " device(s) not in I-Am cache; their points will be skipped (resolution retried every 60s)",
                    );
                    emit_log(events, LogLevel::Warning, message);
                }
                self.unresolved = set_of(refresh.unresolved.as_slice());
            },
            Err(error) => {
                emit_log(
                    events,
                    LogLevel::Warning,
                    text2("Device table refresh failed: ", error.as_str()),
                );
                self.unresolved = HashSet::new();
            },
        }
        assert(event_views(events@) =~= begin + startup_events(
            self.devices@,
            refresh_result(result),
        ));
        record_unresolved_failures(events, &self.points, &self.unresolved, &mut self.statuses);
        self.last_resolve_attempt = now;
        self.last_full_refresh = now;
        self.phase = Phase::Resting;
        RepublisherAction::Round
    }

    fn point_is_due(&self, place: usize, now: u128) -> (result: bool)
        requires
            place < self.points@.len(),
        ensures
            result == is_due(self@, place as int, now),
    {
        broadcast use vstd::std_specs::hash::group_hash_axioms;
        let point = &self.points[place];
        if !point.enabled || self.unresolved.contains(&point.device_instance) {
            return false;
        }
        if let Some(backoff) = self.backoffs.get(&point.device_instance) {
            if now < backoff.until {
                return false;
            }
        }
        if let Some(last) = self.last_polled.get(&place) {
            let interval: u64 = if point.poll_interval_secs < 1 {
                1
            } else {
                point.poll_interval_secs
            };
            if !passed(*last, now, interval) {
                return false;
            }
        }
        true
    }

    /// The places of the points that are to be polled, and the points themselves.
    fn due_points(&self, now: u128) -> (due: (Vec<usize>, Vec<PointConfig>))
        ensures
            due.0@ == due_places(self@, now, self.points@.len()),
            views(due.1@) == points_at(self@.points, due.0@),
            forall|i: int| 0 <= i < due.0@.len() ==> #[trigger] due.0@[i] < self.points@.len(),
    {
        broadcast use lemma_views_push;
        let mut places: Vec<usize> = Vec::new();
        let mut points: Vec<PointConfig> = Vec::new();
        let mut i: usize = 0;
        assert(views(points@) =~= points_at(self@.points, places@));
        while i < self.points.len()
            invariant
                i <= self.points@.len(),
                places@ == due_places(self@, now, i as nat),
                views(points@) == points_at(self@.points, places@),
                forall|k: int| 0 <= k < places@.len() ==> #[trigger] places@[k] < i,
            decreases self.points.len() - i,
        {
            if self.point_is_due(i, now) {
                let ghost before = places@;
                places.push(i);
                points.push(self.points[i].clone());
                proof {
                    assert(points_at(self@.points, places@) =~= points_at(
                        self@.points,
                        before,
                    ).push(self.points@[i as int]@));
                }
            }
            i += 1;
        }
        (places, points)
    }

    fn poll_due_points(&mut self, now: u128) -> (action: RepublisherAction)
        requires
            old(self).well_formed(),
        ensures
            final(self).well_formed(),
            (final(self)@, action@) == poll_due(old(self)@, now),
    {
        let (places, points) = self.due_points(now);
        assert(views(self.points@).len() == self.points@.len());
        if places.len() > 0 {
            self.due = places;
            self.polled_at = now;
            self.phase = Phase::Polling;
            RepublisherAction::Poll(points)
        } else {
            self.phase = Phase::Resting;
            RepublisherAction::Rest
        }
    }

    /// To be called when a round begins.
    pub fn round(
        &mut self,
        stop: bool,
        now: u128,
        events: &mut Vec<WorkerEvent>,
    ) -> (action: RepublisherAction)
        requires
            old(self).well_formed(),
        ensures
            final(self).well_formed(),
            (final(self)@, action@) == round(old(self)@, stop, now),
            event_views(final(events)@) == event_views(old(events)@) + round_events(stop),
    {
        let ghost begin = event_views(events@);
        if stop {
            emit(events, WorkerEvent::RepublisherLifecycle(RepublisherLifecycle::Stopping));
            assert(event_views(events@) =~= begin + round_events(stop));
            self.phase = Phase::Stopping;
            return RepublisherAction::StopClient;
        }
        assert(begin + round_events(stop) =~= begin);
        if passed(self.last_full_refresh, now, DEVICE_TABLE_KEEPALIVE_INTERVAL_SECS) {
            self.last_full_refresh = now;
            self.last_resolve_attempt = now;
            self.phase = Phase::Keepalive;
            let devices = self.devices.clone();
            assert(devices@ =~= self.devices@);
            return RepublisherAction::Refresh(devices);
        }
        let targets = sorted_set(&self.unresolved);
        if targets.len() > 0 && passed(
            self.last_resolve_attempt,
            now,
            DEVICE_RERESOLVE_INTERVAL_SECS,
        ) {
            self.last_resolve_attempt = now;
            self.phase = Phase::Reresolve;
            return RepublisherAction::Refresh(targets);
        }
        self.poll_due_points(now)
    }

    /// To be called after a refresh during the rounds.
    pub fn refreshed(
        &mut self,
        result: Result<RefreshOutcome, String>,
        now: u128,
        events: &mut Vec<WorkerEvent>,
    ) -> (action: RepublisherAction)
        requires
            old(self).well_formed(),
        ensures
            final(self).well_formed(),
            (final(self)@, action@) == poll_due(
                refreshed_state(old(self)@, refresh_result(result)),
                now,
            ),
            event_views(final(events)@) == event_views(old(events)@) + refreshed_events(
                old(self)@,
                refresh_result(result),
            ),
    {
        let ghost begin = event_views(events@);
        let ghost before = self@;
        let keepalive = match self.phase {
            Phase::Keepalive => true,
            _ => false,
        };
        match &result {
            Ok(refresh) => {
                let change = apply_refresh_state(
                    &mut self.unresolved,
                    &mut self.backoffs,
                    refresh,
                );
                let label = if keepalive {
                    "device table keepalive"
                } else {
                    "device re-resolution"
                };
                emit_refresh_state_change(
                    events,
                    &self.points,
                    label,
                    change,
                    &mut self.statuses,
                );
            },
            Err(error) => {
                let message = if keepalive {
                    text2("Device table keepalive failed: ", error.as_str())
                } else {
                    text2("Device re-resolution failed: ", error.as_str())
                };
                emit_log(events, LogLevel::Warning, message);
                assert(event_views(events@) =~= begin + refreshed_events(
                    before,
                    refresh_result(result),
                ));
            },
        }
        assert(self@ =~= refreshed_state(before, refresh_result(result)));
        self.poll_due_points(now)
    }

    fn mark_polled(&mut self)
        requires
            old(self).well_formed(),
        ensures
            final(self).well_formed(),
            final(self)@ == (RepublisherView {
                last_polled: with_polled(
                    old(self)@.last_polled,
                    old(self)@.due,
                    old(self)@.polled_at,
                ),
                ..old(self)@
            }),
    {
        broadcast use vstd::std_specs::hash::group_hash_axioms;
        let ghost start = self@;
        let mut i: usize = 0;
        assert(self.due@.take(0) =~= Seq::<usize>::empty());
        assert(self@ =~= start);
        while i < self.due.len()
            invariant
                i <= self.due@.len(),
                self.well_formed(),
                self.due@ == start.due,
                self.polled_at == start.polled_at,
                self@ == (RepublisherView {
                    last_polled: with_polled(
                        start.last_polled,
                        start.due.take(i as int),
                        start.polled_at,
                    ),
                    ..start
                }),
            decreases self.due.len() - i,
        {
            let place: usize = self.due[i];
            let now: u128 = self.polled_at;
            proof {
                assert(start.due.take(i as int + 1).drop_last() =~= start.due.take(i as int));
                assert(start.due.take(i as int + 1).last() == place);
            }
            self.last_polled.insert(place, now);
            i += 1;
        }
        assert(start.due.take(start.due.len() as int) =~= start.due);
    }

    /// The devices of the points that are being polled.
    fn polled_devices(&self) -> (devices: HashSet<u32>)
        requires
            self.well_formed(),
        ensures
            devices@ == devices_of(points_at(self@.points, self@.due)).to_set(),
    {
        let mut list: Vec<u32> = Vec::new();
        let ghost all = devices_of(points_at(self@.points, self@.due));
        let mut i: usize = 0;
        while i < self.due.len()
            invariant
                i <= self.due@.len(),
                self.well_formed(),
                all == devices_of(points_at(self@.points, self@.due)),
                list@ == all.take(i as int),
            decreases self.due.len() - i,
        {
            assert(self.due@[i as int] < self.points@.len());
            list.push(self.points[self.due[i]].device_instance);
            proof {
                assert(all[i as int] == self.points@[self.due@[i as int] as int].device_instance);
                assert(all.take(i as int + 1) =~= all.take(i as int).push(all[i as int]));
            }
            i += 1;
        }
        assert(all.take(all.len() as int) =~= all);
        set_of(list.as_slice())
    }

    /// To be called after a poll, with its outcome.
    pub fn polled(
        &mut self,
        outcome: &PollOutcome,
        events: &mut Vec<WorkerEvent>,
    ) -> (action: RepublisherAction)
        requires
            old(self).well_formed(),
        ensures
            final(self).well_formed(),
            final(self)@ == polled_state(old(self)@, outcome@),
            action@ == (RepublisherActionView::Publish {
                stale_points: stale_identities(final(self)@.statuses).len() as usize,
            }),
            event_views(final(events)@) == event_views(old(events)@) + polled_events(
                old(self)@,
                outcome@,
            ),
    {
        let ghost before = self@;
        self.mark_polled();
        record_sample_statuses(&mut self.statuses, &outcome.samples);
        record_failures(&mut self.statuses, &outcome.failures);
        let devices = self.polled_devices();
        let max_secs: u64 = if self.bacnet.device_backoff_max_secs < MIN_BACKOFF_MAX_SECS {
            MIN_BACKOFF_MAX_SECS
        } else {
            self.bacnet.device_backoff_max_secs
        };
        let messages = update_device_backoffs(
            &mut self.backoffs,
            &devices,
            outcome,
            self.polled_at,
            seconds(max_secs),
        );
        emit_messages(events, &messages);
        self.due = Vec::new();
        self.phase = Phase::Resting;
        assert(self@ =~= polled_state(before, outcome@));
        let stale_points: usize = self.statuses.stale_count();
        RepublisherAction::Publish { stale_points }
    }

    /// To be called where a poll failed altogether.
    pub fn poll_failed(
        &mut self,
        error: &str,
        events: &mut Vec<WorkerEvent>,
    ) -> (action: RepublisherAction)
        requires
            old(self).well_formed(),
        ensures
            final(self).well_formed(),
            final(self)@ == (RepublisherView {
                due: Seq::empty(),
                phase: Phase::Resting,
                ..old(self)@
            }),
            action@ == RepublisherActionView::Rest,
            event_views(final(events)@) == event_views(old(events)@).push(
                WorkerEventView::Log(LogLevel::Error, "Republisher poll failed: "@ + error@),
            ),
    {
        emit_log(events, LogLevel::Error, text2("Republisher poll failed: ", error));
        self.due = Vec::new();
        self.phase = Phase::Resting;
        assert(self@.due =~= Seq::<usize>::empty());
        RepublisherAction::Rest
    }

    /// To be called after the client was stopped, or took too long to.
    pub fn client_stopped(
        &mut self,
        timed_out: bool,
        events: &mut Vec<WorkerEvent>,
    ) -> (action: RepublisherAction)
        requires
            old(self).well_formed(),
        ensures
            final(self).well_formed(),
            final(self)@ == (RepublisherView { phase: Phase::Ended, ..old(self)@ }),
            action@ == RepublisherActionView::End,
            event_views(final(events)@) == event_views(old(events)@) + stopped_events(timed_out),
    {
        let ghost begin = event_views(events@);
        if timed_out {
            emit_log(
                events,
                LogLevel::Warning,
                "BACnet client did not stop within 5s; abandoning it".to_string(),
            );
        }
        emit(events, WorkerEvent::RepublisherLifecycle(RepublisherLifecycle::Stopped));
        emit(events, WorkerEvent::Finished("Continuous republisher stopped".to_string()));
        assert(event_views(events@) =~= begin + stopped_events(timed_out));
        self.phase = Phase::Ended;
        RepublisherAction::End
    }
}

/// Reports that the republisher has ended without saying so itself.
pub fn emit_republisher_lost(events: &mut Vec<WorkerEvent>)
    ensures
        event_views(final(events)@) == event_views(old(events)@).push(
            WorkerEventView::RepublisherLifecycle(
                RepublisherLifecycleView::Failed(
                    "Republisher worker stopped unexpectedly; see log for details"@,
                ),
            ),
        ),
{
    emit(
        events,
        WorkerEvent::RepublisherLifecycle(
            RepublisherLifecycle::Failed(
                "Republisher worker stopped unexpectedly; see log for details".to_string(),
            ),
        ),
    );
}

/// The points that are polled are those that are due, each once and in their order.
pub proof fn law_due_points_are_polled(state: RepublisherView, now: u128, count: nat)
    requires
        count <= state.points.len() <= usize::MAX,
    ensures
        forall|i: int|
            0 <= i < due_places(state, now, count).len() ==> {
                let place = #[trigger] due_places(state, now, count)[i];
                place < count && is_due(state, place as int, now)
            },
        forall|i: int, j: int|
            0 <= i < j < due_places(state, now, count).len() ==> #[trigger] due_places(
                state,
                now,
                count,
            )[i] < #[trigger] due_places(state, now, count)[j],
        forall|place: int|
            0 <= place < count && #[trigger] is_due(state, place, now) ==> due_places(
                state,
                now,
                count,
            ).contains(place as usize),
    decreases count,
{
    if count > 0 {
        let before = due_places(state, now, (count - 1) as nat);
        let after = due_places(state, now, count);
        law_due_points_are_polled(state, now, (count - 1) as nat);
        assert forall|i: int| 0 <= i < after.len() implies {
            let place = #[trigger] after[i];
            place < count && is_due(state, place as int, now)
        } by {
            if i < before.len() {
                assert(after[i] == before[i]);
            }
        }
        assert forall|i: int, j: int| 0 <= i < j < after.len() implies #[trigger] after[i]
            < #[trigger] after[j] by {
            if j < before.len() {
                assert(before[i] < before[j]);
            } else {
                assert(after[i] == before[i]);
            }
        }
        assert forall|place: int| 0 <= place < count && #[trigger] is_due(
            state,
            place,
            now,
        ) implies after.contains(place as usize) by {
            if place < count - 1 {
                assert(before.contains(place as usize));
                let k = choose|k: int| 0 <= k < before.len() && before[k] == place as usize;
                assert(after[k] == place as usize);
            } else {
                assert(after[before.len() as int] == place as usize);
            }
        }
    }
}

/// What is polled in a round: only enabled points, none on a device that is missing, and none on
/// a device whose pause is not over.
pub proof fn law_only_reachable_points_are_polled(state: RepublisherView, now: u128, at: int)
    requires
        state.points.len() <= usize::MAX,
        poll_due(state, now).1 is Poll,
        0 <= at < poll_due(state, now).1->Poll_0.len(),
    ensures
        ({
            let point = poll_due(state, now).1->Poll_0[at];
            &&& point.enabled
            &&& !state.unresolved.contains(point.device_instance)
            &&& state.backoffs.contains_key(point.device_instance)
                ==> state.backoffs[point.device_instance].until <= now
        }),
{
    law_due_points_are_polled(state, now, state.points.len());
    let places = due_places(state, now, state.points.len());
    assert(poll_due(state, now).1->Poll_0 == points_at(state.points, places));
    assert(is_due(state, places[at] as int, now));
}

proof fn lemma_with_polled(last_polled: Map<usize, u128>, places: Seq<usize>, now: u128, place: usize)
    ensures
        places.contains(place) ==> with_polled(last_polled, places, now).contains_key(place)
            && with_polled(last_polled, places, now)[place] == now,
    decreases places.len(),
{
    if places.len() > 0 && places.contains(place) {
        lemma_with_polled(last_polled, places.drop_last(), now, place);
        if place != places.last() {
            let k = choose|k: int| 0 <= k < places.len() && places[k] == place;
            assert(places.drop_last()[k] == place);
        }
    }
}

/// A point that was polled is not due again until its interval has passed.
pub proof fn law_polled_points_wait(
    state: RepublisherView,
    outcome: PollOutcomeView,
    place: usize,
    now: u128,
)
    requires
        state.due.contains(place),
        is_due(polled_state(state, outcome), place as int, now),
    ensures
        now - state.polled_at >= secs(poll_interval(state.points[place as int])),
        poll_interval(state.points[place as int]) >= 1,
{
    lemma_with_polled(state.last_polled, state.due, state.polled_at, place);
}

/// A republisher that is to stop polls and refreshes nothing any more: it stops its client.
pub proof fn law_stopping_ends_the_rounds(state: RepublisherView, now: u128)
    ensures
        round(state, true, now).1 == RepublisherActionView::StopClient,
        round(state, true, now).0 == (RepublisherView { phase: Phase::Stopping, ..state }),
        round(state, false, now).1 !is StopClient,
{
}

/// A round polls or rests only where no refresh is due: neither that of all device addresses nor,
/// while devices are missing, that of theirs.
pub proof fn law_refreshes_are_not_overdue(state: RepublisherView, now: u128)
    requires
        round(state, false, now).1 is Poll || round(state, false, now).1 is Rest,
    ensures
        now - state.last_full_refresh < secs(DEVICE_TABLE_KEEPALIVE_INTERVAL_SECS),
        ascending(state.unresolved).len() > 0 ==> now - state.last_resolve_attempt < secs(
            DEVICE_RERESOLVE_INTERVAL_SECS,
        ),
{
}

} // verus!
