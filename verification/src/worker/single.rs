//! Operations that run once: a poll whose samples are published, and the scan of a device.

use vstd::prelude::*;

use crate::bacnet::poll::{
    complete_poll, completed, device_instances, devices_of, enabled_of, enabled_points,
    law_split_is_complete, not_found_failure, split_by_device, split_pollable,
};
use crate::bacnet::refresh::{RefreshOutcome, RefreshOutcomeView};
use crate::log::LogLevel;
use crate::model::{
    views, DeviceObject, DeviceObjectView, PointConfig, PointConfigView, PollOutcome,
    PollOutcomeView, PublishStats, PublishStatsView,
};
use crate::numerals::decimal;
use crate::text::opt_text;
use crate::worker::{
    after_publishing, before_publishing, emit, emit_before_publishing, emit_object_scan_ended,
    emit_object_scan_started, emit_poll_failed, emit_poll_outcome, emit_poll_started,
    emit_publisher_failed, emit_single_poll, event_views, failure_events, object_scan_ended,
    object_scan_started, poll_summary, text2, warning_events, WorkerEvent, WorkerEventView,
    SCAN_MAX_OBJECTS_PER_DEVICE,
};

verus! {

/// What a single poll needs next.
#[derive(Debug)]
pub enum SinglePollAction {
    OpenClient,
    /// Refresh the addresses of these devices.
    Refresh(Vec<u32>),
    /// Poll these points.
    Poll(Vec<PointConfig>),
    StopClient,
    OpenPublisher,
    /// Publish the samples, while so many points are stale.
    Publish { stale_points: usize },
    End,
}

/// The contents of a [`SinglePollAction`].
#[verifier::ext_equal]
pub enum SinglePollActionView {
    OpenClient,
    Refresh(Seq<u32>),
    Poll(Seq<PointConfigView>),
    StopClient,
    OpenPublisher,
    Publish { stale_points: usize },
    End,
}

impl View for SinglePollAction {
    type V = SinglePollActionView;

    open spec fn view(&self) -> SinglePollActionView {
        match *self {
            SinglePollAction::OpenClient => SinglePollActionView::OpenClient,
            SinglePollAction::Refresh(devices) => SinglePollActionView::Refresh(devices@),
            SinglePollAction::Poll(points) => SinglePollActionView::Poll(views(points@)),
            SinglePollAction::StopClient => SinglePollActionView::StopClient,
            SinglePollAction::OpenPublisher => SinglePollActionView::OpenPublisher,
            SinglePollAction::Publish { stale_points } => SinglePollActionView::Publish {
                stale_points,
            },
            SinglePollAction::End => SinglePollActionView::End,
        }
    }
}

/// A poll that runs once.
#[derive(Debug)]
pub struct SinglePoll {
    pub enabled: Vec<PointConfig>,
    /// The points whose device was not found.
    pub skipped: Vec<PointConfig>,
    /// The devices that were not found.
    pub unresolved: Vec<u32>,
    /// Why the poll has failed, while the client is still to be stopped.
    pub failing: Option<String>,
    pub outcome: PollOutcome,
}

/// The contents of a [`SinglePoll`].
#[verifier::ext_equal]
pub struct SinglePollView {
    pub enabled: Seq<PointConfigView>,
    pub skipped: Seq<PointConfigView>,
    pub unresolved: Seq<u32>,
    pub failing: Option<Seq<char>>,
    pub outcome: PollOutcomeView,
}

impl View for SinglePoll {
    type V = SinglePollView;

    open spec fn view(&self) -> SinglePollView {
        SinglePollView {
            enabled: views(self.enabled@),
            skipped: views(self.skipped@),
            unresolved: self.unresolved@,
            failing: opt_text(self.failing),
            outcome: self.outcome@,
        }
    }
}

/// A state, what is needed next, and what is reported.
pub type PollStep = (SinglePollView, SinglePollActionView, Seq<WorkerEventView>);

pub open spec fn nothing_polled() -> PollOutcomeView {
    PollOutcomeView { samples: Seq::empty(), failures: Seq::empty(), warnings: Seq::empty() }
}

/// What is reported where the poll failed.
pub open spec fn poll_failure(error: Seq<char>) -> Seq<WorkerEventView> {
    seq![
        WorkerEventView::Log(LogLevel::Error, "Polling failed: "@ + error),
        WorkerEventView::Finished("Polling failed"@),
    ]
}

/// The beginning: where no point is enabled, there is nothing to poll.
pub open spec fn poll_begun(points: Seq<PointConfigView>) -> PollStep {
    let enabled = enabled_of(points);
    (
        SinglePollView {
            enabled,
            skipped: Seq::empty(),
            unresolved: Seq::empty(),
            failing: None,
            outcome: nothing_polled(),
        },
        if enabled.len() == 0 {
            SinglePollActionView::OpenPublisher
        } else {
            SinglePollActionView::OpenClient
        },
        seq![
            WorkerEventView::Log(
                LogLevel::Info,
                "Polling "@ + decimal(points.len()) + " configured point(s)"@,
            ),
        ],
    )
}

pub open spec fn poll_client_opened(state: SinglePollView, error: Option<Seq<char>>) -> PollStep {
    match error {
        Some(message) => (
            state,
            SinglePollActionView::End,
            poll_failure("failed to start BACnet client: "@ + message),
        ),
        None => (
            state,
            SinglePollActionView::Refresh(devices_of(state.enabled)),
            Seq::empty(),
        ),
    }
}

/// After the addresses were refreshed: points of devices that were not found are not polled.
pub open spec fn poll_refreshed(
    state: SinglePollView,
    result: Result<RefreshOutcomeView, Seq<char>>,
) -> PollStep {
    match result {
        Ok(refresh) => {
            let (pollable, skipped) = split_by_device(
                state.enabled,
                refresh.unresolved.to_set(),
            );
            (
                SinglePollView { skipped, unresolved: refresh.unresolved, ..state },
                SinglePollActionView::Poll(pollable),
                Seq::empty(),
            )
        },
        Err(error) => (
            SinglePollView { failing: Some(error), ..state },
            SinglePollActionView::StopClient,
            Seq::empty(),
        ),
    }
}

pub open spec fn poll_polled(
    state: SinglePollView,
    result: Result<PollOutcomeView, Seq<char>>,
) -> PollStep {
    match result {
        Ok(outcome) => (
            SinglePollView { outcome: completed(outcome, state.skipped, state.unresolved), ..state },
            SinglePollActionView::StopClient,
            Seq::empty(),
        ),
        Err(error) => (state, SinglePollActionView::End, poll_failure(error)),
    }
}

/// After the client was stopped: that it could not be comes before all else.
pub open spec fn poll_client_stopped(state: SinglePollView, error: Option<Seq<char>>) -> PollStep {
    match error {
        Some(message) => (state, SinglePollActionView::End, poll_failure(message)),
        None => match state.failing {
            Some(message) => (state, SinglePollActionView::End, poll_failure(message)),
            None => (
                state,
                SinglePollActionView::OpenPublisher,
                failure_events(state.outcome.failures) + warning_events(state.outcome.warnings),
            ),
        },
    }
}

pub open spec fn poll_publisher_opened(
    state: SinglePollView,
    error: Option<Seq<char>>,
) -> PollStep {
    match error {
        Some(message) => (
            state,
            SinglePollActionView::End,
            seq![
                WorkerEventView::Log(
                    LogLevel::Error,
                    "MQTT publisher setup failed: "@ + message,
                ),
                WorkerEventView::Finished("Publishing failed"@),
            ],
        ),
        None => (
            state,
            SinglePollActionView::Publish { stale_points: state.outcome.failures.len() as usize },
            before_publishing(state.outcome),
        ),
    }
}

pub open spec fn poll_published(
    outcome: PollOutcomeView,
    stats: PublishStatsView,
) -> Seq<WorkerEventView> {
    after_publishing(outcome, stats).push(
        WorkerEventView::Finished(poll_summary(outcome, stats)),
    )
}

/// The contents of a result.
pub open spec fn result_view<T: View>(result: Result<T, String>) -> Result<T::V, Seq<char>> {
    match result {
        Ok(value) => Ok(value@),
        Err(message) => Err(message@),
    }
}

impl SinglePoll {
    pub fn start(points: Vec<PointConfig>, events: &mut Vec<WorkerEvent>) -> (started: (
        SinglePoll,
        SinglePollAction,
    ))
        ensures
            ({
                let (state, action, reported) = poll_begun(views(points@));
                &&& started.0@ == state
                &&& started.1@ == action
                &&& event_views(final(events)@) == event_views(old(events)@) + reported
            }),
    {
        let ghost begin = event_views(events@);
        assert(views(points@).len() == points@.len());
        emit_poll_started(events, points.len());
        let enabled = enabled_points(points.as_slice());
        assert(views(enabled@).len() == enabled@.len());
        let action = if enabled.len() == 0 {
            SinglePollAction::OpenPublisher
        } else {
            SinglePollAction::OpenClient
        };
        let state = SinglePoll {
            enabled,
            skipped: Vec::new(),
            unresolved: Vec::new(),
            failing: None,
            outcome: PollOutcome {
                samples: Vec::new(),
                failures: Vec::new(),
                warnings: Vec::new(),
            },
        };
        proof {
            assert(state@ =~= poll_begun(views(points@)).0);
            assert(event_views(events@) =~= begin + poll_begun(views(points@)).2);
        }
        (state, action)
    }

    /// To be called after the client was opened, with the error where that failed.
    pub fn client_opened(
        &self,
        error: Option<String>,
        events: &mut Vec<WorkerEvent>,
    ) -> (action: SinglePollAction)
        ensures
            ({
                let (state, next, reported) = poll_client_opened(self@, opt_text(error));
                &&& self@ == state
                &&& action@ == next
                &&& event_views(final(events)@) == event_views(old(events)@) + reported
            }),
    {
        match error {
            Some(message) => {
                let text = text2("failed to start BACnet client: ", message.as_str());
                emit_poll_failed(events, text.as_str());
                SinglePollAction::End
            },
            None => {
                assert(event_views(events@) =~= event_views(events@) + Seq::empty());
                SinglePollAction::Refresh(device_instances(self.enabled.as_slice()))
            },
        }
    }

    /// To be called after the addresses were refreshed.
    pub fn refreshed(&mut self, result: Result<RefreshOutcome, String>) -> (action:
        SinglePollAction)
        ensures
            ({
                let (state, next, _) = poll_refreshed(old(self)@, result_view(result));
                &&& final(self)@ == state
                &&& action@ == next
            }),
    {
        match result {
            Ok(refresh) => {
                let (pollable, skipped) = split_pollable(
                    self.enabled.as_slice(),
                    refresh.unresolved.as_slice(),
                );
                self.skipped = skipped;
                self.unresolved = refresh.unresolved;
                SinglePollAction::Poll(pollable)
            },
            Err(error) => {
                self.failing = Some(error);
                SinglePollAction::StopClient
            },
        }
    }

    /// To be called after the points were polled.
    pub fn polled(
        &mut self,
        result: Result<PollOutcome, String>,
        events: &mut Vec<WorkerEvent>,
    ) -> (action: SinglePollAction)
        ensures
            ({
                let (state, next, reported) = poll_polled(old(self)@, result_view(result));
                &&& final(self)@ == state
                &&& action@ == next
                &&& event_views(final(events)@) == event_views(old(events)@) + reported
            }),
    {
        match result {
            Ok(outcome) => {
                self.outcome = complete_poll(
                    outcome,
                    self.skipped.as_slice(),
                    self.unresolved.as_slice(),
                );
                assert(event_views(events@) =~= event_views(events@) + Seq::empty());
                SinglePollAction::StopClient
            },
            Err(error) => {
                emit_poll_failed(events, error.as_str());
                SinglePollAction::End
            },
        }
    }

    /// To be called after the client was stopped, with the error where that failed.
    pub fn client_stopped(
        &self,
        error: Option<String>,
        events: &mut Vec<WorkerEvent>,
    ) -> (action: SinglePollAction)
        ensures
            ({
                let (state, next, reported) = poll_client_stopped(self@, opt_text(error));
                &&& self@ == state
                &&& action@ == next
                &&& event_views(final(events)@) == event_views(old(events)@) + reported
            }),
    {
        let ghost begin = event_views(events@);
        if let Some(message) = error {
            emit_poll_failed(events, message.as_str());
            return SinglePollAction::End;
        }
        match &self.failing {
            Some(message) => {
                emit_poll_failed(events, message.as_str());
                SinglePollAction::End
            },
            None => {
                emit_single_poll(events, &self.outcome);
                assert(event_views(events@) =~= begin + (failure_events(self@.outcome.failures)
                    + warning_events(self@.outcome.warnings)));
                SinglePollAction::OpenPublisher
            },
        }
    }

    /// To be called after the publisher was opened, with the error where that failed.
    pub fn publisher_opened(
        &self,
        error: Option<String>,
        events: &mut Vec<WorkerEvent>,
    ) -> (action: SinglePollAction)
        ensures
            ({
                let (state, next, reported) = poll_publisher_opened(self@, opt_text(error));
                &&& self@ == state
                &&& action@ == next
                &&& event_views(final(events)@) == event_views(old(events)@) + reported
            }),
    {
        match error {
            Some(message) => {
                emit_publisher_failed(events, message.as_str());
                SinglePollAction::End
            },
            None => {
                emit_before_publishing(events, &self.outcome);
                assert(views(self.outcome.failures@).len() == self.outcome.failures@.len());
                SinglePollAction::Publish { stale_points: self.outcome.failures.len() }
            },
        }
    }

    /// To be called after the samples were published; the poll is over then.
    pub fn published(self, stats: PublishStats, events: &mut Vec<WorkerEvent>)
        ensures
            event_views(final(events)@) == event_views(old(events)@) + poll_published(
                self@.outcome,
                stats@,
            ),
    {
        let ghost begin = event_views(events@);
        let summary = emit_poll_outcome(events, self.outcome, stats);
        emit(events, WorkerEvent::Finished(summary));
        assert(event_views(events@) =~= begin + poll_published(self@.outcome, stats@));
    }
}

/// What the scan of a device needs next.
#[derive(Debug, Clone, Copy, PartialEq, Eq, Structural)]
pub enum SingleScanAction {
    OpenClient,
    /// Refresh the address of a device.
    Refresh(u32),
    /// Scan a device, up to so many objects.
    Scan(u32, usize),
    StopClient,
    End,
}

/// The scan of a device.
#[derive(Debug)]
pub struct SingleScan {
    pub device_instance: u32,
    /// What the scan gave; no objects, while it is not over.
    pub result: Result<Vec<DeviceObject>, String>,
}

/// What a scan gave.
pub open spec fn scan_result(result: Result<Vec<DeviceObject>, String>) -> Result<
    Seq<DeviceObjectView>,
    Seq<char>,
> {
    match result {
        Ok(objects) => Ok(views(objects@)),
        Err(message) => Err(message@),
    }
}

impl SingleScan {
    pub fn start(device_instance: u32, events: &mut Vec<WorkerEvent>) -> (started: (
        SingleScan,
        SingleScanAction,
    ))
        ensures
            started.0.device_instance == device_instance,
            scan_result(started.0.result) == Ok::<_, Seq<char>>(Seq::<DeviceObjectView>::empty()),
            started.1 == SingleScanAction::OpenClient,
            event_views(final(events)@) == event_views(old(events)@).push(
                object_scan_started(device_instance),
            ),
    {
        emit_object_scan_started(events, device_instance);
        let objects: Vec<DeviceObject> = Vec::new();
        assert(views(objects@) =~= Seq::empty());
        (SingleScan { device_instance, result: Ok(objects) }, SingleScanAction::OpenClient)
    }

    /// To be called after the client was opened, with the error where that failed.
    pub fn client_opened(
        &self,
        error: Option<String>,
        events: &mut Vec<WorkerEvent>,
    ) -> (action: SingleScanAction)
        ensures
            match error {
                Some(message) => {
                    &&& action == SingleScanAction::End
                    &&& event_views(final(events)@) == event_views(old(events)@)
                        + object_scan_ended(
                        self.device_instance,
                        Err("failed to start BACnet client: "@ + message@),
                    )
                },
                None => {
                    &&& action == SingleScanAction::Refresh(self.device_instance)
                    &&& event_views(final(events)@) == event_views(old(events)@)
                },
            },
    {
        match error {
            Some(message) => {
                let text = text2("failed to start BACnet client: ", message.as_str());
                emit_object_scan_ended(events, self.device_instance, Err(text));
                SingleScanAction::End
            },
            None => SingleScanAction::Refresh(self.device_instance),
        }
    }

    /// To be called after the address was refreshed, with the error where that failed. The scan is
    /// tried even where the device was not found.
    pub fn refreshed(
        &self,
        error: Option<String>,
        events: &mut Vec<WorkerEvent>,
    ) -> (action: SingleScanAction)
        ensures
            match error {
                Some(message) => {
                    &&& action == SingleScanAction::End
                    &&& event_views(final(events)@) == event_views(old(events)@)
                        + object_scan_ended(self.device_instance, Err(message@))
                },
                None => {
                    &&& action == SingleScanAction::Scan(
                        self.device_instance,
                        SCAN_MAX_OBJECTS_PER_DEVICE,
                    )
                    &&& event_views(final(events)@) == event_views(old(events)@)
                },
            },
    {
        match error {
            Some(message) => {
                emit_object_scan_ended(events, self.device_instance, Err(message));
                SingleScanAction::End
            },
            None => SingleScanAction::Scan(self.device_instance, SCAN_MAX_OBJECTS_PER_DEVICE),
        }
    }

    /// To be called after the scan.
    pub fn scanned(&mut self, result: Result<Vec<DeviceObject>, String>) -> (action:
        SingleScanAction)
        ensures
            final(self).device_instance == old(self).device_instance,
            scan_result(final(self).result) == scan_result(result),
            action == SingleScanAction::StopClient,
    {
        self.result = result;
        SingleScanAction::StopClient
    }

    /// To be called after the client was stopped, with the error where that failed, which comes
    /// before what the scan gave; the operation is over then.
    pub fn stopped(self, error: Option<String>, events: &mut Vec<WorkerEvent>)
        ensures
            event_views(final(events)@) == event_views(old(events)@) + object_scan_ended(
                self.device_instance,
                match error {
                    Some(message) => Err(message@),
                    None => scan_result(self.result),
                },
            ),
    {
        match error {
            Some(message) => emit_object_scan_ended(events, self.device_instance, Err(message)),
            None => emit_object_scan_ended(events, self.device_instance, self.result),
        }
    }
}

/// No enabled point gets lost: each is handed on to be polled where its device was found, and is
/// reported as failed where it was not.
pub proof fn law_every_enabled_point_is_accounted_for(
    state: SinglePollView,
    refresh: RefreshOutcomeView,
    outcome: PollOutcomeView,
)
    ensures
        ({
            let (refreshed, action, _) = poll_refreshed(state, Ok(refresh));
            let failures = poll_polled(refreshed, Ok(outcome)).0.outcome.failures;
            &&& action is Poll
            &&& action->Poll_0.len() + refreshed.skipped.len() == state.enabled.len()
            &&& forall|i: int|
                0 <= i < action->Poll_0.len() ==> !refresh.unresolved.contains(
                    (#[trigger] action->Poll_0[i]).device_instance,
                )
            &&& failures.len() == outcome.failures.len() + refreshed.skipped.len()
            &&& forall|i: int|
                0 <= i < refreshed.skipped.len() ==> failures[outcome.failures.len() + i]
                    == not_found_failure(#[trigger] refreshed.skipped[i])
        }),
{
    law_split_is_complete(state.enabled, refresh.unresolved.to_set());
}

/// Where no client can be opened, the addresses cannot be refreshed, the points cannot be polled,
/// or the client cannot be stopped, the poll ends without publishing anything.
pub proof fn law_failed_polls_publish_nothing(state: SinglePollView, error: Seq<char>)
    ensures
        poll_client_opened(state, Some(error)).1 is End,
        poll_polled(state, Err(error)).1 is End,
        poll_client_stopped(state, Some(error)).1 is End,
        poll_refreshed(state, Err(error)).1 is StopClient,
        forall|stopping: Option<Seq<char>>|
            (#[trigger] poll_client_stopped(poll_refreshed(state, Err(error)).0, stopping)).1
                is End,
{
}

} // verus!
