//! What the workers that run once do, step by step.

use vstd::prelude::*;

use crate::bacnet::object_point;
use crate::bacnet::poll::{completed, enabled_of, law_split_is_complete, split_by_device};
use crate::bacnet::refresh::RefreshOutcomeView;
use crate::import::merge_all;
use crate::log::LogLevel;
use crate::model::{
    DeviceObjectView, PointConfigView, PointFailureView, PollOutcomeView, PublishStatsView,
};
use crate::numerals::decimal;
use crate::worker::scan_all::{
    after_refresh_one, after_scan, next_device, scan_all_ended, ScanAllActionView, ScanAllView,
};
use crate::worker::single::{
    poll_begun, poll_client_opened, poll_client_stopped, poll_polled, poll_published,
    poll_publisher_opened, poll_refreshed, SinglePollActionView, SinglePollView,
};
use crate::worker::{failure_events, warning_events, WorkerEventView};

verus! {

/// A poll that runs once reads the enabled points, after asking for the addresses of their devices;
/// without such points, nothing is read.
pub proof fn law_polls_read_enabled_points(points: Seq<PointConfigView>, error: Seq<char>)
    ensures
        ({
            let (state, action, said) = poll_begun(points);
            &&& state.enabled == enabled_of(points)
            &&& state.skipped.len() == 0
            &&& state.outcome.samples.len() == 0
            &&& state.outcome.failures.len() == 0
            &&& enabled_of(points).len() == 0 ==> action is OpenPublisher
            &&& enabled_of(points).len() > 0 ==> action is OpenClient
            &&& said.len() == 1
        }),
        ({
            let (state, action, said) = poll_client_opened(poll_begun(points).0, None);
            &&& state == poll_begun(points).0
            &&& action is Refresh
            &&& action->Refresh_0.len() == enabled_of(points).len()
            &&& forall|i: int|
                0 <= i < enabled_of(points).len() ==> #[trigger] action->Refresh_0[i]
                    == enabled_of(points)[i].device_instance
            &&& said.len() == 0
        }),
        ({
            let (_, action, said) = poll_client_opened(poll_begun(points).0, Some(error));
            &&& action is End
            &&& said == seq![
                WorkerEventView::Log(
                    LogLevel::Error,
                    "Polling failed: "@ + ("failed to start BACnet client: "@ + error),
                ),
                WorkerEventView::Finished("Polling failed"@),
            ]
        }),
{
}

/// Points whose devices have an address are read, the others are skipped; what is read is completed
/// by the skipped points, and published once the client has stopped.
pub proof fn law_polls_skip_missing_devices(
    state: SinglePollView,
    refresh: RefreshOutcomeView,
    outcome: PollOutcomeView,
    error: Seq<char>,
)
    requires
        outcome.failures.len() + state.enabled.len() <= usize::MAX,
        state.failing is None,
    ensures
        ({
            let (refreshed, action, _) = poll_refreshed(state, Ok(refresh));
            let (polled, then_action, quiet) = poll_polled(refreshed, Ok(outcome));
            let (stopped, last_action, said) = poll_client_stopped(polled, None);
            let (opened, publish, _) = poll_publisher_opened(stopped, None);
            &&& action == SinglePollActionView::Poll(
                split_by_device(state.enabled, refresh.unresolved.to_set()).0,
            )
            &&& refreshed.skipped == split_by_device(
                state.enabled,
                refresh.unresolved.to_set(),
            ).1
            &&& refreshed.enabled == state.enabled
            &&& polled.outcome == completed(outcome, refreshed.skipped, refresh.unresolved)
            &&& then_action is StopClient
            &&& quiet.len() == 0
            &&& last_action is OpenPublisher
            &&& stopped == polled
            &&& said == failure_events(polled.outcome.failures) + warning_events(
                polled.outcome.warnings,
            )
            &&& opened == polled
            &&& publish is Publish
            &&& publish->stale_points == polled.outcome.failures.len()
        }),
        poll_refreshed(state, Err(error)).1 is StopClient,
        poll_client_stopped(poll_refreshed(state, Err(error)).0, None).1 is End,
        poll_publisher_opened(state, Some(error)).1 is End,
{
    law_split_is_complete(state.enabled, refresh.unresolved.to_set());
}

/// After publishing, the failures, the samples and the counts are reported, in this order, and then
/// what came of it, in words.
pub proof fn law_polls_are_reported(outcome: PollOutcomeView, stats: PublishStatsView)
    ensures
        ({
            let said = poll_published(outcome, stats);
            &&& said.len() == 4
            &&& said[0] == WorkerEventView::Failures(outcome.failures)
            &&& said[1] == WorkerEventView::Samples(outcome.samples)
            &&& said[2] == WorkerEventView::PublishStatus(stats)
            &&& said[3] == WorkerEventView::Finished(
                "Published "@ + decimal(stats.published as nat) + " point(s), "@ + decimal(
                    outcome.failures.len(),
                ) + " read failure(s), "@ + decimal(stats.failed as nat)
                    + " publish failure(s)"@,
            )
        }),
{
}

/// Each failure and each warning is logged as a warning, in its order, a failure under the name of
/// its point.
pub proof fn law_failures_are_logged(
    failures: Seq<PointFailureView>,
    warnings: Seq<Seq<char>>,
    at: int,
)
    ensures
        failure_events(failures).len() == failures.len(),
        warning_events(warnings).len() == warnings.len(),
        0 <= at < failures.len() ==> {
            let point = failures[at].point;
            failure_events(failures)[at] == WorkerEventView::Log(
                LogLevel::Warning,
                point.object_type + " "@ + decimal(point.object_instance as nat) + " "@
                    + point.property + " read failed: "@ + failures[at].error,
            )
        },
        0 <= at < warnings.len() ==> warning_events(warnings)[at] == WorkerEventView::Log(
            LogLevel::Warning,
            warnings[at],
        ),
{
}

/// A scan of all devices takes them one after the other: the objects of a device are added behind
/// those found before, and for each of them one point, under the label of the device; a device that
/// could not be scanned adds nothing and counts as a failure.
pub proof fn law_devices_are_scanned_in_turn(
    state: ScanAllView,
    objects: Seq<DeviceObjectView>,
    error: Seq<char>,
    at: int,
)
    requires
        state.at < state.devices.len() <= usize::MAX,
        state.failures <= state.at,
    ensures
        ({
            let (after, action, said) = after_scan(state, Ok(objects));
            &&& after.at == state.at + 1
            &&& after.objects == state.objects + objects
            &&& after.imported.len() == state.imported.len() + objects.len()
            &&& after.imported.take(state.imported.len() as int) == state.imported
            &&& 0 <= at < objects.len() ==> after.imported[state.imported.len() + at]
                == object_point(objects[at], Some(state.label))
            &&& after.failures == state.failures
            &&& after.unresolved_scans == state.unresolved_scans
            &&& after.devices == state.devices
            &&& after.existing == state.existing
            &&& after.at < state.devices.len() ==> action == ScanAllActionView::Check(
                state.devices[state.at + 1].instance,
            )
            &&& after.at == state.devices.len() ==> action is StopClient
            &&& said.last() == WorkerEventView::ScanProgress {
                current: (state.at + 1) as usize,
                total: state.devices.len() as usize,
            }
        }),
        ({
            let (after, action, said) = after_scan(state, Err(error));
            &&& after.at == state.at + 1
            &&& after.objects == state.objects
            &&& after.imported == state.imported
            &&& after.failures == state.failures + 1
            &&& after.unresolved_scans == state.unresolved_scans
            &&& after.devices == state.devices
            &&& after.existing == state.existing
            &&& after.at < state.devices.len() ==> action == ScanAllActionView::Check(
                state.devices[state.at + 1].instance,
            )
            &&& after.at == state.devices.len() ==> action is StopClient
        }),
{
    let (after, action, said) = after_scan(state, Ok(objects));
    assert(after.imported.take(state.imported.len() as int) =~= state.imported);
}

/// A device that is still missing when it is asked for alone is passed over and counts as missing and
/// as a failure; one that is found is labelled next; where asking fails, it is passed over as a
/// failure.
pub proof fn law_missing_devices_are_passed_over(
    state: ScanAllView,
    refresh: RefreshOutcomeView,
    error: Seq<char>,
)
    requires
        state.at < state.devices.len() <= usize::MAX,
        state.failures <= state.at,
        state.unresolved_scans <= state.failures,
    ensures
        ({
            let device = state.devices[state.at as int].instance;
            let (after, action, _) = after_refresh_one(state, Ok(refresh));
            &&& refresh.unresolved.contains(device) ==> {
                &&& after.at == state.at + 1
                &&& after.failures == state.failures + 1
                &&& after.unresolved_scans == state.unresolved_scans + 1
                &&& action == next_device(after)
            }
            &&& !refresh.unresolved.contains(device) ==> after == state && action
                == ScanAllActionView::ReadLabel(device)
            &&& after.objects == state.objects
            &&& after.imported == state.imported
        }),
        ({
            let (after, action, _) = after_refresh_one(state, Err(error));
            &&& after.at == state.at + 1
            &&& after.failures == state.failures + 1
            &&& after.unresolved_scans == state.unresolved_scans
            &&& after.objects == state.objects
            &&& after.imported == state.imported
            &&& action == next_device(after)
        }),
{
}

/// At the end, the imported points are merged into the configured ones, and the devices and all
/// objects are handed over with them.
pub proof fn law_scans_end_with_an_import(state: ScanAllView)
    ensures
        ({
            let said = scan_all_ended(state);
            &&& said.len() == 2
            &&& said[0] matches WorkerEventView::BulkTagImport(outcome) && {
                &&& outcome.devices == state.devices
                &&& outcome.scanned_objects == state.objects
                &&& outcome.points == merge_all(state.existing, state.imported).points
                &&& outcome.added == merge_all(state.existing, state.imported).added
                &&& outcome.updated == merge_all(state.existing, state.imported).updated
            }
            &&& said[1] is Finished
        }),
{
}

/// The limits and waiting times that are not configured.
pub proof fn law_fixed_limits()
    ensures
        crate::worker::SCAN_MAX_OBJECTS_PER_DEVICE == 512,
        crate::worker::republisher::ROUND_REST_MS == 500,
        crate::worker::republisher::CLIENT_STOP_TIMEOUT_SECS == 5,
        crate::worker::republisher::DEVICE_RERESOLVE_INTERVAL_SECS == 60,
        crate::worker::republisher::DEVICE_TABLE_KEEPALIVE_INTERVAL_SECS == 240,
        crate::bacnet::discovery::DISCOVERY_BROADCAST_PASSES == 3,
        crate::bacnet::refresh::REFRESH_TARGETED_PASSES == 2,
        crate::bacnet::refresh::REFRESH_TARGETED_CHUNK_SIZE == 25,
        crate::bacnet::refresh::REFRESH_TARGETED_WAIT_MS == 1000,
        crate::bacnet::refresh::WARNING_MAX_LIST == 10,
        crate::bacnet::MAX_INSTANCE == 4194303,
        crate::config::CURRENT_CONFIG_VERSION == 1,
{
}

} // verus!
