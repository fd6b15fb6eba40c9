//! What the workers say while they work.

use vstd::prelude::*;

use crate::bacnet::refresh::{unresolved_warning, RefreshOutcomeView};
use crate::config::{load_message, ConfigLoad};
use crate::log::LogLevel;
use crate::model::{DeviceObjectView, DiscoverOutcomeView, PointConfigView, PollOutcomeView};
use crate::numerals::{decimal, number_list};
use crate::order::{lemma_ascending_is, strictly_ascending};
use crate::worker::backoff::{
    backoff_messages, failed_devices, failures_event, missing_failures, sampled_devices,
    DeviceBackoff,
};
use crate::worker::republisher::{
    failed_events, log_events, refreshed_events, round_events, start_events, startup_events,
    stopped_events, Phase, RepublisherView,
};
use crate::worker::scan_all::{
    refreshed_all_events, scan_all_failed, scan_all_start, scan_all_started,
};
use crate::worker::{
    discovery_ended, object_scan_ended, panic_text, RepublisherLifecycleView, WorkerEventView,
};

verus! {

/// The republisher says that it starts and with how many points, that it stops when it is told to,
/// and that it has stopped, with a warning where its client did not.
pub proof fn law_the_republisher_says_what_it_does(
    points: Seq<PointConfigView>,
    message: Seq<char>,
)
    ensures
        start_events(points).len() == 2,
        start_events(points)[0] == WorkerEventView::RepublisherLifecycle(
            RepublisherLifecycleView::Starting,
        ),
        start_events(points)[1] == WorkerEventView::Log(
            LogLevel::Info,
            "Starting continuous republisher for "@ + decimal(points.len()) + " point(s)"@,
        ),
        round_events(false).len() == 0,
        round_events(true) == seq![
            WorkerEventView::RepublisherLifecycle(RepublisherLifecycleView::Stopping),
        ],
        stopped_events(false) == seq![
            WorkerEventView::RepublisherLifecycle(RepublisherLifecycleView::Stopped),
            WorkerEventView::Finished("Continuous republisher stopped"@),
        ],
        stopped_events(true) == seq![
            WorkerEventView::Log(
                LogLevel::Warning,
                "BACnet client did not stop within 5s; abandoning it"@,
            ),
            WorkerEventView::RepublisherLifecycle(RepublisherLifecycleView::Stopped),
            WorkerEventView::Finished("Continuous republisher stopped"@),
        ],
        failed_events(message) == seq![
            WorkerEventView::Log(LogLevel::Error, message),
            WorkerEventView::RepublisherLifecycle(RepublisherLifecycleView::Failed(message)),
        ],
{
    assert(stopped_events(false) =~= seq![
        WorkerEventView::RepublisherLifecycle(RepublisherLifecycleView::Stopped),
        WorkerEventView::Finished("Continuous republisher stopped"@),
    ]);
    assert(stopped_events(true) =~= seq![
        WorkerEventView::Log(
            LogLevel::Warning,
            "BACnet client did not stop within 5s; abandoning it"@,
        ),
        WorkerEventView::RepublisherLifecycle(RepublisherLifecycleView::Stopped),
        WorkerEventView::Finished("Continuous republisher stopped"@),
    ]);
}

/// At the start, missing devices are counted in a warning, and a failed refresh is told; where all
/// devices were found, nothing is said.
pub proof fn law_missing_devices_are_told(
    devices: Seq<u32>,
    refresh: RefreshOutcomeView,
    error: Seq<char>,
)
    ensures
        refresh.unresolved.len() == 0 ==> startup_events(devices, Ok(refresh)).len() == 0,
        refresh.unresolved.len() > 0 ==> startup_events(devices, Ok(refresh)) == seq![
            WorkerEventView::Log(
                LogLevel::Warning,
                decimal(refresh.unresolved.len()) + " of "@ + decimal(devices.len())
                    + " device(s) not in I-Am cache; their points will be skipped (resolution retried every 60s)"@,
            ),
        ],
        startup_events(devices, Err(error)) == seq![
            WorkerEventView::Log(LogLevel::Warning, "Device table refresh failed: "@ + error),
        ],
        unresolved_warning(devices) == if devices.len() <= 10 {
            decimal(devices.len()) + " device(s) unresolved (not in I-Am cache): "@ + number_list(
                devices,
            )
        } else {
            decimal(devices.len()) + " device(s) unresolved (not in I-Am cache); first 10: "@
                + number_list(devices.take(10))
        },
{
}

/// When addresses come in, the devices that were found again are told, and those that are newly
/// missing are warned of, each list in ascending order and by what was asked; the points of the
/// latter are reported as failed.
pub proof fn law_changes_are_told(
    state: RepublisherView,
    refresh: RefreshOutcomeView,
    found: Seq<u32>,
    lost: Seq<u32>,
    error: Seq<char>,
)
    requires
        strictly_ascending(found),
        strictly_ascending(lost),
        forall|device: u32| #[trigger] found.contains(device) <==> state.unresolved.contains(device)
            && refresh.resolved.contains(device),
        forall|device: u32| #[trigger] lost.contains(device) <==> refresh.unresolved.contains(device)
            && (!state.unresolved.contains(device) || refresh.resolved.contains(device)),
    ensures
        ({
            let said = refreshed_events(state, Ok(refresh));
            let asked = if state.phase == Phase::Keepalive {
                "device table keepalive"@
            } else {
                "device re-resolution"@
            };
            let good = WorkerEventView::Log(
                LogLevel::Info,
                decimal(found.len()) + " device(s) resolved during "@ + asked + ": "@
                    + number_list(found),
            );
            let bad = WorkerEventView::Log(
                LogLevel::Warning,
                decimal(lost.len()) + " device(s) unresolved during "@ + asked + ": "@
                    + number_list(lost),
            );
            let failures = missing_failures(state.points, lost.to_set());
            &&& found.len() == 0 && lost.len() == 0 ==> said.len() == 0
            &&& found.len() > 0 ==> said[0] == good
            &&& found.len() > 0 && lost.len() == 0 ==> said.len() == 1
            &&& found.len() == 0 && lost.len() > 0 ==> said[0] == bad
            &&& found.len() > 0 && lost.len() > 0 ==> said[1] == bad
            &&& lost.len() > 0 && failures.len() > 0 ==> said.last() == WorkerEventView::Failures(
                failures,
            )
            &&& lost.len() > 0 && failures.len() == 0 ==> said.last() == bad
        }),
        refreshed_events(state, Err(error)) == seq![
            WorkerEventView::Log(
                LogLevel::Warning,
                if state.phase == Phase::Keepalive {
                    "Device table keepalive failed: "@ + error
                } else {
                    "Device re-resolution failed: "@ + error
                },
            ),
        ],
{
    let resolved = crate::worker::backoff::newly_resolved(state.unresolved, refresh);
    let unresolved = crate::worker::backoff::newly_unresolved(state.unresolved, refresh);
    assert(found.to_set() =~= resolved);
    assert(lost.to_set() =~= unresolved);
    lemma_ascending_is(found, resolved);
    lemma_ascending_is(lost, unresolved);
}

/// After a poll, each polled device is spoken of in its order: one that answers again is told, one
/// that only failed is warned of with the seconds that it is left alone, and of the others nothing
/// is said.
pub proof fn law_pauses_are_told(
    backoffs: Map<u32, DeviceBackoff>,
    outcome: PollOutcomeView,
    longest: u128,
    devices: Seq<u32>,
    device: u32,
)
    ensures
        backoff_messages(backoffs, outcome, longest, Seq::empty()).len() == 0,
        ({
            let before = backoff_messages(backoffs, outcome, longest, devices);
            let after = backoff_messages(backoffs, outcome, longest, devices.push(device));
            let answered = sampled_devices(outcome).contains(device);
            let failed = failed_devices(outcome).contains(device);
            &&& answered && backoffs.contains_key(device) ==> after == before.push(
                (
                    LogLevel::Info,
                    "device "@ + decimal(device as nat) + " responding again; backoff cleared"@,
                ),
            )
            &&& answered && !backoffs.contains_key(device) ==> after == before
            &&& !answered && !failed ==> after == before
            &&& !answered && failed && !backoffs.contains_key(device) && longest >= 10_000_000_000
                ==> after == before.push(
                (
                    LogLevel::Warning,
                    "device "@ + decimal(device as nat)
                        + ": all reads failed; next attempt in "@ + decimal(10) + "s"@,
                ),
            )
            &&& !answered && failed ==> after.len() == before.len() + 1 && after.last().0
                == LogLevel::Warning
        }),
{
    assert(devices.push(device).drop_last() =~= devices);
    assert(sampled_devices(outcome).to_set().contains(device) == sampled_devices(outcome).contains(
        device,
    ));
}

/// Messages are logged one by one, and a report of failures is made where there are any.
pub proof fn law_messages_are_passed_on(
    messages: Seq<(LogLevel, Seq<char>)>,
    failures: Seq<crate::model::PointFailureView>,
    at: int,
)
    ensures
        log_events(messages).len() == messages.len(),
        0 <= at < messages.len() ==> log_events(messages)[at] == WorkerEventView::Log(
            messages[at].0,
            messages[at].1,
        ),
        failures.len() == 0 ==> failures_event(failures).len() == 0,
        failures.len() > 0 ==> failures_event(failures) == seq![
            WorkerEventView::Failures(failures),
        ],
{
}

/// Discovery ends with its warnings, its devices and their number; or with why it failed.
pub proof fn law_discovery_is_reported(outcome: DiscoverOutcomeView, error: Seq<char>, at: int)
    ensures
        ({
            let said = discovery_ended(Ok(outcome));
            let count = outcome.warnings.len();
            &&& said.len() == count + 2
            &&& 0 <= at < count ==> said[at] == WorkerEventView::Log(
                LogLevel::Warning,
                outcome.warnings[at],
            )
            &&& said[count as int] == WorkerEventView::Devices(outcome.devices)
            &&& count == 0 ==> said.last() == WorkerEventView::Finished(
                "Discovered "@ + decimal(outcome.devices.len()) + " BACnet device(s)"@,
            )
            &&& count > 0 ==> said.last() == WorkerEventView::Finished(
                "Discovered "@ + decimal(outcome.devices.len()) + " BACnet device(s) with "@
                    + decimal(count) + " interface warning(s)"@,
            )
        }),
        discovery_ended(Err(error)) == seq![
            WorkerEventView::Log(LogLevel::Error, "Discovery failed: "@ + error),
            WorkerEventView::Finished("Discovery failed"@),
        ],
{
}

/// The scan of a device ends with its objects and their number; or with why it failed.
pub proof fn law_object_scans_are_reported(
    device: u32,
    objects: Seq<DeviceObjectView>,
    error: Seq<char>,
)
    ensures
        object_scan_ended(device, Ok(objects)) == seq![
            WorkerEventView::Objects(objects),
            WorkerEventView::Finished(
                "Found "@ + decimal(objects.len()) + " object(s) on device "@ + decimal(
                    device as nat,
                ),
            ),
        ],
        object_scan_ended(device, Err(error)) == seq![
            WorkerEventView::Log(LogLevel::Error, "Object scan failed: "@ + error),
            WorkerEventView::Finished("Object scan failed"@),
        ],
{
}

/// A scan of all devices starts with none of them done, nothing found and nothing failed, and says
/// how many there are; missing devices are counted in a warning.
pub proof fn law_scans_of_all_devices_are_reported(
    devices: Seq<crate::model::DiscoveredDeviceView>,
    existing: Seq<PointConfigView>,
    refresh: RefreshOutcomeView,
    error: Seq<char>,
)
    requires
        devices.len() <= usize::MAX,
    ensures
        ({
            let state = scan_all_start(devices, existing);
            &&& state.devices == devices
            &&& state.existing == existing
            &&& state.at == 0
            &&& state.failures == 0
            &&& state.unresolved_scans == 0
            &&& state.objects.len() == 0
            &&& state.imported.len() == 0
        }),
        scan_all_started(devices.len()) == seq![
            WorkerEventView::Log(
                LogLevel::Info,
                "Scanning object lists for "@ + decimal(devices.len()) + " device(s)"@,
            ),
            WorkerEventView::ScanProgress { current: 0, total: devices.len() as usize },
        ],
        scan_all_failed(error) == seq![
            WorkerEventView::Log(
                LogLevel::Error,
                "Failed to start BACnet client for scan-all: "@ + error,
            ),
            WorkerEventView::Finished("Scan all failed"@),
        ],
        refresh.unresolved.len() == 0 ==> refreshed_all_events(devices.len(), Ok(refresh)).len()
            == 0,
        refresh.unresolved.len() > 0 ==> refreshed_all_events(devices.len(), Ok(refresh)) == seq![
            WorkerEventView::Log(
                LogLevel::Warning,
                decimal(refresh.unresolved.len()) + " of "@ + decimal(devices.len())
                    + " device(s) not in I-Am cache after refresh; retrying before each affected scan"@,
            ),
        ],
        refreshed_all_events(devices.len(), Err(error)) == seq![
            WorkerEventView::Log(LogLevel::Warning, "Device table refresh failed: "@ + error),
        ],
{
}

/// A crash is told by its message: a fixed text, or one that was made, or that there is none.
pub proof fn law_crashes_are_told(fixed: Seq<char>, made: Seq<char>)
    ensures
        panic_text(Some(fixed), Some(made)) == fixed,
        panic_text(Some(fixed), None) == fixed,
        panic_text(None, Some(made)) == made,
        panic_text(None, None) == "unknown panic"@,
{
}

/// How the configuration was loaded is told: where it could not be, that the defaults are used, and
/// why, unless there simply was none.
pub proof fn law_loading_is_told(load: ConfigLoad)
    ensures
        match load {
            ConfigLoad::NoPath(error) => load_message(load) == error@,
            ConfigLoad::Loaded(_) => load_message(load) == "Loaded saved configuration"@,
            ConfigLoad::Failed { error, exists } => load_message(load) == if exists {
                "Using defaults; config load failed: "@ + error@
            } else {
                "Using default configuration"@
            },
        },
{
}

} // verus!
