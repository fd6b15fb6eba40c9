//! What workers report, and the decisions of the republisher and of the scan of all devices.

use bacnet_republisher::address::Ipv4Addr;
use bacnet_republisher::bacnet::refresh::RefreshOutcome;
use bacnet_republisher::config::{BacnetConfig, MqttConfig};
use bacnet_republisher::log::LogLevel;
use bacnet_republisher::model::{
    DeviceObject, DiscoverOutcome, DiscoveredDevice, NetworkInterface, Numeric, PointConfig,
    PointFailure, PointIdentity, PointSample, PollOutcome, PublishStats, TelemetryValue,
};
use bacnet_republisher::mqtt::{History, MqttPublisher};
use bacnet_republisher::statuses::StatusTable;
use bacnet_republisher::worker::backoff::{
    apply_refresh_state, emit_refresh_state_change, record_unresolved_failures, seconds,
    update_device_backoffs, DeviceBackoff, RefreshStateChange,
};
use bacnet_republisher::worker::republisher::{
    emit_republisher_lost, Republisher, RepublisherAction,
};
use bacnet_republisher::worker::scan_all::{ScanAll, ScanAllAction};
use bacnet_republisher::worker::single::{
    SinglePoll, SinglePollAction, SingleScan, SingleScanAction,
};
use bacnet_republisher::worker::{
    emit_before_publishing, emit_crashed, emit_discovery_ended, emit_discovery_started,
    emit_object_scan_ended, emit_object_scan_started, emit_poll_failed, emit_poll_outcome,
    emit_poll_started, emit_publisher_failed, emit_runtime_failed, emit_single_poll,
    health_snapshot, panic_message, publish_poll, RepublisherLifecycle, WorkerEvent,
};
use std::collections::{HashMap, HashSet};

/// Some time after the beginning.
const NOW: u128 = 1_000_000_000_000;

fn point_on_device(device_instance: u32, enabled: bool) -> PointConfig {
    PointConfig { device_instance, enabled, ..PointConfig::default() }
}

/// What was reported, in words.
fn said(events: &[WorkerEvent]) -> Vec<String> {
    events
        .iter()
        .map(|event| match event {
            WorkerEvent::Log(level, message) => format!("{} {message}", level.to_text()),
            WorkerEvent::Devices(devices) => format!("devices {}", devices.len()),
            WorkerEvent::Objects(objects) => format!("objects {}", objects.len()),
            WorkerEvent::ScanProgress { current, total } => format!("progress {current}/{total}"),
            WorkerEvent::BulkTagImport(outcome) => format!(
                "import {} +{} ~{}",
                outcome.points.len(),
                outcome.added,
                outcome.updated
            ),
            WorkerEvent::Samples(samples) => format!("samples {}", samples.len()),
            WorkerEvent::Failures(failures) => format!("failures {}", failures.len()),
            WorkerEvent::PublishStatus(stats) => {
                format!("published {} failed {}", stats.published, stats.failed)
            }
            WorkerEvent::RepublisherLifecycle(state) => format!("{state:?}"),
            WorkerEvent::Finished(message) => format!("finished {message}"),
        })
        .collect()
}

#[test]
fn unresolved_devices_mark_points_stale_and_emit_failures() {
    let mut events = Vec::new();
    let points = vec![
        point_on_device(100, true),
        point_on_device(200, true),
        point_on_device(100, false),
    ];
    let unresolved = HashSet::from([100]);
    let mut statuses = StatusTable::new();

    record_unresolved_failures(&mut events, &points, &unresolved, &mut statuses);

    assert_eq!(statuses.len(), 1);
    let status = statuses.get(&PointIdentity::from_point(&points[0])).unwrap();
    assert!(status.stale);
    assert!(status.last_error.as_deref().unwrap().contains("100"));

    match events.remove(0) {
        WorkerEvent::Failures(failures) => {
            assert_eq!(failures.len(), 1);
            assert_eq!(failures[0].point.device_instance, 100);
        }
        other => panic!("expected Failures event, got {other:?}"),
    }
}

#[test]
fn fully_resolved_devices_emit_nothing() {
    let mut events = Vec::new();
    let points = vec![point_on_device(100, true)];
    let mut statuses = StatusTable::new();

    record_unresolved_failures(&mut events, &points, &HashSet::new(), &mut statuses);

    assert_eq!(statuses.len(), 0);
    assert!(events.is_empty());
}

#[test]
fn refresh_state_adds_and_removes_unresolved_devices_and_clears_backoff() {
    let mut unresolved = HashSet::from([100, 200]);
    let now = NOW;
    let mut backoffs = HashMap::from([
        (100, DeviceBackoff { delay: seconds(10), until: now }),
        (300, DeviceBackoff { delay: seconds(10), until: now }),
    ]);
    let refresh = RefreshOutcome { resolved: vec![100, 300], unresolved: vec![200, 400] };

    let change = apply_refresh_state(&mut unresolved, &mut backoffs, &refresh);

    assert_eq!(change.newly_resolved, vec![100]);
    assert_eq!(change.newly_unresolved, HashSet::from([400]));
    assert_eq!(unresolved, HashSet::from([200, 400]));
    assert!(!backoffs.contains_key(&100));
    assert!(!backoffs.contains_key(&300));
}

fn outcome_with(samples_for: &[u32], failures_for: &[u32]) -> PollOutcome {
    PollOutcome {
        samples: samples_for
            .iter()
            .map(|&device_instance| PointSample {
                point: point_on_device(device_instance, true),
                topic: "t".to_string(),
                value: TelemetryValue::Number(Numeric::Double(1.0f64.to_bits())),
                timestamp_ms: 0,
            })
            .collect(),
        failures: failures_for
            .iter()
            .map(|&device_instance| PointFailure {
                point: point_on_device(device_instance, true),
                error: "timeout".to_string(),
            })
            .collect(),
        warnings: Vec::new(),
    }
}

#[test]
fn failing_device_backs_off_exponentially_up_to_cap() {
    let mut backoffs = HashMap::new();
    let polled = HashSet::from([100]);
    let now = NOW;
    let max = seconds(30);

    update_device_backoffs(&mut backoffs, &polled, &outcome_with(&[], &[100]), now, max);
    assert_eq!(backoffs[&100].delay, seconds(10));
    assert_eq!(backoffs[&100].until, now + seconds(10));

    update_device_backoffs(&mut backoffs, &polled, &outcome_with(&[], &[100]), now, max);
    assert_eq!(backoffs[&100].delay, seconds(20));

    update_device_backoffs(&mut backoffs, &polled, &outcome_with(&[], &[100]), now, max);
    assert_eq!(backoffs[&100].delay, seconds(30));

    let messages =
        update_device_backoffs(&mut backoffs, &polled, &outcome_with(&[], &[100]), now, max);
    assert_eq!(backoffs[&100].delay, seconds(30));
    assert_eq!(
        messages,
        vec![(
            LogLevel::Warning,
            "device 100: all reads failed; next attempt in 30s".to_string()
        )]
    );
}

#[test]
fn successful_sample_clears_backoff_even_with_partial_failures() {
    let mut backoffs = HashMap::new();
    let polled = HashSet::from([100]);
    let now = NOW;
    let max = seconds(300);

    update_device_backoffs(&mut backoffs, &polled, &outcome_with(&[], &[100]), now, max);
    assert!(backoffs.contains_key(&100));

    // One good sample means the device is alive, even if other points failed.
    let messages = update_device_backoffs(
        &mut backoffs,
        &polled,
        &outcome_with(&[100], &[100]),
        now,
        max,
    );
    assert!(backoffs.is_empty());
    assert!(messages.iter().any(|(_, message)| message.contains("responding again")));
}

#[test]
fn cancelled_cycle_leaves_unreached_devices_untouched() {
    let mut backoffs = HashMap::new();
    let polled = HashSet::from([100, 200]);
    let now = NOW;
    let max = seconds(300);

    // Device 200 was in the poll set but produced neither samples nor failures.
    update_device_backoffs(&mut backoffs, &polled, &outcome_with(&[100], &[]), now, max);
    assert!(!backoffs.contains_key(&200));
}

#[test]
fn changes_of_the_device_table_are_reported() {
    let mut events = Vec::new();
    let mut statuses = StatusTable::new();
    let points = vec![point_on_device(400, true)];
    let change = RefreshStateChange {
        newly_resolved: vec![1, 2],
        newly_unresolved: HashSet::from([500, 400]),
    };
    emit_refresh_state_change(&mut events, &points, "device re-resolution", change, &mut statuses);
    assert_eq!(
        said(&events),
        vec![
            "INFO 2 device(s) resolved during device re-resolution: [1, 2]",
            "WARN 2 device(s) unresolved during device re-resolution: [400, 500]",
            "failures 1",
        ]
    );
    assert_eq!(statuses.stale_count(), 1);
}

#[test]
fn single_operations_report_their_course() {
    let mut events = Vec::new();
    emit_discovery_started(&mut events);
    let outcome =
        DiscoverOutcome { devices: Vec::new(), warnings: vec!["w".to_string()] };
    emit_discovery_ended(&mut events, Ok(outcome));
    emit_discovery_ended(&mut events, Err("e".to_string()));
    emit_object_scan_started(&mut events, 5);
    emit_object_scan_ended(&mut events, 5, Ok(Vec::new()));
    emit_object_scan_ended(&mut events, 5, Err("e".to_string()));
    emit_poll_started(&mut events, 3);
    emit_poll_failed(&mut events, "e");
    emit_publisher_failed(&mut events, "e");
    emit_runtime_failed(&mut events, "e");
    emit_crashed(&mut events, &panic_message(Some("boom"), None));
    emit_republisher_lost(&mut events);
    assert_eq!(
        said(&events),
        vec![
            "INFO Starting BACnet discovery",
            "WARN w",
            "devices 0",
            "finished Discovered 0 BACnet device(s) with 1 interface warning(s)",
            "ERROR Discovery failed: e",
            "finished Discovery failed",
            "INFO Scanning object list for device 5",
            "objects 0",
            "finished Found 0 object(s) on device 5",
            "ERROR Object scan failed: e",
            "finished Object scan failed",
            "INFO Polling 3 configured point(s)",
            "ERROR Polling failed: e",
            "finished Polling failed",
            "ERROR MQTT publisher setup failed: e",
            "finished Publishing failed",
            "ERROR Failed to start async runtime: e",
            "ERROR Worker thread crashed: boom",
            "finished Worker stopped unexpectedly",
            "Failed(\"Republisher worker stopped unexpectedly; see log for details\")",
        ]
    );
    assert_eq!(panic_message(None, Some("made")), "made");
    assert_eq!(panic_message(None, None), "unknown panic");
}

#[test]
fn polls_report_failures_before_and_counts_after_publishing() {
    let mut outcome = outcome_with(&[1], &[2]);
    outcome.warnings.push("w".to_string());
    let mut events = Vec::new();
    emit_single_poll(&mut events, &outcome);
    assert_eq!(
        said(&events),
        vec!["WARN analog_input 0 present_value read failed: timeout", "WARN w"]
    );
    events.clear();
    emit_before_publishing(&mut events, &outcome);
    assert_eq!(
        said(&events),
        vec!["WARN w", "WARN analog_input 0 present_value read failed: timeout"]
    );
    events.clear();
    let mut stats = PublishStats::empty();
    stats.published = 1;
    stats.record_failure("gone");
    let snapshot = health_snapshot(&outcome, &stats, 6);
    assert_eq!(
        (snapshot.published, snapshot.failed_reads, snapshot.failed_publishes),
        (1, 1, 1)
    );
    assert_eq!((snapshot.stale_points, snapshot.last_error.as_deref()), (6, Some("gone")));
    let summary = emit_poll_outcome(&mut events, outcome, stats);
    assert_eq!(summary, "Published 1 point(s), 1 read failure(s), 1 publish failure(s)");
    assert_eq!(said(&events), vec!["failures 1", "samples 1", "published 1 failed 1"]);
}

fn interfaces() -> Vec<NetworkInterface> {
    vec![NetworkInterface { name: "en0".to_string(), addr: Ipv4Addr::new(10, 0, 0, 1) }]
}

fn running(points: Vec<PointConfig>, refresh: RefreshOutcome) -> (Republisher, Vec<WorkerEvent>) {
    let mut events = Vec::new();
    let (mut state, action) = Republisher::start(&BacnetConfig::default(), points, &mut events);
    assert!(matches!(action, RepublisherAction::OpenPublisher));
    let action = state.publisher_opened(&interfaces(), None, &mut events);
    assert!(matches!(action, RepublisherAction::OpenClient(addr) if addr.d == 1));
    assert!(matches!(state.client_opened(None, &mut events), RepublisherAction::Refresh(_)));
    let action = state.startup_refreshed(Ok(refresh), NOW, &mut events);
    assert!(matches!(action, RepublisherAction::Round));
    (state, events)
}

fn refreshed(resolved: &[u32], unresolved: &[u32]) -> RefreshOutcome {
    RefreshOutcome { resolved: resolved.to_vec(), unresolved: unresolved.to_vec() }
}

#[test]
fn the_republisher_polls_what_is_due() {
    let points = vec![
        point_on_device(100, true),
        point_on_device(200, true),
        point_on_device(300, false),
    ];
    let (mut state, mut events) = running(points, refreshed(&[100], &[200]));
    assert_eq!(state.devices, vec![100, 200]);
    assert_eq!(
        said(&events),
        vec![
            "Starting",
            "INFO Starting continuous republisher for 3 point(s)",
            "Running",
            "WARN 1 of 2 device(s) not in I-Am cache; their points will be skipped (resolution retried every 60s)",
            "failures 1",
        ]
    );
    events.clear();
    match state.round(false, NOW, &mut events) {
        RepublisherAction::Poll(points) => {
            assert_eq!(points.len(), 1);
            assert_eq!(points[0].device_instance, 100);
        }
        other => panic!("unexpected action {other:?}"),
    }
    let action = state.polled(&outcome_with(&[100], &[]), &mut events);
    assert!(matches!(action, RepublisherAction::Publish { stale_points: 1 }));

    // Nothing is due again before the poll interval is over.
    let action = state.round(false, NOW + seconds(9), &mut events);
    assert!(matches!(action, RepublisherAction::Rest));
    let action = state.round(false, NOW + seconds(10), &mut events);
    assert!(matches!(action, RepublisherAction::Poll(_)));
    let action = state.polled(&outcome_with(&[], &[100]), &mut events);
    assert!(matches!(action, RepublisherAction::Publish { stale_points: 2 }));
    assert_eq!(
        said(&events),
        vec!["WARN device 100: all reads failed; next attempt in 10s"]
    );
    // The device is paused, and polled again after that.
    let action = state.round(false, NOW + seconds(19), &mut events);
    assert!(matches!(action, RepublisherAction::Rest));
    let action = state.round(false, NOW + seconds(20), &mut events);
    assert!(matches!(action, RepublisherAction::Poll(_)));
    events.clear();
    assert!(matches!(state.poll_failed("down", &mut events), RepublisherAction::Rest));
    assert_eq!(said(&events), vec!["ERROR Republisher poll failed: down"]);
}

#[test]
fn the_republisher_looks_for_missing_devices() {
    let (mut state, mut events) =
        running(vec![point_on_device(200, true)], refreshed(&[], &[200]));
    let action = state.round(false, NOW + seconds(59), &mut events);
    assert!(matches!(action, RepublisherAction::Rest));
    match state.round(false, NOW + seconds(60), &mut events) {
        RepublisherAction::Refresh(devices) => assert_eq!(devices, vec![200]),
        other => panic!("unexpected action {other:?}"),
    }
    events.clear();
    let action = state.refreshed(Ok(refreshed(&[200], &[])), NOW + seconds(63), &mut events);
    assert!(matches!(action, RepublisherAction::Poll(_)));
    assert_eq!(
        said(&events),
        vec!["INFO 1 device(s) resolved during device re-resolution: [200]"]
    );
}

#[test]
fn the_republisher_keeps_the_device_table_alive() {
    let (mut state, mut events) =
        running(vec![point_on_device(200, true)], refreshed(&[200], &[]));
    match state.round(false, NOW + seconds(240), &mut events) {
        RepublisherAction::Refresh(devices) => assert_eq!(devices, vec![200]),
        other => panic!("unexpected action {other:?}"),
    }
    events.clear();
    let action = state.refreshed(Err("down".to_string()), NOW + seconds(243), &mut events);
    assert!(matches!(action, RepublisherAction::Poll(_)));
    assert_eq!(said(&events), vec!["WARN Device table keepalive failed: down"]);
}

#[test]
fn the_republisher_stops_in_order() {
    let (mut state, mut events) =
        running(vec![point_on_device(200, true)], refreshed(&[200], &[]));
    events.clear();
    let action = state.round(true, NOW, &mut events);
    assert!(matches!(action, RepublisherAction::StopClient));
    assert!(matches!(state.client_stopped(true, &mut events), RepublisherAction::End));
    assert_eq!(
        said(&events),
        vec![
            "Stopping",
            "WARN BACnet client did not stop within 5s; abandoning it",
            "Stopped",
            "finished Continuous republisher stopped",
        ]
    );
}

#[test]
fn the_republisher_fails_where_nothing_opens() {
    let mut events = Vec::new();
    let (mut state, _) = Republisher::start(&BacnetConfig::default(), Vec::new(), &mut events);
    events.clear();
    let action = state.publisher_opened(&[], Some("no tls".to_string()), &mut events);
    assert!(matches!(action, RepublisherAction::End));
    assert_eq!(
        said(&events),
        vec![
            "ERROR MQTT publisher setup failed: no tls",
            "Failed(\"MQTT publisher setup failed: no tls\")",
        ]
    );
    let (mut state, _) = Republisher::start(&BacnetConfig::default(), Vec::new(), &mut events);
    let _ = state.publisher_opened(&[], None, &mut events);
    events.clear();
    let action = state.client_opened(Some("in use".to_string()), &mut events);
    assert!(matches!(action, RepublisherAction::End));
    assert_eq!(
        said(&events),
        vec![
            "ERROR Failed to start BACnet client: in use",
            "Failed(\"Failed to start BACnet client: in use\")",
        ]
    );
}

fn device(instance: u32) -> DiscoveredDevice {
    DiscoveredDevice {
        instance,
        address: String::new(),
        vendor_id: 0,
        max_apdu_length: 0,
        last_seen_ms: 0,
    }
}

fn object(device_instance: u32) -> DeviceObject {
    DeviceObject {
        device_instance,
        object_type: "analog_input".to_string(),
        object_instance: 1,
        object_name: Some("Temp".to_string()),
        description: None,
        units: None,
        present_value: None,
    }
}

#[test]
fn a_scan_of_all_devices_visits_each() {
    let mut events = Vec::new();
    let (mut scan, action) =
        ScanAll::start(vec![device(1), device(2), device(3), device(4)], Vec::new(), &mut events);
    assert!(matches!(action, ScanAllAction::OpenClient));
    let action = scan.client_opened(None, &mut events);
    assert!(matches!(action, ScanAllAction::RefreshAll(devices) if devices == vec![1, 2, 3, 4]));
    let action = scan.refreshed_all(Ok(refreshed(&[1], &[2, 3, 4])), &mut events);
    assert!(matches!(action, ScanAllAction::Check(1)));
    assert!(matches!(scan.checked(true), ScanAllAction::ReadLabel(1)));
    assert!(matches!(scan.labelled("AHU".to_string()), ScanAllAction::Scan(1, 512)));
    let action = scan.scanned(Ok(vec![object(1)]), &mut events);
    assert!(matches!(action, ScanAllAction::Check(2)));
    assert!(matches!(scan.checked(false), ScanAllAction::RefreshOne(2)));
    let action = scan.refreshed_one(Ok(refreshed(&[], &[2])), &mut events);
    assert!(matches!(action, ScanAllAction::Check(3)));
    let _ = scan.checked(false);
    let action = scan.refreshed_one(Err("down".to_string()), &mut events);
    assert!(matches!(action, ScanAllAction::Check(4)));
    let _ = scan.checked(false);
    let action = scan.refreshed_one(Ok(refreshed(&[4], &[])), &mut events);
    assert!(matches!(action, ScanAllAction::ReadLabel(4)));
    let _ = scan.labelled("VAV".to_string());
    let action = scan.scanned(Err("timeout".to_string()), &mut events);
    assert!(matches!(action, ScanAllAction::StopClient));
    match scan.stopped(&mut events) {
        ScanAllAction::End => {}
        other => panic!("unexpected action {other:?}"),
    }
    assert_eq!(
        said(&events),
        vec![
            "INFO Scanning object lists for 4 device(s)",
            "progress 0/4",
            "WARN 3 of 4 device(s) not in I-Am cache after refresh; retrying before each affected scan",
            "INFO [1/4] device 1: 1 object(s)",
            "progress 1/4",
            "WARN device 2: unresolved after focused refresh; scan skipped",
            "progress 2/4",
            "WARN device 3: focused refresh failed: down",
            "progress 3/4",
            "INFO device 4: resolved after focused refresh",
            "WARN device 4: scan failed: timeout",
            "progress 4/4",
            "import 1 +1 ~0",
            "finished Scanned 1 object(s) across 4 device(s) (3 failure(s), 1 unresolved) — 1 point(s) added, 0 updated, 1 total",
        ]
    );
}

#[test]
fn a_scan_without_a_client_fails() {
    let mut events = Vec::new();
    let (scan, _) = ScanAll::start(vec![device(1)], Vec::new(), &mut events);
    events.clear();
    let action = scan.client_opened(Some("in use".to_string()), &mut events);
    assert!(matches!(action, ScanAllAction::End));
    assert_eq!(
        said(&events),
        vec![
            "ERROR Failed to start BACnet client for scan-all: in use",
            "finished Scan all failed",
        ]
    );
    assert_eq!(RepublisherLifecycle::Stopped, RepublisherLifecycle::Stopped.clone());
}

fn ended(action: SinglePollAction) -> bool {
    matches!(action, SinglePollAction::End)
}

#[test]
fn a_single_poll_runs_its_course() {
    let points =
        vec![point_on_device(1, true), point_on_device(2, true), point_on_device(3, false)];
    let mut events = Vec::new();
    let (mut poll, action) = SinglePoll::start(points, &mut events);
    assert!(matches!(action, SinglePollAction::OpenClient));
    let SinglePollAction::Refresh(devices) = poll.client_opened(None, &mut events) else {
        panic!("the addresses are to be refreshed");
    };
    assert_eq!(devices, vec![1, 2]);
    let SinglePollAction::Poll(points) = poll.refreshed(Ok(refreshed(&[1], &[2]))) else {
        panic!("the points are to be polled");
    };
    assert_eq!(points.len(), 1);
    assert_eq!(points[0].device_instance, 1);
    let action = poll.polled(Ok(outcome_with(&[1], &[])), &mut events);
    assert!(matches!(action, SinglePollAction::StopClient));
    let action = poll.client_stopped(None, &mut events);
    assert!(matches!(action, SinglePollAction::OpenPublisher));
    let action = poll.publisher_opened(None, &mut events);
    assert!(matches!(action, SinglePollAction::Publish { stale_points: 1 }));
    assert_eq!(poll.outcome.failures[0].error, "device 2 not in I-Am cache");
    let mut stats = PublishStats::empty();
    stats.published = 1;
    poll.published(stats, &mut events);
    let failure = "WARN analog_input 0 present_value read failed: device 2 not in I-Am cache";
    let said = said(&events);
    assert_eq!(said[0], "INFO Polling 3 configured point(s)");
    assert_eq!(said[1], failure);
    assert_eq!(said[2], said[3]);
    assert_eq!(said[4], failure);
    assert_eq!(
        said[5..],
        [
            "failures 1",
            "samples 1",
            "published 1 failed 0",
            "finished Published 1 point(s), 1 read failure(s), 0 publish failure(s)",
        ]
    );
}

#[test]
fn a_single_poll_that_fails_publishes_nothing() {
    let failed = |error: &str| {
        vec![format!("ERROR Polling failed: {error}"), "finished Polling failed".to_string()]
    };
    let start = || {
        let (poll, _) = SinglePoll::start(vec![point_on_device(1, true)], &mut Vec::new());
        (poll, Vec::new())
    };

    let (poll, mut events) = start();
    assert!(ended(poll.client_opened(Some("in use".to_string()), &mut events)));
    assert_eq!(said(&events), failed("failed to start BACnet client: in use"));

    let (mut poll, mut events) = start();
    let action = poll.refreshed(Err("unreachable".to_string()));
    assert!(matches!(action, SinglePollAction::StopClient));
    assert!(ended(poll.client_stopped(None, &mut events)));
    assert_eq!(said(&events), failed("unreachable"));

    let (mut poll, mut events) = start();
    poll.refreshed(Err("unreachable".to_string()));
    assert!(ended(poll.client_stopped(Some("stuck".to_string()), &mut events)));
    assert_eq!(said(&events), failed("stuck"));

    let (mut poll, mut events) = start();
    assert!(ended(poll.polled(Err("lost".to_string()), &mut events)));
    assert_eq!(said(&events), failed("lost"));

    let (poll, mut events) = start();
    assert!(ended(poll.publisher_opened(Some("no broker".to_string()), &mut events)));
    assert_eq!(
        said(&events),
        vec!["ERROR MQTT publisher setup failed: no broker", "finished Publishing failed"]
    );
}

#[test]
fn a_single_poll_without_enabled_points_needs_no_client() {
    let mut events = Vec::new();
    let (poll, action) = SinglePoll::start(vec![point_on_device(1, false)], &mut events);
    assert!(matches!(action, SinglePollAction::OpenPublisher));
    let action = poll.publisher_opened(None, &mut events);
    assert!(matches!(action, SinglePollAction::Publish { stale_points: 0 }));
    assert!(poll.outcome.samples.is_empty());
}

#[test]
fn a_single_scan_runs_its_course() {
    let mut events = Vec::new();
    let (mut scan, action) = SingleScan::start(7, &mut events);
    assert_eq!(action, SingleScanAction::OpenClient);
    assert_eq!(scan.client_opened(None, &mut events), SingleScanAction::Refresh(7));
    assert_eq!(scan.refreshed(None, &mut events), SingleScanAction::Scan(7, 512));
    assert_eq!(scan.scanned(Ok(vec![object(7)])), SingleScanAction::StopClient);
    scan.stopped(None, &mut events);
    assert_eq!(
        said(&events),
        vec![
            "INFO Scanning object list for device 7",
            "objects 1",
            "finished Found 1 object(s) on device 7",
        ]
    );
}

#[test]
fn a_single_scan_reports_what_failed() {
    let failed = |error: &str| {
        vec![
            format!("ERROR Object scan failed: {error}"),
            "finished Object scan failed".to_string(),
        ]
    };
    let start = || (SingleScan::start(7, &mut Vec::new()).0, Vec::new());

    let (scan, mut events) = start();
    let action = scan.client_opened(Some("in use".to_string()), &mut events);
    assert_eq!(action, SingleScanAction::End);
    assert_eq!(said(&events), failed("failed to start BACnet client: in use"));

    let (scan, mut events) = start();
    let action = scan.refreshed(Some("unreachable".to_string()), &mut events);
    assert_eq!(action, SingleScanAction::End);
    assert_eq!(said(&events), failed("unreachable"));

    let (mut scan, mut events) = start();
    scan.scanned(Err("timeout".to_string()));
    scan.stopped(None, &mut events);
    assert_eq!(said(&events), failed("timeout"));

    let (mut scan, mut events) = start();
    scan.scanned(Ok(vec![object(7)]));
    scan.stopped(Some("stuck".to_string()), &mut events);
    assert_eq!(said(&events), failed("stuck"));
}

#[derive(Default)]
struct Outbox {
    messages: Vec<(String, Vec<u8>, bool)>,
}

impl MqttPublisher for Outbox {
    fn handed(&self) -> History {
        unreachable!()
    }

    fn publish(&mut self, topic: &str, payload: Vec<u8>, retain: bool) -> Result<(), String> {
        self.messages.push((topic.to_string(), payload, retain));
        Ok(())
    }
}

#[test]
fn a_poll_is_published_before_its_health() {
    let mut outbox = Outbox::default();
    let mqtt = MqttConfig { retain: false, ..MqttConfig::default() };
    let outcome = outcome_with(&[1, 2], &[3]);
    let numbers = vec![Ok(b"1".to_vec()), Err("not finite".to_string())];
    let stats = publish_poll(&mut outbox, &mqtt, &outcome, &numbers, 9);
    assert_eq!((stats.published, stats.failed), (1, 1));
    assert_eq!(outbox.messages.len(), 2);
    assert_eq!(outbox.messages[0].0, outcome.samples[0].topic);
    assert_eq!(outbox.messages[0].1, b"1");
    assert!(!outbox.messages[0].2);
    assert_eq!(outbox.messages[1].0, mqtt.health_topic);
    assert!(outbox.messages[1].2);
    let report: serde_json::Value = serde_json::from_slice(&outbox.messages[1].1).unwrap();
    assert_eq!(report["status"], "degraded");
    assert_eq!(report["published"], 1);
    assert_eq!(report["failed_reads"], 1);
    assert_eq!(report["failed_publishes"], 1);
    assert_eq!(report["stale_points"], 9);
    assert_eq!(report["last_error"], "not finite");
}
