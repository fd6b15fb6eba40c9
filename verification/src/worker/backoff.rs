//! Devices that cannot be reached: how long to leave them alone, and what is said of their points.

use std::collections::{HashMap, HashSet};
use vstd::prelude::*;

use crate::bacnet::poll::{not_found_failure, unresolved_failure};
use crate::bacnet::refresh::{set_of, RefreshOutcome, RefreshOutcomeView};
use crate::log::LogLevel;
use crate::model::{
    identity_of, lemma_views_push, views, PointConfig, PointConfigView, PointFailure,
    PointFailureView, PointIdentityView, PointStatusView, PollOutcome, PollOutcomeView,
};
use crate::numerals::{decimal, decimal_text, number_list, number_list_text};
use crate::order::{ascending, lemma_take_set, sorted_set, sorted_unique, strictly_ascending};
use crate::statuses::{with_read_failure, StatusTable};
use crate::worker::{
    emit, emit_log, event_views, text3, WorkerEvent, WorkerEventView,
};

verus! {

/// The first pause of a device whose reads all failed, in seconds.
pub const DEVICE_BACKOFF_INITIAL_SECS: u64 = 10;

/// Points in time and lengths of time are counted in nanoseconds.
pub const NANOS_PER_SEC: u128 = 1_000_000_000;

/// A number of seconds.
pub open spec fn secs(count: u64) -> int {
    count * 1_000_000_000
}

/// A number of seconds.
pub fn seconds(count: u64) -> (nanos: u128)
    ensures
        nanos == secs(count),
{
    count as u128 * NANOS_PER_SEC
}

/// The sum of two times, or the greatest there is.
pub open spec fn later(time: u128, delay: u128) -> u128 {
    if time + delay <= u128::MAX {
        (time + delay) as u128
    } else {
        u128::MAX
    }
}

/// The pause of a device: how long it is, and until when.
#[derive(Debug, Clone, Copy, PartialEq, Eq, Structural)]
pub struct DeviceBackoff {
    pub delay: u128,
    pub until: u128,
}

/// The next pause of a device: twice the one before, and never longer than the longest.
pub open spec fn next_delay(before: Option<DeviceBackoff>, max_delay: u128) -> u128 {
    let delay = match before {
        Some(backoff) => backoff.delay * 2,
        None => secs(DEVICE_BACKOFF_INITIAL_SECS),
    };
    if delay < max_delay {
        delay as u128
    } else {
        max_delay
    }
}

/// The pause of a polled device after a cycle: none where it gave a sample, the next one where
/// it gave only failures, and the same as before where it was not reached.
pub open spec fn backoff_after(
    before: Option<DeviceBackoff>,
    healthy: bool,
    failed: bool,
    now: u128,
    max_delay: u128,
) -> Option<DeviceBackoff> {
    if healthy {
        None
    } else if failed {
        let delay = next_delay(before, max_delay);
        Some(DeviceBackoff { delay, until: later(now, delay) })
    } else {
        before
    }
}

/// The pause of a device in a map.
pub open spec fn backoff_in(
    backoffs: Map<u32, DeviceBackoff>,
    device: u32,
) -> Option<DeviceBackoff> {
    if backoffs.contains_key(device) {
        Some(backoffs[device])
    } else {
        None
    }
}

/// The devices of samples.
pub open spec fn sampled_devices(outcome: PollOutcomeView) -> Seq<u32> {
    Seq::new(outcome.samples.len(), |i: int| outcome.samples[i].point.device_instance)
}

/// The devices of failures.
pub open spec fn failed_devices(outcome: PollOutcomeView) -> Seq<u32> {
    Seq::new(outcome.failures.len(), |i: int| outcome.failures[i].point.device_instance)
}

/// The pause of a device after a cycle.
pub open spec fn device_backoff_after(
    backoffs: Map<u32, DeviceBackoff>,
    polled: Set<u32>,
    outcome: PollOutcomeView,
    now: u128,
    max_delay: u128,
    device: u32,
) -> Option<DeviceBackoff> {
    if polled.contains(device) {
        backoff_after(
            backoff_in(backoffs, device),
            sampled_devices(outcome).to_set().contains(device),
            failed_devices(outcome).to_set().contains(device),
            now,
            max_delay,
        )
    } else {
        backoff_in(backoffs, device)
    }
}

/// The pauses of all devices after a cycle.
pub open spec fn backoffs_after(
    backoffs: Map<u32, DeviceBackoff>,
    polled: Set<u32>,
    outcome: PollOutcomeView,
    now: u128,
    max_delay: u128,
) -> Map<u32, DeviceBackoff> {
    Map::new(
        |device: u32|
            device_backoff_after(backoffs, polled, outcome, now, max_delay, device) is Some,
        |device: u32|
            device_backoff_after(backoffs, polled, outcome, now, max_delay, device)->Some_0,
    )
}

/// What is said of a device after a cycle, if anything.
pub open spec fn backoff_message(
    backoffs: Map<u32, DeviceBackoff>,
    outcome: PollOutcomeView,
    max_delay: u128,
    device: u32,
) -> Option<(LogLevel, Seq<char>)> {
    if sampled_devices(outcome).to_set().contains(device) {
        if backoffs.contains_key(device) {
            Some(
                (
                    LogLevel::Info,
                    "device "@ + decimal(device as nat) + " responding again; backoff cleared"@,
                ),
            )
        } else {
            None
        }
    } else if failed_devices(outcome).to_set().contains(device) {
        let delay = next_delay(backoff_in(backoffs, device), max_delay);
        Some(
            (
                LogLevel::Warning,
                "device "@ + decimal(device as nat) + ": all reads failed; next attempt in "@
                    + decimal((delay / NANOS_PER_SEC) as u64 as nat) + "s"@,
            ),
        )
    } else {
        None
    }
}

/// What is said of devices after a cycle.
pub open spec fn backoff_messages(
    backoffs: Map<u32, DeviceBackoff>,
    outcome: PollOutcomeView,
    max_delay: u128,
    devices: Seq<u32>,
) -> Seq<(LogLevel, Seq<char>)>
    decreases devices.len(),
{
    if devices.len() == 0 {
        Seq::empty()
    } else {
        let before = backoff_messages(backoffs, outcome, max_delay, devices.drop_last());
        match backoff_message(backoffs, outcome, max_delay, devices.last()) {
            Some(message) => before.push(message),
            None => before,
        }
    }
}

/// The contents of messages.
pub open spec fn message_views(
    messages: Seq<(LogLevel, String)>,
) -> Seq<(LogLevel, Seq<char>)> {
    Seq::new(messages.len(), |i: int| (messages[i].0, messages[i].1@))
}

fn devices_of_samples(outcome: &PollOutcome) -> (devices: HashSet<u32>)
    ensures
        devices@ == sampled_devices(outcome@).to_set(),
{
    let mut list: Vec<u32> = Vec::new();
    let ghost all = sampled_devices(outcome@);
    let mut i: usize = 0;
    while i < outcome.samples.len()
        invariant
            i <= outcome.samples@.len(),
            all == sampled_devices(outcome@),
            list@ == all.take(i as int),
        decreases outcome.samples.len() - i,
    {
        list.push(outcome.samples[i].point.device_instance);
        proof {
            assert(outcome@.samples[i as int] == outcome.samples@[i as int]@);
            assert(all.take(i as int + 1) =~= all.take(i as int).push(all[i as int]));
        }
        i += 1;
    }
    assert(all.take(all.len() as int) =~= all);
    set_of(list.as_slice())
}

fn devices_of_failures(outcome: &PollOutcome) -> (devices: HashSet<u32>)
    ensures
        devices@ == failed_devices(outcome@).to_set(),
{
    let mut list: Vec<u32> = Vec::new();
    let ghost all = failed_devices(outcome@);
    let mut i: usize = 0;
    while i < outcome.failures.len()
        invariant
            i <= outcome.failures@.len(),
            all == failed_devices(outcome@),
            list@ == all.take(i as int),
        decreases outcome.failures.len() - i,
    {
        list.push(outcome.failures[i].point.device_instance);
        proof {
            assert(outcome@.failures[i as int] == outcome.failures@[i as int]@);
            assert(all.take(i as int + 1) =~= all.take(i as int).push(all[i as int]));
        }
        i += 1;
    }
    assert(all.take(all.len() as int) =~= all);
    set_of(list.as_slice())
}

fn compute_next_delay(before: Option<DeviceBackoff>, max_delay: u128) -> (delay: u128)
    ensures
        delay == next_delay(before, max_delay),
{
    match before {
        Some(backoff) => {
            if backoff.delay < max_delay && backoff.delay < max_delay - backoff.delay {
                backoff.delay * 2
            } else {
                max_delay
            }
        },
        None => {
            let initial: u128 = seconds(DEVICE_BACKOFF_INITIAL_SECS);
            if initial < max_delay {
                initial
            } else {
                max_delay
            }
        },
    }
}

/// Lengthens the pause of each device whose reads all failed in this cycle, and clears that of
/// each device that gave at least one sample. Returns what is to be said about it.
pub fn update_device_backoffs(
    backoffs: &mut HashMap<u32, DeviceBackoff>,
    polled_devices: &HashSet<u32>,
    outcome: &PollOutcome,
    now: u128,
    max_delay: u128,
) -> (messages: Vec<(LogLevel, String)>)
    ensures
        final(backoffs)@ == backoffs_after(
            old(backoffs)@,
            polled_devices@,
            outcome@,
            now,
            max_delay,
        ),
        message_views(messages@) == backoff_messages(
            old(backoffs)@,
            outcome@,
            max_delay,
            ascending(polled_devices@),
        ),
{
    broadcast use vstd::std_specs::hash::group_hash_axioms;
    let healthy = devices_of_samples(outcome);
    let failed = devices_of_failures(outcome);
    let polled = sorted_set(polled_devices);
    let mut messages: Vec<(LogLevel, String)> = Vec::new();
    let ghost before = backoffs@;
    let mut i: usize = 0;
    proof {
        assert(polled@.take(0) =~= Seq::<u32>::empty());
        assert(polled@.take(0).to_set() =~= Set::<u32>::empty());
        assert(before =~= backoffs_after(before, Set::empty(), outcome@, now, max_delay));
        assert(message_views(messages@) =~= Seq::empty());
    }
    while i < polled.len()
        invariant
            i <= polled@.len(),
            strictly_ascending(polled@),
            healthy@ == sampled_devices(outcome@).to_set(),
            failed@ == failed_devices(outcome@).to_set(),
            backoffs@ == backoffs_after(
                before,
                polled@.take(i as int).to_set(),
                outcome@,
                now,
                max_delay,
            ),
            message_views(messages@) == backoff_messages(
                before,
                outcome@,
                max_delay,
                polled@.take(i as int),
            ),
        decreases polled.len() - i,
    {
        let device: u32 = polled[i];
        let ghost done = polled@.take(i as int);
        let ghost next = polled@.take(i as int + 1);
        let ghost map_before = backoffs@;
        let ghost said = messages@;
        proof {
            lemma_take_set(polled@, i as int);
            assert(next.drop_last() =~= done);
            assert(next.last() == device);
            assert(!done.to_set().contains(device)) by {
                if done.contains(device) {
                    let k = choose|k: int| 0 <= k < done.len() && done[k] == device;
                    assert(polled@[k] < polled@[i as int]);
                }
            }
            assert(backoff_in(map_before, device) == backoff_in(before, device));
        }
        if healthy.contains(&device) {
            if backoffs.remove(&device).is_some() {
                let message = text3(
                    "device ",
                    decimal_text(device as u64).as_str(),
                    " responding again; backoff cleared",
                );
                messages.push((LogLevel::Info, message));
                assert(message_views(messages@) =~= message_views(said).push(
                    (LogLevel::Info, message@),
                ));
            }
        } else if failed.contains(&device) {
            let current = match backoffs.get(&device) {
                Some(backoff) => Some(*backoff),
                None => None,
            };
            let delay: u128 = compute_next_delay(current, max_delay);
            let until: u128 = if delay <= u128::MAX - now {
                now + delay
            } else {
                u128::MAX
            };
            backoffs.insert(device, DeviceBackoff { delay, until });
            let mut message = text3(
                "device ",
                decimal_text(device as u64).as_str(),
                ": all reads failed; next attempt in ",
            );
            message.append(decimal_text((delay / NANOS_PER_SEC) as u64).as_str());
            message.append("s");
            messages.push((LogLevel::Warning, message));
            assert(message_views(messages@) =~= message_views(said).push(
                (LogLevel::Warning, message@),
            ));
        }
        proof {
            assert(backoffs@ =~= backoffs_after(before, next.to_set(), outcome@, now, max_delay));
        }
        i += 1;
    }
    assert(polled@.take(polled@.len() as int) =~= polled@);
    messages
}

/// How the devices that are missing have changed.
#[derive(Debug)]
pub struct RefreshStateChange {
    pub newly_resolved: Vec<u32>,
    pub newly_unresolved: HashSet<u32>,
}

/// The missing devices after a refresh.
pub open spec fn unresolved_after(unresolved: Set<u32>, refresh: RefreshOutcomeView) -> Set<u32> {
    unresolved.difference(refresh.resolved.to_set()).union(refresh.unresolved.to_set())
}

/// The pauses after a refresh: those of devices that were found are over.
pub open spec fn backoffs_after_refresh(
    backoffs: Map<u32, DeviceBackoff>,
    refresh: RefreshOutcomeView,
) -> Map<u32, DeviceBackoff> {
    backoffs.remove_keys(refresh.resolved.to_set())
}

/// The devices that were missing and were found.
pub open spec fn newly_resolved(unresolved: Set<u32>, refresh: RefreshOutcomeView) -> Set<u32> {
    unresolved.intersect(refresh.resolved.to_set())
}

/// The devices that were not missing and are now.
pub open spec fn newly_unresolved(unresolved: Set<u32>, refresh: RefreshOutcomeView) -> Set<u32> {
    refresh.unresolved.to_set().difference(unresolved.difference(refresh.resolved.to_set()))
}

/// Takes over what a refresh has found.
pub fn apply_refresh_state(
    unresolved_devices: &mut HashSet<u32>,
    device_backoffs: &mut HashMap<u32, DeviceBackoff>,
    refresh: &RefreshOutcome,
) -> (change: RefreshStateChange)
    ensures
        final(unresolved_devices)@ == unresolved_after(old(unresolved_devices)@, refresh@),
        final(device_backoffs)@ == backoffs_after_refresh(old(device_backoffs)@, refresh@),
        change.newly_resolved@ == ascending(newly_resolved(old(unresolved_devices)@, refresh@)),
        strictly_ascending(change.newly_resolved@),
        change.newly_resolved@.to_set() == newly_resolved(old(unresolved_devices)@, refresh@),
        change.newly_unresolved@ == newly_unresolved(old(unresolved_devices)@, refresh@),
{
    broadcast use vstd::std_specs::hash::group_hash_axioms;
    let ghost missing = unresolved_devices@;
    let ghost pauses = device_backoffs@;
    let mut found: Vec<u32> = Vec::new();
    let mut i: usize = 0;
    proof {
        assert(refresh.resolved@.take(0).to_set() =~= Set::<u32>::empty());
        assert(missing.difference(Set::empty()) =~= missing);
        assert(pauses.remove_keys(Set::empty()) =~= pauses);
        assert(found@.to_set() =~= missing.intersect(Set::empty()));
    }
    while i < refresh.resolved.len()
        invariant
            i <= refresh.resolved@.len(),
            unresolved_devices@ == missing.difference(refresh.resolved@.take(i as int).to_set()),
            device_backoffs@ == pauses.remove_keys(refresh.resolved@.take(i as int).to_set()),
            found@.to_set() == missing.intersect(refresh.resolved@.take(i as int).to_set()),
        decreases refresh.resolved.len() - i,
    {
        let device: u32 = refresh.resolved[i];
        let ghost before = refresh.resolved@.take(i as int).to_set();
        let ghost found_before = found@;
        proof {
            lemma_take_set(refresh.resolved@, i as int);
        }
        if unresolved_devices.remove(&device) {
            found.push(device);
            proof {
                assert(found@ =~= found_before.push(device));
                assert forall|number: u32| #[trigger] found@.contains(number) == (
                found_before.contains(number) || number == device) by {
                    crate::order::lemma_push_contains(found_before, device, number);
                }
                assert(found@.to_set() =~= found_before.to_set().insert(device)) by {
                    assert forall|number: u32| found@.to_set().contains(number)
                        == found_before.to_set().insert(device).contains(number) by {
                        assert(found@.to_set().contains(number) == found@.contains(number));
                        assert(found_before.to_set().contains(number) == found_before.contains(
                            number,
                        ));
                    }
                }
            }
        }
        let _ = device_backoffs.remove(&device);
        proof {
            assert(unresolved_devices@ =~= missing.difference(before.insert(device)));
            assert(device_backoffs@ =~= pauses.remove_keys(before.insert(device)));
            if !missing.contains(device) || before.contains(device) {
                assert(found@ == found_before);
                assert(missing.intersect(before.insert(device)) =~= missing.intersect(before));
            } else {
                assert(missing.intersect(before.insert(device)) =~= missing.intersect(
                    before,
                ).insert(device));
            }
        }
        i += 1;
    }
    assert(refresh.resolved@.take(refresh.resolved@.len() as int) =~= refresh.resolved@);
    let newly_resolved = sorted_unique(found.as_slice());

    let ghost kept = unresolved_devices@;
    let mut newly_unresolved: HashSet<u32> = HashSet::new();
    let mut j: usize = 0;
    proof {
        assert(refresh.unresolved@.take(0).to_set() =~= Set::<u32>::empty());
        assert(kept.union(Set::empty()) =~= kept);
        assert(newly_unresolved@ =~= Set::<u32>::empty().difference(kept));
    }
    while j < refresh.unresolved.len()
        invariant
            j <= refresh.unresolved@.len(),
            unresolved_devices@ == kept.union(refresh.unresolved@.take(j as int).to_set()),
            newly_unresolved@ == refresh.unresolved@.take(j as int).to_set().difference(kept),
        decreases refresh.unresolved.len() - j,
    {
        let device: u32 = refresh.unresolved[j];
        let ghost before = refresh.unresolved@.take(j as int).to_set();
        proof {
            lemma_take_set(refresh.unresolved@, j as int);
        }
        if unresolved_devices.insert(device) {
            let _ = newly_unresolved.insert(device);
        }
        proof {
            assert(unresolved_devices@ =~= kept.union(before.insert(device)));
            assert(newly_unresolved@ =~= before.insert(device).difference(kept));
        }
        j += 1;
    }
    assert(refresh.unresolved@.take(refresh.unresolved@.len() as int) =~= refresh.unresolved@);
    RefreshStateChange { newly_resolved, newly_unresolved }
}

/// The failures of the enabled points whose device is missing.
pub open spec fn missing_failures(
    points: Seq<PointConfigView>,
    missing: Set<u32>,
) -> Seq<PointFailureView>
    decreases points.len(),
{
    if points.len() == 0 {
        Seq::empty()
    } else {
        let before = missing_failures(points.drop_last(), missing);
        let point = points.last();
        if point.enabled && missing.contains(point.device_instance) {
            before.push(not_found_failure(point))
        } else {
            before
        }
    }
}

/// The statuses after failures.
pub open spec fn with_failures(
    statuses: Map<PointIdentityView, PointStatusView>,
    failures: Seq<PointFailureView>,
) -> Map<PointIdentityView, PointStatusView>
    decreases failures.len(),
{
    if failures.len() == 0 {
        statuses
    } else {
        with_read_failure(
            with_failures(statuses, failures.drop_last()),
            identity_of(failures.last().point),
            failures.last().error,
        )
    }
}

/// What is said of failures, if there are any.
pub open spec fn failures_event(failures: Seq<PointFailureView>) -> Seq<WorkerEventView> {
    if failures.len() == 0 {
        Seq::empty()
    } else {
        seq![WorkerEventView::Failures(failures)]
    }
}

/// Records failures in the statuses.
pub fn record_failures(statuses: &mut StatusTable, failures: &Vec<PointFailure>)
    requires
        old(statuses).well_formed(),
    ensures
        final(statuses).well_formed(),
        final(statuses)@ == with_failures(old(statuses)@, views(failures@)),
{
    let ghost all = views(failures@);
    let ghost start = statuses@;
    let mut i: usize = 0;
    assert(all.take(0) =~= Seq::<PointFailureView>::empty());
    while i < failures.len()
        invariant
            i <= failures@.len(),
            all == views(failures@),
            statuses.well_formed(),
            statuses@ == with_failures(start, all.take(i as int)),
        decreases failures.len() - i,
    {
        proof {
            assert(all.take(i as int + 1).drop_last() =~= all.take(i as int));
            assert(all.take(i as int + 1).last() == failures@[i as int]@);
        }
        statuses.record_read_failure(&failures[i].point, failures[i].error.as_str());
        i += 1;
    }
    assert(all.take(all.len() as int) =~= all);
}

/// Marks every enabled point on a missing device as failed, so that it is reported as stale
/// instead of being left out in silence.
pub fn record_unresolved_failures(
    events: &mut Vec<WorkerEvent>,
    points: &Vec<PointConfig>,
    unresolved_devices: &HashSet<u32>,
    point_statuses: &mut StatusTable,
)
    requires
        old(point_statuses).well_formed(),
    ensures
        final(point_statuses).well_formed(),
        final(point_statuses)@ == with_failures(
            old(point_statuses)@,
            missing_failures(views(points@), unresolved_devices@),
        ),
        event_views(final(events)@) == event_views(old(events)@) + failures_event(
            missing_failures(views(points@), unresolved_devices@),
        ),
{
    broadcast use vstd::std_specs::hash::group_hash_axioms;
    broadcast use lemma_views_push;
    let ghost all = views(points@);
    let ghost start = event_views(events@);
    let mut failures: Vec<PointFailure> = Vec::new();
    let mut i: usize = 0;
    assert(all.take(0) =~= Seq::<PointConfigView>::empty());
    assert(views(failures@) =~= Seq::<PointFailureView>::empty());
    while i < points.len()
        invariant
            i <= points@.len(),
            all == views(points@),
            views(failures@) == missing_failures(all.take(i as int), unresolved_devices@),
        decreases points.len() - i,
    {
        proof {
            assert(all.take(i as int + 1).drop_last() =~= all.take(i as int));
            assert(all.take(i as int + 1).last() == points@[i as int]@);
        }
        if points[i].enabled && unresolved_devices.contains(&points[i].device_instance) {
            failures.push(unresolved_failure(&points[i]));
        }
        i += 1;
    }
    assert(all.take(all.len() as int) =~= all);
    assert(views(failures@).len() == failures@.len());
    if failures.len() == 0 {
        assert(event_views(events@) =~= start + failures_event(views(failures@)));
        return;
    }
    record_failures(point_statuses, &failures);
    emit(events, WorkerEvent::Failures(failures));
    assert(event_views(events@) =~= start + failures_event(views(failures@)));
}

/// A number of devices, what happened to them, and which they are.
pub open spec fn device_report(
    devices: Seq<u32>,
    what: Seq<char>,
    label: Seq<char>,
) -> Seq<char> {
    decimal(devices.len()) + what + label + ": "@ + number_list(devices)
}

fn report_devices(devices: &Vec<u32>, what: &str, label: &str) -> (text: String)
    ensures
        text@ == device_report(devices@, what@, label@),
{
    let mut text = text3(decimal_text(devices.len() as u64).as_str(), what, label);
    text.append(": ");
    text.append(number_list_text(devices.as_slice()).as_str());
    text
}

/// What is said of a change of the missing devices.
pub open spec fn change_events(
    points: Seq<PointConfigView>,
    label: Seq<char>,
    found: Seq<u32>,
    lost: Set<u32>,
) -> Seq<WorkerEventView> {
    let first = if found.len() > 0 {
        seq![
            WorkerEventView::Log(
                LogLevel::Info,
                device_report(found, " device(s) resolved during "@, label),
            ),
        ]
    } else {
        Seq::empty()
    };
    let second = if ascending(lost).len() > 0 {
        seq![
            WorkerEventView::Log(
                LogLevel::Warning,
                device_report(ascending(lost), " device(s) unresolved during "@, label),
            ),
        ] + failures_event(missing_failures(points, lost))
    } else {
        Seq::empty()
    };
    first + second
}

/// Reports a change of the missing devices, and marks the points of those that are missing now.
pub fn emit_refresh_state_change(
    events: &mut Vec<WorkerEvent>,
    points: &Vec<PointConfig>,
    label: &str,
    change: RefreshStateChange,
    point_statuses: &mut StatusTable,
)
    requires
        old(point_statuses).well_formed(),
    ensures
        final(point_statuses).well_formed(),
        final(point_statuses)@ == with_failures(
            old(point_statuses)@,
            missing_failures(views(points@), change.newly_unresolved@),
        ),
        event_views(final(events)@) == event_views(old(events)@) + change_events(
            views(points@),
            label@,
            change.newly_resolved@,
            change.newly_unresolved@,
        ),
{
    let ghost start = event_views(events@);
    let ghost statuses = point_statuses@;
    if change.newly_resolved.len() > 0 {
        let message = report_devices(
            &change.newly_resolved,
            " device(s) resolved during ",
            label,
        );
        emit_log(events, LogLevel::Info, message);
    }
    let ghost middle = event_views(events@);
    let newly_unresolved = sorted_set(&change.newly_unresolved);
    if newly_unresolved.len() > 0 {
        let message = report_devices(&newly_unresolved, " device(s) unresolved during ", label);
        emit_log(events, LogLevel::Warning, message);
        record_unresolved_failures(events, points, &change.newly_unresolved, point_statuses);
    } else {
        proof {
            assert(newly_unresolved@ =~= Seq::<u32>::empty());
            assert(change.newly_unresolved@ =~= Set::<u32>::empty());
            lemma_nothing_missing(views(points@));
        }
    }
    assert(event_views(events@) =~= start + change_events(
        views(points@),
        label@,
        change.newly_resolved@,
        change.newly_unresolved@,
    ));
}

proof fn lemma_nothing_missing(points: Seq<PointConfigView>)
    ensures
        missing_failures(points, Set::empty()).len() == 0,
    decreases points.len(),
{
    if points.len() > 0 {
        lemma_nothing_missing(points.drop_last());
    }
}

/// A pause grows with each cycle in which all reads of a device failed, twofold from the initial
/// one, and never beyond the longest.
pub proof fn law_backoff_doubles_up_to_the_longest(
    before: Option<DeviceBackoff>,
    now: u128,
    max_delay: u128,
)
    requires
        now + max_delay <= u128::MAX,
    ensures
        ({
            let after = backoff_after(before, false, true, now, max_delay);
            &&& after is Some
            &&& after->Some_0.delay <= max_delay
            &&& after->Some_0.until == now + after->Some_0.delay
            &&& before is None && secs(DEVICE_BACKOFF_INITIAL_SECS) <= max_delay
                ==> after->Some_0.delay == secs(DEVICE_BACKOFF_INITIAL_SECS)
            &&& before is Some && before->Some_0.delay * 2 <= max_delay
                ==> after->Some_0.delay == before->Some_0.delay * 2
            &&& before is Some && before->Some_0.delay * 2 > max_delay
                ==> after->Some_0.delay == max_delay
        }),
{
}

/// One sample of a device ends its pause, whatever else of it failed; and a device that was not
/// polled, or of which the cycle brought nothing, keeps its pause.
pub proof fn law_backoff_ends_with_a_sample(
    backoffs: Map<u32, DeviceBackoff>,
    polled: Set<u32>,
    outcome: PollOutcomeView,
    now: u128,
    max_delay: u128,
    device: u32,
)
    ensures
        polled.contains(device) && sampled_devices(outcome).contains(device) ==> !backoffs_after(
            backoffs,
            polled,
            outcome,
            now,
            max_delay,
        ).contains_key(device),
        !polled.contains(device) || (!sampled_devices(outcome).contains(device)
            && !failed_devices(outcome).contains(device)) ==> backoff_in(
            backoffs_after(backoffs, polled, outcome, now, max_delay),
            device,
        ) == backoff_in(backoffs, device),
{
    assert(sampled_devices(outcome).to_set().contains(device) == sampled_devices(
        outcome,
    ).contains(device));
    assert(failed_devices(outcome).to_set().contains(device) == failed_devices(
        outcome,
    ).contains(device));
}

/// After a refresh exactly those devices are missing that it did not find, and those that were
/// missing before and that it did not ask for.
pub proof fn law_refresh_updates_missing_devices(
    unresolved: Set<u32>,
    refresh: RefreshOutcomeView,
    device: u32,
)
    ensures
        refresh.unresolved.contains(device) ==> unresolved_after(unresolved, refresh).contains(
            device,
        ),
        refresh.resolved.contains(device) && !refresh.unresolved.contains(device)
            ==> !unresolved_after(unresolved, refresh).contains(device),
        !refresh.resolved.contains(device) && !refresh.unresolved.contains(device)
            ==> unresolved_after(unresolved, refresh).contains(device) == unresolved.contains(
            device,
        ),
        newly_resolved(unresolved, refresh).contains(device) <==> unresolved.contains(device)
            && refresh.resolved.contains(device),
{
    assert(refresh.resolved.to_set().contains(device) == refresh.resolved.contains(device));
    assert(refresh.unresolved.to_set().contains(device) == refresh.unresolved.contains(device));
}

} // verus!
