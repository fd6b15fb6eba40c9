//! The scan of all devices: each device is found, labelled and scanned in turn, and the points
//! made from its objects are merged into the configured ones.

use vstd::prelude::*;

use crate::bacnet::refresh::{RefreshOutcome, RefreshOutcomeView};
use crate::bacnet::{object_point, point_from_object};
use crate::import::{law_merge_counts, merge_all, merge_imported_points, MergeImportResultView};
use crate::log::LogLevel;
use crate::model::{
    lemma_views_push, views, BulkTagImportOutcome, BulkTagImportOutcomeView, DeviceObject,
    DeviceObjectView, DiscoveredDevice, DiscoveredDeviceView, PointConfig, PointConfigView,
};
use crate::numerals::{decimal, decimal_text};
use crate::text::texts;
use crate::worker::republisher::refresh_result;
use crate::worker::{
    emit, emit_log, event_views, text2, text3, WorkerEvent, WorkerEventView,
    SCAN_MAX_OBJECTS_PER_DEVICE,
};

verus! {

/// What to do next.
#[derive(Debug)]
pub enum ScanAllAction {
    OpenClient,
    /// Refresh the addresses of these devices.
    RefreshAll(Vec<u32>),
    /// Look up whether the address of a device is known.
    Check(u32),
    /// Refresh the address of a device.
    RefreshOne(u32),
    /// Read the label of a device.
    ReadLabel(u32),
    /// Scan a device, up to so many objects.
    Scan(u32, usize),
    StopClient,
    End,
}

/// The contents of a [`ScanAllAction`].
#[verifier::ext_equal]
pub enum ScanAllActionView {
    OpenClient,
    RefreshAll(Seq<u32>),
    Check(u32),
    RefreshOne(u32),
    ReadLabel(u32),
    Scan(u32, usize),
    StopClient,
    End,
}

impl View for ScanAllAction {
    type V = ScanAllActionView;

    open spec fn view(&self) -> ScanAllActionView {
        match *self {
            ScanAllAction::OpenClient => ScanAllActionView::OpenClient,
            ScanAllAction::RefreshAll(devices) => ScanAllActionView::RefreshAll(devices@),
            ScanAllAction::Check(device) => ScanAllActionView::Check(device),
            ScanAllAction::RefreshOne(device) => ScanAllActionView::RefreshOne(device),
            ScanAllAction::ReadLabel(device) => ScanAllActionView::ReadLabel(device),
            ScanAllAction::Scan(device, limit) => ScanAllActionView::Scan(device, limit),
            ScanAllAction::StopClient => ScanAllActionView::StopClient,
            ScanAllAction::End => ScanAllActionView::End,
        }
    }
}

/// The state of a scan of all devices.
#[derive(Debug)]
pub struct ScanAll {
    pub devices: Vec<DiscoveredDevice>,
    pub existing: Vec<PointConfig>,
    /// The place of the device that is being scanned.
    pub at: usize,
    pub label: String,
    pub failures: usize,
    pub unresolved_scans: usize,
    pub objects: Vec<DeviceObject>,
    pub imported: Vec<PointConfig>,
}

/// The contents of a [`ScanAll`].
#[verifier::ext_equal]
pub struct ScanAllView {
    pub devices: Seq<DiscoveredDeviceView>,
    pub existing: Seq<PointConfigView>,
    pub at: usize,
    pub label: Seq<char>,
    pub failures: usize,
    pub unresolved_scans: usize,
    pub objects: Seq<DeviceObjectView>,
    pub imported: Seq<PointConfigView>,
}

impl View for ScanAll {
    type V = ScanAllView;

    open spec fn view(&self) -> ScanAllView {
        ScanAllView {
            devices: views(self.devices@),
            existing: views(self.existing@),
            at: self.at,
            label: self.label@,
            failures: self.failures,
            unresolved_scans: self.unresolved_scans,
            objects: views(self.objects@),
            imported: views(self.imported@),
        }
    }
}

/// The instances of devices.
pub open spec fn instances_of(devices: Seq<DiscoveredDeviceView>) -> Seq<u32> {
    Seq::new(devices.len(), |i: int| devices[i].instance)
}

/// The state at the beginning.
pub open spec fn scan_all_start(
    devices: Seq<DiscoveredDeviceView>,
    existing: Seq<PointConfigView>,
) -> ScanAllView {
    ScanAllView {
        devices,
        existing,
        at: 0,
        label: Seq::empty(),
        failures: 0,
        unresolved_scans: 0,
        objects: Seq::empty(),
        imported: Seq::empty(),
    }
}

/// What is said at the beginning.
pub open spec fn scan_all_started(total: nat) -> Seq<WorkerEventView> {
    seq![
        WorkerEventView::Log(
            LogLevel::Info,
            "Scanning object lists for "@ + decimal(total) + " device(s)"@,
        ),
        WorkerEventView::ScanProgress { current: 0, total: total as usize },
    ]
}

/// What is said where there is no client.
pub open spec fn scan_all_failed(error: Seq<char>) -> Seq<WorkerEventView> {
    seq![
        WorkerEventView::Log(
            LogLevel::Error,
            "Failed to start BACnet client for scan-all: "@ + error,
        ),
        WorkerEventView::Finished("Scan all failed"@),
    ]
}

/// What is said after all addresses were refreshed.
pub open spec fn refreshed_all_events(
    total: nat,
    result: Result<RefreshOutcomeView, Seq<char>>,
) -> Seq<WorkerEventView> {
    match result {
        Ok(refresh) => if refresh.unresolved.len() > 0 {
            seq![
                WorkerEventView::Log(
                    LogLevel::Warning,
                    decimal(refresh.unresolved.len()) + " of "@ + decimal(total)
                        + " device(s) not in I-Am cache after refresh; retrying before each affected scan"@,
                ),
            ]
        } else {
            Seq::empty()
        },
        Err(error) => seq![
            WorkerEventView::Log(LogLevel::Warning, "Device table refresh failed: "@ + error),
        ],
    }
}

/// The device that is being scanned.
pub open spec fn current_device(state: ScanAllView) -> u32 {
    state.devices[state.at as int].instance
}

/// The next device, or the end.
pub open spec fn next_device(state: ScanAllView) -> ScanAllActionView {
    if state.at < state.devices.len() {
        ScanAllActionView::Check(current_device(state))
    } else {
        ScanAllActionView::StopClient
    }
}

/// What is said when a device is done.
pub open spec fn progress_event(state: ScanAllView) -> WorkerEventView {
    WorkerEventView::ScanProgress {
        current: (state.at + 1) as usize,
        total: state.devices.len() as usize,
    }
}

/// A message about a device.
pub open spec fn device_log(
    level: LogLevel,
    device: u32,
    text: Seq<char>,
) -> WorkerEventView {
    WorkerEventView::Log(level, "device "@ + decimal(device as nat) + text)
}

/// After the address of a device was refreshed.
pub open spec fn after_refresh_one(
    state: ScanAllView,
    result: Result<RefreshOutcomeView, Seq<char>>,
) -> (ScanAllView, ScanAllActionView, Seq<WorkerEventView>) {
    let device = current_device(state);
    match result {
        Ok(refresh) => if refresh.unresolved.contains(device) {
            let after = ScanAllView {
                unresolved_scans: (state.unresolved_scans + 1) as usize,
                failures: (state.failures + 1) as usize,
                at: (state.at + 1) as usize,
                ..state
            };
            (
                after,
                next_device(after),
                seq![
                    device_log(
                        LogLevel::Warning,
                        device,
                        ": unresolved after focused refresh; scan skipped"@,
                    ),
                    progress_event(state),
                ],
            )
        } else {
            (
                state,
                ScanAllActionView::ReadLabel(device),
                seq![device_log(LogLevel::Info, device, ": resolved after focused refresh"@)],
            )
        },
        Err(error) => {
            let after = ScanAllView {
                failures: (state.failures + 1) as usize,
                at: (state.at + 1) as usize,
                ..state
            };
            (
                after,
                next_device(after),
                seq![
                    device_log(LogLevel::Warning, device, ": focused refresh failed: "@ + error),
                    progress_event(state),
                ],
            )
        },
    }
}

/// The points made from objects of a device.
pub open spec fn object_points(
    objects: Seq<DeviceObjectView>,
    label: Seq<char>,
) -> Seq<PointConfigView> {
    Seq::new(objects.len(), |i: int| object_point(objects[i], Some(label)))
}

/// After a device was scanned.
pub open spec fn after_scan(
    state: ScanAllView,
    result: Result<Seq<DeviceObjectView>, Seq<char>>,
) -> (ScanAllView, ScanAllActionView, Seq<WorkerEventView>) {
    let device = current_device(state);
    match result {
        Ok(objects) => {
            let after = ScanAllView {
                objects: state.objects + objects,
                imported: state.imported + object_points(objects, state.label),
                at: (state.at + 1) as usize,
                ..state
            };
            (
                after,
                next_device(after),
                seq![
                    WorkerEventView::Log(
                        LogLevel::Info,
                        "["@ + decimal((state.at + 1) as nat) + "/"@ + decimal(state.devices.len())
                            + "] device "@ + decimal(device as nat) + ": "@ + decimal(
                            objects.len(),
                        ) + " object(s)"@,
                    ),
                    progress_event(state),
                ],
            )
        },
        Err(error) => {
            let after = ScanAllView {
                failures: (state.failures + 1) as usize,
                at: (state.at + 1) as usize,
                ..state
            };
            (
                after,
                next_device(after),
                seq![
                    device_log(LogLevel::Warning, device, ": scan failed: "@ + error),
                    progress_event(state),
                ],
            )
        },
    }
}

/// How a scan of all devices is summed up.
pub open spec fn scan_all_summary(state: ScanAllView, merge: MergeImportResultView) -> Seq<char> {
    "Scanned "@ + decimal(state.objects.len()) + " object(s) across "@ + decimal(
        state.devices.len(),
    ) + " device(s) ("@ + decimal(state.failures as nat) + " failure(s), "@ + decimal(
        state.unresolved_scans as nat,
    ) + " unresolved) — "@ + decimal(merge.added as nat) + " point(s) added, "@ + decimal(
        merge.updated as nat,
    ) + " updated, "@ + decimal(merge.points.len()) + " total"@
}

/// What is said at the end: the devices, the objects and the merged points, and a summary.
pub open spec fn scan_all_ended(state: ScanAllView) -> Seq<WorkerEventView> {
    let merge = merge_all(state.existing, state.imported);
    seq![
        WorkerEventView::BulkTagImport(
            BulkTagImportOutcomeView {
                devices: state.devices,
                scanned_objects: state.objects,
                points: merge.points,
                added: merge.added,
                updated: merge.updated,
                warnings: Seq::empty(),
            },
        ),
        WorkerEventView::Finished(scan_all_summary(state, merge)),
    ]
}

fn emit_device_log(events: &mut Vec<WorkerEvent>, level: LogLevel, device: u32, text: &str)
    ensures
        event_views(final(events)@) == event_views(old(events)@).push(
            device_log(level, device, text@),
        ),
{
    let message = text3("device ", decimal_text(device as u64).as_str(), text);
    emit_log(events, level, message);
}

impl ScanAll {
    /// What holds of every scan of all devices.
    pub open spec fn well_formed(&self) -> bool {
        &&& self.at <= self.devices@.len()
        &&& self.failures <= self.at
        &&& self.unresolved_scans <= self.failures
    }

    pub fn start(
        devices: Vec<DiscoveredDevice>,
        existing: Vec<PointConfig>,
        events: &mut Vec<WorkerEvent>,
    ) -> (started: (ScanAll, ScanAllAction))
        ensures
            started.0.well_formed(),
            started.0@ == scan_all_start(views(devices@), views(existing@)),
            started.1@ == ScanAllActionView::OpenClient,
            event_views(final(events)@) == event_views(old(events)@) + scan_all_started(
                devices@.len(),
            ),
    {
        let ghost begin = event_views(events@);
        let total: usize = devices.len();
        let message = text3(
            "Scanning object lists for ",
            decimal_text(total as u64).as_str(),
            " device(s)",
        );
        emit_log(events, LogLevel::Info, message);
        emit(events, WorkerEvent::ScanProgress { current: 0, total });
        assert(event_views(events@) =~= begin + scan_all_started(devices@.len()));
        let state = ScanAll {
            devices,
            existing,
            at: 0,
            label: String::new(),
            failures: 0,
            unresolved_scans: 0,
            objects: Vec::new(),
            imported: Vec::new(),
        };
        assert(state@ =~= scan_all_start(views(devices@), views(existing@)));
        (state, ScanAllAction::OpenClient)
    }

    /// The instances of the devices.
    fn instances(&self) -> (instances: Vec<u32>)
        ensures
            instances@ == instances_of(self@.devices),
    {
        let mut instances: Vec<u32> = Vec::new();
        let ghost all = instances_of(self@.devices);
        let mut i: usize = 0;
        while i < self.devices.len()
            invariant
                i <= self.devices@.len(),
                all == instances_of(self@.devices),
                instances@ == all.take(i as int),
            decreases self.devices.len() - i,
        {
            instances.push(self.devices[i].instance);
            proof {
                assert(all[i as int] == self.devices@[i as int].instance);
                assert(all.take(i as int + 1) =~= all.take(i as int).push(all[i as int]));
            }
            i += 1;
        }
        assert(all.take(all.len() as int) =~= all);
        instances
    }

    fn next(&self) -> (action: ScanAllAction)
        ensures
            action@ == next_device(self@),
    {
        if self.at < self.devices.len() {
            ScanAllAction::Check(self.devices[self.at].instance)
        } else {
            ScanAllAction::StopClient
        }
    }

    /// To be called after an attempt to open the client, with the error where it failed.
    pub fn client_opened(
        &self,
        error: Option<String>,
        events: &mut Vec<WorkerEvent>,
    ) -> (action: ScanAllAction)
        ensures
            match error {
                None => action@ == ScanAllActionView::RefreshAll(instances_of(self@.devices))
                    && event_views(final(events)@) == event_views(old(events)@),
                Some(text) => action@ == ScanAllActionView::End && event_views(final(events)@)
                    == event_views(old(events)@) + scan_all_failed(text@),
            },
    {
        let ghost begin = event_views(events@);
        match error {
            None => ScanAllAction::RefreshAll(self.instances()),
            Some(text) => {
                emit_log(
                    events,
                    LogLevel::Error,
                    text2("Failed to start BACnet client for scan-all: ", text.as_str()),
                );
                emit(events, WorkerEvent::Finished("Scan all failed".to_string()));
                assert(event_views(events@) =~= begin + scan_all_failed(text@));
                ScanAllAction::End
            },
        }
    }

    /// To be called after all addresses were refreshed.
    pub fn refreshed_all(
        &self,
        result: Result<RefreshOutcome, String>,
        events: &mut Vec<WorkerEvent>,
    ) -> (action: ScanAllAction)
        ensures
            action@ == next_device(self@),
            event_views(final(events)@) == event_views(old(events)@) + refreshed_all_events(
                self@.devices.len(),
                refresh_result(result),
            ),
    {
        let ghost begin = event_views(events@);
        match &result {
            Ok(refresh) => {
                if refresh.unresolved.len() > 0 {
                    let mut message = text3(
                        decimal_text(refresh.unresolved.len() as u64).as_str(),
                        " of ",
                        decimal_text(self.devices.len() as u64).as_str(),
                    );
                    message.append(
                        " device(s) not in I-Am cache after refresh; retrying before each affected scan",
                    );
                    emit_log(events, LogLevel::Warning, message);
                }
            },
            Err(error) => {
                emit_log(
                    events,
                    LogLevel::Warning,
                    text2("Device table refresh failed: ", error.as_str()),
                );
            },
        }
        assert(event_views(events@) =~= begin + refreshed_all_events(
            self@.devices.len(),
            refresh_result(result),
        ));
        self.next()
    }

    /// To be called with whether the address of the device is known.
    pub fn checked(&self, known: bool) -> (action: ScanAllAction)
        requires
            self.at < self.devices@.len(),
        ensures
            action@ == if known {
                ScanAllActionView::ReadLabel(current_device(self@))
            } else {
                ScanAllActionView::RefreshOne(current_device(self@))
            },
    {
        let device: u32 = self.devices[self.at].instance;
        if known {
            ScanAllAction::ReadLabel(device)
        } else {
            ScanAllAction::RefreshOne(device)
        }
    }

    fn emit_progress(&self, events: &mut Vec<WorkerEvent>)
        requires
            self.at < self.devices@.len(),
        ensures
            event_views(final(events)@) == event_views(old(events)@).push(progress_event(self@)),
    {
        let total: usize = self.devices.len();
        emit(events, WorkerEvent::ScanProgress { current: self.at + 1, total });
    }

    /// To be called after the address of the device was refreshed.
    pub fn refreshed_one(
        &mut self,
        result: Result<RefreshOutcome, String>,
        events: &mut Vec<WorkerEvent>,
    ) -> (action: ScanAllAction)
        requires
            old(self).well_formed(),
            old(self).at < old(self).devices@.len(),
        ensures
            final(self).well_formed(),
            ({
                let (after, next, said) = after_refresh_one(old(self)@, refresh_result(result));
                &&& final(self)@ == after
                &&& action@ == next
                &&& event_views(final(events)@) == event_views(old(events)@) + said
            }),
    {
        let ghost begin = event_views(events@);
        let ghost before = self@;
        let total: usize = self.devices.len();
        let device: u32 = self.devices[self.at].instance;
        match &result {
            Ok(refresh) => {
                if contains_device(&refresh.unresolved, device) {
                    emit_device_log(
                        events,
                        LogLevel::Warning,
                        device,
                        ": unresolved after focused refresh; scan skipped",
                    );
                    self.emit_progress(events);
                    self.unresolved_scans = self.unresolved_scans + 1;
                    self.failures = self.failures + 1;
                    self.at = self.at + 1;
                    assert(event_views(events@) =~= begin + after_refresh_one(
                        before,
                        refresh_result(result),
                    ).2);
                    self.next()
                } else {
                    emit_device_log(
                        events,
                        LogLevel::Info,
                        device,
                        ": resolved after focused refresh",
                    );
                    assert(event_views(events@) =~= begin + after_refresh_one(
                        before,
                        refresh_result(result),
                    ).2);
                    ScanAllAction::ReadLabel(device)
                }
            },
            Err(error) => {
                let text = text2(": focused refresh failed: ", error.as_str());
                emit_device_log(events, LogLevel::Warning, device, text.as_str());
                self.emit_progress(events);
                self.failures = self.failures + 1;
                self.at = self.at + 1;
                assert(event_views(events@) =~= begin + after_refresh_one(
                    before,
                    refresh_result(result),
                ).2);
                self.next()
            },
        }
    }

    /// To be called with the label of the device.
    pub fn labelled(&mut self, label: String) -> (action: ScanAllAction)
        requires
            old(self).well_formed(),
            old(self).at < old(self).devices@.len(),
        ensures
            final(self).well_formed(),
            final(self)@ == (ScanAllView { label: label@, ..old(self)@ }),
            action@ == ScanAllActionView::Scan(
                current_device(old(self)@),
                SCAN_MAX_OBJECTS_PER_DEVICE,
            ),
    {
        self.label = label;
        ScanAllAction::Scan(self.devices[self.at].instance, SCAN_MAX_OBJECTS_PER_DEVICE)
    }

    /// To be called with the objects of the device, or why there are none.
    pub fn scanned(
        &mut self,
        result: Result<Vec<DeviceObject>, String>,
        events: &mut Vec<WorkerEvent>,
    ) -> (action: ScanAllAction)
        requires
            old(self).well_formed(),
            old(self).at < old(self).devices@.len(),
        ensures
            final(self).well_formed(),
            ({
                let (after, next, said) = after_scan(
                    old(self)@,
                    match result {
                        Ok(objects) => Ok(views(objects@)),
                        Err(error) => Err(error@),
                    },
                );
                &&& final(self)@ == after
                &&& action@ == next
                &&& event_views(final(events)@) == event_views(old(events)@) + said
            }),
    {
        let ghost begin = event_views(events@);
        let ghost before = self@;
        let total: usize = self.devices.len();
        let device: u32 = self.devices[self.at].instance;
        match result {
            Ok(objects) => {
                let ghost found = views(objects@);
                let mut message = text3("[", decimal_text(self.at as u64 + 1).as_str(), "/");
                message.append(decimal_text(total as u64).as_str());
                message.append("] device ");
                message.append(decimal_text(device as u64).as_str());
                message.append(": ");
                message.append(decimal_text(objects.len() as u64).as_str());
                message.append(" object(s)");
                emit_log(events, LogLevel::Info, message);
                self.emit_progress(events);
                self.import_points(&objects);
                let mut more = objects;
                let ghost objects_before = self.objects@;
                self.objects.append(&mut more);
                self.at = self.at + 1;
                proof {
                    assert(views(self.objects@) =~= views(objects_before) + found);
                    assert(self@ =~= after_scan(before, Ok(found)).0);
                    assert(event_views(events@) =~= begin + after_scan(before, Ok(found)).2);
                }
                self.next()
            },
            Err(error) => {
                let text = text2(": scan failed: ", error.as_str());
                emit_device_log(events, LogLevel::Warning, device, text.as_str());
                self.emit_progress(events);
                self.failures = self.failures + 1;
                self.at = self.at + 1;
                assert(event_views(events@) =~= begin + after_scan(before, Err(error@)).2);
                self.next()
            },
        }
    }

    /// Adds the points made from objects.
    fn import_points(&mut self, objects: &Vec<DeviceObject>)
        ensures
            final(self)@ == (ScanAllView {
                imported: old(self)@.imported + object_points(views(objects@), old(self)@.label),
                ..old(self)@
            }),
            final(self).devices == old(self).devices,
    {
        broadcast use lemma_views_push;
        let ghost start = self@;
        let ghost all = object_points(views(objects@), start.label);
        let mut i: usize = 0;
        assert(start.imported + all.take(0) =~= start.imported);
        while i < objects.len()
            invariant
                i <= objects@.len(),
                all == object_points(views(objects@), start.label),
                self@ == (ScanAllView { imported: start.imported + all.take(i as int), ..start }),
                self.devices == old(self).devices,
            decreases objects.len() - i,
        {
            let point = point_from_object(&objects[i], Some(self.label.as_str()));
            let ghost before = self.imported@;
            self.imported.push(point);
            proof {
                assert(all[i as int] == point@);
                assert(views(self.imported@) =~= views(before).push(point@));
                assert(views(self.imported@) =~= start.imported + all.take(i as int + 1));
            }
            i += 1;
        }
        assert(all.take(all.len() as int) =~= all);
    }

    /// To be called after the client was stopped.
    pub fn stopped(self, events: &mut Vec<WorkerEvent>) -> (action: ScanAllAction)
        ensures
            action@ == ScanAllActionView::End,
            event_views(final(events)@) == event_views(old(events)@) + scan_all_ended(self@),
    {
        let ghost begin = event_views(events@);
        let merge = merge_imported_points(self.existing.as_slice(), self.imported.as_slice());
        assert(views(merge.points@).len() == merge.points@.len());
        assert(views(self.objects@).len() == self.objects@.len());
        let mut summary = text3(
            "Scanned ",
            decimal_text(self.objects.len() as u64).as_str(),
            " object(s) across ",
        );
        summary.append(decimal_text(self.devices.len() as u64).as_str());
        summary.append(" device(s) (");
        summary.append(decimal_text(self.failures as u64).as_str());
        summary.append(" failure(s), ");
        summary.append(decimal_text(self.unresolved_scans as u64).as_str());
        summary.append(" unresolved) — ");
        summary.append(decimal_text(merge.added as u64).as_str());
        summary.append(" point(s) added, ");
        summary.append(decimal_text(merge.updated as u64).as_str());
        summary.append(" updated, ");
        summary.append(decimal_text(merge.points.len() as u64).as_str());
        summary.append(" total");
        let outcome = BulkTagImportOutcome {
            devices: self.devices,
            scanned_objects: self.objects,
            points: merge.points,
            added: merge.added,
            updated: merge.updated,
            warnings: Vec::new(),
        };
        assert(texts(outcome.warnings@) =~= Seq::<Seq<char>>::empty());
        emit(events, WorkerEvent::BulkTagImport(outcome));
        emit(events, WorkerEvent::Finished(summary));
        assert(event_views(events@) =~= begin + scan_all_ended(self@));
        ScanAllAction::End
    }
}

fn contains_device(devices: &Vec<u32>, device: u32) -> (result: bool)
    ensures
        result == devices@.contains(device),
{
    let mut i: usize = 0;
    while i < devices.len()
        invariant
            i <= devices@.len(),
            forall|k: int| 0 <= k < i ==> devices@[k] != device,
        decreases devices.len() - i,
    {
        if devices[i] == device {
            return true;
        }
        i += 1;
    }
    false
}

/// Every device is scanned, or fails, or is skipped, once and in order: each step that ends with
/// a device goes on to the next, says how far it has come, and counts a failure or none.
pub proof fn law_every_device_is_visited(
    state: ScanAllView,
    refreshed: Result<RefreshOutcomeView, Seq<char>>,
    scanned: Result<Seq<DeviceObjectView>, Seq<char>>,
)
    requires
        state.at < state.devices.len() <= usize::MAX,
        state.failures <= state.at,
    ensures
        ({
            let (after, next, said) = after_scan(state, scanned);
            &&& after.at == state.at + 1
            &&& after.failures == state.failures + if scanned is Ok {
                0int
            } else {
                1
            }
            &&& said.last() == progress_event(state)
            &&& next == next_device(after)
        }),
        ({
            let (after, next, said) = after_refresh_one(state, refreshed);
            next is ReadLabel || (after.at == state.at + 1 && after.failures == state.failures + 1
                && said.last() == progress_event(state) && next == next_device(after))
        }),
{
}

/// The points that a scan brings are merged into the configured ones, of which none is lost.
pub proof fn law_scan_keeps_configured_points(state: ScanAllView)
    requires
        state.imported.len() <= usize::MAX,
    ensures
        scan_all_ended(state)[0] matches WorkerEventView::BulkTagImport(outcome)
            && outcome.points.len() == state.existing.len() + outcome.added,
{
    law_merge_counts(state.existing, state.imported);
}

} // verus!
