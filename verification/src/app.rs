//! The application's state: what each message and each report of a worker does to it, and what is
//! to be done outside of it.

use std::collections::VecDeque;
use vstd::prelude::*;

use crate::address::Ipv4Addr;
use crate::app::message::{
    edit_point_editor, edit_settings, editor_edited, effect_view, settings_edited, Effect,
    EffectView, Message, MessageView,
};
use crate::app::page::Page;
use crate::bacnet::poll::{enabled_of, enabled_points};
use crate::bacnet::{object_point, point_from_object};
use crate::config::{config_fault, AppConfig, AppConfigView, BacnetConfig, UiPreferences};
use crate::log::{
    empty_log, lemma_times_cleared, lemma_times_stay, lemma_times_written, logged, timed,
    times_follow, Elapsed, LogBuffer, LogBufferView, LogLevel,
};
use crate::model::{
    default_point, identity_of, lemma_views_push, views, DeviceObject, DeviceObjectView,
    DiscoveredDevice, DiscoveredDeviceView, NetworkInterface, NetworkInterfaceView, PointConfig,
    PointConfigView, PointIdentity, PointIdentityView, PointSample, PointSampleView,
    PointStatusView, PublishStats, PublishStatsView,
};
use crate::network::{address_numbers, interface_choices, interface_numbers};
use crate::numerals::{decimal, decimal_text};
use crate::order::ascending;
use crate::settings::{
    draft_of, edited_point, editor_of, settings_applied, PointEditor, PointEditorView,
    SettingsDraft, SettingsDraftView,
};
use crate::statuses::{with_publication, StatusTable};
use crate::text::opt_text;
use crate::worker::backoff::{record_failures, with_failures};
use crate::worker::republisher::with_samples;
use crate::worker::{
    text2, text3, RepublisherLifecycle, RepublisherLifecycleView, WorkerEvent, WorkerEventView,
};

pub mod message;
pub mod page;

verus! {

/// How many messages the log keeps.
pub const LOG_CAPACITY: usize = 500;

/// How many of the latest samples are kept.
pub const RECENT_SAMPLE_CAPACITY: usize = 100;

/// The application.
pub struct BacnetRepublisher {
    pub config: AppConfig,
    pub config_path: String,
    pub selected_page: Page,
    pub interfaces: Vec<NetworkInterface>,
    pub interface_choices: Vec<Ipv4Addr>,
    pub devices: Vec<DiscoveredDevice>,
    pub scanned_objects: Vec<DeviceObject>,
    pub scan_progress: Option<(usize, usize)>,
    pub recent_samples: VecDeque<PointSample>,
    pub last_sample_batch: Vec<PointIdentity>,
    pub point_statuses: StatusTable,
    pub status: String,
    pub status_level: LogLevel,
    pub settings: SettingsDraft,
    pub point_editor: PointEditor,
    pub selected_point: Option<usize>,
    pub logs: LogBuffer,
    pub working: bool,
    pub republisher_state: RepublisherLifecycle,
    /// Whether there is a republisher that can be told to stop.
    pub republisher_stop: bool,
    /// Whether the next press of "Clear all" clears; any other action takes that back.
    pub clear_points_armed: bool,
}

/// The contents of a [`BacnetRepublisher`].
pub struct AppView {
    pub config: AppConfigView,
    pub config_path: Seq<char>,
    pub selected_page: Page,
    pub interfaces: Seq<NetworkInterfaceView>,
    pub interface_choices: Seq<Ipv4Addr>,
    pub devices: Seq<DiscoveredDeviceView>,
    pub scanned_objects: Seq<DeviceObjectView>,
    pub scan_progress: Option<(usize, usize)>,
    pub recent_samples: Seq<PointSampleView>,
    pub last_sample_batch: Seq<PointIdentityView>,
    pub point_statuses: Map<PointIdentityView, PointStatusView>,
    pub status: Seq<char>,
    pub status_level: LogLevel,
    pub settings: SettingsDraftView,
    pub point_editor: PointEditorView,
    pub selected_point: Option<usize>,
    pub logs: LogBufferView,
    pub working: bool,
    pub republisher_state: RepublisherLifecycleView,
    pub republisher_stop: bool,
    pub clear_points_armed: bool,
}

impl View for BacnetRepublisher {
    type V = AppView;

    open spec fn view(&self) -> AppView {
        AppView {
            config: self.config@,
            config_path: self.config_path@,
            selected_page: self.selected_page,
            interfaces: views(self.interfaces@),
            interface_choices: self.interface_choices@,
            devices: views(self.devices@),
            scanned_objects: views(self.scanned_objects@),
            scan_progress: self.scan_progress,
            recent_samples: views(self.recent_samples@),
            last_sample_batch: views(self.last_sample_batch@),
            point_statuses: self.point_statuses@,
            status: self.status@,
            status_level: self.status_level,
            settings: self.settings@,
            point_editor: self.point_editor@,
            selected_point: self.selected_point,
            logs: self.logs@,
            working: self.working,
            republisher_state: self.republisher_state@,
            republisher_stop: self.republisher_stop,
            clear_points_armed: self.clear_points_armed,
        }
    }
}

/// The state after something was said.
pub open spec fn said(app: AppView, level: LogLevel, message: Seq<char>) -> AppView {
    AppView {
        status: message,
        status_level: level,
        logs: logged(app.logs, level, message),
        ..app
    }
}

/// What happens, and what is to be done outside.
pub type Outcome = (AppView, Option<EffectView>);

/// Something is said, and nothing else happens.
pub open spec fn only_said(app: AppView, level: LogLevel, message: Seq<char>) -> Outcome {
    (said(app, level, message), None)
}

/// The configuration has changed and is to be saved.
pub open spec fn saving(app: AppView, config: AppConfigView) -> Outcome {
    (AppView { config, ..app }, Some(EffectView::SaveConfig(None)))
}

/// How many points are enabled.
pub open spec fn enabled_count(points: Seq<PointConfigView>) -> nat {
    enabled_of(points).len()
}

/// Whether the republisher is starting, running or stopping.
pub open spec fn is_active(state: RepublisherLifecycleView) -> bool {
    state is Starting || state is Running || state is Stopping
}

#[verifier::opaque]
pub open spec fn scan_all_started(app: AppView) -> Outcome {
    if app.working {
        only_said(app, LogLevel::Warning, "Another BACnet operation is already running"@)
    } else if app.devices.len() == 0 {
        only_said(app, LogLevel::Warning, "Discover devices before scanning all object lists"@)
    } else {
        (
            AppView {
                working: true,
                scanned_objects: Seq::empty(),
                scan_progress: Some((0, app.devices.len() as usize)),
                ..app
            },
            Some(EffectView::ScanAllObjects),
        )
    }
}

/// Why nothing can be published, and how bad that is.
pub open spec fn publish_obstacle(
    app: AppView,
    busy: Seq<char>,
) -> Option<(LogLevel, Seq<char>)> {
    if is_active(app.republisher_state) {
        Some((LogLevel::Warning, busy))
    } else if config_fault(app.config) is Some {
        Some((LogLevel::Error, config_fault(app.config)->Some_0))
    } else if enabled_count(app.config.points) == 0 {
        Some((LogLevel::Warning, "Enable at least one point before publishing"@))
    } else {
        None
    }
}

#[verifier::opaque]
pub open spec fn poll_started(app: AppView) -> Outcome {
    match publish_obstacle(app, "Stop the continuous republisher before running Poll once"@) {
        Some((level, message)) => only_said(app, level, message),
        None => (AppView { working: true, ..app }, Some(EffectView::PollAndPublish)),
    }
}

#[verifier::opaque]
pub open spec fn republisher_started(app: AppView) -> Outcome {
    match publish_obstacle(app, "Continuous republisher is already running"@) {
        Some((level, message)) => only_said(app, level, message),
        None => (
            AppView {
                republisher_stop: true,
                republisher_state: RepublisherLifecycleView::Starting,
                ..app
            },
            Some(EffectView::StartRepublisher),
        ),
    }
}

#[verifier::opaque]
pub open spec fn republisher_stopped(app: AppView) -> Outcome {
    if app.republisher_stop {
        (
            said(
                AppView { republisher_state: RepublisherLifecycleView::Stopping, ..app },
                LogLevel::Info,
                "Stopping continuous republisher"@,
            ),
            Some(EffectView::StopRepublisher),
        )
    } else {
        only_said(app, LogLevel::Warning, "Continuous republisher is not running"@)
    }
}

#[verifier::opaque]
pub open spec fn object_added(app: AppView, index: usize) -> Outcome {
    if index < app.scanned_objects.len() {
        (
            AppView {
                point_editor: editor_of(object_point(app.scanned_objects[index as int], None)),
                selected_point: None,
                selected_page: Page::Points,
                ..app
            },
            None,
        )
    } else {
        (app, None)
    }
}

pub open spec fn with_points(config: AppConfigView, points: Seq<PointConfigView>) -> AppConfigView {
    AppConfigView { points, ..config }
}

#[verifier::opaque]
pub open spec fn point_saved(app: AppView) -> Outcome {
    match edited_point(app.point_editor) {
        Ok(point) => match app.selected_point {
            Some(index) => if index < app.config.points.len() {
                saving(
                    app,
                    with_points(app.config, app.config.points.update(index as int, point)),
                )
            } else {
                saving(app, app.config)
            },
            None => saving(
                AppView { selected_point: Some(app.config.points.len() as usize), ..app },
                with_points(app.config, app.config.points.push(point)),
            ),
        },
        Err(error) => only_said(app, LogLevel::Error, error),
    }
}

#[verifier::opaque]
pub open spec fn point_edited(app: AppView, index: usize) -> Outcome {
    if index < app.config.points.len() {
        (
            AppView {
                selected_point: Some(index),
                point_editor: editor_of(app.config.points[index as int]),
                ..app
            },
            None,
        )
    } else {
        (app, None)
    }
}

#[verifier::opaque]
pub open spec fn point_deleted(app: AppView, index: usize) -> Outcome {
    if index < app.config.points.len() {
        saving(
            AppView { selected_point: None, point_editor: editor_of(default_point()), ..app },
            with_points(app.config, app.config.points.remove(index as int)),
        )
    } else {
        (app, None)
    }
}

pub open spec fn clear_question(points: nat, objects: nat) -> Seq<char> {
    "Press 'Confirm clear' again to remove "@ + decimal(points) + " configured point(s) and "@
        + decimal(objects) + " scanned object(s). Any other action cancels."@
}

pub open spec fn clear_report(points: nat, objects: nat) -> Seq<char> {
    "Cleared "@ + decimal(points) + " configured point(s) and "@ + decimal(objects)
        + " scanned object(s). Run Discover to repopulate from the current devices."@
}

/// A press of "Clear all": the first asks, and the second clears the points and the scanned
/// objects.
#[verifier::opaque]
pub open spec fn points_cleared(app: AppView) -> Outcome {
    let points = app.config.points.len();
    let objects = app.scanned_objects.len();
    if points == 0 && objects == 0 {
        only_said(
            AppView { clear_points_armed: false, ..app },
            LogLevel::Info,
            "No local objects to clear."@,
        )
    } else if !app.clear_points_armed {
        only_said(
            AppView { clear_points_armed: true, ..app },
            LogLevel::Warning,
            clear_question(points, objects),
        )
    } else {
        (
            AppView {
                config: with_points(app.config, Seq::empty()),
                scanned_objects: Seq::empty(),
                point_statuses: Map::empty(),
                last_sample_batch: Seq::empty(),
                selected_point: None,
                point_editor: editor_of(default_point()),
                clear_points_armed: false,
                ..app
            },
            Some(EffectView::SaveConfig(Some(clear_report(points, objects)))),
        )
    }
}

#[verifier::opaque]
pub open spec fn settings_saved(app: AppView) -> Outcome {
    let (next, error) = settings_applied(app.settings, app.config);
    match error {
        None => saving(app, next),
        Some(message) => only_said(app, LogLevel::Error, message),
    }
}

#[verifier::opaque]
pub open spec fn point_toggled(app: AppView, index: usize, enabled: bool) -> Outcome {
    if index < app.config.points.len() {
        let point = PointConfigView { enabled, ..app.config.points[index as int] };
        saving(app, with_points(app.config, app.config.points.update(index as int, point)))
    } else {
        (app, None)
    }
}

/// What a message does, once a pending question is answered or taken back.
pub open spec fn handled(app: AppView, message: MessageView) -> Outcome {
    match message {
        MessageView::SelectPage(page) => (AppView { selected_page: page, ..app }, None),
        MessageView::ThemeSelected(theme) => saving(
            app,
            AppConfigView { ui: UiPreferences { theme }, ..app.config },
        ),
        MessageView::DrainWorkerEvents => (app, Some(EffectView::DrainEvents)),
        MessageView::RefreshInterfaces => (app, Some(EffectView::RefreshInterfaces)),
        MessageView::InterfaceSelected(addr) => saving(
            app,
            AppConfigView {
                bacnet: BacnetConfig {
                    selected_interface: Some(addr),
                    discover_all_interfaces: false,
                    ..app.config.bacnet
                },
                ..app.config
            },
        ),
        MessageView::Discover => (
            AppView {
                working: true,
                devices: Seq::empty(),
                scanned_objects: Seq::empty(),
                ..app
            },
            Some(EffectView::Discover),
        ),
        MessageView::ScanObjects(device) => (
            AppView { working: true, scanned_objects: Seq::empty(), ..app },
            Some(EffectView::ScanObjects(device)),
        ),
        MessageView::ScanAllObjects => scan_all_started(app),
        MessageView::AddObjectAsPoint(index) => object_added(app, index),
        MessageView::PollAndPublish => poll_started(app),
        MessageView::StartRepublisher => republisher_started(app),
        MessageView::StopRepublisher => republisher_stopped(app),
        MessageView::ClearLogs => (
            AppView { logs: LogBufferView { entries: Seq::empty(), ..app.logs }, ..app },
            None,
        ),
        MessageView::SaveSettings => settings_saved(app),
        MessageView::DiscoverAllInterfacesChanged(value) => saving(
            app,
            AppConfigView {
                bacnet: BacnetConfig { discover_all_interfaces: value, ..app.config.bacnet },
                ..app.config
            },
        ),
        MessageView::SavePoint => point_saved(app),
        MessageView::EditPoint(index) => point_edited(app, index),
        MessageView::DeletePoint(index) => point_deleted(app, index),
        MessageView::ClearAllPoints => points_cleared(app),
        MessageView::NewPoint => (
            AppView { selected_point: None, point_editor: editor_of(default_point()), ..app },
            None,
        ),
        MessageView::TogglePoint(index, enabled) => point_toggled(app, index, enabled),
        other => (
            AppView {
                settings: settings_edited(app.settings, other),
                point_editor: editor_edited(app.point_editor, other),
                ..app
            },
            None,
        ),
    }
}

/// The messages that are about neither the points nor an edit.
pub open spec fn is_operation(message: MessageView) -> bool {
    match message {
        MessageView::SelectPage(_) => true,
        MessageView::ThemeSelected(_) => true,
        MessageView::DrainWorkerEvents => true,
        MessageView::RefreshInterfaces => true,
        MessageView::InterfaceSelected(_) => true,
        MessageView::Discover => true,
        MessageView::ScanObjects(_) => true,
        MessageView::ScanAllObjects => true,
        MessageView::PollAndPublish => true,
        MessageView::StartRepublisher => true,
        MessageView::StopRepublisher => true,
        MessageView::ClearLogs => true,
        MessageView::SaveSettings => true,
        MessageView::DiscoverAllInterfacesChanged(_) => true,
        _ => false,
    }
}

/// What a message does: any but a press of "Clear all" and the timer takes back a pending
/// question.
pub open spec fn updated(app: AppView, message: MessageView) -> Outcome {
    if message is ClearAllPoints || message is DrainWorkerEvents {
        handled(app, message)
    } else {
        handled(AppView { clear_points_armed: false, ..app }, message)
    }
}

/// After the configuration was saved, or could not be.
pub open spec fn config_save_reported(
    app: AppView,
    error: Option<Seq<char>>,
    afterwards: Option<Seq<char>>,
) -> AppView {
    let reported = match error {
        None => said(app, LogLevel::Info, "Configuration saved to "@ + app.config_path),
        Some(text) => said(app, LogLevel::Error, "Config save failed: "@ + text),
    };
    match afterwards {
        Some(text) => said(reported, LogLevel::Info, text),
        None => reported,
    }
}

/// The statuses after the publication of a batch.
pub open spec fn with_publications(
    statuses: Map<PointIdentityView, PointStatusView>,
    batch: Seq<PointIdentityView>,
    error: Option<Seq<char>>,
) -> Map<PointIdentityView, PointStatusView>
    decreases batch.len(),
{
    if batch.len() == 0 {
        statuses
    } else {
        with_publication(
            with_publications(statuses, batch.drop_last(), error),
            batch.last(),
            error,
        )
    }
}

/// What a publication failed with, if so.
pub open spec fn publication_error(stats: PublishStatsView) -> Option<Seq<char>> {
    if stats.failed == 0 {
        None
    } else {
        match stats.last_error {
            Some(error) => Some(error),
            None => Some("MQTT publish failed"@),
        }
    }
}

/// After the workers have reported how a publication went.
#[verifier::opaque]
pub open spec fn publication_reported(app: AppView, stats: PublishStatsView) -> AppView {
    said(
        AppView {
            point_statuses: with_publications(
                app.point_statuses,
                app.last_sample_batch,
                publication_error(stats),
            ),
            ..app
        },
        if stats.failed == 0 {
            LogLevel::Info
        } else {
            LogLevel::Warning
        },
        "MQTT publish complete: "@ + decimal(stats.published as nat) + " published, "@ + decimal(
            stats.failed as nat,
        ) + " failed"@,
    )
}

/// The latest of a list.
pub open spec fn latest<T>(list: Seq<T>, count: nat) -> Seq<T> {
    if list.len() <= count {
        list
    } else {
        list.skip(list.len() - count)
    }
}

/// The identities of the points of samples.
pub open spec fn sample_identities(samples: Seq<PointSampleView>) -> Seq<PointIdentityView> {
    Seq::new(samples.len(), |i: int| identity_of(samples[i].point))
}

/// After samples were reported.
#[verifier::opaque]
pub open spec fn samples_recorded(app: AppView, samples: Seq<PointSampleView>) -> AppView {
    AppView {
        last_sample_batch: sample_identities(samples),
        point_statuses: with_samples(app.point_statuses, samples),
        recent_samples: latest(app.recent_samples + samples, RECENT_SAMPLE_CAPACITY as nat),
        ..app
    }
}

/// What is said of a state of the republisher, and how bad it is.
pub open spec fn lifecycle_message(state: RepublisherLifecycleView) -> (LogLevel, Seq<char>) {
    match state {
        RepublisherLifecycleView::Starting => (
            LogLevel::Info,
            "Starting continuous republisher"@,
        ),
        RepublisherLifecycleView::Running => (LogLevel::Info, "Continuous republisher active"@),
        RepublisherLifecycleView::Stopping => (
            LogLevel::Info,
            "Stopping continuous republisher"@,
        ),
        RepublisherLifecycleView::Stopped => (LogLevel::Info, "Continuous republisher stopped"@),
        RepublisherLifecycleView::Failed(reason) => (
            LogLevel::Error,
            "Continuous republisher failed: "@ + reason,
        ),
    }
}

/// After the republisher has reported its state: once it is told to stop, that it is starting or
/// running is no longer of interest.
#[verifier::opaque]
pub open spec fn lifecycle_applied(app: AppView, state: RepublisherLifecycleView) -> AppView {
    if app.republisher_state is Stopping && (state is Starting || state is Running) {
        app
    } else {
        let (level, message) = lifecycle_message(state);
        AppView {
            republisher_state: state,
            republisher_stop: app.republisher_stop && !(state is Stopped || state is Failed),
            ..said(app, level, message)
        }
    }
}

/// What a report of a worker does.
pub open spec fn reported(app: AppView, event: WorkerEventView) -> Outcome {
    match event {
        WorkerEventView::Log(level, message) => only_said(app, level, message),
        WorkerEventView::Devices(devices) => (AppView { devices, ..app }, None),
        WorkerEventView::Objects(objects) => (AppView { scanned_objects: objects, ..app }, None),
        WorkerEventView::ScanProgress { current, total } => (
            AppView { scan_progress: Some((current, total)), ..app },
            None,
        ),
        WorkerEventView::BulkTagImport(outcome) => saving(
            AppView {
                devices: outcome.devices,
                scanned_objects: outcome.scanned_objects,
                ..app
            },
            with_points(app.config, outcome.points),
        ),
        WorkerEventView::Samples(samples) => (samples_recorded(app, samples), None),
        WorkerEventView::Failures(failures) => (
            AppView { point_statuses: with_failures(app.point_statuses, failures), ..app },
            None,
        ),
        WorkerEventView::PublishStatus(stats) => (publication_reported(app, stats), None),
        WorkerEventView::RepublisherLifecycle(state) => (lifecycle_applied(app, state), None),
        WorkerEventView::Finished(message) => only_said(
            AppView { working: false, scan_progress: None, ..app },
            LogLevel::Info,
            message,
        ),
    }
}

/// The times of a log after one more message and, where there are two, another one.
pub open spec fn timed_twice(
    times: Seq<Elapsed>,
    capacity: usize,
    first: Elapsed,
    second: Elapsed,
    two: bool,
) -> Seq<Elapsed> {
    let once = timed(times, capacity, first);
    if two {
        timed(once, capacity, second)
    } else {
        once
    }
}

/// The state at the beginning.
pub open spec fn app_start(
    config: AppConfigView,
    config_path: Seq<char>,
    status: Seq<char>,
    page: Page,
    interfaces: Seq<NetworkInterfaceView>,
    choices: Seq<Ipv4Addr>,
) -> AppView {
    AppView {
        config,
        config_path,
        selected_page: page,
        interfaces,
        interface_choices: choices,
        devices: Seq::empty(),
        scanned_objects: Seq::empty(),
        scan_progress: None,
        recent_samples: Seq::empty(),
        last_sample_batch: Seq::empty(),
        point_statuses: Map::empty(),
        status,
        status_level: LogLevel::Info,
        settings: draft_of(config),
        point_editor: editor_of(default_point()),
        selected_point: None,
        logs: logged(empty_log(LOG_CAPACITY), LogLevel::Info, status),
        working: false,
        republisher_state: RepublisherLifecycleView::Stopped,
        republisher_stop: false,
        clear_points_armed: false,
    }
}

fn lifecycle_status(state: &RepublisherLifecycle) -> (status: (LogLevel, String))
    ensures
        (status.0, status.1@) == lifecycle_message(state@),
{
    match state {
        RepublisherLifecycle::Starting => (
            LogLevel::Info,
            "Starting continuous republisher".to_string(),
        ),
        RepublisherLifecycle::Running => (
            LogLevel::Info,
            "Continuous republisher active".to_string(),
        ),
        RepublisherLifecycle::Stopping => (
            LogLevel::Info,
            "Stopping continuous republisher".to_string(),
        ),
        RepublisherLifecycle::Stopped => (
            LogLevel::Info,
            "Continuous republisher stopped".to_string(),
        ),
        RepublisherLifecycle::Failed(reason) => (
            LogLevel::Error,
            text2("Continuous republisher failed: ", reason.as_str()),
        ),
    }
}

impl BacnetRepublisher {
    /// What holds of every application: its table of statuses is in order, and no more samples
    /// are kept than there is room for.
    pub open spec fn well_formed(&self) -> bool {
        &&& self.point_statuses.well_formed()
        &&& self.recent_samples@.len() <= RECENT_SAMPLE_CAPACITY
    }

    pub fn new(
        config: AppConfig,
        config_path: String,
        status: String,
        page: Page,
        interfaces: Vec<NetworkInterface>,
    ) -> (app: Self)
        ensures
            app.well_formed(),
            app@ == app_start(
                config@,
                config_path@,
                status@,
                page,
                views(interfaces@),
                app.interface_choices@,
            ),
            address_numbers(app.interface_choices@) == ascending(
                interface_numbers(views(interfaces@)).to_set(),
            ),
            app.logs.times().len() == 1,
            app.logs.times()[0].well_formed(),
    {
        let choices = interface_choices(interfaces.as_slice());
        let mut logs = LogBuffer::new(LOG_CAPACITY);
        logs.push(LogLevel::Info, status.as_str());
        let app = BacnetRepublisher {
            settings: SettingsDraft::from_config(&config),
            point_editor: PointEditor::new(),
            config,
            config_path,
            selected_page: page,
            interfaces,
            interface_choices: choices,
            devices: Vec::new(),
            scanned_objects: Vec::new(),
            scan_progress: None,
            recent_samples: VecDeque::new(),
            last_sample_batch: Vec::new(),
            point_statuses: StatusTable::new(),
            status,
            status_level: LogLevel::Info,
            selected_point: None,
            logs,
            working: false,
            republisher_state: RepublisherLifecycle::Stopped,
            republisher_stop: false,
            clear_points_armed: false,
        };
        assert(views(app.devices@) =~= Seq::<DiscoveredDeviceView>::empty());
        assert(views(app.scanned_objects@) =~= Seq::<DeviceObjectView>::empty());
        assert(views(app.recent_samples@) =~= Seq::<PointSampleView>::empty());
        assert(views(app.last_sample_batch@) =~= Seq::<PointIdentityView>::empty());
        assert(app@ == app_start(
            config@,
            config_path@,
            status@,
            page,
            views(interfaces@),
            choices@,
        ));
        app
    }

    pub fn set_status(&mut self, level: LogLevel, message: &str)
        requires
            old(self).well_formed(),
        ensures
            final(self).well_formed(),
            final(self)@ == said(old(self)@, level, message@),
            exists|elapsed: Elapsed|
                elapsed.well_formed() && final(self).logs.times() == #[trigger] timed(
                    old(self).logs.times(),
                    old(self)@.logs.capacity,
                    elapsed,
                ),
            times_follow(old(self).logs, final(self).logs),
    {
        self.status = message.to_string();
        self.status_level = level;
        let ghost before = self.logs;
        self.logs.push(level, message);
        proof {
            lemma_times_written(before, self.logs, level, message@);
        }
    }

    pub fn enabled_point_count(&self) -> (count: usize)
        ensures
            count == enabled_count(self@.config.points),
    {
        let enabled = enabled_points(self.config.points.as_slice());
        assert(views(enabled@).len() == enabled@.len());
        enabled.len()
    }

    pub fn republisher_active(&self) -> (active: bool)
        ensures
            active == is_active(self@.republisher_state),
    {
        match &self.republisher_state {
            RepublisherLifecycle::Starting => true,
            RepublisherLifecycle::Running => true,
            RepublisherLifecycle::Stopping => true,
            RepublisherLifecycle::Stopped => false,
            RepublisherLifecycle::Failed(_) => false,
        }
    }

    fn start_scan_all_objects(&mut self) -> (effect: Option<Effect>)
        requires
            old(self).well_formed(),
        ensures
            final(self).well_formed(),
            times_follow(old(self).logs, final(self).logs),
            (final(self)@, effect_view(effect)) == scan_all_started(old(self)@),
    {
        proof {
            lemma_times_stay(self.logs);
        }
        reveal(scan_all_started);
        assert(views(self.devices@).len() == self.devices@.len());
        if self.working {
            self.set_status(LogLevel::Warning, "Another BACnet operation is already running");
            return None;
        }
        if self.devices.len() == 0 {
            self.set_status(LogLevel::Warning, "Discover devices before scanning all object lists");
            return None;
        }
        self.working = true;
        self.scanned_objects = Vec::new();
        self.scan_progress = Some((0, self.devices.len()));
        assert(views(self.scanned_objects@) =~= Seq::<DeviceObjectView>::empty());
        Some(Effect::ScanAllObjects)
    }

    /// Says why nothing can be published, if so; returns whether something can.
    fn can_publish(&mut self, busy: &str) -> (result: bool)
        requires
            old(self).well_formed(),
        ensures
            final(self).well_formed(),
            times_follow(old(self).logs, final(self).logs),
            match publish_obstacle(old(self)@, busy@) {
                Some((level, message)) => !result && final(self)@ == said(
                    old(self)@,
                    level,
                    message,
                ),
                None => result && final(self)@ == old(self)@,
            },
    {
        proof {
            lemma_times_stay(self.logs);
        }
        if self.republisher_active() {
            self.set_status(LogLevel::Warning, busy);
            return false;
        }
        if let Err(error) = self.config.validate() {
            self.set_status(LogLevel::Error, error.as_str());
            return false;
        }
        if self.enabled_point_count() == 0 {
            self.set_status(LogLevel::Warning, "Enable at least one point before publishing");
            return false;
        }
        true
    }

    fn start_poll_and_publish(&mut self) -> (effect: Option<Effect>)
        requires
            old(self).well_formed(),
        ensures
            final(self).well_formed(),
            times_follow(old(self).logs, final(self).logs),
            (final(self)@, effect_view(effect)) == poll_started(old(self)@),
    {
        proof {
            lemma_times_stay(self.logs);
        }
        reveal(poll_started);
        if !self.can_publish("Stop the continuous republisher before running Poll once") {
            return None;
        }
        self.working = true;
        Some(Effect::PollAndPublish)
    }

    fn start_republisher(&mut self) -> (effect: Option<Effect>)
        requires
            old(self).well_formed(),
        ensures
            final(self).well_formed(),
            times_follow(old(self).logs, final(self).logs),
            (final(self)@, effect_view(effect)) == republisher_started(old(self)@),
    {
        proof {
            lemma_times_stay(self.logs);
        }
        reveal(republisher_started);
        if !self.can_publish("Continuous republisher is already running") {
            return None;
        }
        self.republisher_stop = true;
        self.republisher_state = RepublisherLifecycle::Starting;
        Some(Effect::StartRepublisher)
    }

    fn stop_republisher(&mut self) -> (effect: Option<Effect>)
        requires
            old(self).well_formed(),
        ensures
            final(self).well_formed(),
            times_follow(old(self).logs, final(self).logs),
            (final(self)@, effect_view(effect)) == republisher_stopped(old(self)@),
    {
        reveal(republisher_stopped);
        if self.republisher_stop {
            self.republisher_state = RepublisherLifecycle::Stopping;
            self.set_status(LogLevel::Info, "Stopping continuous republisher");
            Some(Effect::StopRepublisher)
        } else {
            self.set_status(LogLevel::Warning, "Continuous republisher is not running");
            None
        }
    }

    fn add_object_as_point(&mut self, index: usize)
        requires
            old(self).well_formed(),
        ensures
            final(self).well_formed(),
            final(self).logs == old(self).logs,
            (final(self)@, None::<EffectView>) == object_added(old(self)@, index),
    {
        reveal(object_added);
        assert(views(self.scanned_objects@).len() == self.scanned_objects@.len());
        if index < self.scanned_objects.len() {
            let point = point_from_object(&self.scanned_objects[index], None);
            self.point_editor = PointEditor::from_point(&point);
            self.selected_point = None;
            self.selected_page = Page::Points;
        }
    }

    /// Puts a point in the place of another.
    fn replace_point(&mut self, index: usize, point: PointConfig)
        requires
            old(self).well_formed(),
            index < old(self).config.points@.len(),
        ensures
            final(self).well_formed(),
            final(self).logs == old(self).logs,
            final(self)@ == (AppView {
                config: with_points(
                    old(self)@.config,
                    old(self)@.config.points.update(index as int, point@),
                ),
                ..old(self)@
            }),
    {
        let ghost before = self.config.points@;
        self.config.points.set(index, point);
        assert(views(self.config.points@) =~= views(before).update(index as int, point@));
    }

    fn save_point(&mut self) -> (effect: Option<Effect>)
        requires
            old(self).well_formed(),
        ensures
            final(self).well_formed(),
            times_follow(old(self).logs, final(self).logs),
            (final(self)@, effect_view(effect)) == point_saved(old(self)@),
    {
        proof {
            lemma_times_stay(self.logs);
        }
        reveal(point_saved);
        broadcast use lemma_views_push;
        assert(views(self.config.points@).len() == self.config.points@.len());
        match self.point_editor.to_point() {
            Ok(point) => {
                match self.selected_point {
                    Some(index) => {
                        if index < self.config.points.len() {
                            self.replace_point(index, point);
                        }
                    },
                    None => {
                        self.selected_point = Some(self.config.points.len());
                        self.config.points.push(point);
                    },
                }
                Some(Effect::SaveConfig(None))
            },
            Err(error) => {
                self.set_status(LogLevel::Error, error.as_str());
                None
            },
        }
    }

    fn edit_point(&mut self, index: usize)
        requires
            old(self).well_formed(),
        ensures
            final(self).well_formed(),
            final(self).logs == old(self).logs,
            (final(self)@, None::<EffectView>) == point_edited(old(self)@, index),
    {
        reveal(point_edited);
        assert(views(self.config.points@).len() == self.config.points@.len());
        if index < self.config.points.len() {
            self.selected_point = Some(index);
            self.point_editor = PointEditor::from_point(&self.config.points[index]);
        }
    }

    fn delete_point(&mut self, index: usize) -> (effect: Option<Effect>)
        requires
            old(self).well_formed(),
        ensures
            final(self).well_formed(),
            times_follow(old(self).logs, final(self).logs),
            (final(self)@, effect_view(effect)) == point_deleted(old(self)@, index),
    {
        proof {
            lemma_times_stay(self.logs);
        }
        reveal(point_deleted);
        let ghost before = self.config.points@;
        assert(views(before).len() == before.len());
        if index < self.config.points.len() {
            let _ = self.config.points.remove(index);
            assert(views(self.config.points@) =~= views(before).remove(index as int));
            self.selected_point = None;
            self.point_editor = PointEditor::new();
            Some(Effect::SaveConfig(None))
        } else {
            None
        }
    }

    fn clear_all_points(&mut self) -> (effect: Option<Effect>)
        requires
            old(self).well_formed(),
        ensures
            final(self).well_formed(),
            times_follow(old(self).logs, final(self).logs),
            (final(self)@, effect_view(effect)) == points_cleared(old(self)@),
    {
        proof {
            lemma_times_stay(self.logs);
        }
        reveal(points_cleared);
        assert(views(self.config.points@).len() == self.config.points@.len());
        assert(views(self.scanned_objects@).len() == self.scanned_objects@.len());
        let points: usize = self.config.points.len();
        let objects: usize = self.scanned_objects.len();
        if points == 0 && objects == 0 {
            self.clear_points_armed = false;
            self.set_status(LogLevel::Info, "No local objects to clear.");
            return None;
        }
        if !self.clear_points_armed {
            self.clear_points_armed = true;
            let mut question = text3(
                "Press 'Confirm clear' again to remove ",
                decimal_text(points as u64).as_str(),
                " configured point(s) and ",
            );
            question.append(decimal_text(objects as u64).as_str());
            question.append(" scanned object(s). Any other action cancels.");
            self.set_status(LogLevel::Warning, question.as_str());
            return None;
        }
        self.config.points = Vec::new();
        self.scanned_objects = Vec::new();
        self.point_statuses.clear();
        self.last_sample_batch = Vec::new();
        self.selected_point = None;
        self.point_editor = PointEditor::new();
        self.clear_points_armed = false;
        let mut report = text3(
            "Cleared ",
            decimal_text(points as u64).as_str(),
            " configured point(s) and ",
        );
        report.append(decimal_text(objects as u64).as_str());
        report.append(
            " scanned object(s). Run Discover to repopulate from the current devices.",
        );
        assert(views(self.config.points@) =~= Seq::<PointConfigView>::empty());
        assert(views(self.scanned_objects@) =~= Seq::<DeviceObjectView>::empty());
        assert(views(self.last_sample_batch@) =~= Seq::<PointIdentityView>::empty());
        Some(Effect::SaveConfig(Some(report)))
    }

    fn save_settings(&mut self) -> (effect: Option<Effect>)
        requires
            old(self).well_formed(),
        ensures
            final(self).well_formed(),
            times_follow(old(self).logs, final(self).logs),
            (final(self)@, effect_view(effect)) == settings_saved(old(self)@),
    {
        proof {
            lemma_times_stay(self.logs);
        }
        reveal(settings_saved);
        let mut next = self.config.clone();
        match self.settings.apply_to(&mut next) {
            Ok(()) => {
                self.config = next;
                Some(Effect::SaveConfig(None))
            },
            Err(error) => {
                self.set_status(LogLevel::Error, error.as_str());
                None
            },
        }
    }

    fn toggle_point(&mut self, index: usize, enabled: bool) -> (effect: Option<Effect>)
        requires
            old(self).well_formed(),
        ensures
            final(self).well_formed(),
            times_follow(old(self).logs, final(self).logs),
            (final(self)@, effect_view(effect)) == point_toggled(old(self)@, index, enabled),
    {
        proof {
            lemma_times_stay(self.logs);
        }
        reveal(point_toggled);
        assert(views(self.config.points@).len() == self.config.points@.len());
        if index < self.config.points.len() {
            let mut point = self.config.points[index].clone();
            point.enabled = enabled;
            self.replace_point(index, point);
            Some(Effect::SaveConfig(None))
        } else {
            None
        }
    }

    /// Takes over what the operator has typed or ticked.
    fn edit(&mut self, message: Message)
        requires
            old(self).well_formed(),
        ensures
            final(self).well_formed(),
            final(self).logs == old(self).logs,
            final(self)@ == (AppView {
                settings: settings_edited(old(self)@.settings, message@),
                point_editor: editor_edited(old(self)@.point_editor, message@),
                ..old(self)@
            }),
    {
        edit_settings(&mut self.settings, &message);
        edit_point_editor(&mut self.point_editor, message);
    }

    fn clear_logs(&mut self)
        requires
            old(self).well_formed(),
        ensures
            final(self).well_formed(),
            times_follow(old(self).logs, final(self).logs),
            final(self)@ == (AppView {
                logs: LogBufferView { entries: Seq::empty(), ..old(self)@.logs },
                ..old(self)@
            }),
    {
        let ghost before = self.logs;
        self.logs.clear();
        proof {
            lemma_times_cleared(before, self.logs);
        }
    }

    /// Takes a message on the points, or an edit.
    fn update_points(&mut self, message: Message) -> (effect: Option<Effect>)
        requires
            old(self).well_formed(),
            !is_operation(message@),
        ensures
            final(self).well_formed(),
            times_follow(old(self).logs, final(self).logs),
            (final(self)@, effect_view(effect)) == handled(old(self)@, message@),
    {
        proof {
            lemma_times_stay(self.logs);
        }
        match message {
            Message::AddObjectAsPoint(index) => {
                self.add_object_as_point(index);
                None
            },
            Message::SavePoint => self.save_point(),
            Message::EditPoint(index) => {
                self.edit_point(index);
                None
            },
            Message::DeletePoint(index) => self.delete_point(index),
            Message::ClearAllPoints => self.clear_all_points(),
            Message::NewPoint => {
                self.selected_point = None;
                self.point_editor = PointEditor::new();
                None
            },
            Message::TogglePoint(index, enabled) => self.toggle_point(index, enabled),
            other => {
                self.edit(other);
                None
            },
        }
    }

    /// Takes a message; what it returns is to be done outside.
    #[verifier::rlimit(40)]
    pub fn update(&mut self, message: Message) -> (effect: Option<Effect>)
        requires
            old(self).well_formed(),
        ensures
            final(self).well_formed(),
            times_follow(old(self).logs, final(self).logs),
            (final(self)@, effect_view(effect)) == updated(old(self)@, message@),
    {
        proof {
            lemma_times_stay(self.logs);
        }
        let keeps_question = match &message {
            Message::ClearAllPoints => true,
            Message::DrainWorkerEvents => true,
            _ => false,
        };
        if !keeps_question {
            self.clear_points_armed = false;
        }
        match message {
            Message::SelectPage(page) => {
                self.selected_page = page;
                None
            },
            Message::ThemeSelected(theme) => {
                self.config.ui.theme = theme;
                Some(Effect::SaveConfig(None))
            },
            Message::DrainWorkerEvents => Some(Effect::DrainEvents),
            Message::RefreshInterfaces => Some(Effect::RefreshInterfaces),
            Message::InterfaceSelected(addr) => {
                self.config.bacnet.selected_interface = Some(addr);
                self.config.bacnet.discover_all_interfaces = false;
                Some(Effect::SaveConfig(None))
            },
            Message::Discover => {
                self.working = true;
                self.devices = Vec::new();
                self.scanned_objects = Vec::new();
                assert(views(self.devices@) =~= Seq::<DiscoveredDeviceView>::empty());
                assert(views(self.scanned_objects@) =~= Seq::<DeviceObjectView>::empty());
                Some(Effect::Discover)
            },
            Message::ScanObjects(device_instance) => {
                self.working = true;
                self.scanned_objects = Vec::new();
                assert(views(self.scanned_objects@) =~= Seq::<DeviceObjectView>::empty());
                Some(Effect::ScanObjects(device_instance))
            },
            Message::ScanAllObjects => self.start_scan_all_objects(),
            Message::PollAndPublish => self.start_poll_and_publish(),
            Message::StartRepublisher => self.start_republisher(),
            Message::StopRepublisher => self.stop_republisher(),
            Message::ClearLogs => {
                self.clear_logs();
                None
            },
            Message::SaveSettings => self.save_settings(),
            Message::DiscoverAllInterfacesChanged(value) => {
                self.config.bacnet.discover_all_interfaces = value;
                Some(Effect::SaveConfig(None))
            },
            other => self.update_points(other),
        }
    }

    /// To be called after the configuration was saved, with the error where that failed, and with
    /// what is to be said afterwards.
    pub fn config_saved(&mut self, error: Option<String>, afterwards: Option<String>)
        requires
            old(self).well_formed(),
        ensures
            final(self).well_formed(),
            final(self)@ == config_save_reported(
                old(self)@,
                opt_text(error),
                opt_text(afterwards),
            ),
            exists|first: Elapsed, second: Elapsed|
                first.well_formed() && second.well_formed() && final(self).logs.times()
                    == #[trigger] timed_twice(
                    old(self).logs.times(),
                    old(self)@.logs.capacity,
                    first,
                    second,
                    afterwards is Some,
                ),
    {
        let ghost before = self.logs;
        match error {
            None => {
                let message = text2("Configuration saved to ", self.config_path.as_str());
                self.set_status(LogLevel::Info, message.as_str());
            },
            Some(text) => {
                let message = text2("Config save failed: ", text.as_str());
                self.set_status(LogLevel::Error, message.as_str());
            },
        }
        let ghost capacity = before@.capacity;
        let ghost first = choose|first: Elapsed|
            first.well_formed() && self.logs.times() == #[trigger] timed(
                before.times(),
                capacity,
                first,
            );
        let ghost between = self.logs;
        let more = afterwards.is_some();
        if let Some(text) = afterwards {
            self.set_status(LogLevel::Info, text.as_str());
        }
        proof {
            let second = if more {
                choose|second: Elapsed|
                    second.well_formed() && self.logs.times() == #[trigger] timed(
                        between.times(),
                        capacity,
                        second,
                    )
            } else {
                first
            };
            assert(self.logs.times() == timed_twice(
                before.times(),
                capacity,
                first,
                second,
                more,
            ));
        }
    }

    /// To be called with the interfaces that were found.
    pub fn interfaces_refreshed(&mut self, interfaces: Vec<NetworkInterface>)
        requires
            old(self).well_formed(),
        ensures
            final(self).well_formed(),
            times_follow(old(self).logs, final(self).logs),
            final(self)@ == said(
                AppView {
                    interfaces: views(interfaces@),
                    interface_choices: final(self)@.interface_choices,
                    ..old(self)@
                },
                LogLevel::Info,
                "Network interfaces refreshed"@,
            ),
            address_numbers(final(self)@.interface_choices) == ascending(
                interface_numbers(views(interfaces@)).to_set(),
            ),
    {
        self.interface_choices = interface_choices(interfaces.as_slice());
        self.interfaces = interfaces;
        self.set_status(LogLevel::Info, "Network interfaces refreshed");
    }

    pub fn record_samples(&mut self, samples: Vec<PointSample>)
        requires
            old(self).well_formed(),
        ensures
            final(self).well_formed(),
            final(self).logs == old(self).logs,
            final(self)@ == samples_recorded(old(self)@, views(samples@)),
    {
        reveal(samples_recorded);
        broadcast use lemma_views_push;
        let ghost start = self@;
        let ghost all = views(samples@);
        self.last_sample_batch = Vec::new();
        let mut i: usize = 0;
        proof {
            assert(all.take(0) =~= Seq::<PointSampleView>::empty());
            assert(views(self.last_sample_batch@) =~= sample_identities(all.take(0)));
            assert(start.recent_samples + all.take(0) =~= start.recent_samples);
        }
        while i < samples.len()
            invariant
                i <= samples@.len(),
                all == views(samples@),
                self.well_formed(),
                self@ == samples_recorded(start, all.take(i as int)),
                self.logs == old(self).logs,
            decreases samples.len() - i,
        {
            reveal(samples_recorded);
            let ghost kept = self.recent_samples@;
            let ghost batch = self.last_sample_batch@;
            proof {
                assert(all.take(i as int + 1).drop_last() =~= all.take(i as int));
                assert(all.take(i as int + 1).last() == samples@[i as int]@);
                assert(sample_identities(all.take(i as int + 1)) =~= sample_identities(
                    all.take(i as int),
                ).push(identity_of(samples@[i as int]@.point)));
                lemma_latest_push(
                    start.recent_samples + all.take(i as int),
                    samples@[i as int]@,
                    RECENT_SAMPLE_CAPACITY as nat,
                );
                assert((start.recent_samples + all.take(i as int)).push(samples@[i as int]@)
                    =~= start.recent_samples + all.take(i as int + 1));
            }
            let identity = PointIdentity::from_point(&samples[i].point);
            self.point_statuses.record_sample(&samples[i]);
            if self.recent_samples.len() >= RECENT_SAMPLE_CAPACITY {
                let _ = self.recent_samples.pop_front();
            }
            self.recent_samples.push_back(samples[i].clone());
            self.last_sample_batch.push(identity);
            proof {
                let shorter = if kept.len() >= RECENT_SAMPLE_CAPACITY {
                    kept.skip(1)
                } else {
                    kept
                };
                assert(self.recent_samples@ =~= shorter.push(samples@[i as int]));
                assert(views(self.recent_samples@) =~= views(shorter).push(samples@[i as int]@));
                if kept.len() >= RECENT_SAMPLE_CAPACITY {
                    assert(views(kept.skip(1)) =~= views(kept).skip(1));
                }
                assert(views(self.last_sample_batch@) =~= views(batch).push(
                    identity_of(samples@[i as int]@.point),
                ));
                assert(self@ == samples_recorded(start, all.take(i as int + 1)));
            }
            i += 1;
        }
        assert(all.take(all.len() as int) =~= all);
    }

    fn record_publications(&mut self, error: Option<&str>)
        requires
            old(self).well_formed(),
        ensures
            final(self).well_formed(),
            final(self).logs == old(self).logs,
            final(self)@ == (AppView {
                point_statuses: with_publications(
                    old(self)@.point_statuses,
                    old(self)@.last_sample_batch,
                    match error {
                        Some(text) => Some(text@),
                        None => None,
                    },
                ),
                ..old(self)@
            }),
    {
        let ghost start = self@;
        let ghost shown = match error {
            Some(text) => Some(text@),
            None => None,
        };
        let mut i: usize = 0;
        assert(start.last_sample_batch.take(0) =~= Seq::<PointIdentityView>::empty());
        assert(self@ =~= start);
        while i < self.last_sample_batch.len()
            invariant
                i <= self.last_sample_batch@.len(),
                self.well_formed(),
                self.logs == old(self).logs,
                views(self.last_sample_batch@) == start.last_sample_batch,
                shown == match error {
                    Some(text) => Some(text@),
                    None => None,
                },
                self@ == (AppView {
                    point_statuses: with_publications(
                        start.point_statuses,
                        start.last_sample_batch.take(i as int),
                        shown,
                    ),
                    ..start
                }),
            decreases self.last_sample_batch.len() - i,
        {
            proof {
                let batch = start.last_sample_batch;
                assert(batch.take(i as int + 1).drop_last() =~= batch.take(i as int));
                assert(batch.take(i as int + 1).last() == self.last_sample_batch@[i as int]@);
            }
            let identity = self.last_sample_batch[i].clone();
            self.point_statuses.record_publication(&identity, error);
            i += 1;
        }
        assert(start.last_sample_batch.take(start.last_sample_batch.len() as int)
            =~= start.last_sample_batch);
    }

    fn apply_publish_status(&mut self, stats: PublishStats)
        requires
            old(self).well_formed(),
        ensures
            final(self).well_formed(),
            times_follow(old(self).logs, final(self).logs),
            final(self)@ == publication_reported(old(self)@, stats@),
    {
        reveal(publication_reported);
        if stats.failed == 0 {
            self.record_publications(None);
        } else {
            let error = match &stats.last_error {
                Some(text) => text.clone(),
                None => "MQTT publish failed".to_string(),
            };
            self.record_publications(Some(error.as_str()));
        }
        let mut message = text3(
            "MQTT publish complete: ",
            decimal_text(stats.published as u64).as_str(),
            " published, ",
        );
        message.append(decimal_text(stats.failed as u64).as_str());
        message.append(" failed");
        let level = if stats.failed == 0 {
            LogLevel::Info
        } else {
            LogLevel::Warning
        };
        self.set_status(level, message.as_str());
    }

    pub fn apply_republisher_lifecycle(&mut self, state: RepublisherLifecycle)
        requires
            old(self).well_formed(),
        ensures
            final(self).well_formed(),
            times_follow(old(self).logs, final(self).logs),
            final(self)@ == lifecycle_applied(old(self)@, state@),
    {
        proof {
            lemma_times_stay(self.logs);
        }
        reveal(lifecycle_applied);
        let stopping = match &self.republisher_state {
            RepublisherLifecycle::Stopping => true,
            _ => false,
        };
        let beginning = match &state {
            RepublisherLifecycle::Starting => true,
            RepublisherLifecycle::Running => true,
            _ => false,
        };
        let over = match &state {
            RepublisherLifecycle::Stopped => true,
            RepublisherLifecycle::Failed(_) => true,
            _ => false,
        };
        if stopping && beginning {
            return;
        }
        let (level, message) = lifecycle_status(&state);
        if over {
            self.republisher_stop = false;
        }
        self.set_status(level, message.as_str());
        self.republisher_state = state;
    }

    /// Takes a report of a worker; what it returns is to be done outside.
    #[verifier::rlimit(30)]
    pub fn apply_worker_event(&mut self, event: WorkerEvent) -> (effect: Option<Effect>)
        requires
            old(self).well_formed(),
        ensures
            final(self).well_formed(),
            times_follow(old(self).logs, final(self).logs),
            (final(self)@, effect_view(effect)) == reported(old(self)@, event@),
    {
        proof {
            lemma_times_stay(self.logs);
        }
        match event {
            WorkerEvent::Log(level, message) => {
                self.set_status(level, message.as_str());
                None
            },
            WorkerEvent::Devices(devices) => {
                self.devices = devices;
                None
            },
            WorkerEvent::Objects(objects) => {
                self.scanned_objects = objects;
                None
            },
            WorkerEvent::ScanProgress { current, total } => {
                self.scan_progress = Some((current, total));
                None
            },
            WorkerEvent::BulkTagImport(outcome) => {
                self.devices = outcome.devices;
                self.scanned_objects = outcome.scanned_objects;
                self.config.points = outcome.points;
                Some(Effect::SaveConfig(None))
            },
            WorkerEvent::Samples(samples) => {
                self.record_samples(samples);
                None
            },
            WorkerEvent::Failures(failures) => {
                record_failures(&mut self.point_statuses, &failures);
                None
            },
            WorkerEvent::PublishStatus(stats) => {
                self.apply_publish_status(stats);
                None
            },
            WorkerEvent::RepublisherLifecycle(state) => {
                self.apply_republisher_lifecycle(state);
                None
            },
            WorkerEvent::Finished(message) => {
                self.working = false;
                self.scan_progress = None;
                self.set_status(LogLevel::Info, message.as_str());
                None
            },
        }
    }
}

/// The latest of a list that has grown by one: the oldest goes where there is no room.
proof fn lemma_latest_push<T>(list: Seq<T>, item: T, count: nat)
    requires
        count > 0,
    ensures
        latest(list, count).len() <= count,
        latest(list.push(item), count) == if latest(list, count).len() >= count {
            latest(list, count).skip(1).push(item)
        } else {
            latest(list, count).push(item)
        },
{
    if list.len() >= count {
        assert(latest(list.push(item), count) =~= latest(list, count).skip(1).push(item));
    }
}

/// Nothing is cleared by the first press of "Clear all", and any other action in between takes it
/// back: points and objects go only with a second press that follows the first directly, or with
/// nothing but the timer in between.
pub proof fn law_clearing_needs_two_presses(app: AppView, other: MessageView)
    ensures
        !app.clear_points_armed ==> {
            let after = updated(app, MessageView::ClearAllPoints).0;
            after.config.points == app.config.points && after.scanned_objects
                == app.scanned_objects
        },
        other !is ClearAllPoints && other !is DrainWorkerEvents ==> !updated(
            app,
            other,
        ).0.clear_points_armed,
        updated(app, MessageView::DrainWorkerEvents).0 == app,
        app.clear_points_armed ==> {
            let after = updated(app, MessageView::ClearAllPoints).0;
            after.config.points.len() == 0 && after.scanned_objects.len() == 0
                && !after.clear_points_armed
        },
{
    reveal(scan_all_started);
    reveal(poll_started);
    reveal(republisher_started);
    reveal(republisher_stopped);
    reveal(object_added);
    reveal(point_saved);
    reveal(point_edited);
    reveal(point_deleted);
    reveal(points_cleared);
    reveal(settings_saved);
    reveal(point_toggled);
}

/// Once the republisher is told to stop, it counts as stopping until it reports that it has
/// stopped or failed.
pub proof fn law_stopping_lasts(app: AppView, state: RepublisherLifecycleView)
    requires
        app.republisher_state is Stopping,
    ensures
        lifecycle_applied(app, state).republisher_state is Stopping || state is Stopped || state
            is Failed,
        state is Stopped || state is Failed ==> {
            &&& lifecycle_applied(app, state).republisher_state == state
            &&& !lifecycle_applied(app, state).republisher_stop
        },
{
    reveal(lifecycle_applied);
}

/// Only one republisher runs at a time: none is started while one is starting, running or
/// stopping.
pub proof fn law_one_republisher(app: AppView)
    ensures
        updated(app, MessageView::StartRepublisher).1 is Some ==> !is_active(
            app.republisher_state,
        ) && config_fault(app.config) is None && enabled_count(app.config.points) > 0,
        updated(app, MessageView::StartRepublisher).1 is Some ==> is_active(
            updated(app, MessageView::StartRepublisher).0.republisher_state,
        ),
        updated(app, MessageView::PollAndPublish).1 is Some ==> !is_active(app.republisher_state),
{
    reveal(republisher_started);
    reveal(poll_started);
}

/// Whatever happens, no more samples are kept than there is room for, and the latest are kept.
pub proof fn law_recent_samples_are_bounded(app: AppView, samples: Seq<PointSampleView>)
    ensures
        samples_recorded(app, samples).recent_samples.len() <= RECENT_SAMPLE_CAPACITY,
        samples.len() > 0 ==> samples_recorded(app, samples).recent_samples.last()
            == samples.last(),
{
    reveal(samples_recorded);
}

/// Settings that cannot be read, or that break a rule, change nothing: the configuration stays as
/// it was and is not saved.
pub proof fn law_bad_settings_change_nothing(app: AppView)
    requires
        settings_applied(app.settings, app.config).1 is Some,
    ensures
        updated(app, MessageView::SaveSettings).0.config == app.config,
        updated(app, MessageView::SaveSettings).1 is None,
{
    reveal(settings_saved);
}

/// Everything that is said is in the log, and is the status.
pub proof fn law_status_is_logged(app: AppView, level: LogLevel, message: Seq<char>)
    ensures
        said(app, level, message).status == message,
        said(app, level, message).logs.entries.len() > 0,
        said(app, level, message).logs.entries.last().message == message,
        said(app, level, message).logs.entries.last().level == level,
{
}

} // verus!
