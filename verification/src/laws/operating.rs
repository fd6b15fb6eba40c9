//! What the operator's actions and the workers' reports change, and what they leave alone.

use vstd::prelude::*;

use crate::address::Ipv4Addr;
use crate::app::message::{EffectView, MessageView};
use crate::app::page::Page;
use crate::app::{
    app_start, config_save_reported, lifecycle_applied, object_added, point_deleted, point_edited,
    point_saved, point_toggled, points_cleared, poll_started, publication_reported, reported,
    republisher_started, republisher_stopped, samples_recorded, scan_all_started, settings_saved,
    updated, with_publications, AppView,
};
use crate::bacnet::object_point;
use crate::bacnet::poll::enabled_of;
use crate::config::{
    config_fault, AppConfigView, BacnetConfig, DiscoveryBindFailurePolicy, UiTheme,
};
use crate::log::{logged, LogBufferView, LogLevel};
use crate::model::{
    default_point, identity_of, BulkTagImportOutcomeView, PointConfigView, PointFailureView,
    PointIdentityView, PointSampleView, PointStatusView, PublishStatsView,
};
use crate::numerals::decimal;
use crate::settings::{
    draft_of, edited_point, editor_of, settings_applied, PointEditorView, SettingsDraftView,
};
use crate::worker::backoff::with_failures;
use crate::worker::republisher::with_samples;
use crate::worker::{RepublisherLifecycleView, WorkerEventView};

verus! {

/// Whether nothing but the configured points changed, and saving was asked for.
pub open spec fn saves_points(before: AppView, after: AppView, effect: Option<EffectView>) -> bool {
    &&& effect == Some(EffectView::SaveConfig(None))
    &&& after.config == (AppConfigView { points: after.config.points, ..before.config })
    &&& after.devices == before.devices
    &&& after.scanned_objects == before.scanned_objects
    &&& after.point_statuses == before.point_statuses
    &&& after.recent_samples == before.recent_samples
    &&& after.last_sample_batch == before.last_sample_batch
    &&& after.settings == before.settings
    &&& after.working == before.working
    &&& after.republisher_state == before.republisher_state
    &&& after.republisher_stop == before.republisher_stop
    &&& after.logs == before.logs
    &&& after.status == before.status
    &&& after.selected_page == before.selected_page
    &&& !after.clear_points_armed
}

/// Ticking a point enables or disables that point, and nothing else of it or of the others.
pub proof fn law_ticking_a_point(app: AppView, index: usize, enabled: bool)
    ensures
        ({
            let (after, effect) = updated(app, MessageView::TogglePoint(index, enabled));
            let (old_points, new_points) = (app.config.points, after.config.points);
            &&& index < old_points.len() ==> {
                &&& saves_points(app, after, effect)
                &&& after.selected_point == app.selected_point
                &&& after.point_editor == app.point_editor
                &&& new_points.len() == old_points.len()
                &&& forall|i: int|
                    0 <= i < old_points.len() && i != index ==> #[trigger] new_points[i]
                        == old_points[i]
                &&& new_points[index as int].enabled == enabled
                &&& new_points[index as int].device_instance
                    == old_points[index as int].device_instance
                &&& new_points[index as int].device_label == old_points[index as int].device_label
                &&& new_points[index as int].object_type == old_points[index as int].object_type
                &&& new_points[index as int].object_instance
                    == old_points[index as int].object_instance
                &&& new_points[index as int].property == old_points[index as int].property
                &&& new_points[index as int].tag_path == old_points[index as int].tag_path
                &&& new_points[index as int].poll_interval_secs
                    == old_points[index as int].poll_interval_secs
            }
            &&& index >= old_points.len() ==> effect is None && after == (AppView {
                clear_points_armed: false,
                ..app
            })
        }),
{
    reveal(point_toggled);
}

/// Deleting a point takes away that point; the others stay, in their order. No point is selected
/// then.
pub proof fn law_deleting_a_point(app: AppView, index: usize)
    ensures
        ({
            let (after, effect) = updated(app, MessageView::DeletePoint(index));
            let (old_points, new_points) = (app.config.points, after.config.points);
            &&& index < old_points.len() ==> {
                &&& saves_points(app, after, effect)
                &&& after.selected_point is None
                &&& after.point_editor == editor_of(default_point())
                &&& new_points.len() == old_points.len() - 1
                &&& forall|i: int|
                    0 <= i < index ==> #[trigger] new_points[i] == old_points[i]
                &&& forall|i: int|
                    index <= i < new_points.len() ==> #[trigger] new_points[i] == old_points[i + 1]
            }
            &&& index >= old_points.len() ==> effect is None && after == (AppView {
                clear_points_armed: false,
                ..app
            })
        }),
{
    reveal(point_deleted);
}

/// Saving a point puts it in the place of the selected one, or behind all others where none is
/// selected; then it is the selected one. One that cannot be read is not saved, and the operator is
/// told why.
pub proof fn law_saving_a_point(app: AppView)
    requires
        app.config.points.len() < usize::MAX,
    ensures
        ({
            let (after, effect) = updated(app, MessageView::SavePoint);
            let (old_points, new_points) = (app.config.points, after.config.points);
            &&& edited_point(app.point_editor) is Err ==> {
                &&& effect is None
                &&& after.config == app.config
                &&& after.status == edited_point(app.point_editor)->Err_0
                &&& after.status_level == LogLevel::Error
                &&& after.selected_point == app.selected_point
            }
            &&& edited_point(app.point_editor) is Ok ==> {
                let point = edited_point(app.point_editor)->Ok_0;
                &&& saves_points(app, after, effect)
                &&& after.point_editor == app.point_editor
                &&& app.selected_point is None ==> {
                    &&& new_points == old_points.push(point)
                    &&& after.selected_point == Some(old_points.len() as usize)
                }
                &&& app.selected_point is Some && app.selected_point->Some_0 < old_points.len()
                    ==> {
                    &&& after.selected_point == app.selected_point
                    &&& new_points.len() == old_points.len()
                    &&& new_points[app.selected_point->Some_0 as int] == point
                    &&& forall|i: int|
                        0 <= i < old_points.len() && i != app.selected_point->Some_0
                            ==> #[trigger] new_points[i] == old_points[i]
                }
                &&& app.selected_point is Some && app.selected_point->Some_0 >= old_points.len()
                    ==> new_points == old_points
            }
        }),
{
    reveal(point_saved);
}

/// Choosing a point shows it for editing; a new one starts with the defaults; an object that was
/// found is shown as the point that it makes, to be saved as a new one. The configuration stays.
pub proof fn law_choosing_a_point(app: AppView, index: usize)
    ensures
        ({
            let (after, effect) = updated(app, MessageView::EditPoint(index));
            &&& effect is None
            &&& after.config == app.config
            &&& index < app.config.points.len() ==> after.selected_point == Some(index)
                && after.point_editor == editor_of(app.config.points[index as int])
            &&& index >= app.config.points.len() ==> after.selected_point == app.selected_point
                && after.point_editor == app.point_editor
        }),
        ({
            let (after, effect) = updated(app, MessageView::NewPoint);
            &&& effect is None
            &&& after.config == app.config
            &&& after.selected_point is None
            &&& after.point_editor == editor_of(default_point())
        }),
        ({
            let (after, effect) = updated(app, MessageView::AddObjectAsPoint(index));
            &&& effect is None
            &&& after.config == app.config
            &&& index < app.scanned_objects.len() ==> {
                &&& after.selected_point is None
                &&& after.selected_page == Page::Points
                &&& after.point_editor == editor_of(
                    object_point(app.scanned_objects[index as int], None),
                )
            }
            &&& index >= app.scanned_objects.len() ==> after.point_editor == app.point_editor
        }),
{
    reveal(point_edited);
    reveal(object_added);
}

/// All points and found objects are cleared by the second of two presses in a row, with what is
/// known of the points; the first press only asks. Any other action takes the question back.
pub proof fn law_clearing_asks_first(app: AppView, message: MessageView)
    ensures
        ({
            let (after, effect) = updated(app, MessageView::ClearAllPoints);
            let any = app.config.points.len() > 0 || app.scanned_objects.len() > 0;
            &&& !any ==> effect is None && after.config == app.config && !after.clear_points_armed
            &&& any && !app.clear_points_armed ==> {
                &&& effect is None
                &&& after.config == app.config
                &&& after.scanned_objects == app.scanned_objects
                &&& after.point_statuses == app.point_statuses
                &&& after.clear_points_armed
            }
            &&& any && app.clear_points_armed ==> {
                &&& effect is Some
                &&& effect->Some_0 is SaveConfig
                &&& after.config.points.len() == 0
                &&& after.config == (AppConfigView { points: after.config.points, ..app.config })
                &&& after.scanned_objects.len() == 0
                &&& after.point_statuses == Map::<PointIdentityView, PointStatusView>::empty()
                &&& after.last_sample_batch.len() == 0
                &&& after.selected_point is None
                &&& after.devices == app.devices
                &&& !after.clear_points_armed
            }
        }),
        !(message is ClearAllPoints) && !(message is DrainWorkerEvents) ==> !updated(
            app,
            message,
        ).0.clear_points_armed,
        updated(app, MessageView::DrainWorkerEvents) == (app, Some(EffectView::DrainEvents)),
{
    reveal(points_cleared);
    reveal(scan_all_started);
    reveal(object_added);
    reveal(poll_started);
    reveal(republisher_started);
    reveal(republisher_stopped);
    reveal(settings_saved);
    reveal(point_saved);
    reveal(point_edited);
    reveal(point_deleted);
    reveal(point_toggled);
}

/// Whether points may be published: the republisher is at rest, the configuration is accepted, and a
/// point is enabled.
pub open spec fn may_publish(app: AppView) -> bool {
    &&& app.republisher_state is Stopped || app.republisher_state is Failed
    &&& config_fault(app.config) is None
    &&& exists|i: int| 0 <= i < app.config.points.len() && (#[trigger] app.config.points[i]).enabled
}

/// A poll is run, and the republisher started, exactly where points may be published; else the
/// operator is told why not, and nothing else changes.
pub proof fn law_when_points_are_published(app: AppView)
    ensures
        ({
            let (after, effect) = updated(app, MessageView::PollAndPublish);
            &&& may_publish(app) <==> effect == Some(EffectView::PollAndPublish)
            &&& may_publish(app) ==> after == (AppView {
                working: true,
                clear_points_armed: false,
                ..app
            })
            &&& !may_publish(app) ==> effect is None && after == (AppView {
                status: after.status,
                status_level: after.status_level,
                logs: after.logs,
                clear_points_armed: false,
                ..app
            })
        }),
        ({
            let (after, effect) = updated(app, MessageView::StartRepublisher);
            &&& may_publish(app) <==> effect == Some(EffectView::StartRepublisher)
            &&& may_publish(app) ==> after == (AppView {
                republisher_stop: true,
                republisher_state: RepublisherLifecycleView::Starting,
                clear_points_armed: false,
                ..app
            })
            &&& !may_publish(app) ==> effect is None && after == (AppView {
                status: after.status,
                status_level: after.status_level,
                logs: after.logs,
                clear_points_armed: false,
                ..app
            })
        }),
        ({
            let (after, effect) = updated(app, MessageView::StopRepublisher);
            &&& app.republisher_stop ==> {
                &&& effect == Some(EffectView::StopRepublisher)
                &&& after.republisher_state is Stopping
                &&& after.config == app.config
            }
            &&& !app.republisher_stop ==> effect is None && after.republisher_state
                == app.republisher_state
        }),
{
    reveal(poll_started);
    reveal(republisher_started);
    reveal(republisher_stopped);
    lemma_any_enabled(app.config.points);
}

proof fn lemma_any_enabled(points: Seq<PointConfigView>)
    ensures
        enabled_of(points).len() > 0 <==> exists|i: int|
            0 <= i < points.len() && (#[trigger] points[i]).enabled,
    decreases points.len(),
{
    if points.len() > 0 {
        let before = points.drop_last();
        lemma_any_enabled(before);
        assert(points[points.len() - 1] == points.last());
        if exists|i: int| 0 <= i < before.len() && (#[trigger] before[i]).enabled {
            let i = choose|i: int| 0 <= i < before.len() && (#[trigger] before[i]).enabled;
            assert(points[i] == before[i]);
        }
        if exists|i: int| 0 <= i < points.len() && (#[trigger] points[i]).enabled {
            let i = choose|i: int| 0 <= i < points.len() && (#[trigger] points[i]).enabled;
            if i < before.len() {
                assert(before[i] == points[i]);
            }
        }
    }
}

/// Discovery and the scans forget what they are about to find, and say that work goes on; a scan of
/// all devices needs devices, and that nothing else goes on.
pub proof fn law_what_is_searched_again(app: AppView, device: u32)
    ensures
        ({
            let (after, effect) = updated(app, MessageView::Discover);
            &&& effect == Some(EffectView::Discover)
            &&& after.working
            &&& after.devices.len() == 0
            &&& after.scanned_objects.len() == 0
            &&& after.config == app.config
            &&& after.point_statuses == app.point_statuses
        }),
        ({
            let (after, effect) = updated(app, MessageView::ScanObjects(device));
            &&& effect == Some(EffectView::ScanObjects(device))
            &&& after.working
            &&& after.devices == app.devices
            &&& after.scanned_objects.len() == 0
            &&& after.config == app.config
        }),
        ({
            let (after, effect) = updated(app, MessageView::ScanAllObjects);
            &&& !app.working && app.devices.len() > 0 <==> effect == Some(
                EffectView::ScanAllObjects,
            )
            &&& app.working || app.devices.len() == 0 ==> effect is None && after.scanned_objects
                == app.scanned_objects && after.status_level == LogLevel::Warning
            &&& !app.working && 0 < app.devices.len() <= usize::MAX ==> {
                &&& after.working
                &&& after.devices == app.devices
                &&& after.scanned_objects.len() == 0
                &&& after.scan_progress == Some((0usize, app.devices.len() as usize))
            }
            &&& after.config == app.config
        }),
{
    reveal(scan_all_started);
}

/// Choosing an interface, all interfaces or a theme changes that in the configuration, nothing else,
/// and saves it. Choosing one interface means not to look on all of them.
pub proof fn law_choices_are_saved(app: AppView, address: Ipv4Addr, all: bool, theme: UiTheme)
    ensures
        ({
            let (after, effect) = updated(app, MessageView::InterfaceSelected(address));
            &&& effect == Some(EffectView::SaveConfig(None))
            &&& after.config.bacnet == (BacnetConfig {
                selected_interface: Some(address),
                discover_all_interfaces: false,
                ..app.config.bacnet
            })
            &&& after.config == (AppConfigView { bacnet: after.config.bacnet, ..app.config })
        }),
        ({
            let (after, effect) = updated(app, MessageView::DiscoverAllInterfacesChanged(all));
            &&& effect == Some(EffectView::SaveConfig(None))
            &&& after.config.bacnet.discover_all_interfaces == all
            &&& after.config.bacnet.selected_interface == app.config.bacnet.selected_interface
            &&& after.config.bacnet == (BacnetConfig {
                discover_all_interfaces: all,
                ..app.config.bacnet
            })
            &&& after.config == (AppConfigView { bacnet: after.config.bacnet, ..app.config })
        }),
        ({
            let (after, effect) = updated(app, MessageView::ThemeSelected(theme));
            &&& effect == Some(EffectView::SaveConfig(None))
            &&& after.config.ui.theme == theme
            &&& after.config == (AppConfigView { ui: after.config.ui, ..app.config })
        }),
{
}

/// Saving the settings takes them over and saves the configuration where they are accepted; else the
/// configuration stays and the operator is told why.
pub proof fn law_saving_settings(app: AppView)
    ensures
        ({
            let (after, effect) = updated(app, MessageView::SaveSettings);
            let (config, fault) = settings_applied(app.settings, app.config);
            &&& fault is None ==> effect == Some(EffectView::SaveConfig(None)) && after.config
                == config
            &&& fault is Some ==> {
                &&& effect is None
                &&& after.config == app.config
                &&& after.status == fault->Some_0
                &&& after.status_level == LogLevel::Error
            }
            &&& after.settings == app.settings
        }),
{
    reveal(settings_saved);
}

/// Samples that come in are shown behind the earlier ones, the latest hundred in all; they are the
/// batch that the next report of a publication is about, and are recorded for their points.
pub proof fn law_samples_come_in(app: AppView, samples: Seq<PointSampleView>, at: int)
    ensures
        ({
            let (after, effect) = reported(app, WorkerEventView::Samples(samples));
            let all = app.recent_samples + samples;
            let shown = after.recent_samples;
            &&& effect is None
            &&& shown.len() <= 100
            &&& shown.len() == 100 || shown.len() == all.len()
            &&& shown.len() <= all.len()
            &&& 0 <= at < shown.len() ==> shown[at] == all[all.len() - shown.len() + at]
            &&& after.last_sample_batch.len() == samples.len()
            &&& 0 <= at < samples.len() ==> after.last_sample_batch[at] == identity_of(
                samples[at].point,
            )
            &&& after.point_statuses == with_samples(app.point_statuses, samples)
            &&& after == (AppView {
                recent_samples: after.recent_samples,
                last_sample_batch: after.last_sample_batch,
                point_statuses: after.point_statuses,
                ..app
            })
        }),
{
    reveal(samples_recorded);
}

/// A report of a publication is noted for the points of the last batch and for no others: as no error
/// where nothing failed, else as the last error, or a general one where none is given.
pub proof fn law_publications_come_in(
    app: AppView,
    stats: PublishStatsView,
    identity: PointIdentityView,
)
    ensures
        ({
            let (after, effect) = reported(app, WorkerEventView::PublishStatus(stats));
            let (old_statuses, new_statuses) = (app.point_statuses, after.point_statuses);
            &&& effect is None
            &&& app.last_sample_batch.contains(identity) ==> {
                &&& new_statuses.contains_key(identity)
                &&& stats.failed == 0 ==> new_statuses[identity].last_publish_error is None
                &&& stats.failed > 0 && stats.last_error is Some
                    ==> new_statuses[identity].last_publish_error == stats.last_error
                &&& stats.failed > 0 && stats.last_error is None
                    ==> new_statuses[identity].last_publish_error == Some("MQTT publish failed"@)
                &&& old_statuses.contains_key(identity) ==> {
                    &&& new_statuses[identity].last_value == old_statuses[identity].last_value
                    &&& new_statuses[identity].stale == old_statuses[identity].stale
                }
            }
            &&& !app.last_sample_batch.contains(identity) ==> {
                &&& new_statuses.contains_key(identity) == old_statuses.contains_key(identity)
                &&& old_statuses.contains_key(identity) ==> new_statuses[identity]
                    == old_statuses[identity]
            }
            &&& after.status == "MQTT publish complete: "@ + decimal(stats.published as nat)
                + " published, "@ + decimal(stats.failed as nat) + " failed"@
            &&& after.status_level == if stats.failed == 0 {
                LogLevel::Info
            } else {
                LogLevel::Warning
            }
            &&& after.config == app.config
        }),
{
    reveal(publication_reported);
    lemma_noted_publications(
        app.point_statuses,
        app.last_sample_batch,
        crate::app::publication_error(stats),
        identity,
    );
}

proof fn lemma_noted_publications(
    statuses: Map<PointIdentityView, PointStatusView>,
    batch: Seq<PointIdentityView>,
    error: Option<Seq<char>>,
    identity: PointIdentityView,
)
    ensures
        ({
            let after = with_publications(statuses, batch, error);
            &&& batch.contains(identity) ==> {
                &&& after.contains_key(identity)
                &&& after[identity].last_publish_error == error
            }
            &&& !batch.contains(identity) ==> after.contains_key(identity)
                == statuses.contains_key(identity)
            &&& !batch.contains(identity) && statuses.contains_key(identity) ==> after[identity]
                == statuses[identity]
            &&& statuses.contains_key(identity) ==> after.contains_key(identity)
                && after[identity].last_value == statuses[identity].last_value
                && after[identity].stale == statuses[identity].stale
        }),
    decreases batch.len(),
{
    if batch.len() > 0 {
        let before = batch.drop_last();
        lemma_noted_publications(statuses, before, error, identity);
        assert(batch[batch.len() - 1] == batch.last());
        if before.contains(identity) {
            let i = choose|i: int| 0 <= i < before.len() && before[i] == identity;
            assert(batch[i] == identity);
        }
        if batch.contains(identity) && batch.last() != identity {
            let i = choose|i: int| 0 <= i < batch.len() && batch[i] == identity;
            assert(before[i] == identity);
        }
    }
}

/// What else workers report: each report changes what it is about. Devices and objects replace those
/// that were there; an import replaces the points as well, and saves them; failures are recorded for
/// their points; the end of work is noted, and ends its progress.
pub proof fn law_other_reports(
    app: AppView,
    import: BulkTagImportOutcomeView,
    failures: Seq<PointFailureView>,
    text: Seq<char>,
    level: LogLevel,
    current: usize,
    total: usize,
)
    ensures
        reported(app, WorkerEventView::Devices(import.devices)) == (
            AppView { devices: import.devices, ..app },
            None::<EffectView>,
        ),
        reported(app, WorkerEventView::Objects(import.scanned_objects)) == (
            AppView { scanned_objects: import.scanned_objects, ..app },
            None::<EffectView>,
        ),
        reported(app, WorkerEventView::ScanProgress { current, total }).0.scan_progress == Some(
            (current, total),
        ),
        ({
            let (after, effect) = reported(app, WorkerEventView::BulkTagImport(import));
            &&& effect == Some(EffectView::SaveConfig(None))
            &&& after.devices == import.devices
            &&& after.scanned_objects == import.scanned_objects
            &&& after.config.points == import.points
            &&& after.config == (AppConfigView { points: import.points, ..app.config })
            &&& after.point_statuses == app.point_statuses
        }),
        ({
            let (after, effect) = reported(app, WorkerEventView::Failures(failures));
            &&& effect is None
            &&& after.point_statuses == with_failures(app.point_statuses, failures)
            &&& after == (AppView { point_statuses: after.point_statuses, ..app })
        }),
        ({
            let (after, effect) = reported(app, WorkerEventView::Log(level, text));
            &&& effect is None
            &&& after.status == text
            &&& after.status_level == level
            &&& after.logs.entries.last().message == text
            &&& after.logs.entries.last().level == level
            &&& after == (AppView {
                status: after.status,
                status_level: after.status_level,
                logs: after.logs,
                ..app
            })
        }),
        ({
            let (after, effect) = reported(app, WorkerEventView::Finished(text));
            &&& effect is None
            &&& !after.working
            &&& after.scan_progress is None
            &&& after.status == text
            &&& after.config == app.config
            &&& after.republisher_state == app.republisher_state
        }),
{
}

/// The state of the republisher follows its reports, but for a start that is reported while it is
/// being stopped. Once it has stopped or failed, it can no longer be told to stop.
pub proof fn law_reports_of_the_republisher(app: AppView, state: RepublisherLifecycleView)
    ensures
        ({
            let (after, effect) = reported(app, WorkerEventView::RepublisherLifecycle(state));
            let late = app.republisher_state is Stopping && (state is Starting || state is Running);
            &&& effect is None
            &&& late ==> after == app
            &&& !late ==> after.republisher_state == state
            &&& state is Stopped || state is Failed ==> !after.republisher_stop
            &&& state is Starting || state is Running || state is Stopping
                ==> after.republisher_stop == app.republisher_stop
            &&& state is Failed ==> after.status == "Continuous republisher failed: "@ + state->0
                && after.status_level == LogLevel::Error
            &&& after.config == app.config
            &&& after.point_statuses == app.point_statuses
        }),
{
    reveal(lifecycle_applied);
}

/// After the configuration was saved, the operator is told where, or why not; a further message comes
/// last.
pub proof fn law_saving_is_reported(app: AppView, error: Seq<char>, further: Seq<char>)
    ensures
        config_save_reported(app, None, None).status == "Configuration saved to "@
            + app.config_path,
        config_save_reported(app, None, None).status_level == LogLevel::Info,
        config_save_reported(app, Some(error), None).status == "Config save failed: "@ + error,
        config_save_reported(app, Some(error), None).status_level == LogLevel::Error,
        config_save_reported(app, None, Some(further)).status == further,
        config_save_reported(app, Some(error), Some(further)).config == app.config,
{
}

/// Typing into a field changes that field, and no other; the configuration stays.
pub proof fn law_typing_changes_one_field(
    app: AppView,
    text: Seq<char>,
    tick: bool,
    policy: DiscoveryBindFailurePolicy,
)
    ensures
        ({
            let s = app.settings;
            let after = |message: MessageView| updated(app, message).0.settings;
            &&& after(MessageView::BacnetPortChanged(text)) == (SettingsDraftView {
                bacnet_port: text,
                ..s
            })
            &&& after(MessageView::BroadcastAddressChanged(text)) == (SettingsDraftView {
                broadcast_address: text,
                ..s
            })
            &&& after(MessageView::DiscoveryWindowChanged(text)) == (SettingsDraftView {
                discovery_window_ms: text,
                ..s
            })
            &&& after(MessageView::ApduTimeoutChanged(text)) == (SettingsDraftView {
                apdu_timeout_ms: text,
                ..s
            })
            &&& after(MessageView::PollConcurrencyChanged(text)) == (SettingsDraftView {
                poll_concurrency: text,
                ..s
            })
            &&& after(MessageView::DeviceBackoffMaxChanged(text)) == (SettingsDraftView {
                device_backoff_max_secs: text,
                ..s
            })
            &&& after(MessageView::DiscoveryBindFailurePolicySelected(policy))
                == (SettingsDraftView { discovery_bind_failure_policy: policy, ..s })
            &&& after(MessageView::BbmdEnabledChanged(tick)) == (SettingsDraftView {
                bbmd_enabled: tick,
                ..s
            })
            &&& after(MessageView::BbmdAddressChanged(text)) == (SettingsDraftView {
                bbmd_address: text,
                ..s
            })
            &&& after(MessageView::BbmdPortChanged(text)) == (SettingsDraftView {
                bbmd_port: text,
                ..s
            })
            &&& after(MessageView::BbmdTtlChanged(text)) == (SettingsDraftView {
                bbmd_ttl: text,
                ..s
            })
            &&& after(MessageView::MqttHostChanged(text)) == (SettingsDraftView {
                mqtt_host: text,
                ..s
            })
            &&& after(MessageView::MqttPortChanged(text)) == (SettingsDraftView {
                mqtt_port: text,
                ..s
            })
            &&& after(MessageView::MqttTlsChanged(tick)) == (SettingsDraftView {
                mqtt_use_tls: tick,
                ..s
            })
            &&& after(MessageView::MqttClientIdChanged(text)) == (SettingsDraftView {
                mqtt_client_id: text,
                ..s
            })
            &&& after(MessageView::MqttTopicPrefixChanged(text)) == (SettingsDraftView {
                mqtt_topic_prefix: text,
                ..s
            })
            &&& after(MessageView::MqttHealthTopicChanged(text)) == (SettingsDraftView {
                mqtt_health_topic: text,
                ..s
            })
            &&& after(MessageView::MqttUsernameChanged(text)) == (SettingsDraftView {
                mqtt_username: text,
                ..s
            })
            &&& after(MessageView::MqttPasswordChanged(text)) == (SettingsDraftView {
                mqtt_password: text,
                ..s
            })
            &&& after(MessageView::MqttCaCertPathChanged(text)) == (SettingsDraftView {
                mqtt_ca_cert_path: text,
                ..s
            })
            &&& after(MessageView::MqttClientCertPathChanged(text)) == (SettingsDraftView {
                mqtt_client_cert_path: text,
                ..s
            })
            &&& after(MessageView::MqttClientKeyPathChanged(text)) == (SettingsDraftView {
                mqtt_client_key_path: text,
                ..s
            })
            &&& after(MessageView::MqttClientKeyPassphraseChanged(text)) == (SettingsDraftView {
                mqtt_client_key_passphrase: text,
                ..s
            })
            &&& after(MessageView::MqttRememberSecretsChanged(tick)) == (SettingsDraftView {
                mqtt_remember_secrets: tick,
                ..s
            })
            &&& after(MessageView::MqttRetainChanged(tick)) == (SettingsDraftView {
                mqtt_retain: tick,
                ..s
            })
            &&& after(MessageView::MqttKeepAliveChanged(text)) == (SettingsDraftView {
                mqtt_keep_alive_secs: text,
                ..s
            })
        }),
{
}

/// Typing into a field of the edited point changes that field, and no other.
pub proof fn law_typing_changes_one_field_of_a_point(app: AppView, text: Seq<char>, tick: bool)
    ensures
        ({
            let e = app.point_editor;
            let after = |message: MessageView| updated(app, message).0.point_editor;
            &&& after(MessageView::PointEnabledChanged(tick)) == (PointEditorView {
                enabled: tick,
                ..e
            })
            &&& after(MessageView::PointDeviceInstanceChanged(text)) == (PointEditorView {
                device_instance: text,
                ..e
            })
            &&& after(MessageView::PointDeviceLabelChanged(text)) == (PointEditorView {
                device_label: text,
                ..e
            })
            &&& after(MessageView::PointObjectTypeChanged(text)) == (PointEditorView {
                object_type: text,
                ..e
            })
            &&& after(MessageView::PointObjectInstanceChanged(text)) == (PointEditorView {
                object_instance: text,
                ..e
            })
            &&& after(MessageView::PointPropertyChanged(text)) == (PointEditorView {
                property: text,
                ..e
            })
            &&& after(MessageView::PointTagPathChanged(text)) == (PointEditorView {
                tag_path: text,
                ..e
            })
            &&& after(MessageView::PointPollIntervalChanged(text)) == (PointEditorView {
                poll_interval_secs: text,
                ..e
            })
            &&& updated(app, MessageView::PointTagPathChanged(text)).0.config == app.config
            &&& updated(app, MessageView::PointTagPathChanged(text)).0.settings == app.settings
        }),
{
}

/// The log keeps the messages in their order, each with its level and one number more than the one
/// before; when it is full, the oldest makes place.
pub proof fn law_messages_are_logged(log: LogBufferView, level: LogLevel, message: Seq<char>)
    requires
        log.capacity > 0,
        log.next_sequence < u64::MAX,
    ensures
        ({
            let after = logged(log, level, message);
            &&& after.entries.last().message == message
            &&& after.entries.last().level == level
            &&& after.entries.last().sequence == log.next_sequence
            &&& after.next_sequence == log.next_sequence + 1
            &&& after.capacity == log.capacity
            &&& log.entries.len() < log.capacity ==> after.entries.drop_last() == log.entries
            &&& log.entries.len() >= log.capacity ==> after.entries.drop_last()
                == log.entries.drop_first()
        }),
{
    let after = logged(log, level, message);
    if log.entries.len() < log.capacity {
        assert(after.entries.drop_last() =~= log.entries);
    } else {
        assert(after.entries.drop_last() =~= log.entries.drop_first());
    }
}

/// At the start, the application has its configuration, shows it for editing, and has nothing found,
/// nothing read and nothing running; its log holds five hundred messages, and the first is how the
/// configuration was loaded.
pub proof fn law_the_start(
    config: AppConfigView,
    path: Seq<char>,
    status: Seq<char>,
    page: Page,
    interfaces: Seq<crate::model::NetworkInterfaceView>,
    choices: Seq<Ipv4Addr>,
)
    ensures
        ({
            let app = app_start(config, path, status, page, interfaces, choices);
            &&& app.config == config
            &&& app.config_path == path
            &&& app.selected_page == page
            &&& app.interfaces == interfaces
            &&& app.settings == draft_of(config)
            &&& app.point_editor == editor_of(default_point())
            &&& app.selected_point is None
            &&& app.devices.len() == 0
            &&& app.scanned_objects.len() == 0
            &&& app.recent_samples.len() == 0
            &&& app.point_statuses == Map::<PointIdentityView, PointStatusView>::empty()
            &&& !app.working
            &&& app.republisher_state is Stopped
            &&& !app.republisher_stop
            &&& !app.clear_points_armed
            &&& app.status == status
            &&& app.logs.capacity == 500
            &&& app.logs.entries.len() == 1
            &&& app.logs.entries[0].message == status
        }),
{
}

} // verus!
