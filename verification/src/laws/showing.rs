//! What the operator is shown of points, samples, messages, devices and objects.

use vstd::prelude::*;

use crate::app::message::MessageView;
use crate::app::page::{page_named, short_path, Page};
use crate::app::AppView;
use crate::bacnet::shown;
use crate::log::{Elapsed, LogEntryView, LogLevel};
use crate::model::{
    identity_of, DeviceObjectView, DiscoveredDeviceView, NetworkInterfaceView, PointConfigView,
    PointSampleView, PointStatusView, TelemetryValueView,
};
use crate::network::begins_with;
use crate::numerals::decimal;
use crate::pages::discover::{device_row_of, object_row_of, summary_parts};
use crate::pages::points::{
    newest_samples, point_row_of, shows_points, status_chip_of, status_of,
};
use crate::pages::{log_row_of, log_rows_of, newest, points_kind, ChipKind};
use crate::seed::{first_bridge, simulator_config_of};
use crate::text::{join, trimmed};

verus! {

/// The row of a point shows that very point: its object and property, its device, its path, its
/// interval, and the last value that was read of it.
pub proof fn law_rows_show_their_points(
    point: PointConfigView,
    status: PointStatusView,
    number_text: Seq<char>,
    stamp: Seq<char>,
)
    ensures
        ({
            let row = point_row_of(point, Some(status), number_text, stamp);
            let unread = point_row_of(point, None, number_text, stamp);
            &&& row.enabled == point.enabled
            &&& row.name == point.object_type + " "@ + decimal(point.object_instance as nat) + " "@
                + point.property
            &&& row.device == "Device #"@ + decimal(point.device_instance as nat)
            &&& point.tag_path.len() > 0 ==> row.topic == point.tag_path
            &&& point.tag_path.len() == 0 ==> row.topic == "(default topic)"@
            &&& row.interval == decimal(point.poll_interval_secs as nat) + "s"@
            &&& status.last_sample_ms is Some ==> row.sampled == stamp
            &&& status.last_sample_ms is None ==> row.sampled == "No sample"@
            &&& match status.last_value {
                Some(TelemetryValueView::Text(text)) => row.value == text,
                Some(TelemetryValueView::Number(_)) => row.value == number_text,
                None => row.value == "—"@,
            }
            &&& unread.value == "—"@
            &&& unread.sampled == "No sample"@
            &&& unread.name == row.name
            &&& unread.topic == row.topic
        }),
{
}

/// How a point is doing: an error of its last read counts most, then one of its publication, then
/// that it is stale; without any of these it is well.
pub proof fn law_how_a_point_is_doing(status: PointStatusView, stamp: Seq<char>)
    ensures
        ({
            let chip = status_chip_of(Some(status), stamp);
            &&& status.last_error is Some ==> chip.label == "Read error"@ && chip.kind
                == ChipKind::Danger
            &&& status.last_error is None && status.last_publish_error is Some ==> chip.label
                == "Publish error"@ && chip.kind == ChipKind::Warning
            &&& status.last_error is None && status.last_publish_error is None && status.stale
                ==> chip.label == "Stale"@ && chip.kind == ChipKind::Warning
            &&& status.last_error is None && status.last_publish_error is None && !status.stale
                ==> chip.kind == ChipKind::Success
        }),
        status_chip_of(None, stamp).label == "No sample"@,
        status_chip_of(None, stamp).kind == ChipKind::Neutral,
{
}

/// A point shows what is known of it under its own identity.
pub proof fn law_points_show_their_own_status(
    rows: Seq<crate::pages::points::PointRowView>,
    points: Seq<PointConfigView>,
    app: AppView,
    number_texts: Seq<Seq<char>>,
    at: int,
)
    requires
        shows_points(rows, points, app, number_texts),
        0 <= at < points.len(),
    ensures
        rows.len() == points.len(),
        rows[at].name == points[at].object_type + " "@ + decimal(
            points[at].object_instance as nat,
        ) + " "@ + points[at].property,
        rows[at].enabled == points[at].enabled,
        app.point_statuses.contains_key(identity_of(points[at])) ==> match app.point_statuses[
            identity_of(points[at])
        ].last_value {
            Some(TelemetryValueView::Text(text)) => rows[at].value == text,
            Some(TelemetryValueView::Number(_)) => rows[at].value == number_texts[at],
            None => rows[at].value == "—"@,
        },
        !app.point_statuses.contains_key(identity_of(points[at])) ==> rows[at].value == "—"@
            && rows[at].chip.label == "No sample"@,
        app.point_statuses.contains_key(identity_of(points[at])) && app.point_statuses[identity_of(
            points[at],
        )].last_error is Some ==> rows[at].chip.kind == ChipKind::Danger,
{
    let row = rows[at];
    let status = status_of(app, points[at]);
}

/// How all points are doing: any read error counts most, then any stale or unpublished point; without
/// these, that anything was read.
pub proof fn law_how_all_points_are_doing(app: AppView, identity: crate::model::PointIdentityView)
    requires
        app.point_statuses.contains_key(identity),
    ensures
        app.point_statuses[identity].last_error is Some ==> points_kind(app) == ChipKind::Danger,
        app.point_statuses[identity].stale || app.point_statuses[identity].last_publish_error
            is Some ==> points_kind(app) == ChipKind::Danger || points_kind(app)
            == ChipKind::Warning,
        points_kind(app) == ChipKind::Success ==> app.recent_samples.len() > 0,
{
}

/// A value is shown as its text, or as the way its number is written.
pub proof fn law_values_are_shown(
    text: Seq<char>,
    number: crate::model::Numeric,
    number_text: Seq<char>,
)
    ensures
        shown(TelemetryValueView::Text(text), number_text) == text,
        shown(TelemetryValueView::Number(number), number_text) == number_text,
{
}

/// The newest come first, and no more than asked for.
pub proof fn law_the_newest_come_first(
    entries: Seq<LogEntryView>,
    samples: Seq<PointSampleView>,
    count: nat,
    at: int,
)
    ensures
        newest(entries, count).len() <= count,
        newest(entries, count).len() == count || newest(entries, count).len() == entries.len(),
        newest(entries, count).len() <= entries.len(),
        0 <= at < newest(entries, count).len() ==> newest(entries, count)[at]
            == entries[entries.len() - 1 - at],
        newest_samples(samples, count).len() <= count,
        newest_samples(samples, count).len() == count || newest_samples(samples, count).len()
            == samples.len(),
        newest_samples(samples, count).len() <= samples.len(),
        0 <= at < newest_samples(samples, count).len() ==> newest_samples(samples, count)[at]
            == samples[samples.len() - 1 - at],
{
}

/// The row of a message shows that message, its level, its number in at least four digits, and the
/// seconds after which it came.
pub proof fn law_rows_show_their_messages(
    entries: Seq<LogEntryView>,
    times: Seq<Elapsed>,
    at: int,
)
    requires
        0 <= at < entries.len(),
    ensures
        log_rows_of(entries, times).len() == entries.len(),
        ({
            let row = log_rows_of(entries, times)[at];
            let number = entries[at].sequence as nat;
            &&& row == log_row_of(entries[at], times[at].secs)
            &&& row.message == entries[at].message
            &&& row.elapsed == "+"@ + decimal(times[at].secs as nat) + "s"@
            &&& entries[at].level == LogLevel::Info ==> row.chip.label == "INFO"@ && row.chip.kind
                == ChipKind::Accent
            &&& entries[at].level == LogLevel::Warning ==> row.chip.label == "WARN"@
                && row.chip.kind == ChipKind::Warning
            &&& entries[at].level == LogLevel::Error ==> row.chip.label == "ERROR"@
                && row.chip.kind == ChipKind::Danger
            &&& number >= 1000 ==> row.number == "#"@ + decimal(number)
            &&& 100 <= number < 1000 ==> row.number == "#"@ + ("0"@ + decimal(number))
            &&& 10 <= number < 100 ==> row.number == "#"@ + ("00"@ + decimal(number))
            &&& number < 10 ==> row.number == "#"@ + ("000"@ + decimal(number))
        }),
{
}

/// The row of a device scans that device, and the row of an object adds that object.
pub proof fn law_rows_act_on_what_they_show(
    device: DiscoveredDeviceView,
    object: DeviceObjectView,
    number_text: Seq<char>,
    index: usize,
)
    ensures
        device_row_of(device).device == "#"@ + decimal(device.instance as nat),
        device_row_of(device).address == device.address,
        device_row_of(device).vendor == decimal(device.vendor_id as nat),
        device_row_of(device).button.message == Some(MessageView::ScanObjects(device.instance)),
        object_row_of(object, number_text, index).object == object.object_type + " "@ + decimal(
            object.object_instance as nat,
        ),
        object_row_of(object, number_text, index).device == "#"@ + decimal(
            object.device_instance as nat,
        ),
        object_row_of(object, number_text, index).button.message == Some(
            MessageView::AddObjectAsPoint(index),
        ),
{
}

/// An object is summed up by what is known of it, in one order: its name, its description, its units
/// and its value.
pub proof fn law_objects_are_summed_up(
    object: DeviceObjectView,
    name: Seq<char>,
    description: Seq<char>,
    units: Seq<char>,
    value: Seq<char>,
    number_text: Seq<char>,
)
    ensures
        ({
            let whole = DeviceObjectView {
                object_name: Some(name),
                description: Some(description),
                units: Some(units),
                present_value: Some(TelemetryValueView::Text(value)),
                ..object
            };
            let bare = DeviceObjectView {
                object_name: None,
                description: None,
                units: None,
                present_value: None,
                ..object
            };
            let valued = DeviceObjectView {
                present_value: Some(TelemetryValueView::Text(value)),
                ..bare
            };
            &&& summary_parts(whole, number_text) == seq![
                name,
                description,
                "units "@ + units,
                "present "@ + value,
            ]
            &&& summary_parts(bare, number_text).len() == 0
            &&& summary_parts(valued, number_text) == seq!["present "@ + value]
            &&& object_row_of(bare, number_text, 0).preview == "No metadata returned"@
        }),
{
    let whole = DeviceObjectView {
        object_name: Some(name),
        description: Some(description),
        units: Some(units),
        present_value: Some(TelemetryValueView::Text(value)),
        ..object
    };
    let bare = DeviceObjectView {
        object_name: None,
        description: None,
        units: None,
        present_value: None,
        ..object
    };
    let valued = DeviceObjectView {
        present_value: Some(TelemetryValueView::Text(value)),
        ..bare
    };
    let none = Seq::<char>::empty();
    assert(none + name =~= name);
    assert(none + description =~= description);
    assert(summary_parts(whole, number_text) =~= seq![
        name,
        description,
        "units "@ + units,
        "present "@ + value,
    ]);
    assert(summary_parts(bare, number_text) =~= Seq::empty());
    assert(summary_parts(valued, number_text) =~= seq!["present "@ + value]);
    assert(join(summary_parts(bare, number_text), " | "@).len() == 0);
}

/// The page that is opened first is the one that is named, in whatever case and with white space
/// around it; without a name that is known, it is the overview.
pub proof fn law_the_first_page(text: Seq<char>)
    ensures
        page_named(None) == Page::Overview,
        ({
            let lower = crate::value::ascii_lower_text(trimmed(text));
            &&& lower == "discover"@ ==> page_named(Some(text)) == Page::Discover
            &&& page_named(Some(text)) == Page::Discover ==> lower == "discover"@
            &&& page_named(Some(text)) == Page::Points ==> lower == "points"@
            &&& page_named(Some(text)) == Page::Settings ==> lower == "settings"@
            &&& page_named(Some(text)) == Page::Logs ==> lower == "logs"@
            &&& page_named(Some(text)) == Page::Republish ==> lower == "republish"@ || lower
                == "publish"@
            &&& page_named(Some(text)) == Page::Overview ==> lower != "discover"@ && lower
                != "points"@ && lower != "settings"@ && lower != "logs"@ && lower != "republish"@
                && lower != "publish"@
        }),
{
}

/// A path is shown by its file and the directory that it lies in.
pub proof fn law_short_paths(file: Seq<char>, directory: Seq<char>)
    ensures
        short_path(Some(file), Some(directory)) == directory + "/"@ + file,
        short_path(Some(file), None) == file,
        short_path(None, None) == "config.toml"@,
{
}

/// The configuration for the simulated plant is read over the first bridge there is, and published
/// without TLS; it has seven points, which are all enabled.
pub proof fn law_the_simulated_plant(interfaces: Seq<NetworkInterfaceView>, at: int)
    ensures
        ({
            let config = simulator_config_of(interfaces);
            &&& config.points.len() == 7
            &&& config.mqtt.port == 1883
            &&& !config.mqtt.use_tls
            &&& config.bacnet.discover_all_interfaces
            &&& config.bacnet.port == 47808
            &&& 0 <= at < interfaces.len() && begins_with(interfaces[at].name, "bridge"@) && (
            forall|i: int|
                0 <= i < at ==> !begins_with((#[trigger] interfaces[i]).name, "bridge"@))
                ==> config.bacnet.selected_interface == Some(interfaces[at].addr)
            &&& (forall|i: int|
                0 <= i < interfaces.len() ==> !begins_with(
                    (#[trigger] interfaces[i]).name,
                    "bridge"@,
                )) ==> config.bacnet.selected_interface is None
            &&& forall|i: int|
                0 <= i < 7 ==> (#[trigger] config.points[i]).enabled
                    && config.points[i].poll_interval_secs == 10 && config.points[i].property
                    == "present_value"@
        }),
{
    lemma_first_bridge(interfaces, at);
}

proof fn lemma_first_bridge(interfaces: Seq<NetworkInterfaceView>, at: int)
    ensures
        0 <= at < interfaces.len() && begins_with(interfaces[at].name, "bridge"@) && (forall|i: int|
            0 <= i < at ==> !begins_with((#[trigger] interfaces[i]).name, "bridge"@))
            ==> first_bridge(interfaces) == Some(at),
        (forall|i: int|
            0 <= i < interfaces.len() ==> !begins_with((#[trigger] interfaces[i]).name, "bridge"@))
            ==> first_bridge(interfaces) is None,
    decreases interfaces.len(),
{
    if interfaces.len() > 0 {
        let before = interfaces.drop_last();
        lemma_first_bridge(before, at);
        assert(interfaces[interfaces.len() - 1] == interfaces.last());
        if forall|i: int|
            0 <= i < interfaces.len() ==> !begins_with((#[trigger] interfaces[i]).name, "bridge"@) {
            assert forall|i: int| 0 <= i < before.len() implies !begins_with(
                (#[trigger] before[i]).name,
                "bridge"@,
            ) by {
                assert(before[i] == interfaces[i]);
            }
        }
        if 0 <= at < interfaces.len() && begins_with(interfaces[at].name, "bridge"@) && (
        forall|i: int|
            0 <= i < at ==> !begins_with((#[trigger] interfaces[i]).name, "bridge"@)) {
            assert forall|i: int| 0 <= i < at && i < before.len() implies !begins_with(
                (#[trigger] before[i]).name,
                "bridge"@,
            ) by {
                assert(before[i] == interfaces[i]);
            }
            if at < before.len() {
                assert(before[at] == interfaces[at]);
            }
        }
    }
}

} // verus!
