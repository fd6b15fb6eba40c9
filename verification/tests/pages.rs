//! What the pages show.

use bacnet_republisher::address::Ipv4Addr;
use bacnet_republisher::app::message::Message;
use bacnet_republisher::app::page::Page;
use bacnet_republisher::app::BacnetRepublisher;
use bacnet_republisher::config::AppConfig;
use bacnet_republisher::log::LogLevel;
use bacnet_republisher::model::{
    DeviceObject, DiscoveredDevice, Numeric, PointConfig, PointIdentity, PointSample, PointStatus,
    TelemetryValue,
};
use bacnet_republisher::pages::discover::{object_row, object_summary, progress_text};
use bacnet_republisher::pages::inputs::{
    endpoint_text, text_edited, text_label, toggled, TextField, Toggle,
};
use bacnet_republisher::pages::points::{
    last_sampled_text, live_value_text, point_status_chip, SHOWN_SAMPLES,
};
use bacnet_republisher::pages::{kind_label, log_row, ChipKind};
use bacnet_republisher::worker::RepublisherLifecycle;

fn app_for_tests() -> BacnetRepublisher {
    BacnetRepublisher::new(
        AppConfig::default(),
        "/etc/bacnet/config.toml".to_string(),
        "Using default configuration".to_string(),
        Page::Overview,
        Vec::new(),
    )
}

fn point(object_instance: u32) -> PointConfig {
    PointConfig { device_instance: 100, object_instance, ..PointConfig::default() }
}

fn sample(object_instance: u32, timestamp_ms: i64) -> PointSample {
    PointSample {
        point: point(object_instance),
        value: TelemetryValue::Number(Numeric::Unsigned(3)),
        topic: format!("topic/{object_instance}"),
        timestamp_ms,
    }
}

fn object(present_value: Option<TelemetryValue>) -> DeviceObject {
    DeviceObject {
        device_instance: 9,
        object_type: "analog_input".to_string(),
        object_instance: 2,
        object_name: Some("Temp".to_string()),
        description: None,
        units: Some("62".to_string()),
        present_value,
    }
}

#[test]
fn the_overview_sums_up() {
    let mut app = app_for_tests();
    let page = app.overview_page("");
    assert_eq!(page.metrics[0].value, "Stopped");
    assert_eq!(page.metrics[0].hint, "0 enabled point(s)");
    assert_eq!(page.metrics[0].kind, ChipKind::Warning);
    assert_eq!(page.metrics[2].hint, "No samples recorded");
    assert_eq!(page.metrics[2].kind, ChipKind::Neutral);
    assert_eq!(page.buttons[2].label, "Start republisher");
    assert_eq!(page.fields[2].value, "Auto / all interfaces");
    assert_eq!(page.log.len(), 1);
    assert_eq!(page.log[0].number, "#0001");
    assert!(page.notice.is_none());

    app.config.points = vec![point(1)];
    app.config.bacnet.selected_interface = Some(Ipv4Addr::new(10, 0, 0, 7));
    app.record_samples(vec![sample(1, i64::MAX)]);
    for index in 0..9 {
        app.set_status(LogLevel::Warning, &format!("message {index}"));
    }
    let page = app.overview_page("3.000");
    assert_eq!(page.metrics[0].kind, ChipKind::Accent);
    assert_eq!(page.metrics[2].hint, format!("3.000 at {}", i64::MAX));
    assert_eq!(page.metrics[2].kind, ChipKind::Success);
    assert_eq!(page.fields[2].value, "10.0.0.7");
    let shown = page.log.iter().map(|row| row.message.as_str()).collect::<Vec<_>>();
    assert_eq!(shown, vec!["message 8", "message 7", "message 6", "message 5", "message 4"]);
    app.logs.clear();
    assert_eq!(app.overview_page("").notice.unwrap().title, "No activity yet.");
}

#[test]
fn point_health_follows_the_statuses() {
    let mut app = app_for_tests();
    app.record_samples(vec![sample(1, 5)]);
    assert_eq!(app.overall_point_kind(), ChipKind::Success);
    app.point_statuses.record_publication(&PointIdentity::from_point(&point(1)), Some("x"));
    assert_eq!(app.overall_point_kind(), ChipKind::Warning);
    app.point_statuses.record_read_failure(&point(2), "timeout");
    assert_eq!(app.overall_point_kind(), ChipKind::Danger);
    app.recent_samples.clear();
    assert_eq!(app.last_point_state(""), "2 tracked point state(s)");
    assert_eq!(app.last_update_text(), "No samples");
}

#[test]
fn labels_follow_the_republisher() {
    let mut app = app_for_tests();
    let mut labels = |state: RepublisherLifecycle| {
        app.republisher_state = state;
        (
            app.republisher_sidebar_label(),
            app.republisher_mode_label(),
            app.republisher_mode_hint(),
            app.republisher_start_label(),
            app.republisher_chip_kind(),
        )
    };
    let shown = |a: &str, b: &str, c: &str, d: &str, kind| {
        (a.to_string(), b.to_string(), c.to_string(), d.to_string(), kind)
    };
    assert_eq!(
        labels(RepublisherLifecycle::Starting),
        shown(
            "STARTING",
            "Starting",
            "Preparing MQTT and BACnet clients",
            "Starting",
            ChipKind::Warning
        )
    );
    assert_eq!(
        labels(RepublisherLifecycle::Running),
        shown(
            "LIVE REPUBLISH",
            "Running",
            "Continuous republisher active",
            "Running",
            ChipKind::Success
        )
    );
    assert_eq!(
        labels(RepublisherLifecycle::Stopping),
        shown(
            "STOPPING",
            "Stopping",
            "Waiting for current loop to exit",
            "Stopping",
            ChipKind::Warning
        )
    );
    assert_eq!(
        labels(RepublisherLifecycle::Stopped),
        shown(
            "STANDBY",
            "Stopped",
            "Poll once or start loop",
            "Start republisher",
            ChipKind::Neutral
        )
    );
    assert_eq!(
        labels(RepublisherLifecycle::Failed("why".to_string())),
        shown("FAILED", "Failed", "why", "Restart republisher", ChipKind::Danger)
    );
}

#[test]
fn the_frame_shows_the_state() {
    let mut app = app_for_tests();
    let shell = app.page_shell(Page::Logs);
    assert_eq!(shell.title, "Logs");
    assert_eq!(shell.subtitle, "Recent app, BACnet, and MQTT activity.");
    assert_eq!(shell.chips.len(), 1);
    assert_eq!(shell.chips[0].label, "Ready");
    app.working = true;
    app.republisher_state = RepublisherLifecycle::Failed("x".to_string());
    let shell = app.page_shell(Page::Points);
    let labels = shell.chips.iter().map(|chip| chip.label.as_str()).collect::<Vec<_>>();
    assert_eq!(labels, vec!["Working", "Failed"]);

    app.selected_page = Page::Settings;
    let sidebar = app.sidebar();
    let selected =
        sidebar.items.iter().filter(|item| item.selected).map(|item| item.page).collect::<Vec<_>>();
    assert_eq!(selected, vec![Page::Settings]);
    assert_eq!(sidebar.items.len(), 6);
    assert_eq!(sidebar.target, "localhost:8883");
    assert_eq!(sidebar.transport, "TLS enabled");

    let bar = app.status_bar();
    assert_eq!(bar.counts, "0 pts · 0 devices");
    assert_eq!(bar.config, "Config: bacnet/config.toml");
    assert_eq!(bar.chip.kind, ChipKind::Accent);
}

#[test]
fn the_discover_page_lists_devices_and_objects() {
    let mut app = app_for_tests();
    let page = app.discover_page(&Vec::new());
    assert_eq!(page.metrics[0].kind, ChipKind::Neutral);
    assert_eq!(page.metrics[2].value, "Auto");
    assert!(page.buttons[2].message.is_none());
    assert_eq!(page.devices_notice.unwrap().title, "No BACnet devices discovered yet.");
    assert_eq!(page.policy.value, "Skip");

    app.devices = vec![DiscoveredDevice {
        instance: 9,
        address: "10.0.0.9:47808".to_string(),
        vendor_id: 260,
        max_apdu_length: 1476,
        last_seen_ms: 0,
    }];
    app.scanned_objects = vec![object(Some(TelemetryValue::Number(Numeric::Unsigned(4))))];
    let page = app.discover_page(&vec!["4.000".to_string()]);
    assert!(matches!(page.buttons[2].message, Some(Message::ScanAllObjects)));
    assert_eq!(page.devices[0].device, "#9");
    assert_eq!(page.devices[0].vendor, "260");
    assert!(matches!(page.devices[0].button.message, Some(Message::ScanObjects(9))));
    assert_eq!(page.objects[0].object, "analog_input 2");
    assert_eq!(page.objects[0].preview, "Temp | units 62 | present 4.000");
    assert!(matches!(page.objects[0].button.message, Some(Message::AddObjectAsPoint(0))));
    app.working = true;
    assert!(app.discover_page(&vec![String::new()]).buttons[2].message.is_none());
}

#[test]
fn objects_are_summed_up() {
    assert_eq!(object_summary(&object(None), ""), "Temp | units 62");
    let bare = DeviceObject { object_name: None, units: None, ..object(None) };
    assert_eq!(object_summary(&bare, ""), "");
    assert_eq!(object_row(&bare, "", 0).preview, "No metadata returned");
    let described = DeviceObject { description: Some("d".to_string()), ..object(None) };
    assert_eq!(object_summary(&described, ""), "Temp | d | units 62");
    assert_eq!(progress_text(1, 3, 33), "Scanning device 1 of 3 (33%)");
}

#[test]
fn point_rows_show_the_worst_first() {
    let mut status = PointStatus::default();
    assert_eq!(point_status_chip(None, "").label, "No sample");
    assert_eq!(point_status_chip(Some(&status), "").label, "Stale");
    status.stale = false;
    assert_eq!(point_status_chip(Some(&status), "").label, "OK");
    status.last_sample_ms = Some(1);
    assert_eq!(point_status_chip(Some(&status), "now").label, "OK now");
    assert_eq!(last_sampled_text(Some(&status), "now"), "now");
    assert_eq!(last_sampled_text(None, "now"), "No sample");
    status.last_publish_error = Some("x".to_string());
    assert_eq!(point_status_chip(Some(&status), "").kind, ChipKind::Warning);
    status.last_error = Some("y".to_string());
    assert_eq!(point_status_chip(Some(&status), "").label, "Read error");
    assert_eq!(live_value_text(Some(&status), "3"), "—");
    status.last_value = Some(TelemetryValue::Text("on".to_string()));
    assert_eq!(live_value_text(Some(&status), "3"), "on");
}

#[test]
fn the_points_page_shows_values_and_the_guard() {
    let mut app = app_for_tests();
    let page = app.points_page("", &Vec::new());
    assert_eq!(page.metrics[2].value, "No samples");
    assert_eq!(page.editor_title, "New point");
    assert!(page.clear.message.is_none());
    assert_eq!(page.notice.unwrap().title, "No points configured.");

    app.config.points = vec![point(1), PointConfig { enabled: false, ..point(2) }];
    app.record_samples(vec![sample(1, i64::MIN)]);
    let _ = app.update(Message::EditPoint(0));
    let _ = app.update(Message::ClearAllPoints);
    let page = app.points_page("3.000", &vec!["3.000".to_string(), String::new()]);
    assert_eq!(page.metrics[1].value, "1");
    assert_eq!(page.metrics[2].value, "OK");
    assert_eq!(page.editor_title, "Edit point");
    assert_eq!(page.clear.label, "Confirm clear");
    assert!(matches!(page.clear.message, Some(Message::ClearAllPoints)));
    assert_eq!(page.rows[0].name, "analog_input 1 present_value");
    assert_eq!(page.rows[0].device, "Device #100");
    assert_eq!(page.rows[0].value, "3.000");
    assert_eq!(page.rows[0].sampled, i64::MIN.to_string());
    assert_eq!(page.rows[0].chip.label, format!("OK {}", i64::MIN));
    assert_eq!(page.rows[0].topic, "(default topic)");
    assert_eq!(page.rows[0].interval, "10s");
    assert_eq!(page.rows[1].value, "—");
    assert_eq!(page.rows[1].sampled, "No sample");
    assert!(!page.rows[1].enabled);
}

#[test]
fn the_republish_page_shows_enabled_points_and_the_newest_samples() {
    let mut app = app_for_tests();
    let page = app.republish_page(&Vec::new(), &Vec::new());
    assert_eq!(page.points_notice.unwrap().title, "No enabled points.");
    assert_eq!(page.samples_notice.unwrap().title, "No point samples published yet.");
    assert_eq!(page.metrics[2].value, "No samples");
    assert_eq!(page.fields[0].value, "localhost:8883 (TLS)");
    assert_eq!(page.enabled.kind, ChipKind::Warning);

    app.config.points = vec![PointConfig { enabled: false, ..point(1) }, point(2)];
    app.record_samples((0..30).map(|index| sample(index, i64::MAX - 30 + index as i64)).collect());
    let numbers = vec!["n".to_string(); SHOWN_SAMPLES];
    let page = app.republish_page(&vec!["3".to_string()], &numbers);
    assert_eq!(page.points.len(), 1);
    assert_eq!(page.points[0].name, "analog_input 2 present_value");
    assert_eq!(page.samples.len(), 20);
    assert_eq!(page.samples[0].topic, "topic/29");
    assert_eq!(page.samples[19].topic, "topic/10");
    assert_eq!(page.samples[0].value, "n");
    assert_eq!(page.metrics[2].hint, "30 recent sample(s)");
    assert_eq!(page.enabled.label, "1 enabled point(s)");
    assert_eq!(page.mode.label, "Stopped");
}

#[test]
fn the_settings_are_summed_up() {
    let mut app = app_for_tests();
    let _ = app.update(Message::MqttTlsChanged(false));
    let _ = app.update(Message::MqttHostChanged("broker".to_string()));
    let summary = app.settings_page();
    assert_eq!(summary[0].value, "broker:8883 (plain TCP)");
    assert_eq!(summary[1].value, "3000 ms window · Skip");
    assert_eq!(summary[2].value, "Not persisted");
    assert_eq!(endpoint_text("h", "1", true), "h:1 (TLS)");
}

#[test]
fn what_is_typed_is_shown() {
    let mut app = app_for_tests();
    assert_eq!(app.input(TextField::BacnetPort).value, "47808");
    assert_eq!(app.input(TextField::BacnetPort).hint, "0 = ephemeral (recommended)");
    assert_eq!(text_label(TextField::MqttCaCertPath), "CA certificate PEM");
    for (index, field) in [
        TextField::BacnetPort,
        TextField::BbmdTtl,
        TextField::MqttClientKeyPassphrase,
        TextField::PointTagPath,
        TextField::PointPollInterval,
    ]
    .into_iter()
    .enumerate()
    {
        let text = format!("text {index}");
        assert!(app.update(text_edited(field, text.clone())).is_none());
        assert_eq!(app.input(field).value, text);
    }
    for toggle in [
        Toggle::AllInterfaces,
        Toggle::BbmdEnabled,
        Toggle::MqttTls,
        Toggle::MqttRetain,
        Toggle::MqttRememberSecrets,
        Toggle::PointEnabled,
    ] {
        let before = app.tick(toggle).ticked;
        let _ = app.update(toggled(toggle, !before));
        assert_eq!(app.tick(toggle).ticked, !before);
    }
}

#[test]
fn the_logs_page_shows_everything() {
    let mut app = app_for_tests();
    app.set_status(LogLevel::Error, "bad");
    let page = app.logs_page();
    assert_eq!(page.metrics[0].value, "2");
    assert!(page.metrics[1].value.starts_with('+') && page.metrics[1].value.ends_with('s'));
    assert_eq!(page.metrics[2].value, "Error");
    assert_eq!(page.metrics[2].hint, "bad");
    assert_eq!(page.log[1].chip.label, "ERROR");
    assert_eq!(page.log[1].message, "bad");
    let _ = app.update(Message::ClearLogs);
    let page = app.logs_page();
    assert_eq!(page.metrics[1].value, "None");
    assert!(page.log.is_empty());

    let row = log_row(12345, 61, LogLevel::Warning, "m");
    assert_eq!((row.number.as_str(), row.elapsed.as_str()), ("#12345", "+61s"));
    assert_eq!(log_row(42, 0, LogLevel::Info, "").number, "#0042");
    assert_eq!(kind_label(ChipKind::Neutral, "Info"), "Info");
    assert_eq!(kind_label(ChipKind::Warning, "Info"), "Attention");
}
