//! The application's state: messages, reports of workers, and the settings.

use bacnet_republisher::address::Ipv4Addr;
use bacnet_republisher::app::message::{Effect, Message};
use bacnet_republisher::app::page::{compact_config_path, compact_path, initial_page, Page};
use bacnet_republisher::app::{BacnetRepublisher, LOG_CAPACITY, RECENT_SAMPLE_CAPACITY};
use bacnet_republisher::clock::{format_timestamp, format_timestamp_at, timestamp_text};
use bacnet_republisher::config::{AppConfig, BbmdConfig, DiscoveryBindFailurePolicy, UiTheme};
use bacnet_republisher::log::LogLevel;
use bacnet_republisher::model::{
    BulkTagImportOutcome, DeviceObject, DiscoveredDevice, NetworkInterface, Numeric, PointConfig,
    PointFailure, PointIdentity, PointSample, PublishStats, TelemetryValue,
};
use bacnet_republisher::settings::{
    parse_ipv4, parse_u16, parse_u32, parse_u64, PointEditor, SettingsDraft,
};
use bacnet_republisher::text::non_empty_string;
use bacnet_republisher::worker::{RepublisherLifecycle, WorkerEvent};

fn app_for_tests() -> BacnetRepublisher {
    BacnetRepublisher::new(
        AppConfig::default(),
        "test-config.toml".to_string(),
        String::new(),
        Page::Overview,
        Vec::new(),
    )
}

fn point(object_instance: u32) -> PointConfig {
    PointConfig { device_instance: 100, object_instance, ..PointConfig::default() }
}

fn number(value: f64) -> TelemetryValue {
    TelemetryValue::Number(Numeric::Double(value.to_bits()))
}

fn sample(point: PointConfig, value: f64, timestamp_ms: i64) -> PointSample {
    PointSample {
        topic: format!(
            "Netix/Site/device_100/analog_input_{}/present_value",
            point.object_instance
        ),
        point,
        value: number(value),
        timestamp_ms,
    }
}

fn device(instance: u32) -> DiscoveredDevice {
    DiscoveredDevice {
        instance,
        address: "192.168.1.9:47808".to_string(),
        vendor_id: 8,
        max_apdu_length: 1476,
        last_seen_ms: 5,
    }
}

fn object(object_instance: u32) -> DeviceObject {
    DeviceObject {
        device_instance: 100,
        object_type: "analog_input".to_string(),
        object_instance,
        object_name: Some("Room Temp".to_string()),
        description: None,
        units: None,
        present_value: None,
    }
}

fn saves(effect: Option<Effect>) -> bool {
    matches!(effect, Some(Effect::SaveConfig(None)))
}

#[test]
fn clear_all_points_requires_two_presses_and_any_other_action_cancels() {
    let mut app = app_for_tests();
    app.config_path = format!("brp-clear-test-{}.toml", 1);
    app.config.points = vec![point(1), point(2), point(3)];

    // First press only arms the confirmation; nothing is removed yet.
    let _ = app.update(Message::ClearAllPoints);
    assert!(app.clear_points_armed);
    assert_eq!(app.config.points.len(), 3);

    // Any unrelated interaction disarms the pending confirmation...
    let _ = app.update(Message::SelectPage(Page::Points));
    assert!(!app.clear_points_armed);
    // ...so a subsequent lone press just re-arms rather than wiping.
    let _ = app.update(Message::ClearAllPoints);
    assert!(app.clear_points_armed);
    assert_eq!(app.config.points.len(), 3);

    // The periodic event drain must not disarm.
    let _ = app.update(Message::DrainWorkerEvents);
    assert!(app.clear_points_armed);

    // Second deliberate press performs the wipe and resets the guard.
    let _ = app.update(Message::ClearAllPoints);
    assert!(app.config.points.is_empty());
    assert!(app.scanned_objects.is_empty());
    assert!(!app.clear_points_armed);
}

#[test]
fn record_samples_keeps_latest_value_for_each_point() {
    let mut app = app_for_tests();
    let point_a = point(1);
    let point_b = point(2);

    app.record_samples(vec![sample(point_a.clone(), 10.0, 100)]);
    app.record_samples(vec![sample(point_b.clone(), 20.0, 200)]);

    let identity_a = PointIdentity::from_point(&point_a);
    let identity_b = PointIdentity::from_point(&point_b);
    assert_eq!(
        app.point_statuses.get(&identity_a).and_then(|status| status.last_value.as_ref()),
        Some(&number(10.0))
    );
    assert_eq!(
        app.point_statuses.get(&identity_b).and_then(|status| status.last_value.as_ref()),
        Some(&number(20.0))
    );
    assert_eq!(app.recent_samples.len(), 2);
    assert_eq!(app.last_sample_batch, vec![identity_b]);
}

#[test]
fn record_samples_caps_recent_history() {
    let mut app = app_for_tests();

    for index in 0..(RECENT_SAMPLE_CAPACITY + 3) {
        let point = point(index as u32 + 1);
        app.record_samples(vec![sample(point, index as f64, index as i64)]);
    }

    assert_eq!(app.recent_samples.len(), RECENT_SAMPLE_CAPACITY);
    assert_eq!(app.recent_samples.front().map(|sample| sample.timestamp_ms), Some(3));
    assert_eq!(
        app.recent_samples.back().map(|sample| sample.timestamp_ms),
        Some((RECENT_SAMPLE_CAPACITY + 2) as i64)
    );
}

#[test]
fn a_large_batch_keeps_its_latest_samples() {
    let mut app = app_for_tests();
    let batch = (0..150).map(|index| sample(point(index as u32), 0.0, index as i64)).collect();
    app.record_samples(batch);
    assert_eq!(app.recent_samples.len(), 100);
    assert_eq!(app.recent_samples[0].timestamp_ms, 50);
    assert_eq!(app.last_sample_batch.len(), 150);
}

#[test]
fn compact_config_path_returns_parent_and_filename() {
    assert_eq!(
        compact_config_path("/home/user/.config/bacnet/config.toml"),
        "bacnet/config.toml"
    );
}

#[test]
fn compact_config_path_root_fallback() {
    assert_eq!(compact_config_path("config.toml"), "config.toml");
}

#[test]
fn compact_config_path_skips_what_is_no_name() {
    assert_eq!(compact_config_path("/"), "config.toml");
    assert_eq!(compact_config_path(""), "config.toml");
    assert_eq!(compact_config_path("a//b/./c.toml/"), "b/c.toml");
    assert_eq!(compact_config_path("/c.toml"), "c.toml");
    assert_eq!(compact_config_path("./c.toml"), "c.toml");
    assert_eq!(compact_config_path("../c.toml"), "c.toml");
    assert_eq!(compact_config_path("a/.."), "a/config.toml");
    assert_eq!(compact_path(None, Some("x".to_string())), "x/config.toml");
}

#[test]
fn format_timestamp_valid_millis() {
    let result = format_timestamp(1_705_276_800_000);
    assert!(result.contains('-'), "expected date separator: {result}");
    assert!(result.contains(':'), "expected time separator: {result}");
}

#[test]
fn format_timestamp_negative_millis_returns_pre_epoch_date() {
    let result = format_timestamp(-1);
    assert!(result.contains('-'), "expected a date string, got: {result}");
    assert!(result.contains(':'), "expected a time string, got: {result}");
}

#[test]
fn format_timestamp_outside_the_calendar_is_the_number() {
    assert_eq!(format_timestamp(i64::MAX), "9223372036854775807");
    assert_eq!(format_timestamp(i64::MIN), "-9223372036854775808");
    assert_eq!(format_timestamp(8_210_266_876_800_000), "8210266876800000");
    assert!(format_timestamp(8_210_266_876_799_999).contains(':'));
    assert_eq!(format_timestamp(-8_334_601_228_800_001), "-8334601228800001");
    assert!(format_timestamp(-8_334_601_228_800_000).contains(':'));
    assert_eq!(timestamp_text(5, Some("a date".to_string())), "a date");
}

#[test]
fn dates_follow_the_offset_from_utc() {
    assert_eq!(format_timestamp_at(0, 0), "1970-01-01 00:00:00");
    assert_eq!(format_timestamp_at(1_705_276_800_000, 0), "2024-01-15 00:00:00");
    assert_eq!(format_timestamp_at(1_705_276_800_999, -3_600), "2024-01-14 23:00:00");
    assert_eq!(format_timestamp_at(-1, 20_700), "1970-01-01 05:44:59");
    assert_eq!(format_timestamp_at(i64::MAX, 0), "9223372036854775807");
    let local = format_timestamp(1_705_276_800_000);
    assert!((-86_399..86_400)
        .any(|offset_secs| format_timestamp_at(1_705_276_800_000, offset_secs) == local));
}

#[test]
fn non_empty_string_returns_some_for_non_blank() {
    assert_eq!(non_empty_string("hello"), Some("hello".to_string()));
}

#[test]
fn non_empty_string_trims_whitespace() {
    assert_eq!(non_empty_string("  hi  "), Some("hi".to_string()));
}

#[test]
fn non_empty_string_returns_none_for_blank() {
    assert_eq!(non_empty_string(""), None);
    assert_eq!(non_empty_string("   "), None);
}

#[test]
fn parse_u16_valid() {
    assert_eq!(parse_u16("8883", "port"), Ok(8883u16));
}

#[test]
fn parse_u16_trims_whitespace() {
    assert_eq!(parse_u16("  47808  ", "port"), Ok(47808u16));
}

#[test]
fn parse_u16_invalid_returns_error() {
    assert!(parse_u16("99999", "port").is_err());
    assert!(parse_u16("abc", "port").is_err());
}

#[test]
fn parse_u32_valid() {
    assert_eq!(parse_u32("12345", "instance"), Ok(12345u32));
}

#[test]
fn parse_u32_invalid_returns_error() {
    assert!(parse_u32("-1", "instance").is_err());
}

#[test]
fn parse_u64_valid() {
    assert_eq!(parse_u64("3000", "window"), Ok(3000u64));
}

#[test]
fn parse_u64_invalid_returns_error() {
    assert!(parse_u64("not_a_number", "window").is_err());
}

#[test]
fn parse_ipv4_valid() {
    assert_eq!(parse_ipv4("192.168.1.1", "addr"), Ok(Ipv4Addr::new(192, 168, 1, 1)));
}

#[test]
fn parse_ipv4_broadcast() {
    assert_eq!(parse_ipv4("255.255.255.255", "addr"), Ok(Ipv4Addr::broadcast()));
}

#[test]
fn parse_ipv4_invalid_returns_error() {
    assert!(parse_ipv4("not.an.ip", "addr").is_err());
    assert!(parse_ipv4("256.0.0.1", "addr").is_err());
}

#[test]
fn parse_errors_name_the_field() {
    assert_eq!(
        parse_u16("65536", "BACnet port"),
        Err("BACnet port must be a number between 0 and 65535".to_string())
    );
    assert_eq!(
        parse_u32("4294967296", "device instance"),
        Err("device instance must be a non-negative number".to_string())
    );
    assert_eq!(
        parse_u64("18446744073709551616", "poll interval"),
        Err("poll interval must be a non-negative number".to_string())
    );
    assert_eq!(
        parse_ipv4("1.2.3", "BBMD address"),
        Err("BBMD address must be an IPv4 address".to_string())
    );
    assert_eq!(parse_u16("+80", "port"), Ok(80));
    assert!(parse_u16("+", "port").is_err());
    assert!(parse_u16("", "port").is_err());
    assert!(parse_ipv4("01.2.3.4", "a").is_err());
    assert!(parse_ipv4("1.2.3.4.5", "a").is_err());
    assert_eq!(parse_ipv4(" 0.0.0.0 ", "a"), Ok(Ipv4Addr::unspecified()));
}

#[test]
fn initial_page_defaults_to_overview_when_env_unset() {
    assert_eq!(initial_page(None), Page::Overview);
}

#[test]
fn initial_page_parses_known_values() {
    for (input, expected) in [
        ("discover", Page::Discover),
        ("DISCOVER", Page::Discover),
        ("points", Page::Points),
        ("republish", Page::Republish),
        ("publish", Page::Republish),
        ("settings", Page::Settings),
        ("logs", Page::Logs),
    ] {
        assert_eq!(initial_page(Some(input)), expected, "input: {input}");
    }
    assert_eq!(initial_page(Some("  Points\n")), Page::Points);
}

#[test]
fn initial_page_unknown_value_falls_back_to_overview() {
    assert_eq!(initial_page(Some("unknown_page")), Page::Overview);
}

#[test]
fn a_new_application_shows_and_logs_its_status() {
    let interfaces = vec![
        NetworkInterface { name: "en1".to_string(), addr: Ipv4Addr::new(10, 0, 0, 2) },
        NetworkInterface { name: "en0".to_string(), addr: Ipv4Addr::new(10, 0, 0, 1) },
    ];
    let app = BacnetRepublisher::new(
        AppConfig::default(),
        "c.toml".to_string(),
        "Using default configuration".to_string(),
        Page::Logs,
        interfaces,
    );
    assert_eq!(app.status, "Using default configuration");
    assert_eq!(app.logs.entries().len(), 1);
    assert_eq!(app.selected_page, Page::Logs);
    assert_eq!(
        app.interface_choices,
        vec![Ipv4Addr::new(10, 0, 0, 1), Ipv4Addr::new(10, 0, 0, 2)]
    );
    assert_eq!(app.republisher_state, RepublisherLifecycle::Stopped);
    assert_eq!(app.settings.mqtt_port, "8883");
}

#[test]
fn clearing_reports_what_is_gone_after_the_configuration_is_saved() {
    let mut app = app_for_tests();
    app.config.points = vec![point(1)];
    app.scanned_objects = vec![object(1), object(2)];
    let _ = app.update(Message::ClearAllPoints);
    assert_eq!(
        app.status,
        "Press 'Confirm clear' again to remove 1 configured point(s) and 2 scanned object(s). Any other action cancels."
    );
    assert_eq!(app.status_level, LogLevel::Warning);
    match app.update(Message::ClearAllPoints) {
        Some(Effect::SaveConfig(then)) => app.config_saved(None, then),
        other => panic!("unexpected effect {other:?}"),
    }
    assert_eq!(
        app.status,
        "Cleared 1 configured point(s) and 2 scanned object(s). Run Discover to repopulate from the current devices."
    );
    let messages =
        app.logs.entries().iter().map(|entry| entry.message.clone()).collect::<Vec<_>>();
    assert_eq!(messages[messages.len() - 2], "Configuration saved to test-config.toml");

    assert!(app.update(Message::ClearAllPoints).is_none());
    assert_eq!(app.status, "No local objects to clear.");
}

#[test]
fn saving_can_fail() {
    let mut app = app_for_tests();
    app.config_saved(Some("disk full".to_string()), None);
    assert_eq!(app.status, "Config save failed: disk full");
    assert_eq!(app.status_level, LogLevel::Error);
}

#[test]
fn every_edit_reaches_its_field() {
    let mut app = app_for_tests();
    let text = || "x".to_string();
    for message in [
        Message::BacnetPortChanged(text()),
        Message::BroadcastAddressChanged(text()),
        Message::DiscoveryWindowChanged(text()),
        Message::ApduTimeoutChanged(text()),
        Message::PollConcurrencyChanged(text()),
        Message::DeviceBackoffMaxChanged(text()),
        Message::DiscoveryBindFailurePolicySelected(DiscoveryBindFailurePolicy::Strict),
        Message::BbmdEnabledChanged(true),
        Message::BbmdAddressChanged(text()),
        Message::BbmdPortChanged(text()),
        Message::BbmdTtlChanged(text()),
        Message::MqttHostChanged(text()),
        Message::MqttPortChanged(text()),
        Message::MqttTlsChanged(false),
        Message::MqttClientIdChanged(text()),
        Message::MqttTopicPrefixChanged(text()),
        Message::MqttHealthTopicChanged(text()),
        Message::MqttUsernameChanged(text()),
        Message::MqttPasswordChanged(text()),
        Message::MqttCaCertPathChanged(text()),
        Message::MqttClientCertPathChanged(text()),
        Message::MqttClientKeyPathChanged(text()),
        Message::MqttClientKeyPassphraseChanged(text()),
        Message::MqttRememberSecretsChanged(true),
        Message::MqttRetainChanged(true),
        Message::MqttKeepAliveChanged(text()),
    ] {
        assert!(app.update(message).is_none());
    }
    let expected = SettingsDraft {
        bacnet_port: text(),
        broadcast_address: text(),
        discovery_window_ms: text(),
        apdu_timeout_ms: text(),
        poll_concurrency: text(),
        device_backoff_max_secs: text(),
        discovery_bind_failure_policy: DiscoveryBindFailurePolicy::Strict,
        bbmd_enabled: true,
        bbmd_address: text(),
        bbmd_port: text(),
        bbmd_ttl: text(),
        mqtt_host: text(),
        mqtt_port: text(),
        mqtt_use_tls: false,
        mqtt_client_id: text(),
        mqtt_topic_prefix: text(),
        mqtt_health_topic: text(),
        mqtt_username: text(),
        mqtt_password: text(),
        mqtt_ca_cert_path: text(),
        mqtt_client_cert_path: text(),
        mqtt_client_key_path: text(),
        mqtt_client_key_passphrase: text(),
        mqtt_remember_secrets: true,
        mqtt_retain: true,
        mqtt_keep_alive_secs: text(),
    };
    assert_eq!(app.settings, expected);
    assert_eq!(app.config, AppConfig::default());
}

#[test]
fn bad_settings_change_nothing() {
    let mut app = app_for_tests();
    let _ = app.update(Message::MqttHostChanged("broker".to_string()));
    let _ = app.update(Message::MqttKeepAliveChanged("soon".to_string()));
    assert!(app.update(Message::SaveSettings).is_none());
    assert_eq!(app.status, "MQTT keep-alive must be a non-negative number");
    assert_eq!(app.config, AppConfig::default());
    let _ = app.update(Message::MqttKeepAliveChanged("40".to_string()));
    assert!(saves(app.update(Message::SaveSettings)));
    assert_eq!(app.config.mqtt.host, "broker");
    assert_eq!(app.config.mqtt.keep_alive_secs, 40);
}

#[test]
fn settings_read_back() {
    let mut config = AppConfig::default();
    config.bacnet.bbmd =
        Some(BbmdConfig { address: Ipv4Addr::new(10, 9, 8, 7), port: 47809, ttl_secs: 60 });
    config.mqtt.username = Some("user".to_string());
    config.mqtt.ca_cert_path = Some("/ca.pem".to_string());
    let draft = SettingsDraft::from_config(&config);
    assert_eq!(draft.bbmd_address, "10.9.8.7");
    let mut other = AppConfig::default();
    assert_eq!(draft.apply_to(&mut other), Ok(()));
    assert_eq!(other, config);
}

#[test]
fn settings_stop_at_the_first_error() {
    let mut draft = SettingsDraft::from_config(&AppConfig::default());
    draft.bacnet_port = "47810".to_string();
    draft.discovery_window_ms = "?".to_string();
    let mut config = AppConfig::default();
    assert_eq!(
        draft.apply_to(&mut config),
        Err("discovery window must be a non-negative number".to_string())
    );
    assert_eq!(config.bacnet.port, 47810);

    let mut draft = SettingsDraft::from_config(&AppConfig::default());
    draft.bacnet_port = "0".to_string();
    let mut config = AppConfig::default();
    assert_eq!(
        draft.apply_to(&mut config),
        Err("BACnet port cannot be 0 for discovery".to_string())
    );
    draft.bacnet_port = "47808".to_string();
    draft.bbmd_enabled = true;
    assert_eq!(
        draft.apply_to(&mut config),
        Err("BBMD address must be an IPv4 address".to_string())
    );
}

#[test]
fn points_are_edited_and_saved() {
    let mut app = app_for_tests();
    assert!(app.update(Message::SavePoint).is_none());
    assert_eq!(app.status, "device instance must be a non-negative number");

    for message in [
        Message::PointDeviceInstanceChanged(" 100 ".to_string()),
        Message::PointDeviceLabelChanged(" AHU ".to_string()),
        Message::PointObjectTypeChanged("binary_value".to_string()),
        Message::PointObjectInstanceChanged("3".to_string()),
        Message::PointPropertyChanged("present_value".to_string()),
        Message::PointTagPathChanged("A/B".to_string()),
        Message::PointPollIntervalChanged("7".to_string()),
        Message::PointEnabledChanged(false),
    ] {
        assert!(app.update(message).is_none());
    }
    assert!(saves(app.update(Message::SavePoint)));
    assert_eq!(app.selected_point, Some(0));
    let saved = PointConfig {
        enabled: false,
        device_instance: 100,
        device_label: "AHU".to_string(),
        object_type: "binary_value".to_string(),
        object_instance: 3,
        property: "present_value".to_string(),
        tag_path: "A/B".to_string(),
        poll_interval_secs: 7,
    };
    assert_eq!(app.config.points, vec![saved.clone()]);

    // Saving again replaces the point.
    let _ = app.update(Message::PointPollIntervalChanged("8".to_string()));
    assert!(saves(app.update(Message::SavePoint)));
    assert_eq!(app.config.points.len(), 1);
    assert_eq!(app.config.points[0].poll_interval_secs, 8);

    assert!(saves(app.update(Message::TogglePoint(0, true))));
    assert!(app.config.points[0].enabled);
    assert!(app.update(Message::TogglePoint(5, true)).is_none());

    let _ = app.update(Message::NewPoint);
    assert_eq!(app.selected_point, None);
    assert_eq!(app.point_editor, PointEditor::new());
    let _ = app.update(Message::EditPoint(0));
    assert_eq!(app.selected_point, Some(0));
    assert_eq!(app.point_editor.to_point(), Ok(app.config.points[0].clone()));
    assert!(app.update(Message::EditPoint(9)).is_none());
    assert!(app.update(Message::DeletePoint(9)).is_none());
    assert!(saves(app.update(Message::DeletePoint(0))));
    assert!(app.config.points.is_empty());
    assert_eq!(app.selected_point, None);
}

#[test]
fn a_selected_point_that_is_gone_is_not_replaced() {
    let mut app = app_for_tests();
    app.selected_point = Some(4);
    app.point_editor = PointEditor::from_point(&point(1));
    assert!(saves(app.update(Message::SavePoint)));
    assert!(app.config.points.is_empty());
}

#[test]
fn a_scanned_object_becomes_an_edited_point() {
    let mut app = app_for_tests();
    app.scanned_objects = vec![object(6)];
    let _ = app.update(Message::AddObjectAsPoint(1));
    assert_eq!(app.selected_page, Page::Overview);
    let _ = app.update(Message::AddObjectAsPoint(0));
    assert_eq!(app.selected_page, Page::Points);
    assert_eq!(app.point_editor.tag_path, "Room Temp");
    assert_eq!(app.point_editor.device_label, "device_100");
}

#[test]
fn operations_start_only_when_they_can() {
    let mut app = app_for_tests();
    assert!(app.update(Message::ScanAllObjects).is_none());
    assert_eq!(app.status, "Discover devices before scanning all object lists");
    app.devices = vec![device(1), device(2)];
    assert!(matches!(app.update(Message::ScanAllObjects), Some(Effect::ScanAllObjects)));
    assert_eq!(app.scan_progress, Some((0, 2)));
    assert!(app.working);
    assert!(app.update(Message::ScanAllObjects).is_none());
    assert_eq!(app.status, "Another BACnet operation is already running");

    assert!(matches!(app.update(Message::ScanObjects(7)), Some(Effect::ScanObjects(7))));
    assert!(matches!(app.update(Message::Discover), Some(Effect::Discover)));
    assert!(app.devices.is_empty());

    assert!(app.update(Message::PollAndPublish).is_none());
    assert_eq!(app.status, "Enable at least one point before publishing");
    app.config.points = vec![point(1)];
    app.config.mqtt.host = " ".to_string();
    assert!(app.update(Message::PollAndPublish).is_none());
    assert_eq!(app.status, "MQTT host cannot be empty");
    app.config.mqtt.host = "h".to_string();
    assert!(matches!(app.update(Message::PollAndPublish), Some(Effect::PollAndPublish)));
}

#[test]
fn one_republisher_runs_at_a_time() {
    let mut app = app_for_tests();
    assert!(app.update(Message::StopRepublisher).is_none());
    assert_eq!(app.status, "Continuous republisher is not running");
    app.config.points = vec![point(1)];
    assert!(matches!(app.update(Message::StartRepublisher), Some(Effect::StartRepublisher)));
    assert!(app.republisher_stop);
    assert!(app.update(Message::StartRepublisher).is_none());
    assert_eq!(app.status, "Continuous republisher is already running");
    assert!(app.update(Message::PollAndPublish).is_none());
    assert_eq!(app.status, "Stop the continuous republisher before running Poll once");

    app.apply_republisher_lifecycle(RepublisherLifecycle::Running);
    assert_eq!(app.status, "Continuous republisher active");
    assert!(matches!(app.update(Message::StopRepublisher), Some(Effect::StopRepublisher)));
    // What was reported before the request arrived is of no interest any more.
    app.apply_republisher_lifecycle(RepublisherLifecycle::Running);
    assert_eq!(app.republisher_state, RepublisherLifecycle::Stopping);
    assert!(app.republisher_active());
    app.apply_republisher_lifecycle(RepublisherLifecycle::Stopped);
    assert!(!app.republisher_stop);
    assert!(!app.republisher_active());

    app.apply_republisher_lifecycle(RepublisherLifecycle::Failed("no socket".to_string()));
    assert_eq!(app.status, "Continuous republisher failed: no socket");
    assert_eq!(app.status_level, LogLevel::Error);
    assert!(matches!(app.update(Message::StartRepublisher), Some(Effect::StartRepublisher)));
}

#[test]
fn reports_of_workers_are_taken_over() {
    let mut app = app_for_tests();
    app.working = true;
    assert!(app.apply_worker_event(WorkerEvent::Devices(vec![device(3)])).is_none());
    assert_eq!(app.devices.len(), 1);
    let _ = app.apply_worker_event(WorkerEvent::Objects(vec![object(1)]));
    assert_eq!(app.scanned_objects.len(), 1);
    let _ = app.apply_worker_event(WorkerEvent::ScanProgress { current: 1, total: 2 });
    assert_eq!(app.scan_progress, Some((1, 2)));
    let imported = BulkTagImportOutcome {
        devices: vec![device(4), device(5)],
        scanned_objects: Vec::new(),
        points: vec![point(1), point(2)],
        added: 2,
        updated: 0,
        warnings: Vec::new(),
    };
    assert!(saves(app.apply_worker_event(WorkerEvent::BulkTagImport(imported))));
    assert_eq!(app.config.points.len(), 2);
    assert_eq!(app.devices.len(), 2);
    assert!(app.scanned_objects.is_empty());
    let _ = app.apply_worker_event(WorkerEvent::Log(LogLevel::Warning, "careful".to_string()));
    assert_eq!(app.status, "careful");
    let _ = app.apply_worker_event(WorkerEvent::Finished("done".to_string()));
    assert!(!app.working);
    assert_eq!(app.scan_progress, None);
    assert_eq!(app.status, "done");
    assert_eq!(app.status_level, LogLevel::Info);
    let _ = app.apply_worker_event(WorkerEvent::RepublisherLifecycle(
        RepublisherLifecycle::Starting,
    ));
    assert_eq!(app.status, "Starting continuous republisher");
}

#[test]
fn publication_reaches_the_points_of_the_last_batch() {
    let mut app = app_for_tests();
    let _ = app.apply_worker_event(WorkerEvent::Samples(vec![sample(point(1), 1.0, 1)]));
    let _ = app.apply_worker_event(WorkerEvent::Samples(vec![sample(point(2), 1.0, 2)]));
    let mut stats = PublishStats::empty();
    stats.published = 3;
    stats.record_failure("broker gone");
    let _ = app.apply_worker_event(WorkerEvent::PublishStatus(stats));
    assert_eq!(app.status, "MQTT publish complete: 3 published, 1 failed");
    assert_eq!(app.status_level, LogLevel::Warning);
    let status = |app: &BacnetRepublisher, instance| {
        app.point_statuses
            .get(&PointIdentity::from_point(&point(instance)))
            .unwrap()
            .last_publish_error
            .clone()
    };
    assert_eq!(status(&app, 1), None);
    assert_eq!(status(&app, 2), Some("broker gone".to_string()));
    let _ = app.apply_worker_event(WorkerEvent::PublishStatus(PublishStats::empty()));
    assert_eq!(status(&app, 2), None);

    let unnamed =
        PublishStats { queued: 0, published: 0, failed: 1, reconnects: 0, last_error: None };
    let _ = app.apply_worker_event(WorkerEvent::PublishStatus(unnamed));
    assert_eq!(status(&app, 2), Some("MQTT publish failed".to_string()));

    let failure = PointFailure { point: point(2), error: "timeout".to_string() };
    let _ = app.apply_worker_event(WorkerEvent::Failures(vec![failure]));
    let identity = PointIdentity::from_point(&point(2));
    assert!(app.point_statuses.get(&identity).unwrap().stale);
}

#[test]
fn interfaces_and_choices_are_refreshed() {
    let mut app = app_for_tests();
    assert!(matches!(
        app.update(Message::RefreshInterfaces),
        Some(Effect::RefreshInterfaces)
    ));
    app.interfaces_refreshed(vec![NetworkInterface {
        name: "en0".to_string(),
        addr: Ipv4Addr::new(10, 0, 0, 1),
    }]);
    assert_eq!(app.status, "Network interfaces refreshed");
    assert_eq!(app.interface_choices, vec![Ipv4Addr::new(10, 0, 0, 1)]);

    assert!(saves(app.update(Message::InterfaceSelected(Ipv4Addr::new(10, 0, 0, 1)))));
    assert!(!app.config.bacnet.discover_all_interfaces);
    assert!(saves(app.update(Message::DiscoverAllInterfacesChanged(true))));
    assert!(app.config.bacnet.discover_all_interfaces);
    assert!(saves(app.update(Message::ThemeSelected(UiTheme::Light))));
    assert_eq!(app.config.ui.theme, UiTheme::Light);
    assert!(matches!(app.update(Message::DrainWorkerEvents), Some(Effect::DrainEvents)));
}

#[test]
fn the_log_is_bounded_and_can_be_cleared() {
    let mut app = app_for_tests();
    for index in 0..(LOG_CAPACITY + 10) {
        app.set_status(LogLevel::Info, &format!("message {index}"));
    }
    assert_eq!(app.logs.entries().len(), LOG_CAPACITY);
    let last = app.logs.entries().back().unwrap();
    assert_eq!(last.message, app.status);
    let _ = app.update(Message::ClearLogs);
    assert!(app.logs.entries().is_empty());
}
