//! Configuration, the simulated plant, imports and the network.

use bacnet_republisher::address::Ipv4Addr;
use bacnet_republisher::config::{
    find_point_fault, load_or_default, AppConfig, BacnetConfig, ConfigLoad,
    DiscoveryBindFailurePolicy, UiTheme, CURRENT_CONFIG_VERSION,
};
use bacnet_republisher::import::merge_imported_points;
use bacnet_republisher::model::{NetworkInterface, PointConfig};
use bacnet_republisher::network::{
    interface_choices, ipv4_interfaces, is_bacnet_discovery_interface,
    resolve_bacnet_bind_address,
};
use bacnet_republisher::seed::{simulator_config, simulator_points};

fn interface(name: &str, a: u8, b: u8, c: u8, d: u8) -> NetworkInterface {
    NetworkInterface { name: name.to_string(), addr: Ipv4Addr::new(a, b, c, d) }
}

#[test]
fn save_omits_password_when_secret_persistence_is_disabled() {
    let mut config = AppConfig::default();
    config.mqtt.username = Some("user".to_string());
    config.mqtt.password = Some("secret".to_string());
    config.mqtt.remember_secrets = false;

    let saved = config.sanitized_for_save();

    assert_eq!(saved.mqtt.username.as_deref(), Some("user"));
    assert_eq!(saved.mqtt.password, None);
}

#[test]
fn save_keeps_password_when_secret_persistence_is_enabled() {
    let mut config = AppConfig::default();
    config.mqtt.password = Some("secret".to_string());
    config.mqtt.remember_secrets = true;

    let saved = config.sanitized_for_save();

    assert_eq!(saved.mqtt.password.as_deref(), Some("secret"));
}

#[test]
fn save_omits_the_key_passphrase_too() {
    let mut config = AppConfig::default();
    config.mqtt.client_key_passphrase = Some("secret".to_string());
    assert_eq!(config.sanitized_for_save().mqtt.client_key_passphrase, None);
    config.mqtt.remember_secrets = true;
    assert_eq!(config.sanitized_for_save(), config);
}

#[test]
fn defaults_are_as_documented() {
    let config = AppConfig::default();
    assert_eq!(config.version, CURRENT_CONFIG_VERSION);
    assert_eq!(config.bacnet.port, 47808);
    assert_eq!(config.bacnet.broadcast_address, Ipv4Addr::new(255, 255, 255, 255));
    assert_eq!(config.bacnet.discovery_window_ms, 3000);
    assert_eq!(config.bacnet.apdu_timeout_ms, 2000);
    assert_eq!(
        config.bacnet.discovery_bind_failure_policy,
        DiscoveryBindFailurePolicy::Skip
    );
    assert_eq!(config.mqtt.host, "localhost");
    assert_eq!(config.mqtt.port, 8883);
    assert!(config.mqtt.use_tls);
    assert_eq!(config.mqtt.client_id, "netix-bacnet-republisher");
    assert_eq!(config.mqtt.topic_prefix, "Netix/Site");
    assert_eq!(config.mqtt.health_topic, "Netix/Site/_health/bacnet-republisher");
    assert_eq!(config.mqtt.keep_alive_secs, 30);
    assert!(!config.mqtt.remember_secrets);
    assert_eq!(config.ui.theme, UiTheme::Auto);
    assert_eq!(config.validate(), Ok(()));
}

#[test]
fn migration_sets_the_version() {
    let mut config = AppConfig::default();
    config.version = 0;
    config.migrate();
    assert_eq!(config, AppConfig::default());
}

#[test]
fn each_rule_has_its_error() {
    fn fault(change: impl Fn(&mut AppConfig)) -> String {
        let mut config = AppConfig::default();
        change(&mut config);
        config.validate().unwrap_err()
    }
    assert_eq!(fault(|c| c.bacnet.port = 0), "BACnet port cannot be 0 for discovery");
    assert_eq!(
        fault(|c| c.bacnet.discovery_window_ms = 249),
        "BACnet discovery window must be at least 250 ms"
    );
    assert_eq!(
        fault(|c| c.bacnet.apdu_timeout_ms = 249),
        "BACnet APDU timeout must be at least 250 ms"
    );
    assert_eq!(fault(|c| c.mqtt.host = " \t".to_string()), "MQTT host cannot be empty");
    assert_eq!(fault(|c| c.mqtt.port = 0), "MQTT port cannot be 0");
    assert_eq!(
        fault(|c| c.mqtt.topic_prefix = String::new()),
        "MQTT topic prefix cannot be empty"
    );
    assert_eq!(
        fault(|c| c.points = vec![PointConfig::default()]),
        "analog_input 0 present_value has no BACnet device instance"
    );
    let idle =
        PointConfig { device_instance: 1, poll_interval_secs: 0, ..PointConfig::default() };
    assert_eq!(
        fault(|c| c.points = vec![idle.clone()]),
        "analog_input 0 present_value poll interval cannot be 0"
    );
    let disabled = PointConfig { enabled: false, ..PointConfig::default() };
    assert_eq!(find_point_fault(&disabled), None);
}

#[test]
fn loading_falls_back_to_defaults() {
    let mut saved = AppConfig::default();
    saved.mqtt.host = "broker".to_string();
    let (config, status) = load_or_default(ConfigLoad::Loaded(saved.clone()));
    assert_eq!((config, status.as_str()), (saved, "Loaded saved configuration"));
    let (config, status) = load_or_default(ConfigLoad::NoPath("no home".to_string()));
    assert_eq!((config, status.as_str()), (AppConfig::default(), "no home"));
    let (_, status) =
        load_or_default(ConfigLoad::Failed { error: "bad toml".to_string(), exists: true });
    assert_eq!(status, "Using defaults; config load failed: bad toml");
    let (_, status) =
        load_or_default(ConfigLoad::Failed { error: "none".to_string(), exists: false });
    assert_eq!(status, "Using default configuration");
}

#[test]
fn merge_adds_new_points_and_updates_tag_paths() {
    let existing = vec![PointConfig {
        device_instance: 1001,
        object_type: "analog_input".to_string(),
        object_instance: 1,
        property: "present_value".to_string(),
        tag_path: "old/path".to_string(),
        ..PointConfig::default()
    }];
    let imported = vec![
        PointConfig {
            device_instance: 1001,
            object_type: "analog_input".to_string(),
            object_instance: 1,
            property: "present_value".to_string(),
            tag_path: "AHU-1/SupplyAirTemp".to_string(),
            device_label: "AHU-1".to_string(),
            ..PointConfig::default()
        },
        PointConfig {
            device_instance: 1001,
            object_type: "binary_value".to_string(),
            object_instance: 2,
            property: "present_value".to_string(),
            tag_path: "AHU-1/FanStatus".to_string(),
            ..PointConfig::default()
        },
    ];

    let result = merge_imported_points(&existing, &imported);

    assert_eq!(result.added, 1);
    assert_eq!(result.updated, 1);
    assert_eq!(result.points.len(), 2);
    assert_eq!(result.points[0].tag_path, "AHU-1/SupplyAirTemp");
}

#[test]
fn merging_again_changes_nothing() {
    let imported = simulator_points();
    let once = merge_imported_points(&[], &imported);
    assert_eq!((once.added, once.updated), (7, 0));
    let twice = merge_imported_points(&once.points, &imported);
    assert_eq!((twice.added, twice.updated), (0, 0));
    assert_eq!(twice.points, once.points);
}

#[test]
fn merging_repeated_imports_again_keeps_the_points() {
    let path = |tag_path: &str| PointConfig {
        tag_path: tag_path.to_string(),
        ..PointConfig::default()
    };
    let imported = vec![path("a"), path("b"), path("")];
    let once = merge_imported_points(&[], &imported);
    assert_eq!(once.points, vec![path("b")]);
    let twice = merge_imported_points(&once.points, &imported);
    assert_eq!((twice.added, twice.updated), (0, 2));
    assert_eq!(twice.points, once.points);
}

#[test]
fn spelling_does_not_make_a_new_point() {
    let existing = vec![PointConfig {
        object_type: "Analog Input".to_string(),
        property: "PRESENT-VALUE".to_string(),
        ..PointConfig::default()
    }];
    let imported = vec![PointConfig::default()];
    assert_eq!(merge_imported_points(&existing, &imported).added, 0);
}

#[test]
fn interface_choices_deduplicates_addresses() {
    let interfaces = vec![interface("a", 10, 0, 0, 1), interface("b", 10, 0, 0, 1)];
    assert_eq!(interface_choices(&interfaces), vec![Ipv4Addr::new(10, 0, 0, 1)]);
}

#[test]
fn resolve_bind_prefers_selected_interface() {
    let mut config = BacnetConfig::default();
    config.selected_interface = Some(Ipv4Addr::new(10, 1, 2, 3));
    let interfaces = vec![interface("en0", 192, 168, 1, 5)];
    assert_eq!(
        resolve_bacnet_bind_address(&config, &interfaces),
        Ipv4Addr::new(10, 1, 2, 3)
    );
}

#[test]
fn resolve_bind_falls_back_to_first_discovery_interface() {
    let config = BacnetConfig::default();
    let interfaces = vec![interface("bridge100", 192, 168, 139, 3)];
    assert_eq!(
        resolve_bacnet_bind_address(&config, &interfaces),
        Ipv4Addr::new(192, 168, 139, 3)
    );
    assert_eq!(resolve_bacnet_bind_address(&config, &[]), Ipv4Addr::unspecified());
}

#[test]
fn excludes_tunnel_and_link_local_interfaces() {
    assert!(!is_bacnet_discovery_interface("utun10", Ipv4Addr::new(10, 7, 0, 2)));
    assert!(!is_bacnet_discovery_interface("en0", Ipv4Addr::new(169, 254, 1, 1)));
    assert!(is_bacnet_discovery_interface("bridge100", Ipv4Addr::new(192, 168, 139, 3)));
    assert!(is_bacnet_discovery_interface("en0", Ipv4Addr::new(172, 20, 10, 3)));
}

#[test]
fn excludes_every_unsuitable_name() {
    let addr = Ipv4Addr::new(10, 0, 0, 1);
    for name in ["utun0", "PPP1", "ipsec0", "gif0", "stf0", "awdl0", "llw0", "lo", "ap1"] {
        assert!(!is_bacnet_discovery_interface(name, addr), "{name}");
    }
    assert!(!is_bacnet_discovery_interface("en0", Ipv4Addr::new(127, 9, 9, 9)));
    assert!(!is_bacnet_discovery_interface("en0", Ipv4Addr::unspecified()));
    assert!(is_bacnet_discovery_interface("", addr));
}

#[test]
fn interfaces_are_filtered_sorted_and_unique() {
    let found = vec![
        interface("en1", 10, 0, 0, 9),
        interface("lo0", 10, 0, 0, 1),
        interface("en1", 10, 0, 0, 2),
        interface("en0", 10, 0, 0, 200),
        interface("en1", 10, 0, 0, 9),
    ];
    assert_eq!(
        ipv4_interfaces(found),
        vec![
            interface("en0", 10, 0, 0, 200),
            interface("en1", 10, 0, 0, 2),
            interface("en1", 10, 0, 0, 9)
        ]
    );
    assert_eq!(interface("en0", 10, 0, 0, 1).to_text(), "en0 (10.0.0.1)");
}

#[test]
fn simulator_points_returns_seven_points() {
    let points = simulator_points();
    assert_eq!(points.len(), 7);
}

#[test]
fn simulator_points_all_enabled() {
    let points = simulator_points();
    assert!(points.iter().all(|p| p.enabled));
}

#[test]
fn simulator_points_expected_device_instances() {
    let points = simulator_points();
    let instances: Vec<u32> = points.iter().map(|p| p.device_instance).collect();
    assert!(instances.contains(&10700), "AHU-L-001 (10700) missing");
    assert!(instances.contains(&10900), "VAV-OFC-001 (10900) missing");
    assert!(instances.contains(&10600), "PLANT-MTR-001 (10600) missing");
}

#[test]
fn simulator_points_ahu_has_three_points() {
    let points = simulator_points();
    let ahu_points: Vec<_> = points.iter().filter(|p| p.device_instance == 10700).collect();
    assert_eq!(ahu_points.len(), 3);
}

#[test]
fn simulator_points_tag_paths_are_non_empty() {
    let points = simulator_points();
    assert!(points.iter().all(|p| !p.tag_path.is_empty()));
}

#[test]
fn simulator_config_prefers_a_bridge() {
    let interfaces = [interface("en0", 10, 0, 0, 1), interface("bridge100", 10, 0, 0, 2)];
    let (config, note) = simulator_config(&interfaces);
    assert_eq!(config.bacnet.selected_interface, Some(Ipv4Addr::new(10, 0, 0, 2)));
    assert_eq!(
        note.as_deref(),
        Some("Set bacnet.selected_interface to 10.0.0.2 (bridge100) for Docker/OrbStack reachability")
    );
    assert_eq!((config.mqtt.port, config.mqtt.use_tls), (1883, false));
    assert_eq!(config.points, simulator_points());
    assert_eq!(config.validate(), Ok(()));
    let (config, note) = simulator_config(&interfaces[..1]);
    assert_eq!(config.bacnet.selected_interface, None);
    assert_eq!(
        note.as_deref(),
        Some("No bridge NIC found; poll/scan will bind via first discovery interface 10.0.0.1 (en0)")
    );
    assert_eq!(simulator_config(&[]).1, None);
}
