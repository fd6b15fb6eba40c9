//! Discovery, scans, polls and refreshes of BACnet devices.

use bacnet_republisher::address::Ipv4Addr;
use bacnet_republisher::bacnet::discovery::{
    collect_discovered_devices, discovered_device, target_interfaces, Discovery, DiscoveryAction,
};
use bacnet_republisher::bacnet::poll::{
    collate_poll, complete_poll, device_instances, enabled_points, plan_poll, rpm_samples,
    split_pollable, GroupAction, GroupPoll, PollRequest, ReadResult,
};
use bacnet_republisher::bacnet::refresh::{
    device_instance_ranges, format_unresolved_warning, normalize_device_instances,
    partition_refresh_outcome, DeviceRefresh, RefreshAction, REFRESH_TARGETED_CHUNK_SIZE,
};
use bacnet_republisher::bacnet::scan::{ObjectScan, ScanAction};
use bacnet_republisher::bacnet::{
    format_bip_mac, point_from_object, read_device_label, read_scalar_property, visible_text,
    ObjectIdentifier, DESCRIPTION, DEVICE_TYPE, OBJECT_LIST, OBJECT_NAME, PRESENT_VALUE, UNITS,
};
use bacnet_republisher::config::{BacnetConfig, DiscoveryBindFailurePolicy, MqttConfig};
use bacnet_republisher::model::{
    DeviceObject, DiscoveredDevice, NetworkInterface, Numeric, PointConfig, PointFailure,
    PollOutcome, TelemetryValue,
};
use bacnet_republisher::value::{property_name, ObjectType, PropertyIdentifier};
use bacnet_types::enums::PropertyIdentifier as Outside;

fn outside_type(value: bacnet_types::enums::ObjectType) -> ObjectType {
    ObjectType::from_raw(value.to_raw())
}

fn outside_property(value: bacnet_types::enums::PropertyIdentifier) -> PropertyIdentifier {
    PropertyIdentifier::from_raw(value.to_raw())
}

fn point_on(device_instance: u32, object_instance: u32) -> PointConfig {
    PointConfig { device_instance, object_instance, ..PointConfig::default() }
}

fn interface(name: &str, last: u8) -> NetworkInterface {
    NetworkInterface { name: name.to_string(), addr: Ipv4Addr::new(10, 0, 0, last) }
}

fn found(instance: u32, port: u16) -> DiscoveredDevice {
    DiscoveredDevice {
        instance,
        address: format!("10.0.0.9:{port}"),
        vendor_id: 1,
        max_apdu_length: 480,
        last_seen_ms: 0,
    }
}

/// A REAL of 72.
const REAL_72: [u8; 5] = [0x44, 0x42, 0x90, 0x00, 0x00];

#[test]
fn point_from_object_uses_object_name_as_tag() {
    let object = DeviceObject {
        device_instance: 100,
        object_type: "analog_input".to_string(),
        object_instance: 2,
        object_name: Some("AHU1 Supply Temp".to_string()),
        description: None,
        units: None,
        present_value: None,
    };

    let point = point_from_object(&object, None);

    assert_eq!(point.device_instance, 100);
    assert_eq!(point.tag_path, "AHU1 Supply Temp");

    let labeled = point_from_object(&object, Some("AHU-1"));
    assert_eq!(labeled.tag_path, "AHU-1/AHU1 Supply Temp");
    assert_eq!(labeled.device_label, "AHU-1");
}

#[test]
fn nameless_objects_are_named_by_type_and_instance() {
    let object = DeviceObject {
        device_instance: 7,
        object_type: "binary_value".to_string(),
        object_instance: 3,
        object_name: Some("  ".to_string()),
        description: None,
        units: None,
        present_value: None,
    };
    assert_eq!(point_from_object(&object, None).tag_path, "binary_value_3");
    assert_eq!(point_from_object(&object, None).device_label, "device_7");
    let blank = point_from_object(&object, Some(" "));
    assert_eq!(blank.tag_path, "device_7/binary_value_3");
}

#[test]
fn target_interfaces_defaults_to_unspecified_without_interfaces() {
    let config = BacnetConfig::default();
    assert_eq!(target_interfaces(&config, &[]), vec![Ipv4Addr::unspecified()]);
}

#[test]
fn target_interfaces_are_sorted_or_the_selected_one() {
    let mut config = BacnetConfig::default();
    let interfaces = [interface("b", 9), interface("a", 1), interface("c", 9)];
    assert_eq!(
        target_interfaces(&config, &interfaces),
        vec![Ipv4Addr::new(10, 0, 0, 1), Ipv4Addr::new(10, 0, 0, 9)]
    );
    config.discover_all_interfaces = false;
    assert_eq!(target_interfaces(&config, &interfaces), vec![Ipv4Addr::unspecified()]);
    config.selected_interface = Some(Ipv4Addr::new(1, 2, 3, 4));
    assert_eq!(target_interfaces(&config, &interfaces), vec![Ipv4Addr::new(1, 2, 3, 4)]);
}

#[test]
fn normalizes_requested_device_instances() {
    assert_eq!(
        normalize_device_instances(&[10902, 10700, 10902, 10600]),
        vec![10600, 10700, 10902]
    );
}

#[test]
fn device_instance_ranges_are_deterministic_and_bounded_by_chunk_size() {
    let mut instances = (1..=30).rev().collect::<Vec<_>>();
    instances.extend([3, 3, 29]);

    let ranges = device_instance_ranges(&instances);

    assert_eq!(ranges, vec![(1, 25), (26, 30)]);
    for (low, high) in ranges {
        let count = (low..=high).filter(|instance| instances.contains(instance)).count();
        assert!(count <= REFRESH_TARGETED_CHUNK_SIZE);
    }
}

#[test]
fn parses_poll_request_identifiers() {
    let point = PointConfig {
        device_instance: 100,
        object_type: "analog_input".to_string(),
        object_instance: 1,
        property: "present_value".to_string(),
        ..PointConfig::default()
    };

    let request = PollRequest::from_point(point).unwrap();

    assert_eq!(
        request.object_identifier.object_type,
        outside_type(bacnet_types::enums::ObjectType::ANALOG_INPUT)
    );
    assert_eq!(
        request.property_identifier,
        outside_property(bacnet_types::enums::PropertyIdentifier::PRESENT_VALUE)
    );
}

#[test]
fn property_name_is_stable() {
    assert_eq!(
        property_name(outside_property(
            bacnet_types::enums::PropertyIdentifier::PRESENT_VALUE
        )),
        "present_value"
    );
}

#[test]
fn the_identifiers_of_the_protocol_are_right() {
    assert_eq!(DEVICE_TYPE, bacnet_types::enums::ObjectType::DEVICE.to_raw());
    assert_eq!(OBJECT_LIST, Outside::OBJECT_LIST.to_raw());
    assert_eq!(OBJECT_NAME, Outside::OBJECT_NAME.to_raw());
    assert_eq!(DESCRIPTION, Outside::DESCRIPTION.to_raw());
    assert_eq!(UNITS, Outside::UNITS.to_raw());
    assert_eq!(PRESENT_VALUE, Outside::PRESENT_VALUE.to_raw());
}

#[test]
fn poll_requests_fail_with_a_reason() {
    let mut point = point_on(1, 1);
    point.object_type = "thing".to_string();
    assert_eq!(
        PollRequest::from_point(point.clone()).unwrap_err(),
        "unknown BACnet object type 'thing'"
    );
    point.object_type = "analog_input".to_string();
    point.property = "colour".to_string();
    assert_eq!(
        PollRequest::from_point(point.clone()).unwrap_err(),
        "unknown BACnet property 'colour'"
    );
    point.property = "present_value".to_string();
    point.object_instance = 0x40_0000;
    assert_eq!(PollRequest::from_point(point).unwrap_err(), "invalid object identifier");
}

#[test]
fn object_identifiers_have_limits() {
    assert!(ObjectIdentifier::new(ObjectType::from_raw(0x3ff), 0x3f_ffff).is_ok());
    let error = ObjectIdentifier::new(ObjectType::from_raw(0), 0x40_0000).unwrap_err();
    assert!(error.contains("exceeds max 4194303"), "{error}");
}

#[test]
fn bip_addresses_are_readable() {
    assert_eq!(format_bip_mac(&[192, 168, 1, 5, 0xba, 0xc0]), "192.168.1.5:47808");
    assert_eq!(format_bip_mac(&[0x0a, 0xff]), "0A:FF");
    assert_eq!(format_bip_mac(&[]), "");
}

#[test]
fn labels_come_from_the_device_name() {
    let name = Some(TelemetryValue::Text("AHU".to_string()));
    assert_eq!(read_device_label(5, &name, ""), "AHU");
    assert_eq!(read_device_label(5, &None, ""), "device_5");
    let blank = Some(TelemetryValue::Text(" ".to_string()));
    assert_eq!(read_device_label(5, &blank, ""), "device_5");
    let number = Some(TelemetryValue::Number(Numeric::Unsigned(4)));
    assert_eq!(read_device_label(5, &number, "4"), "4");
    assert_eq!(visible_text(&number, "4"), Some("4".to_string()));
    assert_eq!(visible_text(&blank, ""), None);
}

#[test]
fn replies_without_a_scalar_are_no_value() {
    assert_eq!(
        read_scalar_property(&Some(REAL_72.to_vec())),
        Some(TelemetryValue::Number(Numeric::Real(72.0f32.to_bits())))
    );
    assert_eq!(read_scalar_property(&Some(vec![0xff])), None);
    assert_eq!(read_scalar_property(&None), None);
}

#[test]
fn found_devices_are_sorted_by_instance() {
    let device = discovered_device(9, &[10, 0, 0, 1, 0xba, 0xc0], 7, 480, 12);
    assert_eq!(device.address, "10.0.0.1:47808");
    let devices = collect_discovered_devices(&vec![found(5, 1), found(2, 2), found(5, 3)]);
    let instances = devices.iter().map(|device| device.instance).collect::<Vec<_>>();
    assert_eq!(instances, vec![2, 5, 5]);
    assert_eq!(devices[1].address, "10.0.0.9:1");
}

fn discover_on(policy: DiscoveryBindFailurePolicy, count: u8) -> Discovery {
    let config =
        BacnetConfig { discovery_bind_failure_policy: policy, ..BacnetConfig::default() };
    let interfaces = (1..=count).map(|last| interface("en", last)).collect::<Vec<_>>();
    Discovery::start(&config, &interfaces)
}

#[test]
fn discovery_asks_three_times_on_each_interface() {
    let mut state = discover_on(DiscoveryBindFailurePolicy::Skip, 2);
    assert!(matches!(state.next(), DiscoveryAction::Bind(addr) if addr.d == 1));
    let mut action = state.bound(None);
    for pass in 0..3u16 {
        assert!(matches!(action, DiscoveryAction::Broadcast));
        action = state.heard(vec![found(20, pass), found(10, pass)]);
    }
    assert!(matches!(action, DiscoveryAction::Stop { checked: true }));
    let action = state.stopped(None);
    assert!(matches!(action, DiscoveryAction::Bind(addr) if addr.d == 2));
    let action = state.bound(Some("in use".to_string()));
    assert!(matches!(action, DiscoveryAction::Finish));
    let outcome = state.outcome();
    let devices =
        outcome.devices.iter().map(|d| (d.instance, d.address.as_str())).collect::<Vec<_>>();
    assert_eq!(devices, vec![(10, "10.0.0.9:2"), (20, "10.0.0.9:2")]);
    assert_eq!(
        outcome.warnings,
        vec!["failed to start BACnet client on 10.0.0.2: in use".to_string()]
    );
}

#[test]
fn strict_discovery_gives_up_at_the_first_failure() {
    let mut state = discover_on(DiscoveryBindFailurePolicy::Strict, 2);
    match state.bound(Some("in use".to_string())) {
        DiscoveryAction::Fail(message) => {
            assert_eq!(message, "failed to start BACnet client on 10.0.0.1: in use")
        }
        other => panic!("unexpected action {other:?}"),
    }
    let mut state = discover_on(DiscoveryBindFailurePolicy::Strict, 1);
    let _ = state.bound(None);
    assert!(matches!(state.pass_failed("down"), DiscoveryAction::Stop { checked: false }));
    match state.stopped(Some("ignored".to_string())) {
        DiscoveryAction::Fail(message) => {
            assert_eq!(message, "Who-Is pass 1 failed on 10.0.0.1: down")
        }
        other => panic!("unexpected action {other:?}"),
    }
}

#[test]
fn discovery_needs_a_client() {
    let mut state = discover_on(DiscoveryBindFailurePolicy::Skip, 1);
    match state.bound(Some("in use".to_string())) {
        DiscoveryAction::Fail(message) => assert_eq!(
            message,
            "discovery did not bind on any interface; check BACnet port conflicts and interface selection"
        ),
        other => panic!("unexpected action {other:?}"),
    }
}

#[test]
fn discovery_goes_on_where_no_request_was_sent() {
    let mut state = discover_on(DiscoveryBindFailurePolicy::Skip, 1);
    let _ = state.bound(None);
    assert!(matches!(state.pass_failed("a"), DiscoveryAction::Broadcast));
    assert!(matches!(state.pass_failed("b"), DiscoveryAction::Broadcast));
    assert!(matches!(state.pass_failed("c"), DiscoveryAction::Stop { checked: false }));
    assert!(matches!(state.stopped(Some("x".to_string())), DiscoveryAction::Finish));
    assert_eq!(state.outcome().warnings[2], "Who-Is pass 3 failed on 10.0.0.1: c");

    let mut state = discover_on(DiscoveryBindFailurePolicy::Skip, 1);
    let _ = state.bound(None);
    let _ = state.heard(Vec::new());
    let _ = state.heard(Vec::new());
    assert!(matches!(state.heard(Vec::new()), DiscoveryAction::Stop { checked: true }));
    assert!(matches!(state.stopped(Some("stuck".to_string())), DiscoveryAction::Fail(_)));
}

#[test]
fn refresh_asks_all_then_the_missing() {
    let mut state = DeviceRefresh::start(3000, &[30, 10, 10, 20]);
    assert!(matches!(state.first(), RefreshAction::Broadcast { wait_ms: 3000 }));
    assert!(matches!(state.sent(), RefreshAction::Lookup));
    assert_eq!(state.requested, vec![10, 20, 30]);
    let action = state.looked_up(&vec![true, false, false]);
    assert!(matches!(action, RefreshAction::Targeted { low: 20, high: 30, wait_ms: 1000 }));
    assert!(matches!(state.sent(), RefreshAction::Lookup));
    let action = state.looked_up(&vec![true, true, false]);
    assert!(matches!(action, RefreshAction::Targeted { low: 30, high: 30, .. }));
    assert!(matches!(state.sent(), RefreshAction::Lookup));
    assert!(matches!(state.looked_up(&vec![true, true, false]), RefreshAction::Finish));
    let outcome = state.outcome();
    assert_eq!(outcome.resolved, vec![10, 20]);
    assert_eq!(outcome.unresolved, vec![30]);
}

#[test]
fn refresh_of_nothing_is_done() {
    let state = DeviceRefresh::start(3000, &[]);
    assert!(matches!(state.first(), RefreshAction::Finish));
    assert!(state.outcome().resolved.is_empty());
    let outcome = partition_refresh_outcome(&[1, 2, 3], &[2, 9]);
    assert_eq!((outcome.resolved, outcome.unresolved), (vec![1, 3], vec![2]));
}

#[test]
fn unresolved_devices_are_listed_up_to_ten() {
    assert_eq!(
        format_unresolved_warning(&[5, 7]),
        "2 device(s) unresolved (not in I-Am cache): [5, 7]"
    );
    let many = (1..=11).collect::<Vec<u32>>();
    assert_eq!(
        format_unresolved_warning(&many),
        "11 device(s) unresolved (not in I-Am cache); first 10: [1, 2, 3, 4, 5, 6, 7, 8, 9, 10]"
    );
}

#[test]
fn polls_are_planned_by_device() {
    let mut disabled = point_on(1, 4);
    disabled.enabled = false;
    let mut unknown = point_on(1, 5);
    unknown.object_type = "thing".to_string();
    let plan =
        plan_poll(&[point_on(2, 1), point_on(1, 2), disabled, point_on(2, 3), unknown.clone()]);
    let mut groups = plan
        .groups
        .iter()
        .map(|group| {
            let instances =
                group.requests.iter().map(|r| r.point.object_instance).collect::<Vec<_>>();
            (group.device_instance, instances)
        })
        .collect::<Vec<_>>();
    groups.sort();
    assert_eq!(groups, vec![(1, vec![2]), (2, vec![1, 3])]);
    assert_eq!(
        plan.failures,
        vec![PointFailure {
            point: unknown,
            error: "unknown BACnet object type 'thing'".to_string()
        }]
    );
}

fn group_of(count: u32) -> GroupPoll {
    let points = (1..=count).map(|instance| point_on(100, instance)).collect::<Vec<_>>();
    let mut plan = plan_poll(&points);
    GroupPoll::start(plan.groups.remove(0))
}

fn reply_for(state: &GroupPoll, place: usize, value: Option<Vec<u8>>) -> ReadResult {
    ReadResult {
        object_identifier: state.requests[place].object_identifier,
        property_identifier: state.requests[place].property_identifier,
        value,
    }
}

#[test]
fn one_request_answers_a_whole_group() {
    let mqtt = MqttConfig::default();
    let mut state = group_of(2);
    assert!(matches!(state.first(false), GroupAction::ReadMultiple));
    let reply = vec![
        reply_for(&state, 1, Some(vec![0x21, 7])),
        reply_for(&state, 0, Some(REAL_72.to_vec())),
    ];
    assert!(matches!(state.multiple_read(&mqtt, Ok(reply), false), GroupAction::Finish));
    assert_eq!(state.result.warning, None);
    assert_eq!(state.result.samples.len(), 2);
    assert_eq!(state.result.samples[0].point.object_instance, 2);
    assert_eq!(
        state.result.samples[0].value,
        TelemetryValue::Number(Numeric::Unsigned(7))
    );
    assert_eq!(state.result.samples[1].topic, "Netix/Site/device_100/analog_input/1/present_value");
}

#[test]
fn unusable_replies_are_refused() {
    let mqtt = MqttConfig::default();
    let state = group_of(2);
    let partial = vec![reply_for(&state, 0, Some(REAL_72.to_vec())), reply_for(&state, 1, None)];
    assert_eq!(
        rpm_samples(&mqtt, &state.requests, &partial).unwrap_err(),
        "RPM returned 1 of 2 requested properties"
    );
    let broken = vec![reply_for(&state, 0, Some(vec![0x44]))];
    let error = rpm_samples(&mqtt, &state.requests, &broken).unwrap_err();
    assert!(error.starts_with("failed to decode analog_input 1 present_value"), "{error}");
}

#[test]
fn the_fallback_reads_one_by_one() {
    let mqtt = MqttConfig::default();
    let mut state = group_of(3);
    let action = state.multiple_read(&mqtt, Err("timeout".to_string()), false);
    assert!(matches!(action, GroupAction::ReadOne(0)));
    let action = state.single_read(&mqtt, Ok(REAL_72.to_vec()), false);
    assert!(matches!(action, GroupAction::ReadOne(1)));
    let action = state.single_read(&mqtt, Err("no answer".to_string()), false);
    assert!(matches!(action, GroupAction::ReadOne(2)));
    let action = state.single_read(&mqtt, Ok(Vec::new()), false);
    assert!(matches!(action, GroupAction::Finish));
    assert_eq!(
        state.result.warning.as_deref(),
        Some("RPM failed for device 100; used fallback: timeout")
    );
    assert_eq!(state.result.samples.len(), 1);
    assert_eq!(state.result.failures.len(), 2);
    assert_eq!(state.result.failures[0].error, "no answer");
    assert_eq!(state.result.failures[1].error, "empty BACnet value");
}

#[test]
fn cancelling_stops_between_reads() {
    let mqtt = MqttConfig::default();
    let state = group_of(2);
    assert!(matches!(state.first(true), GroupAction::Finish));
    let mut state = group_of(2);
    let action = state.multiple_read(&mqtt, Err("x".to_string()), true);
    assert!(matches!(action, GroupAction::Finish));
    let mut state = group_of(2);
    let _ = state.multiple_read(&mqtt, Err("x".to_string()), false);
    let action = state.single_read(&mqtt, Ok(REAL_72.to_vec()), true);
    assert!(matches!(action, GroupAction::Finish));
    assert_eq!(state.result.samples.len(), 1);
}

#[test]
fn groups_are_put_together() {
    let mqtt = MqttConfig::default();
    let mut first = group_of(1);
    let reply = vec![reply_for(&first, 0, Some(REAL_72.to_vec()))];
    let _ = first.multiple_read(&mqtt, Ok(reply), false);
    let mut second = group_of(1);
    let _ = second.multiple_read(&mqtt, Err("x".to_string()), false);
    let _ = second.single_read(&mqtt, Err("y".to_string()), false);
    let failure = PointFailure { point: point_on(3, 1), error: "z".to_string() };
    let outcome = collate_poll(vec![failure], vec![first.result, second.result]);
    assert_eq!(outcome.samples.len(), 1);
    let errors = outcome.failures.iter().map(|f| f.error.as_str()).collect::<Vec<_>>();
    assert_eq!(errors, vec!["z", "y"]);
    assert_eq!(outcome.warnings.len(), 1);
}

#[test]
fn points_of_missing_devices_are_skipped_and_reported() {
    let mut disabled = point_on(3, 1);
    disabled.enabled = false;
    let points = [point_on(2, 1), disabled, point_on(1, 1), point_on(2, 2)];
    let enabled = enabled_points(&points);
    assert_eq!(enabled.len(), 3);
    assert_eq!(device_instances(&enabled), vec![2, 1, 2]);
    let (pollable, skipped) = split_pollable(&enabled, &[2]);
    assert_eq!((pollable.len(), skipped.len()), (1, 2));
    let outcome = PollOutcome {
        samples: Vec::new(),
        failures: Vec::new(),
        warnings: vec!["w".to_string()],
    };
    let outcome = complete_poll(outcome, &skipped, &[2]);
    assert_eq!(outcome.failures.len(), 2);
    assert_eq!(outcome.failures[0].error, "device 2 not in I-Am cache");
    assert_eq!(
        outcome.warnings,
        vec!["1 device(s) unresolved (not in I-Am cache): [2]".to_string(), "w".to_string()]
    );
}

/// The application tag of an object identifier, and its number.
fn object_entry(object_type: u32, instance: u32) -> Vec<u8> {
    let mut bytes = vec![0xc4];
    bytes.extend(((object_type << 22) | instance).to_be_bytes());
    bytes
}

fn text(value: &str) -> Option<TelemetryValue> {
    Some(TelemetryValue::Text(value.to_string()))
}

#[test]
fn scans_read_the_object_list_entry_by_entry() {
    let (mut scan, action) = ObjectScan::start(100, 512);
    assert!(matches!(action, ScanAction::ReadCount));
    assert!(matches!(scan.count_read(Ok(vec![0x21, 3])), ScanAction::ReadEntry(1)));
    // The device itself is no object of interest.
    let action = scan.entry_read(Some(object_entry(DEVICE_TYPE, 100)));
    assert!(matches!(action, ScanAction::ReadEntry(2)));
    let action = scan.entry_read(Some(object_entry(0, 5)));
    assert!(
        matches!(action, ScanAction::ReadProperty(id, property)
            if id.instance == 5 && property.to_raw() == OBJECT_NAME)
    );
    let action = scan.property_read(text("Room"), "");
    assert!(matches!(action, ScanAction::ReadProperty(_, p) if p.to_raw() == DESCRIPTION));
    let action = scan.property_read(text(" "), "");
    assert!(matches!(action, ScanAction::ReadProperty(_, p) if p.to_raw() == UNITS));
    let units = Some(TelemetryValue::Number(Numeric::Unsigned(62)));
    let action = scan.property_read(units, "62");
    assert!(matches!(action, ScanAction::ReadProperty(_, p) if p.to_raw() == PRESENT_VALUE));
    assert!(matches!(scan.property_read(text(" "), ""), ScanAction::ReadEntry(3)));
    assert!(matches!(scan.entry_read(None), ScanAction::Finish));
    assert_eq!(
        scan.objects,
        vec![DeviceObject {
            device_instance: 100,
            object_type: "analog_input".to_string(),
            object_instance: 5,
            object_name: Some("Room".to_string()),
            description: None,
            units: Some("62".to_string()),
            present_value: text(" "),
        }]
    );
}

#[test]
fn scans_end_at_the_limit_or_fail() {
    let (mut scan, _) = ObjectScan::start(100, 1);
    assert!(matches!(scan.count_read(Ok(vec![0x21, 9])), ScanAction::ReadEntry(1)));
    assert!(matches!(scan.entry_read(Some(vec![0x00])), ScanAction::Finish));

    let (mut scan, _) = ObjectScan::start(100, 512);
    assert!(matches!(scan.count_read(Ok(vec![0x20])), ScanAction::Finish));

    let (mut scan, _) = ObjectScan::start(100, 512);
    match scan.count_read(Err("timeout".to_string())) {
        ScanAction::Fail(message) => {
            assert_eq!(message, "failed to read objectList array length: timeout")
        }
        other => panic!("unexpected action {other:?}"),
    }
    let (mut scan, _) = ObjectScan::start(100, 512);
    match scan.count_read(Ok(Vec::new())) {
        ScanAction::Fail(message) => {
            assert_eq!(message, "failed to decode objectList length: empty BACnet value")
        }
        other => panic!("unexpected action {other:?}"),
    }
    let (_, action) = ObjectScan::start(0x40_0000, 512);
    assert!(matches!(action, ScanAction::Fail(_)));
}

#[test]
fn a_whole_poll_accounts_for_every_point() {
    let mqtt = MqttConfig::default();
    let mut unknown = point_on(1, 9);
    unknown.object_type = "thing".to_string();
    let mut disabled = point_on(1, 8);
    disabled.enabled = false;
    let points = vec![point_on(1, 1), point_on(2, 1), point_on(2, 2), unknown, disabled];
    let plan = plan_poll(&points);
    let mut results = Vec::new();
    for group in plan.groups {
        let mut state = GroupPoll::start(group);
        let mut action = state.first(false);
        loop {
            action = match action {
                GroupAction::ReadMultiple if state.device_instance == 1 => {
                    let reply = vec![reply_for(&state, 0, Some(REAL_72.to_vec()))];
                    state.multiple_read(&mqtt, Ok(reply), false)
                }
                GroupAction::ReadMultiple => {
                    state.multiple_read(&mqtt, Err("too large".to_string()), false)
                }
                GroupAction::ReadOne(0) => state.single_read(&mqtt, Ok(REAL_72.to_vec()), false),
                GroupAction::ReadOne(_) => {
                    state.single_read(&mqtt, Err("timeout".to_string()), false)
                }
                GroupAction::Finish => break,
            };
        }
        results.insert(0, state.result);
    }
    let outcome = collate_poll(plan.failures, results);
    let place = |point: &PointConfig| points.iter().position(|other| other == point);
    let mut sampled = outcome.samples.iter().map(|s| place(&s.point)).collect::<Vec<_>>();
    let mut failed = outcome.failures.iter().map(|f| place(&f.point)).collect::<Vec<_>>();
    sampled.sort();
    failed.sort();
    assert_eq!(sampled, vec![Some(0), Some(1)]);
    assert_eq!(failed, vec![Some(2), Some(3)]);
    assert!(outcome.samples.iter().all(|sample| sample.timestamp_ms > 1_577_836_800_000));
}
