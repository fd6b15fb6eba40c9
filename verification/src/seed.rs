//! The points of a simulated plant: an air handler, a terminal unit and a power meter.

use vstd::prelude::*;

use crate::address::address_text;
use crate::config::{
    config_fault, default_config, law_default_config_is_valid, law_valid_points, points_fault,
    AppConfig, AppConfigView, BacnetConfig, DiscoveryBindFailurePolicy, MqttConfigView,
};
use crate::model::{
    views, NetworkInterface, NetworkInterfaceView, PointConfig, PointConfigView,
};
use crate::network::{begins_with, starts_with};
use crate::text::chars_of;
use crate::worker::text3;

verus! {

/// A point that is read every ten seconds for its present value.
pub open spec fn simulator_point(
    device_instance: u32,
    device_label: Seq<char>,
    object_type: Seq<char>,
    object_instance: u32,
    tag_path: Seq<char>,
) -> PointConfigView {
    PointConfigView {
        enabled: true,
        device_instance,
        device_label,
        object_type,
        object_instance,
        property: "present_value"@,
        tag_path,
        poll_interval_secs: 10,
    }
}

/// The points of the simulated plant.
pub open spec fn simulator_point_list() -> Seq<PointConfigView> {
    seq![
        simulator_point(10700, "AHU-L-001"@, "analog_input"@, 1, "AHU-L-001/SupplyAirTemp"@),
        simulator_point(10700, "AHU-L-001"@, "analog_input"@, 2, "AHU-L-001/ReturnAirTemp"@),
        simulator_point(10700, "AHU-L-001"@, "binary_input"@, 1, "AHU-L-001/SupplyFanStatus"@),
        simulator_point(10900, "VAV-OFC-001"@, "analog_input"@, 1, "VAV-OFC-001/RoomTemp"@),
        simulator_point(10900, "VAV-OFC-001"@, "analog_output"@, 1, "VAV-OFC-001/DamperPosition"@),
        simulator_point(10600, "PLANT-MTR-001"@, "analog_input"@, 1, "PLANT-MTR-001/ActivePower"@),
        simulator_point(10600, "PLANT-MTR-001"@, "analog_input"@, 9, "PLANT-MTR-001/TotalEnergy"@),
    ]
}

fn point(
    device_instance: u32,
    device_label: &str,
    object_type: &str,
    object_instance: u32,
    tag_path: &str,
) -> (result: PointConfig)
    ensures
        result@ == simulator_point(
            device_instance,
            device_label@,
            object_type@,
            object_instance,
            tag_path@,
        ),
{
    PointConfig {
        enabled: true,
        device_instance,
        device_label: device_label.to_string(),
        object_type: object_type.to_string(),
        object_instance,
        property: "present_value".to_string(),
        tag_path: tag_path.to_string(),
        poll_interval_secs: 10,
    }
}

pub fn simulator_points() -> (points: Vec<PointConfig>)
    ensures
        views(points@) == simulator_point_list(),
{
    let points = vec![
        point(10700, "AHU-L-001", "analog_input", 1, "AHU-L-001/SupplyAirTemp"),
        point(10700, "AHU-L-001", "analog_input", 2, "AHU-L-001/ReturnAirTemp"),
        point(10700, "AHU-L-001", "binary_input", 1, "AHU-L-001/SupplyFanStatus"),
        point(10900, "VAV-OFC-001", "analog_input", 1, "VAV-OFC-001/RoomTemp"),
        point(10900, "VAV-OFC-001", "analog_output", 1, "VAV-OFC-001/DamperPosition"),
        point(10600, "PLANT-MTR-001", "analog_input", 1, "PLANT-MTR-001/ActivePower"),
        point(10600, "PLANT-MTR-001", "analog_input", 9, "PLANT-MTR-001/TotalEnergy"),
    ];
    assert(views(points@) =~= simulator_point_list());
    points
}

/// The first interface whose name begins with "bridge", by its place.
pub open spec fn first_bridge(interfaces: Seq<NetworkInterfaceView>) -> Option<int>
    decreases interfaces.len(),
{
    if interfaces.len() == 0 {
        None
    } else {
        match first_bridge(interfaces.drop_last()) {
            Some(at) => Some(at),
            None => if begins_with(interfaces.last().name, "bridge"@) {
                Some(interfaces.len() - 1)
            } else {
                None
            },
        }
    }
}

/// A configuration for the simulated plant, which is reached without TLS, through a bridge where
/// there is one.
pub open spec fn simulator_config_of(interfaces: Seq<NetworkInterfaceView>) -> AppConfigView {
    let config = default_config();
    AppConfigView {
        bacnet: BacnetConfig {
            selected_interface: match first_bridge(interfaces) {
                Some(at) => Some(interfaces[at].addr),
                None => config.bacnet.selected_interface,
            },
            discover_all_interfaces: true,
            discovery_bind_failure_policy: DiscoveryBindFailurePolicy::Skip,
            ..config.bacnet
        },
        mqtt: MqttConfigView { use_tls: false, port: 1883, ..config.mqtt },
        points: simulator_point_list(),
        ..config
    }
}

/// What is said of how the simulated plant is reached.
pub open spec fn simulator_note(interfaces: Seq<NetworkInterfaceView>) -> Option<Seq<char>> {
    match first_bridge(interfaces) {
        Some(at) => Some(
            "Set bacnet.selected_interface to "@ + address_text(interfaces[at].addr) + " ("@
                + interfaces[at].name + ") for Docker/OrbStack reachability"@,
        ),
        None => if interfaces.len() == 0 {
            None
        } else {
            Some(
                "No bridge NIC found; poll/scan will bind via first discovery interface "@
                    + address_text(interfaces[0].addr) + " ("@ + interfaces[0].name + ")"@,
            )
        },
    }
}

fn find_bridge(interfaces: &[NetworkInterface]) -> (found: Option<usize>)
    ensures
        match found {
            Some(at) => first_bridge(views(interfaces@)) == Some(at as int) && at
                < interfaces@.len(),
            None => first_bridge(views(interfaces@)) is None,
        },
{
    let ghost all = views(interfaces@);
    let mut i: usize = 0;
    while i < interfaces.len()
        invariant
            i <= interfaces@.len(),
            all == views(interfaces@),
            first_bridge(all.take(i as int)) is None,
        decreases interfaces.len() - i,
    {
        proof {
            assert(all.take(i as int + 1).drop_last() =~= all.take(i as int));
            assert(all.take(i as int + 1).last() == interfaces@[i as int]@);
        }
        if starts_with(chars_of(interfaces[i].name.as_str()).as_slice(), "bridge") {
            proof {
                lemma_first_bridge_stays(all, i as int + 1);
            }
            return Some(i);
        }
        i += 1;
    }
    assert(all.take(all.len() as int) =~= all);
    None
}

/// A bridge that was found among the first interfaces is found among all of them.
proof fn lemma_first_bridge_stays(interfaces: Seq<NetworkInterfaceView>, count: int)
    requires
        0 <= count <= interfaces.len(),
        first_bridge(interfaces.take(count)) is Some,
    ensures
        first_bridge(interfaces) == first_bridge(interfaces.take(count)),
    decreases interfaces.len() - count,
{
    if count == interfaces.len() {
        assert(interfaces.take(count) =~= interfaces);
    } else {
        assert(interfaces.take(count + 1).drop_last() =~= interfaces.take(count));
        lemma_first_bridge_stays(interfaces, count + 1);
    }
}

/// A configuration for the simulated plant, and what is said of how it is reached.
pub fn simulator_config(interfaces: &[NetworkInterface]) -> (result: (AppConfig, Option<String>))
    ensures
        result.0@ == simulator_config_of(views(interfaces@)),
        crate::text::opt_text(result.1) == simulator_note(views(interfaces@)),
{
    assert(views(interfaces@).len() == interfaces@.len());
    let mut config = AppConfig::default();
    config.bacnet.discover_all_interfaces = true;
    config.bacnet.discovery_bind_failure_policy = DiscoveryBindFailurePolicy::Skip;
    config.mqtt.use_tls = false;
    config.mqtt.port = 1883;
    config.points = simulator_points();
    let note = match find_bridge(interfaces) {
        Some(at) => {
            let preferred = &interfaces[at];
            config.bacnet.selected_interface = Some(preferred.addr);
            let mut text = text3(
                "Set bacnet.selected_interface to ",
                preferred.addr.to_text().as_str(),
                " (",
            );
            text.append(preferred.name.as_str());
            text.append(") for Docker/OrbStack reachability");
            Some(text)
        },
        None => if interfaces.len() == 0 {
            None
        } else {
            let first = &interfaces[0];
            let mut text = text3(
                "No bridge NIC found; poll/scan will bind via first discovery interface ",
                first.addr.to_text().as_str(),
                " (",
            );
            text.append(first.name.as_str());
            text.append(")");
            Some(text)
        },
    };
    (config, note)
}

/// The points of the simulated plant have no fault.
pub proof fn law_simulator_points_are_valid()
    ensures
        points_fault(simulator_point_list()) is None,
{
    law_valid_points(simulator_point_list());
}

/// The configuration for the simulated plant breaks no rule, whatever the interfaces are.
pub proof fn law_simulator_config_is_valid(interfaces: Seq<NetworkInterfaceView>)
    ensures
        config_fault(simulator_config_of(interfaces)) is None,
{
    law_default_config_is_valid();
    law_simulator_points_are_valid();
}

} // verus!
