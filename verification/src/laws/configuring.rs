//! Which configurations are accepted, and what a configuration is at the start.

use vstd::prelude::*;

use crate::address::Ipv4Addr;
use crate::config::{
    config_fault, default_config, law_valid_points, points_fault, saved_form, started_config,
    AppConfigView, ConfigLoad, DiscoveryBindFailurePolicy, UiTheme,
};
use crate::model::{default_point, PointConfigView};
use crate::numerals::decimal;
use crate::text::{all_space, lemma_blank_is_space};

verus! {

/// A configuration is accepted exactly where both ports are given, both waiting times are at least a
/// quarter of a second, the host and the prefix are not blank, and each enabled point has a device
/// and an interval.
pub proof fn law_accepted_configurations(config: AppConfigView)
    ensures
        config_fault(config) is None <==> {
            &&& config.bacnet.port > 0
            &&& config.bacnet.discovery_window_ms >= 250
            &&& config.bacnet.apdu_timeout_ms >= 250
            &&& !all_space(config.mqtt.host)
            &&& config.mqtt.port > 0
            &&& !all_space(config.mqtt.topic_prefix)
            &&& forall|i: int|
                #![trigger config.points[i]]
                0 <= i < config.points.len() && config.points[i].enabled
                    ==> config.points[i].device_instance > 0 && config.points[i].poll_interval_secs
                    > 0
        },
{
    lemma_blank_is_space(config.mqtt.host);
    lemma_blank_is_space(config.mqtt.topic_prefix);
    law_valid_points(config.points);
}

/// What is said of a configuration that is not accepted: of several faults, the first is named.
pub proof fn law_faults_are_named(config: AppConfigView)
    ensures
        ({
            let fault = config_fault(config);
            let bacnet = config.bacnet.port > 0 && config.bacnet.discovery_window_ms >= 250
                && config.bacnet.apdu_timeout_ms >= 250;
            let host = bacnet && !all_space(config.mqtt.host);
            &&& config.bacnet.port == 0 ==> fault == Some("BACnet port cannot be 0 for discovery"@)
            &&& config.bacnet.port > 0 && config.bacnet.discovery_window_ms < 250 ==> fault == Some(
                "BACnet discovery window must be at least 250 ms"@,
            )
            &&& config.bacnet.port > 0 && config.bacnet.discovery_window_ms >= 250
                && config.bacnet.apdu_timeout_ms < 250 ==> fault == Some(
                "BACnet APDU timeout must be at least 250 ms"@,
            )
            &&& bacnet && all_space(config.mqtt.host) ==> fault == Some(
                "MQTT host cannot be empty"@,
            )
            &&& host && config.mqtt.port == 0 ==> fault == Some("MQTT port cannot be 0"@)
            &&& host && config.mqtt.port > 0 && all_space(config.mqtt.topic_prefix) ==> fault
                == Some("MQTT topic prefix cannot be empty"@)
            &&& host && config.mqtt.port > 0 && !all_space(config.mqtt.topic_prefix) ==> fault
                == points_fault(config.points)
        }),
{
    lemma_blank_is_space(config.mqtt.host);
    lemma_blank_is_space(config.mqtt.topic_prefix);
}

/// Of several points with a fault, the first is named, by its object and its property, and of its
/// faults the missing device comes first.
pub proof fn law_faulty_points_are_named(points: Seq<PointConfigView>, at: int)
    requires
        0 <= at < points.len(),
        points[at].enabled,
        points[at].device_instance == 0 || points[at].poll_interval_secs == 0,
        forall|i: int|
            #![trigger points[i]]
            0 <= i < at && points[i].enabled ==> points[i].device_instance > 0
                && points[i].poll_interval_secs > 0,
    ensures
        ({
            let point = points[at];
            let name = point.object_type + " "@ + decimal(point.object_instance as nat) + " "@
                + point.property;
            points_fault(points) == Some(
                if point.device_instance == 0 {
                    name + " has no BACnet device instance"@
                } else {
                    name + " poll interval cannot be 0"@
                },
            )
        }),
    decreases points.len(),
{
    let before = points.drop_last();
    if at < before.len() {
        assert forall|i: int|
            #![trigger before[i]]
            0 <= i < at && before[i].enabled implies before[i].device_instance > 0
            && before[i].poll_interval_secs > 0 by {
            assert(points[i] == before[i]);
        }
        assert(before[at] == points[at]);
        law_faulty_points_are_named(before, at);
    } else {
        assert forall|i: int|
            #![trigger before[i]]
            0 <= i < before.len() && before[i].enabled implies before[i].device_instance != 0
            && before[i].poll_interval_secs != 0 by {
            assert(points[i] == before[i]);
        }
        law_valid_points(before);
        assert(points.last() == points[at]);
    }
}

/// What is saved of a configuration: all of it, but for the password and the passphrase where they
/// are not to be remembered.
pub proof fn law_what_is_saved(config: AppConfigView)
    ensures
        ({
            let saved = saved_form(config);
            &&& saved.version == config.version
            &&& saved.bacnet == config.bacnet
            &&& saved.points == config.points
            &&& saved.ui == config.ui
            &&& saved.mqtt.host == config.mqtt.host
            &&& saved.mqtt.port == config.mqtt.port
            &&& saved.mqtt.use_tls == config.mqtt.use_tls
            &&& saved.mqtt.ca_cert_path == config.mqtt.ca_cert_path
            &&& saved.mqtt.client_cert_path == config.mqtt.client_cert_path
            &&& saved.mqtt.client_key_path == config.mqtt.client_key_path
            &&& saved.mqtt.client_id == config.mqtt.client_id
            &&& saved.mqtt.topic_prefix == config.mqtt.topic_prefix
            &&& saved.mqtt.health_topic == config.mqtt.health_topic
            &&& saved.mqtt.username == config.mqtt.username
            &&& saved.mqtt.remember_secrets == config.mqtt.remember_secrets
            &&& saved.mqtt.retain == config.mqtt.retain
            &&& saved.mqtt.keep_alive_secs == config.mqtt.keep_alive_secs
            &&& saved.mqtt.password == if config.mqtt.remember_secrets {
                config.mqtt.password
            } else {
                None
            }
            &&& saved.mqtt.client_key_passphrase == if config.mqtt.remember_secrets {
                config.mqtt.client_key_passphrase
            } else {
                None
            }
        }),
{
}

/// A configuration that was loaded is used as it is, under the current version; where none could be
/// loaded, the defaults are used.
pub proof fn law_configuration_at_the_start(load: ConfigLoad)
    ensures
        started_config(load).version == 1,
        match load {
            ConfigLoad::Loaded(config) => {
                &&& started_config(load).bacnet == config@.bacnet
                &&& started_config(load).mqtt == config@.mqtt
                &&& started_config(load).points == config@.points
                &&& started_config(load).ui == config@.ui
            },
            _ => started_config(load) == default_config(),
        },
{
}

/// The defaults: the BACnet port, all interfaces, the waiting times, eight reads at a time, pauses of
/// at most five minutes; a broker on this machine over TLS, nothing remembered and nothing retained;
/// no points. A new point is read every ten seconds.
pub proof fn law_defaults()
    ensures
        ({
            let config = default_config();
            let bacnet = config.bacnet;
            let mqtt = config.mqtt;
            &&& config.version == 1
            &&& config.points.len() == 0
            &&& config.ui.theme == UiTheme::Auto
            &&& bacnet.selected_interface is None
            &&& bacnet.discover_all_interfaces
            &&& bacnet.port == 47808
            &&& bacnet.broadcast_address == (Ipv4Addr { a: 255, b: 255, c: 255, d: 255 })
            &&& bacnet.discovery_window_ms == 3000
            &&& bacnet.apdu_timeout_ms == 2000
            &&& bacnet.bbmd is None
            &&& bacnet.poll_concurrency == 8
            &&& bacnet.device_backoff_max_secs == 300
            &&& bacnet.discovery_bind_failure_policy == DiscoveryBindFailurePolicy::Skip
            &&& mqtt.host == "localhost"@
            &&& mqtt.port == 8883
            &&& mqtt.use_tls
            &&& mqtt.ca_cert_path is None
            &&& mqtt.client_cert_path is None
            &&& mqtt.client_key_path is None
            &&& mqtt.client_key_passphrase is None
            &&& mqtt.client_id == "netix-bacnet-republisher"@
            &&& mqtt.topic_prefix == "Netix/Site"@
            &&& mqtt.health_topic == "Netix/Site/_health/bacnet-republisher"@
            &&& mqtt.username is None
            &&& mqtt.password is None
            &&& !mqtt.remember_secrets
            &&& !mqtt.retain
            &&& mqtt.keep_alive_secs == 30
        }),
        ({
            let point = default_point();
            &&& point.enabled
            &&& point.device_instance == 0
            &&& point.device_label.len() == 0
            &&& point.object_type == "analog_input"@
            &&& point.object_instance == 0
            &&& point.property == "present_value"@
            &&& point.tag_path.len() == 0
            &&& point.poll_interval_secs == 10
        }),
{
}

} // verus!
