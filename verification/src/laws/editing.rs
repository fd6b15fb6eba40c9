//! What the operator types, and what is made of it.

use vstd::prelude::*;

use crate::address::address_value;
use crate::config::{config_fault, AppConfigView};
use crate::model::PointConfigView;
use crate::numerals::{decimal, unsigned_value};
use crate::settings::{
    draft_of, edited_point, editor_of, settings_applied, PointEditorView, SettingsDraftView,
};
use crate::text::{all_space, lemma_blank_is_space, trimmed};

verus! {

/// Whether a text, without the white space around it, is a number of at most so much.
pub open spec fn is_number(text: Seq<char>, number: int, most: int) -> bool {
    0 <= number <= most && unsigned_value(trimmed(text), most as nat) == Some(number as nat)
}

/// Whether a text is taken over: without the white space around it, or as none where it is blank.
pub open spec fn is_taken(text: Seq<char>, taken: Option<Seq<char>>) -> bool {
    if all_space(text) {
        taken is None
    } else {
        taken == Some(trimmed(text))
    }
}

proof fn lemma_taken(text: Seq<char>)
    ensures
        is_taken(text, crate::text::non_blank_text(text)),
{
    lemma_blank_is_space(text);
}

/// Settings that are accepted are taken over field by field: each number is the one that was typed in
/// its own field, each text is without the white space around it, and what may be missing is missing
/// where its field is blank. What is not among the settings stays as it was.
pub proof fn law_settings_are_taken_over(draft: SettingsDraftView, config: AppConfigView)
    requires
        settings_applied(draft, config).1 is None,
    ensures
        ({
            let after = settings_applied(draft, config).0;
            let bacnet = after.bacnet;
            let mqtt = after.mqtt;
            &&& config_fault(after) is None
            &&& after.version == config.version
            &&& after.points == config.points
            &&& after.ui == config.ui
            &&& bacnet.selected_interface == config.bacnet.selected_interface
            &&& bacnet.discover_all_interfaces == config.bacnet.discover_all_interfaces
            &&& is_number(draft.bacnet_port, bacnet.port as int, 65535)
            &&& address_value(trimmed(draft.broadcast_address)) == Some(bacnet.broadcast_address)
            &&& is_number(
                draft.discovery_window_ms,
                bacnet.discovery_window_ms as int,
                0xffff_ffff_ffff_ffff,
            )
            &&& is_number(
                draft.apdu_timeout_ms,
                bacnet.apdu_timeout_ms as int,
                0xffff_ffff_ffff_ffff,
            )
            &&& is_number(
                draft.poll_concurrency,
                bacnet.poll_concurrency as int,
                0xffff_ffff_ffff_ffff,
            )
            &&& is_number(
                draft.device_backoff_max_secs,
                bacnet.device_backoff_max_secs as int,
                0xffff_ffff_ffff_ffff,
            )
            &&& bacnet.discovery_bind_failure_policy == draft.discovery_bind_failure_policy
            &&& draft.bbmd_enabled == (bacnet.bbmd is Some)
            &&& draft.bbmd_enabled ==> {
                let bbmd = bacnet.bbmd->Some_0;
                &&& address_value(trimmed(draft.bbmd_address)) == Some(bbmd.address)
                &&& is_number(draft.bbmd_port, bbmd.port as int, 65535)
                &&& is_number(draft.bbmd_ttl, bbmd.ttl_secs as int, 65535)
            }
            &&& mqtt.host == trimmed(draft.mqtt_host)
            &&& is_number(draft.mqtt_port, mqtt.port as int, 65535)
            &&& mqtt.use_tls == draft.mqtt_use_tls
            &&& mqtt.client_id == trimmed(draft.mqtt_client_id)
            &&& mqtt.topic_prefix == trimmed(draft.mqtt_topic_prefix)
            &&& mqtt.health_topic == trimmed(draft.mqtt_health_topic)
            &&& is_taken(draft.mqtt_username, mqtt.username)
            &&& is_taken(draft.mqtt_password, mqtt.password)
            &&& is_taken(draft.mqtt_ca_cert_path, mqtt.ca_cert_path)
            &&& is_taken(draft.mqtt_client_cert_path, mqtt.client_cert_path)
            &&& is_taken(draft.mqtt_client_key_path, mqtt.client_key_path)
            &&& is_taken(draft.mqtt_client_key_passphrase, mqtt.client_key_passphrase)
            &&& mqtt.remember_secrets == draft.mqtt_remember_secrets
            &&& mqtt.retain == draft.mqtt_retain
            &&& is_number(
                draft.mqtt_keep_alive_secs,
                mqtt.keep_alive_secs as int,
                0xffff_ffff_ffff_ffff,
            )
        }),
{
    reveal(settings_applied);
    lemma_taken(draft.mqtt_username);
    lemma_taken(draft.mqtt_password);
    lemma_taken(draft.mqtt_ca_cert_path);
    lemma_taken(draft.mqtt_client_cert_path);
    lemma_taken(draft.mqtt_client_key_path);
    lemma_taken(draft.mqtt_client_key_passphrase);
}

/// Settings are refused for the first field that cannot be read, and the message names that field.
pub proof fn law_unreadable_settings_are_refused(draft: SettingsDraftView, config: AppConfigView)
    ensures
        ({
            let fault = settings_applied(draft, config).1;
            let port = unsigned_value(trimmed(draft.bacnet_port), 65535);
            let broadcast = address_value(trimmed(draft.broadcast_address));
            let window = unsigned_value(trimmed(draft.discovery_window_ms), 0xffff_ffff_ffff_ffff);
            let timeout = unsigned_value(trimmed(draft.apdu_timeout_ms), 0xffff_ffff_ffff_ffff);
            &&& port is None ==> fault == Some(
                "BACnet port"@ + " must be a number between 0 and 65535"@,
            )
            &&& port is Some && broadcast is None ==> fault == Some(
                "broadcast address"@ + " must be an IPv4 address"@,
            )
            &&& port is Some && broadcast is Some && window is None ==> fault == Some(
                "discovery window"@ + " must be a non-negative number"@,
            )
            &&& port is Some && broadcast is Some && window is Some && timeout is None ==> fault
                == Some("APDU timeout"@ + " must be a non-negative number"@)
            &&& unsigned_value(trimmed(draft.poll_concurrency), 0xffff_ffff_ffff_ffff) is None
                ==> fault is Some
            &&& unsigned_value(trimmed(draft.device_backoff_max_secs), 0xffff_ffff_ffff_ffff)
                is None ==> fault is Some
            &&& unsigned_value(trimmed(draft.mqtt_port), 65535) is None ==> fault is Some
            &&& unsigned_value(trimmed(draft.mqtt_keep_alive_secs), 0xffff_ffff_ffff_ffff) is None
                ==> fault is Some
            &&& draft.bbmd_enabled && (address_value(trimmed(draft.bbmd_address)) is None
                || unsigned_value(trimmed(draft.bbmd_port), 65535) is None || unsigned_value(
                trimmed(draft.bbmd_ttl),
                65535,
            ) is None) ==> fault is Some
        }),
{
    reveal(settings_applied);
}

/// Settings that can be read are accepted where the rules for a configuration accept them.
pub proof fn law_readable_settings_are_accepted(draft: SettingsDraftView, config: AppConfigView)
    requires
        unsigned_value(trimmed(draft.bacnet_port), 65535) is Some,
        address_value(trimmed(draft.broadcast_address)) is Some,
        unsigned_value(trimmed(draft.discovery_window_ms), 0xffff_ffff_ffff_ffff) is Some,
        unsigned_value(trimmed(draft.apdu_timeout_ms), 0xffff_ffff_ffff_ffff) is Some,
        unsigned_value(trimmed(draft.poll_concurrency), 0xffff_ffff_ffff_ffff) is Some,
        unsigned_value(trimmed(draft.poll_concurrency), 0xffff_ffff_ffff_ffff)->Some_0
            <= usize::MAX,
        unsigned_value(trimmed(draft.device_backoff_max_secs), 0xffff_ffff_ffff_ffff) is Some,
        draft.bbmd_enabled ==> address_value(trimmed(draft.bbmd_address)) is Some
            && unsigned_value(trimmed(draft.bbmd_port), 65535) is Some && unsigned_value(
            trimmed(draft.bbmd_ttl),
            65535,
        ) is Some,
        unsigned_value(trimmed(draft.mqtt_port), 65535) is Some,
        unsigned_value(trimmed(draft.mqtt_keep_alive_secs), 0xffff_ffff_ffff_ffff) is Some,
    ensures
        settings_applied(draft, config).1 == config_fault(settings_applied(draft, config).0),
{
    reveal(settings_applied);
}

/// The settings are shown field by field, each as the configuration has it.
pub proof fn law_settings_are_shown(config: AppConfigView)
    ensures
        ({
            let draft = draft_of(config);
            let (bacnet, mqtt) = (config.bacnet, config.mqtt);
            &&& draft.bacnet_port == decimal(bacnet.port as nat)
            &&& draft.discovery_window_ms == decimal(bacnet.discovery_window_ms as nat)
            &&& draft.apdu_timeout_ms == decimal(bacnet.apdu_timeout_ms as nat)
            &&& draft.poll_concurrency == decimal(bacnet.poll_concurrency as nat)
            &&& draft.device_backoff_max_secs == decimal(bacnet.device_backoff_max_secs as nat)
            &&& draft.discovery_bind_failure_policy == bacnet.discovery_bind_failure_policy
            &&& draft.bbmd_enabled == (bacnet.bbmd is Some)
            &&& bacnet.bbmd is None ==> draft.bbmd_address.len() == 0 && draft.bbmd_port == "47808"@
                && draft.bbmd_ttl == "300"@
            &&& bacnet.bbmd is Some ==> draft.bbmd_port == decimal(
                bacnet.bbmd->Some_0.port as nat,
            ) && draft.bbmd_ttl == decimal(bacnet.bbmd->Some_0.ttl_secs as nat)
            &&& draft.mqtt_host == mqtt.host
            &&& draft.mqtt_port == decimal(mqtt.port as nat)
            &&& draft.mqtt_use_tls == mqtt.use_tls
            &&& draft.mqtt_client_id == mqtt.client_id
            &&& draft.mqtt_topic_prefix == mqtt.topic_prefix
            &&& draft.mqtt_health_topic == mqtt.health_topic
            &&& mqtt.username is Some ==> draft.mqtt_username == mqtt.username->Some_0
            &&& mqtt.username is None ==> draft.mqtt_username.len() == 0
            &&& mqtt.password is Some ==> draft.mqtt_password == mqtt.password->Some_0
            &&& mqtt.password is None ==> draft.mqtt_password.len() == 0
            &&& mqtt.ca_cert_path is Some ==> draft.mqtt_ca_cert_path == mqtt.ca_cert_path->Some_0
            &&& mqtt.ca_cert_path is None ==> draft.mqtt_ca_cert_path.len() == 0
            &&& mqtt.client_cert_path is Some ==> draft.mqtt_client_cert_path
                == mqtt.client_cert_path->Some_0
            &&& mqtt.client_cert_path is None ==> draft.mqtt_client_cert_path.len() == 0
            &&& mqtt.client_key_path is Some ==> draft.mqtt_client_key_path
                == mqtt.client_key_path->Some_0
            &&& mqtt.client_key_path is None ==> draft.mqtt_client_key_path.len() == 0
            &&& mqtt.client_key_passphrase is Some ==> draft.mqtt_client_key_passphrase
                == mqtt.client_key_passphrase->Some_0
            &&& mqtt.client_key_passphrase is None ==> draft.mqtt_client_key_passphrase.len() == 0
            &&& draft.mqtt_remember_secrets == mqtt.remember_secrets
            &&& draft.mqtt_retain == mqtt.retain
            &&& draft.mqtt_keep_alive_secs == decimal(mqtt.keep_alive_secs as nat)
        }),
{
    reveal(draft_of);
}

/// A point is made of what was typed in its own fields, where its three numbers can be read; else the
/// first that cannot is named.
pub proof fn law_points_are_made_of_their_fields(editor: PointEditorView)
    ensures
        ({
            let device = unsigned_value(trimmed(editor.device_instance), 0xffff_ffff);
            let object = unsigned_value(trimmed(editor.object_instance), 0xffff_ffff);
            let interval = unsigned_value(
                trimmed(editor.poll_interval_secs),
                0xffff_ffff_ffff_ffff,
            );
            let result = edited_point(editor);
            let point = result->Ok_0;
            &&& result is Ok <==> device is Some && object is Some && interval is Some
            &&& result is Ok ==> {
                &&& point.enabled == editor.enabled
                &&& point.device_instance == device->Some_0
                &&& point.object_instance == object->Some_0
                &&& point.poll_interval_secs == interval->Some_0
                &&& point.device_label == trimmed(editor.device_label)
                &&& point.object_type == trimmed(editor.object_type)
                &&& point.property == trimmed(editor.property)
                &&& point.tag_path == trimmed(editor.tag_path)
            }
            &&& device is None ==> result->Err_0 == "device instance"@
                + " must be a non-negative number"@
            &&& device is Some && object is None ==> result->Err_0 == "object instance"@
                + " must be a non-negative number"@
            &&& device is Some && object is Some && interval is None ==> result->Err_0
                == "poll interval"@ + " must be a non-negative number"@
        }),
{
    reveal(edited_point);
}

/// A point is shown field by field, with no device where it has none.
pub proof fn law_points_are_shown(point: PointConfigView)
    ensures
        ({
            let editor = editor_of(point);
            &&& editor.enabled == point.enabled
            &&& point.device_instance > 0 ==> editor.device_instance == decimal(
                point.device_instance as nat,
            )
            &&& point.device_instance == 0 ==> editor.device_instance.len() == 0
            &&& editor.device_label == point.device_label
            &&& editor.object_type == point.object_type
            &&& editor.object_instance == decimal(point.object_instance as nat)
            &&& editor.property == point.property
            &&& editor.tag_path == point.tag_path
            &&& editor.poll_interval_secs == decimal(point.poll_interval_secs as nat)
        }),
{
    reveal(editor_of);
}

} // verus!
