//! What the operator edits: the settings and a point, as texts that are read back.

use vstd::prelude::*;

use crate::address::{address_text, address_value, law_address_reads_back, Ipv4Addr};
use crate::config::{
    config_fault, AppConfig, AppConfigView, BacnetConfig, BbmdConfig, DiscoveryBindFailurePolicy,
    MqttConfig, MqttConfigView,
};
use crate::model::{PointConfig, PointConfigView};
use crate::numerals::{
    decimal, decimal_text, law_decimal_reads_back, parse_unsigned, unsigned_value,
};
use crate::text::{non_blank_text, non_empty_string, opt_text, trim, trimmed, CharClass};

verus! {

/// The number that a text stands for once it is trimmed, or what is said where it is none.
pub open spec fn number_value(
    text: Seq<char>,
    max: nat,
    label: Seq<char>,
    rule: Seq<char>,
) -> Result<nat, Seq<char>> {
    match unsigned_value(trimmed(text), max) {
        Some(number) => Ok(number),
        None => Err(label + rule),
    }
}

pub open spec fn u16_value(text: Seq<char>, label: Seq<char>) -> Result<nat, Seq<char>> {
    number_value(text, u16::MAX as nat, label, " must be a number between 0 and 65535"@)
}

pub open spec fn u32_value(text: Seq<char>, label: Seq<char>) -> Result<nat, Seq<char>> {
    number_value(text, u32::MAX as nat, label, " must be a non-negative number"@)
}

pub open spec fn u64_value(text: Seq<char>, label: Seq<char>) -> Result<nat, Seq<char>> {
    number_value(text, u64::MAX as nat, label, " must be a non-negative number"@)
}

pub open spec fn ipv4_value(text: Seq<char>, label: Seq<char>) -> Result<Ipv4Addr, Seq<char>> {
    match address_value(trimmed(text)) {
        Some(address) => Ok(address),
        None => Err(label + " must be an IPv4 address"@),
    }
}

pub fn parse_u16(value: &str, label: &str) -> (result: Result<u16, String>)
    ensures
        match result {
            Ok(number) => u16_value(value@, label@) == Ok::<nat, Seq<char>>(number as nat),
            Err(message) => u16_value(value@, label@) == Err::<nat, Seq<char>>(message@),
        },
{
    match parse_unsigned(trim(value).as_str(), 65535) {
        Some(number) => Ok(number as u16),
        None => {
            let mut message = label.to_string();
            message.append(" must be a number between 0 and 65535");
            Err(message)
        },
    }
}

pub fn parse_u32(value: &str, label: &str) -> (result: Result<u32, String>)
    ensures
        match result {
            Ok(number) => u32_value(value@, label@) == Ok::<nat, Seq<char>>(number as nat),
            Err(message) => u32_value(value@, label@) == Err::<nat, Seq<char>>(message@),
        },
{
    match parse_unsigned(trim(value).as_str(), 0xffff_ffff) {
        Some(number) => Ok(number as u32),
        None => {
            let mut message = label.to_string();
            message.append(" must be a non-negative number");
            Err(message)
        },
    }
}

pub fn parse_u64(value: &str, label: &str) -> (result: Result<u64, String>)
    ensures
        match result {
            Ok(number) => u64_value(value@, label@) == Ok::<nat, Seq<char>>(number as nat),
            Err(message) => u64_value(value@, label@) == Err::<nat, Seq<char>>(message@),
        },
{
    match parse_unsigned(trim(value).as_str(), u64::MAX) {
        Some(number) => Ok(number as u64),
        None => {
            let mut message = label.to_string();
            message.append(" must be a non-negative number");
            Err(message)
        },
    }
}

pub fn parse_ipv4(value: &str, label: &str) -> (result: Result<Ipv4Addr, String>)
    ensures
        match result {
            Ok(address) => ipv4_value(value@, label@) == Ok::<Ipv4Addr, Seq<char>>(address),
            Err(message) => ipv4_value(value@, label@) == Err::<Ipv4Addr, Seq<char>>(message@),
        },
{
    match Ipv4Addr::parse(trim(value).as_str()) {
        Some(address) => Ok(address),
        None => {
            let mut message = label.to_string();
            message.append(" must be an IPv4 address");
            Err(message)
        },
    }
}

/// An optional text, or the empty one.
pub open spec fn or_empty(text: Option<Seq<char>>) -> Seq<char> {
    match text {
        Some(value) => value,
        None => Seq::empty(),
    }
}

fn text_or_empty(text: &Option<String>) -> (result: String)
    ensures
        result@ == or_empty(opt_text(*text)),
{
    match text {
        Some(value) => value.clone(),
        None => String::new(),
    }
}

/// The settings as they are edited.
#[derive(Debug, PartialEq, Eq)]
pub struct SettingsDraft {
    pub bacnet_port: String,
    pub broadcast_address: String,
    pub discovery_window_ms: String,
    pub apdu_timeout_ms: String,
    pub poll_concurrency: String,
    pub device_backoff_max_secs: String,
    pub discovery_bind_failure_policy: DiscoveryBindFailurePolicy,
    pub bbmd_enabled: bool,
    pub bbmd_address: String,
    pub bbmd_port: String,
    pub bbmd_ttl: String,
    pub mqtt_host: String,
    pub mqtt_port: String,
    pub mqtt_use_tls: bool,
    pub mqtt_client_id: String,
    pub mqtt_topic_prefix: String,
    pub mqtt_health_topic: String,
    pub mqtt_username: String,
    pub mqtt_password: String,
    pub mqtt_ca_cert_path: String,
    pub mqtt_client_cert_path: String,
    pub mqtt_client_key_path: String,
    pub mqtt_client_key_passphrase: String,
    pub mqtt_remember_secrets: bool,
    pub mqtt_retain: bool,
    pub mqtt_keep_alive_secs: String,
}

/// The contents of a [`SettingsDraft`].
#[verifier::ext_equal]
pub struct SettingsDraftView {
    pub bacnet_port: Seq<char>,
    pub broadcast_address: Seq<char>,
    pub discovery_window_ms: Seq<char>,
    pub apdu_timeout_ms: Seq<char>,
    pub poll_concurrency: Seq<char>,
    pub device_backoff_max_secs: Seq<char>,
    pub discovery_bind_failure_policy: DiscoveryBindFailurePolicy,
    pub bbmd_enabled: bool,
    pub bbmd_address: Seq<char>,
    pub bbmd_port: Seq<char>,
    pub bbmd_ttl: Seq<char>,
    pub mqtt_host: Seq<char>,
    pub mqtt_port: Seq<char>,
    pub mqtt_use_tls: bool,
    pub mqtt_client_id: Seq<char>,
    pub mqtt_topic_prefix: Seq<char>,
    pub mqtt_health_topic: Seq<char>,
    pub mqtt_username: Seq<char>,
    pub mqtt_password: Seq<char>,
    pub mqtt_ca_cert_path: Seq<char>,
    pub mqtt_client_cert_path: Seq<char>,
    pub mqtt_client_key_path: Seq<char>,
    pub mqtt_client_key_passphrase: Seq<char>,
    pub mqtt_remember_secrets: bool,
    pub mqtt_retain: bool,
    pub mqtt_keep_alive_secs: Seq<char>,
}

impl View for SettingsDraft {
    type V = SettingsDraftView;

    open spec fn view(&self) -> SettingsDraftView {
        SettingsDraftView {
            bacnet_port: self.bacnet_port@,
            broadcast_address: self.broadcast_address@,
            discovery_window_ms: self.discovery_window_ms@,
            apdu_timeout_ms: self.apdu_timeout_ms@,
            poll_concurrency: self.poll_concurrency@,
            device_backoff_max_secs: self.device_backoff_max_secs@,
            discovery_bind_failure_policy: self.discovery_bind_failure_policy,
            bbmd_enabled: self.bbmd_enabled,
            bbmd_address: self.bbmd_address@,
            bbmd_port: self.bbmd_port@,
            bbmd_ttl: self.bbmd_ttl@,
            mqtt_host: self.mqtt_host@,
            mqtt_port: self.mqtt_port@,
            mqtt_use_tls: self.mqtt_use_tls,
            mqtt_client_id: self.mqtt_client_id@,
            mqtt_topic_prefix: self.mqtt_topic_prefix@,
            mqtt_health_topic: self.mqtt_health_topic@,
            mqtt_username: self.mqtt_username@,
            mqtt_password: self.mqtt_password@,
            mqtt_ca_cert_path: self.mqtt_ca_cert_path@,
            mqtt_client_cert_path: self.mqtt_client_cert_path@,
            mqtt_client_key_path: self.mqtt_client_key_path@,
            mqtt_client_key_passphrase: self.mqtt_client_key_passphrase@,
            mqtt_remember_secrets: self.mqtt_remember_secrets,
            mqtt_retain: self.mqtt_retain,
            mqtt_keep_alive_secs: self.mqtt_keep_alive_secs@,
        }
    }
}

impl Clone for SettingsDraft {
    fn clone(&self) -> (result: Self)
        ensures
            result == *self,
    {
        SettingsDraft {
            bacnet_port: self.bacnet_port.clone(),
            broadcast_address: self.broadcast_address.clone(),
            discovery_window_ms: self.discovery_window_ms.clone(),
            apdu_timeout_ms: self.apdu_timeout_ms.clone(),
            poll_concurrency: self.poll_concurrency.clone(),
            device_backoff_max_secs: self.device_backoff_max_secs.clone(),
            discovery_bind_failure_policy: self.discovery_bind_failure_policy,
            bbmd_enabled: self.bbmd_enabled,
            bbmd_address: self.bbmd_address.clone(),
            bbmd_port: self.bbmd_port.clone(),
            bbmd_ttl: self.bbmd_ttl.clone(),
            mqtt_host: self.mqtt_host.clone(),
            mqtt_port: self.mqtt_port.clone(),
            mqtt_use_tls: self.mqtt_use_tls,
            mqtt_client_id: self.mqtt_client_id.clone(),
            mqtt_topic_prefix: self.mqtt_topic_prefix.clone(),
            mqtt_health_topic: self.mqtt_health_topic.clone(),
            mqtt_username: self.mqtt_username.clone(),
            mqtt_password: self.mqtt_password.clone(),
            mqtt_ca_cert_path: self.mqtt_ca_cert_path.clone(),
            mqtt_client_cert_path: self.mqtt_client_cert_path.clone(),
            mqtt_client_key_path: self.mqtt_client_key_path.clone(),
            mqtt_client_key_passphrase: self.mqtt_client_key_passphrase.clone(),
            mqtt_remember_secrets: self.mqtt_remember_secrets,
            mqtt_retain: self.mqtt_retain,
            mqtt_keep_alive_secs: self.mqtt_keep_alive_secs.clone(),
        }
    }
}

/// The settings that show a configuration.
#[verifier::opaque]
pub open spec fn draft_of(config: AppConfigView) -> SettingsDraftView {
    SettingsDraftView {
        bacnet_port: decimal(config.bacnet.port as nat),
        broadcast_address: address_text(config.bacnet.broadcast_address),
        discovery_window_ms: decimal(config.bacnet.discovery_window_ms as nat),
        apdu_timeout_ms: decimal(config.bacnet.apdu_timeout_ms as nat),
        poll_concurrency: decimal(config.bacnet.poll_concurrency as nat),
        device_backoff_max_secs: decimal(config.bacnet.device_backoff_max_secs as nat),
        discovery_bind_failure_policy: config.bacnet.discovery_bind_failure_policy,
        bbmd_enabled: config.bacnet.bbmd is Some,
        bbmd_address: match config.bacnet.bbmd {
            Some(bbmd) => address_text(bbmd.address),
            None => Seq::empty(),
        },
        bbmd_port: match config.bacnet.bbmd {
            Some(bbmd) => decimal(bbmd.port as nat),
            None => "47808"@,
        },
        bbmd_ttl: match config.bacnet.bbmd {
            Some(bbmd) => decimal(bbmd.ttl_secs as nat),
            None => "300"@,
        },
        mqtt_host: config.mqtt.host,
        mqtt_port: decimal(config.mqtt.port as nat),
        mqtt_use_tls: config.mqtt.use_tls,
        mqtt_client_id: config.mqtt.client_id,
        mqtt_topic_prefix: config.mqtt.topic_prefix,
        mqtt_health_topic: config.mqtt.health_topic,
        mqtt_username: or_empty(config.mqtt.username),
        mqtt_password: or_empty(config.mqtt.password),
        mqtt_ca_cert_path: or_empty(config.mqtt.ca_cert_path),
        mqtt_client_cert_path: or_empty(config.mqtt.client_cert_path),
        mqtt_client_key_path: or_empty(config.mqtt.client_key_path),
        mqtt_client_key_passphrase: or_empty(config.mqtt.client_key_passphrase),
        mqtt_remember_secrets: config.mqtt.remember_secrets,
        mqtt_retain: config.mqtt.retain,
        mqtt_keep_alive_secs: decimal(config.mqtt.keep_alive_secs as nat),
    }
}

/// The gateway for foreign devices that the settings say, if it is enabled.
pub open spec fn bbmd_value(draft: SettingsDraftView) -> Result<Option<BbmdConfig>, Seq<char>> {
    if !draft.bbmd_enabled {
        Ok(None)
    } else {
        match ipv4_value(draft.bbmd_address, "BBMD address"@) {
            Err(error) => Err(error),
            Ok(address) => match u16_value(draft.bbmd_port, "BBMD port"@) {
                Err(error) => Err(error),
                Ok(port) => match u16_value(draft.bbmd_ttl, "BBMD TTL"@) {
                    Err(error) => Err(error),
                    Ok(ttl) => Ok(
                        Some(
                            BbmdConfig { address, port: port as u16, ttl_secs: ttl as u16 },
                        ),
                    ),
                },
            },
        }
    }
}

/// What the settings make of a BACnet configuration, field by field up to the first error.
pub open spec fn bacnet_applied(
    draft: SettingsDraftView,
    b0: BacnetConfig,
) -> (BacnetConfig, Option<Seq<char>>) {
    match u16_value(draft.bacnet_port, "BACnet port"@) {
        Err(error) => (b0, Some(error)),
        Ok(port) => {
            let b1 = BacnetConfig { port: port as u16, ..b0 };
            match ipv4_value(draft.broadcast_address, "broadcast address"@) {
                Err(error) => (b1, Some(error)),
                Ok(broadcast_address) => {
                    let b2 = BacnetConfig { broadcast_address, ..b1 };
                    bacnet_times_applied(draft, b2)
                },
            }
        },
    }
}

/// What the settings make of the times in a BACnet configuration, and of what follows them.
pub open spec fn bacnet_times_applied(
    draft: SettingsDraftView,
    b2: BacnetConfig,
) -> (BacnetConfig, Option<Seq<char>>) {
    match u64_value(draft.discovery_window_ms, "discovery window"@) {
        Err(error) => (b2, Some(error)),
        Ok(window) => {
            let b3 = BacnetConfig { discovery_window_ms: window as u64, ..b2 };
            match u64_value(draft.apdu_timeout_ms, "APDU timeout"@) {
                Err(error) => (b3, Some(error)),
                Ok(timeout) => {
                    let b4 = BacnetConfig { apdu_timeout_ms: timeout as u64, ..b3 };
                    bacnet_polling_applied(draft, b4)
                },
            }
        },
    }
}

/// What the settings make of the polling in a BACnet configuration, and of what follows it.
pub open spec fn bacnet_polling_applied(
    draft: SettingsDraftView,
    b4: BacnetConfig,
) -> (BacnetConfig, Option<Seq<char>>) {
    match u64_value(draft.poll_concurrency, "poll concurrency"@) {
        Err(error) => (b4, Some(error)),
        Ok(concurrency) => if concurrency > usize::MAX {
            (b4, Some("Poll concurrency is too large"@))
        } else {
            let b5 = BacnetConfig { poll_concurrency: concurrency as usize, ..b4 };
            match u64_value(draft.device_backoff_max_secs, "device backoff cap"@) {
                Err(error) => (b5, Some(error)),
                Ok(backoff) => {
                    let b6 = BacnetConfig {
                        device_backoff_max_secs: backoff as u64,
                        discovery_bind_failure_policy: draft.discovery_bind_failure_policy,
                        ..b5
                    };
                    match bbmd_value(draft) {
                        Err(error) => (b6, Some(error)),
                        Ok(bbmd) => (BacnetConfig { bbmd, ..b6 }, None),
                    }
                },
            }
        },
    }
}

/// What the settings make of an MQTT configuration, field by field up to the first error.
pub open spec fn mqtt_applied(
    draft: SettingsDraftView,
    m0: MqttConfigView,
) -> (MqttConfigView, Option<Seq<char>>) {
    let m1 = MqttConfigView { host: trimmed(draft.mqtt_host), ..m0 };
    match u16_value(draft.mqtt_port, "MQTT port"@) {
        Err(error) => (m1, Some(error)),
        Ok(port) => {
            let m2 = MqttConfigView {
                port: port as u16,
                use_tls: draft.mqtt_use_tls,
                client_id: trimmed(draft.mqtt_client_id),
                topic_prefix: trimmed(draft.mqtt_topic_prefix),
                health_topic: trimmed(draft.mqtt_health_topic),
                username: non_blank_text(draft.mqtt_username),
                password: non_blank_text(draft.mqtt_password),
                ca_cert_path: non_blank_text(draft.mqtt_ca_cert_path),
                client_cert_path: non_blank_text(draft.mqtt_client_cert_path),
                client_key_path: non_blank_text(draft.mqtt_client_key_path),
                client_key_passphrase: non_blank_text(draft.mqtt_client_key_passphrase),
                remember_secrets: draft.mqtt_remember_secrets,
                retain: draft.mqtt_retain,
                ..m1
            };
            match u64_value(draft.mqtt_keep_alive_secs, "MQTT keep-alive"@) {
                Err(error) => (m2, Some(error)),
                Ok(keep_alive) => (
                    MqttConfigView { keep_alive_secs: keep_alive as u64, ..m2 },
                    None,
                ),
            }
        },
    }
}

/// What the settings make of a configuration, up to the first error, and that error: a text that
/// cannot be read, or else a rule that the result breaks.
#[verifier::opaque]
pub open spec fn settings_applied(
    draft: SettingsDraftView,
    config: AppConfigView,
) -> (AppConfigView, Option<Seq<char>>) {
    let (bacnet, bacnet_error) = bacnet_applied(draft, config.bacnet);
    let c1 = AppConfigView { bacnet, ..config };
    match bacnet_error {
        Some(error) => (c1, Some(error)),
        None => {
            let (mqtt, mqtt_error) = mqtt_applied(draft, config.mqtt);
            let c2 = AppConfigView { mqtt, ..c1 };
            match mqtt_error {
                Some(error) => (c2, Some(error)),
                None => (c2, config_fault(c2)),
            }
        },
    }
}

/// The error of a result.
pub open spec fn error_of<T>(result: Result<T, String>) -> Option<Seq<char>> {
    match result {
        Ok(_) => None,
        Err(message) => Some(message@),
    }
}

impl SettingsDraft {
    pub fn from_config(config: &AppConfig) -> (draft: Self)
        ensures
            draft@ == draft_of(config@),
    {
        reveal(draft_of);
        let bbmd_address = match config.bacnet.bbmd {
            Some(bbmd) => bbmd.address.to_text(),
            None => String::new(),
        };
        let bbmd_port = match config.bacnet.bbmd {
            Some(bbmd) => decimal_text(bbmd.port as u64),
            None => "47808".to_string(),
        };
        let bbmd_ttl = match config.bacnet.bbmd {
            Some(bbmd) => decimal_text(bbmd.ttl_secs as u64),
            None => "300".to_string(),
        };
        SettingsDraft {
            bacnet_port: decimal_text(config.bacnet.port as u64),
            broadcast_address: config.bacnet.broadcast_address.to_text(),
            discovery_window_ms: decimal_text(config.bacnet.discovery_window_ms),
            apdu_timeout_ms: decimal_text(config.bacnet.apdu_timeout_ms),
            poll_concurrency: decimal_text(config.bacnet.poll_concurrency as u64),
            device_backoff_max_secs: decimal_text(config.bacnet.device_backoff_max_secs),
            discovery_bind_failure_policy: config.bacnet.discovery_bind_failure_policy,
            bbmd_enabled: config.bacnet.bbmd.is_some(),
            bbmd_address,
            bbmd_port,
            bbmd_ttl,
            mqtt_host: config.mqtt.host.clone(),
            mqtt_port: decimal_text(config.mqtt.port as u64),
            mqtt_use_tls: config.mqtt.use_tls,
            mqtt_client_id: config.mqtt.client_id.clone(),
            mqtt_topic_prefix: config.mqtt.topic_prefix.clone(),
            mqtt_health_topic: config.mqtt.health_topic.clone(),
            mqtt_username: text_or_empty(&config.mqtt.username),
            mqtt_password: text_or_empty(&config.mqtt.password),
            mqtt_ca_cert_path: text_or_empty(&config.mqtt.ca_cert_path),
            mqtt_client_cert_path: text_or_empty(&config.mqtt.client_cert_path),
            mqtt_client_key_path: text_or_empty(&config.mqtt.client_key_path),
            mqtt_client_key_passphrase: text_or_empty(&config.mqtt.client_key_passphrase),
            mqtt_remember_secrets: config.mqtt.remember_secrets,
            mqtt_retain: config.mqtt.retain,
            mqtt_keep_alive_secs: decimal_text(config.mqtt.keep_alive_secs),
        }
    }

    fn read_bbmd(&self) -> (result: Result<Option<BbmdConfig>, String>)
        ensures
            match result {
                Ok(bbmd) => bbmd_value(self@) == Ok::<Option<BbmdConfig>, Seq<char>>(bbmd),
                Err(message) => bbmd_value(self@) == Err::<Option<BbmdConfig>, Seq<char>>(
                    message@,
                ),
            },
    {
        if !self.bbmd_enabled {
            return Ok(None);
        }
        let address = match parse_ipv4(self.bbmd_address.as_str(), "BBMD address") {
            Ok(address) => address,
            Err(error) => return Err(error),
        };
        let port: u16 = match parse_u16(self.bbmd_port.as_str(), "BBMD port") {
            Ok(port) => port,
            Err(error) => return Err(error),
        };
        let ttl_secs: u16 = match parse_u16(self.bbmd_ttl.as_str(), "BBMD TTL") {
            Ok(ttl_secs) => ttl_secs,
            Err(error) => return Err(error),
        };
        Ok(Some(BbmdConfig { address, port, ttl_secs }))
    }

    fn apply_to_bacnet(&self, config: &mut BacnetConfig) -> (result: Result<(), String>)
        ensures
            (*final(config), error_of(result)) == bacnet_applied(self@, *old(config)),
    {
        config.port = match parse_u16(self.bacnet_port.as_str(), "BACnet port") {
            Ok(port) => port,
            Err(error) => return Err(error),
        };
        config.broadcast_address = match parse_ipv4(
            self.broadcast_address.as_str(),
            "broadcast address",
        ) {
            Ok(address) => address,
            Err(error) => return Err(error),
        };
        config.discovery_window_ms = match parse_u64(
            self.discovery_window_ms.as_str(),
            "discovery window",
        ) {
            Ok(window) => window,
            Err(error) => return Err(error),
        };
        config.apdu_timeout_ms = match parse_u64(self.apdu_timeout_ms.as_str(), "APDU timeout") {
            Ok(timeout) => timeout,
            Err(error) => return Err(error),
        };
        let concurrency: u64 = match parse_u64(
            self.poll_concurrency.as_str(),
            "poll concurrency",
        ) {
            Ok(concurrency) => concurrency,
            Err(error) => return Err(error),
        };
        if concurrency > usize::MAX as u64 {
            return Err("Poll concurrency is too large".to_string());
        }
        config.poll_concurrency = concurrency as usize;
        config.device_backoff_max_secs = match parse_u64(
            self.device_backoff_max_secs.as_str(),
            "device backoff cap",
        ) {
            Ok(backoff) => backoff,
            Err(error) => return Err(error),
        };
        config.discovery_bind_failure_policy = self.discovery_bind_failure_policy;
        config.bbmd = match self.read_bbmd() {
            Ok(bbmd) => bbmd,
            Err(error) => return Err(error),
        };
        Ok(())
    }

    fn apply_to_mqtt(&self, config: &mut MqttConfig) -> (result: Result<(), String>)
        ensures
            (final(config)@, error_of(result)) == mqtt_applied(self@, old(config)@),
    {
        config.host = trim(self.mqtt_host.as_str());
        config.port = match parse_u16(self.mqtt_port.as_str(), "MQTT port") {
            Ok(port) => port,
            Err(error) => return Err(error),
        };
        config.use_tls = self.mqtt_use_tls;
        config.client_id = trim(self.mqtt_client_id.as_str());
        config.topic_prefix = trim(self.mqtt_topic_prefix.as_str());
        config.health_topic = trim(self.mqtt_health_topic.as_str());
        config.username = non_empty_string(self.mqtt_username.as_str());
        config.password = non_empty_string(self.mqtt_password.as_str());
        config.ca_cert_path = non_empty_string(self.mqtt_ca_cert_path.as_str());
        config.client_cert_path = non_empty_string(self.mqtt_client_cert_path.as_str());
        config.client_key_path = non_empty_string(self.mqtt_client_key_path.as_str());
        config.client_key_passphrase = non_empty_string(self.mqtt_client_key_passphrase.as_str());
        config.remember_secrets = self.mqtt_remember_secrets;
        config.retain = self.mqtt_retain;
        config.keep_alive_secs = match parse_u64(
            self.mqtt_keep_alive_secs.as_str(),
            "MQTT keep-alive",
        ) {
            Ok(keep_alive) => keep_alive,
            Err(error) => return Err(error),
        };
        Ok(())
    }

    /// Puts the settings into a configuration, up to the first error.
    pub fn apply_to(&self, config: &mut AppConfig) -> (result: Result<(), String>)
        ensures
            (final(config)@, error_of(result)) == settings_applied(self@, old(config)@),
    {
        reveal(settings_applied);
        if let Err(error) = self.apply_to_bacnet(&mut config.bacnet) {
            return Err(error);
        }
        if let Err(error) = self.apply_to_mqtt(&mut config.mqtt) {
            return Err(error);
        }
        config.validate()
    }
}

/// A point as it is edited.
#[derive(Debug, PartialEq, Eq)]
pub struct PointEditor {
    pub enabled: bool,
    pub device_instance: String,
    pub device_label: String,
    pub object_type: String,
    pub object_instance: String,
    pub property: String,
    pub tag_path: String,
    pub poll_interval_secs: String,
}

/// The contents of a [`PointEditor`].
#[verifier::ext_equal]
pub struct PointEditorView {
    pub enabled: bool,
    pub device_instance: Seq<char>,
    pub device_label: Seq<char>,
    pub object_type: Seq<char>,
    pub object_instance: Seq<char>,
    pub property: Seq<char>,
    pub tag_path: Seq<char>,
    pub poll_interval_secs: Seq<char>,
}

impl View for PointEditor {
    type V = PointEditorView;

    open spec fn view(&self) -> PointEditorView {
        PointEditorView {
            enabled: self.enabled,
            device_instance: self.device_instance@,
            device_label: self.device_label@,
            object_type: self.object_type@,
            object_instance: self.object_instance@,
            property: self.property@,
            tag_path: self.tag_path@,
            poll_interval_secs: self.poll_interval_secs@,
        }
    }
}

impl Clone for PointEditor {
    fn clone(&self) -> (result: Self)
        ensures
            result == *self,
    {
        PointEditor {
            enabled: self.enabled,
            device_instance: self.device_instance.clone(),
            device_label: self.device_label.clone(),
            object_type: self.object_type.clone(),
            object_instance: self.object_instance.clone(),
            property: self.property.clone(),
            tag_path: self.tag_path.clone(),
            poll_interval_secs: self.poll_interval_secs.clone(),
        }
    }
}

/// The texts that show a point; a device instance of zero is not shown.
#[verifier::opaque]
pub open spec fn editor_of(point: PointConfigView) -> PointEditorView {
    PointEditorView {
        enabled: point.enabled,
        device_instance: if point.device_instance == 0 {
            Seq::empty()
        } else {
            decimal(point.device_instance as nat)
        },
        device_label: point.device_label,
        object_type: point.object_type,
        object_instance: decimal(point.object_instance as nat),
        property: point.property,
        tag_path: point.tag_path,
        poll_interval_secs: decimal(point.poll_interval_secs as nat),
    }
}

/// The point that an editor holds, or the first number in it that cannot be read.
#[verifier::opaque]
pub open spec fn edited_point(editor: PointEditorView) -> Result<PointConfigView, Seq<char>> {
    match u32_value(editor.device_instance, "device instance"@) {
        Err(error) => Err(error),
        Ok(device_instance) => match u32_value(editor.object_instance, "object instance"@) {
            Err(error) => Err(error),
            Ok(object_instance) => match u64_value(editor.poll_interval_secs, "poll interval"@) {
                Err(error) => Err(error),
                Ok(poll_interval_secs) => Ok(
                    PointConfigView {
                        enabled: editor.enabled,
                        device_instance: device_instance as u32,
                        device_label: trimmed(editor.device_label),
                        object_type: trimmed(editor.object_type),
                        object_instance: object_instance as u32,
                        property: trimmed(editor.property),
                        tag_path: trimmed(editor.tag_path),
                        poll_interval_secs: poll_interval_secs as u64,
                    },
                ),
            },
        },
    }
}

impl PointEditor {
    pub fn new() -> (editor: Self)
        ensures
            editor@ == editor_of(crate::model::default_point()),
    {
        PointEditor::from_point(&PointConfig::default())
    }

    pub fn from_point(point: &PointConfig) -> (editor: Self)
        ensures
            editor@ == editor_of(point@),
    {
        reveal(editor_of);
        PointEditor {
            enabled: point.enabled,
            device_instance: if point.device_instance == 0 {
                String::new()
            } else {
                decimal_text(point.device_instance as u64)
            },
            device_label: point.device_label.clone(),
            object_type: point.object_type.clone(),
            object_instance: decimal_text(point.object_instance as u64),
            property: point.property.clone(),
            tag_path: point.tag_path.clone(),
            poll_interval_secs: decimal_text(point.poll_interval_secs),
        }
    }

    pub fn to_point(&self) -> (result: Result<PointConfig, String>)
        ensures
            match result {
                Ok(point) => edited_point(self@) == Ok::<PointConfigView, Seq<char>>(point@),
                Err(message) => edited_point(self@) == Err::<PointConfigView, Seq<char>>(message@),
            },
    {
        reveal(edited_point);
        let device_instance: u32 = match parse_u32(
            self.device_instance.as_str(),
            "device instance",
        ) {
            Ok(number) => number,
            Err(error) => return Err(error),
        };
        let object_instance: u32 = match parse_u32(
            self.object_instance.as_str(),
            "object instance",
        ) {
            Ok(number) => number,
            Err(error) => return Err(error),
        };
        let poll_interval_secs: u64 = match parse_u64(
            self.poll_interval_secs.as_str(),
            "poll interval",
        ) {
            Ok(number) => number,
            Err(error) => return Err(error),
        };
        Ok(
            PointConfig {
                enabled: self.enabled,
                device_instance,
                device_label: trim(self.device_label.as_str()),
                object_type: trim(self.object_type.as_str()),
                object_instance,
                property: trim(self.property.as_str()),
                tag_path: trim(self.tag_path.as_str()),
                poll_interval_secs,
            },
        )
    }
}

/// Text with no white space around it.
pub open spec fn is_trimmed(text: Seq<char>) -> bool {
    trimmed(text) == text
}

/// A text that is there is not blank, and has no white space around it.
pub open spec fn is_proper(text: Option<Seq<char>>) -> bool {
    match text {
        Some(value) => is_trimmed(value) && value.len() > 0,
        None => true,
    }
}

/// Whether the texts of a configuration have no white space around them, and those that are
/// optional are absent where there is nothing to say.
pub open spec fn has_proper_texts(mqtt: MqttConfigView) -> bool {
    &&& is_trimmed(mqtt.host)
    &&& is_trimmed(mqtt.client_id)
    &&& is_trimmed(mqtt.topic_prefix)
    &&& is_trimmed(mqtt.health_topic)
    &&& is_proper(mqtt.username)
    &&& is_proper(mqtt.password)
    &&& is_proper(mqtt.ca_cert_path)
    &&& is_proper(mqtt.client_cert_path)
    &&& is_proper(mqtt.client_key_path)
    &&& is_proper(mqtt.client_key_passphrase)
}

proof fn lemma_proper_reads_back(text: Option<Seq<char>>)
    requires
        is_proper(text),
    ensures
        non_blank_text(or_empty(text)) == text,
{
    if text is None {
        crate::text::lemma_strip_nothing(Seq::empty(), CharClass::Space);
    }
}

/// Showing a configuration and putting what is shown into any other gives the configuration back,
/// but for its points, its interface choice, its theme and its version, which the settings do not
/// show. Texts with white space around them are the exception: they lose it.
pub proof fn law_settings_read_back(config: AppConfigView, other: AppConfigView)
    requires
        has_proper_texts(config.mqtt),
    ensures
        ({
            let after = AppConfigView {
                bacnet: BacnetConfig {
                    selected_interface: other.bacnet.selected_interface,
                    discover_all_interfaces: other.bacnet.discover_all_interfaces,
                    ..config.bacnet
                },
                mqtt: config.mqtt,
                ..other
            };
            settings_applied(draft_of(config), other) == (after, config_fault(after))
        }),
{
    reveal(draft_of);
    reveal(settings_applied);
    let b = config.bacnet;
    law_decimal_reads_back(b.port as nat, u16::MAX as nat);
    law_address_reads_back(b.broadcast_address);
    law_decimal_reads_back(b.discovery_window_ms as nat, u64::MAX as nat);
    law_decimal_reads_back(b.apdu_timeout_ms as nat, u64::MAX as nat);
    law_decimal_reads_back(b.poll_concurrency as nat, u64::MAX as nat);
    law_decimal_reads_back(b.device_backoff_max_secs as nat, u64::MAX as nat);
    if let Some(bbmd) = b.bbmd {
        law_address_reads_back(bbmd.address);
        law_decimal_reads_back(bbmd.port as nat, u16::MAX as nat);
        law_decimal_reads_back(bbmd.ttl_secs as nat, u16::MAX as nat);
    }
    let m = config.mqtt;
    law_decimal_reads_back(m.port as nat, u16::MAX as nat);
    law_decimal_reads_back(m.keep_alive_secs as nat, u64::MAX as nat);
    lemma_proper_reads_back(m.username);
    lemma_proper_reads_back(m.password);
    lemma_proper_reads_back(m.ca_cert_path);
    lemma_proper_reads_back(m.client_cert_path);
    lemma_proper_reads_back(m.client_key_path);
    lemma_proper_reads_back(m.client_key_passphrase);
    let draft = draft_of(config);
    let kept = BacnetConfig {
        selected_interface: other.bacnet.selected_interface,
        discover_all_interfaces: other.bacnet.discover_all_interfaces,
        ..b
    };
    assert(bbmd_value(draft) == Ok::<Option<BbmdConfig>, Seq<char>>(b.bbmd));
    assert(bacnet_applied(draft, other.bacnet) == (kept, None::<Seq<char>>));
    assert(mqtt_applied(draft, other.mqtt).0 =~= m);
    assert(mqtt_applied(draft, other.mqtt).1 is None);
}

/// Editing a point and changing nothing gives the point back, where it has a device and no white
/// space around its texts.
pub proof fn law_edited_point_reads_back(point: PointConfigView)
    requires
        point.device_instance != 0,
        is_trimmed(point.device_label),
        is_trimmed(point.object_type),
        is_trimmed(point.property),
        is_trimmed(point.tag_path),
    ensures
        edited_point(editor_of(point)) == Ok::<PointConfigView, Seq<char>>(point),
{
    reveal(editor_of);
    reveal(edited_point);
    law_decimal_reads_back(point.device_instance as nat, u32::MAX as nat);
    law_decimal_reads_back(point.object_instance as nat, u32::MAX as nat);
    law_decimal_reads_back(point.poll_interval_secs as nat, u64::MAX as nat);
}

/// A point cannot be saved before it is given a device.
pub proof fn law_new_point_needs_a_device(point: PointConfigView)
    requires
        point.device_instance == 0,
    ensures
        edited_point(editor_of(point)) == Err::<PointConfigView, Seq<char>>(
            "device instance"@ + " must be a non-negative number"@,
        ),
{
    reveal(editor_of);
    reveal(edited_point);
    crate::text::lemma_strip_nothing(Seq::empty(), CharClass::Space);
}

} // verus!
