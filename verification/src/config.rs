//! The configuration: its defaults, its rules, and what of it is saved.

use vstd::prelude::*;

use crate::address::Ipv4Addr;
use crate::model::{default_true, point_display_name, views, PointConfig, PointConfigView};
use crate::text::{blank, clone_opt_text, is_blank, lemma_visible_is_not_blank, opt_text};

verus! {

pub const CURRENT_CONFIG_VERSION: u32 = 1;

/// What discovery does about an interface that it cannot bind to.
#[derive(Debug, Clone, Copy, PartialEq, Eq, Structural)]
pub enum DiscoveryBindFailurePolicy {
    /// Warn, and go on with the other interfaces.
    Skip,
    /// Give up.
    Strict,
}

impl DiscoveryBindFailurePolicy {
    /// All policies, in the order in which they are offered.
    pub fn all() -> (policies: [DiscoveryBindFailurePolicy; 2])
        ensures
            policies@ == seq![DiscoveryBindFailurePolicy::Skip, DiscoveryBindFailurePolicy::Strict],
    {
        [DiscoveryBindFailurePolicy::Skip, DiscoveryBindFailurePolicy::Strict]
    }

    pub fn to_text(self) -> (text: String)
        ensures
            text@ == match self {
                DiscoveryBindFailurePolicy::Skip => "Skip"@,
                DiscoveryBindFailurePolicy::Strict => "Strict"@,
            },
    {
        match self {
            DiscoveryBindFailurePolicy::Skip => "Skip".to_string(),
            DiscoveryBindFailurePolicy::Strict => "Strict".to_string(),
        }
    }
}

/// A BACnet broadcast management device to register with.
#[derive(Debug, Clone, Copy, PartialEq, Eq, Structural)]
pub struct BbmdConfig {
    pub address: Ipv4Addr,
    pub port: u16,
    pub ttl_secs: u16,
}

/// How devices are found and read.
#[derive(Debug, Clone, Copy, PartialEq, Eq, Structural)]
pub struct BacnetConfig {
    pub selected_interface: Option<Ipv4Addr>,
    pub discover_all_interfaces: bool,
    pub port: u16,
    pub broadcast_address: Ipv4Addr,
    pub discovery_window_ms: u64,
    pub apdu_timeout_ms: u64,
    pub bbmd: Option<BbmdConfig>,
    /// How many devices are read at the same time.
    pub poll_concurrency: usize,
    /// The longest pause between two attempts to read a device that fails.
    pub device_backoff_max_secs: u64,
    pub discovery_bind_failure_policy: DiscoveryBindFailurePolicy,
}

/// How values are published.
#[derive(Debug, PartialEq, Eq)]
pub struct MqttConfig {
    pub host: String,
    pub port: u16,
    pub use_tls: bool,
    pub ca_cert_path: Option<String>,
    pub client_cert_path: Option<String>,
    pub client_key_path: Option<String>,
    pub client_key_passphrase: Option<String>,
    pub client_id: String,
    pub topic_prefix: String,
    pub health_topic: String,
    pub username: Option<String>,
    pub password: Option<String>,
    /// Whether passwords and key passphrases are saved.
    pub remember_secrets: bool,
    pub retain: bool,
    pub keep_alive_secs: u64,
}

/// The contents of a [`MqttConfig`].
#[verifier::ext_equal]
pub struct MqttConfigView {
    pub host: Seq<char>,
    pub port: u16,
    pub use_tls: bool,
    pub ca_cert_path: Option<Seq<char>>,
    pub client_cert_path: Option<Seq<char>>,
    pub client_key_path: Option<Seq<char>>,
    pub client_key_passphrase: Option<Seq<char>>,
    pub client_id: Seq<char>,
    pub topic_prefix: Seq<char>,
    pub health_topic: Seq<char>,
    pub username: Option<Seq<char>>,
    pub password: Option<Seq<char>>,
    pub remember_secrets: bool,
    pub retain: bool,
    pub keep_alive_secs: u64,
}

impl View for MqttConfig {
    type V = MqttConfigView;

    open spec fn view(&self) -> MqttConfigView {
        MqttConfigView {
            host: self.host@,
            port: self.port,
            use_tls: self.use_tls,
            ca_cert_path: opt_text(self.ca_cert_path),
            client_cert_path: opt_text(self.client_cert_path),
            client_key_path: opt_text(self.client_key_path),
            client_key_passphrase: opt_text(self.client_key_passphrase),
            client_id: self.client_id@,
            topic_prefix: self.topic_prefix@,
            health_topic: self.health_topic@,
            username: opt_text(self.username),
            password: opt_text(self.password),
            remember_secrets: self.remember_secrets,
            retain: self.retain,
            keep_alive_secs: self.keep_alive_secs,
        }
    }
}

impl Clone for MqttConfig {
    fn clone(&self) -> (result: Self)
        ensures
            result == *self,
    {
        MqttConfig {
            host: self.host.clone(),
            port: self.port,
            use_tls: self.use_tls,
            ca_cert_path: clone_opt_text(&self.ca_cert_path),
            client_cert_path: clone_opt_text(&self.client_cert_path),
            client_key_path: clone_opt_text(&self.client_key_path),
            client_key_passphrase: clone_opt_text(&self.client_key_passphrase),
            client_id: self.client_id.clone(),
            topic_prefix: self.topic_prefix.clone(),
            health_topic: self.health_topic.clone(),
            username: clone_opt_text(&self.username),
            password: clone_opt_text(&self.password),
            remember_secrets: self.remember_secrets,
            retain: self.retain,
            keep_alive_secs: self.keep_alive_secs,
        }
    }
}

#[derive(Debug, Clone, Copy, PartialEq, Eq, Structural)]
pub enum UiTheme {
    Auto,
    Light,
    Dark,
}

impl UiTheme {
    /// All themes, in the order in which they are offered.
    pub fn all() -> (themes: [UiTheme; 3])
        ensures
            themes@ == seq![UiTheme::Auto, UiTheme::Light, UiTheme::Dark],
    {
        [UiTheme::Auto, UiTheme::Light, UiTheme::Dark]
    }

    pub fn to_text(self) -> (text: String)
        ensures
            text@ == match self {
                UiTheme::Auto => "Auto"@,
                UiTheme::Light => "Light"@,
                UiTheme::Dark => "Dark"@,
            },
    {
        match self {
            UiTheme::Auto => "Auto".to_string(),
            UiTheme::Light => "Light".to_string(),
            UiTheme::Dark => "Dark".to_string(),
        }
    }
}

#[derive(Debug, Clone, Copy, PartialEq, Eq, Structural)]
pub struct UiPreferences {
    pub theme: UiTheme,
}

/// Everything that is configured.
#[derive(Debug, PartialEq, Eq)]
pub struct AppConfig {
    pub version: u32,
    pub bacnet: BacnetConfig,
    pub mqtt: MqttConfig,
    pub points: Vec<PointConfig>,
    pub ui: UiPreferences,
}

/// The contents of a [`AppConfig`].
#[verifier::ext_equal]
pub struct AppConfigView {
    pub version: u32,
    pub bacnet: BacnetConfig,
    pub mqtt: MqttConfigView,
    pub points: Seq<PointConfigView>,
    pub ui: UiPreferences,
}

impl View for AppConfig {
    type V = AppConfigView;

    open spec fn view(&self) -> AppConfigView {
        AppConfigView {
            version: self.version,
            bacnet: self.bacnet,
            mqtt: self.mqtt@,
            points: views(self.points@),
            ui: self.ui,
        }
    }
}

impl Clone for AppConfig {
    fn clone(&self) -> (result: Self)
        ensures
            result@ == self@,
    {
        let points = self.points.clone();
        assert(points@ =~= self.points@);
        AppConfig {
            version: self.version,
            bacnet: self.bacnet,
            mqtt: self.mqtt.clone(),
            points,
            ui: self.ui,
        }
    }
}

pub open spec fn default_bacnet() -> BacnetConfig {
    BacnetConfig {
        selected_interface: None,
        discover_all_interfaces: true,
        port: 0xBAC0,
        broadcast_address: Ipv4Addr { a: 255, b: 255, c: 255, d: 255 },
        discovery_window_ms: 3000,
        apdu_timeout_ms: 2000,
        bbmd: None,
        poll_concurrency: 8,
        device_backoff_max_secs: 300,
        discovery_bind_failure_policy: DiscoveryBindFailurePolicy::Skip,
    }
}

pub open spec fn default_mqtt() -> MqttConfigView {
    MqttConfigView {
        host: "localhost"@,
        port: 8883,
        use_tls: true,
        ca_cert_path: None,
        client_cert_path: None,
        client_key_path: None,
        client_key_passphrase: None,
        client_id: "netix-bacnet-republisher"@,
        topic_prefix: "Netix/Site"@,
        health_topic: "Netix/Site/_health/bacnet-republisher"@,
        username: None,
        password: None,
        remember_secrets: false,
        retain: false,
        keep_alive_secs: 30,
    }
}

pub open spec fn default_config() -> AppConfigView {
    AppConfigView {
        version: CURRENT_CONFIG_VERSION,
        bacnet: default_bacnet(),
        mqtt: default_mqtt(),
        points: Seq::empty(),
        ui: UiPreferences { theme: UiTheme::Auto },
    }
}

/// What is written of a configuration: without its secrets, unless they are to be remembered.
pub open spec fn saved_form(config: AppConfigView) -> AppConfigView {
    if config.mqtt.remember_secrets {
        config
    } else {
        AppConfigView {
            mqtt: MqttConfigView {
                password: None,
                client_key_passphrase: None,
                ..config.mqtt
            },
            ..config
        }
    }
}

/// Why a point cannot be used, if so.
pub open spec fn point_fault(point: PointConfigView) -> Option<Seq<char>> {
    if point.enabled && point.device_instance == 0 {
        Some(point_display_name(point) + " has no BACnet device instance"@)
    } else if point.enabled && point.poll_interval_secs == 0 {
        Some(point_display_name(point) + " poll interval cannot be 0"@)
    } else {
        None
    }
}

/// The fault of the first point that has one.
pub open spec fn points_fault(points: Seq<PointConfigView>) -> Option<Seq<char>>
    decreases points.len(),
{
    if points.len() == 0 {
        None
    } else {
        match points_fault(points.drop_last()) {
            Some(fault) => Some(fault),
            None => point_fault(points.last()),
        }
    }
}

/// The first rule that a configuration breaks, if any.
pub open spec fn config_fault(config: AppConfigView) -> Option<Seq<char>> {
    if config.bacnet.port == 0 {
        Some("BACnet port cannot be 0 for discovery"@)
    } else if config.bacnet.discovery_window_ms < 250 {
        Some("BACnet discovery window must be at least 250 ms"@)
    } else if config.bacnet.apdu_timeout_ms < 250 {
        Some("BACnet APDU timeout must be at least 250 ms"@)
    } else if blank(config.mqtt.host) {
        Some("MQTT host cannot be empty"@)
    } else if config.mqtt.port == 0 {
        Some("MQTT port cannot be 0"@)
    } else if blank(config.mqtt.topic_prefix) {
        Some("MQTT topic prefix cannot be empty"@)
    } else {
        points_fault(config.points)
    }
}

impl Default for AppConfig {
    fn default() -> (config: Self)
        ensures
            config@ == default_config(),
    {
        AppConfig {
            version: CURRENT_CONFIG_VERSION,
            bacnet: BacnetConfig::default(),
            mqtt: MqttConfig::default(),
            points: Vec::new(),
            ui: UiPreferences::default(),
        }
    }
}

impl Default for BacnetConfig {
    fn default() -> (config: Self)
        ensures
            config == default_bacnet(),
    {
        BacnetConfig {
            selected_interface: None,
            discover_all_interfaces: true,
            port: default_bacnet_port(),
            broadcast_address: default_broadcast_address(),
            discovery_window_ms: default_discovery_window_ms(),
            apdu_timeout_ms: default_apdu_timeout_ms(),
            bbmd: None,
            poll_concurrency: default_poll_concurrency(),
            device_backoff_max_secs: default_device_backoff_max_secs(),
            discovery_bind_failure_policy: DiscoveryBindFailurePolicy::Skip,
        }
    }
}

impl Default for MqttConfig {
    fn default() -> (config: Self)
        ensures
            config@ == default_mqtt(),
    {
        MqttConfig {
            host: default_mqtt_host(),
            port: default_mqtt_port(),
            use_tls: default_true(),
            ca_cert_path: None,
            client_cert_path: None,
            client_key_path: None,
            client_key_passphrase: None,
            client_id: default_client_id(),
            topic_prefix: default_topic_prefix(),
            health_topic: default_health_topic(),
            username: None,
            password: None,
            remember_secrets: false,
            retain: false,
            keep_alive_secs: default_keep_alive_secs(),
        }
    }
}

impl Default for UiPreferences {
    fn default() -> (preferences: Self)
        ensures
            preferences == (UiPreferences { theme: UiTheme::Auto }),
    {
        UiPreferences { theme: default_ui_theme() }
    }
}

/// Why a point cannot be used, if so.
pub fn find_point_fault(point: &PointConfig) -> (fault: Option<String>)
    ensures
        opt_text(fault) == point_fault(point@),
{
    if point.enabled && point.device_instance == 0 {
        let mut text = point.display_name();
        text.append(" has no BACnet device instance");
        Some(text)
    } else if point.enabled && point.poll_interval_secs == 0 {
        let mut text = point.display_name();
        text.append(" poll interval cannot be 0");
        Some(text)
    } else {
        None
    }
}

impl AppConfig {
    pub fn migrate(&mut self)
        ensures
            final(self)@ == (AppConfigView { version: CURRENT_CONFIG_VERSION, ..old(self)@ }),
    {
        self.version = CURRENT_CONFIG_VERSION;
    }

    pub fn sanitized_for_save(&self) -> (saved: Self)
        ensures
            saved@ == saved_form(self@),
    {
        let mut saved = self.clone();
        if !saved.mqtt.remember_secrets {
            saved.mqtt.password = None;
            saved.mqtt.client_key_passphrase = None;
        }
        saved
    }

    /// Checks a configuration; the error is the first rule that it breaks.
    pub fn validate(&self) -> (result: Result<(), String>)
        ensures
            match result {
                Ok(()) => config_fault(self@) is None,
                Err(message) => config_fault(self@) == Some(message@),
            },
    {
        if self.bacnet.port == 0 {
            return Err("BACnet port cannot be 0 for discovery".to_string());
        }
        if self.bacnet.discovery_window_ms < 250 {
            return Err("BACnet discovery window must be at least 250 ms".to_string());
        }
        if self.bacnet.apdu_timeout_ms < 250 {
            return Err("BACnet APDU timeout must be at least 250 ms".to_string());
        }
        if is_blank(self.mqtt.host.as_str()) {
            return Err("MQTT host cannot be empty".to_string());
        }
        if self.mqtt.port == 0 {
            return Err("MQTT port cannot be 0".to_string());
        }
        if is_blank(self.mqtt.topic_prefix.as_str()) {
            return Err("MQTT topic prefix cannot be empty".to_string());
        }
        let mut i: usize = 0;
        let ghost points = views(self.points@);
        while i < self.points.len()
            invariant
                i <= self.points@.len(),
                points == views(self.points@),
                points_fault(points.take(i as int)) is None,
                config_fault(self@) == points_fault(points),
            decreases self.points.len() - i,
        {
            proof {
                assert(points.take(i as int + 1).drop_last() =~= points.take(i as int));
            }
            if let Some(fault) = find_point_fault(&self.points[i]) {
                proof {
                    lemma_first_fault(points, i as int + 1);
                }
                return Err(fault);
            }
            i += 1;
        }
        assert(points.take(points.len() as int) =~= points);
        Ok(())
    }
}

/// A fault among the first points is the fault of all points.
proof fn lemma_first_fault(points: Seq<PointConfigView>, count: int)
    requires
        0 <= count <= points.len(),
        points_fault(points.take(count)) is Some,
    ensures
        points_fault(points) == points_fault(points.take(count)),
    decreases points.len(),
{
    if count == points.len() {
        assert(points.take(count) =~= points);
    } else {
        assert(points.drop_last().take(count) =~= points.take(count));
        lemma_first_fault(points.drop_last(), count);
    }
}

/// What an attempt to read the saved configuration came to.
pub enum ConfigLoad {
    /// There is no place for a configuration, for the given reason.
    NoPath(String),
    /// The configuration as it was read.
    Loaded(AppConfig),
    /// Reading failed for the given reason, on a file that exists or does not.
    Failed { error: String, exists: bool },
}

/// The configuration to start with.
pub open spec fn started_config(load: ConfigLoad) -> AppConfigView {
    match load {
        ConfigLoad::Loaded(config) => AppConfigView {
            version: CURRENT_CONFIG_VERSION,
            ..config@
        },
        _ => default_config(),
    }
}

/// What is said about the configuration to start with.
pub open spec fn load_message(load: ConfigLoad) -> Seq<char> {
    match load {
        ConfigLoad::NoPath(error) => error@,
        ConfigLoad::Loaded(_) => "Loaded saved configuration"@,
        ConfigLoad::Failed { error, exists } => if exists {
            "Using defaults; config load failed: "@ + error@
        } else {
            "Using default configuration"@
        },
    }
}

/// The configuration to start with, and what to say about it.
pub fn load_or_default(load: ConfigLoad) -> (result: (AppConfig, String))
    ensures
        result.0@ == started_config(load),
        result.1@ == load_message(load),
{
    match load {
        ConfigLoad::NoPath(error) => (AppConfig::default(), error),
        ConfigLoad::Loaded(config) => {
            let mut config = config;
            config.migrate();
            (config, "Loaded saved configuration".to_string())
        },
        ConfigLoad::Failed { error, exists } => {
            if exists {
                let mut message = "Using defaults; config load failed: ".to_string();
                message.append(error.as_str());
                (AppConfig::default(), message)
            } else {
                (AppConfig::default(), "Using default configuration".to_string())
            }
        },
    }
}

pub fn default_bacnet_port() -> (value: u16)
    ensures
        value == 0xBAC0,
{
    0xBAC0
}

pub fn default_discovery_window_ms() -> (value: u64)
    ensures
        value == 3000,
{
    3000
}

pub fn default_apdu_timeout_ms() -> (value: u64)
    ensures
        value == 2000,
{
    2000
}

pub fn default_foreign_device_ttl_secs() -> (value: u16)
    ensures
        value == 300,
{
    300
}

pub fn default_poll_concurrency() -> (value: usize)
    ensures
        value == 8,
{
    8
}

pub fn default_device_backoff_max_secs() -> (value: u64)
    ensures
        value == 300,
{
    300
}

pub fn default_mqtt_port() -> (value: u16)
    ensures
        value == 8883,
{
    8883
}

pub fn default_keep_alive_secs() -> (value: u64)
    ensures
        value == 30,
{
    30
}

pub fn default_ui_theme() -> (value: UiTheme)
    ensures
        value == UiTheme::Auto,
{
    UiTheme::Auto
}

pub fn default_broadcast_address() -> (address: Ipv4Addr)
    ensures
        address == (Ipv4Addr { a: 255, b: 255, c: 255, d: 255 }),
{
    Ipv4Addr::broadcast()
}

pub fn default_mqtt_host() -> (text: String)
    ensures
        text@ == "localhost"@,
{
    "localhost".to_string()
}

pub fn default_client_id() -> (text: String)
    ensures
        text@ == "netix-bacnet-republisher"@,
{
    "netix-bacnet-republisher".to_string()
}

pub fn default_topic_prefix() -> (text: String)
    ensures
        text@ == "Netix/Site"@,
{
    "Netix/Site".to_string()
}

pub fn default_health_topic() -> (text: String)
    ensures
        text@ == "Netix/Site/_health/bacnet-republisher"@,
{
    "Netix/Site/_health/bacnet-republisher".to_string()
}

/// Unless secrets are to be remembered, none is saved, and nothing else is lost.
pub proof fn law_secrets_are_not_saved(config: AppConfigView)
    ensures
        !config.mqtt.remember_secrets ==> {
            &&& saved_form(config).mqtt.password is None
            &&& saved_form(config).mqtt.client_key_passphrase is None
        },
        config.mqtt.remember_secrets ==> saved_form(config) == config,
        (AppConfigView {
            mqtt: MqttConfigView {
                password: config.mqtt.password,
                client_key_passphrase: config.mqtt.client_key_passphrase,
                ..saved_form(config).mqtt
            },
            ..saved_form(config)
        }) == config,
{
}

/// Saving what was saved before changes nothing.
pub proof fn law_saved_form_is_stable(config: AppConfigView)
    ensures
        saved_form(saved_form(config)) == saved_form(config),
{
}

/// Whether a configuration is valid does not depend on its secrets: what is saved of a valid
/// configuration is valid.
pub proof fn law_saving_keeps_validity(config: AppConfigView)
    ensures
        config_fault(saved_form(config)) == config_fault(config),
{
}

/// The default configuration breaks no rule.
pub proof fn law_default_config_is_valid()
    ensures
        config_fault(default_config()) is None,
{
    reveal_strlit("localhost");
    reveal_strlit("Netix/Site");
    lemma_visible_is_not_blank("localhost"@);
    lemma_visible_is_not_blank("Netix/Site"@);
}

/// No point has a fault exactly when every enabled point has a device instance and a poll
/// interval.
pub proof fn law_valid_points(points: Seq<PointConfigView>)
    ensures
        points_fault(points) is None <==> forall|i: int|
            #![trigger points[i]]
            0 <= i < points.len() && points[i].enabled ==> points[i].device_instance != 0
                && points[i].poll_interval_secs != 0,
    decreases points.len(),
{
    if points.len() > 0 {
        let before = points.drop_last();
        law_valid_points(before);
        assert(forall|i: int| 0 <= i < before.len() ==> before[i] == points[i]);
        assert(points.last() == points[points.len() - 1]);
    }
}

} // verus!
