//! The texts and the ticks that the operator edits, and the page with the settings.

use vstd::prelude::*;

use crate::app::message::{Message, MessageView};
use crate::app::{updated, AppView, BacnetRepublisher};
use crate::config::DiscoveryBindFailurePolicy;
use crate::model::{lemma_views_push, views};
use crate::pages::{readout, readout_of, Readout, ReadoutView};
use crate::worker::text3;

verus! {

/// A text that can be edited.
#[derive(Debug, Clone, Copy, PartialEq, Eq, Structural)]
pub enum TextField {
    BacnetPort,
    BroadcastAddress,
    DiscoveryWindow,
    ApduTimeout,
    PollConcurrency,
    DeviceBackoffMax,
    BbmdAddress,
    BbmdPort,
    BbmdTtl,
    MqttHost,
    MqttPort,
    MqttClientId,
    MqttKeepAlive,
    MqttTopicPrefix,
    MqttHealthTopic,
    MqttUsername,
    MqttPassword,
    MqttCaCertPath,
    MqttClientCertPath,
    MqttClientKeyPath,
    MqttClientKeyPassphrase,
    PointDeviceInstance,
    PointDeviceLabel,
    PointObjectType,
    PointObjectInstance,
    PointProperty,
    PointTagPath,
    PointPollInterval,
}

/// A choice that can be ticked.
#[derive(Debug, Clone, Copy, PartialEq, Eq, Structural)]
pub enum Toggle {
    AllInterfaces,
    BbmdEnabled,
    MqttTls,
    MqttRetain,
    MqttRememberSecrets,
    PointEnabled,
}

/// An editable text, with what it is and a hint.
#[derive(Debug)]
pub struct Input {
    pub label: String,
    pub hint: String,
    pub value: String,
}

/// The contents of a [`Input`].
#[verifier::ext_equal]
pub struct InputView {
    pub label: Seq<char>,
    pub hint: Seq<char>,
    pub value: Seq<char>,
}

impl View for Input {
    type V = InputView;

    open spec fn view(&self) -> InputView {
        InputView {
            label: self.label@,
            hint: self.hint@,
            value: self.value@,
        }
    }
}

/// A choice, with what it is.
#[derive(Debug)]
pub struct Tick {
    pub label: String,
    pub ticked: bool,
}

/// The contents of a [`Tick`].
#[verifier::ext_equal]
pub struct TickView {
    pub label: Seq<char>,
    pub ticked: bool,
}

impl View for Tick {
    type V = TickView;

    open spec fn view(&self) -> TickView {
        TickView {
            label: self.label@,
            ticked: self.ticked,
        }
    }
}

/// What an editable text is.
pub open spec fn field_label(field: TextField) -> Seq<char> {
    match field {
        TextField::BacnetPort => "Local bind port"@,
        TextField::BroadcastAddress => "Broadcast address"@,
        TextField::DiscoveryWindow => "Discovery window ms"@,
        TextField::ApduTimeout => "APDU timeout ms"@,
        TextField::PollConcurrency => "Poll concurrency"@,
        TextField::DeviceBackoffMax => "Device backoff cap s"@,
        TextField::BbmdAddress => "BBMD address"@,
        TextField::BbmdPort => "BBMD port"@,
        TextField::BbmdTtl => "BBMD TTL"@,
        TextField::MqttHost => "Host"@,
        TextField::MqttPort => "Port"@,
        TextField::MqttClientId => "Client ID"@,
        TextField::MqttKeepAlive => "Keep-alive seconds"@,
        TextField::MqttTopicPrefix => "Topic prefix"@,
        TextField::MqttHealthTopic => "Health topic"@,
        TextField::MqttUsername => "Username"@,
        TextField::MqttPassword => "Password"@,
        TextField::MqttCaCertPath => "CA certificate PEM"@,
        TextField::MqttClientCertPath => "Client certificate PEM"@,
        TextField::MqttClientKeyPath => "Client key PEM"@,
        TextField::MqttClientKeyPassphrase => "Client key passphrase"@,
        TextField::PointDeviceInstance => "Device instance"@,
        TextField::PointDeviceLabel => "Device label"@,
        TextField::PointObjectType => "Object type"@,
        TextField::PointObjectInstance => "Object instance"@,
        TextField::PointProperty => "Property"@,
        TextField::PointTagPath => "Tag path"@,
        TextField::PointPollInterval => "Poll seconds"@,
    }
}

/// The hint on an editable text.
pub open spec fn field_hint(field: TextField) -> Seq<char> {
    match field {
        TextField::BacnetPort => "0 = ephemeral (recommended)"@,
        TextField::BroadcastAddress => "Usually 255.255.255.255"@,
        TextField::DiscoveryWindow => "Minimum 250 ms"@,
        TextField::ApduTimeout => "Minimum 250 ms"@,
        TextField::PollConcurrency => "Devices read in parallel (1-64)"@,
        TextField::DeviceBackoffMax => "Max retry delay for failing devices"@,
        TextField::BbmdAddress => "Foreign device target"@,
        TextField::BbmdPort => "Usually 47808"@,
        TextField::BbmdTtl => "Seconds"@,
        TextField::MqttHost => "Broker hostname or IP"@,
        TextField::MqttPort => "8883 TLS / 1883 plain"@,
        TextField::MqttClientId => "MQTT client identifier"@,
        TextField::MqttKeepAlive => "Broker heartbeat"@,
        TextField::MqttTopicPrefix => "Telemetry root"@,
        TextField::MqttHealthTopic => "Republisher heartbeat"@,
        TextField::MqttUsername => "Optional broker user"@,
        TextField::MqttPassword => "Saved only if enabled below"@,
        TextField::MqttCaCertPath => "Optional trust anchor"@,
        TextField::MqttClientCertPath => "Mutual TLS certificate"@,
        TextField::MqttClientKeyPath => "Required with client cert"@,
        TextField::MqttClientKeyPassphrase => "Saved only if enabled below"@,
        TextField::PointDeviceInstance => "BACnet device id"@,
        TextField::PointDeviceLabel => "Topic-friendly name"@,
        TextField::PointObjectType => "analogInput, binaryValue..."@,
        TextField::PointObjectInstance => "BACnet object id"@,
        TextField::PointProperty => "presentValue by default"@,
        TextField::PointTagPath => "Optional MQTT path"@,
        TextField::PointPollInterval => "Per-point interval"@,
    }
}

/// The text as it stands.
pub open spec fn field_value(app: AppView, field: TextField) -> Seq<char> {
    match field {
        TextField::BacnetPort => app.settings.bacnet_port,
        TextField::BroadcastAddress => app.settings.broadcast_address,
        TextField::DiscoveryWindow => app.settings.discovery_window_ms,
        TextField::ApduTimeout => app.settings.apdu_timeout_ms,
        TextField::PollConcurrency => app.settings.poll_concurrency,
        TextField::DeviceBackoffMax => app.settings.device_backoff_max_secs,
        TextField::BbmdAddress => app.settings.bbmd_address,
        TextField::BbmdPort => app.settings.bbmd_port,
        TextField::BbmdTtl => app.settings.bbmd_ttl,
        TextField::MqttHost => app.settings.mqtt_host,
        TextField::MqttPort => app.settings.mqtt_port,
        TextField::MqttClientId => app.settings.mqtt_client_id,
        TextField::MqttKeepAlive => app.settings.mqtt_keep_alive_secs,
        TextField::MqttTopicPrefix => app.settings.mqtt_topic_prefix,
        TextField::MqttHealthTopic => app.settings.mqtt_health_topic,
        TextField::MqttUsername => app.settings.mqtt_username,
        TextField::MqttPassword => app.settings.mqtt_password,
        TextField::MqttCaCertPath => app.settings.mqtt_ca_cert_path,
        TextField::MqttClientCertPath => app.settings.mqtt_client_cert_path,
        TextField::MqttClientKeyPath => app.settings.mqtt_client_key_path,
        TextField::MqttClientKeyPassphrase => app.settings.mqtt_client_key_passphrase,
        TextField::PointDeviceInstance => app.point_editor.device_instance,
        TextField::PointDeviceLabel => app.point_editor.device_label,
        TextField::PointObjectType => app.point_editor.object_type,
        TextField::PointObjectInstance => app.point_editor.object_instance,
        TextField::PointProperty => app.point_editor.property,
        TextField::PointTagPath => app.point_editor.tag_path,
        TextField::PointPollInterval => app.point_editor.poll_interval_secs,
    }
}

/// What editing a text sends.
pub open spec fn field_message(field: TextField, value: Seq<char>) -> MessageView {
    match field {
        TextField::BacnetPort => MessageView::BacnetPortChanged(value),
        TextField::BroadcastAddress => MessageView::BroadcastAddressChanged(value),
        TextField::DiscoveryWindow => MessageView::DiscoveryWindowChanged(value),
        TextField::ApduTimeout => MessageView::ApduTimeoutChanged(value),
        TextField::PollConcurrency => MessageView::PollConcurrencyChanged(value),
        TextField::DeviceBackoffMax => MessageView::DeviceBackoffMaxChanged(value),
        TextField::BbmdAddress => MessageView::BbmdAddressChanged(value),
        TextField::BbmdPort => MessageView::BbmdPortChanged(value),
        TextField::BbmdTtl => MessageView::BbmdTtlChanged(value),
        TextField::MqttHost => MessageView::MqttHostChanged(value),
        TextField::MqttPort => MessageView::MqttPortChanged(value),
        TextField::MqttClientId => MessageView::MqttClientIdChanged(value),
        TextField::MqttKeepAlive => MessageView::MqttKeepAliveChanged(value),
        TextField::MqttTopicPrefix => MessageView::MqttTopicPrefixChanged(value),
        TextField::MqttHealthTopic => MessageView::MqttHealthTopicChanged(value),
        TextField::MqttUsername => MessageView::MqttUsernameChanged(value),
        TextField::MqttPassword => MessageView::MqttPasswordChanged(value),
        TextField::MqttCaCertPath => MessageView::MqttCaCertPathChanged(value),
        TextField::MqttClientCertPath => MessageView::MqttClientCertPathChanged(value),
        TextField::MqttClientKeyPath => MessageView::MqttClientKeyPathChanged(value),
        TextField::MqttClientKeyPassphrase => MessageView::MqttClientKeyPassphraseChanged(value),
        TextField::PointDeviceInstance => MessageView::PointDeviceInstanceChanged(value),
        TextField::PointDeviceLabel => MessageView::PointDeviceLabelChanged(value),
        TextField::PointObjectType => MessageView::PointObjectTypeChanged(value),
        TextField::PointObjectInstance => MessageView::PointObjectInstanceChanged(value),
        TextField::PointProperty => MessageView::PointPropertyChanged(value),
        TextField::PointTagPath => MessageView::PointTagPathChanged(value),
        TextField::PointPollInterval => MessageView::PointPollIntervalChanged(value),
    }
}

/// What a choice is.
pub open spec fn toggle_label(toggle: Toggle) -> Seq<char> {
    match toggle {
        Toggle::AllInterfaces => "All interfaces"@,
        Toggle::BbmdEnabled => "Register as foreign device through BBMD"@,
        Toggle::MqttTls => "Use TLS"@,
        Toggle::MqttRetain => "Retain telemetry"@,
        Toggle::MqttRememberSecrets => "Remember secrets"@,
        Toggle::PointEnabled => "Enabled"@,
    }
}

/// The choice as it stands.
pub open spec fn toggle_value(app: AppView, toggle: Toggle) -> bool {
    match toggle {
        Toggle::AllInterfaces => app.config.bacnet.discover_all_interfaces,
        Toggle::BbmdEnabled => app.settings.bbmd_enabled,
        Toggle::MqttTls => app.settings.mqtt_use_tls,
        Toggle::MqttRetain => app.settings.mqtt_retain,
        Toggle::MqttRememberSecrets => app.settings.mqtt_remember_secrets,
        Toggle::PointEnabled => app.point_editor.enabled,
    }
}

/// What ticking a choice sends.
pub open spec fn toggle_message(toggle: Toggle, value: bool) -> MessageView {
    match toggle {
        Toggle::AllInterfaces => MessageView::DiscoverAllInterfacesChanged(value),
        Toggle::BbmdEnabled => MessageView::BbmdEnabledChanged(value),
        Toggle::MqttTls => MessageView::MqttTlsChanged(value),
        Toggle::MqttRetain => MessageView::MqttRetainChanged(value),
        Toggle::MqttRememberSecrets => MessageView::MqttRememberSecretsChanged(value),
        Toggle::PointEnabled => MessageView::PointEnabledChanged(value),
    }
}

/// What an editable text is.
pub fn text_label(field: TextField) -> (label: String)
    ensures
        label@ == field_label(field),
{
    match field {
        TextField::BacnetPort => "Local bind port".to_string(),
        TextField::BroadcastAddress => "Broadcast address".to_string(),
        TextField::DiscoveryWindow => "Discovery window ms".to_string(),
        TextField::ApduTimeout => "APDU timeout ms".to_string(),
        TextField::PollConcurrency => "Poll concurrency".to_string(),
        TextField::DeviceBackoffMax => "Device backoff cap s".to_string(),
        TextField::BbmdAddress => "BBMD address".to_string(),
        TextField::BbmdPort => "BBMD port".to_string(),
        TextField::BbmdTtl => "BBMD TTL".to_string(),
        TextField::MqttHost => "Host".to_string(),
        TextField::MqttPort => "Port".to_string(),
        TextField::MqttClientId => "Client ID".to_string(),
        TextField::MqttKeepAlive => "Keep-alive seconds".to_string(),
        TextField::MqttTopicPrefix => "Topic prefix".to_string(),
        TextField::MqttHealthTopic => "Health topic".to_string(),
        TextField::MqttUsername => "Username".to_string(),
        TextField::MqttPassword => "Password".to_string(),
        TextField::MqttCaCertPath => "CA certificate PEM".to_string(),
        TextField::MqttClientCertPath => "Client certificate PEM".to_string(),
        TextField::MqttClientKeyPath => "Client key PEM".to_string(),
        TextField::MqttClientKeyPassphrase => "Client key passphrase".to_string(),
        TextField::PointDeviceInstance => "Device instance".to_string(),
        TextField::PointDeviceLabel => "Device label".to_string(),
        TextField::PointObjectType => "Object type".to_string(),
        TextField::PointObjectInstance => "Object instance".to_string(),
        TextField::PointProperty => "Property".to_string(),
        TextField::PointTagPath => "Tag path".to_string(),
        TextField::PointPollInterval => "Poll seconds".to_string(),
    }
}

/// The hint on an editable text.
pub fn text_hint(field: TextField) -> (hint: String)
    ensures
        hint@ == field_hint(field),
{
    match field {
        TextField::BacnetPort => "0 = ephemeral (recommended)".to_string(),
        TextField::BroadcastAddress => "Usually 255.255.255.255".to_string(),
        TextField::DiscoveryWindow => "Minimum 250 ms".to_string(),
        TextField::ApduTimeout => "Minimum 250 ms".to_string(),
        TextField::PollConcurrency => "Devices read in parallel (1-64)".to_string(),
        TextField::DeviceBackoffMax => "Max retry delay for failing devices".to_string(),
        TextField::BbmdAddress => "Foreign device target".to_string(),
        TextField::BbmdPort => "Usually 47808".to_string(),
        TextField::BbmdTtl => "Seconds".to_string(),
        TextField::MqttHost => "Broker hostname or IP".to_string(),
        TextField::MqttPort => "8883 TLS / 1883 plain".to_string(),
        TextField::MqttClientId => "MQTT client identifier".to_string(),
        TextField::MqttKeepAlive => "Broker heartbeat".to_string(),
        TextField::MqttTopicPrefix => "Telemetry root".to_string(),
        TextField::MqttHealthTopic => "Republisher heartbeat".to_string(),
        TextField::MqttUsername => "Optional broker user".to_string(),
        TextField::MqttPassword => "Saved only if enabled below".to_string(),
        TextField::MqttCaCertPath => "Optional trust anchor".to_string(),
        TextField::MqttClientCertPath => "Mutual TLS certificate".to_string(),
        TextField::MqttClientKeyPath => "Required with client cert".to_string(),
        TextField::MqttClientKeyPassphrase => "Saved only if enabled below".to_string(),
        TextField::PointDeviceInstance => "BACnet device id".to_string(),
        TextField::PointDeviceLabel => "Topic-friendly name".to_string(),
        TextField::PointObjectType => "analogInput, binaryValue...".to_string(),
        TextField::PointObjectInstance => "BACnet object id".to_string(),
        TextField::PointProperty => "presentValue by default".to_string(),
        TextField::PointTagPath => "Optional MQTT path".to_string(),
        TextField::PointPollInterval => "Per-point interval".to_string(),
    }
}

/// What editing a text sends.
pub fn text_edited(field: TextField, value: String) -> (message: Message)
    ensures
        message@ == field_message(field, value@),
{
    match field {
        TextField::BacnetPort => Message::BacnetPortChanged(value),
        TextField::BroadcastAddress => Message::BroadcastAddressChanged(value),
        TextField::DiscoveryWindow => Message::DiscoveryWindowChanged(value),
        TextField::ApduTimeout => Message::ApduTimeoutChanged(value),
        TextField::PollConcurrency => Message::PollConcurrencyChanged(value),
        TextField::DeviceBackoffMax => Message::DeviceBackoffMaxChanged(value),
        TextField::BbmdAddress => Message::BbmdAddressChanged(value),
        TextField::BbmdPort => Message::BbmdPortChanged(value),
        TextField::BbmdTtl => Message::BbmdTtlChanged(value),
        TextField::MqttHost => Message::MqttHostChanged(value),
        TextField::MqttPort => Message::MqttPortChanged(value),
        TextField::MqttClientId => Message::MqttClientIdChanged(value),
        TextField::MqttKeepAlive => Message::MqttKeepAliveChanged(value),
        TextField::MqttTopicPrefix => Message::MqttTopicPrefixChanged(value),
        TextField::MqttHealthTopic => Message::MqttHealthTopicChanged(value),
        TextField::MqttUsername => Message::MqttUsernameChanged(value),
        TextField::MqttPassword => Message::MqttPasswordChanged(value),
        TextField::MqttCaCertPath => Message::MqttCaCertPathChanged(value),
        TextField::MqttClientCertPath => Message::MqttClientCertPathChanged(value),
        TextField::MqttClientKeyPath => Message::MqttClientKeyPathChanged(value),
        TextField::MqttClientKeyPassphrase => Message::MqttClientKeyPassphraseChanged(value),
        TextField::PointDeviceInstance => Message::PointDeviceInstanceChanged(value),
        TextField::PointDeviceLabel => Message::PointDeviceLabelChanged(value),
        TextField::PointObjectType => Message::PointObjectTypeChanged(value),
        TextField::PointObjectInstance => Message::PointObjectInstanceChanged(value),
        TextField::PointProperty => Message::PointPropertyChanged(value),
        TextField::PointTagPath => Message::PointTagPathChanged(value),
        TextField::PointPollInterval => Message::PointPollIntervalChanged(value),
    }
}

/// What ticking a choice sends.
pub fn toggled(toggle: Toggle, value: bool) -> (message: Message)
    ensures
        message@ == toggle_message(toggle, value),
{
    match toggle {
        Toggle::AllInterfaces => Message::DiscoverAllInterfacesChanged(value),
        Toggle::BbmdEnabled => Message::BbmdEnabledChanged(value),
        Toggle::MqttTls => Message::MqttTlsChanged(value),
        Toggle::MqttRetain => Message::MqttRetainChanged(value),
        Toggle::MqttRememberSecrets => Message::MqttRememberSecretsChanged(value),
        Toggle::PointEnabled => Message::PointEnabledChanged(value),
    }
}

/// A broker, with how it is reached.
pub open spec fn endpoint(host: Seq<char>, port: Seq<char>, use_tls: bool) -> Seq<char> {
    host + ":"@ + port + if use_tls {
        " (TLS)"@
    } else {
        " (plain TCP)"@
    }
}

pub fn endpoint_text(host: &str, port: &str, use_tls: bool) -> (text: String)
    ensures
        text@ == endpoint(host@, port@, use_tls),
{
    let mut text = text3(host, ":", port);
    if use_tls {
        text.append(" (TLS)");
    } else {
        text.append(" (plain TCP)");
    }
    text
}

pub open spec fn policy_name(policy: DiscoveryBindFailurePolicy) -> Seq<char> {
    match policy {
        DiscoveryBindFailurePolicy::Skip => "Skip"@,
        DiscoveryBindFailurePolicy::Strict => "Strict"@,
    }
}

/// The settings in short.
pub open spec fn settings_summary(app: AppView) -> Seq<ReadoutView> {
    let draft = app.settings;
    seq![
        readout_of(
            "MQTT endpoint"@,
            endpoint(draft.mqtt_host, draft.mqtt_port, draft.mqtt_use_tls),
        ),
        readout_of(
            "BACnet discovery"@,
            draft.discovery_window_ms + " ms window · "@ + policy_name(
                draft.discovery_bind_failure_policy,
            ),
        ),
        readout_of(
            "Secrets"@,
            if draft.mqtt_remember_secrets {
                "Remembered locally"@
            } else {
                "Not persisted"@
            },
        ),
    ]
}

impl BacnetRepublisher {
    fn field_text(&self, field: TextField) -> (text: String)
        ensures
            text@ == field_value(self@, field),
    {
        match field {
            TextField::BacnetPort => self.settings.bacnet_port.clone(),
            TextField::BroadcastAddress => self.settings.broadcast_address.clone(),
            TextField::DiscoveryWindow => self.settings.discovery_window_ms.clone(),
            TextField::ApduTimeout => self.settings.apdu_timeout_ms.clone(),
            TextField::PollConcurrency => self.settings.poll_concurrency.clone(),
            TextField::DeviceBackoffMax => self.settings.device_backoff_max_secs.clone(),
            TextField::BbmdAddress => self.settings.bbmd_address.clone(),
            TextField::BbmdPort => self.settings.bbmd_port.clone(),
            TextField::BbmdTtl => self.settings.bbmd_ttl.clone(),
            TextField::MqttHost => self.settings.mqtt_host.clone(),
            TextField::MqttPort => self.settings.mqtt_port.clone(),
            TextField::MqttClientId => self.settings.mqtt_client_id.clone(),
            TextField::MqttKeepAlive => self.settings.mqtt_keep_alive_secs.clone(),
            TextField::MqttTopicPrefix => self.settings.mqtt_topic_prefix.clone(),
            TextField::MqttHealthTopic => self.settings.mqtt_health_topic.clone(),
            TextField::MqttUsername => self.settings.mqtt_username.clone(),
            TextField::MqttPassword => self.settings.mqtt_password.clone(),
            TextField::MqttCaCertPath => self.settings.mqtt_ca_cert_path.clone(),
            TextField::MqttClientCertPath => self.settings.mqtt_client_cert_path.clone(),
            TextField::MqttClientKeyPath => self.settings.mqtt_client_key_path.clone(),
            TextField::MqttClientKeyPassphrase => self.settings.mqtt_client_key_passphrase.clone(),
            TextField::PointDeviceInstance => self.point_editor.device_instance.clone(),
            TextField::PointDeviceLabel => self.point_editor.device_label.clone(),
            TextField::PointObjectType => self.point_editor.object_type.clone(),
            TextField::PointObjectInstance => self.point_editor.object_instance.clone(),
            TextField::PointProperty => self.point_editor.property.clone(),
            TextField::PointTagPath => self.point_editor.tag_path.clone(),
            TextField::PointPollInterval => self.point_editor.poll_interval_secs.clone(),
        }
    }

    /// An editable text as it stands.
    pub fn input(&self, field: TextField) -> (input: Input)
        ensures
            input@ == (InputView {
                label: field_label(field),
                hint: field_hint(field),
                value: field_value(self@, field),
            }),
    {
        Input { label: text_label(field), hint: text_hint(field), value: self.field_text(field) }
    }

    /// A choice as it stands.
    pub fn tick(&self, toggle: Toggle) -> (tick: Tick)
        ensures
            tick@ == (TickView {
                label: toggle_label(toggle),
                ticked: toggle_value(self@, toggle),
            }),
    {
        match toggle {
            Toggle::AllInterfaces => Tick {
                label: "All interfaces".to_string(),
                ticked: self.config.bacnet.discover_all_interfaces,
            },
            Toggle::BbmdEnabled => Tick {
                label: "Register as foreign device through BBMD".to_string(),
                ticked: self.settings.bbmd_enabled,
            },
            Toggle::MqttTls => Tick {
                label: "Use TLS".to_string(),
                ticked: self.settings.mqtt_use_tls,
            },
            Toggle::MqttRetain => Tick {
                label: "Retain telemetry".to_string(),
                ticked: self.settings.mqtt_retain,
            },
            Toggle::MqttRememberSecrets => Tick {
                label: "Remember secrets".to_string(),
                ticked: self.settings.mqtt_remember_secrets,
            },
            Toggle::PointEnabled => Tick {
                label: "Enabled".to_string(),
                ticked: self.point_editor.enabled,
            },
        }
    }

    /// The page with the settings: the settings in short. The rest of it are editable texts and
    /// choices.
    pub fn settings_page(&self) -> (summary: Vec<Readout>)
        ensures
            views(summary@) == settings_summary(self@),
    {
        broadcast use lemma_views_push;
        let draft = &self.settings;
        let secrets = if draft.mqtt_remember_secrets {
            "Remembered locally".to_string()
        } else {
            "Not persisted".to_string()
        };
        let mut summary: Vec<Readout> = Vec::new();
        summary.push(
            readout(
                "MQTT endpoint",
                endpoint_text(
                    draft.mqtt_host.as_str(),
                    draft.mqtt_port.as_str(),
                    draft.mqtt_use_tls,
                ),
            ),
        );
        summary.push(
            readout(
                "BACnet discovery",
                text3(
                    draft.discovery_window_ms.as_str(),
                    " ms window · ",
                    draft.discovery_bind_failure_policy.to_text().as_str(),
                ),
            ),
        );
        summary.push(readout("Secrets", secrets));
        assert(views(summary@) =~= settings_summary(self@));
        summary
    }
}

/// What is typed is what is shown: editing a text shows the new text there, leaves all other texts
/// and the configuration as they are, and has nothing done outside.
pub proof fn law_typing_is_shown(app: AppView, field: TextField, other: TextField, value: Seq<char>)
    ensures
        ({
            let (after, effect) = updated(app, field_message(field, value));
            &&& field_value(after, field) == value
            &&& other != field ==> field_value(after, other) == field_value(app, other)
            &&& after.config == app.config
            &&& effect is None
        }),
{
}

/// What is ticked is what is shown, and leaves all other choices as they are.
pub proof fn law_ticking_is_shown(app: AppView, toggle: Toggle, other: Toggle, value: bool)
    ensures
        ({
            let after = updated(app, toggle_message(toggle, value)).0;
            &&& toggle_value(after, toggle) == value
            &&& other != toggle ==> toggle_value(after, other) == toggle_value(app, other)
        }),
{
}

} // verus!
