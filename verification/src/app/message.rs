//! The messages of the user interface, and what is to be done outside of the state.

use vstd::prelude::*;

use crate::address::Ipv4Addr;
use crate::app::page::Page;
use crate::config::{DiscoveryBindFailurePolicy, UiTheme};
use crate::settings::{PointEditor, PointEditorView, SettingsDraft, SettingsDraftView};
use crate::text::opt_text;

verus! {

/// What the operator does, and the timer that has the workers' reports taken.
#[derive(Debug, Clone)]
pub enum Message {
    SelectPage(Page),
    ThemeSelected(UiTheme),
    DrainWorkerEvents,
    RefreshInterfaces,
    InterfaceSelected(Ipv4Addr),
    Discover,
    ScanObjects(u32),
    ScanAllObjects,
    AddObjectAsPoint(usize),
    PollAndPublish,
    StartRepublisher,
    StopRepublisher,
    ClearLogs,
    SaveSettings,
    DiscoverAllInterfacesChanged(bool),
    BacnetPortChanged(String),
    BroadcastAddressChanged(String),
    DiscoveryWindowChanged(String),
    ApduTimeoutChanged(String),
    PollConcurrencyChanged(String),
    DeviceBackoffMaxChanged(String),
    DiscoveryBindFailurePolicySelected(DiscoveryBindFailurePolicy),
    BbmdEnabledChanged(bool),
    BbmdAddressChanged(String),
    BbmdPortChanged(String),
    BbmdTtlChanged(String),
    MqttHostChanged(String),
    MqttPortChanged(String),
    MqttTlsChanged(bool),
    MqttClientIdChanged(String),
    MqttTopicPrefixChanged(String),
    MqttHealthTopicChanged(String),
    MqttUsernameChanged(String),
    MqttPasswordChanged(String),
    MqttCaCertPathChanged(String),
    MqttClientCertPathChanged(String),
    MqttClientKeyPathChanged(String),
    MqttClientKeyPassphraseChanged(String),
    MqttRememberSecretsChanged(bool),
    MqttRetainChanged(bool),
    MqttKeepAliveChanged(String),
    PointEnabledChanged(bool),
    PointDeviceInstanceChanged(String),
    PointDeviceLabelChanged(String),
    PointObjectTypeChanged(String),
    PointObjectInstanceChanged(String),
    PointPropertyChanged(String),
    PointTagPathChanged(String),
    PointPollIntervalChanged(String),
    SavePoint,
    EditPoint(usize),
    DeletePoint(usize),
    ClearAllPoints,
    NewPoint,
    TogglePoint(usize, bool),
}

/// The contents of a [`Message`].
pub enum MessageView {
    SelectPage(Page),
    ThemeSelected(UiTheme),
    DrainWorkerEvents,
    RefreshInterfaces,
    InterfaceSelected(Ipv4Addr),
    Discover,
    ScanObjects(u32),
    ScanAllObjects,
    AddObjectAsPoint(usize),
    PollAndPublish,
    StartRepublisher,
    StopRepublisher,
    ClearLogs,
    SaveSettings,
    DiscoverAllInterfacesChanged(bool),
    BacnetPortChanged(Seq<char>),
    BroadcastAddressChanged(Seq<char>),
    DiscoveryWindowChanged(Seq<char>),
    ApduTimeoutChanged(Seq<char>),
    PollConcurrencyChanged(Seq<char>),
    DeviceBackoffMaxChanged(Seq<char>),
    DiscoveryBindFailurePolicySelected(DiscoveryBindFailurePolicy),
    BbmdEnabledChanged(bool),
    BbmdAddressChanged(Seq<char>),
    BbmdPortChanged(Seq<char>),
    BbmdTtlChanged(Seq<char>),
    MqttHostChanged(Seq<char>),
    MqttPortChanged(Seq<char>),
    MqttTlsChanged(bool),
    MqttClientIdChanged(Seq<char>),
    MqttTopicPrefixChanged(Seq<char>),
    MqttHealthTopicChanged(Seq<char>),
    MqttUsernameChanged(Seq<char>),
    MqttPasswordChanged(Seq<char>),
    MqttCaCertPathChanged(Seq<char>),
    MqttClientCertPathChanged(Seq<char>),
    MqttClientKeyPathChanged(Seq<char>),
    MqttClientKeyPassphraseChanged(Seq<char>),
    MqttRememberSecretsChanged(bool),
    MqttRetainChanged(bool),
    MqttKeepAliveChanged(Seq<char>),
    PointEnabledChanged(bool),
    PointDeviceInstanceChanged(Seq<char>),
    PointDeviceLabelChanged(Seq<char>),
    PointObjectTypeChanged(Seq<char>),
    PointObjectInstanceChanged(Seq<char>),
    PointPropertyChanged(Seq<char>),
    PointTagPathChanged(Seq<char>),
    PointPollIntervalChanged(Seq<char>),
    SavePoint,
    EditPoint(usize),
    DeletePoint(usize),
    ClearAllPoints,
    NewPoint,
    TogglePoint(usize, bool),
}

impl View for Message {
    type V = MessageView;

    open spec fn view(&self) -> MessageView {
        match *self {
            Message::SelectPage(value) => MessageView::SelectPage(value),
            Message::ThemeSelected(value) => MessageView::ThemeSelected(value),
            Message::DrainWorkerEvents => MessageView::DrainWorkerEvents,
            Message::RefreshInterfaces => MessageView::RefreshInterfaces,
            Message::InterfaceSelected(value) => MessageView::InterfaceSelected(value),
            Message::Discover => MessageView::Discover,
            Message::ScanObjects(value) => MessageView::ScanObjects(value),
            Message::ScanAllObjects => MessageView::ScanAllObjects,
            Message::AddObjectAsPoint(value) => MessageView::AddObjectAsPoint(value),
            Message::PollAndPublish => MessageView::PollAndPublish,
            Message::StartRepublisher => MessageView::StartRepublisher,
            Message::StopRepublisher => MessageView::StopRepublisher,
            Message::ClearLogs => MessageView::ClearLogs,
            Message::SaveSettings => MessageView::SaveSettings,
            Message::DiscoverAllInterfacesChanged(value) => MessageView::DiscoverAllInterfacesChanged(value),
            Message::BacnetPortChanged(value) => MessageView::BacnetPortChanged(value@),
            Message::BroadcastAddressChanged(value) => MessageView::BroadcastAddressChanged(value@),
            Message::DiscoveryWindowChanged(value) => MessageView::DiscoveryWindowChanged(value@),
            Message::ApduTimeoutChanged(value) => MessageView::ApduTimeoutChanged(value@),
            Message::PollConcurrencyChanged(value) => MessageView::PollConcurrencyChanged(value@),
            Message::DeviceBackoffMaxChanged(value) => MessageView::DeviceBackoffMaxChanged(value@),
            Message::DiscoveryBindFailurePolicySelected(value) => MessageView::DiscoveryBindFailurePolicySelected(value),
            Message::BbmdEnabledChanged(value) => MessageView::BbmdEnabledChanged(value),
            Message::BbmdAddressChanged(value) => MessageView::BbmdAddressChanged(value@),
            Message::BbmdPortChanged(value) => MessageView::BbmdPortChanged(value@),
            Message::BbmdTtlChanged(value) => MessageView::BbmdTtlChanged(value@),
            Message::MqttHostChanged(value) => MessageView::MqttHostChanged(value@),
            Message::MqttPortChanged(value) => MessageView::MqttPortChanged(value@),
            Message::MqttTlsChanged(value) => MessageView::MqttTlsChanged(value),
            Message::MqttClientIdChanged(value) => MessageView::MqttClientIdChanged(value@),
            Message::MqttTopicPrefixChanged(value) => MessageView::MqttTopicPrefixChanged(value@),
            Message::MqttHealthTopicChanged(value) => MessageView::MqttHealthTopicChanged(value@),
            Message::MqttUsernameChanged(value) => MessageView::MqttUsernameChanged(value@),
            Message::MqttPasswordChanged(value) => MessageView::MqttPasswordChanged(value@),
            Message::MqttCaCertPathChanged(value) => MessageView::MqttCaCertPathChanged(value@),
            Message::MqttClientCertPathChanged(value) => MessageView::MqttClientCertPathChanged(value@),
            Message::MqttClientKeyPathChanged(value) => MessageView::MqttClientKeyPathChanged(value@),
            Message::MqttClientKeyPassphraseChanged(value) => MessageView::MqttClientKeyPassphraseChanged(value@),
            Message::MqttRememberSecretsChanged(value) => MessageView::MqttRememberSecretsChanged(value),
            Message::MqttRetainChanged(value) => MessageView::MqttRetainChanged(value),
            Message::MqttKeepAliveChanged(value) => MessageView::MqttKeepAliveChanged(value@),
            Message::PointEnabledChanged(value) => MessageView::PointEnabledChanged(value),
            Message::PointDeviceInstanceChanged(value) => MessageView::PointDeviceInstanceChanged(value@),
            Message::PointDeviceLabelChanged(value) => MessageView::PointDeviceLabelChanged(value@),
            Message::PointObjectTypeChanged(value) => MessageView::PointObjectTypeChanged(value@),
            Message::PointObjectInstanceChanged(value) => MessageView::PointObjectInstanceChanged(value@),
            Message::PointPropertyChanged(value) => MessageView::PointPropertyChanged(value@),
            Message::PointTagPathChanged(value) => MessageView::PointTagPathChanged(value@),
            Message::PointPollIntervalChanged(value) => MessageView::PointPollIntervalChanged(value@),
            Message::SavePoint => MessageView::SavePoint,
            Message::EditPoint(value) => MessageView::EditPoint(value),
            Message::DeletePoint(value) => MessageView::DeletePoint(value),
            Message::ClearAllPoints => MessageView::ClearAllPoints,
            Message::NewPoint => MessageView::NewPoint,
            Message::TogglePoint(index, value) => MessageView::TogglePoint(index, value),
        }
    }
}

/// What is to be done outside of the state.
#[derive(Debug)]
pub enum Effect {
    /// Save the configuration and report how that went; then say something, if there is anything.
    SaveConfig(Option<String>),
    /// Find the network interfaces and hand them in.
    RefreshInterfaces,
    /// Take the workers' reports and hand them in.
    DrainEvents,
    Discover,
    ScanObjects(u32),
    ScanAllObjects,
    PollAndPublish,
    StartRepublisher,
    /// Tell the republisher to stop.
    StopRepublisher,
}

/// The contents of an [`Effect`].
pub enum EffectView {
    SaveConfig(Option<Seq<char>>),
    RefreshInterfaces,
    DrainEvents,
    Discover,
    ScanObjects(u32),
    ScanAllObjects,
    PollAndPublish,
    StartRepublisher,
    StopRepublisher,
}

impl View for Effect {
    type V = EffectView;

    open spec fn view(&self) -> EffectView {
        match *self {
            Effect::SaveConfig(text) => EffectView::SaveConfig(opt_text(text)),
            Effect::RefreshInterfaces => EffectView::RefreshInterfaces,
            Effect::DrainEvents => EffectView::DrainEvents,
            Effect::Discover => EffectView::Discover,
            Effect::ScanObjects(device) => EffectView::ScanObjects(device),
            Effect::ScanAllObjects => EffectView::ScanAllObjects,
            Effect::PollAndPublish => EffectView::PollAndPublish,
            Effect::StartRepublisher => EffectView::StartRepublisher,
            Effect::StopRepublisher => EffectView::StopRepublisher,
        }
    }
}

/// The contents of an optional effect.
pub open spec fn effect_view(effect: Option<Effect>) -> Option<EffectView> {
    match effect {
        Some(inner) => Some(inner@),
        None => None,
    }
}

/// The settings after one of them was edited.
pub open spec fn settings_edited(
    settings: SettingsDraftView,
    message: MessageView,
) -> SettingsDraftView {
    match message {
        MessageView::BacnetPortChanged(value) => SettingsDraftView { bacnet_port: value, ..settings },
        MessageView::BroadcastAddressChanged(value) => SettingsDraftView { broadcast_address: value, ..settings },
        MessageView::DiscoveryWindowChanged(value) => SettingsDraftView { discovery_window_ms: value, ..settings },
        MessageView::ApduTimeoutChanged(value) => SettingsDraftView { apdu_timeout_ms: value, ..settings },
        MessageView::PollConcurrencyChanged(value) => SettingsDraftView { poll_concurrency: value, ..settings },
        MessageView::DeviceBackoffMaxChanged(value) => SettingsDraftView { device_backoff_max_secs: value, ..settings },
        MessageView::DiscoveryBindFailurePolicySelected(value) => SettingsDraftView { discovery_bind_failure_policy: value, ..settings },
        MessageView::BbmdEnabledChanged(value) => SettingsDraftView { bbmd_enabled: value, ..settings },
        MessageView::BbmdAddressChanged(value) => SettingsDraftView { bbmd_address: value, ..settings },
        MessageView::BbmdPortChanged(value) => SettingsDraftView { bbmd_port: value, ..settings },
        MessageView::BbmdTtlChanged(value) => SettingsDraftView { bbmd_ttl: value, ..settings },
        MessageView::MqttHostChanged(value) => SettingsDraftView { mqtt_host: value, ..settings },
        MessageView::MqttPortChanged(value) => SettingsDraftView { mqtt_port: value, ..settings },
        MessageView::MqttTlsChanged(value) => SettingsDraftView { mqtt_use_tls: value, ..settings },
        MessageView::MqttClientIdChanged(value) => SettingsDraftView { mqtt_client_id: value, ..settings },
        MessageView::MqttTopicPrefixChanged(value) => SettingsDraftView { mqtt_topic_prefix: value, ..settings },
        MessageView::MqttHealthTopicChanged(value) => SettingsDraftView { mqtt_health_topic: value, ..settings },
        MessageView::MqttUsernameChanged(value) => SettingsDraftView { mqtt_username: value, ..settings },
        MessageView::MqttPasswordChanged(value) => SettingsDraftView { mqtt_password: value, ..settings },
        MessageView::MqttCaCertPathChanged(value) => SettingsDraftView { mqtt_ca_cert_path: value, ..settings },
        MessageView::MqttClientCertPathChanged(value) => SettingsDraftView { mqtt_client_cert_path: value, ..settings },
        MessageView::MqttClientKeyPathChanged(value) => SettingsDraftView { mqtt_client_key_path: value, ..settings },
        MessageView::MqttClientKeyPassphraseChanged(value) => SettingsDraftView { mqtt_client_key_passphrase: value, ..settings },
        MessageView::MqttRememberSecretsChanged(value) => SettingsDraftView { mqtt_remember_secrets: value, ..settings },
        MessageView::MqttRetainChanged(value) => SettingsDraftView { mqtt_retain: value, ..settings },
        MessageView::MqttKeepAliveChanged(value) => SettingsDraftView { mqtt_keep_alive_secs: value, ..settings },
        _ => settings,
    }
}

/// The edited point after one of its texts was edited.
pub open spec fn editor_edited(editor: PointEditorView, message: MessageView) -> PointEditorView {
    match message {
        MessageView::PointEnabledChanged(value) => PointEditorView { enabled: value, ..editor },
        MessageView::PointDeviceInstanceChanged(value) => PointEditorView { device_instance: value, ..editor },
        MessageView::PointDeviceLabelChanged(value) => PointEditorView { device_label: value, ..editor },
        MessageView::PointObjectTypeChanged(value) => PointEditorView { object_type: value, ..editor },
        MessageView::PointObjectInstanceChanged(value) => PointEditorView { object_instance: value, ..editor },
        MessageView::PointPropertyChanged(value) => PointEditorView { property: value, ..editor },
        MessageView::PointTagPathChanged(value) => PointEditorView { tag_path: value, ..editor },
        MessageView::PointPollIntervalChanged(value) => PointEditorView { poll_interval_secs: value, ..editor },
        _ => editor,
    }
}

/// Takes over what the operator has typed or ticked on the page of settings.
pub fn edit_settings(settings: &mut SettingsDraft, message: &Message)
    ensures
        final(settings)@ == settings_edited(old(settings)@, message@),
{
    match message {
        Message::BacnetPortChanged(value) => {
            settings.bacnet_port = value.clone();
        },
        Message::BroadcastAddressChanged(value) => {
            settings.broadcast_address = value.clone();
        },
        Message::DiscoveryWindowChanged(value) => {
            settings.discovery_window_ms = value.clone();
        },
        Message::ApduTimeoutChanged(value) => {
            settings.apdu_timeout_ms = value.clone();
        },
        Message::PollConcurrencyChanged(value) => {
            settings.poll_concurrency = value.clone();
        },
        Message::DeviceBackoffMaxChanged(value) => {
            settings.device_backoff_max_secs = value.clone();
        },
        Message::DiscoveryBindFailurePolicySelected(value) => {
            settings.discovery_bind_failure_policy = *value;
        },
        Message::BbmdEnabledChanged(value) => {
            settings.bbmd_enabled = *value;
        },
        Message::BbmdAddressChanged(value) => {
            settings.bbmd_address = value.clone();
        },
        Message::BbmdPortChanged(value) => {
            settings.bbmd_port = value.clone();
        },
        Message::BbmdTtlChanged(value) => {
            settings.bbmd_ttl = value.clone();
        },
        Message::MqttHostChanged(value) => {
            settings.mqtt_host = value.clone();
        },
        Message::MqttPortChanged(value) => {
            settings.mqtt_port = value.clone();
        },
        Message::MqttTlsChanged(value) => {
            settings.mqtt_use_tls = *value;
        },
        Message::MqttClientIdChanged(value) => {
            settings.mqtt_client_id = value.clone();
        },
        Message::MqttTopicPrefixChanged(value) => {
            settings.mqtt_topic_prefix = value.clone();
        },
        Message::MqttHealthTopicChanged(value) => {
            settings.mqtt_health_topic = value.clone();
        },
        Message::MqttUsernameChanged(value) => {
            settings.mqtt_username = value.clone();
        },
        Message::MqttPasswordChanged(value) => {
            settings.mqtt_password = value.clone();
        },
        Message::MqttCaCertPathChanged(value) => {
            settings.mqtt_ca_cert_path = value.clone();
        },
        Message::MqttClientCertPathChanged(value) => {
            settings.mqtt_client_cert_path = value.clone();
        },
        Message::MqttClientKeyPathChanged(value) => {
            settings.mqtt_client_key_path = value.clone();
        },
        Message::MqttClientKeyPassphraseChanged(value) => {
            settings.mqtt_client_key_passphrase = value.clone();
        },
        Message::MqttRememberSecretsChanged(value) => {
            settings.mqtt_remember_secrets = *value;
        },
        Message::MqttRetainChanged(value) => {
            settings.mqtt_retain = *value;
        },
        Message::MqttKeepAliveChanged(value) => {
            settings.mqtt_keep_alive_secs = value.clone();
        },
        _ => {},
    }
}

/// Takes over what the operator has typed or ticked of a point.
pub fn edit_point_editor(editor: &mut PointEditor, message: Message)
    ensures
        final(editor)@ == editor_edited(old(editor)@, message@),
{
    match message {
        Message::PointEnabledChanged(value) => {
            editor.enabled = value;
        },
        Message::PointDeviceInstanceChanged(value) => {
            editor.device_instance = value;
        },
        Message::PointDeviceLabelChanged(value) => {
            editor.device_label = value;
        },
        Message::PointObjectTypeChanged(value) => {
            editor.object_type = value;
        },
        Message::PointObjectInstanceChanged(value) => {
            editor.object_instance = value;
        },
        Message::PointPropertyChanged(value) => {
            editor.property = value;
        },
        Message::PointTagPathChanged(value) => {
            editor.tag_path = value;
        },
        Message::PointPollIntervalChanged(value) => {
            editor.poll_interval_secs = value;
        },
        _ => {},
    }
}

} // verus!
