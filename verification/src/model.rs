//! The data that the republisher works on: points, devices, samples and their status.

use vstd::prelude::*;

use crate::address::{address_text, Ipv4Addr};
use crate::numerals::{decimal, decimal_text};
use crate::text::{
    chars_of, clone_opt_text, lemma_strip, lemma_strip_nothing, lemma_visible_is_not_blank,
    opt_text, string_of, texts, trim, trimmed, CharClass,
};

verus! {

/// The contents of each element of a list.
pub open spec fn views<T: View>(list: Seq<T>) -> Seq<T::V> {
    Seq::new(list.len(), |i: int| list[i]@)
}

/// The contents of an optional value.
pub open spec fn opt_view<T: View>(value: Option<T>) -> Option<T::V> {
    match value {
        Some(inner) => Some(inner@),
        None => None,
    }
}

pub broadcast proof fn lemma_views_push<T: View>(list: Seq<T>, item: T)
    ensures
        #[trigger] views(list.push(item)) == views(list).push(item@),
{
    assert(views(list.push(item)) =~= views(list).push(item@));
}

/// A local network interface with its IPv4 address.
#[derive(Debug, PartialEq, Eq)]
pub struct NetworkInterface {
    pub name: String,
    pub addr: Ipv4Addr,
}

/// The contents of a [`NetworkInterface`].
#[verifier::ext_equal]
pub struct NetworkInterfaceView {
    pub name: Seq<char>,
    pub addr: Ipv4Addr,
}

impl View for NetworkInterface {
    type V = NetworkInterfaceView;

    open spec fn view(&self) -> NetworkInterfaceView {
        NetworkInterfaceView {
            name: self.name@,
            addr: self.addr,
        }
    }
}

impl Clone for NetworkInterface {
    fn clone(&self) -> (result: Self)
        ensures
            result == *self,
    {
        NetworkInterface {
            name: self.name.clone(),
            addr: self.addr,
        }
    }
}

impl NetworkInterface {
    /// The name followed by the address in parentheses.
    pub fn to_text(&self) -> (text: String)
        ensures
            text@ == interface_text(self@),
    {
        let mut text = self.name.clone();
        text.append(" (");
        text.append(self.addr.to_text().as_str());
        text.append(")");
        text
    }
}

pub open spec fn interface_text(interface: NetworkInterfaceView) -> Seq<char> {
    interface.name + " ("@ + address_text(interface.addr) + ")"@
}

/// One BACnet property to read, and where its value is published.
#[derive(Debug, PartialEq, Eq)]
pub struct PointConfig {
    pub enabled: bool,
    pub device_instance: u32,
    pub device_label: String,
    pub object_type: String,
    pub object_instance: u32,
    pub property: String,
    pub tag_path: String,
    pub poll_interval_secs: u64,
}

/// The contents of a [`PointConfig`].
#[verifier::ext_equal]
pub struct PointConfigView {
    pub enabled: bool,
    pub device_instance: u32,
    pub device_label: Seq<char>,
    pub object_type: Seq<char>,
    pub object_instance: u32,
    pub property: Seq<char>,
    pub tag_path: Seq<char>,
    pub poll_interval_secs: u64,
}

impl View for PointConfig {
    type V = PointConfigView;

    open spec fn view(&self) -> PointConfigView {
        PointConfigView {
            enabled: self.enabled,
            device_instance: self.device_instance,
            device_label: self.device_label@,
            object_type: self.object_type@,
            object_instance: self.object_instance,
            property: self.property@,
            tag_path: self.tag_path@,
            poll_interval_secs: self.poll_interval_secs,
        }
    }
}

impl Clone for PointConfig {
    fn clone(&self) -> (result: Self)
        ensures
            result == *self,
    {
        PointConfig {
            enabled: self.enabled,
            device_instance: self.device_instance,
            device_label: self.device_label.clone(),
            object_type: self.object_type.clone(),
            object_instance: self.object_instance,
            property: self.property.clone(),
            tag_path: self.tag_path.clone(),
            poll_interval_secs: self.poll_interval_secs,
        }
    }
}

/// Object type, object instance and property, separated by spaces.
pub open spec fn point_display_name(point: PointConfigView) -> Seq<char> {
    point.object_type + " "@ + decimal(point.object_instance as nat) + " "@ + point.property
}

/// A point on which nothing has been entered yet.
pub open spec fn default_point() -> PointConfigView {
    PointConfigView {
        enabled: true,
        device_instance: 0,
        device_label: Seq::empty(),
        object_type: "analog_input"@,
        object_instance: 0,
        property: "present_value"@,
        tag_path: Seq::empty(),
        poll_interval_secs: 10,
    }
}

impl PointConfig {
    pub fn display_name(&self) -> (name: String)
        ensures
            name@ == point_display_name(self@),
    {
        let mut name = self.object_type.clone();
        name.append(" ");
        name.append(decimal_text(self.object_instance as u64).as_str());
        name.append(" ");
        name.append(self.property.as_str());
        name
    }
}

impl Default for PointConfig {
    fn default() -> (point: Self)
        ensures
            point@ == default_point(),
    {
        PointConfig {
            enabled: true,
            device_instance: 0,
            device_label: String::new(),
            object_type: default_object_type(),
            object_instance: 0,
            property: default_property(),
            tag_path: String::new(),
            poll_interval_secs: default_poll_interval_secs(),
        }
    }
}

/// A device that answered a Who-Is.
#[derive(Debug, PartialEq, Eq)]
pub struct DiscoveredDevice {
    pub instance: u32,
    pub address: String,
    pub vendor_id: u16,
    pub max_apdu_length: u32,
    pub last_seen_ms: u128,
}

/// The contents of a [`DiscoveredDevice`].
#[verifier::ext_equal]
pub struct DiscoveredDeviceView {
    pub instance: u32,
    pub address: Seq<char>,
    pub vendor_id: u16,
    pub max_apdu_length: u32,
    pub last_seen_ms: u128,
}

impl View for DiscoveredDevice {
    type V = DiscoveredDeviceView;

    open spec fn view(&self) -> DiscoveredDeviceView {
        DiscoveredDeviceView {
            instance: self.instance,
            address: self.address@,
            vendor_id: self.vendor_id,
            max_apdu_length: self.max_apdu_length,
            last_seen_ms: self.last_seen_ms,
        }
    }
}

impl Clone for DiscoveredDevice {
    fn clone(&self) -> (result: Self)
        ensures
            result == *self,
    {
        DiscoveredDevice {
            instance: self.instance,
            address: self.address.clone(),
            vendor_id: self.vendor_id,
            max_apdu_length: self.max_apdu_length,
            last_seen_ms: self.last_seen_ms,
        }
    }
}

/// A number exactly as a device sent it.
#[derive(Debug, Clone, Copy, PartialEq, Eq, Structural)]
pub enum Numeric {
    Unsigned(u64),
    Signed(i64),
    /// The bits of an IEEE 754 single precision number.
    Real(u32),
    /// The bits of an IEEE 754 double precision number.
    Double(u64),
}

/// A scalar value that was read from a device.
#[derive(Debug, PartialEq, Eq)]
pub enum TelemetryValue {
    Number(Numeric),
    Text(String),
}

/// The contents of a [`TelemetryValue`].
#[verifier::ext_equal]
pub enum TelemetryValueView {
    Number(Numeric),
    Text(Seq<char>),
}

impl View for TelemetryValue {
    type V = TelemetryValueView;

    open spec fn view(&self) -> TelemetryValueView {
        match *self {
            TelemetryValue::Number(number) => TelemetryValueView::Number(number),
            TelemetryValue::Text(text) => TelemetryValueView::Text(text@),
        }
    }
}

impl Clone for TelemetryValue {
    fn clone(&self) -> (result: Self)
        ensures
            result == *self,
    {
        match self {
            TelemetryValue::Number(number) => TelemetryValue::Number(*number),
            TelemetryValue::Text(text) => TelemetryValue::Text(text.clone()),
        }
    }
}

/// An object that a device lists, with what could be read of it.
#[derive(Debug, PartialEq, Eq)]
pub struct DeviceObject {
    pub device_instance: u32,
    pub object_type: String,
    pub object_instance: u32,
    pub object_name: Option<String>,
    pub description: Option<String>,
    pub units: Option<String>,
    pub present_value: Option<TelemetryValue>,
}

/// The contents of a [`DeviceObject`].
#[verifier::ext_equal]
pub struct DeviceObjectView {
    pub device_instance: u32,
    pub object_type: Seq<char>,
    pub object_instance: u32,
    pub object_name: Option<Seq<char>>,
    pub description: Option<Seq<char>>,
    pub units: Option<Seq<char>>,
    pub present_value: Option<TelemetryValueView>,
}

impl View for DeviceObject {
    type V = DeviceObjectView;

    open spec fn view(&self) -> DeviceObjectView {
        DeviceObjectView {
            device_instance: self.device_instance,
            object_type: self.object_type@,
            object_instance: self.object_instance,
            object_name: opt_text(self.object_name),
            description: opt_text(self.description),
            units: opt_text(self.units),
            present_value: opt_view(self.present_value),
        }
    }
}

impl Clone for DeviceObject {
    fn clone(&self) -> (result: Self)
        ensures
            result == *self,
    {
        DeviceObject {
            device_instance: self.device_instance,
            object_type: self.object_type.clone(),
            object_instance: self.object_instance,
            object_name: clone_opt_text(&self.object_name),
            description: clone_opt_text(&self.description),
            units: clone_opt_text(&self.units),
            present_value: match &self.present_value {
                Some(value) => Some(value.clone()),
                None => None,
            },
        }
    }
}

/// A value read for a point, and the topic it is published to.
#[derive(Debug, PartialEq, Eq)]
pub struct PointSample {
    pub point: PointConfig,
    pub value: TelemetryValue,
    pub topic: String,
    pub timestamp_ms: i64,
}

/// The contents of a [`PointSample`].
#[verifier::ext_equal]
pub struct PointSampleView {
    pub point: PointConfigView,
    pub value: TelemetryValueView,
    pub topic: Seq<char>,
    pub timestamp_ms: i64,
}

impl View for PointSample {
    type V = PointSampleView;

    open spec fn view(&self) -> PointSampleView {
        PointSampleView {
            point: self.point@,
            value: self.value@,
            topic: self.topic@,
            timestamp_ms: self.timestamp_ms,
        }
    }
}

impl Clone for PointSample {
    fn clone(&self) -> (result: Self)
        ensures
            result == *self,
    {
        PointSample {
            point: self.point.clone(),
            value: self.value.clone(),
            topic: self.topic.clone(),
            timestamp_ms: self.timestamp_ms,
        }
    }
}

/// A point that could not be read.
#[derive(Debug, PartialEq, Eq)]
pub struct PointFailure {
    pub point: PointConfig,
    pub error: String,
}

/// The contents of a [`PointFailure`].
#[verifier::ext_equal]
pub struct PointFailureView {
    pub point: PointConfigView,
    pub error: Seq<char>,
}

impl View for PointFailure {
    type V = PointFailureView;

    open spec fn view(&self) -> PointFailureView {
        PointFailureView {
            point: self.point@,
            error: self.error@,
        }
    }
}

impl Clone for PointFailure {
    fn clone(&self) -> (result: Self)
        ensures
            result == *self,
    {
        PointFailure {
            point: self.point.clone(),
            error: self.error.clone(),
        }
    }
}

/// What one poll of a set of points brought.
#[derive(Debug, PartialEq, Eq)]
pub struct PollOutcome {
    pub samples: Vec<PointSample>,
    pub failures: Vec<PointFailure>,
    pub warnings: Vec<String>,
}

/// The contents of a [`PollOutcome`].
#[verifier::ext_equal]
pub struct PollOutcomeView {
    pub samples: Seq<PointSampleView>,
    pub failures: Seq<PointFailureView>,
    pub warnings: Seq<Seq<char>>,
}

impl View for PollOutcome {
    type V = PollOutcomeView;

    open spec fn view(&self) -> PollOutcomeView {
        PollOutcomeView {
            samples: views(self.samples@),
            failures: views(self.failures@),
            warnings: texts(self.warnings@),
        }
    }
}

impl Clone for PollOutcome {
    fn clone(&self) -> (result: Self)
        ensures
            result@ == self@,
    {
        let samples = self.samples.clone();
        assert(samples@ =~= self.samples@);
        let failures = self.failures.clone();
        assert(failures@ =~= self.failures@);
        let warnings = self.warnings.clone();
        assert(warnings@ =~= self.warnings@);
        PollOutcome {
            samples,
            failures,
            warnings,
        }
    }
}

/// What one discovery brought.
#[derive(Debug, PartialEq, Eq)]
pub struct DiscoverOutcome {
    pub devices: Vec<DiscoveredDevice>,
    pub warnings: Vec<String>,
}

/// The contents of a [`DiscoverOutcome`].
#[verifier::ext_equal]
pub struct DiscoverOutcomeView {
    pub devices: Seq<DiscoveredDeviceView>,
    pub warnings: Seq<Seq<char>>,
}

impl View for DiscoverOutcome {
    type V = DiscoverOutcomeView;

    open spec fn view(&self) -> DiscoverOutcomeView {
        DiscoverOutcomeView {
            devices: views(self.devices@),
            warnings: texts(self.warnings@),
        }
    }
}

impl Clone for DiscoverOutcome {
    fn clone(&self) -> (result: Self)
        ensures
            result@ == self@,
    {
        let devices = self.devices.clone();
        assert(devices@ =~= self.devices@);
        let warnings = self.warnings.clone();
        assert(warnings@ =~= self.warnings@);
        DiscoverOutcome {
            devices,
            warnings,
        }
    }
}

/// What the scan of all devices brought.
#[derive(Debug, PartialEq, Eq)]
pub struct BulkTagImportOutcome {
    pub devices: Vec<DiscoveredDevice>,
    pub scanned_objects: Vec<DeviceObject>,
    pub points: Vec<PointConfig>,
    pub added: usize,
    pub updated: usize,
    pub warnings: Vec<String>,
}

/// The contents of a [`BulkTagImportOutcome`].
#[verifier::ext_equal]
pub struct BulkTagImportOutcomeView {
    pub devices: Seq<DiscoveredDeviceView>,
    pub scanned_objects: Seq<DeviceObjectView>,
    pub points: Seq<PointConfigView>,
    pub added: usize,
    pub updated: usize,
    pub warnings: Seq<Seq<char>>,
}

impl View for BulkTagImportOutcome {
    type V = BulkTagImportOutcomeView;

    open spec fn view(&self) -> BulkTagImportOutcomeView {
        BulkTagImportOutcomeView {
            devices: views(self.devices@),
            scanned_objects: views(self.scanned_objects@),
            points: views(self.points@),
            added: self.added,
            updated: self.updated,
            warnings: texts(self.warnings@),
        }
    }
}

impl Clone for BulkTagImportOutcome {
    fn clone(&self) -> (result: Self)
        ensures
            result@ == self@,
    {
        let devices = self.devices.clone();
        assert(devices@ =~= self.devices@);
        let scanned_objects = self.scanned_objects.clone();
        assert(scanned_objects@ =~= self.scanned_objects@);
        let points = self.points.clone();
        assert(points@ =~= self.points@);
        let warnings = self.warnings.clone();
        assert(warnings@ =~= self.warnings@);
        BulkTagImportOutcome {
            devices,
            scanned_objects,
            points,
            added: self.added,
            updated: self.updated,
            warnings,
        }
    }
}

/// How the publication of samples went.
#[derive(Debug, PartialEq, Eq)]
pub struct PublishStats {
    pub queued: usize,
    pub published: usize,
    pub failed: usize,
    pub reconnects: usize,
    pub last_error: Option<String>,
}

/// The contents of a [`PublishStats`].
#[verifier::ext_equal]
pub struct PublishStatsView {
    pub queued: usize,
    pub published: usize,
    pub failed: usize,
    pub reconnects: usize,
    pub last_error: Option<Seq<char>>,
}

impl View for PublishStats {
    type V = PublishStatsView;

    open spec fn view(&self) -> PublishStatsView {
        PublishStatsView {
            queued: self.queued,
            published: self.published,
            failed: self.failed,
            reconnects: self.reconnects,
            last_error: opt_text(self.last_error),
        }
    }
}

impl Clone for PublishStats {
    fn clone(&self) -> (result: Self)
        ensures
            result == *self,
    {
        PublishStats {
            queued: self.queued,
            published: self.published,
            failed: self.failed,
            reconnects: self.reconnects,
            last_error: clone_opt_text(&self.last_error),
        }
    }
}

impl PublishStats {
    pub fn empty() -> (stats: Self)
        ensures
            stats@ == (PublishStatsView {
                queued: 0,
                published: 0,
                failed: 0,
                reconnects: 0,
                last_error: None,
            }),
    {
        PublishStats { queued: 0, published: 0, failed: 0, reconnects: 0, last_error: None }
    }

    pub fn record_failure(&mut self, error: &str)
        requires
            old(self).failed < usize::MAX,
        ensures
            final(self)@ == (PublishStatsView {
                failed: (old(self).failed + 1) as usize,
                last_error: Some(error@),
                ..old(self)@
            }),
    {
        self.failed = self.failed + 1;
        self.last_error = Some(error.to_string());
    }
}

/// What makes two points the same point: device, object and property, whatever their spelling.
#[derive(Debug, PartialEq, Eq, Hash)]
pub struct PointIdentity {
    pub device_instance: u32,
    pub object_type: String,
    pub object_instance: u32,
    pub property: String,
}

/// The contents of a [`PointIdentity`].
#[verifier::ext_equal]
pub struct PointIdentityView {
    pub device_instance: u32,
    pub object_type: Seq<char>,
    pub object_instance: u32,
    pub property: Seq<char>,
}

impl View for PointIdentity {
    type V = PointIdentityView;

    open spec fn view(&self) -> PointIdentityView {
        PointIdentityView {
            device_instance: self.device_instance,
            object_type: self.object_type@,
            object_instance: self.object_instance,
            property: self.property@,
        }
    }
}

impl Clone for PointIdentity {
    fn clone(&self) -> (result: Self)
        ensures
            result == *self,
    {
        PointIdentity {
            device_instance: self.device_instance,
            object_type: self.object_type.clone(),
            object_instance: self.object_instance,
            property: self.property.clone(),
        }
    }
}

/// The lower-case form of an ASCII letter; any other character as it is.
pub open spec fn ascii_lower(character: char) -> char {
    if 0x41 <= character as u32 <= 0x5a {
        ((character as u32 + 0x20) as u32) as char
    } else {
        character
    }
}

/// A character as identities spell it.
pub open spec fn identity_char(character: char) -> char {
    if character == ' ' || character == '-' {
        '_'
    } else {
        ascii_lower(character)
    }
}

/// Text as identities spell it: trimmed, ASCII letters in lower case, and spaces and hyphens
/// replaced by underscores.
pub open spec fn identity_text(text: Seq<char>) -> Seq<char> {
    Seq::new(trimmed(text).len(), |i: int| identity_char(trimmed(text)[i]))
}

/// The identity of a point.
pub open spec fn identity_of(point: PointConfigView) -> PointIdentityView {
    PointIdentityView {
        device_instance: point.device_instance,
        object_type: identity_text(point.object_type),
        object_instance: point.object_instance,
        property: identity_text(point.property),
    }
}

/// The four parts of an identity, separated by colons.
pub open spec fn identity_display(identity: PointIdentityView) -> Seq<char> {
    decimal(identity.device_instance as nat) + ":"@ + identity.object_type + ":"@ + decimal(
        identity.object_instance as nat,
    ) + ":"@ + identity.property
}

pub fn to_ascii_lower(character: char) -> (result: char)
    ensures
        result == ascii_lower(character),
{
    let code: u32 = character as u32;
    if code >= 0x41 && code <= 0x5a {
        (code as u8 + 0x20) as char
    } else {
        character
    }
}

pub fn normalize_identity_part(value: &str) -> (result: String)
    ensures
        result@ == identity_text(value@),
{
    let kept = trim(value);
    let chars = chars_of(kept.as_str());
    let mut spelled: Vec<char> = Vec::new();
    let mut i: usize = 0;
    while i < chars.len()
        invariant
            i <= chars@.len(),
            chars@ == trimmed(value@),
            spelled@.len() == i,
            forall|j: int| 0 <= j < i ==> #[trigger] spelled@[j] == identity_char(chars@[j]),
        decreases chars.len() - i,
    {
        let character = chars[i];
        if character == ' ' || character == '-' {
            spelled.push('_');
        } else {
            spelled.push(to_ascii_lower(character));
        }
        i += 1;
    }
    assert(spelled@ =~= identity_text(value@));
    string_of(spelled.as_slice())
}

impl PointIdentity {
    pub fn from_point(point: &PointConfig) -> (identity: Self)
        ensures
            identity@ == identity_of(point@),
    {
        PointIdentity {
            device_instance: point.device_instance,
            object_type: normalize_identity_part(point.object_type.as_str()),
            object_instance: point.object_instance,
            property: normalize_identity_part(point.property.as_str()),
        }
    }

    /// Whether two identities are the same.
    pub fn same_as(&self, other: &PointIdentity) -> (result: bool)
        ensures
            result == (self@ == other@),
    {
        self.device_instance == other.device_instance && self.object_type == other.object_type
            && self.object_instance == other.object_instance && self.property == other.property
    }

    pub fn to_text(&self) -> (text: String)
        ensures
            text@ == identity_display(self@),
    {
        let mut text = decimal_text(self.device_instance as u64);
        text.append(":");
        text.append(self.object_type.as_str());
        text.append(":");
        text.append(decimal_text(self.object_instance as u64).as_str());
        text.append(":");
        text.append(self.property.as_str());
        text
    }
}

/// How reading and publishing a point last went.
#[derive(Debug, PartialEq, Eq)]
pub struct PointStatus {
    pub last_value: Option<TelemetryValue>,
    pub last_sample_ms: Option<i64>,
    pub stale: bool,
    pub consecutive_failures: u32,
    pub last_error: Option<String>,
    pub last_publish_error: Option<String>,
}

/// The contents of a [`PointStatus`].
#[verifier::ext_equal]
pub struct PointStatusView {
    pub last_value: Option<TelemetryValueView>,
    pub last_sample_ms: Option<i64>,
    pub stale: bool,
    pub consecutive_failures: u32,
    pub last_error: Option<Seq<char>>,
    pub last_publish_error: Option<Seq<char>>,
}

impl View for PointStatus {
    type V = PointStatusView;

    open spec fn view(&self) -> PointStatusView {
        PointStatusView {
            last_value: opt_view(self.last_value),
            last_sample_ms: self.last_sample_ms,
            stale: self.stale,
            consecutive_failures: self.consecutive_failures,
            last_error: opt_text(self.last_error),
            last_publish_error: opt_text(self.last_publish_error),
        }
    }
}

impl Clone for PointStatus {
    fn clone(&self) -> (result: Self)
        ensures
            result == *self,
    {
        PointStatus {
            last_value: match &self.last_value {
                Some(value) => Some(value.clone()),
                None => None,
            },
            last_sample_ms: self.last_sample_ms,
            stale: self.stale,
            consecutive_failures: self.consecutive_failures,
            last_error: clone_opt_text(&self.last_error),
            last_publish_error: clone_opt_text(&self.last_publish_error),
        }
    }
}

/// The status of a point that was never read.
pub open spec fn initial_status() -> PointStatusView {
    PointStatusView {
        last_value: None,
        last_sample_ms: None,
        stale: true,
        consecutive_failures: 0,
        last_error: None,
        last_publish_error: None,
    }
}

/// The status after a value was read.
pub open spec fn status_after_sample(
    status: PointStatusView,
    value: TelemetryValueView,
    timestamp_ms: i64,
) -> PointStatusView {
    PointStatusView {
        last_value: Some(value),
        last_sample_ms: Some(timestamp_ms),
        stale: false,
        consecutive_failures: 0,
        last_error: None,
        ..status
    }
}

/// The status after a read failed.
pub open spec fn status_after_read_failure(
    status: PointStatusView,
    error: Seq<char>,
) -> PointStatusView {
    PointStatusView {
        stale: true,
        consecutive_failures: if status.consecutive_failures < u32::MAX {
            (status.consecutive_failures + 1) as u32
        } else {
            u32::MAX
        },
        last_error: Some(error),
        ..status
    }
}

/// The status after a publication, which failed where there is an error.
pub open spec fn status_after_publish(
    status: PointStatusView,
    error: Option<Seq<char>>,
) -> PointStatusView {
    PointStatusView { last_publish_error: error, ..status }
}

impl Default for PointStatus {
    fn default() -> (status: Self)
        ensures
            status@ == initial_status(),
    {
        PointStatus {
            last_value: None,
            last_sample_ms: None,
            stale: true,
            consecutive_failures: 0,
            last_error: None,
            last_publish_error: None,
        }
    }
}

impl PointStatus {
    pub fn record_sample(&mut self, sample: &PointSample)
        ensures
            final(self)@ == status_after_sample(
                old(self)@,
                sample@.value,
                sample.timestamp_ms,
            ),
    {
        self.last_value = Some(sample.value.clone());
        self.last_sample_ms = Some(sample.timestamp_ms);
        self.stale = false;
        self.consecutive_failures = 0;
        self.last_error = None;
    }

    pub fn record_read_failure(&mut self, error: &str)
        ensures
            final(self)@ == status_after_read_failure(old(self)@, error@),
    {
        self.stale = true;
        if self.consecutive_failures < u32::MAX {
            self.consecutive_failures = self.consecutive_failures + 1;
        }
        self.last_error = Some(error.to_string());
    }

    pub fn record_publish_success(&mut self)
        ensures
            final(self)@ == status_after_publish(old(self)@, None),
    {
        self.last_publish_error = None;
    }

    pub fn record_publish_failure(&mut self, error: &str)
        ensures
            final(self)@ == status_after_publish(old(self)@, Some(error@)),
    {
        self.last_publish_error = Some(error.to_string());
    }
}

/// `std::time::SystemTime`, carried through without a look inside.
#[verifier::external_type_specification]
#[verifier::external_body]
pub struct ExSystemTime(std::time::SystemTime);

/// `SystemTime::now`. Nothing is claimed of the reading.
#[verifier::external_body]
fn system_time() -> (time: std::time::SystemTime) {
    std::time::SystemTime::now()
}

/// `SystemTime::duration_since` the Unix epoch, in milliseconds; nothing where the time is before
/// the epoch. Nothing is claimed of the count.
#[verifier::external_body]
fn millis_since_epoch(time: &std::time::SystemTime) -> (millis: Option<u128>) {
    time.duration_since(std::time::UNIX_EPOCH).ok().map(|duration| duration.as_millis())
}

/// The milliseconds since the Unix epoch as a timestamp: zero for a time before the epoch, and at
/// most the greatest timestamp there is.
pub fn timestamp_from_millis(millis: Option<u128>) -> (timestamp: i64)
    ensures
        timestamp == match millis {
            Some(count) => if count <= i64::MAX {
                count as int
            } else {
                i64::MAX as int
            },
            None => 0,
        },
{
    match millis {
        Some(count) => if count <= 0x7fff_ffff_ffff_ffff {
            count as i64
        } else {
            i64::MAX
        },
        None => 0,
    }
}

/// The milliseconds since the Unix epoch, as the clock reads them. Nothing is claimed of the reading;
/// [`timestamp_from_millis`] says which timestamp each reading gives.
pub fn now_millis() -> (timestamp: i64)
    ensures
        timestamp >= 0,
{
    timestamp_from_millis(millis_since_epoch(&system_time()))
}

pub fn default_true() -> (value: bool)
    ensures
        value,
{
    true
}

pub fn default_object_type() -> (text: String)
    ensures
        text@ == "analog_input"@,
{
    "analog_input".to_string()
}

pub fn default_property() -> (text: String)
    ensures
        text@ == "present_value"@,
{
    "present_value".to_string()
}

pub fn default_poll_interval_secs() -> (secs: u64)
    ensures
        secs == 10,
{
    10
}

/// How identities spell a text does not change when it is spelled again.
pub proof fn law_identity_spelling_is_idempotent(text: Seq<char>)
    ensures
        identity_text(identity_text(text)) == identity_text(text),
{
    let kept = trimmed(text);
    let spelled = identity_text(text);
    lemma_strip(text, CharClass::Space);
    if kept.len() > 0 {
        assert(spelled[0] == identity_char(kept[0]));
        assert(spelled.last() == identity_char(kept.last()));
        lemma_visible_is_not_blank(spelled);
    } else {
        lemma_strip_nothing(spelled, CharClass::Space);
    }
    assert(identity_text(spelled) =~= spelled);
}

/// A point whose object type and property are spelled as its identity spells them is the same
/// point.
pub proof fn law_identity_is_stable(point: PointConfigView)
    ensures
        identity_of(
            PointConfigView {
                object_type: identity_of(point).object_type,
                property: identity_of(point).property,
                ..point
            },
        ) == identity_of(point),
{
    law_identity_spelling_is_idempotent(point.object_type);
    law_identity_spelling_is_idempotent(point.property);
}

/// A point is stale from a failed read until the next value, and the failures are counted; a
/// value clears the count and the error. A failed read leaves the last value as it was.
pub proof fn law_point_status(
    status: PointStatusView,
    error: Seq<char>,
    value: TelemetryValueView,
    timestamp_ms: i64,
)
    ensures
        status_after_read_failure(status, error).stale,
        status_after_read_failure(status, error).last_error == Some(error),
        status_after_read_failure(status, error).last_value == status.last_value,
        status.consecutive_failures < u32::MAX ==> status_after_read_failure(
            status,
            error,
        ).consecutive_failures == status.consecutive_failures + 1,
        !status_after_sample(status, value, timestamp_ms).stale,
        status_after_sample(status, value, timestamp_ms).consecutive_failures == 0,
        status_after_sample(status, value, timestamp_ms).last_error is None,
        status_after_sample(status_after_read_failure(status, error), value, timestamp_ms)
            == status_after_sample(status, value, timestamp_ms),
{
}

} // verus!
