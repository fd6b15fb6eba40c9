//! BACnet devices and objects: their identifiers, labels and addresses, and the points that are
//! made from them.

use vstd::prelude::*;
use vstd::slice::slice_subrange;

use crate::address::{address_text, Ipv4Addr};
use crate::model::{
    DeviceObject, DeviceObjectView, PointConfig, PointConfigView, TelemetryValue,
    TelemetryValueView,
};
use crate::numerals::{decimal, decimal_text, hex, hex_byte, hex_text};
use crate::text::{blank, is_blank, join, join_texts, opt_text, texts, trim, trimmed};
use crate::value::{decode_scalar_value, scalar_of, ObjectType};

pub mod discovery;
pub mod poll;
pub mod refresh;
pub mod scan;
pub mod whole_poll;

verus! {

/// The object type of a device itself.
pub const DEVICE_TYPE: u32 = 8;

/// The property that lists a device's objects.
pub const OBJECT_LIST: u32 = 76;

pub const OBJECT_NAME: u32 = 77;

pub const DESCRIPTION: u32 = 28;

pub const UNITS: u32 = 117;

pub const PRESENT_VALUE: u32 = 85;

/// The greatest instance number that an object can have.
pub const MAX_INSTANCE: u32 = 0x3f_ffff;

/// An object of a device: its type and its instance number.
#[derive(Debug, Clone, Copy, PartialEq, Eq, Structural)]
pub struct ObjectIdentifier {
    pub object_type: ObjectType,
    pub instance: u32,
}

/// Why an instance number is refused.
pub open spec fn instance_error(instance: u32) -> Seq<char> {
    "value out of range: instance number "@ + decimal(instance as nat)
        + " exceeds max 4194303"@
}

/// `bacnet_types::primitives::ObjectIdentifier::new`, as the text of its error where it fails: an
/// identifier is refused exactly where its instance number is greater than [`MAX_INSTANCE`].
#[verifier::external_body]
fn identifier_error(object_type: u32, instance: u32) -> (error: Option<String>)
    ensures
        error is Some <==> instance > MAX_INSTANCE,
        match error {
            Some(text) => text@ == instance_error(instance),
            None => true,
        },
{
    bacnet_types::primitives::ObjectIdentifier::new(
        bacnet_types::enums::ObjectType::from_raw(object_type),
        instance,
    ).err().map(|error| error.to_string())
}

impl ObjectIdentifier {
    pub fn new(object_type: ObjectType, instance: u32) -> (result: Result<
        ObjectIdentifier,
        String,
    >)
        ensures
            match result {
                Ok(identifier) => instance <= MAX_INSTANCE && identifier == (ObjectIdentifier {
                    object_type,
                    instance,
                }),
                Err(message) => instance > MAX_INSTANCE && message@ == instance_error(instance),
            },
    {
        match identifier_error(object_type.to_raw(), instance) {
            Some(message) => Err(message),
            None => Ok(ObjectIdentifier { object_type, instance }),
        }
    }
}

/// The text that a value is shown as; a number is shown as `number_text`.
pub open spec fn shown(value: TelemetryValueView, number_text: Seq<char>) -> Seq<char> {
    match value {
        TelemetryValueView::Number(_) => number_text,
        TelemetryValueView::Text(text) => text,
    }
}

/// The text that a value is shown as, where there is a value and its text is not blank.
pub open spec fn shown_text(
    value: Option<TelemetryValueView>,
    number_text: Seq<char>,
) -> Option<Seq<char>> {
    match value {
        Some(inner) => if blank(shown(inner, number_text)) {
            None
        } else {
            Some(shown(inner, number_text))
        },
        None => None,
    }
}

/// The text that a value is shown as; a number is shown as `number_text`.
pub fn value_text(value: &TelemetryValue, number_text: &str) -> (text: String)
    ensures
        text@ == shown(value@, number_text@),
{
    match value {
        TelemetryValue::Number(_) => number_text.to_string(),
        TelemetryValue::Text(text) => text.clone(),
    }
}

/// The text that a value is shown as, where there is a value and its text is not blank.
pub fn visible_text(value: &Option<TelemetryValue>, number_text: &str) -> (text: Option<String>)
    ensures
        opt_text(text) == shown_text(crate::model::opt_view(*value), number_text@),
{
    match value {
        Some(inner) => {
            let text = value_text(inner, number_text);
            if is_blank(text.as_str()) {
                None
            } else {
                Some(text)
            }
        },
        None => None,
    }
}

/// The value that a device sent, if it sent one that can be decoded.
pub open spec fn scalar_reply(reply: Option<Seq<u8>>) -> Option<TelemetryValueView> {
    match reply {
        Some(bytes) => match scalar_of(bytes) {
            Ok(value) => Some(value),
            Err(_) => None,
        },
        None => None,
    }
}

/// The value that a device sent, if it sent one that can be decoded.
pub fn read_scalar_property(reply: &Option<Vec<u8>>) -> (value: Option<TelemetryValue>)
    ensures
        crate::model::opt_view(value) == scalar_reply(
            match *reply {
                Some(bytes) => Some(bytes@),
                None => None,
            },
        ),
{
    match reply {
        Some(bytes) => match decode_scalar_value(bytes.as_slice()) {
            Ok(value) => Some(value),
            Err(_) => None,
        },
        None => None,
    }
}

/// The name of a device that has none.
pub open spec fn nameless_device(device_instance: u32) -> Seq<char> {
    "device_"@ + decimal(device_instance as nat)
}

/// The name of a device that has none.
pub fn nameless_device_label(device_instance: u32) -> (label: String)
    ensures
        label@ == nameless_device(device_instance),
{
    let mut label = "device_".to_string();
    label.append(decimal_text(device_instance as u64).as_str());
    label
}

/// The label of a device: its object name, where it could be read and is not blank.
pub open spec fn label_of_device(
    device_instance: u32,
    name: Option<TelemetryValueView>,
    number_text: Seq<char>,
) -> Seq<char> {
    match shown_text(name, number_text) {
        Some(text) => text,
        None => nameless_device(device_instance),
    }
}

/// The label of a device, from what was read as its object name.
pub fn read_device_label(
    device_instance: u32,
    name: &Option<TelemetryValue>,
    number_text: &str,
) -> (label: String)
    ensures
        label@ == label_of_device(
            device_instance,
            crate::model::opt_view(*name),
            number_text@,
        ),
{
    match visible_text(name, number_text) {
        Some(text) => text,
        None => nameless_device_label(device_instance),
    }
}

/// The point that reads an object's present value. Its path is the object's name, or its type and
/// instance where it has none, below the device's label where one was given.
pub open spec fn object_point(
    object: DeviceObjectView,
    device_label: Option<Seq<char>>,
) -> PointConfigView {
    let label = match device_label {
        Some(text) => if blank(text) {
            nameless_device(object.device_instance)
        } else {
            trimmed(text)
        },
        None => nameless_device(object.device_instance),
    };
    let unnamed = object.object_type + "_"@ + decimal(object.object_instance as nat);
    let name = match object.object_name {
        Some(text) => if blank(text) {
            unnamed
        } else {
            text
        },
        None => unnamed,
    };
    PointConfigView {
        enabled: true,
        device_instance: object.device_instance,
        device_label: label,
        object_type: object.object_type,
        object_instance: object.object_instance,
        property: "present_value"@,
        tag_path: if device_label is Some {
            label + "/"@ + name
        } else {
            name
        },
        poll_interval_secs: 10,
    }
}

pub fn point_from_object(object: &DeviceObject, device_label: Option<&str>) -> (point: PointConfig)
    ensures
        point@ == object_point(
            object@,
            match device_label {
                Some(text) => Some(text@),
                None => None,
            },
        ),
{
    let label = match device_label {
        Some(text) => {
            let kept = trim(text);
            if kept.as_str().is_empty() {
                nameless_device_label(object.device_instance)
            } else {
                kept
            }
        },
        None => nameless_device_label(object.device_instance),
    };
    let mut unnamed = object.object_type.clone();
    unnamed.append("_");
    unnamed.append(decimal_text(object.object_instance as u64).as_str());
    let name = match &object.object_name {
        Some(text) => {
            if is_blank(text.as_str()) {
                unnamed
            } else {
                text.clone()
            }
        },
        None => unnamed,
    };
    let tag_path = match device_label {
        Some(_) => {
            let mut path = label.clone();
            path.append("/");
            path.append(name.as_str());
            path
        },
        None => name,
    };
    PointConfig {
        enabled: true,
        device_instance: object.device_instance,
        device_label: label,
        object_type: object.object_type.clone(),
        object_instance: object.object_instance,
        property: "present_value".to_string(),
        tag_path,
        poll_interval_secs: 10,
    }
}

/// Each byte as two hexadecimal digits.
pub open spec fn hex_bytes(bytes: Seq<u8>) -> Seq<Seq<char>> {
    Seq::new(bytes.len(), |i: int| hex_byte(bytes[i]))
}

/// A BACnet/IP address, four bytes for the host and two for the port; shorter addresses are shown
/// in hexadecimal, with colons.
pub open spec fn bip_address(mac: Seq<u8>) -> Seq<char> {
    if mac.len() >= 6 {
        address_text(Ipv4Addr { a: mac[0], b: mac[1], c: mac[2], d: mac[3] }) + ":"@ + decimal(
            (mac[4] * 256 + mac[5]) as nat,
        )
    } else {
        join(hex_bytes(mac), ":"@)
    }
}

pub fn format_bip_mac(mac: &[u8]) -> (text: String)
    ensures
        text@ == bip_address(mac@),
{
    if mac.len() >= 6 {
        let ip = Ipv4Addr::new(mac[0], mac[1], mac[2], mac[3]);
        let port: u64 = mac[4] as u64 * 256 + mac[5] as u64;
        let mut text = ip.to_text();
        text.append(":");
        text.append(decimal_text(port).as_str());
        text
    } else {
        let mut parts: Vec<String> = Vec::new();
        let mut i: usize = 0;
        while i < mac.len()
            invariant
                i <= mac@.len(),
                texts(parts@) == hex_bytes(mac@.take(i as int)),
            decreases mac.len() - i,
        {
            let ghost before = parts@;
            let one = slice_subrange(mac, i, i + 1);
            let part = hex(one);
            proof {
                assert(one@.drop_last() =~= Seq::<u8>::empty());
                assert(one@.last() == mac@[i as int]);
                assert(hex_text(one@.drop_last()) =~= Seq::<char>::empty());
                assert(part@ =~= hex_byte(mac@[i as int]));
                assert(hex_bytes(mac@.take(i as int + 1)) =~= hex_bytes(mac@.take(i as int)).push(
                    hex_byte(mac@[i as int]),
                ));
            }
            parts.push(part);
            assert(texts(parts@) =~= texts(before).push(part@));
            i += 1;
        }
        assert(mac@.take(mac@.len() as int) =~= mac@);
        join_texts(&parts, ":")
    }
}

} // verus!
