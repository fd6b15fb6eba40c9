//! What a scan finds, and the points that are made of it.

use vstd::prelude::*;

use crate::bacnet::scan::{
    scan_counted, scan_entered, scan_first, scan_property, scan_start, ObjectScanView,
    ScanActionView, ScanStage,
};
use crate::bacnet::{label_of_device, object_point, ObjectIdentifier};
use crate::laws::decoding::{law_object_ids_read_back, tagged};
use crate::model::{DeviceObjectView, TelemetryValueView};
use crate::numerals::decimal;
use crate::text::{all_space, lemma_blank_is_space, trimmed};
use crate::value::{type_text, unsigned_of, ObjectType, PropertyIdentifier};

verus! {

/// Whether a text is what a reply shows: the text itself or, where the reply is a number, the way
/// that number is written; and none where there is no reply, or nothing but white space to show.
pub open spec fn shows(
    text: Option<Seq<char>>,
    reply: Option<TelemetryValueView>,
    number_text: Seq<char>,
) -> bool {
    match reply {
        None => text is None,
        Some(TelemetryValueView::Text(shown)) => if all_space(shown) {
            text is None
        } else {
            text == Some(shown)
        },
        Some(TelemetryValueView::Number(_)) => if all_space(number_text) {
            text is None
        } else {
            text == Some(number_text)
        },
    }
}

/// An object is made of the replies to its own reads, whatever was read of other objects: its name,
/// its description and its units are what the replies to the reads of these properties show, its
/// value is the reply to the read of that, and where a read gave nothing, the object has nothing
/// there. It is added behind those that were found before.
pub proof fn law_objects_are_made_of_their_own_replies(
    state: ObjectScanView,
    object: ObjectIdentifier,
    name: Option<TelemetryValueView>,
    name_number: Seq<char>,
    description: Option<TelemetryValueView>,
    description_number: Seq<char>,
    units: Option<TelemetryValueView>,
    units_number: Seq<char>,
    value: Option<TelemetryValueView>,
    value_number: Seq<char>,
)
    requires
        state.stage == ScanStage::Name(object),
        state.index <= state.limit,
    ensures
        ({
            let (named, next) = scan_property(state, name, name_number);
            let (described, then_next) = scan_property(named, description, description_number);
            let (measured, last_next) = scan_property(described, units, units_number);
            let (done, after) = scan_property(measured, value, value_number);
            let found = done.objects.last();
            &&& next == ScanActionView::ReadProperty(object, PropertyIdentifier(28))
            &&& then_next == ScanActionView::ReadProperty(object, PropertyIdentifier(117))
            &&& last_next == ScanActionView::ReadProperty(object, PropertyIdentifier(85))
            &&& done.objects.len() == state.objects.len() + 1
            &&& done.objects.drop_last() == state.objects
            &&& found.device_instance == state.device_instance
            &&& found.object_type == type_text(object.object_type)
            &&& found.object_instance == object.instance
            &&& shows(found.object_name, name, name_number)
            &&& shows(found.description, description, description_number)
            &&& shows(found.units, units, units_number)
            &&& found.present_value == value
            &&& done.device_instance == state.device_instance
            &&& done.limit == state.limit
            &&& if state.index < state.limit {
                done.index == state.index + 1 && after == ScanActionView::ReadEntry(
                    done.index as u32,
                )
            } else {
                after == ScanActionView::Finish
            }
        }),
{
    lemma_shows(name, name_number);
    lemma_shows(description, description_number);
    lemma_shows(units, units_number);
    let done = scan_property(
        scan_property(
            scan_property(scan_property(state, name, name_number).0, description, description_number).0,
            units,
            units_number,
        ).0,
        value,
        value_number,
    ).0;
    assert(done.objects.drop_last() =~= state.objects);
}

proof fn lemma_shows(reply: Option<TelemetryValueView>, number_text: Seq<char>)
    ensures
        shows(crate::bacnet::shown_text(reply, number_text), reply, number_text),
{
    lemma_blank_is_space(number_text);
    if let Some(TelemetryValueView::Text(shown)) = reply {
        lemma_blank_is_space(shown);
    }
}

/// An entry of the object list that names an object is followed by the read of that object's name;
/// the device itself, and entries that were not read or are no object identifier, are passed over.
/// No entry changes what was found before.
pub proof fn law_entries_name_the_objects(
    state: ObjectScanView,
    object_type: u32,
    instance: u32,
    data: Seq<u8>,
    rest: Seq<u8>,
)
    requires
        object_type < 0x400,
        instance < 0x40_0000,
        data.len() == 4,
        data[0] * 0x100_0000 + data[1] * 0x1_0000 + data[2] * 0x100 + data[3] == object_type
            * 0x40_0000 + instance,
        state.index <= state.limit,
    ensures
        ({
            let (after, action) = scan_entered(state, Some(tagged(12, data) + rest));
            let object = ObjectIdentifier { object_type: ObjectType(object_type), instance };
            &&& after.objects == state.objects
            &&& after.device_instance == state.device_instance
            &&& object_type != 8 ==> {
                &&& after.stage == ScanStage::Name(object)
                &&& action == ScanActionView::ReadProperty(object, PropertyIdentifier(77))
                &&& after.index == state.index
                &&& after.limit == state.limit
            }
            &&& object_type == 8 ==> scan_entered(state, None) == (after, action)
        }),
        ({
            let (after, action) = scan_entered(state, None);
            &&& after.objects == state.objects
            &&& after.stage == ScanStage::Entry
            &&& after.limit == state.limit
            &&& if state.index < state.limit {
                after.index == state.index + 1 && action == ScanActionView::ReadEntry(
                    after.index as u32,
                )
            } else {
                after.index == state.index && action == ScanActionView::Finish
            }
        }),
{
    law_object_ids_read_back(12, object_type, instance, data, rest);
}

/// A scan starts with nothing found, and with the length of the object list, which is not asked for
/// on a device that cannot exist.
pub proof fn law_scans_start_with_the_length(device_instance: u32, max_objects: usize)
    ensures
        ({
            let state = scan_start(device_instance, max_objects);
            &&& state.device_instance == device_instance
            &&& state.max_objects == max_objects
            &&& state.objects.len() == 0
            &&& state.limit == 0
            &&& state.index == 0
            &&& state.name is None
            &&& state.description is None
            &&& state.units is None
        }),
        device_instance <= 4194303 ==> scan_first(device_instance) is ReadCount,
        device_instance > 4194303 ==> scan_first(device_instance) == ScanActionView::Fail(
            "value out of range: instance number "@ + decimal(device_instance as nat)
                + " exceeds max 4194303"@,
        ),
{
}

/// As many entries are read as the object list has, and no more than are allowed, from the first on;
/// a length that is not read or is no number ends the scan.
pub proof fn law_no_more_entries_than_allowed(
    state: ObjectScanView,
    reply: Result<Seq<u8>, Seq<char>>,
)
    ensures
        reply is Ok && unsigned_of(reply->Ok_0) is Ok ==> {
            let count = unsigned_of(reply->Ok_0)->Ok_0;
            let (after, action) = scan_counted(state, reply);
            &&& after.limit <= count
            &&& after.limit <= state.max_objects
            &&& after.limit == count || after.limit == state.max_objects
            &&& after.objects == state.objects
            &&& after.limit > 0 ==> action == ScanActionView::ReadEntry(1) && after.index == 1
            &&& after.limit == 0 ==> action == ScanActionView::Finish
        },
        reply is Err || unsigned_of(reply->Ok_0) is Err ==> scan_counted(state, reply).1 is Fail,
{
}

/// The point that is made from an object reads that very object: its device, its type and its
/// instance are the object's. It reads the present value, every ten seconds, from the start.
pub proof fn law_points_read_their_objects(
    object: DeviceObjectView,
    device_label: Option<Seq<char>>,
)
    ensures
        ({
            let point = object_point(object, device_label);
            &&& point.device_instance == object.device_instance
            &&& point.object_type == object.object_type
            &&& point.object_instance == object.object_instance
            &&& point.property == "present_value"@
            &&& point.enabled
            &&& point.poll_interval_secs == 10
        }),
{
}

/// The label and the path of the point that is made from an object: the label is the one that was
/// given, without the white space around it, or `device_` and the device instance; the path ends
/// with the object's name or, where it has none, its type and instance, and begins with the label
/// where one was given.
pub proof fn law_points_are_labelled(object: DeviceObjectView, device_label: Option<Seq<char>>)
    ensures
        ({
            let point = object_point(object, device_label);
            let given = device_label is Some && !all_space(device_label->Some_0);
            let named = object.object_name is Some && !all_space(object.object_name->Some_0);
            let name = if named {
                object.object_name->Some_0
            } else {
                object.object_type + "_"@ + decimal(object.object_instance as nat)
            };
            &&& given ==> point.device_label == trimmed(device_label->Some_0)
            &&& !given ==> point.device_label == "device_"@ + decimal(
                object.device_instance as nat,
            )
            &&& device_label is None ==> point.tag_path == name
            &&& device_label is Some ==> point.tag_path == point.device_label + "/"@ + name
        }),
{
    if let Some(text) = device_label {
        lemma_blank_is_space(text);
    }
    if let Some(text) = object.object_name {
        lemma_blank_is_space(text);
    }
}

/// The label of a device is the name that it was read to have, or `device_` and its instance.
pub proof fn law_devices_are_labelled(
    device_instance: u32,
    name: Option<TelemetryValueView>,
    number_text: Seq<char>,
)
    ensures
        ({
            let label = label_of_device(device_instance, name, number_text);
            shows(Some(label), name, number_text) || (shows(None, name, number_text) && label
                == "device_"@ + decimal(device_instance as nat))
        }),
{
    lemma_shows(name, number_text);
}

} // verus!
