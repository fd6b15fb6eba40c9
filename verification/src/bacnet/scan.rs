//! Scanning a device: its object list is read entry by entry, and of each object its name,
//! description, units and present value.

use vstd::prelude::*;

use crate::bacnet::{
    instance_error, shown_text, visible_text, ObjectIdentifier, DESCRIPTION, DEVICE_TYPE,
    MAX_INSTANCE, OBJECT_NAME, PRESENT_VALUE, UNITS,
};
use crate::model::{
    lemma_views_push, opt_view, views, DeviceObject, DeviceObjectView, TelemetryValue,
    TelemetryValueView,
};
use crate::text::{clone_opt_text, opt_text};
use crate::value::{
    decode_object_identifier_value, decode_unsigned_value, law_object_id_bounds, object_id_of,
    object_type_name, type_of_text, type_text, unsigned_of, DecodeError, ObjectType,
    PropertyIdentifier,
};

verus! {

/// What of an object is being read.
#[derive(Debug, Clone, Copy, PartialEq, Eq, Structural)]
pub enum ScanStage {
    /// Nothing: its entry in the object list is still to be read.
    Entry,
    Name(ObjectIdentifier),
    Description(ObjectIdentifier),
    Units(ObjectIdentifier),
    Value(ObjectIdentifier),
}

/// What to do next while a device is being scanned.
#[derive(Debug, PartialEq, Eq)]
pub enum ScanAction {
    /// Read how many entries the object list has.
    ReadCount,
    /// Read an entry of the object list.
    ReadEntry(u32),
    /// Read a property of an object.
    ReadProperty(ObjectIdentifier, PropertyIdentifier),
    /// Take the objects.
    Finish,
    /// The scan failed.
    Fail(String),
}

/// The contents of a [`ScanAction`].
#[verifier::ext_equal]
pub enum ScanActionView {
    ReadCount,
    ReadEntry(u32),
    ReadProperty(ObjectIdentifier, PropertyIdentifier),
    Finish,
    Fail(Seq<char>),
}

impl View for ScanAction {
    type V = ScanActionView;

    open spec fn view(&self) -> ScanActionView {
        match *self {
            ScanAction::ReadCount => ScanActionView::ReadCount,
            ScanAction::ReadEntry(index) => ScanActionView::ReadEntry(index),
            ScanAction::ReadProperty(object, property) => ScanActionView::ReadProperty(
                object,
                property,
            ),
            ScanAction::Finish => ScanActionView::Finish,
            ScanAction::Fail(message) => ScanActionView::Fail(message@),
        }
    }
}

/// The state of a scan.
#[derive(Debug)]
pub struct ObjectScan {
    pub device_instance: u32,
    pub max_objects: usize,
    /// How many entries are to be read.
    pub limit: usize,
    /// The entry that is being read, counted from one.
    pub index: usize,
    pub stage: ScanStage,
    pub name: Option<String>,
    pub description: Option<String>,
    pub units: Option<String>,
    pub objects: Vec<DeviceObject>,
}

/// The contents of an [`ObjectScan`].
#[verifier::ext_equal]
pub struct ObjectScanView {
    pub device_instance: u32,
    pub max_objects: usize,
    pub limit: usize,
    pub index: usize,
    pub stage: ScanStage,
    pub name: Option<Seq<char>>,
    pub description: Option<Seq<char>>,
    pub units: Option<Seq<char>>,
    pub objects: Seq<DeviceObjectView>,
}

impl View for ObjectScan {
    type V = ObjectScanView;

    open spec fn view(&self) -> ObjectScanView {
        ObjectScanView {
            device_instance: self.device_instance,
            max_objects: self.max_objects,
            limit: self.limit,
            index: self.index,
            stage: self.stage,
            name: opt_text(self.name),
            description: opt_text(self.description),
            units: opt_text(self.units),
            objects: views(self.objects@),
        }
    }
}

/// The state before anything was read.
pub open spec fn scan_start(device_instance: u32, max_objects: usize) -> ObjectScanView {
    ObjectScanView {
        device_instance,
        max_objects,
        limit: 0,
        index: 0,
        stage: ScanStage::Entry,
        name: None,
        description: None,
        units: None,
        objects: Seq::empty(),
    }
}

/// The first thing to do: read how long the object list is, where the device can have one.
pub open spec fn scan_first(device_instance: u32) -> ScanActionView {
    if device_instance > MAX_INSTANCE {
        ScanActionView::Fail(instance_error(device_instance))
    } else {
        ScanActionView::ReadCount
    }
}

/// The next entry, or the end.
pub open spec fn scan_next(state: ObjectScanView) -> (ObjectScanView, ScanActionView) {
    if state.index < state.limit {
        let index = (state.index + 1) as usize;
        (
            ObjectScanView { index, stage: ScanStage::Entry, ..state },
            ScanActionView::ReadEntry(index as u32),
        )
    } else {
        (ObjectScanView { stage: ScanStage::Entry, ..state }, ScanActionView::Finish)
    }
}

/// After the length of the object list was read.
pub open spec fn scan_counted(
    state: ObjectScanView,
    reply: Result<Seq<u8>, Seq<char>>,
) -> (ObjectScanView, ScanActionView) {
    match reply {
        Err(error) => (
            state,
            ScanActionView::Fail("failed to read objectList array length: "@ + error),
        ),
        Ok(bytes) => match unsigned_of(bytes) {
            Err(error) => (
                state,
                ScanActionView::Fail("failed to decode objectList length: "@ + error.message()),
            ),
            Ok(count) => scan_next(
                ObjectScanView {
                    limit: if count < state.max_objects {
                        count as usize
                    } else {
                        state.max_objects
                    },
                    index: 0,
                    ..state
                },
            ),
        },
    }
}

/// After an entry of the object list was read: one that could not be read or decoded is left
/// out, and so is the device itself.
pub open spec fn scan_entered(
    state: ObjectScanView,
    reply: Option<Seq<u8>>,
) -> (ObjectScanView, ScanActionView) {
    match reply {
        None => scan_next(state),
        Some(bytes) => match object_id_of(bytes) {
            Err(_) => scan_next(state),
            Ok((object_type, instance)) => if object_type == ObjectType(DEVICE_TYPE) {
                scan_next(state)
            } else {
                let object = ObjectIdentifier { object_type, instance };
                (
                    ObjectScanView { stage: ScanStage::Name(object), ..state },
                    ScanActionView::ReadProperty(object, PropertyIdentifier(OBJECT_NAME)),
                )
            },
        },
    }
}

/// The object that was read.
pub open spec fn scanned_object(
    state: ObjectScanView,
    object: ObjectIdentifier,
    value: Option<TelemetryValueView>,
) -> DeviceObjectView {
    DeviceObjectView {
        device_instance: state.device_instance,
        object_type: type_text(object.object_type),
        object_instance: object.instance,
        object_name: state.name,
        description: state.description,
        units: state.units,
        present_value: value,
    }
}

/// After a property of an object was read, or could not be.
pub open spec fn scan_property(
    state: ObjectScanView,
    value: Option<TelemetryValueView>,
    number_text: Seq<char>,
) -> (ObjectScanView, ScanActionView) {
    let text = shown_text(value, number_text);
    match state.stage {
        ScanStage::Entry => scan_next(state),
        ScanStage::Name(object) => (
            ObjectScanView { name: text, stage: ScanStage::Description(object), ..state },
            ScanActionView::ReadProperty(object, PropertyIdentifier(DESCRIPTION)),
        ),
        ScanStage::Description(object) => (
            ObjectScanView { description: text, stage: ScanStage::Units(object), ..state },
            ScanActionView::ReadProperty(object, PropertyIdentifier(UNITS)),
        ),
        ScanStage::Units(object) => (
            ObjectScanView { units: text, stage: ScanStage::Value(object), ..state },
            ScanActionView::ReadProperty(object, PropertyIdentifier(PRESENT_VALUE)),
        ),
        ScanStage::Value(object) => scan_next(
            ObjectScanView {
                objects: state.objects.push(scanned_object(state, object, value)),
                ..state
            },
        ),
    }
}

/// What holds of every object that a scan finds: it is on the device, its type is named in a form
/// that is read back, and its instance is one that can be asked for.
pub open spec fn can_be_asked_for(object: DeviceObjectView, device_instance: u32) -> bool {
    &&& object.device_instance == device_instance
    &&& type_of_text(object.object_type) is Some
    &&& object.object_instance <= MAX_INSTANCE
}

/// The object that a stage is about.
pub open spec fn stage_object(stage: ScanStage) -> Option<ObjectIdentifier> {
    match stage {
        ScanStage::Entry => None,
        ScanStage::Name(object) => Some(object),
        ScanStage::Description(object) => Some(object),
        ScanStage::Units(object) => Some(object),
        ScanStage::Value(object) => Some(object),
    }
}

impl ObjectScan {
    /// What holds of every scan: no more objects than entries, no more entries than were allowed,
    /// and every object can be asked for.
    pub open spec fn well_formed(&self) -> bool {
        let state = self@;
        &&& state.limit <= state.max_objects
        &&& state.index <= state.limit
        &&& state.objects.len() + if state.stage is Entry {
            0int
        } else {
            1
        } <= state.index
        &&& match stage_object(state.stage) {
            Some(object) => object.instance <= MAX_INSTANCE,
            None => true,
        }
        &&& forall|i: int|
            0 <= i < state.objects.len() ==> can_be_asked_for(
                #[trigger] state.objects[i],
                state.device_instance,
            )
    }

    pub fn start(device_instance: u32, max_objects: usize) -> (started: (ObjectScan, ScanAction))
        ensures
            started.0.well_formed(),
            started.0@ == scan_start(device_instance, max_objects),
            started.1@ == scan_first(device_instance),
    {
        let scan = ObjectScan {
            device_instance,
            max_objects,
            limit: 0,
            index: 0,
            stage: ScanStage::Entry,
            name: None,
            description: None,
            units: None,
            objects: Vec::new(),
        };
        assert(scan@ =~= scan_start(device_instance, max_objects));
        match ObjectIdentifier::new(ObjectType::from_raw(DEVICE_TYPE), device_instance) {
            Ok(_) => (scan, ScanAction::ReadCount),
            Err(message) => (scan, ScanAction::Fail(message)),
        }
    }

    fn next(&mut self) -> (action: ScanAction)
        requires
            old(self)@.limit <= old(self)@.max_objects,
            old(self)@.index <= old(self)@.limit,
            old(self)@.objects.len() <= old(self)@.index,
            forall|i: int|
                0 <= i < old(self)@.objects.len() ==> can_be_asked_for(
                    #[trigger] old(self)@.objects[i],
                    old(self)@.device_instance,
                ),
        ensures
            final(self).well_formed(),
            (final(self)@, action@) == scan_next(old(self)@),
            action@ is ReadEntry ==> final(self)@.objects.len() < final(self)@.index,
    {
        self.stage = ScanStage::Entry;
        if self.index < self.limit {
            self.index = self.index + 1;
            ScanAction::ReadEntry(self.index as u32)
        } else {
            ScanAction::Finish
        }
    }

    /// To be called with the length of the object list as the device sent it.
    pub fn count_read(&mut self, reply: Result<Vec<u8>, String>) -> (action: ScanAction)
        requires
            old(self).well_formed(),
            old(self)@.objects.len() == 0,
            old(self)@.stage is Entry,
        ensures
            final(self).well_formed(),
            (final(self)@, action@) == scan_counted(
                old(self)@,
                match reply {
                    Ok(bytes) => Ok(bytes@),
                    Err(message) => Err(message@),
                },
            ),
            action@ is ReadEntry ==> final(self)@.objects.len() < final(self)@.index,
    {
        match &reply {
            Err(error) => {
                let mut message = "failed to read objectList array length: ".to_string();
                message.append(error.as_str());
                ScanAction::Fail(message)
            },
            Ok(bytes) => match decode_unsigned_value(bytes.as_slice()) {
                Err(error) => {
                    let mut message = "failed to decode objectList length: ".to_string();
                    message.append(error.to_text().as_str());
                    ScanAction::Fail(message)
                },
                Ok(count) => {
                    self.limit = if count < self.max_objects as u64 {
                        count as usize
                    } else {
                        self.max_objects
                    };
                    self.index = 0;
                    self.next()
                },
            },
        }
    }

    /// To be called with the entry of the object list as the device sent it.
    pub fn entry_read(&mut self, reply: Option<Vec<u8>>) -> (action: ScanAction)
        requires
            old(self).well_formed(),
            old(self)@.objects.len() < old(self)@.index,
        ensures
            final(self).well_formed(),
            (final(self)@, action@) == scan_entered(
                old(self)@,
                match reply {
                    Some(bytes) => Some(bytes@),
                    None => None,
                },
            ),
            action@ is ReadEntry ==> final(self)@.objects.len() < final(self)@.index,
            action@ is ReadProperty ==> final(self)@.stage !is Entry,
    {
        let found = match &reply {
            Some(bytes) => decode_object_identifier_value(bytes.as_slice()),
            None => Err(DecodeError::Empty),
        };
        match found {
            Ok((object_type, instance)) => {
                if object_type == ObjectType::from_raw(DEVICE_TYPE) {
                    return self.next();
                }
                proof {
                    law_object_id_bounds(reply->Some_0@);
                }
                match ObjectIdentifier::new(object_type, instance) {
                    Ok(object) => {
                        self.stage = ScanStage::Name(object);
                        ScanAction::ReadProperty(
                            object,
                            PropertyIdentifier::from_raw(OBJECT_NAME),
                        )
                    },
                    Err(message) => ScanAction::Fail(message),
                }
            },
            Err(_) => self.next(),
        }
    }

    /// To be called with the property that was read, if it was; a number is shown as
    /// `number_text`.
    pub fn property_read(
        &mut self,
        value: Option<TelemetryValue>,
        number_text: &str,
    ) -> (action: ScanAction)
        requires
            old(self).well_formed(),
            old(self)@.stage !is Entry,
        ensures
            final(self).well_formed(),
            (final(self)@, action@) == scan_property(
                old(self)@,
                opt_view(value),
                number_text@,
            ),
            action@ is ReadEntry ==> final(self)@.objects.len() < final(self)@.index,
            action@ is ReadProperty ==> final(self)@.stage !is Entry,
    {
        broadcast use lemma_views_push;
        let text = visible_text(&value, number_text);
        match self.stage {
            ScanStage::Entry => self.next(),
            ScanStage::Name(object) => {
                self.name = text;
                self.stage = ScanStage::Description(object);
                ScanAction::ReadProperty(object, PropertyIdentifier::from_raw(DESCRIPTION))
            },
            ScanStage::Description(object) => {
                self.description = text;
                self.stage = ScanStage::Units(object);
                ScanAction::ReadProperty(object, PropertyIdentifier::from_raw(UNITS))
            },
            ScanStage::Units(object) => {
                self.units = text;
                self.stage = ScanStage::Value(object);
                ScanAction::ReadProperty(object, PropertyIdentifier::from_raw(PRESENT_VALUE))
            },
            ScanStage::Value(object) => {
                let ghost before = self@;
                let found = DeviceObject {
                    device_instance: self.device_instance,
                    object_type: object_type_name(object.object_type),
                    object_instance: object.instance,
                    object_name: clone_opt_text(&self.name),
                    description: clone_opt_text(&self.description),
                    units: clone_opt_text(&self.units),
                    present_value: value,
                };
                self.objects.push(found);
                proof {
                    assert(self@.objects =~= before.objects.push(found@));
                    assert forall|i: int| 0 <= i < self@.objects.len() implies can_be_asked_for(
                        #[trigger] self@.objects[i],
                        self@.device_instance,
                    ) by {
                        if i < before.objects.len() {
                            assert(self@.objects[i] == before.objects[i]);
                        }
                    }
                }
                self.next()
            },
        }
    }
}

/// How far a scan still has to go: the entries, and within an entry the properties.
pub open spec fn scan_left(state: ObjectScanView) -> (int, int) {
    (
        state.limit - state.index,
        match state.stage {
            ScanStage::Entry => 5int,
            ScanStage::Name(_) => 4,
            ScanStage::Description(_) => 3,
            ScanStage::Units(_) => 2,
            ScanStage::Value(_) => 1,
        },
    )
}

/// A scan ends: every reply leaves fewer entries, or as many entries and fewer properties, or
/// finishes.
pub proof fn law_scan_ends(
    state: ObjectScanView,
    entry: Option<Seq<u8>>,
    value: Option<TelemetryValueView>,
    number_text: Seq<char>,
)
    requires
        state.index <= state.limit,
    ensures
        state.stage is Entry ==> {
            let (after, action) = scan_entered(state, entry);
            let (before_left, left) = (scan_left(state), scan_left(after));
            action !is Finish ==> 0 <= left.0 < before_left.0 || (left.0 == before_left.0
                && left.1 < before_left.1)
        },
        state.stage !is Entry ==> {
            let (after, action) = scan_property(state, value, number_text);
            let (before_left, left) = (scan_left(state), scan_left(after));
            action !is Finish ==> 0 <= left.0 < before_left.0 || (left.0 == before_left.0
                && left.1 < before_left.1)
        },
{
}

/// Objects that were found stay found, in the order of the object list, and the device itself is
/// never one of them.
pub proof fn law_scan_keeps_objects(
    state: ObjectScanView,
    entry: Option<Seq<u8>>,
    value: Option<TelemetryValueView>,
    number_text: Seq<char>,
)
    ensures
        scan_entered(state, entry).0.objects == state.objects,
        match stage_object(scan_entered(state, entry).0.stage) {
            Some(object) => state.stage is Entry ==> object.object_type != ObjectType(DEVICE_TYPE),
            None => true,
        },
        ({
            let after = scan_property(state, value, number_text).0;
            after.objects == state.objects || (state.stage is Value && after.objects
                == state.objects.push(
                scanned_object(state, stage_object(state.stage)->Some_0, value),
            ))
        }),
{
}

} // verus!
