//! The names of object types and properties.

use vstd::prelude::*;

use crate::bacnet::object_point;
use crate::model::{
    identity_char, identity_of, identity_text, law_identity_spelling_is_idempotent,
    DeviceObjectView,
};
use crate::numerals::{decimal, unsigned_value};
use crate::text::{lemma_strip, trimmed, CharClass};
use crate::value::{
    ascii_lower_text, bare_lower, lemma_property_by_spelling_first,
    lemma_property_by_spelling_unique, lemma_property_name_of_first, lemma_type_by_spelling_first,
    lemma_type_by_spelling_unique, lemma_type_name_of_first, object_type_entry, property_by_spelling,
    property_entry, property_name_of, property_of_text, property_text, spelled, type_by_spelling,
    type_name_of, type_of_text, type_text, ObjectType, PropertyIdentifier,
};

verus! {

/// A name of the table stands for its own number, unless an earlier one is spelled the same, and is
/// shown for that number in small letters, unless an earlier one has the same number.
pub proof fn law_named_object_types(index: usize)
    requires
        index < 65,
    ensures
        (forall|earlier: usize|
            #![trigger object_type_entry(earlier)]
            earlier < index ==> spelled(object_type_entry(earlier).0) != spelled(
                object_type_entry(index).0,
            )) && unsigned_value(spelled(object_type_entry(index).0), 0xffff_ffff) is None
            ==> type_of_text(object_type_entry(index).0) == Some(
            ObjectType(object_type_entry(index).1),
        ),
        (forall|earlier: usize|
            #![trigger object_type_entry(earlier)]
            earlier < index ==> object_type_entry(earlier).1 != object_type_entry(index).1)
            ==> type_text(ObjectType(object_type_entry(index).1)) == ascii_lower_text(
            object_type_entry(index).0,
        ),
{
    let (name, number) = object_type_entry(index);
    if forall|earlier: usize|
        #![trigger object_type_entry(earlier)]
        earlier < index ==> spelled(object_type_entry(earlier).0) != spelled(name) {
        lemma_type_by_spelling_unique(spelled(name), index, index as nat);
        assert(type_by_spelling(spelled(name), index as nat + 1) == Some(number));
        lemma_type_by_spelling_first(spelled(name), index as nat + 1);
    }
    if forall|earlier: usize|
        #![trigger object_type_entry(earlier)]
        earlier < index ==> object_type_entry(earlier).1 != number {
        lemma_unnumbered_types(number, index, index as nat);
        assert(type_name_of(number, index as nat + 1) == Some(name));
        lemma_type_name_of_first(number, index as nat + 1);
    }
}

proof fn lemma_unnumbered_types(number: u32, index: usize, count: nat)
    requires
        count <= index,
        forall|earlier: usize|
            #![trigger object_type_entry(earlier)]
            earlier < index ==> object_type_entry(earlier).1 != number,
    ensures
        type_name_of(number, count) is None,
    decreases count,
{
    if count > 0 {
        lemma_unnumbered_types(number, index, (count - 1) as nat);
        assert(((count - 1) as usize) < index);
    }
}

/// A number without a name is shown as it is.
pub proof fn law_unnamed_numbers(number: u32)
    ensures
        (forall|index: usize|
            #![trigger object_type_entry(index)]
            index < 65 ==> object_type_entry(index).1 != number) ==> type_text(ObjectType(number))
            == decimal(number as nat),
        (forall|index: usize|
            #![trigger property_entry(index)]
            index < 476 ==> property_entry(index).1 != number) ==> property_text(
            PropertyIdentifier(number),
        ) == decimal(number as nat),
{
    if forall|index: usize|
        #![trigger object_type_entry(index)]
        index < 65 ==> object_type_entry(index).1 != number {
        lemma_unnumbered_types(number, 65, 65);
    }
    if forall|index: usize|
        #![trigger property_entry(index)]
        index < 476 ==> property_entry(index).1 != number {
        lemma_unnumbered_properties(number, 476, 476);
    }
}

/// The same holds of properties: a name stands for its own number, and is shown for it.
pub proof fn law_named_properties(index: usize)
    requires
        index < 476,
    ensures
        (forall|earlier: usize|
            #![trigger property_entry(earlier)]
            earlier < index ==> spelled(property_entry(earlier).0) != spelled(
                property_entry(index).0,
            )) && unsigned_value(spelled(property_entry(index).0), 0xffff_ffff) is None
            ==> property_of_text(property_entry(index).0) == Some(
            PropertyIdentifier(property_entry(index).1),
        ),
        (forall|earlier: usize|
            #![trigger property_entry(earlier)]
            earlier < index ==> property_entry(earlier).1 != property_entry(index).1)
            ==> property_text(PropertyIdentifier(property_entry(index).1)) == ascii_lower_text(
            property_entry(index).0,
        ),
{
    let (name, number) = property_entry(index);
    if forall|earlier: usize|
        #![trigger property_entry(earlier)]
        earlier < index ==> spelled(property_entry(earlier).0) != spelled(name) {
        lemma_property_by_spelling_unique(spelled(name), index, index as nat);
        assert(property_by_spelling(spelled(name), index as nat + 1) == Some(number));
        lemma_property_by_spelling_first(spelled(name), index as nat + 1);
    }
    if forall|earlier: usize|
        #![trigger property_entry(earlier)]
        earlier < index ==> property_entry(earlier).1 != number {
        lemma_unnumbered_properties(number, index, index as nat);
        assert(property_name_of(number, index as nat + 1) == Some(name));
        lemma_property_name_of_first(number, index as nat + 1);
    }
}

proof fn lemma_unnumbered_properties(number: u32, index: usize, count: nat)
    requires
        count <= index,
        forall|earlier: usize|
            #![trigger property_entry(earlier)]
            earlier < index ==> property_entry(earlier).1 != number,
    ensures
        property_name_of(number, count) is None,
    decreases count,
{
    if count > 0 {
        lemma_unnumbered_properties(number, index, (count - 1) as nat);
        assert(((count - 1) as usize) < index);
    }
}

/// Points that are made from different objects are different points: objects of different devices,
/// with different instances, or of different types.
pub proof fn law_different_objects_make_different_points(
    left: DeviceObjectView,
    right: DeviceObjectView,
    left_label: Option<Seq<char>>,
    right_label: Option<Seq<char>>,
)
    requires
        left.device_instance != right.device_instance || left.object_instance
            != right.object_instance || type_of_text(left.object_type) != type_of_text(
            right.object_type,
        ),
    ensures
        identity_of(object_point(left, left_label)) != identity_of(
            object_point(right, right_label),
        ),
{
    lemma_identity_is_spelled_the_same(left.object_type);
    lemma_identity_is_spelled_the_same(right.object_type);
}

proof fn lemma_identity_is_spelled_the_same(text: Seq<char>)
    ensures
        spelled(identity_text(text)) == spelled(text),
{
    let kept = trimmed(text);
    let identity = identity_text(text);
    law_identity_spelling_is_idempotent(text);
    assert(identity_text(identity).len() == trimmed(identity).len());
    let (from, to) = lemma_strip(identity, CharClass::Space);
    assert(trimmed(identity) =~= identity);
    lemma_bare_identity(kept);
    assert(identity =~= Seq::new(kept.len(), |i: int| identity_char(kept[i])));
}

proof fn lemma_bare_identity(text: Seq<char>)
    ensures
        bare_lower(Seq::new(text.len(), |i: int| identity_char(text[i]))) == bare_lower(text),
    decreases text.len(),
{
    let named = Seq::new(text.len(), |i: int| identity_char(text[i]));
    if text.len() > 0 {
        let shorter = text.drop_last();
        lemma_bare_identity(shorter);
        assert(named.drop_last() =~= Seq::new(shorter.len(), |i: int| identity_char(shorter[i])));
        lemma_lowered_identity(text.last());
        assert(named.last() == identity_char(text.last()));
    }
}

proof fn lemma_lowered_identity(character: char)
    ensures
        ({
            let named = identity_char(character);
            let apart = character == '_' || character == '-' || character == ' ';
            &&& apart ==> named == '_'
            &&& !apart ==> named != '_' && named != '-' && named != ' '
            &&& !apart ==> crate::value::lowered(named) == crate::value::lowered(character)
        }),
{
}

} // verus!
