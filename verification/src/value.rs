//! BACnet application values: decoding them, and naming object types and properties.

use vstd::arithmetic::power::{lemma_pow_increases, lemma_pow_positive, pow};
use vstd::prelude::*;
use vstd::slice::slice_subrange;

use crate::model::{ascii_lower, to_ascii_lower, Numeric, TelemetryValue, TelemetryValueView};
use crate::numerals::{
    all_digits, decimal, decimal_text, hex_text, is_digit, law_decimal_reads_back,
    lemma_decimal_digits, parse_unsigned, unsigned_digits, unsigned_value,
};
use crate::text::{
    all_space, chars_of, is_space, lemma_strip, lemma_trimmed_outer_space,
    lemma_visible_is_not_blank, push_all, string_of, strip_chars, strip_end, strip_start, trimmed,
    CharClass,
};

pub use crate::numerals::hex;

verus! {

/// Why bytes are no value.
#[derive(Debug, Clone, Copy, PartialEq, Eq, Structural)]
pub enum DecodeError {
    Empty,
    UnsupportedTag(u8),
    Truncated,
    InvalidUtf8,
}

impl DecodeError {
    pub open spec fn message(self) -> Seq<char> {
        match self {
            DecodeError::Empty => "empty BACnet value"@,
            DecodeError::UnsupportedTag(tag) => "unsupported BACnet application tag "@ + decimal(
                tag as nat,
            ),
            DecodeError::Truncated => "truncated BACnet value"@,
            DecodeError::InvalidUtf8 => "invalid BACnet character string"@,
        }
    }

    pub fn to_text(self) -> (text: String)
        ensures
            text@ == self.message(),
    {
        match self {
            DecodeError::Empty => "empty BACnet value".to_string(),
            DecodeError::UnsupportedTag(tag) => {
                let mut text = "unsupported BACnet application tag ".to_string();
                text.append(decimal_text(tag as u64).as_str());
                text
            },
            DecodeError::Truncated => "truncated BACnet value".to_string(),
            DecodeError::InvalidUtf8 => "invalid BACnet character string".to_string(),
        }
    }
}

/// The number of an object type, named or not.
#[derive(Debug, Clone, Copy, PartialEq, Eq, Structural, Hash)]
pub struct ObjectType(pub u32);

impl ObjectType {
    pub fn from_raw(raw: u32) -> (object_type: ObjectType)
        ensures
            object_type == ObjectType(raw),
    {
        ObjectType(raw)
    }

    pub fn to_raw(self) -> (raw: u32)
        ensures
            raw == self.0,
    {
        self.0
    }
}

/// The number of a property, named or not.
#[derive(Debug, Clone, Copy, PartialEq, Eq, Structural, Hash)]
pub struct PropertyIdentifier(pub u32);

impl PropertyIdentifier {
    pub fn from_raw(raw: u32) -> (property: PropertyIdentifier)
        ensures
            property == PropertyIdentifier(raw),
    {
        PropertyIdentifier(raw)
    }

    pub fn to_raw(self) -> (raw: u32)
        ensures
            raw == self.0,
    {
        self.0
    }
}

/// The characters of the lower case of a character that is not ASCII, which
/// `char::to_lowercase` gives.
pub uninterp spec fn lower_case_chars(character: char) -> Seq<char>;

/// `char::to_lowercase`, its characters as a list. The lower case of an ASCII character is that
/// one character, with a letter from `A` to `Z` replaced by the one from `a` to `z`.
#[verifier::external_body]
fn lower_case(character: char) -> (lower: Vec<char>)
    ensures
        lower@ == if character as u32 <= 0x7f {
            seq![ascii_lower(character)]
        } else {
            lower_case_chars(character)
        },
{
    character.to_lowercase().collect()
}

/// `std::str::from_utf8`: the text that valid UTF-8 encodes, and nothing for other bytes.
#[verifier::external_body]
fn utf8_text(bytes: &[u8]) -> (text: Option<String>)
    ensures
        text is Some <==> vstd::utf8::valid_utf8(bytes@),
        match text {
            Some(value) => value@ == vstd::utf8::decode_utf8(bytes@),
            None => true,
        },
{
    std::str::from_utf8(bytes).ok().map(|text| text.to_string())
}

/// The characters of a character's lower case.
pub open spec fn lowered(character: char) -> Seq<char> {
    if character as u32 <= 0x7f {
        seq![ascii_lower(character)]
    } else {
        lower_case_chars(character)
    }
}

/// The lower case of a text, without underscores, hyphens and spaces.
pub open spec fn bare_lower(text: Seq<char>) -> Seq<char>
    decreases text.len(),
{
    if text.len() == 0 {
        text
    } else {
        let before = bare_lower(text.drop_last());
        let last = text.last();
        if last == '_' || last == '-' || last == ' ' {
            before
        } else {
            before + lowered(last)
        }
    }
}

/// How a name is spelled once case, separators and white space around it are left aside.
pub open spec fn spelled(text: Seq<char>) -> Seq<char> {
    bare_lower(trimmed(text))
}

/// A text with its ASCII letters in lower case.
pub open spec fn ascii_lower_text(text: Seq<char>) -> Seq<char> {
    Seq::new(text.len(), |i: int| ascii_lower(text[i]))
}

pub open spec fn is_upper(character: char) -> bool {
    0x41 <= character as u32 <= 0x5a
}

/// The names in the tables: a letter first, then letters, digits and underscores, all upper case.
pub open spec fn table_name(name: Seq<char>) -> bool {
    &&& name.len() > 0
    &&& is_upper(name[0])
    &&& forall|i: int|
        #![trigger name[i]]
        0 <= i < name.len() ==> is_upper(name[i]) || is_digit(name[i]) || name[i] == '_'
}

proof fn lemma_bare_lower_upper(name: Seq<char>)
    requires
        table_name(name),
    ensures
        bare_lower(ascii_lower_text(name)) == bare_lower(name),
        bare_lower(name).len() > 0,
        bare_lower(name)[0] == ascii_lower(name[0]),
    decreases name.len(),
{
    let lower = ascii_lower_text(name);
    assert(lower.last() == ascii_lower(name[name.len() - 1]));
    assert(lower.drop_last() =~= ascii_lower_text(name.drop_last()));
    assert(bare_lower(Seq::<char>::empty()) == Seq::<char>::empty());
    if name.len() == 1 {
        assert(name.drop_last() =~= Seq::<char>::empty());
        assert(lower.drop_last() =~= Seq::<char>::empty());
        assert(name.last() == name[0]);
        assert(bare_lower(name) =~= lowered(name[0]));
    } else {
        let shorter = name.drop_last();
        assert(forall|i: int| 0 <= i < shorter.len() ==> shorter[i] == name[i]);
        lemma_bare_lower_upper(shorter);
    }
}

/// The lower case of a table's name is spelled as the name is, and is not a number.
proof fn lemma_lower_spelling(name: Seq<char>)
    requires
        table_name(name),
    ensures
        spelled(ascii_lower_text(name)) == spelled(name),
        forall|max: nat| #[trigger] unsigned_value(spelled(name), max) is None,
{
    let lower = ascii_lower_text(name);
    assert(lower[0] == ascii_lower(name[0]));
    assert(lower.last() == ascii_lower(name[name.len() - 1]));
    lemma_visible_is_not_blank(name);
    lemma_visible_is_not_blank(lower);
    lemma_bare_lower_upper(name);
    let spelling = spelled(name);
    assert(unsigned_digits(spelling) == spelling);
    assert(!is_digit(spelling[0]));
}

proof fn lemma_bare_lower_digits(text: Seq<char>)
    requires
        all_digits(text),
    ensures
        bare_lower(text) == text,
    decreases text.len(),
{
    if text.len() > 0 {
        assert(is_digit(text[text.len() - 1]));
        let shorter = text.drop_last();
        assert forall|i: int| 0 <= i < shorter.len() implies is_digit(#[trigger] shorter[i]) by {
            assert(shorter[i] == text[i]);
        }
        lemma_bare_lower_digits(shorter);
        assert(shorter + seq![text.last()] =~= text);
    }
}

/// A number is spelled as it is written.
pub proof fn lemma_decimal_spelling(value: nat)
    ensures
        spelled(decimal(value)) == decimal(value),
{
    lemma_decimal_digits(value);
    law_decimal_reads_back(value, value);
    lemma_bare_lower_digits(decimal(value));
}

fn normalize_identifier(value: &str) -> (result: String)
    ensures
        result@ == spelled(value@),
{
    let kept = strip_chars(chars_of(value).as_slice(), CharClass::Space);
    let mut bare: Vec<char> = Vec::new();
    let mut i: usize = 0;
    assert(kept@.take(0) =~= Seq::<char>::empty());
    while i < kept.len()
        invariant
            i <= kept@.len(),
            bare@ == bare_lower(kept@.take(i as int)),
        decreases kept.len() - i,
    {
        proof {
            assert(kept@.take(i as int + 1).drop_last() =~= kept@.take(i as int));
        }
        let character = kept[i];
        if character != '_' && character != '-' && character != ' ' {
            push_all(&mut bare, lower_case(character).as_slice());
        }
        i += 1;
    }
    assert(kept@.take(kept@.len() as int) =~= kept@);
    string_of(bare.as_slice())
}

/// A text with its ASCII letters in lower case.
pub fn ascii_lower_string(text: &str) -> (result: String)
    ensures
        result@ == ascii_lower_text(text@),
{
    let chars = chars_of(text);
    let mut lower: Vec<char> = Vec::new();
    let mut i: usize = 0;
    while i < chars.len()
        invariant
            i <= chars@.len(),
            chars@ == text@,
            lower@ == ascii_lower_text(chars@.take(i as int)),
        decreases chars.len() - i,
    {
        proof {
            assert(ascii_lower_text(chars@.take(i as int + 1)) =~= ascii_lower_text(
                chars@.take(i as int),
            ).push(ascii_lower(chars@[i as int])));
        }
        lower.push(to_ascii_lower(chars[i]));
        i += 1;
    }
    assert(chars@.take(chars@.len() as int) =~= chars@);
    string_of(lower.as_slice())
}

/// How many object types have a name.
pub const OBJECT_TYPE_COUNT: usize = 65;

/// Entry `index` of `ObjectType::ALL_NAMED`: the name and the number.
pub uninterp spec fn object_type_entry(index: usize) -> (Seq<char>, u32);

/// `ObjectType::ALL_NAMED[index]`, as name and number. The table has [`OBJECT_TYPE_COUNT`] entries.
/// Each name begins with a letter and is made of upper-case ASCII letters, digits and
/// underscores, and no two names are spelled the same.
#[verifier::external_body]
fn named_object_type(index: usize) -> (named: (String, u32))
    requires
        index < OBJECT_TYPE_COUNT,
    ensures
        (named.0@, named.1) == object_type_entry(index),
        table_name(named.0@),
        forall|earlier: usize|
            #![trigger object_type_entry(earlier)]
            earlier < index ==> spelled(object_type_entry(earlier).0) != spelled(named.0@),
{
    let named = bacnet_types::enums::ObjectType::ALL_NAMED[index];
    (named.0.to_string(), named.1.to_raw())
}

/// The number of the first of the first `count` object types whose name is spelled so.
pub open spec fn type_by_spelling(spelling: Seq<char>, count: nat) -> Option<u32>
    decreases count,
{
    if count == 0 {
        None
    } else {
        match type_by_spelling(spelling, (count - 1) as nat) {
            Some(number) => Some(number),
            None => {
                let named = object_type_entry((count - 1) as usize);
                if spelled(named.0) == spelling {
                    Some(named.1)
                } else {
                    None
                }
            },
        }
    }
}

/// The name of the first of the first `count` object types with that number.
pub open spec fn type_name_of(number: u32, count: nat) -> Option<Seq<char>>
    decreases count,
{
    if count == 0 {
        None
    } else {
        match type_name_of(number, (count - 1) as nat) {
            Some(name) => Some(name),
            None => {
                let named = object_type_entry((count - 1) as usize);
                if named.1 == number {
                    Some(named.0)
                } else {
                    None
                }
            },
        }
    }
}

/// The object type that a text stands for: its number in decimal notation, or its name, whatever the
/// case and the separators.
pub open spec fn type_of_text(text: Seq<char>) -> Option<ObjectType> {
    match unsigned_value(spelled(text), u32::MAX as nat) {
        Some(number) => Some(ObjectType(number as u32)),
        None => match type_by_spelling(spelled(text), OBJECT_TYPE_COUNT as nat) {
            Some(number) => Some(ObjectType(number)),
            None => None,
        },
    }
}

/// The name of an object type in lower case, or its number in decimal notation where it has none.
pub open spec fn type_text(item: ObjectType) -> Seq<char> {
    match type_name_of(item.0, OBJECT_TYPE_COUNT as nat) {
        Some(name) => ascii_lower_text(name),
        None => decimal(item.0 as nat),
    }
}

pub fn object_type_from_text(value: &str) -> (result: Option<ObjectType>)
    ensures
        result == type_of_text(value@),
{
    let normalized = normalize_identifier(value);
    if let Some(raw) = parse_unsigned(normalized.as_str(), u32::MAX as u64) {
        return Some(ObjectType::from_raw(raw as u32));
    }
    let mut index: usize = 0;
    while index < OBJECT_TYPE_COUNT
        invariant
            index <= OBJECT_TYPE_COUNT,
            normalized@ == spelled(value@),
            unsigned_value(normalized@, u32::MAX as nat) is None,
            type_by_spelling(normalized@, index as nat) is None,
        decreases OBJECT_TYPE_COUNT - index,
    {
        let named = named_object_type(index);
        let name = normalize_identifier(named.0.as_str());
        if name == normalized {
            proof {
                assert(type_by_spelling(normalized@, index as nat + 1) == Some(named.1));
                lemma_type_by_spelling_first(normalized@, index as nat + 1);
            }
            return Some(ObjectType::from_raw(named.1));
        }
        index += 1;
    }
    None
}

pub proof fn lemma_type_by_spelling_first(spelling: Seq<char>, count: nat)
    requires
        count <= OBJECT_TYPE_COUNT,
        type_by_spelling(spelling, count) is Some,
    ensures
        type_by_spelling(spelling, OBJECT_TYPE_COUNT as nat) == type_by_spelling(spelling, count),
    decreases OBJECT_TYPE_COUNT - count,
{
    if count < OBJECT_TYPE_COUNT {
        lemma_type_by_spelling_first(spelling, count + 1);
    }
}

pub proof fn lemma_type_name_of_first(number: u32, count: nat)
    requires
        count <= OBJECT_TYPE_COUNT,
        type_name_of(number, count) is Some,
    ensures
        type_name_of(number, OBJECT_TYPE_COUNT as nat) == type_name_of(number, count),
    decreases OBJECT_TYPE_COUNT - count,
{
    if count < OBJECT_TYPE_COUNT {
        lemma_type_name_of_first(number, count + 1);
    }
}

/// No earlier entry is spelled as entry `index` is.
pub proof fn lemma_type_by_spelling_unique(spelling: Seq<char>, index: usize, count: nat)
    requires
        count <= index,
        forall|earlier: usize|
            #![trigger object_type_entry(earlier)]
            earlier < index ==> spelled(object_type_entry(earlier).0) != spelling,
    ensures
        type_by_spelling(spelling, count) is None,
    decreases count,
{
    if count > 0 {
        lemma_type_by_spelling_unique(spelling, index, (count - 1) as nat);
        assert(((count - 1) as usize) < index);
    }
}

/// The name of a ObjectType, in a form that [`object_type_from_text`] takes back.
pub fn object_type_name(item: ObjectType) -> (name: String)
    ensures
        name@ == type_text(item),
        type_of_text(name@) == Some(item),
{
    let mut index: usize = 0;
    while index < OBJECT_TYPE_COUNT
        invariant
            index <= OBJECT_TYPE_COUNT,
            type_name_of(item.0, index as nat) is None,
        decreases OBJECT_TYPE_COUNT - index,
    {
        let named = named_object_type(index);
        if named.1 == item.to_raw() {
            let name = ascii_lower_string(named.0.as_str());
            proof {
                let spelling = spelled(named.0@);
                assert(type_name_of(item.0, index as nat + 1) == Some(named.0@));
                lemma_type_name_of_first(item.0, index as nat + 1);
                lemma_lower_spelling(named.0@);
                lemma_type_by_spelling_unique(spelling, index, index as nat);
                assert(type_by_spelling(spelling, index as nat + 1) == Some(named.1));
                lemma_type_by_spelling_first(spelling, index as nat + 1);
            }
            return name;
        }
        index += 1;
    }
    proof {
        lemma_decimal_spelling(item.0 as nat);
        lemma_decimal_digits(item.0 as nat);
        assert(is_digit(decimal(item.0 as nat)[0]));
    }
    decimal_text(item.to_raw() as u64)
}

/// How many properties have a name.
pub const PROPERTY_COUNT: usize = 476;

/// Entry `index` of `PropertyIdentifier::ALL_NAMED`: the name and the number.
pub uninterp spec fn property_entry(index: usize) -> (Seq<char>, u32);

/// `PropertyIdentifier::ALL_NAMED[index]`, as name and number. The table has [`PROPERTY_COUNT`]
/// entries.
/// Each name begins with a letter and is made of upper-case ASCII letters, digits and
/// underscores, and no two names are spelled the same.
#[verifier::external_body]
fn named_property(index: usize) -> (named: (String, u32))
    requires
        index < PROPERTY_COUNT,
    ensures
        (named.0@, named.1) == property_entry(index),
        table_name(named.0@),
        forall|earlier: usize|
            #![trigger property_entry(earlier)]
            earlier < index ==> spelled(property_entry(earlier).0) != spelled(named.0@),
{
    let named = bacnet_types::enums::PropertyIdentifier::ALL_NAMED[index];
    (named.0.to_string(), named.1.to_raw())
}

/// The number of the first of the first `count` properties whose name is spelled so.
pub open spec fn property_by_spelling(spelling: Seq<char>, count: nat) -> Option<u32>
    decreases count,
{
    if count == 0 {
        None
    } else {
        match property_by_spelling(spelling, (count - 1) as nat) {
            Some(number) => Some(number),
            None => {
                let named = property_entry((count - 1) as usize);
                if spelled(named.0) == spelling {
                    Some(named.1)
                } else {
                    None
                }
            },
        }
    }
}

/// The name of the first of the first `count` properties with that number.
pub open spec fn property_name_of(number: u32, count: nat) -> Option<Seq<char>>
    decreases count,
{
    if count == 0 {
        None
    } else {
        match property_name_of(number, (count - 1) as nat) {
            Some(name) => Some(name),
            None => {
                let named = property_entry((count - 1) as usize);
                if named.1 == number {
                    Some(named.0)
                } else {
                    None
                }
            },
        }
    }
}

/// The property that a text stands for: its number in decimal notation, or its name, whatever the
/// case and the separators.
pub open spec fn property_of_text(text: Seq<char>) -> Option<PropertyIdentifier> {
    match unsigned_value(spelled(text), u32::MAX as nat) {
        Some(number) => Some(PropertyIdentifier(number as u32)),
        None => match property_by_spelling(spelled(text), PROPERTY_COUNT as nat) {
            Some(number) => Some(PropertyIdentifier(number)),
            None => None,
        },
    }
}

/// The name of a property in lower case, or its number in decimal notation where it has none.
pub open spec fn property_text(item: PropertyIdentifier) -> Seq<char> {
    match property_name_of(item.0, PROPERTY_COUNT as nat) {
        Some(name) => ascii_lower_text(name),
        None => decimal(item.0 as nat),
    }
}

pub fn property_identifier_from_text(value: &str) -> (result: Option<PropertyIdentifier>)
    ensures
        result == property_of_text(value@),
{
    let normalized = normalize_identifier(value);
    if let Some(raw) = parse_unsigned(normalized.as_str(), u32::MAX as u64) {
        return Some(PropertyIdentifier::from_raw(raw as u32));
    }
    let mut index: usize = 0;
    while index < PROPERTY_COUNT
        invariant
            index <= PROPERTY_COUNT,
            normalized@ == spelled(value@),
            unsigned_value(normalized@, u32::MAX as nat) is None,
            property_by_spelling(normalized@, index as nat) is None,
        decreases PROPERTY_COUNT - index,
    {
        let named = named_property(index);
        let name = normalize_identifier(named.0.as_str());
        if name == normalized {
            proof {
                assert(property_by_spelling(normalized@, index as nat + 1) == Some(named.1));
                lemma_property_by_spelling_first(normalized@, index as nat + 1);
            }
            return Some(PropertyIdentifier::from_raw(named.1));
        }
        index += 1;
    }
    None
}

pub proof fn lemma_property_by_spelling_first(spelling: Seq<char>, count: nat)
    requires
        count <= PROPERTY_COUNT,
        property_by_spelling(spelling, count) is Some,
    ensures
        property_by_spelling(spelling, PROPERTY_COUNT as nat) == property_by_spelling(spelling, count),
    decreases PROPERTY_COUNT - count,
{
    if count < PROPERTY_COUNT {
        lemma_property_by_spelling_first(spelling, count + 1);
    }
}

pub proof fn lemma_property_name_of_first(number: u32, count: nat)
    requires
        count <= PROPERTY_COUNT,
        property_name_of(number, count) is Some,
    ensures
        property_name_of(number, PROPERTY_COUNT as nat) == property_name_of(number, count),
    decreases PROPERTY_COUNT - count,
{
    if count < PROPERTY_COUNT {
        lemma_property_name_of_first(number, count + 1);
    }
}

/// No earlier entry is spelled as entry `index` is.
pub proof fn lemma_property_by_spelling_unique(spelling: Seq<char>, index: usize, count: nat)
    requires
        count <= index,
        forall|earlier: usize|
            #![trigger property_entry(earlier)]
            earlier < index ==> spelled(property_entry(earlier).0) != spelling,
    ensures
        property_by_spelling(spelling, count) is None,
    decreases count,
{
    if count > 0 {
        lemma_property_by_spelling_unique(spelling, index, (count - 1) as nat);
        assert(((count - 1) as usize) < index);
    }
}

/// The name of a PropertyIdentifier, in a form that [`property_identifier_from_text`] takes back.
pub fn property_name(item: PropertyIdentifier) -> (name: String)
    ensures
        name@ == property_text(item),
        property_of_text(name@) == Some(item),
{
    let mut index: usize = 0;
    while index < PROPERTY_COUNT
        invariant
            index <= PROPERTY_COUNT,
            property_name_of(item.0, index as nat) is None,
        decreases PROPERTY_COUNT - index,
    {
        let named = named_property(index);
        if named.1 == item.to_raw() {
            let name = ascii_lower_string(named.0.as_str());
            proof {
                let spelling = spelled(named.0@);
                assert(property_name_of(item.0, index as nat + 1) == Some(named.0@));
                lemma_property_name_of_first(item.0, index as nat + 1);
                lemma_lower_spelling(named.0@);
                lemma_property_by_spelling_unique(spelling, index, index as nat);
                assert(property_by_spelling(spelling, index as nat + 1) == Some(named.1));
                lemma_property_by_spelling_first(spelling, index as nat + 1);
            }
            return name;
        }
        index += 1;
    }
    proof {
        lemma_decimal_spelling(item.0 as nat);
        lemma_decimal_digits(item.0 as nat);
        assert(is_digit(decimal(item.0 as nat)[0]));
    }
    decimal_text(item.to_raw() as u64)
}

/// The payload of an application-tagged value: the bytes behind its first byte, or behind its
/// second where the length did not fit into the first.
pub open spec fn payload(bytes: Seq<u8>) -> Result<Seq<u8>, DecodeError> {
    if bytes.len() == 0 {
        Err(DecodeError::Empty)
    } else {
        let code = bytes[0] % 8;
        if code <= 4 {
            payload_range(bytes, 1, code as int)
        } else if code == 5 {
            if bytes.len() < 2 {
                Err(DecodeError::Truncated)
            } else {
                payload_range(bytes, 2, bytes[1] as int)
            }
        } else {
            Err(DecodeError::UnsupportedTag(bytes[0] / 16))
        }
    }
}

/// `length` bytes from `offset` on, where there are so many.
pub open spec fn payload_range(bytes: Seq<u8>, offset: int, length: int) -> Result<
    Seq<u8>,
    DecodeError,
> {
    if offset + length > bytes.len() {
        Err(DecodeError::Truncated)
    } else {
        Ok(bytes.subrange(offset, offset + length))
    }
}

/// The number whose lower places are `bytes` in big-endian order, and whose higher places are
/// `start`.
pub open spec fn extended(start: int, bytes: Seq<u8>) -> int
    decreases bytes.len(),
{
    if bytes.len() == 0 {
        start
    } else {
        extended(start, bytes.drop_last()) * 256 + bytes.last()
    }
}

/// The unsigned big-endian number that `bytes` are, its lowest 64 bits.
pub open spec fn unsigned_number(bytes: Seq<u8>) -> int {
    extended(0, bytes) % 0x1_0000_0000_0000_0000
}

/// The lowest 64 bits of a number, in two's complement.
pub open spec fn low_signed(number: int) -> int {
    let low = number % 0x1_0000_0000_0000_0000;
    if low < 0x8000_0000_0000_0000 {
        low
    } else {
        low - 0x1_0000_0000_0000_0000
    }
}

/// The big-endian two's complement number that `bytes` are, its lowest 64 bits.
pub open spec fn signed_number(bytes: Seq<u8>) -> int {
    if bytes.len() > 0 && bytes[0] >= 0x80 {
        low_signed(extended(-1, bytes))
    } else {
        low_signed(extended(0, bytes))
    }
}

/// The number that an application-tagged unsigned value or enumeration holds.
pub open spec fn unsigned_of(bytes: Seq<u8>) -> Result<u64, DecodeError> {
    match payload(bytes) {
        Ok(data) => Ok(unsigned_number(data) as u64),
        Err(error) => Err(error),
    }
}

/// The object type and instance that four bytes are: ten bits and twenty-two bits.
pub open spec fn object_id_of(bytes: Seq<u8>) -> Result<(ObjectType, u32), DecodeError> {
    match payload(bytes) {
        Ok(data) => if data.len() != 4 {
            Err(DecodeError::Truncated)
        } else {
            let raw = extended(0, data);
            Ok((ObjectType((raw / 0x40_0000) as u32), (raw % 0x40_0000) as u32))
        },
        Err(error) => Err(error),
    }
}

/// The text that a character string holds. Its first byte says how the others are encoded; other
/// encodings than UTF-8 and those that are read as such are shown in hexadecimal.
pub open spec fn character_string_of(data: Seq<u8>) -> Result<Seq<char>, DecodeError> {
    if data.len() == 0 {
        Ok(Seq::empty())
    } else {
        let rest = data.skip(1);
        if data[0] == 0 || data[0] == 3 || data[0] == 4 || data[0] == 5 {
            if vstd::utf8::valid_utf8(rest) {
                Ok(vstd::utf8::decode_utf8(rest))
            } else {
                Err(DecodeError::InvalidUtf8)
            }
        } else {
            Ok(hex_text(rest))
        }
    }
}

/// The scalar value that application-tagged bytes are.
pub open spec fn scalar_of(bytes: Seq<u8>) -> Result<TelemetryValueView, DecodeError> {
    if bytes.len() == 0 {
        Err(DecodeError::Empty)
    } else {
        let tag = bytes[0] / 16;
        if tag == 0 {
            Ok(TelemetryValueView::Text("null"@))
        } else if tag == 1 {
            Ok(
                TelemetryValueView::Text(
                    if bytes[0] % 8 != 0 {
                        "true"@
                    } else {
                        "false"@
                    },
                ),
            )
        } else if tag == 12 {
            match object_id_of(bytes) {
                Ok(id) => Ok(
                    TelemetryValueView::Text(
                        type_text(id.0) + ","@ + decimal(id.1 as nat),
                    ),
                ),
                Err(error) => Err(error),
            }
        } else if tag == 2 || tag == 3 || tag == 4 || tag == 5 || tag == 7 || tag == 9 {
            match payload(bytes) {
                Ok(data) => payload_value(tag, data),
                Err(error) => Err(error),
            }
        } else {
            Err(DecodeError::UnsupportedTag(tag))
        }
    }
}

/// The value that a payload is under an application tag.
pub open spec fn payload_value(tag: u8, data: Seq<u8>) -> Result<
    TelemetryValueView,
    DecodeError,
> {
    if tag == 2 {
        Ok(TelemetryValueView::Number(Numeric::Unsigned(unsigned_number(data) as u64)))
    } else if tag == 3 {
        Ok(TelemetryValueView::Number(Numeric::Signed(signed_number(data) as i64)))
    } else if tag == 4 {
        if data.len() == 4 {
            Ok(TelemetryValueView::Number(Numeric::Real(extended(0, data) as u32)))
        } else {
            Err(DecodeError::Truncated)
        }
    } else if tag == 5 {
        if data.len() == 8 {
            Ok(TelemetryValueView::Number(Numeric::Double(extended(0, data) as u64)))
        } else {
            Err(DecodeError::Truncated)
        }
    } else if tag == 7 {
        match character_string_of(data) {
            Ok(text) => Ok(TelemetryValueView::Text(text)),
            Err(error) => Err(error),
        }
    } else {
        Ok(TelemetryValueView::Text(decimal(unsigned_number(data) as nat)))
    }
}

fn application_payload(bytes: &[u8]) -> (result: Result<&[u8], DecodeError>)
    ensures
        match result {
            Ok(data) => payload(bytes@) == Ok::<Seq<u8>, DecodeError>(data@),
            Err(error) => payload(bytes@) == Err::<Seq<u8>, DecodeError>(error),
        },
{
    if bytes.len() == 0 {
        return Err(DecodeError::Empty);
    }
    let first: u8 = bytes[0];
    assert(first & 7 == first % 8 && first >> 4 == first / 16) by (bit_vector);
    let length_code: u8 = first & 0x07;
    let offset: usize;
    let length: usize;
    if length_code <= 4 {
        offset = 1;
        length = length_code as usize;
    } else if length_code == 5 {
        if bytes.len() < 2 {
            return Err(DecodeError::Truncated);
        }
        offset = 2;
        length = bytes[1] as usize;
    } else {
        return Err(DecodeError::UnsupportedTag(first >> 4));
    }
    let end: usize = offset + length;
    if end > bytes.len() {
        return Err(DecodeError::Truncated);
    }
    Ok(slice_subrange(bytes, offset, end))
}

proof fn lemma_shift_in(before: int, low: u64, byte: u8)
    requires
        low == before % 0x1_0000_0000_0000_0000,
    ensures
        ((low << 8) | (byte as u64)) == (before * 256 + byte) % 0x1_0000_0000_0000_0000,
{
    assert(((low << 8) | (byte as u64)) == (low % 0x100_0000_0000_0000) * 256 + byte)
        by (bit_vector);
    let high = before / 0x1_0000_0000_0000_0000;
    assert(before == high * 0x1_0000_0000_0000_0000 + low);
    let top = low as int / 0x100_0000_0000_0000;
    let rest = low as int % 0x100_0000_0000_0000;
    assert(low == top * 0x100_0000_0000_0000 + rest);
    assert(before * 256 + byte == (high * 256 + top) * 0x1_0000_0000_0000_0000 + (rest * 256
        + byte));
}

/// Shifts bytes into a number from the right, and keeps its lowest 64 bits.
fn shift_in_bytes(start: u64, data: &[u8], Ghost(number): Ghost<int>) -> (value: u64)
    requires
        start == number % 0x1_0000_0000_0000_0000,
    ensures
        value == extended(number, data@) % 0x1_0000_0000_0000_0000,
{
    let mut value: u64 = start;
    let mut i: usize = 0;
    assert(data@.take(0) =~= Seq::<u8>::empty());
    while i < data.len()
        invariant
            i <= data@.len(),
            value == extended(number, data@.take(i as int)) % 0x1_0000_0000_0000_0000,
        decreases data.len() - i,
    {
        proof {
            assert(data@.take(i as int + 1).drop_last() =~= data@.take(i as int));
            lemma_shift_in(extended(number, data@.take(i as int)), value, data@[i as int]);
        }
        value = (value << 8) | (data[i] as u64);
        i += 1;
    }
    assert(data@.take(data@.len() as int) =~= data@);
    value
}

/// Bytes shifted onto zero make a number below the power of 256 that they leave room for.
pub proof fn lemma_extended_bound(bytes: Seq<u8>)
    ensures
        0 <= extended(0, bytes) < pow(256, bytes.len()),
    decreases bytes.len(),
{
    reveal(pow);
    if bytes.len() > 0 {
        lemma_extended_bound(bytes.drop_last());
        let below = pow(256, bytes.drop_last().len());
        assert(pow(256, bytes.len()) == 256 * below);
    }
}

fn decode_unsigned(bytes: &[u8]) -> (result: Result<u64, DecodeError>)
    ensures
        result == unsigned_of(bytes@),
{
    let data = match application_payload(bytes) {
        Ok(data) => data,
        Err(error) => return Err(error),
    };
    Ok(shift_in_bytes(0, data, Ghost(0)))
}

fn decode_signed(data: &[u8]) -> (value: i64)
    ensures
        value == signed_number(data@),
{
    if data.len() == 0 {
        return 0;
    }
    let first: u8 = data[0];
    assert((first & 0x80 != 0) == (first >= 0x80)) by (bit_vector);
    let low: u64 = if first & 0x80 != 0 {
        shift_in_bytes(u64::MAX, data, Ghost(-1))
    } else {
        shift_in_bytes(0, data, Ghost(0))
    };
    assert((low as i64) == if low < 0x8000_0000_0000_0000 {
        low as int
    } else {
        low - 0x1_0000_0000_0000_0000
    }) by (bit_vector);
    low as i64
}

fn decode_character_string(data: &[u8]) -> (result: Result<String, DecodeError>)
    ensures
        match result {
            Ok(text) => character_string_of(data@) == Ok::<Seq<char>, DecodeError>(text@),
            Err(error) => character_string_of(data@) == Err::<Seq<char>, DecodeError>(error),
        },
{
    if data.len() == 0 {
        return Ok(String::new());
    }
    let encoding: u8 = data[0];
    let rest = slice_subrange(data, 1, data.len());
    assert(rest@ =~= data@.skip(1));
    if encoding == 0 || encoding == 3 || encoding == 4 || encoding == 5 {
        match utf8_text(rest) {
            Some(text) => Ok(text),
            None => Err(DecodeError::InvalidUtf8),
        }
    } else {
        Ok(hex(rest))
    }
}

fn decode_object_id(bytes: &[u8]) -> (result: Result<(ObjectType, u32), DecodeError>)
    ensures
        result == object_id_of(bytes@),
{
    let data = match application_payload(bytes) {
        Ok(data) => data,
        Err(error) => return Err(error),
    };
    if data.len() != 4 {
        return Err(DecodeError::Truncated);
    }
    proof {
        lemma_extended_bound(data@);
        lemma_small_powers();
    }
    let raw: u32 = shift_in_bytes(0, data, Ghost(0)) as u32;
    assert((raw >> 22) & 0x3ff == raw / 0x40_0000 && raw & 0x3f_ffff == raw % 0x40_0000)
        by (bit_vector);
    Ok((ObjectType::from_raw((raw >> 22) & 0x3ff), raw & 0x3f_ffff))
}

proof fn lemma_small_powers()
    ensures
        pow(256, 4) == 0x1_0000_0000,
        pow(256, 8) == 0x1_0000_0000_0000_0000,
{
    reveal(pow);
    reveal_with_fuel(pow, 9);
    assert(pow(256, 4) == 0x1_0000_0000);
    assert(pow(256, 8) == 256 * (256 * (256 * (256 * pow(256, 4)))));
}

pub fn decode_object_identifier_value(bytes: &[u8]) -> (result: Result<
    (ObjectType, u32),
    DecodeError,
>)
    ensures
        result == object_id_of(bytes@),
{
    decode_object_id(bytes)
}

pub fn decode_unsigned_value(bytes: &[u8]) -> (result: Result<u64, DecodeError>)
    ensures
        result == unsigned_of(bytes@),
{
    decode_unsigned(bytes)
}

/// Decodes the payload of a value whose application tag is 2, 3, 4, 5, 7 or 9.
fn decode_payload(tag: u8, data: &[u8]) -> (result: Result<TelemetryValue, DecodeError>)
    requires
        tag == 2 || tag == 3 || tag == 4 || tag == 5 || tag == 7 || tag == 9,
    ensures
        match result {
            Ok(value) => payload_value(tag, data@) == Ok::<TelemetryValueView, DecodeError>(
                value@,
            ),
            Err(error) => payload_value(tag, data@) == Err::<TelemetryValueView, DecodeError>(
                error,
            ),
        },
{
    proof {
        lemma_extended_bound(data@);
        lemma_small_powers();
    }
    match tag {
        2 => Ok(TelemetryValue::Number(Numeric::Unsigned(shift_in_bytes(0, data, Ghost(0))))),
        3 => Ok(TelemetryValue::Number(Numeric::Signed(decode_signed(data)))),
        4 => {
            if data.len() != 4 {
                return Err(DecodeError::Truncated);
            }
            let raw: u32 = shift_in_bytes(0, data, Ghost(0)) as u32;
            Ok(TelemetryValue::Number(Numeric::Real(raw)))
        },
        5 => {
            if data.len() != 8 {
                return Err(DecodeError::Truncated);
            }
            Ok(TelemetryValue::Number(Numeric::Double(shift_in_bytes(0, data, Ghost(0)))))
        },
        7 => match decode_character_string(data) {
            Ok(text) => Ok(TelemetryValue::Text(text)),
            Err(error) => Err(error),
        },
        _ => Ok(TelemetryValue::Text(decimal_text(shift_in_bytes(0, data, Ghost(0))))),
    }
}

/// Decodes one application-tagged scalar value.
pub fn decode_scalar_value(bytes: &[u8]) -> (result: Result<TelemetryValue, DecodeError>)
    ensures
        match result {
            Ok(value) => scalar_of(bytes@) == Ok::<TelemetryValueView, DecodeError>(value@),
            Err(error) => scalar_of(bytes@) == Err::<TelemetryValueView, DecodeError>(error),
        },
{
    if bytes.len() == 0 {
        return Err(DecodeError::Empty);
    }
    let first: u8 = bytes[0];
    assert(first & 7 == first % 8 && first >> 4 == first / 16) by (bit_vector);
    let tag: u8 = first >> 4;
    match tag {
        0 => Ok(TelemetryValue::Text("null".to_string())),
        1 => {
            let text = if first & 0x07 != 0 {
                "true".to_string()
            } else {
                "false".to_string()
            };
            Ok(TelemetryValue::Text(text))
        },
        12 => match decode_object_id(bytes) {
            Ok((object_type, instance)) => {
                let mut text = object_type_name(object_type);
                text.append(",");
                text.append(decimal_text(instance as u64).as_str());
                Ok(TelemetryValue::Text(text))
            },
            Err(error) => Err(error),
        },
        2 | 3 | 4 | 5 | 7 | 9 => match application_payload(bytes) {
            Ok(data) => decode_payload(tag, data),
            Err(error) => Err(error),
        },
        other => Err(DecodeError::UnsupportedTag(other)),
    }
}

/// Numbers come out as numbers, and null, booleans, character strings, enumerations and object
/// identifiers as text, so that each kind of value is published in one form.
pub proof fn law_kinds_of_values(bytes: Seq<u8>)
    ensures
        match scalar_of(bytes) {
            Ok(value) => bytes.len() > 0 && {
                let tag = bytes[0] / 16;
                &&& value is Number <==> (2 <= tag <= 5)
                &&& value is Text <==> (tag == 0 || tag == 1 || tag == 7 || tag == 9 || tag == 12)
            },
            Err(_) => true,
        },
{
}

/// Up to eight bytes are the unsigned number that they are in big-endian order.
pub proof fn law_short_unsigned_is_exact(data: Seq<u8>)
    requires
        data.len() <= 8,
    ensures
        unsigned_number(data) == extended(0, data),
{
    lemma_extended_bound(data);
    lemma_small_powers();
    lemma_pow_increases(256, data.len(), 8);
}

/// Up to eight bytes are the signed number that they are in big-endian two's complement.
pub proof fn law_short_signed_is_exact(data: Seq<u8>)
    requires
        0 < data.len() <= 8,
    ensures
        signed_number(data) == if data[0] >= 0x80 {
            extended(0, data) - pow(256, data.len())
        } else {
            extended(0, data)
        },
{
    lemma_small_powers();
    lemma_sign_extension(data);
    lemma_first_byte_bound(data);
    let above = pow(256, data.len());
    lemma_pow_increases(256, data.len(), 8);
    lemma_pow_positive(256, data.len());
    lemma_extended_bound(data);
    if data[0] >= 0x80 {
        let number = extended(-1, data);
        assert(number % 0x1_0000_0000_0000_0000 == number + 0x1_0000_0000_0000_0000);
    }
}

proof fn lemma_sign_extension(data: Seq<u8>)
    ensures
        extended(-1, data) == extended(0, data) - pow(256, data.len()),
    decreases data.len(),
{
    reveal(pow);
    if data.len() > 0 {
        lemma_sign_extension(data.drop_last());
        let below = pow(256, data.drop_last().len());
        assert(pow(256, data.len()) == 256 * below);
    }
}

/// The first byte decides in which half of its range a number lies.
proof fn lemma_first_byte_bound(data: Seq<u8>)
    requires
        data.len() > 0,
    ensures
        data[0] >= 0x80 ==> 2 * extended(0, data) >= pow(256, data.len()),
        data[0] < 0x80 ==> 2 * extended(0, data) < pow(256, data.len()),
    decreases data.len(),
{
    let shorter = data.drop_last();
    let number = extended(0, shorter);
    let below = pow(256, shorter.len());
    assert(extended(0, data) == 256 * number + data.last());
    assert(pow(256, data.len()) == 256 * below) by {
        reveal(pow);
    }
    if data.len() == 1 {
        assert(below == 1) by {
            reveal(pow);
        }
        assert(number == 0);
        assert(data.last() == data[0]);
    } else {
        assert(shorter[0] == data[0]);
        lemma_first_byte_bound(shorter);
        lemma_pow_even(shorter.len());
        let half = below / 2;
        assert(below == 2 * half);
    }
}

proof fn lemma_pow_even(exponent: nat)
    requires
        exponent > 0,
    ensures
        pow(256, exponent) % 2 == 0,
{
    reveal(pow);
    assert(pow(256, exponent) == 256 * pow(256, (exponent - 1) as nat));
}

/// An object identifier has a type of ten bits and an instance of twenty-two bits.
pub proof fn law_object_id_bounds(bytes: Seq<u8>)
    ensures
        match object_id_of(bytes) {
            Ok((object_type, instance)) => object_type.0 <= 0x3ff && instance <= 0x3f_ffff,
            Err(_) => true,
        },
{
    if let Ok(data) = payload(bytes) {
        lemma_extended_bound(data);
        lemma_small_powers();
    }
}

/// The characters that a name is set apart with.
pub open spec fn is_separator(character: char) -> bool {
    character == '_' || character == '-' || character == ' '
}

/// Two characters that differ at most in case.
pub open spec fn same_letter(left: char, right: char) -> bool {
    left == right || {
        &&& lowered(left) == lowered(right)
        &&& !is_separator(left) && !is_separator(right)
        &&& !is_space(left) && !is_space(right)
    }
}

/// Two texts that differ at most in case.
pub open spec fn same_letters(left: Seq<char>, right: Seq<char>) -> bool {
    &&& left.len() == right.len()
    &&& forall|i: int|
        #![trigger left[i]]
        #![trigger right[i]]
        0 <= i < left.len() ==> same_letter(left[i], right[i])
}

proof fn lemma_same_letters_start(left: Seq<char>, right: Seq<char>)
    requires
        same_letters(left, right),
    ensures
        same_letters(strip_start(left, CharClass::Space), strip_start(right, CharClass::Space)),
    decreases left.len(),
{
    if left.len() > 0 {
        assert(same_letter(left[0], right[0]));
        if is_space(left[0]) {
            let shorter = left.skip(1);
            let other = right.skip(1);
            assert forall|i: int|
                #![trigger shorter[i]]
                #![trigger other[i]]
                0 <= i < shorter.len() implies same_letter(shorter[i], other[i]) by {
                assert(shorter[i] == left[i + 1] && other[i] == right[i + 1]);
            }
            lemma_same_letters_start(shorter, other);
        }
    }
}

proof fn lemma_same_letters_end(left: Seq<char>, right: Seq<char>)
    requires
        same_letters(left, right),
    ensures
        same_letters(strip_end(left, CharClass::Space), strip_end(right, CharClass::Space)),
    decreases left.len(),
{
    if left.len() > 0 {
        assert(same_letter(left[left.len() - 1], right[right.len() - 1]));
        if is_space(left.last()) {
            lemma_same_letters_shorter(left, right);
            lemma_same_letters_end(left.drop_last(), right.drop_last());
        }
    }
}

proof fn lemma_same_letters_shorter(left: Seq<char>, right: Seq<char>)
    requires
        same_letters(left, right),
        left.len() > 0,
    ensures
        same_letters(left.drop_last(), right.drop_last()),
{
    let shorter = left.drop_last();
    let other = right.drop_last();
    assert forall|i: int|
        #![trigger shorter[i]]
        #![trigger other[i]]
        0 <= i < shorter.len() implies same_letter(shorter[i], other[i]) by {
        assert(shorter[i] == left[i] && other[i] == right[i]);
    }
}

proof fn lemma_same_letters_bare(left: Seq<char>, right: Seq<char>)
    requires
        same_letters(left, right),
    ensures
        bare_lower(left) == bare_lower(right),
    decreases left.len(),
{
    if left.len() > 0 {
        lemma_same_letters_shorter(left, right);
        lemma_same_letters_bare(left.drop_last(), right.drop_last());
        assert(same_letter(left[left.len() - 1], right[right.len() - 1]));
    } else {
        assert(left =~= right);
    }
}

/// The case of letters does not matter: texts that differ only in it are spelled the same and stand
/// for the same object type and the same property.
pub proof fn law_spelling_ignores_case(left: Seq<char>, right: Seq<char>)
    requires
        same_letters(left, right),
    ensures
        spelled(left) == spelled(right),
        type_of_text(left) == type_of_text(right),
        property_of_text(left) == property_of_text(right),
{
    lemma_same_letters_start(left, right);
    lemma_same_letters_end(
        strip_start(left, CharClass::Space),
        strip_start(right, CharClass::Space),
    );
    lemma_same_letters_bare(trimmed(left), trimmed(right));
}

/// A text and the same in lower case differ only in case, as far as ASCII goes.
pub proof fn law_lower_case_is_spelled_the_same(text: Seq<char>)
    ensures
        spelled(ascii_lower_text(text)) == spelled(text),
        type_of_text(ascii_lower_text(text)) == type_of_text(text),
        property_of_text(ascii_lower_text(text)) == property_of_text(text),
{
    law_spelling_ignores_case(ascii_lower_text(text), text);
}

proof fn lemma_bare_lower_concat(left: Seq<char>, right: Seq<char>)
    ensures
        bare_lower(left + right) == bare_lower(left) + bare_lower(right),
    decreases right.len(),
{
    if right.len() == 0 {
        assert(left + right =~= left);
        assert(bare_lower(left) + right =~= bare_lower(left));
    } else {
        assert((left + right).drop_last() =~= left + right.drop_last());
        lemma_bare_lower_concat(left, right.drop_last());
        assert(bare_lower(left + right) =~= bare_lower(left) + bare_lower(right));
    }
}

proof fn lemma_bare_lower_separator(left: Seq<char>, separator: char, right: Seq<char>)
    requires
        is_separator(separator),
    ensures
        bare_lower(left + seq![separator] + right) == bare_lower(left + right),
{
    let mark = seq![separator];
    lemma_bare_lower_concat(left, right);
    lemma_bare_lower_concat(left + mark, right);
    assert((left + mark).drop_last() =~= left);
}

/// Text that trimming leaves as it is has no white space at its ends.
proof fn lemma_trimmed_ends(text: Seq<char>)
    requires
        trimmed(text) == text,
        text.len() > 0,
    ensures
        !is_space(text[0]),
        !is_space(text.last()),
{
    let range = lemma_strip(text, CharClass::Space);
    assert(!CharClass::Space.holds(text[0]));
}

proof fn lemma_trimmed_separator(left: Seq<char>, separator: char, right: Seq<char>)
    requires
        is_separator(separator),
        trimmed(left + right) == left + right,
    ensures
        trimmed(left + seq![separator] + right) == left + right || trimmed(
            left + seq![separator] + right,
        ) == left + seq![separator] + right,
{
    let bare = left + right;
    let mark = seq![separator];
    let text = left + mark + right;
    let empty = Seq::<char>::empty();
    if separator == ' ' && left.len() == 0 {
        assert(text =~= mark + bare + empty);
        lemma_trimmed_outer_space(mark, bare, empty);
    } else if separator == ' ' && right.len() == 0 {
        assert(text =~= empty + bare + mark);
        lemma_trimmed_outer_space(empty, bare, mark);
    } else {
        assert(!is_space(text[0])) by {
            if left.len() > 0 {
                lemma_trimmed_ends(bare);
                assert(text[0] == bare[0]);
            } else {
                assert(text[0] == separator);
            }
        }
        assert(!is_space(text.last())) by {
            if right.len() > 0 {
                lemma_trimmed_ends(bare);
                assert(text.last() == bare.last());
            } else {
                assert(text.last() == separator);
            }
        }
        lemma_visible_is_not_blank(text);
    }
}

/// Neither white space around a text nor separators in it or at its ends matter: with them it is
/// spelled as without, and stands for the same object type and the same property.
pub proof fn law_spelling_ignores_separators(
    lead: Seq<char>,
    left: Seq<char>,
    separator: char,
    right: Seq<char>,
    trail: Seq<char>,
)
    requires
        all_space(lead),
        all_space(trail),
        is_separator(separator),
        trimmed(left + right) == left + right,
    ensures
        ({
            let set_apart = lead + (left + seq![separator] + right) + trail;
            &&& spelled(set_apart) == spelled(left + right)
            &&& type_of_text(set_apart) == type_of_text(left + right)
            &&& property_of_text(set_apart) == property_of_text(left + right)
        }),
{
    lemma_trimmed_outer_space(lead, left + seq![separator] + right, trail);
    lemma_trimmed_separator(left, separator, right);
    lemma_bare_lower_separator(left, separator, right);
}

/// White space around a text does not matter.
pub proof fn law_spelling_ignores_outer_space(
    lead: Seq<char>,
    text: Seq<char>,
    trail: Seq<char>,
)
    requires
        all_space(lead),
        all_space(trail),
    ensures
        spelled(lead + text + trail) == spelled(text),
        type_of_text(lead + text + trail) == type_of_text(text),
        property_of_text(lead + text + trail) == property_of_text(text),
{
    lemma_trimmed_outer_space(lead, text, trail);
}

} // verus!
