//! Decoding is the inverse of encoding.

use vstd::arithmetic::power::pow;
use vstd::prelude::*;

use crate::model::{Numeric, TelemetryValueView};
use crate::numerals::{decimal, hex_text};
use crate::value::{
    extended, law_short_signed_is_exact, law_short_unsigned_is_exact, low_signed, object_id_of,
    payload, scalar_of, signed_number, type_text, unsigned_number, unsigned_of, DecodeError, ObjectType,
};

verus! {

/// A value as it is sent: a byte with the tag and the length, or with the tag and a mark behind
/// which the length stands in a byte of its own; and then the value's own bytes.
pub open spec fn tagged(tag: u8, data: Seq<u8>) -> Seq<u8> {
    if data.len() <= 4 {
        seq![(tag * 16 + data.len()) as u8] + data
    } else {
        seq![(tag * 16 + 5) as u8, data.len() as u8] + data
    }
}

proof fn lemma_tagged(tag: u8, data: Seq<u8>, rest: Seq<u8>)
    requires
        tag < 16,
        data.len() <= 255,
    ensures
        (tagged(tag, data) + rest)[0] / 16 == tag,
        payload(tagged(tag, data) + rest) == Ok::<Seq<u8>, DecodeError>(data),
{
    let bytes = tagged(tag, data) + rest;
    if data.len() <= 4 {
        assert(bytes[0] == tag * 16 + data.len());
        assert(bytes.subrange(1, 1int + data.len()) =~= data);
    } else {
        assert(bytes[0] == tag * 16 + 5);
        assert(bytes[1] == data.len());
        assert(bytes.subrange(2, 2int + data.len()) =~= data);
    }
}

proof fn lemma_four(data: Seq<u8>)
    requires
        data.len() == 4,
    ensures
        extended(0, data) == data[0] * 0x100_0000 + data[1] * 0x1_0000 + data[2] * 0x100 + data[3],
{
    assert(data.drop_last() =~= data.take(3));
    assert(data.take(3).drop_last() =~= data.take(2));
    assert(data.take(2).drop_last() =~= data.take(1));
    assert(data.take(1).drop_last() =~= data.take(0));
    assert(extended(0, data.take(0)) == 0);
    assert(extended(0, data.take(1)) == data[0]);
    assert(extended(0, data.take(2)) == data[0] * 256 + data[1]);
    assert(extended(0, data.take(3)) == (data[0] * 256 + data[1]) * 256 + data[2]);
}

proof fn lemma_eight(data: Seq<u8>)
    requires
        data.len() == 8,
    ensures
        extended(0, data) == data[0] * 0x100_0000_0000_0000 + data[1] * 0x1_0000_0000_0000 + data[2]
            * 0x100_0000_0000 + data[3] * 0x1_0000_0000 + data[4] * 0x100_0000 + data[5] * 0x1_0000
            + data[6] * 0x100 + data[7],
{
    assert(data.drop_last() =~= data.take(7));
    assert(data.take(7).drop_last() =~= data.take(6));
    assert(data.take(6).drop_last() =~= data.take(5));
    assert(data.take(5).drop_last() =~= data.take(4));
    lemma_four(data.take(4));
    assert(extended(0, data.take(5)) == extended(0, data.take(4)) * 256 + data[4]);
    assert(extended(0, data.take(6)) == extended(0, data.take(5)) * 256 + data[5]);
    assert(extended(0, data.take(7)) == extended(0, data.take(6)) * 256 + data[6]);
}

/// A REAL is decoded to the very pattern of 32 bits that was sent, whatever it is and whatever
/// follows it, and only a value of four bytes is one.
pub proof fn law_reals_read_back(bits: u32, data: Seq<u8>, rest: Seq<u8>)
    requires
        data.len() == 4,
        bits == data[0] * 0x100_0000 + data[1] * 0x1_0000 + data[2] * 0x100 + data[3],
    ensures
        scalar_of(seq![0x44u8] + data + rest) == Ok::<TelemetryValueView, DecodeError>(
            TelemetryValueView::Number(Numeric::Real(bits)),
        ),
{
    lemma_tagged(4, data, rest);
    lemma_four(data);
}

/// A double is decoded to the very pattern of 64 bits that was sent, whatever it is.
pub proof fn law_doubles_read_back(bits: u64, data: Seq<u8>, rest: Seq<u8>)
    requires
        data.len() == 8,
        bits == data[0] * 0x100_0000_0000_0000 + data[1] * 0x1_0000_0000_0000 + data[2]
            * 0x100_0000_0000 + data[3] * 0x1_0000_0000 + data[4] * 0x100_0000 + data[5] * 0x1_0000
            + data[6] * 0x100 + data[7],
    ensures
        scalar_of(seq![0x55u8, 8u8] + data + rest) == Ok::<TelemetryValueView, DecodeError>(
            TelemetryValueView::Number(Numeric::Double(bits)),
        ),
{
    lemma_tagged(5, data, rest);
    lemma_eight(data);
}

/// Floating-point values of another length are refused.
pub proof fn law_floats_have_their_length(data: Seq<u8>, rest: Seq<u8>)
    requires
        data.len() <= 255,
    ensures
        data.len() != 4 ==> scalar_of(tagged(4, data) + rest) == Err::<
            TelemetryValueView,
            DecodeError,
        >(DecodeError::Truncated),
        data.len() != 8 ==> scalar_of(tagged(5, data) + rest) == Err::<
            TelemetryValueView,
            DecodeError,
        >(DecodeError::Truncated),
{
    lemma_tagged(4, data, rest);
    lemma_tagged(5, data, rest);
}

/// Of two floating-point values that were sent differently, no two are decoded alike.
pub proof fn law_floats_are_told_apart(left: Seq<u8>, right: Seq<u8>)
    requires
        left.len() == right.len(),
        left.len() == 4 || left.len() == 8,
        left != right,
    ensures
        left.len() == 4 ==> scalar_of(tagged(4, left)) != scalar_of(tagged(4, right)),
        left.len() == 8 ==> scalar_of(tagged(5, left)) != scalar_of(tagged(5, right)),
{
    let none = Seq::<u8>::empty();
    lemma_extended_injective(left, right);
    if left.len() == 4 {
        lemma_four(left);
        lemma_four(right);
        lemma_tagged(4, left, none);
        lemma_tagged(4, right, none);
        assert(tagged(4, left) + none =~= tagged(4, left));
        assert(tagged(4, right) + none =~= tagged(4, right));
    } else {
        lemma_eight(left);
        lemma_eight(right);
        lemma_tagged(5, left, none);
        lemma_tagged(5, right, none);
        assert(tagged(5, left) + none =~= tagged(5, left));
        assert(tagged(5, right) + none =~= tagged(5, right));
    }
}

proof fn lemma_extended_injective(left: Seq<u8>, right: Seq<u8>)
    requires
        left.len() == right.len(),
        left != right,
    ensures
        extended(0, left) != extended(0, right),
    decreases left.len(),
{
    if left.len() == 0 {
        assert(left =~= right);
    } else {
        let shorter = left.drop_last();
        let other = right.drop_last();
        if shorter != other {
            lemma_extended_injective(shorter, other);
        } else {
            assert(left =~= shorter.push(left.last()));
            assert(right =~= other.push(right.last()));
        }
    }
}

/// An unsigned number of no bytes is zero, and each further byte is worth what is before it 256
/// times and itself, up to eight bytes; beyond them the highest are lost. That is so under every
/// tag, and whatever follows the value.
pub proof fn law_unsigned_numbers_grow_by_bytes(tag: u8, data: Seq<u8>, byte: u8, rest: Seq<u8>)
    requires
        tag < 16,
        data.len() < 255,
    ensures
        unsigned_of(tagged(tag, Seq::empty()) + rest) == Ok::<u64, DecodeError>(0),
        ({
            let before = unsigned_of(tagged(tag, data) + rest);
            let after = unsigned_of(tagged(tag, data.push(byte)) + rest);
            &&& before is Ok && after is Ok
            &&& data.len() < 8 ==> after->Ok_0 == before->Ok_0 * 256 + byte
            &&& after->Ok_0 == (before->Ok_0 * 256 + byte) % 0x1_0000_0000_0000_0000
        }),
{
    let none = Seq::<u8>::empty();
    let more = data.push(byte);
    lemma_tagged(tag, none, rest);
    lemma_tagged(tag, data, rest);
    lemma_tagged(tag, more, rest);
    assert(more.drop_last() =~= data);
    if data.len() < 8 {
        law_short_unsigned_is_exact(data);
        law_short_unsigned_is_exact(more);
    }
    let high = extended(0, data) / 0x1_0000_0000_0000_0000;
    let low = extended(0, data) % 0x1_0000_0000_0000_0000;
    assert(extended(0, more) == high * 256 * 0x1_0000_0000_0000_0000 + (low * 256 + byte));
    assert((high * 256 * 0x1_0000_0000_0000_0000 + (low * 256 + byte)) % 0x1_0000_0000_0000_0000
        == (low * 256 + byte) % 0x1_0000_0000_0000_0000) by (nonlinear_arith);
}

/// Unsigned values are the numbers that their bytes are, enumerations the same numbers in decimal
/// notation, and signed values of up to eight bytes the same numbers in two's complement.
pub proof fn law_integers_agree(data: Seq<u8>, rest: Seq<u8>)
    requires
        data.len() <= 255,
    ensures
        ({
            let number = unsigned_of(tagged(2, data) + rest)->Ok_0;
            &&& scalar_of(tagged(2, data) + rest) == Ok::<TelemetryValueView, DecodeError>(
                TelemetryValueView::Number(Numeric::Unsigned(number)),
            )
            &&& scalar_of(tagged(9, data) + rest) == Ok::<TelemetryValueView, DecodeError>(
                TelemetryValueView::Text(decimal(number as nat)),
            )
            &&& scalar_of(tagged(3, data) + rest) is Ok
            &&& scalar_of(tagged(3, data) + rest)->Ok_0 is Number
            &&& scalar_of(tagged(3, data) + rest)->Ok_0->Number_0 is Signed
            &&& 0 < data.len() <= 8
                ==> scalar_of(tagged(3, data) + rest)->Ok_0->Number_0->Signed_0 == if data[0]
                >= 0x80 {
                number - pow(256, data.len())
            } else {
                number as int
            }
            &&& data.len() == 0
                ==> scalar_of(tagged(3, data) + rest)->Ok_0->Number_0->Signed_0 == 0
        }),
{
    lemma_tagged(2, data, rest);
    lemma_tagged(9, data, rest);
    lemma_tagged(3, data, rest);
    let number = unsigned_number(data);
    if 0 < data.len() <= 8 {
        law_short_unsigned_is_exact(data);
        law_short_signed_is_exact(data);
    }
    assert(i64::MIN <= signed_number(data) <= i64::MAX);
}

/// A signed value grows by bytes as an unsigned one does, as far as 64 bits go.
pub proof fn law_signed_numbers_grow_by_bytes(data: Seq<u8>, byte: u8, rest: Seq<u8>)
    requires
        0 < data.len() < 255,
    ensures
        ({
            let before = scalar_of(tagged(3, data) + rest);
            let after = scalar_of(tagged(3, data.push(byte)) + rest);
            &&& before is Ok && after is Ok
            &&& (after->Ok_0->Number_0->Signed_0 - (before->Ok_0->Number_0->Signed_0 * 256 + byte))
                % 0x1_0000_0000_0000_0000 == 0
        }),
{
    let more = data.push(byte);
    lemma_tagged(3, data, rest);
    lemma_tagged(3, more, rest);
    assert(more.drop_last() =~= data);
    assert(more[0] == data[0]);
    let start: int = if data[0] >= 0x80 {
        -1
    } else {
        0
    };
    let (low, high) = (extended(start, data), extended(start, more));
    assert(high == low * 256 + byte);
    lemma_low_signed(low);
    lemma_low_signed(high);
    let (kept, grown) = (low_signed(low), low_signed(high));
    let (j, k) = ((low - kept) / 0x1_0000_0000_0000_0000, (high - grown)
        / 0x1_0000_0000_0000_0000);
    assert(low - kept == j * 0x1_0000_0000_0000_0000);
    assert(high - grown == k * 0x1_0000_0000_0000_0000);
    assert(grown - (kept * 256 + byte) == (j * 256 - k) * 0x1_0000_0000_0000_0000);
    assert((j * 256 - k) * 0x1_0000_0000_0000_0000 % 0x1_0000_0000_0000_0000 == 0)
        by (nonlinear_arith);
}

proof fn lemma_low_signed(number: int)
    ensures
        (number - low_signed(number)) % 0x1_0000_0000_0000_0000 == 0,
        i64::MIN <= low_signed(number) <= i64::MAX,
{
}

/// How a length is sent does not matter: in the first byte or in one of its own, and with the bit that
/// lies between tag and length set or not. The lengths that stand for brackets are none.
pub proof fn law_forms_of_lengths(tag: u8, data: Seq<u8>, rest: Seq<u8>)
    requires
        tag < 16,
        tag != 0 && tag != 1,
        data.len() <= 255,
    ensures
        ({
            let usual = tagged(tag, data) + rest;
            let apart = seq![(tag * 16 + 5) as u8, data.len() as u8] + data + rest;
            let marked = seq![(tag * 16 + 13) as u8, data.len() as u8] + data + rest;
            &&& scalar_of(apart) == scalar_of(usual)
            &&& scalar_of(marked) == scalar_of(usual)
            &&& unsigned_of(apart) == unsigned_of(usual)
            &&& unsigned_of(marked) == unsigned_of(usual)
            &&& object_id_of(apart) == object_id_of(usual)
            &&& object_id_of(marked) == object_id_of(usual)
        }),
        unsigned_of(seq![(tag * 16 + 6) as u8] + rest) == Err::<u64, DecodeError>(
            DecodeError::UnsupportedTag(tag),
        ),
        unsigned_of(seq![(tag * 16 + 7) as u8] + rest) == Err::<u64, DecodeError>(
            DecodeError::UnsupportedTag(tag),
        ),
        scalar_of(seq![(tag * 16 + 6) as u8] + rest) == Err::<TelemetryValueView, DecodeError>(
            DecodeError::UnsupportedTag(tag),
        ),
        scalar_of(seq![(tag * 16 + 7) as u8] + rest) == Err::<TelemetryValueView, DecodeError>(
            DecodeError::UnsupportedTag(tag),
        ),
{
    lemma_tagged(tag, data, rest);
    lemma_apart(tag, 5, data, rest);
    lemma_apart(tag, 13, data, rest);
    let usual = tagged(tag, data) + rest;
    let apart = seq![(tag * 16 + 5) as u8, data.len() as u8] + data + rest;
    let marked = seq![(tag * 16 + 13) as u8, data.len() as u8] + data + rest;
    lemma_payload_decides(apart, usual);
    lemma_payload_decides(marked, usual);
    lemma_bracket(tag, 6, rest);
    lemma_bracket(tag, 7, rest);
}

proof fn lemma_apart(tag: u8, mark: u8, data: Seq<u8>, rest: Seq<u8>)
    requires
        tag < 16,
        mark == 5 || mark == 13,
        data.len() <= 255,
    ensures
        ({
            let bytes = seq![(tag * 16 + mark) as u8, data.len() as u8] + data + rest;
            &&& bytes.len() > 0
            &&& bytes[0] / 16 == tag
            &&& payload(bytes) == Ok::<Seq<u8>, DecodeError>(data)
        }),
{
    let bytes = seq![(tag * 16 + mark) as u8, data.len() as u8] + data + rest;
    assert(bytes[0] == tag * 16 + mark && bytes[1] == data.len());
    assert(bytes.subrange(2, 2int + data.len()) =~= data);
}

proof fn lemma_payload_decides(left: Seq<u8>, right: Seq<u8>)
    requires
        left.len() > 0 && right.len() > 0,
        left[0] / 16 == right[0] / 16,
        left[0] / 16 > 1,
        payload(left) == payload(right),
    ensures
        scalar_of(left) == scalar_of(right),
        unsigned_of(left) == unsigned_of(right),
        object_id_of(left) == object_id_of(right),
{
}

proof fn lemma_bracket(tag: u8, mark: u8, rest: Seq<u8>)
    requires
        1 < tag < 16,
        mark == 6 || mark == 7,
    ensures
        ({
            let bytes = seq![(tag * 16 + mark) as u8] + rest;
            &&& unsigned_of(bytes) == Err::<u64, DecodeError>(DecodeError::UnsupportedTag(tag))
            &&& scalar_of(bytes) == Err::<TelemetryValueView, DecodeError>(
                DecodeError::UnsupportedTag(tag),
            )
        }),
{
    let bytes = seq![(tag * 16 + mark) as u8] + rest;
    assert(bytes[0] == tag * 16 + mark);
    assert(payload(bytes) == Err::<Seq<u8>, DecodeError>(DecodeError::UnsupportedTag(tag)));
}

/// Null is decoded as such, and a boolean is true exactly where its value is not zero.
pub proof fn law_null_and_booleans(first: u8, rest: Seq<u8>)
    ensures
        first < 16 ==> scalar_of(seq![first] + rest) == Ok::<TelemetryValueView, DecodeError>(
            TelemetryValueView::Text("null"@),
        ),
        16 <= first < 32 && first % 8 == 0 ==> scalar_of(seq![first] + rest) == Ok::<
            TelemetryValueView,
            DecodeError,
        >(TelemetryValueView::Text("false"@)),
        16 <= first < 32 && first % 8 != 0 ==> scalar_of(seq![first] + rest) == Ok::<
            TelemetryValueView,
            DecodeError,
        >(TelemetryValueView::Text("true"@)),
{
    assert((seq![first] + rest)[0] == first);
}

/// A character string in UTF-8 is decoded to the text that was sent.
pub proof fn law_texts_read_back(encoding: u8, text: Seq<char>, rest: Seq<u8>)
    requires
        encoding == 0 || encoding == 3 || encoding == 4 || encoding == 5,
        vstd::utf8::encode_utf8(text).len() < 255,
    ensures
        scalar_of(tagged(7, seq![encoding] + vstd::utf8::encode_utf8(text)) + rest) == Ok::<
            TelemetryValueView,
            DecodeError,
        >(TelemetryValueView::Text(text)),
{
    let data = seq![encoding] + vstd::utf8::encode_utf8(text);
    lemma_tagged(7, data, rest);
    assert(data.skip(1) =~= vstd::utf8::encode_utf8(text));
    vstd::utf8::encode_utf8_valid_utf8(text);
    vstd::utf8::encode_utf8_decode_utf8(text);
}

/// A character string that is not valid UTF-8, though it is said to be, is refused; and one in
/// another encoding is shown by two characters for each byte.
pub proof fn law_other_texts(encoding: u8, bytes: Seq<u8>, rest: Seq<u8>)
    requires
        bytes.len() < 255,
    ensures
        ({
            let decoded = scalar_of(tagged(7, seq![encoding] + bytes) + rest);
            if encoding == 0 || encoding == 3 || encoding == 4 || encoding == 5 {
                !vstd::utf8::valid_utf8(bytes) ==> decoded == Err::<
                    TelemetryValueView,
                    DecodeError,
                >(DecodeError::InvalidUtf8)
            } else {
                &&& decoded == Ok::<TelemetryValueView, DecodeError>(
                    TelemetryValueView::Text(hex_text(bytes)),
                )
                &&& hex_text(bytes).len() == 2 * bytes.len()
            }
        }),
        scalar_of(tagged(7, Seq::empty()) + rest) == Ok::<TelemetryValueView, DecodeError>(
            TelemetryValueView::Text(Seq::empty()),
        ),
{
    let data = seq![encoding] + bytes;
    lemma_tagged(7, data, rest);
    lemma_tagged(7, Seq::empty(), rest);
    assert(data.skip(1) =~= bytes);
    lemma_hex_length(bytes);
}

proof fn lemma_hex_length(bytes: Seq<u8>)
    ensures
        hex_text(bytes).len() == 2 * bytes.len(),
    decreases bytes.len(),
{
    if bytes.len() > 0 {
        lemma_hex_length(bytes.drop_last());
    }
}

/// An object identifier is decoded to the type and the instance that it was made of, and shown by
/// both; under every tag, and whatever follows it.
pub proof fn law_object_ids_read_back(
    tag: u8,
    object_type: u32,
    instance: u32,
    data: Seq<u8>,
    rest: Seq<u8>,
)
    requires
        tag < 16,
        object_type < 0x400,
        instance < 0x40_0000,
        data.len() == 4,
        data[0] * 0x100_0000 + data[1] * 0x1_0000 + data[2] * 0x100 + data[3] == object_type
            * 0x40_0000 + instance,
    ensures
        object_id_of(tagged(tag, data) + rest) == Ok::<(ObjectType, u32), DecodeError>(
            (ObjectType(object_type), instance),
        ),
        scalar_of(tagged(12, data) + rest) == Ok::<TelemetryValueView, DecodeError>(
            TelemetryValueView::Text(
                type_text(ObjectType(object_type)) + ","@ + decimal(instance as nat),
            ),
        ),
{
    lemma_tagged(tag, data, rest);
    lemma_tagged(12, data, rest);
    lemma_four(data);
    assert((object_type * 0x40_0000 + instance) / 0x40_0000 == object_type);
    assert((object_type * 0x40_0000 + instance) % 0x40_0000 == instance);
}

/// Nothing is made up: no bytes are no value, a value that is cut short is none, and neither is one
/// under a tag that stands for no scalar.
pub proof fn law_bad_values_are_refused(bytes: Seq<u8>, tag: u8, data: Seq<u8>, count: int)
    requires
        tag < 16,
        0 < data.len() <= 255,
        0 < count < tagged(tag, data).len(),
    ensures
        scalar_of(Seq::empty()) == Err::<TelemetryValueView, DecodeError>(DecodeError::Empty),
        unsigned_of(Seq::empty()) == Err::<u64, DecodeError>(DecodeError::Empty),
        object_id_of(Seq::empty()) == Err::<(ObjectType, u32), DecodeError>(DecodeError::Empty),
        unsigned_of(tagged(tag, data).take(count)) == Err::<u64, DecodeError>(
            DecodeError::Truncated,
        ),
        object_id_of(tagged(tag, data).take(count)) == Err::<(ObjectType, u32), DecodeError>(
            DecodeError::Truncated,
        ),
        tag == 2 || tag == 3 || tag == 4 || tag == 5 || tag == 7 || tag == 9 || tag == 12
            ==> scalar_of(tagged(tag, data).take(count)) == Err::<TelemetryValueView, DecodeError>(
            DecodeError::Truncated,
        ),
        tag == 6 || tag == 8 || tag == 10 || tag == 11 || tag >= 13 ==> scalar_of(
            tagged(tag, data) + bytes,
        ) == Err::<TelemetryValueView, DecodeError>(DecodeError::UnsupportedTag(tag)),
        data.len() != 4 ==> object_id_of(tagged(tag, data) + bytes) == Err::<
            (ObjectType, u32),
            DecodeError,
        >(DecodeError::Truncated),
{
    let whole = tagged(tag, data);
    let short = whole.take(count);
    lemma_tagged(tag, data, bytes);
    assert(short[0] == whole[0]);
    if data.len() <= 4 {
        assert(whole[0] == tag * 16 + data.len());
    } else {
        assert(whole[0] == tag * 16 + 5);
        assert(count > 1 ==> short[1] == data.len());
    }
    assert(payload(short) == Err::<Seq<u8>, DecodeError>(DecodeError::Truncated));
}

} // verus!
