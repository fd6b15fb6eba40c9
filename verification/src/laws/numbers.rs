//! How numbers, bytes and addresses are written and read.

use vstd::prelude::*;

use crate::address::{
    address_text, address_value, law_address_reads_back, octet_value, Ipv4Addr,
};
use crate::bacnet::bip_address;
use crate::numerals::{
    all_digits, decimal, digit_char, digits_value, hex_byte, hex_text, is_digit, law_decimal_reads_back,
    number_list, signed_decimal, unsigned_value,
};
use crate::text::{join, lemma_split_nonempty, split};

verus! {

/// A number below ten is written as its digit, and ten times a number and a digit as that number and
/// the digit behind it.
pub proof fn law_numbers_are_written_in_digits(number: nat, digit: nat)
    requires
        digit < 10,
    ensures
        ({
            let digits = seq!['0', '1', '2', '3', '4', '5', '6', '7', '8', '9'];
            &&& decimal(digit) == seq![digits[digit as int]]
            &&& number > 0 ==> decimal(number * 10 + digit) == decimal(number).push(
                digits[digit as int],
            )
        }),
{
    let value = number * 10 + digit;
    assert(value / 10 == number && value % 10 == digit);
}

/// Different numbers are written differently.
pub proof fn law_numbers_are_told_apart(left: nat, right: nat)
    requires
        left != right,
    ensures
        decimal(left) != decimal(right),
{
    let most = if left < right {
        right
    } else {
        left
    };
    law_decimal_reads_back(left, most);
    law_decimal_reads_back(right, most);
}

/// A number is read from its digits: one digit is worth what it shows, and a digit behind others adds
/// itself to ten times their worth. Only digits are read, at least one of them, and no more than is
/// allowed; a plus sign may stand before them.
pub proof fn law_numbers_are_read_from_digits(text: Seq<char>, last: char, limit: nat)
    requires
        text.len() > 0 && is_digit(text[0]),
    ensures
        unsigned_value(Seq::empty(), limit) is None,
        unsigned_value(text.push(last), limit) is Some ==> unsigned_value(text, limit) is Some,
        !('0' <= last <= '9') ==> unsigned_value(text.push(last), limit) is None,
        '0' <= last <= '9' && unsigned_value(text, limit) is Some ==> {
            let more = unsigned_value(text, limit)->Some_0 * 10 + (last as u32 - '0' as u32);
            if more <= limit {
                unsigned_value(text.push(last), limit) == Some(more as nat)
            } else {
                unsigned_value(text.push(last), limit) is None
            }
        },
        unsigned_value(seq!['+'] + text, limit) == unsigned_value(text, limit),
        unsigned_value(seq!['-'] + text, limit) is None,
        '0' <= last <= '9' && last as u32 - '0' as u32 <= limit ==> unsigned_value(
            seq![last],
            limit,
        ) == Some((last as u32 - '0' as u32) as nat),
{
    let longer = text.push(last);
    assert(longer.drop_last() =~= text);
    assert(longer[0] == text[0]);
    if all_digits(longer) {
        assert forall|i: int| 0 <= i < text.len() implies is_digit(#[trigger] text[i]) by {
            assert(longer[i] == text[i]);
        }
        assert(is_digit(longer[text.len() as int]));
    }
    if all_digits(text) && is_digit(last) {
        assert forall|i: int| 0 <= i < longer.len() implies is_digit(#[trigger] longer[i]) by {
            if i < text.len() {
                assert(longer[i] == text[i]);
            }
        }
    }
    assert(longer[text.len() as int] == last);
    assert((seq!['+'] + text).skip(1) =~= text);
    let negative = seq!['-'] + text;
    assert(negative[0] == '-');
    assert(!is_digit(negative[0]));
    assert(seq![last].drop_last() =~= Seq::<char>::empty());
    assert(digits_value(Seq::empty()) == 0);
}

/// A negative number is written as its amount behind a minus sign.
pub proof fn law_signs(number: nat)
    ensures
        signed_decimal(number as int) == decimal(number),
        number > 0 ==> signed_decimal(-(number as int)) == seq!['-'] + decimal(number),
{
}

/// Bytes are written as two capital digits each, in their order, so that different bytes are written
/// differently.
pub proof fn law_bytes_are_written_in_pairs(bytes: Seq<u8>, byte: u8)
    ensures
        hex_text(Seq::empty()) == Seq::<char>::empty(),
        ({
            let digits = seq![
                '0', '1', '2', '3', '4', '5', '6', '7', '8', '9', 'A', 'B', 'C', 'D', 'E', 'F',
            ];
            hex_text(bytes.push(byte)) == hex_text(bytes) + seq![
                digits[byte as int / 16],
                digits[byte as int % 16],
            ]
        }),
{
    assert(bytes.push(byte).drop_last() =~= bytes);
    let digits = seq![
        '0', '1', '2', '3', '4', '5', '6', '7', '8', '9', 'A', 'B', 'C', 'D', 'E', 'F',
    ];
    assert(0 <= byte / 16 < 16 && 0 <= byte % 16 < 16);
    assert(hex_byte(byte) =~= seq![digits[byte as int / 16], digits[byte as int % 16]]);
}

/// An address is written as its four numbers with dots between them, and read back from that.
pub proof fn law_addresses_are_written_in_four_numbers(address: Ipv4Addr)
    ensures
        address_text(address) == decimal(address.a as nat) + seq!['.'] + decimal(address.b as nat)
            + seq!['.'] + decimal(address.c as nat) + seq!['.'] + decimal(address.d as nat),
        address_value(address_text(address)) == Some(address),
{
    law_address_reads_back(address);
    assert(address_text(address) =~= decimal(address.a as nat) + seq!['.'] + decimal(
        address.b as nat,
    ) + seq!['.'] + decimal(address.c as nat) + seq!['.'] + decimal(address.d as nat));
}

/// An address is read from the way it is written, and from nothing else.
pub proof fn law_addresses_are_read_as_written(text: Seq<char>, address: Ipv4Addr)
    ensures
        address_value(text) == Some(address) <==> text == address_text(address),
{
    law_address_reads_back(address);
    if address_value(text) == Some(address) {
        let pieces = split(text, '.');
        lemma_join_split(text, '.');
        lemma_octet(pieces[0], address.a);
        lemma_octet(pieces[1], address.b);
        lemma_octet(pieces[2], address.c);
        lemma_octet(pieces[3], address.d);
        let dot = seq!['.'];
        let three = pieces.drop_last();
        let two = three.drop_last();
        let one = two.drop_last();
        assert(join(one, dot) == pieces[0]);
        assert(join(two, dot) == pieces[0] + dot + pieces[1]);
        assert(join(three, dot) == pieces[0] + dot + pieces[1] + dot + pieces[2]);
        assert(text == pieces[0] + dot + pieces[1] + dot + pieces[2] + dot + pieces[3]);
        law_addresses_are_written_in_four_numbers(address);
    }
}

proof fn lemma_join_split(text: Seq<char>, separator: char)
    ensures
        join(split(text, separator), seq![separator]) == text,
    decreases text.len(),
{
    let between = seq![separator];
    let pieces = split(text, separator);
    if text.len() == 0 {
        assert(join(pieces, between) =~= text);
    } else {
        let shorter = text.drop_last();
        let before = split(shorter, separator);
        lemma_join_split(shorter, separator);
        lemma_split_nonempty(shorter, separator);
        if text.last() == separator {
            assert(pieces.drop_last() =~= before);
            assert(join(pieces, between) =~= text);
        } else {
            assert(pieces.drop_last() =~= before.drop_last());
            assert(pieces.last() == before.last().push(text.last()));
            if before.len() == 1 {
                assert(join(before, between) == before[0]);
                assert(join(pieces, between) == pieces[0]);
            } else {
                assert(join(before, between) == join(before.drop_last(), between) + between
                    + before.last());
                assert(join(pieces, between) == join(before.drop_last(), between) + between
                    + before.last().push(text.last()));
                assert(join(pieces, between) =~= join(before, between).push(text.last()));
            }
            assert(join(pieces, between) =~= text);
        }
    }
}

proof fn lemma_octet(text: Seq<char>, octet: u8)
    requires
        octet_value(text) == Some(octet),
    ensures
        text == decimal(octet as nat),
{
    lemma_digits(text);
}

proof fn lemma_digit(character: char) -> (digit: nat)
    requires
        is_digit(character),
    ensures
        digit == character as u32 - 0x30,
        digit < 10,
        character == digit_char(digit),
{
    (character as u32 - 0x30) as nat
}

proof fn lemma_digits(text: Seq<char>)
    requires
        text.len() > 0,
        all_digits(text),
        text.len() > 1 ==> text[0] != '0',
    ensures
        decimal(digits_value(text)) == text,
        text[0] != '0' ==> digits_value(text) > 0,
    decreases text.len(),
{
    let shorter = text.drop_last();
    let last = text[text.len() - 1];
    assert(is_digit(last));
    let digit = lemma_digit(last);
    if text.len() == 1 {
        assert(digits_value(shorter) == 0);
        assert(decimal(digits_value(text)) =~= text);
    } else {
        assert forall|i: int| 0 <= i < shorter.len() implies is_digit(#[trigger] shorter[i]) by {
            assert(text[i] == shorter[i]);
        }
        assert(shorter[0] == text[0]);
        lemma_digits(shorter);
        let value = digits_value(text);
        assert(value / 10 == digits_value(shorter) && value % 10 == digit);
        assert(decimal(value) =~= shorter.push(last));
        assert(shorter.push(last) =~= text);
    }
}

/// The address of a device is that of its first four bytes, and its port the number of the next two,
/// the first of them counting most. Fewer bytes are written as they are.
pub proof fn law_addresses_of_devices(mac: Seq<u8>, byte: u8)
    ensures
        mac.len() >= 6 ==> bip_address(mac) == address_text(
            Ipv4Addr { a: mac[0], b: mac[1], c: mac[2], d: mac[3] },
        ) + ":"@ + decimal((mac[4] * 256 + mac[5]) as nat),
        0 < mac.len() < 5 ==> bip_address(mac.push(byte)) == bip_address(mac) + ":"@ + hex_text(
            seq![byte],
        ),
        bip_address(seq![byte]) == hex_text(seq![byte]),
{
    let one = seq![byte];
    assert(one.drop_last() =~= Seq::<u8>::empty());
    assert(hex_text(Seq::empty()) =~= Seq::<char>::empty());
    assert(hex_text(one) =~= hex_byte(byte));
    assert(crate::bacnet::hex_bytes(one) =~= seq![hex_byte(byte)]);
    let longer = crate::bacnet::hex_bytes(mac.push(byte));
    assert(longer =~= crate::bacnet::hex_bytes(mac).push(hex_byte(byte)));
    assert(longer.drop_last() =~= crate::bacnet::hex_bytes(mac));
}

/// A list of numbers is written in brackets, with a comma and a space between the numbers.
pub proof fn law_lists_of_numbers(first: u32, numbers: Seq<u32>, last: u32)
    requires
        numbers.len() > 0,
    ensures
        number_list(Seq::empty()) == seq!['[', ']'],
        number_list(seq![first]) == seq!['['] + decimal(first as nat) + seq![']'],
        number_list(numbers.push(last)) == number_list(numbers).drop_last() + seq![',', ' ']
            + decimal(last as nat) + seq![']'],
{
    assert(number_list(Seq::empty()) =~= seq!['[', ']']);
    assert(numbers.push(last).drop_last() =~= numbers);
    assert(number_list(numbers).drop_last() =~= seq!['['] + crate::numerals::number_list_items(
        numbers,
    ));
    assert(number_list(numbers.push(last)) =~= number_list(numbers).drop_last() + seq![',', ' ']
        + decimal(last as nat) + seq![']']);
}

} // verus!
