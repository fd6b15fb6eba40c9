//! IPv4 addresses.

use vstd::prelude::*;

use crate::numerals::{
    all_digits, decimal, decimal_text, digit_char, digits_value, is_digit, lemma_decimal_digits,
    parse_unsigned,
};
use crate::text::{
    chars_of, lemma_split_append, lemma_split_single, lemma_visible_is_not_blank, split,
    split_chars, string_of, trimmed,
};

verus! {

/// An IPv4 address, by its four octets from left to right.
#[derive(Debug, Clone, Copy, PartialEq, Eq, Structural, PartialOrd, Ord, Hash)]
pub struct Ipv4Addr {
    pub a: u8,
    pub b: u8,
    pub c: u8,
    pub d: u8,
}

impl Ipv4Addr {
    /// The address as one number, the first octet in the highest place.
    pub open spec fn number(self) -> int {
        self.a * 0x1000000 + self.b * 0x10000 + self.c * 0x100 + self.d
    }

    /// `0.0.0.0`.
    pub open spec fn is_any(self) -> bool {
        self.a == 0 && self.b == 0 && self.c == 0 && self.d == 0
    }

    pub fn new(a: u8, b: u8, c: u8, d: u8) -> (address: Ipv4Addr)
        ensures
            address == (Ipv4Addr { a, b, c, d }),
    {
        Ipv4Addr { a, b, c, d }
    }

    /// `0.0.0.0`, which stands for any local interface.
    pub fn unspecified() -> (address: Ipv4Addr)
        ensures
            address == (Ipv4Addr { a: 0, b: 0, c: 0, d: 0 }),
    {
        Ipv4Addr { a: 0, b: 0, c: 0, d: 0 }
    }

    /// `255.255.255.255`.
    pub fn broadcast() -> (address: Ipv4Addr)
        ensures
            address == (Ipv4Addr { a: 255, b: 255, c: 255, d: 255 }),
    {
        Ipv4Addr { a: 255, b: 255, c: 255, d: 255 }
    }

    pub fn to_bits(self) -> (bits: u32)
        ensures
            bits == self.number(),
    {
        self.a as u32 * 0x1000000 + self.b as u32 * 0x10000 + self.c as u32 * 0x100
            + self.d as u32
    }

    pub fn from_bits(bits: u32) -> (address: Ipv4Addr)
        ensures
            address.number() == bits,
    {
        Ipv4Addr {
            a: (bits / 0x1000000) as u8,
            b: (bits / 0x10000 % 0x100) as u8,
            c: (bits / 0x100 % 0x100) as u8,
            d: (bits % 0x100) as u8,
        }
    }

    pub fn is_loopback(self) -> (result: bool)
        ensures
            result == (self.a == 127),
    {
        self.a == 127
    }

    pub fn is_unspecified(self) -> (result: bool)
        ensures
            result == self.is_any(),
    {
        self.a == 0 && self.b == 0 && self.c == 0 && self.d == 0
    }

    pub fn is_link_local(self) -> (result: bool)
        ensures
            result == (self.a == 169 && self.b == 254),
    {
        self.a == 169 && self.b == 254
    }

    /// The dotted decimal notation.
    pub fn to_text(self) -> (text: String)
        ensures
            text@ == address_text(self),
    {
        let mut text = decimal_text(self.a as u64);
        text.push('.');
        text.append(decimal_text(self.b as u64).as_str());
        text.push('.');
        text.append(decimal_text(self.c as u64).as_str());
        text.push('.');
        text.append(decimal_text(self.d as u64).as_str());
        text
    }

    /// Reads the dotted decimal notation.
    pub fn parse(text: &str) -> (result: Option<Ipv4Addr>)
        ensures
            result == address_value(text@),
    {
        let chars = chars_of(text);
        let pieces = split_chars(chars.as_slice(), '.');
        assert(crate::text::char_lists(pieces@) == split(text@, '.'));
        if pieces.len() != 4 {
            return None;
        }
        assert(forall|i: int| 0 <= i < 4 ==> split(text@, '.')[i] == (#[trigger] pieces@[i])@);
        match (
            parse_octet(pieces[0].as_slice()),
            parse_octet(pieces[1].as_slice()),
            parse_octet(pieces[2].as_slice()),
            parse_octet(pieces[3].as_slice()),
        ) {
            (Some(a), Some(b), Some(c), Some(d)) => Some(Ipv4Addr { a, b, c, d }),
            _ => None,
        }
    }
}

/// The dotted decimal notation of an address.
pub open spec fn address_text(address: Ipv4Addr) -> Seq<char> {
    (((decimal(address.a as nat).push('.') + decimal(address.b as nat)).push('.') + decimal(
        address.c as nat,
    )).push('.') + decimal(address.d as nat))
}

/// The octet that `text` stands for: one to three decimal digits, no leading zero before
/// another digit, and at most 255.
pub open spec fn octet_value(text: Seq<char>) -> Option<u8> {
    if 1 <= text.len() <= 3 && all_digits(text) && (text.len() > 1 ==> text[0] != '0')
        && digits_value(text) <= 255 {
        Some(digits_value(text) as u8)
    } else {
        None
    }
}

/// The address that `text` stands for: four octets with a dot between two of them.
pub open spec fn address_value(text: Seq<char>) -> Option<Ipv4Addr> {
    let pieces = split(text, '.');
    if pieces.len() == 4 && octet_value(pieces[0]) is Some && octet_value(pieces[1]) is Some
        && octet_value(pieces[2]) is Some && octet_value(pieces[3]) is Some {
        Some(
            Ipv4Addr {
                a: octet_value(pieces[0])->0,
                b: octet_value(pieces[1])->0,
                c: octet_value(pieces[2])->0,
                d: octet_value(pieces[3])->0,
            },
        )
    } else {
        None
    }
}

fn parse_octet(chars: &[char]) -> (result: Option<u8>)
    ensures
        result == octet_value(chars@),
{
    if chars.len() == 0 || chars.len() > 3 || chars[0] == '+' || (chars.len() > 1 && chars[0]
        == '0') {
        assert(chars@.len() > 0 && chars@[0] == '+' ==> !crate::numerals::is_digit(chars@[0]));
        return None;
    }
    let text = string_of(chars);
    match parse_unsigned(text.as_str(), 255) {
        Some(value) => Some(value as u8),
        None => None,
    }
}

/// An address is known by its number.
pub proof fn lemma_number_is_unique(left: Ipv4Addr, right: Ipv4Addr)
    requires
        left.number() == right.number(),
    ensures
        left == right,
{
    assert(left.number() / 0x1000000 == left.a && right.number() / 0x1000000 == right.a);
    let low_left = left.b * 0x10000 + left.c * 0x100 + left.d;
    let low_right = right.b * 0x10000 + right.c * 0x100 + right.d;
    assert(low_left == low_right);
    assert(low_left / 0x10000 == left.b && low_right / 0x10000 == right.b);
    let end_left = left.c * 0x100 + left.d;
    let end_right = right.c * 0x100 + right.d;
    assert(end_left == end_right);
    assert(end_left / 0x100 == left.c && end_right / 0x100 == right.c);
}

/// The decimal notation of a number up to 255 is that of an octet.
proof fn lemma_octet_reads_back(octet: u8)
    ensures
        octet_value(decimal(octet as nat)) == Some(octet),
        !decimal(octet as nat).contains('.'),
{
    let value = octet as nat;
    lemma_decimal_digits(value);
    let text = decimal(value);
    reveal_with_fuel(decimal, 4);
    if value >= 10 {
        assert(text.drop_last() =~= decimal(value / 10));
        if value >= 100 {
            assert(decimal(value / 10).drop_last() =~= decimal(value / 100));
            assert(text[0] == digit_char(value / 100));
        } else {
            assert(text[0] == digit_char(value / 10));
        }
    }
    assert forall|i: int| 0 <= i < text.len() implies text[i] != '.' by {
        assert(is_digit(text[i]));
    }
}

/// Reading the dotted decimal notation of an address gives the address back.
pub proof fn law_address_reads_back(address: Ipv4Addr)
    ensures
        address_value(address_text(address)) == Some(address),
        trimmed(address_text(address)) == address_text(address),
{
    let a = decimal(address.a as nat);
    let b = decimal(address.b as nat);
    let c = decimal(address.c as nat);
    let d = decimal(address.d as nat);
    lemma_octet_reads_back(address.a);
    lemma_octet_reads_back(address.b);
    lemma_octet_reads_back(address.c);
    lemma_octet_reads_back(address.d);
    let ab = a.push('.') + b;
    let abc = ab.push('.') + c;
    lemma_split_single(a, '.');
    lemma_split_append(a, '.', b);
    lemma_split_append(ab, '.', c);
    lemma_split_append(abc, '.', d);
    let text = address_text(address);
    assert(split(text, '.') == seq![a].push(b).push(c).push(d));
    lemma_decimal_digits(address.a as nat);
    lemma_decimal_digits(address.d as nat);
    assert(text[0] == a[0]);
    assert(is_digit(a[0]));
    assert(text.last() == d[d.len() - 1]);
    assert(is_digit(d[d.len() - 1]));
    lemma_visible_is_not_blank(text);
}

} // verus!
