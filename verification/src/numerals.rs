//! Numbers in text: decimal and hexadecimal notation, and reading decimal numbers.

use vstd::prelude::*;

use crate::text::{chars_of, lemma_visible_is_not_blank, trimmed};

verus! {

/// The character of a decimal digit.
pub open spec fn digit_char(digit: nat) -> char {
    ((0x30 + digit) as u32) as char
}

/// The decimal notation of a number, without leading zeros.
pub open spec fn decimal(value: nat) -> Seq<char>
    decreases value,
{
    if value < 10 {
        seq![digit_char(value)]
    } else {
        decimal(value / 10).push(digit_char(value % 10))
    }
}

/// The decimal notation of a number that may be negative.
pub open spec fn signed_decimal(value: int) -> Seq<char> {
    if value < 0 {
        seq!['-'] + decimal((-value) as nat)
    } else {
        decimal(value as nat)
    }
}

/// A list of numbers in square brackets, separated by a comma and a space.
pub open spec fn number_list(values: Seq<u32>) -> Seq<char> {
    seq!['['] + number_list_items(values) + seq![']']
}

/// The numbers of a list, separated by a comma and a space.
pub open spec fn number_list_items(values: Seq<u32>) -> Seq<char>
    decreases values.len(),
{
    if values.len() == 0 {
        Seq::<char>::empty()
    } else if values.len() == 1 {
        decimal(values[0] as nat)
    } else {
        number_list_items(values.drop_last()) + seq![',', ' '] + decimal(values.last() as nat)
    }
}

/// The upper-case hexadecimal digit of a number below sixteen.
pub open spec fn hex_digit(value: nat) -> char {
    if value < 10 {
        ((0x30 + value) as u32) as char
    } else {
        ((0x37 + value) as u32) as char
    }
}

/// A byte as two upper-case hexadecimal digits.
pub open spec fn hex_byte(byte: u8) -> Seq<char> {
    seq![hex_digit((byte / 16) as nat), hex_digit((byte % 16) as nat)]
}

/// Bytes as pairs of upper-case hexadecimal digits.
pub open spec fn hex_text(bytes: Seq<u8>) -> Seq<char>
    decreases bytes.len(),
{
    if bytes.len() == 0 {
        Seq::<char>::empty()
    } else {
        hex_text(bytes.drop_last()) + hex_byte(bytes.last())
    }
}

fn digit(value: u32) -> (character: char)
    requires
        value < 10,
    ensures
        character == digit_char(value as nat),
{
    match value {
        0 => '0',
        1 => '1',
        2 => '2',
        3 => '3',
        4 => '4',
        5 => '5',
        6 => '6',
        7 => '7',
        8 => '8',
        _ => '9',
    }
}

fn hex_character(value: u8) -> (character: char)
    requires
        value < 16,
    ensures
        character == hex_digit(value as nat),
{
    match value {
        0 => '0',
        1 => '1',
        2 => '2',
        3 => '3',
        4 => '4',
        5 => '5',
        6 => '6',
        7 => '7',
        8 => '8',
        9 => '9',
        10 => 'A',
        11 => 'B',
        12 => 'C',
        13 => 'D',
        14 => 'E',
        _ => 'F',
    }
}

/// The decimal notation of a number.
pub fn decimal_text(value: u64) -> (text: String)
    ensures
        text@ == decimal(value as nat),
    decreases value,
{
    let mut text = if value < 10 {
        String::new()
    } else {
        decimal_text(value / 10)
    };
    text.push(digit((value % 10) as u32));
    proof {
        if value < 10 {
            assert(text@ =~= seq![digit_char(value as nat)]);
        }
    }
    text
}

/// The decimal notation of a number that may be negative.
pub fn signed_decimal_text(value: i64) -> (text: String)
    ensures
        text@ == signed_decimal(value as int),
{
    if value < 0 {
        let magnitude: u64 = if value == i64::MIN {
            0x8000_0000_0000_0000
        } else {
            (-value) as u64
        };
        let mut text = String::new();
        text.push('-');
        let digits = decimal_text(magnitude);
        text.append(digits.as_str());
        assert(text@ =~= seq!['-'] + decimal((-value) as nat));
        text
    } else {
        decimal_text(value as u64)
    }
}

/// The numbers of a list in square brackets.
pub fn number_list_text(values: &[u32]) -> (text: String)
    ensures
        text@ == number_list(values@),
{
    let mut text = String::new();
    text.push('[');
    let mut i: usize = 0;
    assert(text@ =~= seq!['['] + number_list_items(values@.take(0)));
    while i < values.len()
        invariant
            i <= values@.len(),
            text@ == seq!['['] + number_list_items(values@.take(i as int)),
        decreases values.len() - i,
    {
        let ghost before = text@;
        if i > 0 {
            text.push(',');
            text.push(' ');
        }
        let digits = decimal_text(values[i] as u64);
        text.append(digits.as_str());
        proof {
            assert(values@.take(i as int + 1).drop_last() =~= values@.take(i as int));
            if i == 0 {
                assert(text@ =~= seq!['['] + number_list_items(values@.take(1)));
            } else {
                assert(text@ =~= seq!['['] + (number_list_items(values@.take(i as int)) + seq![
                    ',',
                    ' ',
                ] + decimal(values@[i as int] as nat)));
            }
        }
        i += 1;
    }
    assert(values@.take(values@.len() as int) =~= values@);
    text.push(']');
    assert(text@ =~= number_list(values@));
    text
}

/// Bytes as pairs of upper-case hexadecimal digits.
pub fn hex(bytes: &[u8]) -> (text: String)
    ensures
        text@ == hex_text(bytes@),
{
    let mut text = String::new();
    let mut i: usize = 0;
    while i < bytes.len()
        invariant
            i <= bytes@.len(),
            text@ == hex_text(bytes@.take(i as int)),
        decreases bytes.len() - i,
    {
        let ghost before = text@;
        text.push(hex_character(bytes[i] / 16));
        text.push(hex_character(bytes[i] % 16));
        proof {
            assert(bytes@.take(i as int + 1).drop_last() =~= bytes@.take(i as int));
            assert(text@ =~= before + hex_byte(bytes@[i as int]));
        }
        i += 1;
    }
    assert(bytes@.take(bytes@.len() as int) =~= bytes@);
    text
}

/// A decimal digit.
pub open spec fn is_digit(character: char) -> bool {
    0x30 <= character as u32 <= 0x39
}

pub open spec fn all_digits(text: Seq<char>) -> bool {
    forall|i: int| 0 <= i < text.len() ==> is_digit(#[trigger] text[i])
}

/// The number that a row of decimal digits stands for.
pub open spec fn digits_value(text: Seq<char>) -> nat
    decreases text.len(),
{
    if text.len() == 0 {
        0
    } else {
        (digits_value(text.drop_last()) * 10 + (text.last() as u32 - 0x30)) as nat
    }
}

/// The digits of an unsigned number: what follows an optional plus sign.
pub open spec fn unsigned_digits(text: Seq<char>) -> Seq<char> {
    if text.len() > 0 && text[0] == '+' {
        text.skip(1)
    } else {
        text
    }
}

/// The unsigned number that `text` stands for, an optional plus sign followed by at least
/// one decimal digit and nothing else, where it is at most `max`.
pub open spec fn unsigned_value(text: Seq<char>, max: nat) -> Option<nat> {
    let digits = unsigned_digits(text);
    if digits.len() > 0 && all_digits(digits) && digits_value(digits) <= max {
        Some(digits_value(digits))
    } else {
        None
    }
}

proof fn lemma_digits_value_grows(text: Seq<char>, prefix: int)
    requires
        all_digits(text),
        0 <= prefix <= text.len(),
    ensures
        digits_value(text.take(prefix)) <= digits_value(text),
    decreases text.len() - prefix,
{
    if prefix < text.len() {
        lemma_digits_value_grows(text, prefix + 1);
        assert(text.take(prefix + 1).drop_last() =~= text.take(prefix));
        assert(is_digit(text[prefix]));
    } else {
        assert(text.take(prefix) =~= text);
    }
}

/// The decimal notation of a number is a row of digits that stands for it.
pub proof fn lemma_decimal_digits(value: nat)
    ensures
        decimal(value).len() > 0,
        all_digits(decimal(value)),
        digits_value(decimal(value)) == value,
    decreases value,
{
    let text = decimal(value);
    if value < 10 {
        assert(text.drop_last() =~= Seq::<char>::empty());
        assert(text.last() as u32 == 0x30 + value);
        assert(digits_value(text.drop_last()) == 0);
    } else {
        lemma_decimal_digits(value / 10);
        assert(text.last() as u32 == 0x30 + value % 10);
        assert(text.drop_last() =~= decimal(value / 10));
        assert forall|i: int| 0 <= i < text.len() implies is_digit(#[trigger] text[i]) by {
            if i < text.len() - 1 {
                assert(is_digit(decimal(value / 10)[i]));
            }
        }
    }
}

/// Reading the decimal notation of a number gives the number back.
pub proof fn law_decimal_reads_back(value: nat, max: nat)
    requires
        value <= max,
    ensures
        unsigned_value(decimal(value), max) == Some(value),
        trimmed(decimal(value)) == decimal(value),
{
    lemma_decimal_digits(value);
    let text = decimal(value);
    assert(is_digit(text[0]));
    assert(is_digit(text[text.len() - 1]));
    lemma_visible_is_not_blank(text);
}

/// Reads an unsigned decimal number that is at most `max`.
pub fn parse_unsigned(text: &str, max: u64) -> (result: Option<u64>)
    ensures
        match result {
            Some(value) => unsigned_value(text@, max as nat) == Some(value as nat),
            None => unsigned_value(text@, max as nat) is None,
        },
{
    let chars = chars_of(text);
    let start: usize = if chars.len() > 0 && chars[0] == '+' {
        1
    } else {
        0
    };
    let ghost digits = unsigned_digits(text@);
    assert(digits =~= text@.skip(start as int));
    if start == chars.len() {
        return None;
    }
    let mut value: u64 = 0;
    let mut i: usize = start;
    assert(digits.take(0) =~= Seq::<char>::empty());
    while i < chars.len()
        invariant
            start <= i <= chars@.len(),
            chars@ == text@,
            digits == unsigned_digits(text@),
            digits == text@.skip(start as int),
            digits.len() > 0,
            all_digits(digits.take(i - start)),
            value == digits_value(digits.take(i - start)),
            value <= max,
        decreases chars.len() - i,
    {
        let code: u32 = chars[i] as u32;
        assert(digits[i - start] == chars@[i as int]);
        if code < 0x30 || code > 0x39 {
            assert(!is_digit(digits[i - start]));
            return None;
        }
        let step: u64 = (code - 0x30) as u64;
        proof {
            assert(digits.take(i - start + 1).drop_last() =~= digits.take(i - start));
            assert forall|j: int| 0 <= j < i - start + 1 implies is_digit(
                #[trigger] digits.take(i - start + 1)[j],
            ) by {
                if j < i - start {
                    assert(is_digit(digits.take(i - start)[j]));
                }
            }
            if all_digits(digits) {
                lemma_digits_value_grows(digits, i - start + 1);
            }
        }
        if value > (max / 10) || step > max - value * 10 {
            return None;
        }
        value = value * 10 + step;
        i += 1;
    }
    assert(digits.take(digits.len() as int) =~= digits);
    Some(value)
}

} // verus!
