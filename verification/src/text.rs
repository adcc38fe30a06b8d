//! Text building: hexadecimal and decimal digits, appended to a `String`.

use vstd::prelude::*;

verus! {

/// The lower-case digit for a value below sixteen.
pub open spec fn lower_hex_digit(value: int) -> char {
    seq!['0', '1', '2', '3', '4', '5', '6', '7', '8', '9', 'a', 'b', 'c', 'd', 'e', 'f'][value]
}

/// The upper-case digit for a value below sixteen.
pub open spec fn upper_hex_digit(value: int) -> char {
    seq!['0', '1', '2', '3', '4', '5', '6', '7', '8', '9', 'A', 'B', 'C', 'D', 'E', 'F'][value]
}

/// A byte as two lower-case hexadecimal digits.
pub open spec fn hex_pair(byte: u8) -> Seq<char> {
    seq![lower_hex_digit(byte as int / 16), lower_hex_digit(byte as int % 16)]
}

/// A byte as two upper-case hexadecimal digits.
pub open spec fn upper_hex_pair(byte: u8) -> Seq<char> {
    seq![upper_hex_digit(byte as int / 16), upper_hex_digit(byte as int % 16)]
}

/// Bytes as lower-case hexadecimal digits, two for each byte and nothing
/// between them.
pub open spec fn packed_hex(data: Seq<u8>) -> Seq<char>
    decreases data.len(),
{
    if data.len() == 0 {
        Seq::empty()
    } else {
        packed_hex(data.drop_last()) + hex_pair(data.last())
    }
}

/// Bytes as lower-case hexadecimal digits, two for each byte, with one space
/// between neighbours.
pub open spec fn spaced_hex(data: Seq<u8>) -> Seq<char>
    decreases data.len(),
{
    if data.len() == 0 {
        Seq::empty()
    } else if data.len() == 1 {
        hex_pair(data.last())
    } else {
        spaced_hex(data.drop_last()) + seq![' '] + hex_pair(data.last())
    }
}

/// A number in lower-case hexadecimal, without leading zeros.
pub open spec fn hex_digits(value: nat) -> Seq<char>
    decreases value,
{
    if value < 16 {
        seq![lower_hex_digit(value as int)]
    } else {
        hex_digits(value / 16).push(lower_hex_digit(value as int % 16))
    }
}

/// A number in lower-case hexadecimal, filled with zeros to four digits.
pub open spec fn hex_digits_4(value: nat) -> Seq<char> {
    if value < 0x1_0000 {
        seq![
            lower_hex_digit(value as int / 0x1000),
            lower_hex_digit(value as int / 0x100 % 16),
            lower_hex_digit(value as int / 0x10 % 16),
            lower_hex_digit(value as int % 16),
        ]
    } else {
        hex_digits(value)
    }
}

/// The decimal digit for a value below ten.
pub open spec fn decimal_digit(value: int) -> char {
    seq!['0', '1', '2', '3', '4', '5', '6', '7', '8', '9'][value]
}

/// A number in decimal, without leading zeros.
pub open spec fn decimal_digits(value: nat) -> Seq<char>
    decreases value,
{
    if value < 10 {
        seq![decimal_digit(value as int)]
    } else {
        decimal_digits(value / 10).push(decimal_digit(value as int % 10))
    }
}

/// Appends one character. Wraps `String::push` of the standard library,
/// which adds the character at the end and leaves the rest as it was.
#[verifier::external_body]
pub(crate) fn push_char(text: &mut String, c: char)
    ensures
        final(text)@ == old(text)@.push(c),
{
    text.push(c);
}

/// The lower-case hexadecimal digit of `value`.
pub fn lower_hex_char(value: u8) -> (digit: char)
    requires
        value < 16,
    ensures
        digit == lower_hex_digit(value as int),
{
    match value {
        0 => '0',
        1 => '1',
        2 => '2',
        3 => '3',
        4 => '4',
        5 => '5',
        6 => '6',
        7 => '7',
        8 => '8',
        9 => '9',
        10 => 'a',
        11 => 'b',
        12 => 'c',
        13 => 'd',
        14 => 'e',
        _ => 'f',
    }
}

/// The upper-case hexadecimal digit of `value`.
pub fn upper_hex_char(value: u8) -> (digit: char)
    requires
        value < 16,
    ensures
        digit == upper_hex_digit(value as int),
{
    match value {
        0 => '0',
        1 => '1',
        2 => '2',
        3 => '3',
        4 => '4',
        5 => '5',
        6 => '6',
        7 => '7',
        8 => '8',
        9 => '9',
        10 => 'A',
        11 => 'B',
        12 => 'C',
        13 => 'D',
        14 => 'E',
        _ => 'F',
    }
}

/// Appends a byte as two lower-case hexadecimal digits.
pub fn push_hex_pair(text: &mut String, byte: u8)
    ensures
        final(text)@ == old(text)@ + hex_pair(byte),
{
    push_char(text, lower_hex_char(byte / 16));
    push_char(text, lower_hex_char(byte % 16));
    assert(text@ =~= old(text)@ + hex_pair(byte));
}

/// Appends a byte as two upper-case hexadecimal digits.
pub fn push_upper_hex_pair(text: &mut String, byte: u8)
    ensures
        final(text)@ == old(text)@ + upper_hex_pair(byte),
{
    push_char(text, upper_hex_char(byte / 16));
    push_char(text, upper_hex_char(byte % 16));
    assert(text@ =~= old(text)@ + upper_hex_pair(byte));
}

/// Appends a number in lower-case hexadecimal, without leading zeros.
pub fn push_hex_digits(text: &mut String, value: usize)
    ensures
        final(text)@ == old(text)@ + hex_digits(value as nat),
    decreases value,
{
    if value >= 16 {
        push_hex_digits(text, value / 16);
    }
    let low: u8 = (value % 16) as u8;
    push_char(text, lower_hex_char(low));
    assert(text@ =~= old(text)@ + hex_digits(value as nat));
}

/// Appends a number in lower-case hexadecimal, filled with zeros to four
/// digits.
pub fn push_hex_digits_4(text: &mut String, value: usize)
    ensures
        final(text)@ == old(text)@ + hex_digits_4(value as nat),
{
    if value < 0x1_0000 {
        push_char(text, lower_hex_char((value / 0x1000) as u8));
        push_char(text, lower_hex_char((value / 0x100 % 16) as u8));
        push_char(text, lower_hex_char((value / 0x10 % 16) as u8));
        push_char(text, lower_hex_char((value % 16) as u8));
        assert(text@ =~= old(text)@ + hex_digits_4(value as nat));
    } else {
        push_hex_digits(text, value);
    }
}

/// Appends a number in decimal, without leading zeros.
pub fn push_decimal(text: &mut String, value: u64)
    ensures
        final(text)@ == old(text)@ + decimal_digits(value as nat),
    decreases value,
{
    if value >= 10 {
        push_decimal(text, value / 10);
    }
    let digit: char = match value % 10 {
        0 => '0',
        1 => '1',
        2 => '2',
        3 => '3',
        4 => '4',
        5 => '5',
        6 => '6',
        7 => '7',
        8 => '8',
        _ => '9',
    };
    push_char(text, digit);
    assert(text@ =~= old(text)@ + decimal_digits(value as nat));
}

} // verus!
