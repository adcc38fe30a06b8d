//! Byte and text conversions used throughout the protocol engine.

use vstd::prelude::*;
use vstd::string::{is_ascii, is_ascii_spec_bytes};
use vstd::utf8::is_ascii_chars;
use crate::text::{
    hex_digits_4, hex_pair, lower_hex_digit, packed_hex, push_char, push_hex_digits_4,
    push_hex_pair, spaced_hex,
};
use crate::types::DoipError;

verus! {

/// The four bytes of `value`, most significant first.
pub open spec fn be_bytes(value: u32) -> Seq<u8> {
    seq![
        (value / 0x100_0000) as u8,
        (value / 0x1_0000 % 0x100) as u8,
        (value / 0x100 % 0x100) as u8,
        (value % 0x100) as u8,
    ]
}

/// The number whose big-endian digits in base 256 are the first four bytes.
pub open spec fn be_value(bytes: Seq<u8>) -> int
    recommends
        bytes.len() == 4,
{
    bytes[0] * 0x100_0000 + bytes[1] * 0x1_0000 + bytes[2] * 0x100 + bytes[3]
}

/// Big-endian encoding of a 32-bit integer.
pub fn int_to_bytes(value: u32) -> (bytes: Vec<u8>)
    ensures
        bytes@ == be_bytes(value),
{
    assert((value >> 24) == value / 0x100_0000 && (value >> 24) < 0x100) by (bit_vector);
    assert((value >> 16) & 0xff == value / 0x1_0000 % 0x100 && (value >> 16) & 0xff < 0x100)
        by (bit_vector);
    assert((value >> 8) & 0xff == value / 0x100 % 0x100 && (value >> 8) & 0xff < 0x100)
        by (bit_vector);
    assert(value & 0xff == value % 0x100 && value & 0xff < 0x100) by (bit_vector);
    let b0: u8 = (value >> 24) as u8;
    let b1: u8 = ((value >> 16) & 0xff) as u8;
    let b2: u8 = ((value >> 8) & 0xff) as u8;
    let b3: u8 = (value & 0xff) as u8;
    let mut bytes: Vec<u8> = Vec::with_capacity(4);
    bytes.push(b0);
    bytes.push(b1);
    bytes.push(b2);
    bytes.push(b3);
    assert(bytes@ =~= be_bytes(value));
    bytes
}

/// Big-endian decoding of exactly four bytes.
pub fn bytes_to_int(bytes: &[u8]) -> (result: Result<u32, DoipError>)
    ensures
        bytes@.len() == 4 ==> result == Ok::<u32, DoipError>(be_value(bytes@) as u32),
        bytes@.len() == 4 ==> be_value(bytes@) <= u32::MAX,
        bytes@.len() != 4 ==> (result matches Err(DoipError::InvalidData(message)) && message@
            == "Bytes array must be 4 bytes long"@),
{
    if bytes.len() != 4 {
        return Err(DoipError::InvalidData("Bytes array must be 4 bytes long".to_string()));
    }
    let b0: u32 = bytes[0] as u32;
    let b1: u32 = bytes[1] as u32;
    let b2: u32 = bytes[2] as u32;
    let b3: u32 = bytes[3] as u32;
    assert((b0 << 24 | b1 << 16 | b2 << 8 | b3) == b0 * 0x100_0000 + b1 * 0x1_0000 + b2 * 0x100
        + b3) by (bit_vector)
        requires
            b0 < 0x100,
            b1 < 0x100,
            b2 < 0x100,
            b3 < 0x100,
    ;
    Ok(b0 << 24 | b1 << 16 | b2 << 8 | b3)
}

/// Encoding and decoding are inverse to each other on four-byte buffers.
pub proof fn lemma_int_bytes_roundtrip(value: u32, bytes: Seq<u8>)
    requires
        bytes.len() == 4,
    ensures
        be_bytes(value).len() == 4,
        be_value(be_bytes(value)) == value,
        0 <= be_value(bytes) <= u32::MAX,
        be_bytes(be_value(bytes) as u32) == bytes,
{
    assert(value / 0x100_0000 < 0x100 && (value / 0x100_0000) * 0x100_0000 + (value / 0x1_0000
        % 0x100) * 0x1_0000 + (value / 0x100 % 0x100) * 0x100 + value % 0x100 == value)
        by (bit_vector);
    let b0: u32 = bytes[0] as u32;
    let b1: u32 = bytes[1] as u32;
    let b2: u32 = bytes[2] as u32;
    let b3: u32 = bytes[3] as u32;
    let v: u32 = (b0 * 0x100_0000 + b1 * 0x1_0000 + b2 * 0x100 + b3) as u32;
    assert(b0 * 0x100_0000 + b1 * 0x1_0000 + b2 * 0x100 + b3 <= 0xffff_ffff && v / 0x100_0000
        == b0 && v / 0x1_0000 % 0x100 == b1 && v / 0x100 % 0x100 == b2 && v % 0x100 == b3)
        by (bit_vector)
        requires
            b0 < 0x100,
            b1 < 0x100,
            b2 < 0x100,
            b3 < 0x100,
            v == (b0 * 0x100_0000 + b1 * 0x1_0000 + b2 * 0x100 + b3) as u32,
    ;
    assert(be_bytes(v) =~= bytes);
}

/// `target` stands in `data` at offset `at`.
pub open spec fn occurs_at(data: Seq<u8>, target: Seq<u8>, at: int) -> bool {
    &&& 0 <= at
    &&& at + target.len() <= data.len()
    &&& data.subrange(at, at + target.len()) == target
}

/// A non-empty `target` stands somewhere in `data`.
pub open spec fn contains_bytes(data: Seq<u8>, target: Seq<u8>) -> bool {
    target.len() > 0 && exists|at: int| occurs_at(data, target, at)
}

/// `at` is the lowest offset not below `from` at which `target` stands.
pub open spec fn is_first_occurrence_from(data: Seq<u8>, target: Seq<u8>, from: int, at: int) -> bool {
    &&& from <= at
    &&& occurs_at(data, target, at)
    &&& forall|k: int| from <= k < at ==> !occurs_at(data, target, k)
}

/// `at` is the highest offset at which the non-empty `target` stands.
pub open spec fn is_last_occurrence(data: Seq<u8>, target: Seq<u8>, at: int) -> bool {
    &&& target.len() > 0
    &&& occurs_at(data, target, at)
    &&& forall|k: int| at < k ==> !occurs_at(data, target, k)
}

/// The non-empty `marker` stands in `data` at two offsets or more.
pub open spec fn has_repeated_marker(data: Seq<u8>, marker: Seq<u8>) -> bool {
    marker.len() > 0 && exists|first: int, second: int|
        first < second && occurs_at(data, marker, first) && occurs_at(data, marker, second)
}

/// What is left of `data` from the last place on at which `marker` stands.
pub open spec fn last_frame(data: Seq<u8>, marker: Seq<u8>) -> Option<Seq<u8>> {
    if exists|at: int| is_last_occurrence(data, marker, at) {
        let at = choose|at: int| is_last_occurrence(data, marker, at);
        Some(data.subrange(at, data.len() as int))
    } else {
        None
    }
}

/// Tells whether `target` stands in `data` at offset `at`.
fn matches_at(data: &[u8], target: &[u8], at: usize) -> (found: bool)
    requires
        at + target@.len() <= data@.len(),
    ensures
        found == occurs_at(data@, target@, at as int),
{
    let data_len: usize = data.len();
    let mut k: usize = 0;
    while k < target.len()
        invariant
            k <= target@.len(),
            at + target@.len() <= data@.len() == data_len,
            forall|j: int| 0 <= j < k ==> data@[at + j] == target@[j],
        decreases target@.len() - k,
    {
        if data[at + k] != target[k] {
            assert(data@.subrange(at as int, at + target@.len())[k as int] != target@[k as int]);
            return false;
        }
        k += 1;
    }
    assert(data@.subrange(at as int, at + target@.len()) =~= target@);
    true
}

/// The lowest offset not below `from` at which the non-empty `target` stands.
fn find_from(data: &[u8], target: &[u8], from: usize) -> (found: Option<usize>)
    requires
        target@.len() > 0,
    ensures
        match found {
            Some(at) => is_first_occurrence_from(data@, target@, from as int, at as int),
            None => forall|k: int| from <= k ==> !occurs_at(data@, target@, k),
        },
{
    if data.len() < target.len() || from > data.len() - target.len() {
        return None;
    }
    let last: usize = data.len() - target.len();
    let mut at: usize = from;
    while at <= last
        invariant
            from <= at <= last + 1,
            target@.len() > 0,
            data@.len() <= usize::MAX,
            last == data@.len() - target@.len(),
            forall|k: int| from <= k < at ==> !occurs_at(data@, target@, k),
        decreases last + 1 - at,
    {
        if matches_at(data, target, at) {
            return Some(at);
        }
        at += 1;
    }
    None
}

/// Offset of the first place at which `target` stands in `data`. An empty
/// `target` is found nowhere.
pub fn find_bytes(data: &[u8], target: &[u8]) -> (found: Option<usize>)
    ensures
        found is Some <==> contains_bytes(data@, target@),
        found matches Some(at) ==> is_first_occurrence_from(data@, target@, 0, at as int),
{
    if target.len() == 0 || data.len() < target.len() {
        return None;
    }
    let found = find_from(data, target, 0);
    proof {
        if found is Some {
            assert(occurs_at(data@, target@, found->Some_0 as int));
        }
    }
    found
}

/// Tells whether `data` begins with `prefix`.
pub fn starts_with(data: &[u8], prefix: &[u8]) -> (yes: bool)
    ensures
        yes == occurs_at(data@, prefix@, 0),
{
    if data.len() < prefix.len() {
        return false;
    }
    matches_at(data, prefix, 0)
}

/// Tells whether `data` ends with `suffix`.
pub fn ends_with(data: &[u8], suffix: &[u8]) -> (yes: bool)
    ensures
        yes == occurs_at(data@, suffix@, data@.len() - suffix@.len()),
{
    if data.len() < suffix.len() {
        return false;
    }
    let start: usize = data.len() - suffix.len();
    matches_at(data, suffix, start)
}

/// Tells whether one read holds more than one frame: whether `start_marker`
/// stands in `data` at two offsets or more.
pub fn is_continuous_frames(data: &[u8], start_marker: &[u8]) -> (yes: bool)
    ensures
        yes == has_repeated_marker(data@, start_marker@),
{
    if start_marker.len() == 0 {
        return false;
    }
    match find_from(data, start_marker, 0) {
        None => false,
        Some(first) => {
            if first >= data.len() {
                return false;
            }
            match find_from(data, start_marker, first + 1) {
                None => false,
                Some(second) => {
                    assert(occurs_at(data@, start_marker@, first as int) && occurs_at(
                        data@,
                        start_marker@,
                        second as int,
                    ));
                    true
                },
            }
        },
    }
}

/// Where the non-empty `marker` stands in `data`, it stands at exactly one
/// last place.
pub proof fn lemma_last_occurrence_unique(data: Seq<u8>, marker: Seq<u8>, at: int)
    requires
        is_last_occurrence(data, marker, at),
    ensures
        last_frame(data, marker) == Some(data.subrange(at, data.len() as int)),
{
    let chosen = choose|k: int| is_last_occurrence(data, marker, k);
    assert(chosen == at) by {
        if chosen < at {
            assert(!occurs_at(data, marker, at));
        } else if at < chosen {
            assert(!occurs_at(data, marker, chosen));
        }
    }
}

/// The last frame of one read: the bytes from the last place on at which
/// `start_marker` stands, or `None` where it stands nowhere.
pub fn extract_last_frame(data: &[u8], start_marker: &[u8]) -> (frame: Option<Vec<u8>>)
    ensures
        frame is Some <==> contains_bytes(data@, start_marker@),
        match frame {
            Some(bytes) => last_frame(data@, start_marker@) == Some(bytes@),
            None => last_frame(data@, start_marker@) is None,
        },
{
    if start_marker.len() == 0 || data.len() < start_marker.len() {
        return None;
    }
    let mut at: usize = data.len() - start_marker.len();
    loop
        invariant
            start_marker@.len() > 0,
            at + start_marker@.len() <= data@.len(),
            forall|k: int| at < k ==> !occurs_at(data@, start_marker@, k),
        decreases at,
    {
        if matches_at(data, start_marker, at) {
            let mut bytes: Vec<u8> = Vec::new();
            let mut i: usize = at;
            while i < data.len()
                invariant
                    at <= i <= data@.len(),
                    bytes@ == data@.subrange(at as int, i as int),
                decreases data@.len() - i,
            {
                bytes.push(data[i]);
                i += 1;
                assert(bytes@ =~= data@.subrange(at as int, i as int));
            }
            proof {
                lemma_last_occurrence_unique(data@, start_marker@, at as int);
            }
            return Some(bytes);
        }
        if at == 0 {
            return None;
        }
        at -= 1;
    }
}

/// Bytes as lower-case hexadecimal text, one space between neighbours.
pub fn bytes_to_hex(bytes: &[u8]) -> (text: String)
    ensures
        text@ == spaced_hex(bytes@),
{
    let mut text = String::new();
    let mut i: usize = 0;
    while i < bytes.len()
        invariant
            i <= bytes@.len(),
            text@ == spaced_hex(bytes@.take(i as int)),
        decreases bytes@.len() - i,
    {
        if i > 0 {
            push_char(&mut text, ' ');
        }
        push_hex_pair(&mut text, bytes[i]);
        proof {
            let head = bytes@.take(i + 1);
            assert(head.drop_last() =~= bytes@.take(i as int));
            assert(head.last() == bytes@[i as int]);
            assert(text@ =~= spaced_hex(head));
        }
        i += 1;
    }
    assert(bytes@.take(bytes@.len() as int) =~= bytes@);
    text
}

/// One line of a hexadecimal dump: the offset of the line's first byte, a
/// colon, and the bytes of the line.
pub open spec fn hex_line(data: Seq<u8>, bytes_per_line: int, line: int) -> Seq<char> {
    let start = line * bytes_per_line;
    let end = if start + bytes_per_line < data.len() {
        start + bytes_per_line
    } else {
        data.len() as int
    };
    seq!['0', 'x'] + hex_digits_4(start as nat) + seq![':', ' '] + spaced_hex(
        data.subrange(start, end),
    )
}

/// How many lines a dump of `len` bytes takes.
pub open spec fn hex_line_count(len: int, bytes_per_line: int) -> int {
    (len + bytes_per_line - 1) / bytes_per_line
}

/// The lines of a hexadecimal dump of `data`, `bytes_per_line` bytes to a
/// line. The caller decides where they are written.
pub fn print_hex(data: &[u8], bytes_per_line: usize) -> (lines: Vec<String>)
    requires
        bytes_per_line > 0,
    ensures
        lines@.len() == hex_line_count(data@.len() as int, bytes_per_line as int),
        forall|line: int|
            0 <= line < lines@.len() ==> (#[trigger] lines@[line])@ == hex_line(
                data@,
                bytes_per_line as int,
                line,
            ),
{
    let len: usize = data.len();
    let mut lines: Vec<String> = Vec::new();
    let mut start: usize = 0;
    assert(lines@.len() * bytes_per_line == 0) by (nonlinear_arith)
        requires
            lines@.len() == 0,
    ;
    while start < len
        invariant
            bytes_per_line > 0,
            len == data@.len(),
            start <= len,
            start == if lines@.len() * bytes_per_line < len {
                lines@.len() * bytes_per_line
            } else {
                len as int
            },
            lines@.len() > 0 ==> (lines@.len() - 1) * bytes_per_line < len,
            forall|line: int|
                0 <= line < lines@.len() ==> (#[trigger] lines@[line])@ == hex_line(
                    data@,
                    bytes_per_line as int,
                    line,
                ),
        decreases len - start,
    {
        let ghost line = lines@.len() as int;
        let end: usize = if len - start <= bytes_per_line {
            len
        } else {
            start + bytes_per_line
        };
        let mut text = String::new();
        push_char(&mut text, '0');
        push_char(&mut text, 'x');
        push_hex_digits_4(&mut text, start);
        push_char(&mut text, ':');
        push_char(&mut text, ' ');
        let ghost prefix = text@;
        let mut i: usize = start;
        while i < end
            invariant
                start <= i <= end <= len,
                len == data@.len(),
                text@ == prefix + spaced_hex(data@.subrange(start as int, i as int)),
            decreases end - i,
        {
            if i > start {
                push_char(&mut text, ' ');
            }
            push_hex_pair(&mut text, data[i]);
            proof {
                let head = data@.subrange(start as int, i + 1);
                assert(head.drop_last() =~= data@.subrange(start as int, i as int));
                assert(head.last() == data@[i as int]);
                assert(text@ =~= prefix + spaced_hex(head));
            }
            i += 1;
        }
        proof {
            assert(prefix =~= seq!['0', 'x'] + hex_digits_4(start as nat) + seq![':', ' ']);
            assert((line + 1) * bytes_per_line == line * bytes_per_line + bytes_per_line)
                by (nonlinear_arith);
            assert(text@ == hex_line(data@, bytes_per_line as int, line));
        }
        lines.push(text);
        start = end;
    }
    proof {
        let count = lines@.len() as int;
        let width = bytes_per_line as int;
        let total = len as int;
        assert(count == (total + width - 1) / width) by (nonlinear_arith)
            requires
                width > 0,
                total >= 0,
                count >= 0,
                count * width >= total,
                count > 0 ==> (count - 1) * width < total,
        ;
    }
    lines
}

/// A byte that stands for a visible ASCII character or the space.
pub open spec fn is_printable(byte: u8) -> bool {
    0x20 <= byte <= 0x7e
}

/// Text with one character for each byte: the byte's own where it is
/// printable, and a dot in place of every other.
pub open spec fn dotted_text(data: Seq<u8>) -> Seq<char> {
    Seq::new(
        data.len(),
        |i: int|
            if is_printable(data[i]) {
                data[i] as char
            } else {
                '.'
            },
    )
}

/// What stands for one byte in escaped text: its character where it is
/// printable, else `\x` and its two hexadecimal digits.
pub open spec fn escaped_byte(byte: u8) -> Seq<char> {
    if is_printable(byte) {
        seq![byte as char]
    } else {
        seq!['\\', 'x'] + hex_pair(byte)
    }
}

/// Text in which every byte that is not printable is written as an escape.
pub open spec fn escaped_text(data: Seq<u8>) -> Seq<char>
    decreases data.len(),
{
    if data.len() == 0 {
        Seq::empty()
    } else {
        escaped_text(data.drop_last()) + escaped_byte(data.last())
    }
}

/// Bytes as ASCII text, with a dot for each byte that is not printable.
pub fn bytes_to_ascii(data: &[u8]) -> (text: String)
    ensures
        text@ == dotted_text(data@),
{
    let mut text = String::new();
    let mut i: usize = 0;
    while i < data.len()
        invariant
            i <= data@.len(),
            text@ == dotted_text(data@.take(i as int)),
        decreases data@.len() - i,
    {
        let byte: u8 = data[i];
        if byte >= 0x20 && byte <= 0x7E {
            push_char(&mut text, byte as char);
        } else {
            push_char(&mut text, '.');
        }
        assert(text@ =~= dotted_text(data@.take(i + 1)));
        i += 1;
    }
    assert(data@.take(data@.len() as int) =~= data@);
    text
}

/// Bytes as ASCII text, with an escape of the form `\xHH` for each byte that
/// is not printable.
pub fn bytes_to_ascii_with_escape(data: &[u8]) -> (text: String)
    ensures
        text@ == escaped_text(data@),
{
    let mut text = String::new();
    let mut i: usize = 0;
    while i < data.len()
        invariant
            i <= data@.len(),
            text@ == escaped_text(data@.take(i as int)),
        decreases data@.len() - i,
    {
        let byte: u8 = data[i];
        if byte >= 0x20 && byte <= 0x7E {
            push_char(&mut text, byte as char);
        } else {
            push_char(&mut text, '\\');
            push_char(&mut text, 'x');
            push_hex_pair(&mut text, byte);
        }
        proof {
            let head = data@.take(i + 1);
            assert(head.drop_last() =~= data@.take(i as int));
            assert(head.last() == byte);
            assert(text@ =~= escaped_text(head));
        }
        i += 1;
    }
    assert(data@.take(data@.len() as int) =~= data@);
    text
}

/// The characters that hexadecimal text may hold between its digits.
pub open spec fn is_blank(c: char) -> bool {
    c == ' ' || c == '\t' || c == '\n'
}

/// The value of a hexadecimal digit, in either case.
pub open spec fn hex_digit_value(c: char) -> Option<int> {
    if '0' <= c <= '9' {
        Some(c as int - '0' as int)
    } else if 'a' <= c <= 'f' {
        Some(c as int - 'a' as int + 10)
    } else if 'A' <= c <= 'F' {
        Some(c as int - 'A' as int + 10)
    } else {
        None
    }
}

/// `text` with its blanks taken out.
pub open spec fn without_blanks(text: Seq<char>) -> Seq<char>
    decreases text.len(),
{
    if text.len() == 0 {
        Seq::empty()
    } else if is_blank(text.last()) {
        without_blanks(text.drop_last())
    } else {
        without_blanks(text.drop_last()).push(text.last())
    }
}

/// Every character is a hexadecimal digit.
pub open spec fn all_hex_digits(digits: Seq<char>) -> bool {
    forall|i: int| 0 <= i < digits.len() ==> (#[trigger] hex_digit_value(digits[i])) is Some
}

/// The bytes that an even number of hexadecimal digits spell, two digits to
/// a byte, the high one first.
pub open spec fn digits_to_bytes(digits: Seq<char>) -> Seq<u8> {
    Seq::new(
        (digits.len() / 2) as nat,
        |i: int|
            (hex_digit_value(digits[2 * i])->0 * 16 + hex_digit_value(digits[2 * i + 1])->0) as u8,
    )
}

/// The bytes that hexadecimal text spells, or `None` where it is malformed:
/// where, blanks aside, it holds anything but digits, or an odd number of
/// them.
pub open spec fn parse_hex(text: Seq<char>) -> Option<Seq<u8>> {
    let digits = without_blanks(text);
    if digits.len() % 2 == 0 && all_hex_digits(digits) {
        Some(digits_to_bytes(digits))
    } else {
        None
    }
}

/// `pair` is the place of the first two digits that spell no byte.
pub open spec fn is_first_bad_pair(digits: Seq<char>, pair: int) -> bool {
    &&& 0 <= pair
    &&& 2 * pair + 1 < digits.len()
    &&& (hex_digit_value(digits[2 * pair]) is None || hex_digit_value(digits[2 * pair + 1])
        is None)
    &&& forall|k: int| 0 <= k < 2 * pair ==> (#[trigger] hex_digit_value(digits[k])) is Some
}

/// The message with which malformed hexadecimal text is refused. Text
/// beyond ASCII is named whole; of any other, the first two characters that
/// spell no byte, unless the digits are odd in number.
pub open spec fn hex_error_text(text: Seq<char>) -> Seq<char> {
    let digits = without_blanks(text);
    if !is_ascii_chars(text) {
        "Invalid hex byte: "@ + text
    } else if digits.len() % 2 != 0 {
        "Hex string length must be even"@
    } else {
        let pair = choose|pair: int| is_first_bad_pair(digits, pair);
        "Invalid hex byte: "@ + seq![digits[2 * pair], digits[2 * pair + 1]]
    }
}

/// There is one first pair that spells no byte, if any.
proof fn lemma_first_bad_pair_unique(digits: Seq<char>, pair: int)
    requires
        is_first_bad_pair(digits, pair),
    ensures
        (choose|other: int| is_first_bad_pair(digits, other)) == pair,
{
    let other = choose|other: int| is_first_bad_pair(digits, other);
    if other < pair {
        assert(hex_digit_value(digits[2 * other]) is Some);
        assert(hex_digit_value(digits[2 * other + 1]) is Some);
    } else if pair < other {
        assert(hex_digit_value(digits[2 * pair]) is Some);
        assert(hex_digit_value(digits[2 * pair + 1]) is Some);
    }
}

/// The number that hexadecimal digits spell.
pub open spec fn hex_number(digits: Seq<char>) -> int
    decreases digits.len(),
{
    if digits.len() == 0 {
        0
    } else {
        hex_number(digits.drop_last()) * 16 + hex_digit_value(digits.last())->0
    }
}

/// The 16-bit address that one to four hexadecimal digits spell.
pub open spec fn parse_address(text: Seq<char>) -> Option<int> {
    if 1 <= text.len() <= 4 && all_hex_digits(text) {
        Some(hex_number(text))
    } else {
        None
    }
}

/// A character that is no blank stays when the blanks are taken out.
proof fn lemma_kept_without_blanks(text: Seq<char>, at: int)
    requires
        0 <= at < text.len(),
        !is_blank(text[at]),
    ensures
        exists|k: int| 0 <= k < without_blanks(text).len() && without_blanks(text)[k] == text[at],
    decreases text.len(),
{
    let rest = text.drop_last();
    if at == text.len() - 1 {
        assert(without_blanks(text)[without_blanks(rest).len() as int] == text[at]);
    } else {
        lemma_kept_without_blanks(rest, at);
        let k = choose|k: int|
            0 <= k < without_blanks(rest).len() && without_blanks(rest)[k] == rest[at];
        assert(without_blanks(text)[k] == text[at]);
    }
}

/// Text that holds a character which is neither a blank nor a digit spells
/// no bytes.
proof fn lemma_stray_character(text: Seq<char>, at: int)
    requires
        0 <= at < text.len(),
        !is_blank(text[at]),
        hex_digit_value(text[at]) is None,
    ensures
        parse_hex(text) is None,
{
    lemma_kept_without_blanks(text, at);
}

/// The value of the hexadecimal digit that `byte` stands for in ASCII.
pub fn hex_value(byte: u8) -> (value: Option<u8>)
    ensures
        match hex_digit_value(byte as char) {
            Some(v) => value == Some(v as u8) && 0 <= v < 16,
            None => value is None,
        },
{
    if byte >= 0x30 && byte <= 0x39 {
        Some(byte - 0x30)
    } else if byte >= 0x61 && byte <= 0x66 {
        Some(byte - 0x61 + 10)
    } else if byte >= 0x41 && byte <= 0x46 {
        Some(byte - 0x41 + 10)
    } else {
        None
    }
}

/// Parses hexadecimal text into bytes. Spaces, tabs and line feeds may stand
/// anywhere in it; what is left must be an even number of digits.
pub fn hex_to_bytes(hex: &str) -> (result: Result<Vec<u8>, DoipError>)
    ensures
        match parse_hex(hex@) {
            Some(bytes) => result is Ok && result->Ok_0@ == bytes,
            None => result matches Err(DoipError::InvalidData(message)) && message@
                == hex_error_text(hex@),
        },
{
    if !hex.is_ascii() {
        proof {
            let at = choose|i: int| 0 <= i < hex@.len() && !('\0' <= #[trigger] hex@[i] <= '\u{7f}');
            lemma_stray_character(hex@, at);
        }
        let mut message = "Invalid hex byte: ".to_string();
        message.append(hex);
        return Err(DoipError::InvalidData(message));
    }
    let raw = hex.as_bytes();
    proof {
        is_ascii_spec_bytes(hex);
    }
    let mut digits: Vec<u8> = Vec::new();
    let mut i: usize = 0;
    while i < raw.len()
        invariant
            i <= raw@.len() == hex@.len(),
            is_ascii(hex),
            forall|k: int| 0 <= k < raw@.len() ==> raw@[k] == hex@[k] as u8,
            digits@.len() == without_blanks(hex@.take(i as int)).len(),
            forall|k: int|
                0 <= k < digits@.len() ==> digits@[k] as char == without_blanks(
                    hex@.take(i as int),
                )[k],
        decreases raw@.len() - i,
    {
        let byte: u8 = raw[i];
        proof {
            let head = hex@.take(i + 1);
            assert(head.drop_last() =~= hex@.take(i as int));
            assert(head.last() == hex@[i as int]);
            assert('\0' <= hex@[i as int] <= '\u{7f}');
        }
        if !(byte == 0x20 || byte == 0x09 || byte == 0x0a) {
            digits.push(byte);
        }
        i += 1;
    }
    assert(hex@.take(hex@.len() as int) =~= hex@);
    let ghost clean = without_blanks(hex@);
    if digits.len() % 2 != 0 {
        return Err(DoipError::InvalidData("Hex string length must be even".to_string()));
    }
    let mut bytes: Vec<u8> = Vec::new();
    let mut at: usize = 0;
    while at < digits.len()
        invariant
            at <= digits@.len() == clean.len(),
            at % 2 == 0,
            digits@.len() % 2 == 0,
            is_ascii_chars(hex@),
            clean == without_blanks(hex@),
            forall|k: int| 0 <= k < digits@.len() ==> digits@[k] as char == clean[k],
            forall|k: int| 0 <= k < at ==> (#[trigger] hex_digit_value(clean[k])) is Some,
            bytes@.len() == at / 2,
            forall|k: int| 0 <= k < bytes@.len() ==> bytes@[k] == digits_to_bytes(clean)[k],
        decreases digits@.len() - at,
    {
        let high = hex_value(digits[at]);
        let low = hex_value(digits[at + 1]);
        match (high, low) {
            (Some(h), Some(l)) => {
                bytes.push(h * 16 + l);
            },
            _ => {
                proof {
                    let bad: int = if high is None {
                        at as int
                    } else {
                        at + 1
                    };
                    assert(hex_digit_value(clean[bad]) is None);
                    let pair = at as int / 2;
                    assert(2 * pair == at);
                    assert(is_first_bad_pair(clean, pair));
                    lemma_first_bad_pair_unique(clean, pair);
                }
                let mut message = "Invalid hex byte: ".to_string();
                push_char(&mut message, digits[at] as char);
                push_char(&mut message, digits[at + 1] as char);
                assert(message@ =~= "Invalid hex byte: "@ + seq![
                    clean[at as int],
                    clean[at + 1],
                ]);
                return Err(DoipError::InvalidData(message));
            },
        }
        at += 2;
    }
    assert(bytes@ =~= digits_to_bytes(clean));
    Ok(bytes)
}

/// The two bytes of a 16-bit address, high byte first.
pub open spec fn address_bytes(value: int) -> Seq<u8> {
    seq![(value / 0x100) as u8, (value % 0x100) as u8]
}

/// Parses a logical address of one to four hexadecimal digits into its two
/// bytes, high byte first.
pub fn hex_to_address_bytes(hex_str: &str) -> (result: Result<Vec<u8>, DoipError>)
    ensures
        match parse_address(hex_str@) {
            Some(value) => result is Ok && result->Ok_0@ == address_bytes(value) && 0 <= value
                < 0x1_0000,
            None => result matches Err(DoipError::InvalidData(message)) && message@
                == "Invalid hex address: "@ + hex_str@,
        },
{
    let mut message = "Invalid hex address: ".to_string();
    message.append(hex_str);
    if !hex_str.is_ascii() {
        proof {
            let at = choose|i: int|
                0 <= i < hex_str@.len() && !('\0' <= #[trigger] hex_str@[i] <= '\u{7f}');
            assert(hex_digit_value(hex_str@[at]) is None);
        }
        return Err(DoipError::InvalidData(message));
    }
    let raw = hex_str.as_bytes();
    proof {
        is_ascii_spec_bytes(hex_str);
    }
    if raw.len() < 1 || raw.len() > 4 {
        return Err(DoipError::InvalidData(message));
    }
    let mut value: u32 = 0;
    let mut i: usize = 0;
    while i < raw.len()
        invariant
            i <= raw@.len() == hex_str@.len() <= 4,
            is_ascii(hex_str),
            message@ == "Invalid hex address: "@ + hex_str@,
            forall|k: int| 0 <= k < raw@.len() ==> raw@[k] == hex_str@[k] as u8,
            forall|k: int| 0 <= k < i ==> (#[trigger] hex_digit_value(hex_str@[k])) is Some,
            value == hex_number(hex_str@.take(i as int)),
            i == 0 ==> value == 0,
            i == 1 ==> value < 0x10,
            i == 2 ==> value < 0x100,
            i == 3 ==> value < 0x1000,
            i == 4 ==> value < 0x1_0000,
        decreases raw@.len() - i,
    {
        proof {
            let head = hex_str@.take(i + 1);
            assert(head.drop_last() =~= hex_str@.take(i as int));
            assert(head.last() == hex_str@[i as int]);
            assert('\0' <= hex_str@[i as int] <= '\u{7f}');
        }
        match hex_value(raw[i]) {
            Some(digit) => {
                value = value * 16 + digit as u32;
            },
            None => {
                return Err(DoipError::InvalidData(message));
            },
        }
        i += 1;
    }
    assert(hex_str@.take(hex_str@.len() as int) =~= hex_str@);
    assert((value >> 8) == value / 0x100 && (value & 0xff) == value % 0x100 && (value >> 8)
        < 0x100 && (value & 0xff) < 0x100) by (bit_vector)
        requires
            value < 0x1_0000,
    ;
    let mut bytes: Vec<u8> = Vec::with_capacity(2);
    bytes.push((value >> 8) as u8);
    bytes.push((value & 0xff) as u8);
    assert(bytes@ =~= address_bytes(value as int));
    Ok(bytes)
}

/// Taking the blanks out of two texts and joining them is taking the blanks
/// out of the joined text.
pub proof fn lemma_without_blanks_concat(first: Seq<char>, second: Seq<char>)
    ensures
        without_blanks(first + second) == without_blanks(first) + without_blanks(second),
    decreases second.len(),
{
    if second.len() == 0 {
        assert(first + second =~= first);
        assert(without_blanks(first) + without_blanks(second) =~= without_blanks(first));
    } else {
        let rest = second.drop_last();
        lemma_without_blanks_concat(first, rest);
        assert((first + second).drop_last() =~= first + rest);
        assert((first + second).last() == second.last());
        assert(without_blanks(first + second) =~= without_blanks(first) + without_blanks(second));
    }
}

/// Every lower-case digit is read back as the value it was written for.
pub proof fn lemma_digit_value(value: int)
    requires
        0 <= value < 16,
    ensures
        hex_digit_value(lower_hex_digit(value)) == Some(value),
        !is_blank(lower_hex_digit(value)),
{
}

/// The digits of packed text: two for each byte, the high one first.
pub proof fn lemma_packed_hex_digits(data: Seq<u8>)
    ensures
        packed_hex(data).len() == 2 * data.len(),
        forall|i: int|
            0 <= i < data.len() ==> packed_hex(data)[2 * i] == lower_hex_digit(data[i] as int / 16)
                && packed_hex(data)[2 * i + 1] == lower_hex_digit(data[i] as int % 16),
    decreases data.len(),
{
    if data.len() > 0 {
        let rest = data.drop_last();
        lemma_packed_hex_digits(rest);
        assert forall|i: int| 0 <= i < data.len() implies packed_hex(data)[2 * i]
            == lower_hex_digit(data[i] as int / 16) && packed_hex(data)[2 * i + 1]
            == lower_hex_digit(data[i] as int % 16) by {
            if i < rest.len() {
                assert(rest[i] == data[i]);
            }
        }
    }
}

/// Spaced text without its blanks is packed text.
pub proof fn lemma_spaced_hex_without_blanks(data: Seq<u8>)
    ensures
        without_blanks(spaced_hex(data)) == packed_hex(data),
    decreases data.len(),
{
    if data.len() > 0 {
        let rest = data.drop_last();
        let pair = hex_pair(data.last());
        lemma_digit_value(data.last() as int / 16);
        lemma_digit_value(data.last() as int % 16);
        lemma_no_blanks(pair);
        if data.len() == 1 {
            reveal_with_fuel(packed_hex, 2);
            assert(packed_hex(data) =~= pair);
        } else {
            lemma_spaced_hex_without_blanks(rest);
            let blank = seq![' '];
            reveal_with_fuel(without_blanks, 2);
            assert(blank.drop_last() =~= Seq::<char>::empty());
            assert(without_blanks(blank) =~= Seq::<char>::empty());
            lemma_without_blanks_concat(spaced_hex(rest), blank);
            lemma_without_blanks_concat(spaced_hex(rest) + blank, pair);
            assert(without_blanks(spaced_hex(data)) =~= packed_hex(rest) + pair);
        }
    }
}

/// Packed text is read back as the bytes it was written for.
pub proof fn lemma_packed_hex_roundtrip(data: Seq<u8>)
    ensures
        parse_hex(packed_hex(data)) == Some(data),
        without_blanks(packed_hex(data)) == packed_hex(data),
{
    let digits = packed_hex(data);
    lemma_packed_hex_digits(data);
    assert forall|k: int| 0 <= k < digits.len() implies hex_digit_value(#[trigger] digits[k])
        is Some && !is_blank(digits[k]) by {
        let i = k / 2;
        lemma_digit_value(data[i] as int / 16);
        lemma_digit_value(data[i] as int % 16);
        if k % 2 == 0 {
            assert(k == 2 * i);
        } else {
            assert(k == 2 * i + 1);
        }
    }
    lemma_no_blanks(digits);
    assert forall|i: int| 0 <= i < data.len() implies digits_to_bytes(digits)[i] == data[i] by {
        lemma_digit_value(data[i] as int / 16);
        lemma_digit_value(data[i] as int % 16);
    }
    assert(digits_to_bytes(digits) =~= data);
}

/// Text without blanks stays as it is when the blanks are taken out.
pub proof fn lemma_no_blanks(text: Seq<char>)
    requires
        forall|k: int| 0 <= k < text.len() ==> !is_blank(#[trigger] text[k]),
    ensures
        without_blanks(text) == text,
    decreases text.len(),
{
    if text.len() > 0 {
        lemma_no_blanks(text.drop_last());
        assert(without_blanks(text) =~= text);
    }
}

/// Parsing undoes formatting: the spaced text of any bytes is read back as
/// those bytes.
pub proof fn lemma_hex_roundtrip(data: Seq<u8>)
    ensures
        parse_hex(spaced_hex(data)) == Some(data),
{
    lemma_spaced_hex_without_blanks(data);
    lemma_packed_hex_roundtrip(data);
}

/// Parsing ignores blanks: a blank put anywhere into a text changes nothing
/// of what the text spells.
pub proof fn lemma_blank_ignored(before: Seq<char>, blank: char, after: Seq<char>)
    requires
        is_blank(blank),
    ensures
        parse_hex(before + seq![blank] + after) == parse_hex(before + after),
{
    let gap = seq![blank];
    reveal_with_fuel(without_blanks, 2);
    assert(gap.drop_last() =~= Seq::<char>::empty());
    assert(without_blanks(gap) =~= Seq::<char>::empty());
    lemma_without_blanks_concat(before, gap);
    lemma_without_blanks_concat(before + gap, after);
    lemma_without_blanks_concat(before, after);
    assert(without_blanks(before + gap + after) =~= without_blanks(before + after));
}

/// The high and the low byte of a 16-bit word, by shifting and masking.
pub proof fn lemma_word_bytes(value: u16)
    by (bit_vector)
    ensures
        (value >> 8) == value / 0x100,
        (value & 0xff) == value % 0x100,
        (value >> 8) < 0x100,
        (value & 0xff) < 0x100,
{
}

/// The 16-bit word that two bytes make, the high one first, and that its
/// bytes are those two.
pub proof fn lemma_word_of_bytes(high: u16, low: u16)
    by (bit_vector)
    requires
        high < 0x100,
        low < 0x100,
    ensures
        ((high << 8) | low) == high * 0x100 + low,
        (high * 0x100 + low) / 0x100 == high,
        (high * 0x100 + low) % 0x100 == low,
{
}

/// Appends a copy of `source` to `target`.
pub fn append_bytes(target: &mut Vec<u8>, source: &[u8])
    ensures
        final(target)@ == old(target)@ + source@,
{
    let mut i: usize = 0;
    while i < source.len()
        invariant
            i <= source@.len(),
            target@ == old(target)@ + source@.take(i as int),
        decreases source@.len() - i,
    {
        target.push(source[i]);
        i += 1;
        assert(target@ =~= old(target)@ + source@.take(i as int));
    }
    assert(source@.take(source@.len() as int) =~= source@);
}

/// A copy of `source`.
pub fn copy_bytes(source: &[u8]) -> (copy: Vec<u8>)
    ensures
        copy@ == source@,
{
    let mut copy: Vec<u8> = Vec::new();
    append_bytes(&mut copy, source);
    assert(copy@ =~= source@);
    copy
}

} // verus!
