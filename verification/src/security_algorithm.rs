//! Seed-to-key transformations of the security access service.
//!
//! Four variants exist, selected by the even sub-function of the key
//! request. All arithmetic is on unsigned 32-bit words; rotations are
//! circular and shifts are logical.

use vstd::prelude::*;
use crate::types::DoipError;
use crate::utils::{
    be_bytes, be_value, bytes_to_int, hex_line, hex_line_count, int_to_bytes, print_hex,
};

verus! {

/// Number of rounds every variant runs.
pub const CYCLES: u32 = 32;

/// Circular left rotation of a 32-bit word by `n` places, for `0 < n < 32`.
pub open spec fn rotl(x: u32, n: u32) -> u32 {
    (x << n) | (x >> ((32 - n) as u32))
}

/// Circular right rotation of a 32-bit word by `n` places, for `0 < n < 32`.
pub open spec fn rotr(x: u32, n: u32) -> u32 {
    (x >> n) | (x << ((32 - n) as u32))
}

/// One round of the first variant: the low bit of `t` picks the rotation and
/// the word that is mixed in.
pub open spec fn level1_round(t: u32, seed: u32, key: u32) -> u32 {
    if t & 1 != 0 {
        rotl(t, 3) ^ seed
    } else {
        rotr(t, 7) ^ key
    }
}

/// The first variant's state after `n` rounds.
pub open spec fn level1_rounds(seed: u32, key: u32, n: nat) -> u32
    decreases n,
{
    if n == 0 {
        seed ^ key
    } else {
        level1_round(level1_rounds(seed, key, (n - 1) as nat), seed, key)
    }
}

/// Key of the first variant (selector 2).
pub open spec fn key_level1(seed: u32, key: u32) -> u32 {
    level1_rounds(seed, key, 32)
}

/// One round of the second variant: shift right by one, then mix in the seed
/// or the constant, as the bit that was shifted out says.
pub open spec fn level2_round(t: u32, seed: u32, key: u32) -> u32 {
    if t & 1 != 0 {
        (t >> 1) ^ seed
    } else {
        (t >> 1) ^ key
    }
}

/// The second variant's state after `n` rounds.
pub open spec fn level2_rounds(seed: u32, key: u32, n: nat) -> u32
    decreases n,
{
    if n == 0 {
        seed ^ key
    } else {
        level2_round(level2_rounds(seed, key, (n - 1) as nat), seed, key)
    }
}

/// Key of the second variant (selector 4).
pub open spec fn key_level2(seed: u32, key: u32) -> u32 {
    level2_rounds(seed, key, 32)
}

/// What a round of the third variant makes of the seed before the constant
/// is mixed in. The top bit of the seed picks the form.
pub open spec fn level3_mix(seed: u32) -> u32 {
    if seed & 0x8000_0000 != 0 {
        (((seed >> 1) ^ seed) << 3) ^ (seed >> 3)
    } else {
        (seed >> 3) ^ (seed << 9)
    }
}

/// Key of the third variant (selector 6). Each round computes the same word
/// from the seed and the constant alone, so the rounds collapse into one.
pub open spec fn key_level3(seed: u32, key: u32) -> u32 {
    rotl(level3_mix(seed) ^ key, 15)
}

/// One round of the fourth variant.
pub open spec fn level4_round(t: u32, key: u32) -> u32 {
    rotl(t, 7) ^ key
}

/// The fourth variant's state after `n` rounds.
pub open spec fn level4_rounds(seed: u32, key: u32, n: nat) -> u32
    decreases n,
{
    if n == 0 {
        seed ^ key
    } else {
        level4_round(level4_rounds(seed, key, (n - 1) as nat), key)
    }
}

/// Key of the fourth variant (selector 8).
pub open spec fn key_level4(seed: u32, key: u32) -> u32 {
    level4_rounds(seed, key, 32)
}

/// The key for a selector, where the selector names a variant.
pub open spec fn key_by_level(level: u8, seed: u32, key: u32) -> Option<u32> {
    if level == 2 {
        Some(key_level1(seed, key))
    } else if level == 4 {
        Some(key_level2(seed, key))
    } else if level == 6 {
        Some(key_level3(seed, key))
    } else if level == 8 {
        Some(key_level4(seed, key))
    } else {
        None
    }
}

/// The seed-to-key calculator. It keeps one round counter per variant, which
/// each computation resets before it runs.
pub struct SecurityAccessAlgorithm {
    sec_m_level1_cycle_value: u32,
    sec_m_level2_cycle_value: u32,
    sec_m_level3_cycle_value: u32,
    sec_m_level4_cycle_value: u32,
}

impl SecurityAccessAlgorithm {
    /// All four round counters stand at their full value.
    pub closed spec fn wf(&self) -> bool {
        &&& self.sec_m_level1_cycle_value == CYCLES
        &&& self.sec_m_level2_cycle_value == CYCLES
        &&& self.sec_m_level3_cycle_value == CYCLES
        &&& self.sec_m_level4_cycle_value == CYCLES
    }

    pub fn new() -> (algorithm: Self)
        ensures
            algorithm.wf(),
    {
        Self {
            sec_m_level1_cycle_value: CYCLES,
            sec_m_level2_cycle_value: CYCLES,
            sec_m_level3_cycle_value: CYCLES,
            sec_m_level4_cycle_value: CYCLES,
        }
    }

    /// Key of the first variant.
    pub fn compute_key_level1(&mut self, seed: u32, key_k: u32) -> (token: u32)
        requires
            old(self).wf(),
        ensures
            final(self).wf(),
            token == key_level1(seed, key_k),
    {
        self.sec_m_level1_cycle_value = CYCLES;
        let mut temp_key: u32 = seed ^ key_k;
        let mut round: u32 = 0;
        while round < self.sec_m_level1_cycle_value
            invariant
                self.wf(),
                round <= CYCLES,
                temp_key == level1_rounds(seed, key_k, round as nat),
            decreases CYCLES - round,
        {
            if (temp_key & 0x01) != 0 {
                let shifted_left: u32 = temp_key << 3;
                let shifted_right: u32 = temp_key >> 29;
                temp_key = shifted_left | shifted_right;
                temp_key ^= seed;
            } else {
                let shifted_right: u32 = temp_key >> 7;
                let shifted_left: u32 = temp_key << 25;
                temp_key = shifted_right | shifted_left;
                temp_key ^= key_k;
            }
            round += 1;
        }
        temp_key
    }

    /// Key of the second variant.
    pub fn compute_key_level2(&mut self, seed: u32, key_k: u32) -> (token: u32)
        requires
            old(self).wf(),
        ensures
            final(self).wf(),
            token == key_level2(seed, key_k),
    {
        self.sec_m_level2_cycle_value = CYCLES;
        let mut temp_key: u32 = seed ^ key_k;
        let mut round: u32 = 0;
        while round < self.sec_m_level2_cycle_value
            invariant
                self.wf(),
                round <= CYCLES,
                temp_key == level2_rounds(seed, key_k, round as nat),
            decreases CYCLES - round,
        {
            if (temp_key & 0x0000_0001) != 0 {
                temp_key >>= 1;
                temp_key ^= seed;
            } else {
                temp_key >>= 1;
                temp_key ^= key_k;
            }
            round += 1;
        }
        temp_key
    }

    /// Key of the third variant. The rounds are kept as they run on the
    /// control units, although each one overwrites what the last computed.
    pub fn compute_key_level3(&mut self, seed: u32, key_k: u32) -> (token: u32)
        requires
            old(self).wf(),
        ensures
            final(self).wf(),
            token == key_level3(seed, key_k),
    {
        self.sec_m_level3_cycle_value = CYCLES;
        let mut temp_key: u32 = seed ^ key_k;
        let mut round: u32 = 0;
        while round < self.sec_m_level3_cycle_value
            invariant
                self.wf(),
                round <= CYCLES,
                round > 0 ==> temp_key == level3_mix(seed) ^ key_k,
            decreases CYCLES - round,
        {
            if (seed & 0x8000_0000) != 0 {
                let part1: u32 = ((seed >> 1) ^ seed) << 3;
                let part2: u32 = seed >> 3;
                temp_key = part1 ^ part2;
            } else {
                let part1: u32 = seed >> 3;
                let part2: u32 = seed << 9;
                temp_key = part1 ^ part2;
            }
            temp_key ^= key_k;
            round += 1;
        }
        let shifted_left: u32 = temp_key << 15;
        let shifted_right: u32 = temp_key >> 17;
        temp_key = shifted_left | shifted_right;
        temp_key
    }

    /// Key of the fourth variant. Its rounds come to the seed mixed with
    /// the constant, inverted where the constant has an odd number of one
    /// bits.
    pub fn compute_key_level4(&mut self, seed: u32, key_k: u32) -> (token: u32)
        requires
            old(self).wf(),
        ensures
            final(self).wf(),
            token == key_level4(seed, key_k),
            token == (seed ^ key_k) ^ if odd_ones(key_k, 32) {
                0xffff_ffffu32
            } else {
                0u32
            },
    {
        proof {
            lemma_level4_by_parity(seed, key_k);
        }
        self.sec_m_level4_cycle_value = CYCLES;
        let mut temp_key: u32 = seed ^ key_k;
        let mut round: u32 = 0;
        while round < self.sec_m_level4_cycle_value
            invariant
                self.wf(),
                round <= CYCLES,
                temp_key == level4_rounds(seed, key_k, round as nat),
            decreases CYCLES - round,
        {
            let left_shift: u32 = temp_key << 7;
            let right_shift: u32 = temp_key >> (32 - 7);
            temp_key = left_shift | right_shift;
            temp_key ^= key_k;
            round += 1;
        }
        temp_key
    }

    /// The key for `level`, or `UnsupportedLevel` where `level` names no
    /// variant.
    pub fn compute_key_by_level(&mut self, level: u8, seed: u32, key_k: u32) -> (result: Result<
        u32,
        DoipError,
    >)
        requires
            old(self).wf(),
        ensures
            final(self).wf(),
            match key_by_level(level, seed, key_k) {
                Some(token) => result == Ok::<u32, DoipError>(token),
                None => result == Err::<u32, DoipError>(DoipError::UnsupportedLevel(level)),
            },
    {
        match level {
            2 => Ok(self.compute_key_level1(seed, key_k)),
            4 => Ok(self.compute_key_level2(seed, key_k)),
            6 => Ok(self.compute_key_level3(seed, key_k)),
            8 => Ok(self.compute_key_level4(seed, key_k)),
            _ => Err(DoipError::UnsupportedLevel(level)),
        }
    }

    /// The lines of a hexadecimal dump of `data`.
    pub fn print_hex(&self, data: &[u8], bytes_per_line: usize) -> (lines: Vec<String>)
        requires
            bytes_per_line > 0,
        ensures
            lines@.len() == hex_line_count(data@.len() as int, bytes_per_line as int),
            forall|line: int|
                0 <= line < lines@.len() ==> (#[trigger] lines@[line])@ == hex_line(
                    data@,
                    bytes_per_line as int,
                    line,
                ),
    {
        print_hex(data, bytes_per_line)
    }

    /// Big-endian encoding of a token or seed.
    pub fn int_to_bytes(&self, value: u32) -> (bytes: Vec<u8>)
        ensures
            bytes@ == be_bytes(value),
    {
        int_to_bytes(value)
    }

    /// Big-endian decoding of a four-byte seed.
    pub fn bytes_to_int(&self, bytes: &[u8]) -> (result: Result<u32, DoipError>)
        ensures
            bytes@.len() == 4 ==> result == Ok::<u32, DoipError>(be_value(bytes@) as u32),
            bytes@.len() != 4 ==> (result matches Err(DoipError::InvalidData(message)) && message@
                == "Bytes array must be 4 bytes long"@),
    {
        bytes_to_int(bytes)
    }
}

impl Default for SecurityAccessAlgorithm {
    fn default() -> (algorithm: Self)
        ensures
            algorithm.wf(),
    {
        Self::new()
    }
}

/// No selector outside {2, 4, 6, 8} names a variant.
pub proof fn lemma_unsupported_levels(level: u8, seed: u32, key: u32)
    ensures
        key_by_level(level, seed, key) is None <==> !(level == 2 || level == 4 || level == 6
            || level == 8),
{
}

/// `x` after `n` rotations by seven places to the left.
pub open spec fn rotated_by_sevens(x: u32, n: nat) -> u32
    decreases n,
{
    if n == 0 {
        x
    } else {
        rotl(rotated_by_sevens(x, (n - 1) as nat), 7)
    }
}

/// What `n` rounds of the fourth variant make of the constant alone: each
/// round rotates what the rounds before have gathered and mixes the
/// constant in once more.
pub open spec fn level4_gathered(key: u32, n: nat) -> u32
    decreases n,
{
    if n == 0 {
        0
    } else {
        rotl(level4_gathered(key, (n - 1) as nat), 7) ^ key
    }
}

/// Rotation by seven places goes through the mixing of two words.
proof fn lemma_rotation_distributes(a: u32, b: u32, key: u32)
    by (bit_vector)
    ensures
        rotl(a ^ b, 7) ^ key == rotl(a, 7) ^ (rotl(b, 7) ^ key),
        rotl(a ^ b, 7) ^ key == (rotl(a, 7) ^ key) ^ rotl(b, 7),
        a ^ 0 == a,
        0 ^ a == a,
        rotl(0, 7) == 0,
{
}

/// A word that a rotation by seven places leaves as it is has all its bits
/// alike; and mixing the same word into two words keeps them apart.
proof fn lemma_turned_onto_itself(x: u32, y: u32, key: u32)
    by (bit_vector)
    ensures
        rotl(x, 7) == x ==> x == 0 || x == 0xffff_ffff,
        x ^ key == y ^ key ==> x == y,
        x ^ 0xffff_ffff == !x,
{
}

/// Four rotations by seven places are one by twenty-eight.
proof fn lemma_four_sevens(x: u32)
    by (bit_vector)
    ensures
        rotl(rotl(rotl(rotl(x, 7), 7), 7), 7) == rotl(x, 28),
{
}

/// Two rotations by twenty-eight places are one by twenty-four, two by
/// twenty-four are one by sixteen, and two by sixteen are none.
proof fn lemma_doubled_rotations(x: u32)
    by (bit_vector)
    ensures
        rotl(rotl(x, 28), 28) == rotl(x, 24),
        rotl(rotl(x, 24), 24) == rotl(x, 16),
        rotl(rotl(x, 16), 16) == x,
{
}

/// Four more rotations by seven places are one more by twenty-eight.
proof fn lemma_four_more_sevens(x: u32, n: nat)
    ensures
        rotated_by_sevens(x, n + 4) == rotl(rotated_by_sevens(x, n), 28),
{
    reveal_with_fuel(rotated_by_sevens, 5);
    lemma_four_sevens(rotated_by_sevens(x, n));
}

/// Thirty-two rotations by seven places, 224 in all, leave a word as it
/// was.
pub proof fn lemma_full_turn(x: u32)
    ensures
        rotated_by_sevens(x, 32) == x,
{
    assert(rotated_by_sevens(x, 0) == x);
    lemma_four_more_sevens(x, 0);
    lemma_four_more_sevens(x, 4);
    lemma_four_more_sevens(x, 8);
    lemma_four_more_sevens(x, 12);
    lemma_four_more_sevens(x, 16);
    lemma_four_more_sevens(x, 20);
    lemma_four_more_sevens(x, 24);
    lemma_four_more_sevens(x, 28);
    let r8 = rotated_by_sevens(x, 8);
    let r16 = rotated_by_sevens(x, 16);
    let r24 = rotated_by_sevens(x, 24);
    lemma_doubled_rotations(x);
    assert(r8 == rotl(x, 24));
    lemma_doubled_rotations(r8);
    assert(r16 == rotl(r8, 24));
    assert(r16 == rotl(x, 16));
    lemma_doubled_rotations(r16);
    assert(r24 == rotl(r16, 24));
    lemma_doubled_rotations(r24);
    assert(rotated_by_sevens(x, 32) == rotl(r24, 24));
    lemma_doubled_rotations(rotl(r16, 16));
}

/// After `n` rounds the state of the fourth variant is the start, rotated
/// `n` times, mixed with what the rounds have gathered of the constant.
pub proof fn lemma_level4_rounds_split(seed: u32, key: u32, n: nat)
    ensures
        level4_rounds(seed, key, n) == rotated_by_sevens(seed ^ key, n) ^ level4_gathered(key, n),
    decreases n,
{
    if n == 0 {
        lemma_rotation_distributes(seed ^ key, 0, key);
    } else {
        let before = (n - 1) as nat;
        lemma_level4_rounds_split(seed, key, before);
        lemma_rotation_distributes(
            rotated_by_sevens(seed ^ key, before),
            level4_gathered(key, before),
            key,
        );
    }
}

/// The closed form of the fourth variant. Its thirty-two rounds rotate the
/// start by 224 places in all, which is a rotation by none, so that the key
/// is the seed mixed with the constant and with what the rounds gather of
/// the constant alone.
pub proof fn lemma_level4_closed_form(seed: u32, key: u32)
    ensures
        key_level4(seed, key) == (seed ^ key) ^ level4_gathered(key, 32),
{
    lemma_level4_rounds_split(seed, key, 32);
    lemma_full_turn(seed ^ key);
}

/// Each round adds to what is gathered the constant as the rounds before
/// have rotated it.
pub proof fn lemma_level4_gathered_grows(key: u32, n: nat)
    ensures
        level4_gathered(key, n + 1) == level4_gathered(key, n) ^ rotated_by_sevens(key, n),
    decreases n,
{
    if n == 0 {
        reveal_with_fuel(level4_gathered, 2);
        lemma_rotation_distributes(key, 0, key);
    } else {
        let before = (n - 1) as nat;
        lemma_level4_gathered_grows(key, before);
        lemma_rotation_distributes(
            level4_gathered(key, before),
            rotated_by_sevens(key, before),
            key,
        );
    }
}

/// After thirty-two rounds the constant has been gathered in every one of
/// its rotations, so that what is gathered has all its bits alike.
pub proof fn lemma_level4_gathered_alike(key: u32)
    ensures
        level4_gathered(key, 32) == 0 || level4_gathered(key, 32) == 0xffff_ffff,
        rotl(level4_gathered(key, 32), 7) == level4_gathered(key, 32),
{
    let gathered = level4_gathered(key, 32);
    lemma_level4_gathered_grows(key, 32);
    lemma_full_turn(key);
    assert(level4_gathered(key, 33) == rotl(gathered, 7) ^ key);
    lemma_turned_onto_itself(rotl(gathered, 7), gathered, key);
    lemma_turned_onto_itself(gathered, gathered, key);
}

/// The key of the fourth variant is the seed mixed with the constant, or
/// the inverse of that.
pub proof fn lemma_level4_two_values(seed: u32, key: u32)
    ensures
        key_level4(seed, key) == seed ^ key || key_level4(seed, key) == !(seed ^ key),
{
    lemma_level4_closed_form(seed, key);
    lemma_level4_gathered_alike(key);
    lemma_turned_onto_itself(seed ^ key, seed, key);
    lemma_rotation_distributes(seed ^ key, 0, key);
}

/// Whether an odd number of the low `n` bits of `x` are ones.
pub open spec fn odd_ones(x: u32, n: nat) -> bool
    decreases n,
{
    if n == 0 {
        false
    } else {
        odd_ones(x, (n - 1) as nat) != (x & (1u32 << ((n - 1) as u32)) != 0)
    }
}

/// The low `n` bits of `x`, put together bit by bit.
pub open spec fn low_bits(x: u32, n: nat) -> u32
    decreases n,
{
    if n == 0 {
        0
    } else {
        low_bits(x, (n - 1) as nat) ^ (x & (1u32 << ((n - 1) as u32)))
    }
}

/// Four rounds of the fourth variant.
pub open spec fn level4_round_4(t: u32, key: u32) -> u32 {
    level4_round(level4_round(level4_round(level4_round(t, key), key), key), key)
}

/// One bit of a word is nothing or the bit itself; and a word is its low
/// bits mixed with the rest, one bit more at a time.
proof fn lemma_one_bit(x: u32, low: u32, i: u32, next: u32)
    by (bit_vector)
    requires
        i < 32,
        next == i + 1,
    ensures
        (x & (1u32 << i)) == 0 || (x & (1u32 << i)) == (1u32 << i),
        0u32 ^ ((x >> 0u32) << 0u32) == x,
        i < 31 && low ^ ((x >> i) << i) == x ==> (low ^ (x & (1u32 << i))) ^ ((x >> next) << next)
            == x,
        i == 31 && low ^ ((x >> i) << i) == x ==> low ^ (x & (1u32 << i)) == x,
{
}

/// Mixing and rotating by seven places go through each other, and what
/// mixing makes of words whose bits are all alike.
proof fn lemma_mixing(x: u32, y: u32, a: u32, b: u32)
    by (bit_vector)
    ensures
        rotl(x ^ y, 7) ^ (a ^ b) == (rotl(x, 7) ^ a) ^ (rotl(y, 7) ^ b),
        rotl(x ^ y, 7) == rotl(x, 7) ^ rotl(y, 7),
        rotl(0u32, 7) ^ 0u32 == 0u32,
        0u32 ^ 0u32 == 0u32,
        0u32 ^ 0xffff_ffffu32 == 0xffff_ffffu32,
        0xffff_ffffu32 ^ 0u32 == 0xffff_ffffu32,
        0xffff_ffffu32 ^ 0xffff_ffffu32 == 0u32,
        x ^ 0u32 == x,
        x ^ 0xffff_ffffu32 == !x,
{
}

/// A rotation by seven places takes the bit at one place to the place
/// seven to the left, around the word.
proof fn lemma_bit_turns(from: u32, to: u32)
    by (bit_vector)
    requires
        from < 32,
        to < 32,
        from + 7 == to || from == to + 25,
    ensures
        rotl(1u32 << from, 7) == 1u32 << to,
        1u32 << 0u32 == 1u32,
{
}

/// What the rounds gather of the constant one, every four rounds.
proof fn lemma_rounds_of_one()
    by (bit_vector)
    ensures
        level4_round_4(0, 1) == 0x0020_4081,
        level4_round_4(0x0020_4081, 1) == 0x1022_4489,
        level4_round_4(0x1022_4489, 1) == 0x9122_64c9,
        level4_round_4(0x9122_64c9, 1) == 0x9932_66cd,
        level4_round_4(0x9932_66cd, 1) == 0xd9b3_66ed,
        level4_round_4(0xd9b3_66ed, 1) == 0xddbb_76ef,
        level4_round_4(0xddbb_76ef, 1) == 0xfdfb_f7ef,
        level4_round_4(0xfdfb_f7ef, 1) == 0xffff_ffff,
{
}

/// A word is all of its bits.
proof fn lemma_low_bits_and_rest(x: u32, n: nat)
    requires
        n <= 31,
    ensures
        low_bits(x, n) ^ ((x >> (n as u32)) << (n as u32)) == x,
    decreases n,
{
    if n == 0 {
        lemma_one_bit(x, 0, 0, 1);
    } else {
        let i = (n - 1) as u32;
        lemma_low_bits_and_rest(x, (n - 1) as nat);
        lemma_one_bit(x, low_bits(x, (n - 1) as nat), i, n as u32);
    }
}

/// A word is all of its thirty-two bits.
pub proof fn lemma_low_bits_all(x: u32)
    ensures
        low_bits(x, 32) == x,
{
    lemma_low_bits_and_rest(x, 31);
    lemma_one_bit(x, low_bits(x, 31), 31, 32);
}

/// Of no constant the rounds gather nothing.
proof fn lemma_gathered_of_zero(n: nat)
    ensures
        level4_gathered(0, n) == 0,
    decreases n,
{
    if n > 0 {
        lemma_gathered_of_zero((n - 1) as nat);
        lemma_mixing(0, 0, 0, 0);
    }
}

/// What the rounds gather of two constants mixed is what they gather of
/// each, mixed.
pub proof fn lemma_gathered_linear(a: u32, b: u32, n: nat)
    ensures
        level4_gathered(a ^ b, n) == level4_gathered(a, n) ^ level4_gathered(b, n),
    decreases n,
{
    if n == 0 {
        lemma_mixing(0, 0, 0, 0);
    } else {
        let before = (n - 1) as nat;
        lemma_gathered_linear(a, b, before);
        lemma_mixing(level4_gathered(a, before), level4_gathered(b, before), a, b);
    }
}

/// What the rounds gather of a rotated constant is what they gather of the
/// constant, rotated.
proof fn lemma_gathered_rotates(x: u32, n: nat)
    ensures
        level4_gathered(rotl(x, 7), n) == rotl(level4_gathered(x, n), 7),
    decreases n,
{
    if n == 0 {
        lemma_rotation_distributes(0, 0, 0);
    } else {
        let before = (n - 1) as nat;
        lemma_gathered_rotates(x, before);
        lemma_mixing(rotl(level4_gathered(x, before), 7), x, 0, 0);
    }
}

/// Thirty-two rounds gather of a constant what they gather of any of its
/// rotations.
proof fn lemma_gathered_orbit(x: u32, turns: nat)
    ensures
        level4_gathered(rotated_by_sevens(x, turns), 32) == level4_gathered(x, 32),
    decreases turns,
{
    if turns > 0 {
        let before = rotated_by_sevens(x, (turns - 1) as nat);
        lemma_gathered_orbit(x, (turns - 1) as nat);
        lemma_gathered_rotates(before, 32);
        lemma_level4_gathered_alike(before);
    }
}

/// The word with one bit at the lowest place, rotated, is the word with one
/// bit at the place that the rotations make.
proof fn lemma_one_bit_turned(turns: nat)
    ensures
        rotated_by_sevens(1, turns) == 1u32 << (((7 * turns) % 32) as u32),
    decreases turns,
{
    if turns == 0 {
        lemma_bit_turns(0, 7);
    } else {
        lemma_one_bit_turned((turns - 1) as nat);
        let from = ((7 * (turns - 1)) % 32) as u32;
        let to = ((7 * turns) % 32) as u32;
        lemma_bit_turns(from, to);
    }
}

/// Four more rounds gather what four rounds make of what was gathered.
proof fn lemma_gathered_four_more(key: u32, n: nat)
    ensures
        level4_gathered(key, n + 4) == level4_round_4(level4_gathered(key, n), key),
{
    reveal_with_fuel(level4_gathered, 5);
}

/// Of the constant one the thirty-two rounds gather a word of ones.
proof fn lemma_gathered_of_one()
    ensures
        level4_gathered(1, 32) == 0xffff_ffff,
{
    lemma_rounds_of_one();
    lemma_gathered_four_more(1, 0);
    lemma_gathered_four_more(1, 4);
    lemma_gathered_four_more(1, 8);
    lemma_gathered_four_more(1, 12);
    lemma_gathered_four_more(1, 16);
    lemma_gathered_four_more(1, 20);
    lemma_gathered_four_more(1, 24);
    lemma_gathered_four_more(1, 28);
}

/// Of a constant with one bit the thirty-two rounds gather a word of ones,
/// wherever the bit stands.
proof fn lemma_gathered_of_bit(place: u32)
    requires
        place < 32,
    ensures
        level4_gathered(1u32 << place, 32) == 0xffff_ffff,
{
    let turns = ((23 * place) % 32) as nat;
    assert((7 * turns) % 32 == place);
    lemma_one_bit_turned(turns);
    lemma_gathered_orbit(1, turns);
    lemma_gathered_of_one();
}

/// What the thirty-two rounds gather of the low bits of a constant is a
/// word of ones where an odd number of those bits are ones, else nothing.
proof fn lemma_gathered_parity(key: u32, n: nat)
    requires
        n <= 32,
    ensures
        level4_gathered(low_bits(key, n), 32) == if odd_ones(key, n) {
            0xffff_ffffu32
        } else {
            0u32
        },
    decreases n,
{
    if n == 0 {
        lemma_gathered_of_zero(32);
    } else {
        let place = (n - 1) as u32;
        let bit = key & (1u32 << place);
        let lower = low_bits(key, (n - 1) as nat);
        lemma_gathered_parity(key, (n - 1) as nat);
        lemma_gathered_linear(lower, bit, 32);
        lemma_one_bit(key, 0, place, (place + 1) as u32);
        lemma_mixing(0, 0, 0, 0);
        if bit == 0 {
            lemma_gathered_of_zero(32);
        } else {
            lemma_gathered_of_bit(place);
        }
    }
}

/// The closed form of the fourth variant by the constant's parity: the key
/// is the seed mixed with the constant, inverted where the constant has an
/// odd number of one bits.
pub proof fn lemma_level4_by_parity(seed: u32, key: u32)
    ensures
        key_level4(seed, key) == if odd_ones(key, 32) {
            !(seed ^ key)
        } else {
            seed ^ key
        },
        key_level4(seed, key) == (seed ^ key) ^ if odd_ones(key, 32) {
            0xffff_ffffu32
        } else {
            0u32
        },
{
    lemma_level4_closed_form(seed, key);
    lemma_low_bits_all(key);
    lemma_gathered_parity(key, 32);
    lemma_mixing(seed ^ key, 0, 0, 0);
}

} // verus!
