//! The byte table: for each count of one bits, every byte with that count, in
//! increasing order.
//!
//! The tables for one to four bits are kept as constants. The others follow
//! from them: a byte has `ones` one bits exactly when its complement has
//! `8 - ones`. [`drawn_byte`] is the step from a drawn index to a byte: above
//! four bits it complements the entry that the index picks for `8 - ones`.

use crate::counting::{
    binomial, lemma_count_of_weight, lemma_increasing_same_length, lemma_numbers_of_weight,
    numbers_of_weight,
};
use crate::weight::{lemma_weight_bound, lemma_weight_complement, lemma_weight_step, weight};
use vstd::arithmetic::power2::lemma2_to64;
use vstd::prelude::*;

verus! {

/// The bytes that have exactly `ones` one bits, in increasing order.
pub open spec fn byte_table(ones: nat) -> Seq<u8> {
    numbers_of_weight(256, ones).map_values(|n: nat| n as u8)
}

/// Whether every entry of `s` is smaller than the entries after it.
pub open spec fn bytes_increasing(s: Seq<u8>) -> bool {
    forall|i: int, j: int| 0 <= i < j < s.len() ==> s[i] < s[j]
}

/// Whether every entry of `s` has exactly `ones` one bits.
pub open spec fn bytes_have_weight(s: Seq<u8>, ones: nat) -> bool {
    forall|i: int| 0 <= i < s.len() ==> weight(#[trigger] s[i] as nat) == ones
}

/// The complements of the entries of `s`, last entry first.
pub open spec fn complements(s: Seq<u8>) -> Seq<u8> {
    Seq::new(s.len(), |i: int| (255 - s[s.len() - 1 - i]) as u8)
}

/// The values of `binomial(8, k)`.
pub proof fn lemma_binomial_eight()
    ensures
        binomial(8, 0) == 1,
        binomial(8, 1) == 8,
        binomial(8, 2) == 28,
        binomial(8, 3) == 56,
        binomial(8, 4) == 70,
        binomial(8, 5) == 56,
        binomial(8, 6) == 28,
        binomial(8, 7) == 8,
        binomial(8, 8) == 1,
        forall|k: nat| k > 8 ==> binomial(8, k) == 0,
{
    reveal_with_fuel(binomial, 10);
}

/// What the table for `ones` holds: `binomial(8, ones)` bytes in increasing
/// order, each with `ones` one bits, and among them every byte that has
/// `ones` one bits.
pub proof fn lemma_byte_table(ones: nat)
    ensures
        byte_table(ones).len() == binomial(8, ones),
        bytes_increasing(byte_table(ones)),
        bytes_have_weight(byte_table(ones), ones),
        forall|b: u8| weight(b as nat) == ones ==> byte_table(ones).contains(b),
{
    lemma2_to64();
    lemma_count_of_weight(8, ones);
    lemma_numbers_of_weight(256, ones);
    let all = numbers_of_weight(256, ones);
    let table = byte_table(ones);
    assert forall|i: int| 0 <= i < table.len() implies table[i] as nat == all[i] by {
        assert(all[i] < 256);
    }
    assert forall|i: int, j: int| 0 <= i < j < table.len() implies table[i] < table[j] by {
        assert(all[i] < all[j]);
    }
    assert forall|b: u8| weight(b as nat) == ones implies table.contains(b) by {
        let i = choose|i: int| 0 <= i < all.len() && all[i] == b as nat;
        assert(table[i] == b);
    }
}

/// The table for `ones` is the only increasing sequence of
/// `binomial(8, ones)` bytes that each have `ones` one bits.
pub proof fn lemma_byte_table_unique(s: Seq<u8>, ones: nat)
    requires
        bytes_increasing(s),
        bytes_have_weight(s, ones),
        s.len() == binomial(8, ones),
    ensures
        s == byte_table(ones),
{
    lemma2_to64();
    lemma_count_of_weight(8, ones);
    lemma_numbers_of_weight(256, ones);
    let numbers = s.map_values(|b: u8| b as nat);
    let all = numbers_of_weight(256, ones);
    assert forall|i: int| 0 <= i < numbers.len() implies all.contains(#[trigger] numbers[i]) by {
        assert(weight(s[i] as nat) == ones);
    }
    lemma_increasing_same_length(numbers, all);
    assert(s =~= byte_table(ones));
}

/// The table for `ones` is the table for `8 - ones` with each byte
/// complemented, read backwards.
pub proof fn lemma_complement_table(ones: nat)
    requires
        ones <= 8,
    ensures
        byte_table(ones) == complements(byte_table((8 - ones) as nat)),
{
    let other = (8 - ones) as nat;
    let table = byte_table(other);
    let flipped = complements(table);
    lemma2_to64();
    lemma_byte_table(other);
    lemma_binomial_eight();
    assert forall|i: int| 0 <= i < flipped.len() implies weight(#[trigger] flipped[i] as nat)
        == ones by {
        let b = table[table.len() - 1 - i];
        assert(weight(b as nat) == other);
        lemma_weight_complement(b as nat, 8);
    }
    assert forall|i: int, j: int| 0 <= i < j < flipped.len() implies flipped[i] < flipped[j] by {
        assert(table[table.len() - 1 - j] < table[table.len() - 1 - i]);
    }
    lemma_byte_table_unique(flipped, ones);
}

/// The nine tables split the bytes between them: each byte stands in the
/// table for its own weight and in no other, no table holds a byte twice, and
/// together they hold 256 entries.
pub proof fn lemma_tables_partition_bytes(b: u8)
    ensures
        weight(b as nat) <= 8,
        byte_table(weight(b as nat)).contains(b),
        forall|ones: nat| byte_table(ones).contains(b) ==> ones == weight(b as nat),
        forall|ones: nat| #[trigger] byte_table(ones).no_duplicates(),
        byte_table(0).len() + byte_table(1).len() + byte_table(2).len() + byte_table(3).len()
            + byte_table(4).len() + byte_table(5).len() + byte_table(6).len() + byte_table(
            7,
        ).len() + byte_table(8).len() == 256,
{
    lemma2_to64();
    lemma_weight_bound(b as nat, 8);
    lemma_byte_table(weight(b as nat));
    assert forall|ones: nat| byte_table(ones).contains(b) implies ones == weight(b as nat) by {
        lemma_byte_table(ones);
        let i = choose|i: int| 0 <= i < byte_table(ones).len() && byte_table(ones)[i] == b;
        assert(weight(byte_table(ones)[i] as nat) == ones);
    }
    assert forall|ones: nat| #[trigger] byte_table(ones).no_duplicates() by {
        lemma_byte_table(ones);
    }
    lemma_binomial_eight();
    lemma_byte_table(0);
    lemma_byte_table(1);
    lemma_byte_table(2);
    lemma_byte_table(3);
    lemma_byte_table(4);
    lemma_byte_table(5);
    lemma_byte_table(6);
    lemma_byte_table(7);
    lemma_byte_table(8);
}

/// The bytes with one bit set.
pub const ONE_BIT: [u8; 8] = [0x01, 0x02, 0x04, 0x08, 0x10, 0x20, 0x40, 0x80];

/// The bytes with two bits set.
pub const TWO_BITS: [u8; 28] = [
    0x03, 0x05, 0x06, 0x09, 0x0A, 0x0C, 0x11, 0x12, 0x14, 0x18, 0x21, 0x22, 0x24, 0x28,
    0x30, 0x41, 0x42, 0x44, 0x48, 0x50, 0x60, 0x81, 0x82, 0x84, 0x88, 0x90, 0xA0, 0xC0,
];

/// The bytes with three bits set.
pub const THREE_BITS: [u8; 56] = [
    0x07, 0x0B, 0x0D, 0x0E, 0x13, 0x15, 0x16, 0x19, 0x1A, 0x1C, 0x23, 0x25, 0x26, 0x29,
    0x2A, 0x2C, 0x31, 0x32, 0x34, 0x38, 0x43, 0x45, 0x46, 0x49, 0x4A, 0x4C, 0x51, 0x52,
    0x54, 0x58, 0x61, 0x62, 0x64, 0x68, 0x70, 0x83, 0x85, 0x86, 0x89, 0x8A, 0x8C, 0x91,
    0x92, 0x94, 0x98, 0xA1, 0xA2, 0xA4, 0xA8, 0xB0, 0xC1, 0xC2, 0xC4, 0xC8, 0xD0, 0xE0,
];

/// The bytes with four bits set.
pub const FOUR_BITS: [u8; 70] = [
    0x0F, 0x17, 0x1B, 0x1D, 0x1E, 0x27, 0x2B, 0x2D, 0x2E, 0x33, 0x35, 0x36, 0x39, 0x3A,
    0x3C, 0x47, 0x4B, 0x4D, 0x4E, 0x53, 0x55, 0x56, 0x59, 0x5A, 0x5C, 0x63, 0x65, 0x66,
    0x69, 0x6A, 0x6C, 0x71, 0x72, 0x74, 0x78, 0x87, 0x8B, 0x8D, 0x8E, 0x93, 0x95, 0x96,
    0x99, 0x9A, 0x9C, 0xA3, 0xA5, 0xA6, 0xA9, 0xAA, 0xAC, 0xB1, 0xB2, 0xB4, 0xB8, 0xC3,
    0xC5, 0xC6, 0xC9, 0xCA, 0xCC, 0xD1, 0xD2, 0xD4, 0xD8, 0xE1, 0xE2, 0xE4, 0xE8, 0xF0,
];

/// The weight of a byte, written out bit by bit.
spec fn byte_weight(b: u8) -> nat {
    (b % 2 + (b / 2) % 2 + (b / 4) % 2 + (b / 8) % 2 + (b / 16) % 2 + (b / 32) % 2 + (b / 64) % 2
        + (b / 128) % 2) as nat
}

/// The weight of a byte is the sum of its eight bits.
proof fn lemma_byte_weight(b: u8)
    ensures
        weight(b as nat) == byte_weight(b),
{
    let n = b as nat;
    lemma_weight_step(n);
    lemma_weight_step(n / 2);
    lemma_weight_step(n / 4);
    lemma_weight_step(n / 8);
    lemma_weight_step(n / 16);
    lemma_weight_step(n / 32);
    lemma_weight_step(n / 64);
    lemma_weight_step(n / 128);
}

/// Zero is the only byte without a one bit.
pub proof fn lemma_no_bits()
    ensures
        byte_table(0) == seq![0u8],
{
    lemma_byte_table_unique(seq![0u8], 0);
}

/// `ONE_BIT` is the table for one bit.
pub proof fn lemma_one_bit()
    ensures
        ONE_BIT@ == byte_table(1),
{
    let s = ONE_BIT@;
    assert(bytes_increasing(s));
    assert forall|i: int| 0 <= i < s.len() implies weight(#[trigger] s[i] as nat) == 1 by {
        lemma_byte_weight(s[i]);
    }
    lemma_binomial_eight();
    lemma_byte_table_unique(s, 1);
}

/// `TWO_BITS` is the table for two bits.
pub proof fn lemma_two_bits()
    ensures
        TWO_BITS@ == byte_table(2),
{
    let s = TWO_BITS@;
    assert(bytes_increasing(s));
    assert forall|i: int| 0 <= i < s.len() implies weight(#[trigger] s[i] as nat) == 2 by {
        lemma_byte_weight(s[i]);
    }
    lemma_binomial_eight();
    lemma_byte_table_unique(s, 2);
}

/// `THREE_BITS` is the table for three bits.
pub proof fn lemma_three_bits()
    ensures
        THREE_BITS@ == byte_table(3),
{
    let s = THREE_BITS@;
    assert(bytes_increasing(s));
    assert forall|i: int| 0 <= i < s.len() implies weight(#[trigger] s[i] as nat) == 3 by {
        lemma_byte_weight(s[i]);
    }
    lemma_binomial_eight();
    lemma_byte_table_unique(s, 3);
}

/// `FOUR_BITS` is the table for four bits.
pub proof fn lemma_four_bits()
    ensures
        FOUR_BITS@ == byte_table(4),
{
    let s = FOUR_BITS@;
    assert(bytes_increasing(s));
    assert forall|i: int| 0 <= i < s.len() implies weight(#[trigger] s[i] as nat) == 4 by {
        lemma_byte_weight(s[i]);
    }
    lemma_binomial_eight();
    lemma_byte_table_unique(s, 4);
}

/// The number of bytes that have exactly `ones` one bits.
pub fn table_len(ones: u32) -> (len: u32)
    requires
        ones <= 8,
    ensures
        len == byte_table(ones as nat).len(),
        len == binomial(8, ones as nat),
        len >= 1,
{
    proof {
        lemma_byte_table(ones as nat);
        lemma_binomial_eight();
    }
    match ones {
        0 | 8 => 1,
        1 | 7 => 8,
        2 | 6 => 28,
        3 | 5 => 56,
        _ => 70,
    }
}

/// The entry at `index` of the table for `ones`, for the weights whose table
/// is kept.
fn stored_entry(ones: u32, index: usize) -> (byte: u8)
    requires
        ones <= 4,
        index < byte_table(ones as nat).len(),
    ensures
        byte == byte_table(ones as nat)[index as int],
{
    proof {
        lemma_no_bits();
        lemma_one_bit();
        lemma_two_bits();
        lemma_three_bits();
        lemma_four_bits();
    }
    match ones {
        0 => 0,
        1 => ONE_BIT[index],
        2 => TWO_BITS[index],
        3 => THREE_BITS[index],
        _ => FOUR_BITS[index],
    }
}

/// The byte at place `index` among the bytes that have exactly `ones` one
/// bits, counted from the smallest.
pub fn table_entry(ones: u32, index: u32) -> (byte: u8)
    requires
        ones <= 8,
        index < byte_table(ones as nat).len(),
    ensures
        byte == byte_table(ones as nat)[index as int],
        weight(byte as nat) == ones,
{
    proof {
        lemma_byte_table(ones as nat);
        lemma_complement_table(ones as nat);
    }
    if ones <= 4 {
        stored_entry(ones, index as usize)
    } else {
        let mirrored: u32 = table_len(ones) - 1 - index;
        let stored: u8 = stored_entry(8 - ones, mirrored as usize);
        assert(stored ^ 0xFF == 255 - stored) by (bit_vector);
        stored ^ 0xFF
    }
}

/// For more than four one bits, complementing the entry at `index` of the
/// table for `8 - ones` gives the entry of the table for `ones` that is as far
/// from its end as `index` is from the start. So as the index runs through
/// its range, the byte runs through the whole table for `ones`, once each.
pub proof fn lemma_drawn_byte_in_table(ones: nat, index: int)
    requires
        4 < ones <= 8,
        0 <= index < byte_table(ones).len(),
    ensures
        byte_table(ones).len() == byte_table((8 - ones) as nat).len(),
        255 - byte_table((8 - ones) as nat)[index] == byte_table(ones)[byte_table(ones).len() - 1
            - index],
{
    lemma_complement_table(ones);
}

/// The byte that a sampler gives for `ones` one bits when `index` was drawn:
/// up to four bits, the entry at `index` of the table for `ones`; above, the
/// complement of the entry at `index` of the table for `8 - ones`.
pub fn drawn_byte(ones: u32, index: usize) -> (byte: u8)
    requires
        ones <= 8,
        index < byte_table(ones as nat).len(),
    ensures
        ones <= 4 ==> byte == byte_table(ones as nat)[index as int],
        ones > 4 ==> byte == 255 - byte_table((8 - ones) as nat)[index as int],
        weight(byte as nat) == ones,
{
    proof {
        lemma_byte_table(ones as nat);
        lemma_complement_table(ones as nat);
    }
    if ones <= 4 {
        stored_entry(ones, index)
    } else {
        let stored: u8 = stored_entry(8 - ones, index);
        assert(stored ^ 0xFF == 255 - stored) by (bit_vector);
        proof {
            lemma2_to64();
            lemma_byte_table((8 - ones) as nat);
            lemma_weight_complement(stored as nat, 8);
        }
        stored ^ 0xFF
    }
}

/// Every byte that has exactly `ones` one bits, in increasing order.
pub fn lookup(ones: u32) -> (table: Vec<u8>)
    requires
        ones <= 8,
    ensures
        table@ == byte_table(ones as nat),
{
    let len: u32 = table_len(ones);
    let mut table: Vec<u8> = Vec::new();
    let mut index: u32 = 0;
    while index < len
        invariant
            ones <= 8,
            len == byte_table(ones as nat).len(),
            index <= len,
            table@ == byte_table(ones as nat).subrange(0, index as int),
        decreases len - index,
    {
        table.push(table_entry(ones, index));
        index = index + 1;
    }
    table
}

} // verus!
