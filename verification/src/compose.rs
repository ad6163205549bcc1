//! Building a value from two halves: how the one bits may be shared out, and
//! how the halves are joined.

use crate::weight::{lemma_weight_bound, lemma_weight_concat, weight};
use vstd::arithmetic::div_mod::{
    lemma_fundamental_div_mod, lemma_mod_bound, lemma_multiply_divide_lt,
};
use vstd::arithmetic::power2::{lemma2_to64, lemma_pow2_adds, lemma_pow2_pos, pow2};
use vstd::prelude::*;

verus! {

/// Whether `high` of `bits` one bits can go to the upper half and the rest to
/// the lower half, when each half has `half` bits.
pub open spec fn feasible_split(bits: nat, half: nat, high: nat) -> bool {
    high <= bits && high <= half && bits - high <= half
}

/// The fewest one bits that the upper half can take.
pub open spec fn least_high_bits(bits: nat, half: nat) -> nat {
    if bits > half {
        (bits - half) as nat
    } else {
        0
    }
}

/// The most one bits that the upper half can take.
pub open spec fn most_high_bits(bits: nat, half: nat) -> nat {
    if bits < half {
        bits
    } else {
        half
    }
}

/// The feasible shares of the upper half are the numbers from
/// `least_high_bits` to `most_high_bits`, and there is at least one.
pub proof fn lemma_feasible_range(bits: nat, half: nat)
    requires
        bits <= 2 * half,
    ensures
        least_high_bits(bits, half) <= most_high_bits(bits, half),
        forall|high: nat|
            feasible_split(bits, half, high) <==> least_high_bits(bits, half) <= high
                <= most_high_bits(bits, half),
{
}

/// A number of two halves has the one bits of both, and the share of its
/// upper half is a feasible one: every value of a given weight is some
/// feasible split away.
pub proof fn lemma_split_of_value(value: nat, half: nat)
    requires
        value < pow2(2 * half),
    ensures
        weight(value) == weight(value / pow2(half)) + weight(value % pow2(half)),
        feasible_split(weight(value), half, weight(value / pow2(half))),
{
    let unit = pow2(half);
    let high = value / unit;
    let low = value % unit;
    lemma_pow2_pos(half);
    lemma_pow2_adds(half, half);
    lemma_fundamental_div_mod(value as int, unit as int);
    lemma_mod_bound(value as int, unit as int);
    lemma_multiply_divide_lt(value as int, unit as int, unit as int);
    assert(high * unit == unit * high) by (nonlinear_arith);
    lemma_weight_concat(high, low, half);
    lemma_weight_bound(high, half);
    lemma_weight_bound(low, half);
}

/// The range of one bits that the upper half can take, both ends included.
pub fn high_bits_range(bits: u32, half: u32) -> (range: (u32, u32))
    requires
        bits <= 2 * half,
    ensures
        range.0 == least_high_bits(bits as nat, half as nat),
        range.1 == most_high_bits(bits as nat, half as nat),
        range.0 <= range.1,
        forall|high: nat|
            feasible_split(bits as nat, half as nat, high) <==> range.0 <= high <= range.1,
{
    proof {
        lemma_feasible_range(bits as nat, half as nat);
    }
    let least: u32 = if bits > half {
        bits - half
    } else {
        0
    };
    let most: u32 = if bits < half {
        bits
    } else {
        half
    };
    (least, most)
}

/// Joins two bytes into a value of 16 bits, `high` above `low`.
pub fn join_u16(high: u8, low: u8) -> (value: u16)
    ensures
        value == high * pow2(8) + low,
        weight(value as nat) == weight(high as nat) + weight(low as nat),
{
    let value: u16 = ((high as u16) << 8) | (low as u16);
    assert(value == high * 0x100 + low) by (bit_vector)
        requires
            value == ((high as u16) << 8) | (low as u16),
    ;
    proof {
        lemma2_to64();
        lemma_weight_concat(high as nat, low as nat, 8);
    }
    value
}

/// Joins two values of 16 bits into one of 32 bits, `high` above `low`.
pub fn join_u32(high: u16, low: u16) -> (value: u32)
    ensures
        value == high * pow2(16) + low,
        weight(value as nat) == weight(high as nat) + weight(low as nat),
{
    let value: u32 = ((high as u32) << 16) | (low as u32);
    assert(value == high * 0x1_0000 + low) by (bit_vector)
        requires
            value == ((high as u32) << 16) | (low as u32),
    ;
    proof {
        lemma2_to64();
        lemma_weight_concat(high as nat, low as nat, 16);
    }
    value
}

/// Joins two values of 32 bits into one of 64 bits, `high` above `low`.
pub fn join_u64(high: u32, low: u32) -> (value: u64)
    ensures
        value == high * pow2(32) + low,
        weight(value as nat) == weight(high as nat) + weight(low as nat),
{
    let value: u64 = ((high as u64) << 32) | (low as u64);
    assert(value == high * 0x1_0000_0000 + low) by (bit_vector)
        requires
            value == ((high as u64) << 32) | (low as u64),
    ;
    proof {
        lemma2_to64();
        lemma_weight_concat(high as nat, low as nat, 32);
    }
    value
}

/// Joins two values of 64 bits into one of 128 bits, `high` above `low`.
pub fn join_u128(high: u64, low: u64) -> (value: u128)
    ensures
        value == high * pow2(64) + low,
        weight(value as nat) == weight(high as nat) + weight(low as nat),
{
    let value: u128 = ((high as u128) << 64) | (low as u128);
    assert(value == high * 0x1_0000_0000_0000_0000 + low) by (bit_vector)
        requires
            value == ((high as u128) << 64) | (low as u128),
    ;
    proof {
        lemma2_to64();
        lemma_weight_concat(high as nat, low as nat, 64);
    }
    value
}

} // verus!
