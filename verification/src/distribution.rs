//! Drawing a value with a chosen number of one bits.
//!
//! What a sampler hands back depends on the random source, so its contract
//! states what holds of every outcome: the value has the number of one bits
//! that was asked for. The steps that turn the drawn numbers into the value
//! are [`drawn_byte`](crate::table::drawn_byte) and the joins of
//! [`compose`](crate::compose), whose contracts are exact.

use crate::compose::{high_bits_range, join_u128, join_u16, join_u32, join_u64};
use crate::source::{uniform_below, uniform_in_range};
use crate::table::{drawn_byte, table_len};
use crate::weight::{lemma_weight_full, weight};
use rand::Rng;
use vstd::arithmetic::power2::{lemma2_to64, lemma_pow2_adds, pow2};
use vstd::prelude::*;

verus! {

/// The distribution of the values with a chosen number of one bits.
///
/// For a byte an index is drawn evenly, and [`drawn_byte`] gives the byte. A
/// wider value is made of two halves: the share of the upper half is drawn
/// evenly among the feasible ones, and each half is then drawn with its share.
/// A request for no one bits, or for as many as the value is wide, has one
/// answer, which is given without a draw.
pub struct Standard;

/// Types that can draw a value of `T` with a chosen number of one bits.
pub trait Distribution<T> {
    /// The number of bits of a value of `T`.
    spec fn width(&self) -> nat;

    /// The number that `value` stands for.
    spec fn number(&self, value: T) -> nat;

    /// The largest number of one bits that can be asked for.
    fn max_bits(&self) -> (bits: u32)
        ensures
            bits == self.width(),
    ;

    /// Draws a value of `T` with exactly `bits` one bits, using `rng` as the
    /// source of randomness.
    ///
    /// No value of `T` has more one bits than `T` is wide, so `bits` may not
    /// exceed the width. Where `bits` is zero or the width, `rng` is left as
    /// it was.
    fn sample<R>(&self, rng: &mut R, bits: u32) -> (value: T) where R: Rng + ?Sized
        requires
            bits <= self.width(),
        ensures
            weight(self.number(value)) == bits,
            self.number(value) < pow2(self.width()),
            bits == 0 ==> self.number(value) == 0,
            bits == self.width() ==> self.number(value) == pow2(self.width()) - 1,
            bits == 0 || bits == self.width() ==> &*final(rng) == &*old(rng),
    ;
}

impl Distribution<u8> for Standard {
    open spec fn width(&self) -> nat {
        8
    }

    open spec fn number(&self, value: u8) -> nat {
        value as nat
    }

    fn max_bits(&self) -> (bits: u32) {
        u8::BITS
    }

    fn sample<R>(&self, rng: &mut R, bits: u32) -> (value: u8) where R: Rng + ?Sized {
        proof {
            lemma2_to64();
            lemma_weight_full(u8::MAX as nat, 8);
        }
        if bits == 0 {
            u8::MIN
        } else if bits == u8::BITS {
            u8::MAX
        } else {
            let len: u32 = table_len(bits);
            let index: usize = uniform_below(rng, 0, len as usize);
            drawn_byte(bits, index)
        }
    }
}

impl Distribution<u16> for Standard {
    open spec fn width(&self) -> nat {
        16
    }

    open spec fn number(&self, value: u16) -> nat {
        value as nat
    }

    fn max_bits(&self) -> (bits: u32) {
        u16::BITS
    }

    fn sample<R>(&self, rng: &mut R, bits: u32) -> (value: u16) where R: Rng + ?Sized {
        proof {
            lemma2_to64();
            lemma_weight_full(u16::MAX as nat, 16);
        }
        if bits == 0 {
            u16::MIN
        } else if bits == u16::BITS {
            u16::MAX
        } else {
            let (least, most): (u32, u32) = high_bits_range(bits, u8::BITS);
            let high_bits: u32 = uniform_in_range(rng, least, most);
            let low_bits: u32 = bits - high_bits;
            let high: u8 = Distribution::<u8>::sample(self, rng, high_bits);
            let low: u8 = Distribution::<u8>::sample(self, rng, low_bits);
            join_u16(high, low)
        }
    }
}

impl Distribution<u32> for Standard {
    open spec fn width(&self) -> nat {
        32
    }

    open spec fn number(&self, value: u32) -> nat {
        value as nat
    }

    fn max_bits(&self) -> (bits: u32) {
        u32::BITS
    }

    fn sample<R>(&self, rng: &mut R, bits: u32) -> (value: u32) where R: Rng + ?Sized {
        proof {
            lemma2_to64();
            lemma_weight_full(u32::MAX as nat, 32);
        }
        if bits == 0 {
            u32::MIN
        } else if bits == u32::BITS {
            u32::MAX
        } else {
            let (least, most): (u32, u32) = high_bits_range(bits, u16::BITS);
            let high_bits: u32 = uniform_in_range(rng, least, most);
            let low_bits: u32 = bits - high_bits;
            let high: u16 = Distribution::<u16>::sample(self, rng, high_bits);
            let low: u16 = Distribution::<u16>::sample(self, rng, low_bits);
            join_u32(high, low)
        }
    }
}

impl Distribution<u64> for Standard {
    open spec fn width(&self) -> nat {
        64
    }

    open spec fn number(&self, value: u64) -> nat {
        value as nat
    }

    fn max_bits(&self) -> (bits: u32) {
        u64::BITS
    }

    fn sample<R>(&self, rng: &mut R, bits: u32) -> (value: u64) where R: Rng + ?Sized {
        proof {
            lemma2_to64();
            lemma_weight_full(u64::MAX as nat, 64);
        }
        if bits == 0 {
            u64::MIN
        } else if bits == u64::BITS {
            u64::MAX
        } else {
            let (least, most): (u32, u32) = high_bits_range(bits, u32::BITS);
            let high_bits: u32 = uniform_in_range(rng, least, most);
            let low_bits: u32 = bits - high_bits;
            let high: u32 = Distribution::<u32>::sample(self, rng, high_bits);
            let low: u32 = Distribution::<u32>::sample(self, rng, low_bits);
            join_u64(high, low)
        }
    }
}

impl Distribution<u128> for Standard {
    open spec fn width(&self) -> nat {
        128
    }

    open spec fn number(&self, value: u128) -> nat {
        value as nat
    }

    fn max_bits(&self) -> (bits: u32) {
        u128::BITS
    }

    fn sample<R>(&self, rng: &mut R, bits: u32) -> (value: u128) where R: Rng + ?Sized {
        proof {
            lemma2_to64();
            lemma_pow2_adds(64, 64);
            lemma_weight_full(u128::MAX as nat, 128);
        }
        if bits == 0 {
            u128::MIN
        } else if bits == u128::BITS {
            u128::MAX
        } else {
            let (least, most): (u32, u32) = high_bits_range(bits, u64::BITS);
            let high_bits: u32 = uniform_in_range(rng, least, most);
            let low_bits: u32 = bits - high_bits;
            let high: u64 = Distribution::<u64>::sample(self, rng, high_bits);
            let low: u64 = Distribution::<u64>::sample(self, rng, low_bits);
            join_u128(high, low)
        }
    }
}

/// Draws a value of `T` with exactly `bits` one bits from the [`Standard`]
/// distribution, using `rng` as the source of randomness.
pub fn gen_bits<T, R>(rng: &mut R, bits: u32) -> (value: T) where
    Standard: Distribution<T>,
    R: Rng + ?Sized,

    requires
        bits <= Distribution::<T>::width(&Standard),
    ensures
        weight(Distribution::<T>::number(&Standard, value)) == bits,
        Distribution::<T>::number(&Standard, value) < pow2(Distribution::<T>::width(&Standard)),
        bits == 0 ==> Distribution::<T>::number(&Standard, value) == 0,
        bits == Distribution::<T>::width(&Standard) ==> Distribution::<T>::number(
            &Standard,
            value,
        ) == pow2(Distribution::<T>::width(&Standard)) - 1,
        bits == 0 || bits == Distribution::<T>::width(&Standard) ==> &*final(rng) == &*old(rng),
{
    Standard.sample(rng, bits)
}

/// Draws as [`gen_bits`] does where `T` is wide enough for `bits` one bits,
/// and hands back `None`, leaving `rng` as it was, where it is not.
pub fn try_gen_bits<T, R>(rng: &mut R, bits: u32) -> (drawn: Option<T>) where
    Standard: Distribution<T>,
    R: Rng + ?Sized,

    ensures
        drawn is Some <==> bits <= Distribution::<T>::width(&Standard),
        bits == 0 || bits >= Distribution::<T>::width(&Standard) ==> &*final(rng) == &*old(rng),
        drawn matches Some(value) ==> {
            &&& weight(Distribution::<T>::number(&Standard, value)) == bits
            &&& Distribution::<T>::number(&Standard, value) < pow2(
                Distribution::<T>::width(&Standard),
            )
            &&& bits == 0 ==> Distribution::<T>::number(&Standard, value) == 0
            &&& bits == Distribution::<T>::width(&Standard) ==> Distribution::<T>::number(
                &Standard,
                value,
            ) == pow2(Distribution::<T>::width(&Standard)) - 1
        },
{
    if bits <= Distribution::<T>::max_bits(&Standard) {
        Some(gen_bits(rng, bits))
    } else {
        None
    }
}

} // verus!
