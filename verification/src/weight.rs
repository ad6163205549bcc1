//! The Hamming weight of a natural number, and the facts about it that the
//! samplers rest on.

use vstd::arithmetic::power2::{lemma2_to64, lemma_pow2_unfold, pow2};
use vstd::prelude::*;

verus! {

/// The number of ones in the binary representation of `n`.
pub open spec fn weight(n: nat) -> nat
    decreases n,
{
    if n == 0 {
        0
    } else {
        (n % 2) + weight(n / 2)
    }
}

/// The weight of a number is that of its lowest bit plus that of the rest.
pub proof fn lemma_weight_step(n: nat)
    ensures
        weight(n) == (n % 2) + weight(n / 2),
{
}

/// Only zero has no one bits.
pub proof fn lemma_weight_zero(n: nat)
    ensures
        weight(n) == 0 <==> n == 0,
    decreases n,
{
    if n != 0 {
        lemma_weight_zero(n / 2);
    }
}

/// A number below `2^width` has at most `width` one bits.
pub proof fn lemma_weight_bound(n: nat, width: nat)
    requires
        n < pow2(width),
    ensures
        weight(n) <= width,
    decreases width,
{
    if width == 0 {
        lemma2_to64();
    } else {
        lemma_pow2_unfold(width);
        lemma_weight_step(n);
        lemma_weight_bound(n / 2, (width - 1) as nat);
    }
}

/// No number below `2^width` has more than `width` one bits: a request for
/// more can be met by no value of that width.
pub proof fn lemma_no_value_beyond_width(n: nat, width: nat, bits: nat)
    requires
        n < pow2(width),
        bits > width,
    ensures
        weight(n) != bits,
{
    lemma_weight_bound(n, width);
}

/// Placing `high` above the `width` bits of `low` adds the two weights.
pub proof fn lemma_weight_concat(high: nat, low: nat, width: nat)
    requires
        low < pow2(width),
    ensures
        weight(high * pow2(width) + low) == weight(high) + weight(low),
    decreases width,
{
    if width == 0 {
        lemma2_to64();
        assert(high * 1 + low == high);
    } else {
        let half = pow2((width - 1) as nat);
        lemma_pow2_unfold(width);
        let n = high * pow2(width) + low;
        assert(high * pow2(width) == 2 * (high * half)) by (nonlinear_arith)
            requires
                pow2(width) == 2 * half,
        ;
        assert(n % 2 == low % 2);
        assert(n / 2 == high * half + low / 2);
        lemma_weight_step(n);
        lemma_weight_step(low);
        lemma_weight_concat(high, low / 2, (width - 1) as nat);
    }
}

/// Within `width` bits, a number and its complement share the `width` ones
/// between them.
pub proof fn lemma_weight_complement(n: nat, width: nat)
    requires
        n < pow2(width),
    ensures
        weight((pow2(width) - 1 - n) as nat) + weight(n) == width,
    decreases width,
{
    if width == 0 {
        lemma2_to64();
    } else {
        let half = pow2((width - 1) as nat);
        lemma_pow2_unfold(width);
        let m = (pow2(width) - 1 - n) as nat;
        assert(m % 2 == 1 - n % 2);
        assert(m / 2 == half - 1 - n / 2);
        lemma_weight_step(m);
        lemma_weight_step(n);
        lemma_weight_complement(n / 2, (width - 1) as nat);
    }
}

/// Within `width` bits, only the number with every bit set has `width` ones.
pub proof fn lemma_weight_full(n: nat, width: nat)
    requires
        n < pow2(width),
    ensures
        weight(n) == width <==> n == pow2(width) - 1,
{
    lemma_weight_complement(n, width);
    lemma_weight_zero((pow2(width) - 1 - n) as nat);
}

} // verus!
