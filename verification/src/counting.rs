//! The numbers of a given weight below a limit: which they are, and how many.

use crate::weight::{lemma_weight_concat, lemma_weight_step, weight};
use vstd::arithmetic::power2::{lemma2_to64, lemma_pow2_unfold, pow2};
use vstd::prelude::*;

verus! {

/// The numbers below `limit` that have exactly `ones` one bits, in increasing
/// order.
pub open spec fn numbers_of_weight(limit: nat, ones: nat) -> Seq<nat>
    decreases limit,
{
    if limit == 0 {
        Seq::empty()
    } else {
        let below = numbers_of_weight((limit - 1) as nat, ones);
        if weight((limit - 1) as nat) == ones {
            below.push((limit - 1) as nat)
        } else {
            below
        }
    }
}

/// The number of ways to choose `k` out of `n` things.
pub open spec fn binomial(n: nat, k: nat) -> nat
    decreases n,
{
    if k == 0 {
        1
    } else if n == 0 {
        0
    } else {
        binomial((n - 1) as nat, (k - 1) as nat) + binomial((n - 1) as nat, k)
    }
}

/// Whether every entry of `s` is smaller than the entries after it.
pub open spec fn strictly_increasing(s: Seq<nat>) -> bool {
    forall|i: int, j: int| 0 <= i < j < s.len() ==> s[i] < s[j]
}

/// `numbers_of_weight(limit, ones)` holds numbers below `limit` that have
/// `ones` one bits, in increasing order, and misses none of them.
pub proof fn lemma_numbers_of_weight(limit: nat, ones: nat)
    ensures
        forall|i: int|
            0 <= i < numbers_of_weight(limit, ones).len() ==> {
                &&& (#[trigger] numbers_of_weight(limit, ones)[i]) < limit
                &&& weight(numbers_of_weight(limit, ones)[i]) == ones
            },
        strictly_increasing(numbers_of_weight(limit, ones)),
        forall|n: nat|
            n < limit && weight(n) == ones ==> numbers_of_weight(limit, ones).contains(n),
    decreases limit,
{
    if limit > 0 {
        let last = (limit - 1) as nat;
        let below = numbers_of_weight(last, ones);
        let all = numbers_of_weight(limit, ones);
        lemma_numbers_of_weight(last, ones);
        assert forall|n: nat| n < limit && weight(n) == ones implies all.contains(n) by {
            if n < last {
                let i = choose|i: int| 0 <= i < below.len() && below[i] == n;
                assert(all[i] == n);
            } else {
                assert(all[all.len() - 1] == n);
            }
        }
    }
}

/// From `2^width` on, a number has `ones` one bits when what it exceeds
/// `2^width` by has one less. So the count up to `2^width + extra` is the
/// count below `2^width` plus the count, for one bit less, below `extra`.
proof fn lemma_count_upper_half(width: nat, extra: nat, ones: nat)
    requires
        extra <= pow2(width),
    ensures
        numbers_of_weight(pow2(width) + extra, ones).len() == numbers_of_weight(
            pow2(width),
            ones,
        ).len() + if ones == 0 {
            0
        } else {
            numbers_of_weight(extra, (ones - 1) as nat).len()
        },
    decreases extra,
{
    if extra > 0 {
        let rest = (extra - 1) as nat;
        lemma_count_upper_half(width, rest, ones);
        assert(weight(pow2(width) + rest) == 1 + weight(rest)) by {
            lemma_weight_concat(1, rest, width);
            lemma_weight_step(1);
            assert(1 * pow2(width) + rest == pow2(width) + rest);
        }
    }
}

/// Of the numbers below `2^width`, `binomial(width, ones)` have exactly `ones`
/// one bits.
pub proof fn lemma_count_of_weight(width: nat, ones: nat)
    ensures
        numbers_of_weight(pow2(width), ones).len() == binomial(width, ones),
    decreases width,
{
    if width == 0 {
        lemma2_to64();
        assert(numbers_of_weight(0, ones).len() == 0);
    } else {
        let lower = (width - 1) as nat;
        lemma_pow2_unfold(width);
        lemma_count_upper_half(lower, pow2(lower), ones);
        lemma_count_of_weight(lower, ones);
        if ones > 0 {
            lemma_count_of_weight(lower, (ones - 1) as nat);
        }
    }
}

/// An increasing sequence whose entries all occur in another increasing
/// sequence of the same length is that sequence.
pub proof fn lemma_increasing_same_length(a: Seq<nat>, t: Seq<nat>)
    requires
        strictly_increasing(a),
        strictly_increasing(t),
        a.len() == t.len(),
        forall|i: int| 0 <= i < a.len() ==> t.contains(#[trigger] a[i]),
    ensures
        a == t,
    decreases a.len(),
{
    if a.len() > 0 {
        let n = a.len() - 1;
        let q = choose|q: int| 0 <= q < t.len() && t[q] == a[n];
        assert forall|i: int| 0 <= i < n implies t.drop_last().contains(
            #[trigger] a.drop_last()[i],
        ) by {
            let p = choose|p: int| 0 <= p < t.len() && t[p] == a[i];
            assert(p < q) by {
                assert(a[i] < a[n]);
            }
            assert(t.drop_last()[p] == a[i]);
        }
        lemma_increasing_same_length(a.drop_last(), t.drop_last());
        assert(q == n) by {
            if q < n {
                assert(a.drop_last()[q] == t.drop_last()[q]);
                assert(a[q] < a[n]);
            }
        }
        assert forall|i: int| 0 <= i < a.len() implies a[i] == t[i] by {
            if i < n {
                assert(a.drop_last()[i] == t.drop_last()[i]);
            }
        }
    }
}

} // verus!
