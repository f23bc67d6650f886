//! What holds of the bit indices for all inputs.
use vstd::prelude::*;

verus! {

use crate::bits::{bit_set, is_lsb_index, is_msb_index};
use vstd::arithmetic::div_mod::{
    lemma_fundamental_div_mod,
    lemma_mod_breakdown,
};
use vstd::arithmetic::mul::lemma_mul_inequality;
use vstd::arithmetic::power2::{
    pow2,
    lemma2_to64,
    lemma2_to64_rest,
    lemma_pow2_adds,
    lemma_pow2_pos,
    lemma_pow2_strictly_increases,
};

/// A set bit at `k` makes the value at least `2^k`.
pub proof fn lemma_bit_set_lower_bound(v: nat, k: nat)
    requires
        bit_set(v, k),
    ensures
        pow2(k) <= v,
{
    lemma_pow2_pos(k);
    lemma_fundamental_div_mod(v as int, pow2(k) as int);
    lemma_mul_inequality(1, v as int / pow2(k) as int, pow2(k) as int);
}

/// A value has at most one highest set bit.
pub proof fn lemma_msb_index_unique(v: nat, i: nat, j: nat)
    requires
        is_msb_index(v, i),
        is_msb_index(v, j),
    ensures
        i == j,
{
    lemma_bit_set_lower_bound(v, i);
    lemma_bit_set_lower_bound(v, j);
    if i < j {
        if i + 1 < j {
            lemma_pow2_strictly_increases(i + 1, j);
        }
    } else if j < i {
        if j + 1 < i {
            lemma_pow2_strictly_increases(j + 1, i);
        }
    }
}

/// With its low `k` bits clear, bit `k` decides the remainder modulo `2^(k + 1)`.
proof fn lemma_lsb_remainder(v: nat, k: nat)
    requires
        is_lsb_index(v, k),
    ensures
        v % pow2(k + 1) == pow2(k),
{
    lemma_pow2_pos(k);
    lemma_pow2_adds(k, 1);
    lemma2_to64();
    lemma_mod_breakdown(v as int, pow2(k) as int, 2);
}

/// A value has at most one lowest set bit.
pub proof fn lemma_lsb_index_unique(v: nat, i: nat, j: nat)
    requires
        is_lsb_index(v, i),
        is_lsb_index(v, j),
    ensures
        i == j,
{
    if i < j {
        lemma_lsb_low_bits_clear(v, i, j);
    } else if j < i {
        lemma_lsb_low_bits_clear(v, j, i);
    }
}

/// Above the lowest set bit `i`, no power of two divides the value.
proof fn lemma_lsb_low_bits_clear(v: nat, i: nat, j: nat)
    requires
        i < j,
        is_lsb_index(v, i),
    ensures
        v % pow2(j) != 0,
{
    let d = (j - (i + 1)) as nat;
    lemma_lsb_remainder(v, i);
    lemma_pow2_pos(i);
    lemma_pow2_pos(i + 1);
    lemma_pow2_pos(d);
    lemma_pow2_adds(i + 1, d);
    lemma_mod_breakdown(v as int, pow2(i + 1) as int, pow2(d) as int);
    assert(pow2(i + 1) * ((v / pow2(i + 1)) % pow2(d)) >= 0) by (nonlinear_arith)
        requires
            pow2(i + 1) > 0,
            pow2(d) > 0,
    ;
}

/// A value with a single set bit, `2^k`, has both its highest and its lowest set bit
/// at `k`, and at no other index.
pub proof fn single_bit_indices(k: nat)
    requires
        k < 128,
    ensures
        forall|i: nat| #[trigger] is_msb_index(pow2(k), i) <==> i == k,
        forall|i: nat| #[trigger] is_lsb_index(pow2(k), i) <==> i == k,
{
    lemma_pow2_pos(k);
    lemma_pow2_strictly_increases(k, k + 1);
    lemma2_to64();
    assert(pow2(k) / pow2(k) == 1);
    assert(pow2(k) % pow2(k) == 0);
    assert(is_msb_index(pow2(k), k));
    assert(is_lsb_index(pow2(k), k));
    assert forall|i: nat| #[trigger] is_msb_index(pow2(k), i) implies i == k by {
        lemma_msb_index_unique(pow2(k), i, k);
    }
    assert forall|i: nat| #[trigger] is_lsb_index(pow2(k), i) implies i == k by {
        lemma_lsb_index_unique(pow2(k), i, k);
    }
}

/// With all 128 bits set, the highest set bit is at 127 and the lowest at 0.
pub proof fn all_ones_indices()
    ensures
        forall|i: nat| #[trigger] is_msb_index(u128::MAX as nat, i) <==> i == 127,
        forall|i: nat| #[trigger] is_lsb_index(u128::MAX as nat, i) <==> i == 0,
{
    let v = u128::MAX as nat;
    lemma2_to64();
    lemma2_to64_rest();
    lemma_pow2_adds(64, 63);
    lemma_pow2_adds(64, 64);
    assert(pow2(127) == 0x8000_0000_0000_0000_0000_0000_0000_0000);
    assert(v / pow2(127) == 1);
    assert(is_msb_index(v, 127));
    assert(is_lsb_index(v, 0));
    assert forall|i: nat| #[trigger] is_msb_index(v, i) implies i == 127 by {
        lemma_msb_index_unique(v, i, 127);
    }
    assert forall|i: nat| #[trigger] is_lsb_index(v, i) implies i == 0 by {
        lemma_lsb_index_unique(v, i, 0);
    }
}

/// The highest set bit never moves down as the value grows: for nonzero `a <= b`,
/// the index for `a` is at most the index for `b`.
pub proof fn msb_index_monotone(a: nat, b: nat, i: nat, j: nat)
    requires
        0 < a <= b,
        is_msb_index(a, i),
        is_msb_index(b, j),
    ensures
        i <= j,
{
    lemma_bit_set_lower_bound(a, i);
    if j + 1 < i {
        lemma_pow2_strictly_increases(j + 1, i);
    }
}

} // verus!
