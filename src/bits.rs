//! The mathematical meaning of a bit index, and the arithmetic facts the scans rest on.
use vstd::prelude::*;

verus! {

use vstd::arithmetic::div_mod::{
    lemma_div_denominator,
    lemma_fundamental_div_mod,
    lemma_mod_breakdown,
};
use vstd::arithmetic::power2::{pow2, lemma_pow2_adds, lemma_pow2_pos, lemma_pow2_unfold};

/// Bit `k` of `v` is 1.
pub open spec fn bit_set(v: nat, k: nat) -> bool {
    (v / pow2(k)) % 2 == 1
}

/// `k` is the index of the highest set bit of `v`: bit `k` is set and no bit above it is.
pub open spec fn is_msb_index(v: nat, k: nat) -> bool {
    bit_set(v, k) && v < pow2(k + 1)
}

/// `k` is the index of the lowest set bit of `v`: bit `k` is set and no bit below it is.
pub open spec fn is_lsb_index(v: nat, k: nat) -> bool {
    bit_set(v, k) && v % pow2(k) == 0
}

/// Dividing by `2^r` and then by `2^s` is dividing by `2^(r + s)`.
pub proof fn lemma_div_pow2_twice(v: nat, r: nat, s: nat)
    ensures
        (v / pow2(r)) / pow2(s) == v / pow2(r + s),
{
    lemma_pow2_pos(r);
    lemma_pow2_pos(s);
    lemma_div_denominator(v as int, pow2(r) as int, pow2(s) as int);
    lemma_pow2_adds(r, s);
}

/// A value whose quotient by `2^k` is exactly 1 has its highest set bit at `k`.
pub proof fn lemma_quotient_one_is_msb(v: nat, k: nat)
    requires
        v / pow2(k) == 1,
    ensures
        is_msb_index(v, k),
{
    lemma_pow2_pos(k);
    lemma_fundamental_div_mod(v as int, pow2(k) as int);
    lemma_pow2_unfold(k + 1);
}

/// When `2^k` divides `v` and the quotient is odd, the lowest set bit of `v` is at `k`.
pub proof fn lemma_odd_quotient_is_lsb(v: nat, k: nat)
    requires
        v % pow2(k) == 0,
        (v / pow2(k)) % 2 == 1,
    ensures
        is_lsb_index(v, k),
{
}

/// One step of the low-chunk search: when the low `w` bits of `x = v / 2^s` are clear
/// but some bit below `2w` is set, dropping those `w` bits keeps every fact about `v`.
pub proof fn lemma_drop_clear_chunk(v: nat, s: nat, x: nat, w: nat)
    requires
        x == v / pow2(s),
        v % pow2(s) == 0,
        x % pow2(w) == 0,
        x % pow2(w + w) != 0,
    ensures
        x / pow2(w) == v / pow2(s + w),
        v % pow2(s + w) == 0,
        (x / pow2(w)) % pow2(w) != 0,
{
    lemma_pow2_pos(s);
    lemma_pow2_pos(w);
    lemma_div_pow2_twice(v, s, w);
    lemma_pow2_adds(s, w);
    lemma_pow2_adds(w, w);
    lemma_mod_breakdown(v as int, pow2(s) as int, pow2(w) as int);
    lemma_mod_breakdown(x as int, pow2(w) as int, pow2(w) as int);
}

} // verus!
