//! The two bit scans.
use vstd::prelude::*;

verus! {

use crate::bits::{
    is_lsb_index,
    is_msb_index,
    lemma_div_pow2_twice,
    lemma_drop_clear_chunk,
    lemma_odd_quotient_is_lsb,
    lemma_quotient_one_is_msb,
};
use crate::{BitScanError, U128Wrapper};
use vstd::arithmetic::power2::{pow2, lemma2_to64, lemma_pow2_adds};

broadcast use vstd::bits::lemma_u128_shr_is_div;

/// Index of the highest set bit of `input.value`, found by halving the width
/// that may still hold it: 64, 32, 16, 8, 4, 2 and finally 1 bit.
pub fn most_significant_bit(input: &U128Wrapper) -> (r: Result<u8, BitScanError>)
    ensures
        input.value == 0 ==> r == Err::<u8, BitScanError>(BitScanError::ZeroInput),
        input.value != 0 ==> (r matches Ok(k) && k < 128 && is_msb_index(input.value as nat, k as nat)),
{
    let value = input.value;
    if value == 0 {
        return Err(BitScanError::ZeroInput);
    }
    let ghost v = value as nat;
    let mut x: u128 = value;
    let mut r: u8 = 0;
    proof {
        lemma2_to64();
    }
    if x >= 0x1_0000_0000_0000_0000 {
        proof { lemma_div_pow2_twice(v, r as nat, 64); }
        x >>= 64;
        r += 64;
    }
    assert(x == v / pow2(r as nat) && 1 <= x < 0x1_0000_0000_0000_0000);
    if x >= 0x1_0000_0000 {
        proof { lemma_div_pow2_twice(v, r as nat, 32); }
        x >>= 32;
        r += 32;
    }
    assert(x == v / pow2(r as nat) && 1 <= x < 0x1_0000_0000);
    if x >= 0x1_0000 {
        proof { lemma_div_pow2_twice(v, r as nat, 16); }
        x >>= 16;
        r += 16;
    }
    if x >= 0x100 {
        proof { lemma_div_pow2_twice(v, r as nat, 8); }
        x >>= 8;
        r += 8;
    }
    if x >= 0x10 {
        proof { lemma_div_pow2_twice(v, r as nat, 4); }
        x >>= 4;
        r += 4;
    }
    if x >= 0x4 {
        proof { lemma_div_pow2_twice(v, r as nat, 2); }
        x >>= 2;
        r += 2;
    }
    assert(x == v / pow2(r as nat) && 1 <= x < 4);
    if x >= 0x2 {
        proof { lemma_div_pow2_twice(v, r as nat, 1); }
        r += 1;
    }
    proof {
        lemma_quotient_one_is_msb(v, r as nat);
    }
    Ok(r)
}

/// Index of the lowest set bit of `input.value`. The candidate range starts as
/// all 128 bits; at each width (64, 32, 16, 8, 4, 2, 1) it keeps the low chunk when
/// that chunk holds a set bit and otherwise shifts the clear chunk out.
#[verifier::spinoff_prover]
#[verifier::rlimit(50)]
pub fn least_significant_bit(input: &U128Wrapper) -> (r: Result<u8, BitScanError>)
    ensures
        input.value == 0 ==> r == Err::<u8, BitScanError>(BitScanError::ZeroInput),
        input.value != 0 ==> (r matches Ok(k) && k < 128 && is_lsb_index(input.value as nat, k as nat)),
{
    let value = input.value;
    if value == 0 {
        return Err(BitScanError::ZeroInput);
    }
    let ghost v = value as nat;
    let ghost mut s: nat = 0;
    let mut x: u128 = value;
    let mut r: u8 = 127;
    proof {
        lemma2_to64();
        lemma_pow2_adds(64, 64);
    }
    assert(x == v / pow2(s) && v % pow2(s) == 0 && (x as nat) % pow2(64 + 64) != 0);
    assert(x & 0xFFFF_FFFF_FFFF_FFFF == x % 0x1_0000_0000_0000_0000) by (bit_vector);
    if x & 0xFFFF_FFFF_FFFF_FFFF > 0 {
        r -= 64;
    } else {
        proof {
            lemma_drop_clear_chunk(v, s, x as nat, 64);
            s = s + 64;
        }
        x >>= 64;
    }
    assert(x == v / pow2(s) && v % pow2(s) == 0 && (x as nat) % pow2(32 + 32) != 0 && r == s + 63);
    assert(x & 0xFFFF_FFFF == x % 0x1_0000_0000) by (bit_vector);
    if x & 0xFFFF_FFFF > 0 {
        r -= 32;
    } else {
        proof {
            lemma_drop_clear_chunk(v, s, x as nat, 32);
            s = s + 32;
        }
        x >>= 32;
    }
    assert(x == v / pow2(s) && v % pow2(s) == 0 && (x as nat) % pow2(16 + 16) != 0 && r == s + 31);
    assert(x & 0xFFFF == x % 0x1_0000) by (bit_vector);
    if x & 0xFFFF > 0 {
        r -= 16;
    } else {
        proof {
            lemma_drop_clear_chunk(v, s, x as nat, 16);
            s = s + 16;
        }
        x >>= 16;
    }
    assert(x == v / pow2(s) && v % pow2(s) == 0 && (x as nat) % pow2(8 + 8) != 0 && r == s + 15);
    assert(x & 0xFF == x % 0x100) by (bit_vector);
    if x & 0xFF > 0 {
        r -= 8;
    } else {
        proof {
            lemma_drop_clear_chunk(v, s, x as nat, 8);
            s = s + 8;
        }
        x >>= 8;
    }
    assert(x == v / pow2(s) && v % pow2(s) == 0 && (x as nat) % pow2(4 + 4) != 0 && r == s + 7);
    assert(x & 0xF == x % 0x10) by (bit_vector);
    if x & 0xF > 0 {
        r -= 4;
    } else {
        proof {
            lemma_drop_clear_chunk(v, s, x as nat, 4);
            s = s + 4;
        }
        x >>= 4;
    }
    assert(x == v / pow2(s) && v % pow2(s) == 0 && (x as nat) % pow2(2 + 2) != 0 && r == s + 3);
    assert(x & 0x3 == x % 0x4) by (bit_vector);
    if x & 0x3 > 0 {
        r -= 2;
    } else {
        proof {
            lemma_drop_clear_chunk(v, s, x as nat, 2);
            s = s + 2;
        }
        x >>= 2;
    }
    assert(x == v / pow2(s) && v % pow2(s) == 0 && (x as nat) % pow2(1 + 1) != 0 && r == s + 1);
    assert(x & 0x1 == x % 0x2) by (bit_vector);
    if x & 0x1 > 0 {
        r -= 1;
        proof {
            lemma_odd_quotient_is_lsb(v, s);
        }
    } else {
        proof {
            lemma_drop_clear_chunk(v, s, x as nat, 1);
            lemma_odd_quotient_is_lsb(v, s + 1);
        }
    }
    Ok(r)
}

} // verus!
