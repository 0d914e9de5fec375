//! Carry-less multiplication of 64-bit words, and Morton codes built on it.
//!
//! Also known as the carry-less product or polynomial multiplication over
//! GF(2): the words are multiplied as in long multiplication, with the partial
//! products combined by XOR in place of addition.
//!
//! * [`gf2`] says what the product is and proves its algebra.
//! * [`clmul`] computes it.
//! * [`morton`] dilates a word and interleaves two, by carry-less squares.
//! * [`dispatch`] chooses between the portable path and the instructions
//!   that some processors have for the product.
//! * [`bits`] holds the bit-level facts under all of these.

use vstd::prelude::*;

pub mod bits;
pub mod dispatch;
pub mod gf2;
pub mod morton;

use crate::bits::{lemma_bit_mask, lemma_shl_step};
use crate::gf2::{
    clmul_partial, clmul_spec, is_product, lemma_clmul_degree, lemma_clmul_is_product,
    lemma_clmul_zero,
};

verus! {

/// The carry-less product of `a` and `b`.
///
/// Defined for every pair of operands. The result holds, at each position
/// `k`, the coefficient of `x^k` in the product of the two polynomials; its
/// bit 127 is never set.
///
/// The value is computed by the portable path. Code that can run a
/// processor's instruction for the product chooses its path with
/// [`dispatch::Capabilities::select`]; whichever path it takes, this is the
/// value that path has to return.
#[inline]
pub fn clmul(a: u64, b: u64) -> (product: u128)
    ensures
        product == clmul_spec(a, b),
        is_product(product, a, b),
        product < 0x8000_0000_0000_0000_0000_0000_0000_0000u128,
        a == 0 || b == 0 ==> product == 0,
{
    clmul_nosimd(a, b)
}

/// The portable way to the carry-less product: 64 steps of shift-and-XOR,
/// on any machine.
#[inline]
pub fn clmul_nosimd(a: u64, b: u64) -> (product: u128)
    ensures
        product == clmul_spec(a, b),
        is_product(product, a, b),
        product < 0x8000_0000_0000_0000_0000_0000_0000_0000u128,
        a == 0 || b == 0 ==> product == 0,
{
    let mut tmp: u128 = b as u128;
    let mut result: u128 = 0;
    proof {
        lemma_shl_step(b, 0);
    }
    for i in 0u32..64u32
        invariant
            tmp == (b as u128) << i,
            result == clmul_partial(a, b, i as nat),
    {
        proof {
            lemma_bit_mask(a, i as int);
            lemma_shl_step(b, i);
        }
        if a & (1u64 << i) != 0 {
            result ^= tmp;
        }
        tmp <<= 1;
    }
    proof {
        lemma_clmul_is_product(a, b);
        lemma_clmul_degree(a, b);
        lemma_clmul_zero(a, b);
    }
    result
}

} // verus!
