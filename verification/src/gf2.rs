//! The carry-less product as mathematics.
//!
//! A 64-bit word stands for a polynomial over GF(2): bit `i` is the
//! coefficient of `x^i`. The product of two such polynomials has degree at
//! most 126, so it fits a 128-bit word. This module says what that product
//! is, coefficient by coefficient, and proves the algebra the rest of the
//! crate relies on.

use vstd::prelude::*;
use crate::bits::{
    bit, lemma_bit_one, lemma_bit_shl, lemma_bit_top_clear, lemma_bit_widened, lemma_bit_xor,
    lemma_bit_zero, lemma_bits_determine,
};

verus! {

/// What the pair of positions `(i, k - i)` adds to the coefficient of `x^k`
/// in `a * b`: the product of bit `i` of `a` and bit `k - i` of `b`.
pub open spec fn term(a: u64, b: u64, k: int, i: int) -> bool {
    bit(a as u128, i) && bit(b as u128, k - i)
}

/// The sum in GF(2), that is the XOR, of `term(a, b, k, i)` over
/// `lo <= i < hi`.
pub open spec fn parity(a: u64, b: u64, k: int, lo: int, hi: int) -> bool
    decreases hi - lo,
{
    if hi <= lo {
        false
    } else {
        parity(a, b, k, lo, hi - 1) != term(a, b, k, hi - 1)
    }
}

/// The coefficient of `x^k` in `a * b`: the parity of the number of pairs
/// `(i, j)` with `i + j == k` in which bit `i` of `a` and bit `j` of `b` are
/// both set.
pub open spec fn coefficient(a: u64, b: u64, k: int) -> bool {
    parity(a, b, k, 0, k + 1)
}

/// The first `n` steps of shift-and-XOR: the XOR of `b << i` over the set
/// bits `i < n` of `a`.
pub open spec fn clmul_partial(a: u64, b: u64, n: nat) -> u128
    decreases n,
{
    if n == 0 {
        0
    } else {
        let rest = clmul_partial(a, b, (n - 1) as nat);
        if bit(a as u128, n - 1) {
            rest ^ ((b as u128) << ((n - 1) as u32))
        } else {
            rest
        }
    }
}

/// The carry-less product of `a` and `b`.
pub open spec fn clmul_spec(a: u64, b: u64) -> u128 {
    clmul_partial(a, b, 64)
}

/// `p` holds the product of `a` and `b`: each of its bits is the
/// corresponding coefficient.
pub open spec fn is_product(p: u128, a: u64, b: u64) -> bool {
    forall|k: int| 0 <= k < 128 ==> bit(p, k) == #[trigger] coefficient(a, b, k)
}

proof fn lemma_parity_front(a: u64, b: u64, k: int, lo: int, hi: int)
    requires
        lo < hi,
    ensures
        parity(a, b, k, lo, hi) == (term(a, b, k, lo) != parity(a, b, k, lo + 1, hi)),
    decreases hi - lo,
{
    if lo + 1 < hi {
        lemma_parity_front(a, b, k, lo, hi - 1);
    } else {
        assert(!parity(a, b, k, lo, lo));
    }
}

proof fn lemma_parity_empty(a: u64, b: u64, k: int, lo: int, hi: int)
    requires
        forall|i: int| lo <= i < hi ==> !term(a, b, k, i),
    ensures
        !parity(a, b, k, lo, hi),
    decreases hi - lo,
{
    if lo < hi {
        lemma_parity_empty(a, b, k, lo, hi - 1);
    }
}

proof fn lemma_parity_split(a: u64, b: u64, k: int, lo: int, mid: int, hi: int)
    requires
        lo <= mid <= hi,
    ensures
        parity(a, b, k, lo, hi) == (parity(a, b, k, lo, mid) != parity(a, b, k, mid, hi)),
    decreases hi - mid,
{
    if mid < hi {
        lemma_parity_split(a, b, k, lo, mid, hi - 1);
    }
}

/// Reading the sum from the other end exchanges the two factors.
proof fn lemma_parity_mirror(a: u64, b: u64, k: int, lo: int, hi: int)
    ensures
        parity(a, b, k, lo, hi) == parity(b, a, k, k - hi + 1, k - lo + 1),
    decreases hi - lo,
{
    if lo < hi {
        lemma_parity_mirror(a, b, k, lo, hi - 1);
        lemma_parity_front(b, a, k, k - hi + 1, k - lo + 1);
        assert(term(a, b, k, hi - 1) == term(b, a, k, k - hi + 1));
    }
}

/// Only positions below 64 add to a coefficient, and only positions up to
/// `k`: the sum over `0..64` is the coefficient.
proof fn lemma_parity_window(a: u64, b: u64, k: int)
    ensures
        parity(a, b, k, 0, 64) == coefficient(a, b, k),
{
    if k + 1 <= 0 {
        lemma_parity_empty(a, b, k, 0, 64);
    } else if k + 1 <= 64 {
        lemma_parity_split(a, b, k, 0, k + 1, 64);
        lemma_parity_empty(a, b, k, k + 1, 64);
    } else {
        lemma_parity_split(a, b, k, 0, 64, k + 1);
        assert forall|i: int| 64 <= i < k + 1 implies !term(a, b, k, i) by {
            lemma_bit_widened(a, i);
        }
        lemma_parity_empty(a, b, k, 64, k + 1);
    }
}

proof fn lemma_partial_bit(a: u64, b: u64, n: nat, k: int)
    requires
        n <= 64,
    ensures
        bit(clmul_partial(a, b, n), k) == (0 <= k < 128 && parity(a, b, k, 0, n as int)),
    decreases n,
{
    if n == 0 {
        lemma_bit_zero(k);
    } else {
        let rest = clmul_partial(a, b, (n - 1) as nat);
        let shifted = (b as u128) << ((n - 1) as u32);
        lemma_partial_bit(a, b, (n - 1) as nat, k);
        lemma_bit_xor(rest, shifted, k);
        lemma_bit_shl(b as u128, n - 1, k);
    }
}

/// The shift-and-XOR product holds, at every position, the coefficient that
/// the definition of polynomial multiplication asks for; from position 127
/// on there is none.
pub proof fn lemma_clmul_coefficient(a: u64, b: u64, k: int)
    ensures
        bit(clmul_spec(a, b), k) == coefficient(a, b, k),
        !(0 <= k <= 126) ==> !coefficient(a, b, k),
{
    lemma_partial_bit(a, b, 64, k);
    lemma_parity_window(a, b, k);
    if k >= 127 {
        assert forall|i: int| 0 <= i < k + 1 implies !term(a, b, k, i) by {
            lemma_bit_widened(a, i);
            lemma_bit_widened(b, k - i);
        }
        lemma_parity_empty(a, b, k, 0, k + 1);
    }
}

/// The shift-and-XOR product is the product.
pub proof fn lemma_clmul_is_product(a: u64, b: u64)
    ensures
        is_product(clmul_spec(a, b), a, b),
{
    assert forall|k: int| 0 <= k < 128 implies bit(clmul_spec(a, b), k) == #[trigger] coefficient(
        a,
        b,
        k,
    ) by {
        lemma_clmul_coefficient(a, b, k);
    }
}

/// There is one product: a word that holds every coefficient of `a * b` is
/// `clmul_spec(a, b)`.
pub proof fn lemma_product_unique(p: u128, a: u64, b: u64)
    requires
        is_product(p, a, b),
    ensures
        p == clmul_spec(a, b),
{
    assert forall|k: int| 0 <= k < 128 implies bit(p, k) == bit(clmul_spec(a, b), k) by {
        lemma_clmul_coefficient(a, b, k);
    }
    lemma_bits_determine(p, clmul_spec(a, b));
}

/// The product has degree at most 126: bit 127 is never set.
pub proof fn lemma_clmul_degree(a: u64, b: u64)
    ensures
        clmul_spec(a, b) < 0x8000_0000_0000_0000_0000_0000_0000_0000u128,
        forall|k: int| k >= 127 ==> !bit(clmul_spec(a, b), k),
{
    lemma_clmul_coefficient(a, b, 127);
    lemma_bit_top_clear(clmul_spec(a, b));
}

/// Zero times anything is zero, on either side.
pub proof fn lemma_clmul_zero(a: u64, b: u64)
    ensures
        clmul_spec(0, b) == 0,
        clmul_spec(a, 0) == 0,
{
    assert forall|k: int| 0 <= k < 128 implies bit(clmul_spec(0, b), k) == bit(0, k) by {
        lemma_clmul_coefficient(0, b, k);
        assert forall|i: int| 0 <= i < k + 1 implies !term(0, b, k, i) by {
            lemma_bit_zero(i);
        }
        lemma_parity_empty(0, b, k, 0, k + 1);
        lemma_bit_zero(k);
    }
    lemma_bits_determine(clmul_spec(0, b), 0);
    assert forall|k: int| 0 <= k < 128 implies bit(clmul_spec(a, 0), k) == bit(0, k) by {
        lemma_clmul_coefficient(a, 0, k);
        assert forall|i: int| 0 <= i < k + 1 implies !term(a, 0, k, i) by {
            lemma_bit_zero(k - i);
        }
        lemma_parity_empty(a, 0, k, 0, k + 1);
        lemma_bit_zero(k);
    }
    lemma_bits_determine(clmul_spec(a, 0), 0);
}

/// The product does not depend on the order of its factors.
pub proof fn lemma_clmul_commutative(a: u64, b: u64)
    ensures
        clmul_spec(a, b) == clmul_spec(b, a),
{
    assert forall|k: int| 0 <= k < 128 implies bit(clmul_spec(a, b), k) == bit(
        clmul_spec(b, a),
        k,
    ) by {
        lemma_clmul_coefficient(a, b, k);
        lemma_clmul_coefficient(b, a, k);
        lemma_parity_mirror(a, b, k, 0, k + 1);
    }
    lemma_bits_determine(clmul_spec(a, b), clmul_spec(b, a));
}

/// One is the unit: multiplying by it, on either side, only widens the
/// other factor.
pub proof fn lemma_clmul_one(a: u64)
    ensures
        clmul_spec(a, 1) == a,
        clmul_spec(1, a) == a,
{
    assert forall|k: int| 0 <= k < 128 implies bit(clmul_spec(a, 1), k) == bit(a as u128, k) by {
        lemma_clmul_coefficient(a, 1, k);
        assert forall|i: int| 0 <= i < k implies !term(a, 1, k, i) by {
            lemma_bit_one(k - i);
        }
        lemma_parity_empty(a, 1, k, 0, k);
        lemma_bit_one(0);
    }
    lemma_bits_determine(clmul_spec(a, 1), a as u128);
    lemma_clmul_commutative(a, 1);
}

proof fn lemma_parity_pairs(x: u64, k: int, lo: int, hi: int)
    requires
        lo + hi == k + 1,
    ensures
        parity(x, x, k, lo, hi) == (k % 2 == 0 && lo <= k / 2 < hi && bit(x as u128, k / 2)),
    decreases hi - lo,
{
    if hi <= lo {
    } else if hi == lo + 1 {
        assert(!parity(x, x, k, lo, lo));
    } else {
        lemma_parity_front(x, x, k, lo, hi);
        assert(term(x, x, k, lo) == term(x, x, k, hi - 1));
        lemma_parity_pairs(x, k, lo + 1, hi - 1);
    }
}

/// Squaring spreads the bits out: in `x * x` the terms of each coefficient
/// cancel in pairs, `(i, j)` against `(j, i)`, and leave the one with
/// `i == j`. So the coefficient of `x^k` is bit `k / 2` of `x` for even `k`,
/// and zero for odd `k`.
pub proof fn lemma_square_coefficient(x: u64, k: int)
    ensures
        coefficient(x, x, k) == (k % 2 == 0 && bit(x as u128, k / 2)),
{
    lemma_parity_pairs(x, k, 0, k + 1);
}

} // verus!
