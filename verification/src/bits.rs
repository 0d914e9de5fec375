//! Single bits of a 128-bit word, and the facts about them that the rest of
//! the crate is proved from.
//!
//! Every value the crate handles is read through [`bit`]; a 64-bit word is
//! widened first, which leaves its bits where they are. Each fact is shown
//! once on the machine representation, by bit-blasting, and then restated
//! over [`bit`] for positions of type `int`.

use vstd::prelude::*;

verus! {

/// Bit `k` of `v`, counting from the least significant bit at 0. Positions
/// outside `0..128` hold no bit and read as `false`.
pub open spec fn bit(v: u128, k: int) -> bool {
    0 <= k < 128 && (v >> (k as u32)) & 1 == 1
}

proof fn bv_zero(k: u32)
    by (bit_vector)
    requires
        k < 128,
    ensures
        (0u128 >> k) & 1 != 1,
{
}

/// No bit of zero is set.
pub proof fn lemma_bit_zero(k: int)
    ensures
        !bit(0, k),
{
    if 0 <= k < 128 {
        bv_zero(k as u32);
    }
}

proof fn bv_one(k: u32)
    by (bit_vector)
    requires
        k < 128,
    ensures
        ((1u128 >> k) & 1 == 1) == (k == 0),
{
}

/// Only bit 0 of one is set.
pub proof fn lemma_bit_one(k: int)
    ensures
        bit(1, k) == (k == 0),
{
    if 0 <= k < 128 {
        bv_one(k as u32);
    }
}

proof fn bv_xor(u: u128, v: u128, k: u32)
    by (bit_vector)
    requires
        k < 128,
    ensures
        (((u ^ v) >> k) & 1 == 1) == (((u >> k) & 1 == 1) != ((v >> k) & 1 == 1)),
{
}

/// A bit of `u ^ v` is set where exactly one of `u` and `v` has it set.
pub proof fn lemma_bit_xor(u: u128, v: u128, k: int)
    ensures
        bit(u ^ v, k) == (bit(u, k) != bit(v, k)),
{
    if 0 <= k < 128 {
        bv_xor(u, v, k as u32);
    }
}

proof fn bv_or(u: u128, v: u128, k: u32)
    by (bit_vector)
    requires
        k < 128,
    ensures
        (((u | v) >> k) & 1 == 1) == (((u >> k) & 1 == 1) || ((v >> k) & 1 == 1)),
{
}

/// A bit of `u | v` is set where `u` or `v` has it set.
pub proof fn lemma_bit_or(u: u128, v: u128, k: int)
    ensures
        bit(u | v, k) == (bit(u, k) || bit(v, k)),
{
    if 0 <= k < 128 {
        bv_or(u, v, k as u32);
    }
}

proof fn bv_shl(v: u128, s: u32, k: u32)
    by (bit_vector)
    requires
        s < 128,
        k < 128,
    ensures
        k < s ==> ((v << s) >> k) & 1 != 1,
        k >= s ==> ((((v << s) >> k) & 1 == 1) == ((v >> ((k - s) as u32)) & 1 == 1)),
{
}

/// Shifting left by `s` moves bit `k - s` to position `k`; the low `s`
/// positions are cleared and what would pass position 127 is dropped.
pub proof fn lemma_bit_shl(v: u128, s: int, k: int)
    requires
        0 <= s < 128,
    ensures
        bit(v << (s as u32), k) == (s <= k < 128 && bit(v, k - s)),
{
    if 0 <= k < 128 {
        bv_shl(v, s as u32, k as u32);
    }
}

proof fn bv_shr(v: u128, s: u32, k: u32)
    by (bit_vector)
    requires
        s < 128,
        k < 128,
    ensures
        k + s >= 128 ==> ((v >> s) >> k) & 1 != 1,
        k + s < 128 ==> ((((v >> s) >> k) & 1 == 1) == ((v >> ((k + s) as u32)) & 1 == 1)),
{
}

/// Shifting right by `s` moves bit `k + s` down to position `k`.
pub proof fn lemma_bit_shr(v: u128, s: int, k: int)
    requires
        0 <= s < 128,
    ensures
        bit(v >> (s as u32), k) == (0 <= k && bit(v, k + s)),
{
    if 0 <= k < 128 {
        bv_shr(v, s as u32, k as u32);
    }
}

proof fn bv_shr_narrow(x: u64, s: u32, k: u32)
    by (bit_vector)
    requires
        s < 64,
        k < 128,
    ensures
        k + s >= 64 ==> (((x >> s) as u128) >> k) & 1 != 1,
        k + s < 64 ==> (((((x >> s) as u128) >> k) & 1 == 1) == (((x as u128) >> ((k + s) as u32))
            & 1 == 1)),
{
}

/// The same for a 64-bit word, shifted before it is widened.
pub proof fn lemma_bit_shr_narrow(x: u64, s: int, k: int)
    requires
        0 <= s < 64,
    ensures
        bit((x >> (s as u32)) as u128, k) == (0 <= k && k + s < 64 && bit(x as u128, k + s)),
{
    if 0 <= k < 128 {
        bv_shr_narrow(x, s as u32, k as u32);
    }
}

proof fn bv_widen(x: u64, k: u32)
    by (bit_vector)
    requires
        64 <= k < 128,
    ensures
        ((x as u128) >> k) & 1 != 1,
{
}

/// A widened 64-bit word has no bit at position 64 or above.
pub proof fn lemma_bit_widened(x: u64, k: int)
    ensures
        k >= 64 ==> !bit(x as u128, k),
{
    if 64 <= k < 128 {
        bv_widen(x, k as u32);
    }
}

proof fn bv_mask(x: u64, k: u32)
    by (bit_vector)
    requires
        k < 64,
    ensures
        (x & (1u64 << k) != 0) == (((x as u128) >> k) & 1 == 1),
{
}

/// Masking a 64-bit word with `1 << k` tests its bit `k`.
pub proof fn lemma_bit_mask(x: u64, k: int)
    requires
        0 <= k < 64,
    ensures
        (x & (1u64 << (k as u32)) != 0) == bit(x as u128, k),
{
    bv_mask(x, k as u32);
}

proof fn bv_set(r: u64, j: u32, k: u32)
    by (bit_vector)
    requires
        j < 64,
        k < 128,
    ensures
        ((((r | (1u64 << j)) as u128) >> k) & 1 == 1) == ((((r as u128) >> k) & 1 == 1) || k == j),
{
}

/// OR-ing `1 << j` into a 64-bit word sets its bit `j` and leaves the others.
pub proof fn lemma_bit_set(r: u64, j: int, k: int)
    requires
        0 <= j < 64,
    ensures
        bit((r | (1u64 << (j as u32))) as u128, k) == (bit(r as u128, k) || k == j),
{
    if 0 <= k < 128 {
        bv_set(r, j as u32, k as u32);
    }
}

/// One more shift by one is a shift by one more; a shift by nothing changes
/// nothing. A 64-bit word can go up 64 places in 128 bits without loss.
pub proof fn lemma_shl_step(x: u64, s: u32)
    by (bit_vector)
    requires
        s < 64,
    ensures
        ((x as u128) << s) << 1u32 == (x as u128) << ((s + 1) as u32),
        (x as u128) << 0u32 == x as u128,
{
}

proof fn bv_top(u: u128, v: u128)
    by (bit_vector)
    requires
        ((u >> 127u32) & 1 == 1) == ((v >> 127u32) & 1 == 1),
    ensures
        u >> 127u32 == v >> 127u32,
{
}

proof fn bv_next(u: u128, v: u128, m: u32)
    by (bit_vector)
    requires
        m < 127,
        u >> ((m + 1) as u32) == v >> ((m + 1) as u32),
        ((u >> m) & 1 == 1) == ((v >> m) & 1 == 1),
    ensures
        u >> m == v >> m,
{
}

proof fn bv_whole(u: u128)
    by (bit_vector)
    ensures
        u >> 0u32 == u,
{
}

/// Words that agree at every position from `m` upward agree once their low
/// `m` bits are shifted out. By induction from the top bit down.
proof fn lemma_agree_from(u: u128, v: u128, m: int)
    requires
        0 <= m < 128,
        forall|k: int| m <= k < 128 ==> bit(u, k) == bit(v, k),
    ensures
        u >> (m as u32) == v >> (m as u32),
    decreases 128 - m,
{
    assert(bit(u, m) == bit(v, m));
    if m == 127 {
        bv_top(u, v);
    } else {
        lemma_agree_from(u, v, m + 1);
        bv_next(u, v, m as u32);
    }
}

/// A word is determined by its bits: two words that agree at every position
/// are equal.
pub proof fn lemma_bits_determine(u: u128, v: u128)
    requires
        forall|k: int| 0 <= k < 128 ==> bit(u, k) == bit(v, k),
    ensures
        u == v,
{
    lemma_agree_from(u, v, 0);
    bv_whole(u);
    bv_whole(v);
}

proof fn bv_below_top(v: u128)
    by (bit_vector)
    requires
        (v >> 127u32) & 1 != 1,
    ensures
        v < 0x8000_0000_0000_0000_0000_0000_0000_0000u128,
{
}

/// A word whose bit 127 is clear lies below 2^127.
pub proof fn lemma_bit_top_clear(v: u128)
    requires
        !bit(v, 127),
    ensures
        v < 0x8000_0000_0000_0000_0000_0000_0000_0000u128,
{
    bv_below_top(v);
}

} // verus!
