//! Morton (Z-order) codes of two coordinates.
//!
//! The code of `(x, y)` interleaves the bits of the two words: bit `i` of `x`
//! goes to position `2i`, bit `i` of `y` to position `2i + 1`. Interleaving
//! is dilation, which puts a zero above each bit, followed by a shift and an
//! OR; and dilation is a carry-less square. See
//! <https://en.wikipedia.org/wiki/Z-order_curve>.

use vstd::prelude::*;
use crate::bits::{
    bit, lemma_bit_or, lemma_bit_set, lemma_bit_shl, lemma_bit_shr, lemma_bit_shr_narrow,
    lemma_bit_widened, lemma_bit_zero, lemma_bits_determine,
};
use crate::clmul;
use crate::gf2::{clmul_spec, lemma_clmul_coefficient, lemma_square_coefficient};

verus! {

/// `d` is `x` dilated: bit `i` of `x` stands at position `2i`, and every odd
/// position is clear.
pub open spec fn is_dilation(d: u128, x: u64) -> bool {
    forall|i: int|
        0 <= i < 64 ==> bit(d, 2 * i) == #[trigger] bit(x as u128, i) && !bit(d, 2 * i + 1)
}

/// The dilation of `x`, as the carry-less square that computes it.
pub open spec fn dilate_spec(x: u64) -> u128 {
    clmul_spec(x, x)
}

/// `m` interleaves `x` and `y`: bit `i` of `x` stands at position `2i`, bit
/// `i` of `y` at position `2i + 1`.
pub open spec fn is_interleaving(m: u128, x: u64, y: u64) -> bool {
    forall|i: int|
        0 <= i < 64 ==> bit(m, 2 * i) == #[trigger] bit(x as u128, i) && bit(m, 2 * i + 1) == bit(
            y as u128,
            i,
        )
}

/// The Morton code of `(x, y)`: `x` dilated, OR `y` dilated and moved up by
/// one.
pub open spec fn morton_encode_spec(x: u64, y: u64) -> u128 {
    (dilate_spec(y) << 1u32) | dilate_spec(x)
}

/// The word made of the first `n` even-position bits of `m`: its bit `i` is
/// bit `2i` of `m`, for `i < n`.
pub open spec fn even_bits_partial(m: u128, n: nat) -> u64
    decreases n,
{
    if n == 0 {
        0
    } else {
        let rest = even_bits_partial(m, (n - 1) as nat);
        if bit(m, 2 * (n - 1)) {
            rest | (1u64 << ((n - 1) as u32))
        } else {
            rest
        }
    }
}

/// The word made of the even-position bits of `m`.
pub open spec fn even_bits(m: u128) -> u64 {
    even_bits_partial(m, 64)
}

/// The two coordinates that a Morton code holds: `x` from the even
/// positions, `y` from the odd ones.
pub open spec fn morton_decode_spec(m: u128) -> (u64, u64) {
    (even_bits(m), even_bits(m >> 1u32))
}

/// The 16 bits of `x` that the fixed masks of [`dilate_magic`] let through.
/// For a word that fits 16 bits this is the word itself. Of a wider word the
/// bits from 24 upward are dropped, and bits 16 to 23 are OR-ed into bits 8
/// to 15.
pub open spec fn magic_window(x: u64) -> u64 {
    (x & 0xFF) | ((((x >> 8u32) | (x >> 16u32)) & 0xFF) << 8u32)
}

/// Each bit of a dilation, by position.
pub proof fn lemma_dilate_bit(x: u64, k: int)
    ensures
        bit(dilate_spec(x), k) == (k % 2 == 0 && bit(x as u128, k / 2)),
{
    lemma_clmul_coefficient(x, x, k);
    lemma_square_coefficient(x, k);
}

/// The carry-less square is the dilation.
pub proof fn lemma_dilate_is_dilation(x: u64)
    ensures
        is_dilation(dilate_spec(x), x),
{
    assert forall|i: int| 0 <= i < 64 implies bit(dilate_spec(x), 2 * i) == #[trigger] bit(
        x as u128,
        i,
    ) && !bit(dilate_spec(x), 2 * i + 1) by {
        lemma_dilate_bit(x, 2 * i);
        lemma_dilate_bit(x, 2 * i + 1);
    }
}

/// There is one dilation of `x`.
pub proof fn lemma_dilation_unique(d: u128, x: u64)
    requires
        is_dilation(d, x),
    ensures
        d == dilate_spec(x),
{
    assert forall|k: int| 0 <= k < 128 implies bit(d, k) == bit(dilate_spec(x), k) by {
        lemma_dilate_bit(x, k);
        let i = k / 2;
        assert(bit(d, 2 * i) == bit(x as u128, i) && !bit(d, 2 * i + 1));
    }
    lemma_bits_determine(d, dilate_spec(x));
}

/// Each bit of a Morton code, by position: the even positions hold `x`, the
/// odd ones `y`.
pub proof fn lemma_morton_bit(x: u64, y: u64, k: int)
    ensures
        bit(morton_encode_spec(x, y), k) == if k % 2 == 0 {
            bit(x as u128, k / 2)
        } else {
            bit(y as u128, k / 2)
        },
{
    lemma_bit_or(dilate_spec(y) << 1u32, dilate_spec(x), k);
    lemma_bit_shl(dilate_spec(y), 1, k);
    lemma_dilate_bit(y, k - 1);
    lemma_dilate_bit(x, k);
    lemma_bit_widened(y, k / 2);
}

/// The Morton code interleaves its two coordinates.
pub proof fn lemma_morton_is_interleaving(x: u64, y: u64)
    ensures
        is_interleaving(morton_encode_spec(x, y), x, y),
{
    let m = morton_encode_spec(x, y);
    assert forall|i: int| 0 <= i < 64 implies bit(m, 2 * i) == #[trigger] bit(x as u128, i) && bit(
        m,
        2 * i + 1,
    ) == bit(y as u128, i) by {
        lemma_morton_bit(x, y, 2 * i);
        lemma_morton_bit(x, y, 2 * i + 1);
    }
}

proof fn lemma_even_bits_partial(m: u128, n: nat, i: int)
    requires
        n <= 64,
    ensures
        bit(even_bits_partial(m, n) as u128, i) == (0 <= i < n && bit(m, 2 * i)),
    decreases n,
{
    if n == 0 {
        lemma_bit_zero(i);
    } else {
        lemma_even_bits_partial(m, (n - 1) as nat, i);
        lemma_bit_set(even_bits_partial(m, (n - 1) as nat), n - 1, i);
    }
}

/// Each bit of the even-position word, by position.
pub proof fn lemma_even_bits(m: u128, i: int)
    ensures
        bit(even_bits(m) as u128, i) == (0 <= i < 64 && bit(m, 2 * i)),
{
    lemma_even_bits_partial(m, 64, i);
}

/// Decoding undoes encoding: the code of `(x, y)` holds `x` and `y`, for
/// all 64-bit coordinates.
pub proof fn lemma_morton_round_trip(x: u64, y: u64)
    ensures
        morton_decode_spec(morton_encode_spec(x, y)) == (x, y),
{
    let m = morton_encode_spec(x, y);
    assert forall|i: int| 0 <= i < 128 implies #[trigger] bit(even_bits(m) as u128, i) == bit(
        x as u128,
        i,
    ) by {
        lemma_even_bits(m, i);
        lemma_morton_bit(x, y, 2 * i);
        lemma_bit_widened(x, i);
    }
    lemma_bits_determine(even_bits(m) as u128, x as u128);
    assert forall|i: int| 0 <= i < 128 implies #[trigger] bit(even_bits(m >> 1u32) as u128, i)
        == bit(y as u128, i) by {
        lemma_even_bits(m >> 1u32, i);
        lemma_bit_shr(m, 1, 2 * i);
        lemma_morton_bit(x, y, 2 * i + 1);
        lemma_bit_widened(y, i);
    }
    lemma_bits_determine(even_bits(m >> 1u32) as u128, y as u128);
}

/// Encoding undoes decoding: every 128-bit word is the code of the pair it
/// decodes to. With the round trip this makes encoding a bijection between
/// pairs of 64-bit words and 128-bit words.
pub proof fn lemma_morton_onto(m: u128)
    ensures
        morton_encode_spec(morton_decode_spec(m).0, morton_decode_spec(m).1) == m,
{
    let x = even_bits(m);
    let y = even_bits(m >> 1u32);
    assert forall|k: int| 0 <= k < 128 implies bit(morton_encode_spec(x, y), k) == bit(m, k) by {
        lemma_morton_bit(x, y, k);
        lemma_even_bits(m, k / 2);
        lemma_even_bits(m >> 1u32, k / 2);
        lemma_bit_shr(m, 1, 2 * (k / 2));
    }
    lemma_bits_determine(morton_encode_spec(x, y), m);
}

/// Codes keep neighbourhoods together: dropping the low `s` bits of both
/// coordinates drops the low `2s` bits of the code. So the points of one
/// aligned square of side 2^`s` have their codes in one aligned run of
/// 4^`s` consecutive values, and points of different such squares do not.
pub proof fn lemma_morton_prefix(x: u64, y: u64, s: int)
    requires
        0 <= s < 64,
    ensures
        morton_encode_spec(x, y) >> ((2 * s) as u32) == morton_encode_spec(
            x >> (s as u32),
            y >> (s as u32),
        ),
{
    let m = morton_encode_spec(x, y);
    let xs = x >> (s as u32);
    let ys = y >> (s as u32);
    assert forall|k: int| 0 <= k < 128 implies bit(m >> ((2 * s) as u32), k) == bit(
        morton_encode_spec(xs, ys),
        k,
    ) by {
        lemma_bit_shr(m, 2 * s, k);
        lemma_morton_bit(x, y, k + 2 * s);
        lemma_morton_bit(xs, ys, k);
        lemma_bit_shr_narrow(x, s, k / 2);
        lemma_bit_shr_narrow(y, s, k / 2);
        lemma_bit_widened(x, k / 2 + s);
        lemma_bit_widened(y, k / 2 + s);
    }
    lemma_bits_determine(m >> ((2 * s) as u32), morton_encode_spec(xs, ys));
}

/// Two pairs with the same code are the same pair.
pub proof fn lemma_morton_injective(x1: u64, y1: u64, x2: u64, y2: u64)
    requires
        morton_encode_spec(x1, y1) == morton_encode_spec(x2, y2),
    ensures
        x1 == x2,
        y1 == y2,
{
    lemma_morton_round_trip(x1, y1);
    lemma_morton_round_trip(x2, y2);
}

/// Dilate a binary number.
///
/// The bits of `x` are spread out, with a zero placed above each: bit `i` of
/// `x` becomes bit `2i` of the result. Computed as the carry-less square of
/// `x`.
#[inline]
pub fn dilate(x: u64) -> (d: u128)
    ensures
        d == dilate_spec(x),
        is_dilation(d, x),
{
    proof {
        lemma_dilate_is_dilation(x);
    }
    clmul(x, x)
}

/// Morton-encode two binary numbers.
///
/// * `x` is dilated and placed in the even positions, from bit 0.
/// * `y` is dilated and placed in the odd positions, from bit 1.
///
/// Returns the Morton code, from which both coordinates can be read again.
#[inline]
pub fn morton_encode(x: u64, y: u64) -> (m: u128)
    ensures
        m == morton_encode_spec(x, y),
        is_interleaving(m, x, y),
        morton_decode_spec(m) == (x, y),
{
    proof {
        lemma_morton_is_interleaving(x, y);
        lemma_morton_round_trip(x, y);
    }
    let xd = dilate(x);
    let yd = dilate(y);
    (yd << 1) | xd
}

/// The four shift-OR-mask steps of [`dilate_magic`].
spec fn magic_steps(x: u64) -> u64 {
    let s1 = (x | (x << 8u32)) & 0x00FF00FF;
    let s2 = (s1 | (s1 << 4u32)) & 0x0F0F0F0F;
    let s3 = (s2 | (s2 << 2u32)) & 0x33333333;
    (s3 | (s3 << 1u32)) & 0x55555555
}

proof fn bv_magic(x: u64, k: u32)
    by (bit_vector)
    requires
        k < 128,
    ensures
        (((magic_steps(x) as u128) >> k) & 1 == 1) == (k % 2 == 0 && (((magic_window(x) as u128)
            >> (k / 2)) & 1 == 1)),
        magic_steps(x) <= 0x55555555,
{
}

proof fn bv_window(x: u64)
    by (bit_vector)
    ensures
        magic_window(x) <= 0xFFFF,
        x <= 0xFFFF ==> magic_window(x) == x,
{
}

proof fn bv_narrow_interleave(xd: u64, yd: u64)
    by (bit_vector)
    requires
        xd <= 0x55555555,
        yd <= 0x55555555,
    ensures
        ((yd << 1u32) | xd) as u128 == ((yd as u128) << 1u32) | (xd as u128),
        (yd << 1u32) | xd <= 0xFFFF_FFFF,
{
}

/// The four steps dilate what passes the masks.
proof fn lemma_magic_steps(x: u64)
    ensures
        magic_steps(x) == dilate_spec(magic_window(x)),
        magic_steps(x) <= 0x5555_5555,
{
    let d = magic_steps(x);
    let w = magic_window(x);
    assert forall|k: int| 0 <= k < 128 implies bit(d as u128, k) == bit(dilate_spec(w), k) by {
        bv_magic(x, k as u32);
        lemma_dilate_bit(w, k);
    }
    lemma_bits_determine(d as u128, dilate_spec(w));
    bv_magic(x, 0);
}

/// What passes the masks is a 16-bit word, and a 16-bit word passes whole.
pub proof fn lemma_magic_window(x: u64)
    ensures
        magic_window(x) <= 0xFFFF,
        x <= 0xFFFF ==> magic_window(x) == x,
{
    bv_window(x);
}

/// On 16-bit words the fixed masks and the carry-less square agree: what
/// [`dilate_magic`] and [`morton_encode_magic`] return for them is what
/// [`dilate`] and [`morton_encode`] return, and it fits 32 bits, so that
/// nothing is lost in the narrower result.
pub proof fn lemma_magic_agrees(x: u64, y: u64)
    requires
        x <= 0xFFFF,
        y <= 0xFFFF,
    ensures
        dilate_spec(magic_window(x)) == dilate_spec(x),
        dilate_spec(x) <= 0x5555_5555,
        morton_encode_spec(magic_window(x), magic_window(y)) == morton_encode_spec(x, y),
        morton_encode_spec(x, y) <= 0xFFFF_FFFF,
{
    lemma_magic_window(x);
    lemma_magic_window(y);
    lemma_magic_steps(x);
    lemma_magic_steps(y);
    bv_narrow_interleave(magic_steps(x), magic_steps(y));
}

/// Dilate a 16-bit number with fixed masks.
///
/// Four shift-OR-mask steps in place of a carry-less square. For `x` below
/// 2^16 the result is the dilation of `x`, the same value that [`dilate`]
/// returns. A wider `x` is not dilated whole: the result is the dilation of
/// [`magic_window`]`(x)`, and the rest of `x` is lost.
#[inline]
pub fn dilate_magic(x: u64) -> (d: u64)
    ensures
        d == dilate_spec(magic_window(x)),
        is_dilation(d as u128, magic_window(x)),
        x <= 0xFFFF ==> d == dilate_spec(x),
        d <= 0x5555_5555,
{
    proof {
        lemma_magic_steps(x);
        lemma_dilate_is_dilation(magic_window(x));
        lemma_magic_window(x);
    }
    let x: u64 = (x | (x << 8)) & 0x00FF00FF;
    let x: u64 = (x | (x << 4)) & 0x0F0F0F0F;
    let x: u64 = (x | (x << 2)) & 0x33333333;
    let x: u64 = (x | (x << 1)) & 0x55555555;
    x
}

/// Morton-encode two 16-bit numbers with fixed masks.
///
/// For `x` and `y` below 2^16 the result is the Morton code of `(x, y)`, the
/// same value that [`morton_encode`] returns. Of a wider coordinate only its
/// [`magic_window`] is encoded.
#[inline]
pub fn morton_encode_magic(x: u64, y: u64) -> (m: u64)
    ensures
        m == morton_encode_spec(magic_window(x), magic_window(y)),
        is_interleaving(m as u128, magic_window(x), magic_window(y)),
        x <= 0xFFFF && y <= 0xFFFF ==> m == morton_encode_spec(x, y),
        m <= 0xFFFF_FFFF,
{
    let xd = dilate_magic(x);
    let yd = dilate_magic(y);
    proof {
        bv_narrow_interleave(xd, yd);
        lemma_morton_is_interleaving(magic_window(x), magic_window(y));
        lemma_magic_window(x);
        lemma_magic_window(y);
    }
    (yd << 1) | xd
}

} // verus!
