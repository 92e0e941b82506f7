//! Bit-level accessor toolkit for packed wire records.
//!
//! Bit numbering is big-endian within a byte: bit 0 of a buffer is the most
//! significant bit of byte 0.  A field of width `w` starting at bit offset
//! `off` is read as a big-endian integer: the bit at `off` is the most
//! significant bit of the field.

use vstd::prelude::*;
use vstd::arithmetic::div_mod::{lemma_div_denominator, lemma_mod_breakdown};
use vstd::arithmetic::power2::{
    lemma2_to64, lemma_pow2_adds, lemma_pow2_pos, lemma_pow2_strictly_increases, pow2,
};
use vstd::bits::lemma_u8_shr_is_div;

verus! {

/// The value (0 or 1) of bit `i` of `data`, in big-endian bit numbering:
/// bit 0 is the most significant bit of byte 0.
pub open spec fn spec_bit(data: Seq<u8>, i: int) -> nat
    recommends
        0 <= i < data.len() * 8,
{
    data[i / 8] as nat / pow2((7 - i % 8) as nat) % 2
}

/// Recursive reading of a big-endian bit field, bit by bit from the most
/// significant end.
pub open spec fn spec_field_rec(data: Seq<u8>, off: int, width: nat) -> nat
    decreases width,
{
    if width == 0 {
        0
    } else {
        spec_field_rec(data, off, (width - 1) as nat) * 2 + spec_bit(data, off + width - 1)
    }
}

/// The value of the `width`-bit field starting at bit `off` of `data`,
/// read as a big-endian integer.
pub open spec fn spec_field(data: Seq<u8>, off: int, width: nat) -> nat
    recommends
        0 <= off,
        off + width <= data.len() * 8,
{
    spec_field_rec(data, off, width)
}

proof fn lemma_spec_field_rec_bound(data: Seq<u8>, off: int, width: nat)
    ensures
        spec_field_rec(data, off, width) < pow2(width),
    decreases width,
{
    if width == 0 {
        lemma2_to64();
    } else {
        lemma_spec_field_rec_bound(data, off, (width - 1) as nat);
        lemma_pow2_adds((width - 1) as nat, 1);
        lemma2_to64();
    }
}

/// A field's value is below 2^width.
pub proof fn lemma_spec_field_bound(data: Seq<u8>, off: int, width: nat)
    ensures
        spec_field(data, off, width) < pow2(width),
{
    lemma_spec_field_rec_bound(data, off, width);
}

proof fn lemma_spec_field_rec_congruence(d1: Seq<u8>, d2: Seq<u8>, off: int, width: nat)
    requires
        forall|j: int| off <= j < off + width ==> spec_bit(d1, j) == spec_bit(d2, j),
    ensures
        spec_field_rec(d1, off, width) == spec_field_rec(d2, off, width),
    decreases width,
{
    if width > 0 {
        lemma_spec_field_rec_congruence(d1, d2, off, (width - 1) as nat);
    }
}

proof fn lemma_spec_field_rec_zero(data: Seq<u8>, off: int, width: nat)
    requires
        forall|j: int| off <= j < off + width ==> spec_bit(data, j) == 0,
    ensures
        spec_field_rec(data, off, width) == 0,
    decreases width,
{
    if width > 0 {
        lemma_spec_field_rec_zero(data, off, (width - 1) as nat);
    }
}

/// A field whose bits are all clear reads as zero.
pub proof fn lemma_spec_field_zero(data: Seq<u8>, off: int, width: nat)
    requires
        forall|j: int| off <= j < off + width ==> spec_bit(data, j) == 0,
    ensures
        spec_field(data, off, width) == 0,
{
    lemma_spec_field_rec_zero(data, off, width);
}

/// Law: a field's value depends only on the bits it spans.  Two buffers
/// that agree on bits `off .. off + width` yield the same field value, so
/// writing one field never disturbs a disjoint field.
pub proof fn lemma_spec_field_congruence(d1: Seq<u8>, d2: Seq<u8>, off: int, width: nat)
    requires
        forall|j: int| off <= j < off + width ==> spec_bit(d1, j) == spec_bit(d2, j),
    ensures
        spec_field(d1, off, width) == spec_field(d2, off, width),
{
    lemma_spec_field_rec_congruence(d1, d2, off, width);
}

/// A field whose bits hold the binary digits of `v` (least significant digit
/// at the field's last bit) reads back as `v` reduced modulo 2^width.
proof fn lemma_field_from_bits(d: Seq<u8>, off: int, width: nat, v: nat)
    requires
        forall|t: int|
            0 <= t < width ==> #[trigger] spec_bit(d, off + width - 1 - t) == v / pow2(t as nat)
                % 2,
    ensures
        spec_field_rec(d, off, width) == v % pow2(width),
    decreases width,
{
    lemma2_to64();
    if width == 0 {
        assert(v % pow2(0) == 0);
    } else {
        let w1 = (width - 1) as nat;
        assert forall|t: int| 0 <= t < w1 implies #[trigger] spec_bit(d, off + w1 - 1 - t) == (v
            / 2) / pow2(t as nat) % 2 by {
            assert(spec_bit(d, off + width - 1 - (t + 1)) == v / pow2((t + 1) as nat) % 2);
            lemma_pow2_pos(t as nat);
            lemma_div_denominator(v as int, 2, pow2(t as nat) as int);
            lemma_pow2_adds(1, t as nat);
        }
        lemma_field_from_bits(d, off, w1, v / 2);
        let t0: int = 0;
        assert(spec_bit(d, off + width - 1 - t0) == v / pow2(t0 as nat) % 2);
        assert(v / pow2(0) == v);
        lemma_pow2_pos(w1);
        lemma_mod_breakdown(v as int, 2, pow2(w1) as int);
        lemma_pow2_adds(1, w1);
        assert(pow2(width) == 2 * pow2(w1));
    }
}

/// Bridges the arithmetic definition of `spec_bit` to the shift-and-mask
/// form used by the executable code.
proof fn lemma_spec_bit_is_shift(data: Seq<u8>, j: int)
    requires
        0 <= j < data.len() * 8,
    ensures
        spec_bit(data, j) == ((data[j / 8] >> ((7 - j % 8) as u8)) & 1),
{
    let b = data[j / 8];
    let sh = (7 - j % 8) as u8;
    lemma_u8_shr_is_div(b, sh);
    assert((b >> sh) & 1 == (b >> sh) % 2) by (bit_vector);
}

/// Effect of setting or clearing one bit of a byte on every bit of that byte.
proof fn lemma_u8_set_bit(b: u8, sh: u8)
    by (bit_vector)
    requires
        sh < 8,
    ensures
        forall|t: u8|
            t < 8 ==> #[trigger] ((b | (1u8 << sh)) >> t) & 1 == (if t == sh {
                1u8
            } else {
                (b >> t) & 1
            }),
        forall|t: u8|
            t < 8 ==> #[trigger] ((b & !(1u8 << sh)) >> t) & 1 == (if t == sh {
                0u8
            } else {
                (b >> t) & 1
            }),
{
}

/// Reads bit `i` of `data` (big-endian bit numbering).
fn get_bit(data: &[u8], i: usize) -> (r: u8)
    requires
        i < data.len() * 8,
    ensures
        r as nat == spec_bit(data@, i as int),
        r <= 1,
{
    let b = data[i / 8];
    let sh: u8 = 7 - (i % 8) as u8;
    let r = (b >> sh) & 1;
    proof {
        lemma_spec_bit_is_shift(data@, i as int);
        assert((b >> sh) & 1 <= 1) by (bit_vector);
    }
    r
}

/// Writes bit `i` of `data` (big-endian bit numbering) to `v`, leaving
/// every other bit of the buffer unchanged.
fn set_bit(data: &mut [u8], i: usize, v: u8)
    requires
        i < old(data).len() * 8,
        v <= 1,
    ensures
        final(data).len() == old(data).len(),
        spec_bit(final(data)@, i as int) == v as nat,
        forall|j: int|
            0 <= j < old(data).len() * 8 && j != i ==> spec_bit(final(data)@, j) == spec_bit(
                old(data)@,
                j,
            ),
{
    let byte_idx = i / 8;
    let sh: u8 = 7 - (i % 8) as u8;
    let b = data[byte_idx];
    let nb: u8 = if v == 1 {
        b | (1u8 << sh)
    } else {
        b & !(1u8 << sh)
    };
    data[byte_idx] = nb;
    proof {
        lemma_u8_set_bit(b, sh);
        assert forall|j: int| 0 <= j < old(data).len() * 8 && j != i implies spec_bit(
            final(data)@,
            j,
        ) == spec_bit(old(data)@, j) by {
            lemma_spec_bit_is_shift(final(data)@, j);
            lemma_spec_bit_is_shift(old(data)@, j);
            if j / 8 == byte_idx {
                let t = (7 - j % 8) as u8;
                assert(t < 8 && t != sh);
            }
        }
        lemma_spec_bit_is_shift(final(data)@, i as int);
    }
}

/// Reads the `width`-bit field at bit offset `bit_offset` of `data` as a
/// big-endian integer.  Widths of 1 to 64 bits are supported and the field
/// must lie inside the buffer.
pub fn get_bitfield(data: &[u8], bit_offset: usize, width: usize) -> (r: u64)
    requires
        1 <= width <= 64,
        bit_offset + width <= data.len() * 8,
        bit_offset + width <= usize::MAX,
    ensures
        r as nat == spec_field(data@, bit_offset as int, width as nat),
{
    let mut val: u64 = 0;
    let mut k: usize = 0;
    proof {
        lemma2_to64();
    }
    while k < width
        invariant
            k <= width,
            1 <= width <= 64,
            bit_offset + width <= data.len() * 8,
            bit_offset + width <= usize::MAX,
            val as nat == spec_field(data@, bit_offset as int, k as nat),
            val < pow2(k as nat),
        decreases width - k,
    {
        let b = get_bit(data, bit_offset + k);
        proof {
            lemma_pow2_adds(k as nat, 1);
            lemma2_to64();
            if (k + 1) < 64 {
                lemma_pow2_strictly_increases((k + 1) as nat, 64);
            }
        }
        val = val * 2 + b as u64;
        k += 1;
    }
    val
}

/// Writes `val`, reduced to `width` bits, into the `width`-bit field at bit
/// offset `bit_offset` of `data`, leaving every bit outside the field
/// unchanged.  Widths of 1 to 64 bits are supported and the field must lie
/// inside the buffer.
pub fn set_bitfield(data: &mut [u8], bit_offset: usize, width: usize, val: u64)
    requires
        1 <= width <= 64,
        bit_offset + width <= old(data).len() * 8,
        bit_offset + width <= usize::MAX,
    ensures
        final(data).len() == old(data).len(),
        spec_field(final(data)@, bit_offset as int, width as nat) == val as nat % pow2(
            width as nat,
        ),
        forall|j: int|
            0 <= j < old(data).len() * 8 && !(bit_offset <= j < bit_offset + width)
                ==> spec_bit(final(data)@, j) == spec_bit(old(data)@, j),
{
    let mut cur: u64 = val;
    let mut t: usize = 0;
    proof {
        lemma2_to64();
    }
    while t < width
        invariant
            t <= width,
            1 <= width <= 64,
            bit_offset + width <= old(data).len() * 8,
            bit_offset + width <= usize::MAX,
            data.len() == old(data).len(),
            cur as nat == val as nat / pow2(t as nat),
            forall|u: int|
                0 <= u < t ==> #[trigger] spec_bit(data@, bit_offset + width - 1 - u) == val as nat
                    / pow2(u as nat) % 2,
            forall|j: int|
                0 <= j < old(data).len() * 8 && !(bit_offset + width - t <= j < bit_offset + width)
                    ==> spec_bit(data@, j) == spec_bit(old(data)@, j),
        decreases width - t,
    {
        let ghost prev = data@;
        set_bit(data, bit_offset + width - 1 - t, (cur % 2) as u8);
        proof {
            assert(spec_bit(data@, bit_offset + width - 1 - t) == cur as nat % 2);
            lemma_pow2_pos(t as nat);
            lemma_div_denominator(val as int, pow2(t as nat) as int, 2);
            lemma_pow2_adds(t as nat, 1);
            lemma2_to64();
        }
        cur = cur / 2;
        t += 1;
    }
    proof {
        lemma_field_from_bits(data@, bit_offset as int, width as nat, val as nat);
    }
}

} // verus!
