//! Byte-level helpers shared by the record codecs: big-endian and
//! little-endian integer fields and fixed-size byte arrays.
//!
//! Multi-byte integers inside MADs and in the user-MAD address are
//! big-endian on the wire; the user-MAD header that the kernel consumes is
//! little-endian.

use vstd::prelude::*;

verus! {

/// The 16-bit big-endian integer held at byte offset `k`.
pub open spec fn spec_be16(b: Seq<u8>, k: int) -> nat {
    (b[k] as nat) * 0x100 + (b[k + 1] as nat)
}

/// The 32-bit big-endian integer held at byte offset `k`.
pub open spec fn spec_be32(b: Seq<u8>, k: int) -> nat {
    ((b[k] as nat) * 0x100_0000) + ((b[k + 1] as nat) * 0x1_0000) + ((b[k + 2] as nat) * 0x100) + (
    b[k + 3] as nat)
}

/// The 64-bit big-endian integer held at byte offset `k`.
pub open spec fn spec_be64(b: Seq<u8>, k: int) -> nat {
    (b[k] as nat) * 0x100_0000_0000_0000 + (b[k + 1] as nat) * 0x1_0000_0000_0000 + (b[k
        + 2] as nat) * 0x100_0000_0000 + (b[k + 3] as nat) * 0x1_0000_0000 + (b[k + 4] as nat)
        * 0x100_0000 + (b[k + 5] as nat) * 0x1_0000 + (b[k + 6] as nat) * 0x100 + (b[k + 7] as nat)
}

/// The 32-bit little-endian integer held at byte offset `k`.
pub open spec fn spec_le32(b: Seq<u8>, k: int) -> nat {
    (b[k] as nat) + (b[k + 1] as nat) * 0x100 + (b[k + 2] as nat) * 0x1_0000 + (b[k + 3] as nat)
        * 0x100_0000
}

/// Reads the 16-bit big-endian integer at byte offset `k`.
pub fn read_be16(b: &[u8], k: usize) -> (r: u16)
    requires
        k + 2 <= b@.len(),
    ensures
        r as nat == spec_be16(b@, k as int),
{
    (b[k] as u16) * 0x100 + (b[k + 1] as u16)
}

/// Reads the 32-bit big-endian integer at byte offset `k`.
pub fn read_be32(b: &[u8], k: usize) -> (r: u32)
    requires
        k + 4 <= b@.len(),
    ensures
        r as nat == spec_be32(b@, k as int),
{
    (b[k] as u32) * 0x100_0000 + (b[k + 1] as u32) * 0x1_0000 + (b[k + 2] as u32) * 0x100 + (b[k
        + 3] as u32)
}

/// Reads the 64-bit big-endian integer at byte offset `k`.
pub fn read_be64(b: &[u8], k: usize) -> (r: u64)
    requires
        k + 8 <= b@.len(),
    ensures
        r as nat == spec_be64(b@, k as int),
{
    (b[k] as u64) * 0x100_0000_0000_0000 + (b[k + 1] as u64) * 0x1_0000_0000_0000 + (b[k
        + 2] as u64) * 0x100_0000_0000 + (b[k + 3] as u64) * 0x1_0000_0000 + (b[k + 4] as u64)
        * 0x100_0000 + (b[k + 5] as u64) * 0x1_0000 + (b[k + 6] as u64) * 0x100 + (b[k + 7] as u64)
}

/// Reads the 32-bit little-endian integer at byte offset `k`.
pub fn read_le32(b: &[u8], k: usize) -> (r: u32)
    requires
        k + 4 <= b@.len(),
    ensures
        r as nat == spec_le32(b@, k as int),
{
    (b[k] as u32) + (b[k + 1] as u32) * 0x100 + (b[k + 2] as u32) * 0x1_0000 + (b[k + 3] as u32)
        * 0x100_0000
}

/// A 16-bit value is recovered from its two big-endian bytes.
proof fn lemma_be16_recompose(x: u16)
    by (bit_vector)
    ensures
        (x / 0x100) * 0x100 + (x % 0x100) == x,
{
}

/// A 32-bit value is recovered from its four big-endian bytes.
proof fn lemma_be32_recompose(x: u32)
    by (bit_vector)
    ensures
        (x / 0x100_0000) * 0x100_0000 + ((x / 0x1_0000) % 0x100) * 0x1_0000 + ((x / 0x100)
            % 0x100) * 0x100 + (x % 0x100) == x,
{
}

/// A 64-bit value is recovered from its eight big-endian bytes.
proof fn lemma_be64_recompose(x: u64)
    by (bit_vector)
    ensures
        (x / 0x100_0000_0000_0000) * 0x100_0000_0000_0000 + ((x / 0x1_0000_0000_0000) % 0x100)
            * 0x1_0000_0000_0000 + ((x / 0x100_0000_0000) % 0x100) * 0x100_0000_0000 + ((x
            / 0x1_0000_0000) % 0x100) * 0x1_0000_0000 + ((x / 0x100_0000) % 0x100) * 0x100_0000 + ((
        x / 0x1_0000) % 0x100) * 0x1_0000 + ((x / 0x100) % 0x100) * 0x100 + (x % 0x100) == x,
{
}

/// Returns a zero-filled byte vector of length `n`.
pub fn zero_vec(n: usize) -> (r: Vec<u8>)
    ensures
        r@.len() == n,
        forall|j: int| 0 <= j < n ==> r@[j] == 0u8,
{
    let mut r: Vec<u8> = Vec::new();
    let mut i: usize = 0;
    while i < n
        invariant
            i <= n,
            r@.len() == i,
            forall|j: int| 0 <= j < i ==> r@[j] == 0u8,
        decreases n - i,
    {
        r.push(0u8);
        i += 1;
    }
    r
}

/// Writes one byte at offset `k`, leaving every other byte unchanged.
pub fn write_u8(v: &mut Vec<u8>, k: usize, x: u8)
    requires
        k < old(v)@.len(),
    ensures
        final(v)@.len() == old(v)@.len(),
        forall|j: int| 0 <= j < old(v)@.len() && j != k ==> final(v)@[j] == old(v)@[j],
        final(v)@[k as int] == x,
{
    let _len: usize = v.len();
    v[k] = x;
}

/// Writes the two big-endian bytes of `x` at offset `k`, leaving every
/// other byte unchanged.
pub fn write_be16(v: &mut Vec<u8>, k: usize, x: u16)
    requires
        k + 2 <= old(v)@.len(),
    ensures
        final(v)@.len() == old(v)@.len(),
        forall|j: int| 0 <= j < old(v)@.len() && !(k <= j < k + 2) ==> final(v)@[j] == old(v)@[j],
        spec_be16(final(v)@, k as int) == x as nat,
{
    let _len: usize = v.len();
    v[k] = (x / 0x100) as u8;
    v[k + 1] = (x % 0x100) as u8;
    proof {
        lemma_be16_recompose(x);
    }
}

/// Writes the four big-endian bytes of `x` at offset `k`, leaving every
/// other byte unchanged.
pub fn write_be32(v: &mut Vec<u8>, k: usize, x: u32)
    requires
        k + 4 <= old(v)@.len(),
    ensures
        final(v)@.len() == old(v)@.len(),
        forall|j: int| 0 <= j < old(v)@.len() && !(k <= j < k + 4) ==> final(v)@[j] == old(v)@[j],
        spec_be32(final(v)@, k as int) == x as nat,
{
    let _len: usize = v.len();
    v[k] = (x / 0x100_0000) as u8;
    v[k + 1] = ((x / 0x1_0000) % 0x100) as u8;
    v[k + 2] = ((x / 0x100) % 0x100) as u8;
    v[k + 3] = (x % 0x100) as u8;
    proof {
        lemma_be32_recompose(x);
    }
}

/// Writes the eight big-endian bytes of `x` at offset `k`, leaving every
/// other byte unchanged.
pub fn write_be64(v: &mut Vec<u8>, k: usize, x: u64)
    requires
        k + 8 <= old(v)@.len(),
    ensures
        final(v)@.len() == old(v)@.len(),
        forall|j: int| 0 <= j < old(v)@.len() && !(k <= j < k + 8) ==> final(v)@[j] == old(v)@[j],
        spec_be64(final(v)@, k as int) == x as nat,
{
    let _len: usize = v.len();
    v[k] = (x / 0x100_0000_0000_0000) as u8;
    v[k + 1] = ((x / 0x1_0000_0000_0000) % 0x100) as u8;
    v[k + 2] = ((x / 0x100_0000_0000) % 0x100) as u8;
    v[k + 3] = ((x / 0x1_0000_0000) % 0x100) as u8;
    v[k + 4] = ((x / 0x100_0000) % 0x100) as u8;
    v[k + 5] = ((x / 0x1_0000) % 0x100) as u8;
    v[k + 6] = ((x / 0x100) % 0x100) as u8;
    v[k + 7] = (x % 0x100) as u8;
    proof {
        lemma_be64_recompose(x);
    }
}

/// Writes the four little-endian bytes of `x` at offset `k`, leaving every
/// other byte unchanged.
pub fn write_le32(v: &mut Vec<u8>, k: usize, x: u32)
    requires
        k + 4 <= old(v)@.len(),
    ensures
        final(v)@.len() == old(v)@.len(),
        forall|j: int| 0 <= j < old(v)@.len() && !(k <= j < k + 4) ==> final(v)@[j] == old(v)@[j],
        spec_le32(final(v)@, k as int) == x as nat,
{
    let _len: usize = v.len();
    v[k] = (x % 0x100) as u8;
    v[k + 1] = ((x / 0x100) % 0x100) as u8;
    v[k + 2] = ((x / 0x1_0000) % 0x100) as u8;
    v[k + 3] = (x / 0x100_0000) as u8;
    proof {
        lemma_be32_recompose(x);
    }
}

/// Writes the bytes of a fixed-size array at offset `k`, leaving every
/// other byte unchanged.
pub fn write_array<const N: usize>(v: &mut Vec<u8>, k: usize, a: &[u8; N])
    requires
        k + N <= old(v)@.len(),
    ensures
        final(v)@.len() == old(v)@.len(),
        forall|j: int| 0 <= j < old(v)@.len() && !(k <= j < k + N) ==> final(v)@[j] == old(v)@[j],
        final(v)@.subrange(k as int, k + N) == a@,
{
    let _len: usize = v.len();
    let mut i: usize = 0;
    while i < N
        invariant
            i <= N,
            k + N <= old(v)@.len(),
            old(v)@.len() <= usize::MAX,
            v@.len() == old(v)@.len(),
            forall|j: int| 0 <= j < old(v)@.len() && !(k <= j < k + i) ==> v@[j] == old(v)@[j],
            forall|j: int| 0 <= j < i ==> v@[k + j] == a@[j],
        decreases N - i,
    {
        v[k + i] = a[i];
        i += 1;
    }
    proof {
        assert(final(v)@.subrange(k as int, k + N) =~= a@);
    }
}

/// Writes the bytes of a slice at offset `k`, leaving every other byte
/// unchanged.
pub fn write_slice(v: &mut Vec<u8>, k: usize, s: &[u8])
    requires
        k + s@.len() <= old(v)@.len(),
    ensures
        final(v)@.len() == old(v)@.len(),
        forall|j: int|
            0 <= j < old(v)@.len() && !(k <= j < k + s@.len()) ==> final(v)@[j] == old(v)@[j],
        final(v)@.subrange(k as int, k + s@.len()) == s@,
{
    let _len: usize = v.len();
    let n: usize = s.len();
    let mut i: usize = 0;
    while i < n
        invariant
            i <= n,
            n == s@.len(),
            k + n <= old(v)@.len(),
            old(v)@.len() <= usize::MAX,
            v@.len() == old(v)@.len(),
            forall|j: int| 0 <= j < old(v)@.len() && !(k <= j < k + i) ==> v@[j] == old(v)@[j],
            forall|j: int| 0 <= j < i ==> v@[k + j] == s@[j],
        decreases n - i,
    {
        v[k + i] = s[i];
        i += 1;
    }
    proof {
        assert(final(v)@.subrange(k as int, k + s@.len()) =~= s@);
    }
}

/// Reads a fixed-size byte array starting at byte offset `k`.
pub fn read_array<const N: usize>(b: &[u8], k: usize) -> (r: [u8; N])
    requires
        k + N <= b@.len(),
    ensures
        r@ == b@.subrange(k as int, k + N),
{
    let mut r: [u8; N] = [0u8; N];
    let blen: usize = b.len();
    let mut i: usize = 0;
    while i < N
        invariant
            i <= N,
            blen == b@.len(),
            k + N <= blen,
            r@.len() == N,
            forall|j: int| 0 <= j < i ==> r@[j] == b@[k + j],
        decreases N - i,
    {
        r[i] = b[k + i];
        i += 1;
    }
    proof {
        assert(r@ =~= b@.subrange(k as int, k + N));
    }
    r
}

/// Two digit strings with the same 16-bit big-endian value are equal.
proof fn lemma_be16_digits_unique(a0: u8, a1: u8, c0: u8, c1: u8)
    by (bit_vector)
    requires
        a0 * 0x100 + a1 == c0 * 0x100 + c1,
    ensures
        a0 == c0,
        a1 == c1,
{
}

/// Two digit strings with the same 32-bit big-endian value are equal.
proof fn lemma_be32_digits_unique(a0: u8, a1: u8, a2: u8, a3: u8, c0: u8, c1: u8, c2: u8, c3: u8)
    by (bit_vector)
    requires
        a0 * 0x100_0000 + a1 * 0x1_0000 + a2 * 0x100 + a3 == c0 * 0x100_0000 + c1 * 0x1_0000 + c2
            * 0x100 + c3,
    ensures
        a0 == c0,
        a1 == c1,
        a2 == c2,
        a3 == c3,
{
}

/// Two digit strings with the same 64-bit big-endian value are equal.
proof fn lemma_be64_digits_unique(
    a0: u8,
    a1: u8,
    a2: u8,
    a3: u8,
    a4: u8,
    a5: u8,
    a6: u8,
    a7: u8,
    c0: u8,
    c1: u8,
    c2: u8,
    c3: u8,
    c4: u8,
    c5: u8,
    c6: u8,
    c7: u8,
)
    by (bit_vector)
    requires
        a0 * 0x100_0000_0000_0000 + a1 * 0x1_0000_0000_0000 + a2 * 0x100_0000_0000 + a3
            * 0x1_0000_0000 + a4 * 0x100_0000 + a5 * 0x1_0000 + a6 * 0x100 + a7 == c0
            * 0x100_0000_0000_0000 + c1 * 0x1_0000_0000_0000 + c2 * 0x100_0000_0000 + c3
            * 0x1_0000_0000 + c4 * 0x100_0000 + c5 * 0x1_0000 + c6 * 0x100 + c7,
    ensures
        a0 == c0,
        a1 == c1,
        a2 == c2,
        a3 == c3,
        a4 == c4,
        a5 == c5,
        a6 == c6,
        a7 == c7,
{
}

/// Law: a 16-bit big-endian field determines its two bytes.
pub proof fn lemma_spec_be16_injective(b1: Seq<u8>, b2: Seq<u8>, k1: int, k2: int)
    requires
        0 <= k1 && k1 + 2 <= b1.len(),
        0 <= k2 && k2 + 2 <= b2.len(),
        spec_be16(b1, k1) == spec_be16(b2, k2),
    ensures
        forall|t: int| 0 <= t < 2 ==> #[trigger] b1[k1 + t] == b2[k2 + t],
{
    lemma_be16_digits_unique(b1[k1], b1[k1 + 1], b2[k2], b2[k2 + 1]);
    assert forall|t: int| 0 <= t < 2 implies #[trigger] b1[k1 + t] == b2[k2 + t] by {
        if t == 0 {
        } else {
            assert(t == 1);
        }
    }
}

/// Law: a 32-bit big-endian field determines its four bytes.
pub proof fn lemma_spec_be32_injective(b1: Seq<u8>, b2: Seq<u8>, k1: int, k2: int)
    requires
        0 <= k1 && k1 + 4 <= b1.len(),
        0 <= k2 && k2 + 4 <= b2.len(),
        spec_be32(b1, k1) == spec_be32(b2, k2),
    ensures
        forall|t: int| 0 <= t < 4 ==> #[trigger] b1[k1 + t] == b2[k2 + t],
{
    lemma_be32_digits_unique(
        b1[k1],
        b1[k1 + 1],
        b1[k1 + 2],
        b1[k1 + 3],
        b2[k2],
        b2[k2 + 1],
        b2[k2 + 2],
        b2[k2 + 3],
    );
    assert forall|t: int| 0 <= t < 4 implies #[trigger] b1[k1 + t] == b2[k2 + t] by {
        assert(t == 0 || t == 1 || t == 2 || t == 3);
    }
}

/// Law: a 64-bit big-endian field determines its eight bytes.
pub proof fn lemma_spec_be64_injective(b1: Seq<u8>, b2: Seq<u8>, k1: int, k2: int)
    requires
        0 <= k1 && k1 + 8 <= b1.len(),
        0 <= k2 && k2 + 8 <= b2.len(),
        spec_be64(b1, k1) == spec_be64(b2, k2),
    ensures
        forall|t: int| 0 <= t < 8 ==> #[trigger] b1[k1 + t] == b2[k2 + t],
{
    lemma_be64_digits_unique(
        b1[k1],
        b1[k1 + 1],
        b1[k1 + 2],
        b1[k1 + 3],
        b1[k1 + 4],
        b1[k1 + 5],
        b1[k1 + 6],
        b1[k1 + 7],
        b2[k2],
        b2[k2 + 1],
        b2[k2 + 2],
        b2[k2 + 3],
        b2[k2 + 4],
        b2[k2 + 5],
        b2[k2 + 6],
        b2[k2 + 7],
    );
    assert forall|t: int| 0 <= t < 8 implies #[trigger] b1[k1 + t] == b2[k2 + t] by {
        assert(t == 0 || t == 1 || t == 2 || t == 3 || t == 4 || t == 5 || t == 6 || t == 7);
    }
}

/// Law: a 32-bit little-endian field determines its four bytes.
pub proof fn lemma_spec_le32_injective(b1: Seq<u8>, b2: Seq<u8>, k1: int, k2: int)
    requires
        0 <= k1 && k1 + 4 <= b1.len(),
        0 <= k2 && k2 + 4 <= b2.len(),
        spec_le32(b1, k1) == spec_le32(b2, k2),
    ensures
        forall|t: int| 0 <= t < 4 ==> #[trigger] b1[k1 + t] == b2[k2 + t],
{
    lemma_be32_digits_unique(
        b1[k1 + 3],
        b1[k1 + 2],
        b1[k1 + 1],
        b1[k1],
        b2[k2 + 3],
        b2[k2 + 2],
        b2[k2 + 1],
        b2[k2],
    );
    assert forall|t: int| 0 <= t < 4 implies #[trigger] b1[k1 + t] == b2[k2 + t] by {
        assert(t == 0 || t == 1 || t == 2 || t == 3);
    }
}

} // verus!
