//! The 232-byte directed-route SMP payload.

use vstd::prelude::*;
use crate::mad::wire::{
    lemma_spec_be16_injective, lemma_spec_be64_injective, read_array, read_be16, read_be64,
    spec_be16, spec_be64, write_array, write_be16, write_be64, zero_vec,
};

verus! {

/// Directed-route SMP payload: management key, source/destination DR
/// link-ids, the 64-byte attribute layout and the initial and return paths.
#[derive(Clone, Copy, Debug)]
#[allow(non_camel_case_types)]
pub struct dr_smp_mad {
    pub m_key: u64,
    pub drslid: u16,
    pub drdlid: u16,
    pub reserved: [u8; 28],
    pub attr_layout: [u8; 64],
    pub initial_path: [u8; 64],
    pub return_path: [u8; 64],
}

/// The wire form of a DR SMP payload; every byte is covered by exactly one
/// field, so the relation pins encoding and decoding at once.
pub open spec fn dr_smp_wire(r: dr_smp_mad, b: Seq<u8>) -> bool {
    &&& b.len() == 232
    &&& spec_be64(b, 0) == r.m_key as nat
    &&& spec_be16(b, 8) == r.drslid as nat
    &&& spec_be16(b, 10) == r.drdlid as nat
    &&& b.subrange(12, 40) == r.reserved@
    &&& b.subrange(40, 104) == r.attr_layout@
    &&& b.subrange(104, 168) == r.initial_path@
    &&& b.subrange(168, 232) == r.return_path@
}

/// Law: the wire form determines the payload.  Together with the codec
/// contracts this gives the round trip `from_bytes(to_bytes(r)) == Some(r)`.
pub proof fn lemma_dr_smp_wire_deterministic(r1: dr_smp_mad, r2: dr_smp_mad, b: Seq<u8>)
    requires
        dr_smp_wire(r1, b),
        dr_smp_wire(r2, b),
    ensures
        r1 == r2,
{
    assert(r1.reserved =~= r2.reserved);
    assert(r1.attr_layout =~= r2.attr_layout);
    assert(r1.initial_path =~= r2.initial_path);
    assert(r1.return_path =~= r2.return_path);
}

/// Law: a payload also determines its wire bytes, so encoding is unique;
/// together with [`lemma_dr_smp_wire_deterministic`] the wire relation is
/// a bijection between payloads and their 232-byte images.
pub proof fn lemma_dr_smp_bytes_deterministic(r: dr_smp_mad, b1: Seq<u8>, b2: Seq<u8>)
    requires
        dr_smp_wire(r, b1),
        dr_smp_wire(r, b2),
    ensures
        b1 == b2,
{
    lemma_spec_be64_injective(b1, b2, 0, 0);
    lemma_spec_be16_injective(b1, b2, 8, 8);
    lemma_spec_be16_injective(b1, b2, 10, 10);
    assert forall|j: int| 0 <= j < 232 implies b1[j] == b2[j] by {
        if 0 <= j < 8 {
            assert(b1[0 + j] == b2[0 + j]);
        } else if 8 <= j < 10 {
            assert(b1[8 + (j - 8)] == b2[8 + (j - 8)]);
        } else if 10 <= j < 12 {
            assert(b1[10 + (j - 10)] == b2[10 + (j - 10)]);
        } else if 12 <= j < 40 {
            assert(b1.subrange(12, 40)[j - 12] == b2.subrange(12, 40)[j - 12]);
        } else if 40 <= j < 104 {
            assert(b1.subrange(40, 104)[j - 40] == b2.subrange(40, 104)[j - 40]);
        } else if 104 <= j < 168 {
            assert(b1.subrange(104, 168)[j - 104] == b2.subrange(104, 168)[j - 104]);
        } else {
            assert(b1.subrange(168, 232)[j - 168] == b2.subrange(168, 232)[j - 168]);
        }
    }
    assert(b1 =~= b2);
}

impl dr_smp_mad {
    /// Encodes the payload into its exact 232-byte wire form.
    pub fn to_bytes(&self) -> (r: Vec<u8>)
        ensures
            r@.len() == 232,
            dr_smp_wire(*self, r@),
    {
        let mut out = zero_vec(232);
        write_be64(&mut out, 0, self.m_key);
        write_be16(&mut out, 8, self.drslid);
        write_be16(&mut out, 10, self.drdlid);
        write_array(&mut out, 12, &self.reserved);
        write_array(&mut out, 40, &self.attr_layout);
        write_array(&mut out, 104, &self.initial_path);
        write_array(&mut out, 168, &self.return_path);
        proof {
            assert(out@.subrange(12, 40) =~= self.reserved@);
            assert(out@.subrange(40, 104) =~= self.attr_layout@);
            assert(out@.subrange(104, 168) =~= self.initial_path@);
        }
        out
    }

    /// Decodes a payload from at least 232 bytes; trailing bytes are
    /// ignored.  Returns `None` exactly when the buffer is shorter.
    pub fn from_bytes(bytes: &[u8]) -> (r: Option<Self>)
        ensures
            match r {
                Some(dr) => bytes@.len() >= 232 && dr_smp_wire(dr, bytes@.take(232)),
                None => bytes@.len() < 232,
            },
    {
        if bytes.len() < 232 {
            return None;
        }
        let r = dr_smp_mad {
            m_key: read_be64(bytes, 0),
            drslid: read_be16(bytes, 8),
            drdlid: read_be16(bytes, 10),
            reserved: read_array::<28>(bytes, 12),
            attr_layout: read_array::<64>(bytes, 40),
            initial_path: read_array::<64>(bytes, 104),
            return_path: read_array::<64>(bytes, 168),
        };
        proof {
            assert(bytes@.take(232).subrange(12, 40) =~= r.reserved@);
            assert(bytes@.take(232).subrange(40, 104) =~= r.attr_layout@);
            assert(bytes@.take(232).subrange(104, 168) =~= r.initial_path@);
            assert(bytes@.take(232).subrange(168, 232) =~= r.return_path@);
        }
        Some(r)
    }
}

} // verus!
