//! The byte-aligned 64-byte NodeInfo attribute record.

use vstd::prelude::*;
use crate::mad::wire::{
    lemma_spec_be16_injective, lemma_spec_be32_injective, lemma_spec_be64_injective, read_array,
    read_be16, read_be32, read_be64, spec_be16, spec_be32, spec_be64, write_array, write_be16,
    write_be32, write_be64, write_u8, zero_vec,
};

verus! {

/// NodeInfo: identity, kind and port count of a fabric node.
#[derive(Clone, Copy, Debug)]
#[allow(non_camel_case_types)]
pub struct node_info {
    pub base_version: u8,
    pub class_version: u8,
    pub node_type: u8,
    pub nports: u8,
    pub system_guid: u64,
    pub node_guid: u64,
    pub port_guid: u64,
    pub partition_cap: u16,
    pub device_id: u16,
    pub revision: u32,
    pub local_port: u8,
    pub vendor_id: [u8; 3],
    pub reserved: [u8; 24],
}

/// The wire form of a NodeInfo record: every byte of the 64-byte layout is
/// determined by exactly one field, and every field by its bytes, so the
/// relation pins encoding and decoding at once.
pub open spec fn node_info_wire(r: node_info, b: Seq<u8>) -> bool {
    &&& b.len() == 64
    &&& b[0] == r.base_version
    &&& b[1] == r.class_version
    &&& b[2] == r.node_type
    &&& b[3] == r.nports
    &&& spec_be64(b, 4) == r.system_guid as nat
    &&& spec_be64(b, 12) == r.node_guid as nat
    &&& spec_be64(b, 20) == r.port_guid as nat
    &&& spec_be16(b, 28) == r.partition_cap as nat
    &&& spec_be16(b, 30) == r.device_id as nat
    &&& spec_be32(b, 32) == r.revision as nat
    &&& b[36] == r.local_port
    &&& b.subrange(37, 40) == r.vendor_id@
    &&& b.subrange(40, 64) == r.reserved@
}

/// Law: the wire form determines the record.  Together with the codec
/// contracts this gives the round trip `from_bytes(to_bytes(r)) == Some(r)`.
pub proof fn lemma_node_info_wire_deterministic(r1: node_info, r2: node_info, b: Seq<u8>)
    requires
        node_info_wire(r1, b),
        node_info_wire(r2, b),
    ensures
        r1 == r2,
{
    assert(r1.vendor_id@ =~= r2.vendor_id@);
    assert(r1.vendor_id =~= r2.vendor_id);
    assert(r1.reserved@ =~= r2.reserved@);
    assert(r1.reserved =~= r2.reserved);
}

/// Law: a record also determines its wire bytes, so encoding is unique;
/// together with [`lemma_node_info_wire_deterministic`] the wire relation
/// is a bijection between records and their 64-byte images.
pub proof fn lemma_node_info_bytes_deterministic(r: node_info, b1: Seq<u8>, b2: Seq<u8>)
    requires
        node_info_wire(r, b1),
        node_info_wire(r, b2),
    ensures
        b1 == b2,
{
    lemma_spec_be64_injective(b1, b2, 4, 4);
    lemma_spec_be64_injective(b1, b2, 12, 12);
    lemma_spec_be64_injective(b1, b2, 20, 20);
    lemma_spec_be16_injective(b1, b2, 28, 28);
    lemma_spec_be16_injective(b1, b2, 30, 30);
    lemma_spec_be32_injective(b1, b2, 32, 32);
    assert forall|j: int| 0 <= j < 64 implies b1[j] == b2[j] by {
        if 4 <= j < 12 {
            assert(b1[4 + (j - 4)] == b2[4 + (j - 4)]);
        } else if 12 <= j < 20 {
            assert(b1[12 + (j - 12)] == b2[12 + (j - 12)]);
        } else if 20 <= j < 28 {
            assert(b1[20 + (j - 20)] == b2[20 + (j - 20)]);
        } else if 28 <= j < 30 {
            assert(b1[28 + (j - 28)] == b2[28 + (j - 28)]);
        } else if 30 <= j < 32 {
            assert(b1[30 + (j - 30)] == b2[30 + (j - 30)]);
        } else if 32 <= j < 36 {
            assert(b1[32 + (j - 32)] == b2[32 + (j - 32)]);
        } else if 37 <= j < 40 {
            assert(b1.subrange(37, 40)[j - 37] == b2.subrange(37, 40)[j - 37]);
        } else if 40 <= j < 64 {
            assert(b1.subrange(40, 64)[j - 40] == b2.subrange(40, 64)[j - 40]);
        }
    }
    assert(b1 =~= b2);
}

impl node_info {
    /// Encodes the record into its exact 64-byte wire form.
    pub fn to_bytes(&self) -> (r: Vec<u8>)
        ensures
            r@.len() == 64,
            node_info_wire(*self, r@),
    {
        let mut out = zero_vec(64);
        write_u8(&mut out, 0, self.base_version);
        write_u8(&mut out, 1, self.class_version);
        write_u8(&mut out, 2, self.node_type);
        write_u8(&mut out, 3, self.nports);
        write_be64(&mut out, 4, self.system_guid);
        write_be64(&mut out, 12, self.node_guid);
        write_be64(&mut out, 20, self.port_guid);
        write_be16(&mut out, 28, self.partition_cap);
        write_be16(&mut out, 30, self.device_id);
        write_be32(&mut out, 32, self.revision);
        write_u8(&mut out, 36, self.local_port);
        write_array(&mut out, 37, &self.vendor_id);
        write_array(&mut out, 40, &self.reserved);
        proof {
            assert(out@.subrange(37, 40) =~= self.vendor_id@);
        }
        out
    }

    /// Decodes a record from at least 64 bytes; trailing bytes are ignored.
    /// Returns `None` exactly when the buffer is shorter than 64 bytes.
    pub fn from_bytes(bytes: &[u8]) -> (r: Option<Self>)
        ensures
            match r {
                Some(ni) => bytes@.len() >= 64 && node_info_wire(ni, bytes@.take(64)),
                None => bytes@.len() < 64,
            },
    {
        if bytes.len() < 64 {
            return None;
        }
        let r = node_info {
            base_version: bytes[0],
            class_version: bytes[1],
            node_type: bytes[2],
            nports: bytes[3],
            system_guid: read_be64(bytes, 4),
            node_guid: read_be64(bytes, 12),
            port_guid: read_be64(bytes, 20),
            partition_cap: read_be16(bytes, 28),
            device_id: read_be16(bytes, 30),
            revision: read_be32(bytes, 32),
            local_port: bytes[36],
            vendor_id: read_array::<3>(bytes, 37),
            reserved: read_array::<24>(bytes, 40),
        };
        proof {
            assert(bytes@.take(64).subrange(37, 40) =~= r.vendor_id@);
            assert(bytes@.take(64).subrange(40, 64) =~= r.reserved@);
        }
        Some(r)
    }
}

} // verus!
