//! The MAD envelope and the user-MAD wrapper the kernel device speaks.

use vstd::prelude::*;
use vstd::slice::slice_subrange;
use crate::mad::wire::{
    lemma_spec_be16_injective, lemma_spec_be32_injective, lemma_spec_be64_injective,
    lemma_spec_le32_injective, read_array, read_be16, read_be32, read_be64, read_le32, spec_be16,
    spec_be32, spec_be64, spec_le32, write_array, write_be16, write_be32, write_be64, write_le32,
    write_slice, write_u8, zero_vec,
};

verus! {

/// The 256-byte MAD envelope: version, class, method, status, hop fields,
/// transaction identifier, attribute identifier and modifier, and payload.
/// Multi-byte fields are big-endian on the wire and held here in host order.
#[derive(Clone, Copy, Debug)]
#[allow(non_camel_case_types)]
pub struct ib_mad {
    pub base_version: u8,
    pub mgmt_class: u8,
    pub class_version: u8,
    pub method: u8,
    pub status: u16,
    pub hop_ptr: u8,
    pub hop_cnt: u8,
    pub tid: u64,
    pub attr_id: u16,
    pub additional_status: u16,
    pub attr_mod: u32,
    pub data: [u8; 232],
}

/// The wire form of a MAD envelope; every byte is covered by exactly one
/// field, so the relation pins encoding and decoding at once.
pub open spec fn ib_mad_wire(r: ib_mad, b: Seq<u8>) -> bool {
    &&& b.len() == 256
    &&& b[0] == r.base_version
    &&& b[1] == r.mgmt_class
    &&& b[2] == r.class_version
    &&& b[3] == r.method
    &&& spec_be16(b, 4) == r.status as nat
    &&& b[6] == r.hop_ptr
    &&& b[7] == r.hop_cnt
    &&& spec_be64(b, 8) == r.tid as nat
    &&& spec_be16(b, 16) == r.attr_id as nat
    &&& spec_be16(b, 18) == r.additional_status as nat
    &&& spec_be32(b, 20) == r.attr_mod as nat
    &&& b.subrange(24, 256) == r.data@
}

/// Law: the wire form determines the envelope.  Together with the codec
/// contracts this gives the round trip `from_bytes(to_bytes(r)) == Some(r)`.
pub proof fn lemma_ib_mad_wire_deterministic(r1: ib_mad, r2: ib_mad, b: Seq<u8>)
    requires
        ib_mad_wire(r1, b),
        ib_mad_wire(r2, b),
    ensures
        r1 == r2,
{
    assert(r1.data =~= r2.data);
}

/// Law: an envelope also determines its wire bytes, so encoding is
/// unique; together with [`lemma_ib_mad_wire_deterministic`] the wire
/// relation is a bijection between envelopes and their 256-byte images.
pub proof fn lemma_ib_mad_bytes_deterministic(r: ib_mad, b1: Seq<u8>, b2: Seq<u8>)
    requires
        ib_mad_wire(r, b1),
        ib_mad_wire(r, b2),
    ensures
        b1 == b2,
{
    lemma_spec_be16_injective(b1, b2, 4, 4);
    lemma_spec_be64_injective(b1, b2, 8, 8);
    lemma_spec_be16_injective(b1, b2, 16, 16);
    lemma_spec_be16_injective(b1, b2, 18, 18);
    lemma_spec_be32_injective(b1, b2, 20, 20);
    assert forall|j: int| 0 <= j < 256 implies b1[j] == b2[j] by {
        if 4 <= j < 6 {
            assert(b1[4 + (j - 4)] == b2[4 + (j - 4)]);
        } else if 8 <= j < 16 {
            assert(b1[8 + (j - 8)] == b2[8 + (j - 8)]);
        } else if 16 <= j < 18 {
            assert(b1[16 + (j - 16)] == b2[16 + (j - 16)]);
        } else if 18 <= j < 20 {
            assert(b1[18 + (j - 18)] == b2[18 + (j - 18)]);
        } else if 20 <= j < 24 {
            assert(b1[20 + (j - 20)] == b2[20 + (j - 20)]);
        } else if 24 <= j < 256 {
            assert(b1.subrange(24, 256)[j - 24] == b2.subrange(24, 256)[j - 24]);
        }
    }
    assert(b1 =~= b2);
}

impl ib_mad {
    /// Encodes the envelope into its exact 256-byte wire form.
    pub fn to_bytes(&self) -> (r: Vec<u8>)
        ensures
            r@.len() == 256,
            ib_mad_wire(*self, r@),
    {
        let mut out = zero_vec(256);
        write_u8(&mut out, 0, self.base_version);
        write_u8(&mut out, 1, self.mgmt_class);
        write_u8(&mut out, 2, self.class_version);
        write_u8(&mut out, 3, self.method);
        write_be16(&mut out, 4, self.status);
        write_u8(&mut out, 6, self.hop_ptr);
        write_u8(&mut out, 7, self.hop_cnt);
        write_be64(&mut out, 8, self.tid);
        write_be16(&mut out, 16, self.attr_id);
        write_be16(&mut out, 18, self.additional_status);
        write_be32(&mut out, 20, self.attr_mod);
        write_array(&mut out, 24, &self.data);
        out
    }

    /// Decodes an envelope from at least 256 bytes; trailing bytes are
    /// ignored.  Returns `None` exactly when the buffer is shorter.
    pub fn from_bytes(bytes: &[u8]) -> (r: Option<Self>)
        ensures
            match r {
                Some(m) => bytes@.len() >= 256 && ib_mad_wire(m, bytes@.take(256)),
                None => bytes@.len() < 256,
            },
    {
        if bytes.len() < 256 {
            return None;
        }
        let r = ib_mad {
            base_version: bytes[0],
            mgmt_class: bytes[1],
            class_version: bytes[2],
            method: bytes[3],
            status: read_be16(bytes, 4),
            hop_ptr: bytes[6],
            hop_cnt: bytes[7],
            tid: read_be64(bytes, 8),
            attr_id: read_be16(bytes, 16),
            additional_status: read_be16(bytes, 18),
            attr_mod: read_be32(bytes, 20),
            data: read_array::<232>(bytes, 24),
        };
        proof {
            assert(bytes@.take(256).subrange(24, 256) =~= r.data@);
        }
        Some(r)
    }
}

/// The 44-byte address record inside a user-MAD: queue pair, queue key,
/// link-layer id, service level, GRH fields and partition-key index.
/// Multi-byte fields are big-endian on the wire and held here in host order.
#[derive(Clone, Copy, Debug)]
#[allow(non_camel_case_types)]
pub struct ib_mad_addr {
    pub qpn: u32,
    pub qkey: u32,
    pub lid: u16,
    pub sl: u8,
    pub path_bits: u8,
    pub grh_present: u8,
    pub gid_index: u8,
    pub hop_limit: u8,
    pub traffic_class: u8,
    pub gid: [u8; 16],
    pub flow_label: u32,
    pub pkey_index: u16,
    pub reserved: [u8; 6],
}

/// The wire form of an address record; every byte is covered by exactly
/// one field, so the relation pins encoding and decoding at once.
pub open spec fn ib_mad_addr_wire(r: ib_mad_addr, b: Seq<u8>) -> bool {
    &&& b.len() == 44
    &&& spec_be32(b, 0) == r.qpn as nat
    &&& spec_be32(b, 4) == r.qkey as nat
    &&& spec_be16(b, 8) == r.lid as nat
    &&& b[10] == r.sl
    &&& b[11] == r.path_bits
    &&& b[12] == r.grh_present
    &&& b[13] == r.gid_index
    &&& b[14] == r.hop_limit
    &&& b[15] == r.traffic_class
    &&& b.subrange(16, 32) == r.gid@
    &&& spec_be32(b, 32) == r.flow_label as nat
    &&& spec_be16(b, 36) == r.pkey_index as nat
    &&& b.subrange(38, 44) == r.reserved@
}

/// Law: the wire form determines the address record.  Together with the
/// codec contracts this gives the round trip
/// `from_bytes(to_bytes(r)) == Some(r)`.
pub proof fn lemma_ib_mad_addr_wire_deterministic(r1: ib_mad_addr, r2: ib_mad_addr, b: Seq<u8>)
    requires
        ib_mad_addr_wire(r1, b),
        ib_mad_addr_wire(r2, b),
    ensures
        r1 == r2,
{
    assert(r1.gid =~= r2.gid);
    assert(r1.reserved =~= r2.reserved);
}

/// Law: an address record also determines its wire bytes, so encoding is
/// unique; together with [`lemma_ib_mad_addr_wire_deterministic`] the
/// wire relation is a bijection between records and their 44-byte images.
pub proof fn lemma_ib_mad_addr_bytes_deterministic(r: ib_mad_addr, b1: Seq<u8>, b2: Seq<u8>)
    requires
        ib_mad_addr_wire(r, b1),
        ib_mad_addr_wire(r, b2),
    ensures
        b1 == b2,
{
    lemma_spec_be32_injective(b1, b2, 0, 0);
    lemma_spec_be32_injective(b1, b2, 4, 4);
    lemma_spec_be16_injective(b1, b2, 8, 8);
    lemma_spec_be32_injective(b1, b2, 32, 32);
    lemma_spec_be16_injective(b1, b2, 36, 36);
    assert forall|j: int| 0 <= j < 44 implies b1[j] == b2[j] by {
        if 0 <= j < 4 {
            assert(b1[0 + j] == b2[0 + j]);
        } else if 4 <= j < 8 {
            assert(b1[4 + (j - 4)] == b2[4 + (j - 4)]);
        } else if 8 <= j < 10 {
            assert(b1[8 + (j - 8)] == b2[8 + (j - 8)]);
        } else if 16 <= j < 32 {
            assert(b1.subrange(16, 32)[j - 16] == b2.subrange(16, 32)[j - 16]);
        } else if 32 <= j < 36 {
            assert(b1[32 + (j - 32)] == b2[32 + (j - 32)]);
        } else if 36 <= j < 38 {
            assert(b1[36 + (j - 36)] == b2[36 + (j - 36)]);
        } else if 38 <= j < 44 {
            assert(b1.subrange(38, 44)[j - 38] == b2.subrange(38, 44)[j - 38]);
        }
    }
    assert(b1 =~= b2);
}

impl ib_mad_addr {
    /// Encodes the address record into its exact 44-byte wire form.
    pub fn to_bytes(&self) -> (r: Vec<u8>)
        ensures
            r@.len() == 44,
            ib_mad_addr_wire(*self, r@),
    {
        let mut out = zero_vec(44);
        write_be32(&mut out, 0, self.qpn);
        write_be32(&mut out, 4, self.qkey);
        write_be16(&mut out, 8, self.lid);
        write_u8(&mut out, 10, self.sl);
        write_u8(&mut out, 11, self.path_bits);
        write_u8(&mut out, 12, self.grh_present);
        write_u8(&mut out, 13, self.gid_index);
        write_u8(&mut out, 14, self.hop_limit);
        write_u8(&mut out, 15, self.traffic_class);
        write_array(&mut out, 16, &self.gid);
        write_be32(&mut out, 32, self.flow_label);
        write_be16(&mut out, 36, self.pkey_index);
        write_array(&mut out, 38, &self.reserved);
        proof {
            assert(out@.subrange(16, 32) =~= self.gid@);
        }
        out
    }

    /// Decodes an address record from at least 44 bytes; trailing bytes
    /// are ignored.  Returns `None` exactly when the buffer is shorter.
    pub fn from_bytes(bytes: &[u8]) -> (r: Option<Self>)
        ensures
            match r {
                Some(a) => bytes@.len() >= 44 && ib_mad_addr_wire(a, bytes@.take(44)),
                None => bytes@.len() < 44,
            },
    {
        if bytes.len() < 44 {
            return None;
        }
        let r = ib_mad_addr {
            qpn: read_be32(bytes, 0),
            qkey: read_be32(bytes, 4),
            lid: read_be16(bytes, 8),
            sl: bytes[10],
            path_bits: bytes[11],
            grh_present: bytes[12],
            gid_index: bytes[13],
            hop_limit: bytes[14],
            traffic_class: bytes[15],
            gid: read_array::<16>(bytes, 16),
            flow_label: read_be32(bytes, 32),
            pkey_index: read_be16(bytes, 36),
            reserved: read_array::<6>(bytes, 38),
        };
        proof {
            assert(bytes@.take(44).subrange(16, 32) =~= r.gid@);
            assert(bytes@.take(44).subrange(38, 44) =~= r.reserved@);
        }
        Some(r)
    }
}

/// The 320-byte user-MAD: the header the kernel consumes (agent id,
/// status, timeout, retries, length; little-endian), the address record,
/// and the 256-byte MAD envelope.
#[derive(Clone, Copy, Debug)]
#[allow(non_camel_case_types)]
pub struct ib_user_mad {
    pub agent_id: u32,
    pub status: u32,
    pub timeout_ms: u32,
    pub retries: u32,
    pub length: u32,
    pub addr: ib_mad_addr,
    pub data: [u8; 256],
}

/// The wire form of a user-MAD; every byte is covered by exactly one
/// field, so the relation pins encoding and decoding at once.
pub open spec fn ib_user_mad_wire(r: ib_user_mad, b: Seq<u8>) -> bool {
    &&& b.len() == 320
    &&& spec_le32(b, 0) == r.agent_id as nat
    &&& spec_le32(b, 4) == r.status as nat
    &&& spec_le32(b, 8) == r.timeout_ms as nat
    &&& spec_le32(b, 12) == r.retries as nat
    &&& spec_le32(b, 16) == r.length as nat
    &&& ib_mad_addr_wire(r.addr, b.subrange(20, 64))
    &&& b.subrange(64, 320) == r.data@
}

/// Law: the wire form determines the user-MAD.  Together with the codec
/// contracts this gives the round trip `from_bytes(to_bytes(r)) == Some(r)`.
pub proof fn lemma_ib_user_mad_wire_deterministic(r1: ib_user_mad, r2: ib_user_mad, b: Seq<u8>)
    requires
        ib_user_mad_wire(r1, b),
        ib_user_mad_wire(r2, b),
    ensures
        r1 == r2,
{
    lemma_ib_mad_addr_wire_deterministic(r1.addr, r2.addr, b.subrange(20, 64));
    assert(r1.data =~= r2.data);
}

/// Law: a user-MAD also determines its wire bytes, so encoding is
/// unique; together with [`lemma_ib_user_mad_wire_deterministic`] the
/// wire relation is a bijection between records and their 320-byte
/// images.
pub proof fn lemma_ib_user_mad_bytes_deterministic(r: ib_user_mad, b1: Seq<u8>, b2: Seq<u8>)
    requires
        ib_user_mad_wire(r, b1),
        ib_user_mad_wire(r, b2),
    ensures
        b1 == b2,
{
    lemma_spec_le32_injective(b1, b2, 0, 0);
    lemma_spec_le32_injective(b1, b2, 4, 4);
    lemma_spec_le32_injective(b1, b2, 8, 8);
    lemma_spec_le32_injective(b1, b2, 12, 12);
    lemma_spec_le32_injective(b1, b2, 16, 16);
    lemma_ib_mad_addr_bytes_deterministic(r.addr, b1.subrange(20, 64), b2.subrange(20, 64));
    assert forall|j: int| 0 <= j < 320 implies b1[j] == b2[j] by {
        if 0 <= j < 4 {
            assert(b1[0 + j] == b2[0 + j]);
        } else if 4 <= j < 8 {
            assert(b1[4 + (j - 4)] == b2[4 + (j - 4)]);
        } else if 8 <= j < 12 {
            assert(b1[8 + (j - 8)] == b2[8 + (j - 8)]);
        } else if 12 <= j < 16 {
            assert(b1[12 + (j - 12)] == b2[12 + (j - 12)]);
        } else if 16 <= j < 20 {
            assert(b1[16 + (j - 16)] == b2[16 + (j - 16)]);
        } else if 20 <= j < 64 {
            assert(b1.subrange(20, 64)[j - 20] == b2.subrange(20, 64)[j - 20]);
        } else {
            assert(b1.subrange(64, 320)[j - 64] == b2.subrange(64, 320)[j - 64]);
        }
    }
    assert(b1 =~= b2);
}

impl ib_user_mad {
    /// Encodes the user-MAD into its exact 320-byte wire form.
    pub fn to_bytes(&self) -> (r: Vec<u8>)
        ensures
            r@.len() == 320,
            ib_user_mad_wire(*self, r@),
    {
        let mut out = zero_vec(320);
        write_le32(&mut out, 0, self.agent_id);
        write_le32(&mut out, 4, self.status);
        write_le32(&mut out, 8, self.timeout_ms);
        write_le32(&mut out, 12, self.retries);
        write_le32(&mut out, 16, self.length);
        let addr_bytes = self.addr.to_bytes();
        write_slice(&mut out, 20, addr_bytes.as_slice());
        write_array(&mut out, 64, &self.data);
        proof {
            assert(out@.subrange(20, 64) =~= addr_bytes@);
        }
        out
    }

    /// Decodes a user-MAD from at least 320 bytes; trailing bytes are
    /// ignored.  Returns `None` exactly when the buffer is shorter.
    pub fn from_bytes(bytes: &[u8]) -> (r: Option<Self>)
        ensures
            match r {
                Some(u) => bytes@.len() >= 320 && ib_user_mad_wire(u, bytes@.take(320)),
                None => bytes@.len() < 320,
            },
    {
        if bytes.len() < 320 {
            return None;
        }
        let addr_bytes = slice_subrange(bytes, 20, 64);
        let addr = match ib_mad_addr::from_bytes(addr_bytes) {
            Some(a) => a,
            None => {
                return None;
            },
        };
        let r = ib_user_mad {
            agent_id: read_le32(bytes, 0),
            status: read_le32(bytes, 4),
            timeout_ms: read_le32(bytes, 8),
            retries: read_le32(bytes, 12),
            length: read_le32(bytes, 16),
            addr,
            data: read_array::<256>(bytes, 64),
        };
        proof {
            assert(bytes@.take(320).subrange(20, 64) =~= bytes@.subrange(20, 64));
            assert(bytes@.subrange(20, 64).take(44) =~= bytes@.subrange(20, 64));
            assert(bytes@.take(320).subrange(64, 320) =~= r.data@);
        }
        Some(r)
    }

    /// The transaction identifier of the MAD envelope embedded in this
    /// user-MAD, read from the envelope's wire bytes.
    pub fn get_tid(&self) -> (r: u64)
        ensures
            r as nat == spec_be64(self.data@, 8),
    {
        read_be64(&self.data, 8)
    }

    /// Whether the embedded MAD envelopes of two user-MADs carry the same
    /// transaction identifier.
    pub fn is_tid_equal(&self, other: &Self) -> (r: bool)
        ensures
            r == (spec_be64(self.data@, 8) == spec_be64(other.data@, 8)),
    {
        self.get_tid() == other.get_tid()
    }
}

} // verus!
