//! The bit-packed 64-byte PortInfo attribute record.

use vstd::prelude::*;
use vstd::arithmetic::div_mod::lemma_small_mod;
use vstd::arithmetic::power2::{lemma2_to64, lemma2_to64_rest, pow2};
use crate::mad::helpers::{get_bitfield, lemma_spec_field_bound, lemma_spec_field_congruence, set_bitfield, spec_bit, spec_field};

verus! {

/// PortInfo is kept in wire form: a 64-byte buffer read and written through
/// bit-level field accessors with big-endian bit numbering.
#[derive(Clone, Copy, Debug)]
#[allow(non_camel_case_types)]
pub struct port_info {
    pub data: [u8; 64],
}

impl port_info {
    /// Encodes the record; PortInfo is already in wire form, so this is the
    /// 64 stored bytes.
    pub fn to_bytes(&self) -> (r: Vec<u8>)
        ensures
            r@ == self.data@,
    {
        let mut out: Vec<u8> = Vec::new();
        let mut i: usize = 0;
        while i < 64
            invariant
                i <= 64,
                out@ == self.data@.take(i as int),
            decreases 64 - i,
        {
            out.push(self.data[i]);
            proof {
                assert(out@ =~= self.data@.take(i + 1));
            }
            i += 1;
        }
        proof {
            assert(out@ =~= self.data@);
        }
        out
    }

    /// Decodes a record from at least 64 bytes; trailing bytes are ignored.
    /// Returns `None` exactly when the buffer is shorter than 64 bytes.
    pub fn from_bytes(bytes: &[u8]) -> (r: Option<Self>)
        ensures
            match r {
                Some(pi) => bytes@.len() >= 64 && pi.data@ == bytes@.take(64),
                None => bytes@.len() < 64,
            },
    {
        if bytes.len() < 64 {
            return None;
        }
        let mut data: [u8; 64] = [0u8; 64];
        let mut i: usize = 0;
        while i < 64
            invariant
                i <= 64,
                bytes@.len() >= 64,
                data@.len() == 64,
                forall|j: int| 0 <= j < i ==> data@[j] == bytes@[j],
            decreases 64 - i,
        {
            data[i] = bytes[i];
            i += 1;
        }
        proof {
            assert(data@ =~= bytes@.take(64));
        }
        Some(port_info { data })
    }

    /// Reads the `m_key` field (bits 0..64).
    pub fn m_key(&self) -> (r: u64)
        ensures
            r as nat == spec_field(self.data@, 0, 64),
    {
        get_bitfield(&self.data, 0, 64)
    }

    /// Writes the `m_key` field (bits 0..64), leaving every other
    /// bit of the record unchanged.
    pub fn set_mkey(&mut self, val: u64)
        ensures
            spec_field(final(self).data@, 0, 64) == val as nat,
            forall|j: int|
                0 <= j < 512 && !(0 <= j < 64) ==> spec_bit(final(self).data@, j)
                    == spec_bit(old(self).data@, j),
            forall|off2: int, w2: nat|
                0 <= off2 && off2 + w2 <= 512 && (off2 + w2 <= 0 || 64 <= off2)
                    ==> #[trigger] spec_field(final(self).data@, off2, w2) == spec_field(
                    old(self).data@, off2, w2),
    {
        proof {
            lemma2_to64();
            lemma2_to64_rest();
            lemma_small_mod(val as nat, pow2(64));
        }
        set_bitfield(&mut self.data, 0, 64, val as u64);
        proof {
            assert forall|off2: int, w2: nat|
                0 <= off2 && off2 + w2 <= 512 && (off2 + w2 <= 0 || 64 <= off2)
                    implies #[trigger] spec_field(final(self).data@, off2, w2) == spec_field(
                old(self).data@, off2, w2) by {
                lemma_spec_field_congruence(old(self).data@, final(self).data@, off2, w2);
            }
        }
    }

    /// Reads the `gid_prefix` field (bits 64..128).
    pub fn gid_prefix(&self) -> (r: u64)
        ensures
            r as nat == spec_field(self.data@, 64, 64),
    {
        get_bitfield(&self.data, 64, 64)
    }

    /// Writes the `gid_prefix` field (bits 64..128), leaving every other
    /// bit of the record unchanged.
    pub fn set_gid_prefix(&mut self, val: u64)
        ensures
            spec_field(final(self).data@, 64, 64) == val as nat,
            forall|j: int|
                0 <= j < 512 && !(64 <= j < 128) ==> spec_bit(final(self).data@, j)
                    == spec_bit(old(self).data@, j),
            forall|off2: int, w2: nat|
                0 <= off2 && off2 + w2 <= 512 && (off2 + w2 <= 64 || 128 <= off2)
                    ==> #[trigger] spec_field(final(self).data@, off2, w2) == spec_field(
                    old(self).data@, off2, w2),
    {
        proof {
            lemma2_to64();
            lemma2_to64_rest();
            lemma_small_mod(val as nat, pow2(64));
        }
        set_bitfield(&mut self.data, 64, 64, val as u64);
        proof {
            assert forall|off2: int, w2: nat|
                0 <= off2 && off2 + w2 <= 512 && (off2 + w2 <= 64 || 128 <= off2)
                    implies #[trigger] spec_field(final(self).data@, off2, w2) == spec_field(
                old(self).data@, off2, w2) by {
                lemma_spec_field_congruence(old(self).data@, final(self).data@, off2, w2);
            }
        }
    }

    /// Reads the `lid` field (bits 128..144).
    pub fn lid(&self) -> (r: u16)
        ensures
            r as nat == spec_field(self.data@, 128, 16),
    {
        proof {
            lemma_spec_field_bound(self.data@, 128, 16);
            lemma2_to64();
        }
        get_bitfield(&self.data, 128, 16) as u16
    }

    /// Writes the `lid` field (bits 128..144), leaving every other
    /// bit of the record unchanged.
    pub fn set_lid(&mut self, val: u16)
        ensures
            spec_field(final(self).data@, 128, 16) == val as nat,
            forall|j: int|
                0 <= j < 512 && !(128 <= j < 144) ==> spec_bit(final(self).data@, j)
                    == spec_bit(old(self).data@, j),
            forall|off2: int, w2: nat|
                0 <= off2 && off2 + w2 <= 512 && (off2 + w2 <= 128 || 144 <= off2)
                    ==> #[trigger] spec_field(final(self).data@, off2, w2) == spec_field(
                    old(self).data@, off2, w2),
    {
        proof {
            lemma2_to64();
            lemma_small_mod(val as nat, pow2(16));
        }
        set_bitfield(&mut self.data, 128, 16, val as u64);
        proof {
            assert forall|off2: int, w2: nat|
                0 <= off2 && off2 + w2 <= 512 && (off2 + w2 <= 128 || 144 <= off2)
                    implies #[trigger] spec_field(final(self).data@, off2, w2) == spec_field(
                old(self).data@, off2, w2) by {
                lemma_spec_field_congruence(old(self).data@, final(self).data@, off2, w2);
            }
        }
    }

    /// Reads the `master_sm_lid` field (bits 144..160).
    pub fn master_sm_lid(&self) -> (r: u16)
        ensures
            r as nat == spec_field(self.data@, 144, 16),
    {
        proof {
            lemma_spec_field_bound(self.data@, 144, 16);
            lemma2_to64();
        }
        get_bitfield(&self.data, 144, 16) as u16
    }

    /// Writes the `master_sm_lid` field (bits 144..160), leaving every other
    /// bit of the record unchanged.
    pub fn set_master_sm_lid(&mut self, val: u16)
        ensures
            spec_field(final(self).data@, 144, 16) == val as nat,
            forall|j: int|
                0 <= j < 512 && !(144 <= j < 160) ==> spec_bit(final(self).data@, j)
                    == spec_bit(old(self).data@, j),
            forall|off2: int, w2: nat|
                0 <= off2 && off2 + w2 <= 512 && (off2 + w2 <= 144 || 160 <= off2)
                    ==> #[trigger] spec_field(final(self).data@, off2, w2) == spec_field(
                    old(self).data@, off2, w2),
    {
        proof {
            lemma2_to64();
            lemma_small_mod(val as nat, pow2(16));
        }
        set_bitfield(&mut self.data, 144, 16, val as u64);
        proof {
            assert forall|off2: int, w2: nat|
                0 <= off2 && off2 + w2 <= 512 && (off2 + w2 <= 144 || 160 <= off2)
                    implies #[trigger] spec_field(final(self).data@, off2, w2) == spec_field(
                old(self).data@, off2, w2) by {
                lemma_spec_field_congruence(old(self).data@, final(self).data@, off2, w2);
            }
        }
    }

    /// Reads the `capability_mask` field (bits 160..192).
    pub fn capability_mask(&self) -> (r: u32)
        ensures
            r as nat == spec_field(self.data@, 160, 32),
    {
        proof {
            lemma_spec_field_bound(self.data@, 160, 32);
            lemma2_to64();
        }
        get_bitfield(&self.data, 160, 32) as u32
    }

    /// Writes the `capability_mask` field (bits 160..192), leaving every other
    /// bit of the record unchanged.
    pub fn set_capability_mask(&mut self, val: u32)
        ensures
            spec_field(final(self).data@, 160, 32) == val as nat,
            forall|j: int|
                0 <= j < 512 && !(160 <= j < 192) ==> spec_bit(final(self).data@, j)
                    == spec_bit(old(self).data@, j),
            forall|off2: int, w2: nat|
                0 <= off2 && off2 + w2 <= 512 && (off2 + w2 <= 160 || 192 <= off2)
                    ==> #[trigger] spec_field(final(self).data@, off2, w2) == spec_field(
                    old(self).data@, off2, w2),
    {
        proof {
            lemma2_to64();
            lemma_small_mod(val as nat, pow2(32));
        }
        set_bitfield(&mut self.data, 160, 32, val as u64);
        proof {
            assert forall|off2: int, w2: nat|
                0 <= off2 && off2 + w2 <= 512 && (off2 + w2 <= 160 || 192 <= off2)
                    implies #[trigger] spec_field(final(self).data@, off2, w2) == spec_field(
                old(self).data@, off2, w2) by {
                lemma_spec_field_congruence(old(self).data@, final(self).data@, off2, w2);
            }
        }
    }

    /// Reads the `diag_code` field (bits 192..208).
    pub fn diag_code(&self) -> (r: u16)
        ensures
            r as nat == spec_field(self.data@, 192, 16),
    {
        proof {
            lemma_spec_field_bound(self.data@, 192, 16);
            lemma2_to64();
        }
        get_bitfield(&self.data, 192, 16) as u16
    }

    /// Writes the `diag_code` field (bits 192..208), leaving every other
    /// bit of the record unchanged.
    pub fn set_diag_code(&mut self, val: u16)
        ensures
            spec_field(final(self).data@, 192, 16) == val as nat,
            forall|j: int|
                0 <= j < 512 && !(192 <= j < 208) ==> spec_bit(final(self).data@, j)
                    == spec_bit(old(self).data@, j),
            forall|off2: int, w2: nat|
                0 <= off2 && off2 + w2 <= 512 && (off2 + w2 <= 192 || 208 <= off2)
                    ==> #[trigger] spec_field(final(self).data@, off2, w2) == spec_field(
                    old(self).data@, off2, w2),
    {
        proof {
            lemma2_to64();
            lemma_small_mod(val as nat, pow2(16));
        }
        set_bitfield(&mut self.data, 192, 16, val as u64);
        proof {
            assert forall|off2: int, w2: nat|
                0 <= off2 && off2 + w2 <= 512 && (off2 + w2 <= 192 || 208 <= off2)
                    implies #[trigger] spec_field(final(self).data@, off2, w2) == spec_field(
                old(self).data@, off2, w2) by {
                lemma_spec_field_congruence(old(self).data@, final(self).data@, off2, w2);
            }
        }
    }

    /// Reads the `m_key_lease_period` field (bits 208..224).
    pub fn m_key_lease_period(&self) -> (r: u16)
        ensures
            r as nat == spec_field(self.data@, 208, 16),
    {
        proof {
            lemma_spec_field_bound(self.data@, 208, 16);
            lemma2_to64();
        }
        get_bitfield(&self.data, 208, 16) as u16
    }

    /// Writes the `m_key_lease_period` field (bits 208..224), leaving every other
    /// bit of the record unchanged.
    pub fn set_m_key_lease_period(&mut self, val: u16)
        ensures
            spec_field(final(self).data@, 208, 16) == val as nat,
            forall|j: int|
                0 <= j < 512 && !(208 <= j < 224) ==> spec_bit(final(self).data@, j)
                    == spec_bit(old(self).data@, j),
            forall|off2: int, w2: nat|
                0 <= off2 && off2 + w2 <= 512 && (off2 + w2 <= 208 || 224 <= off2)
                    ==> #[trigger] spec_field(final(self).data@, off2, w2) == spec_field(
                    old(self).data@, off2, w2),
    {
        proof {
            lemma2_to64();
            lemma_small_mod(val as nat, pow2(16));
        }
        set_bitfield(&mut self.data, 208, 16, val as u64);
        proof {
            assert forall|off2: int, w2: nat|
                0 <= off2 && off2 + w2 <= 512 && (off2 + w2 <= 208 || 224 <= off2)
                    implies #[trigger] spec_field(final(self).data@, off2, w2) == spec_field(
                old(self).data@, off2, w2) by {
                lemma_spec_field_congruence(old(self).data@, final(self).data@, off2, w2);
            }
        }
    }

    /// Reads the `local_portnum` field (bits 224..232).
    pub fn local_portnum(&self) -> (r: u8)
        ensures
            r as nat == spec_field(self.data@, 224, 8),
    {
        proof {
            lemma_spec_field_bound(self.data@, 224, 8);
            lemma2_to64();
        }
        get_bitfield(&self.data, 224, 8) as u8
    }

    /// Writes the `local_portnum` field (bits 224..232), leaving every other
    /// bit of the record unchanged.
    pub fn set_local_portnum(&mut self, val: u8)
        ensures
            spec_field(final(self).data@, 224, 8) == val as nat,
            forall|j: int|
                0 <= j < 512 && !(224 <= j < 232) ==> spec_bit(final(self).data@, j)
                    == spec_bit(old(self).data@, j),
            forall|off2: int, w2: nat|
                0 <= off2 && off2 + w2 <= 512 && (off2 + w2 <= 224 || 232 <= off2)
                    ==> #[trigger] spec_field(final(self).data@, off2, w2) == spec_field(
                    old(self).data@, off2, w2),
    {
        proof {
            lemma2_to64();
            lemma_small_mod(val as nat, pow2(8));
        }
        set_bitfield(&mut self.data, 224, 8, val as u64);
        proof {
            assert forall|off2: int, w2: nat|
                0 <= off2 && off2 + w2 <= 512 && (off2 + w2 <= 224 || 232 <= off2)
                    implies #[trigger] spec_field(final(self).data@, off2, w2) == spec_field(
                old(self).data@, off2, w2) by {
                lemma_spec_field_congruence(old(self).data@, final(self).data@, off2, w2);
            }
        }
    }

    /// Reads the `link_width_enabled` field (bits 232..240).
    pub fn link_width_enabled(&self) -> (r: u8)
        ensures
            r as nat == spec_field(self.data@, 232, 8),
    {
        proof {
            lemma_spec_field_bound(self.data@, 232, 8);
            lemma2_to64();
        }
        get_bitfield(&self.data, 232, 8) as u8
    }

    /// Writes the `link_width_enabled` field (bits 232..240), leaving every other
    /// bit of the record unchanged.
    pub fn set_link_width_enabled(&mut self, val: u8)
        ensures
            spec_field(final(self).data@, 232, 8) == val as nat,
            forall|j: int|
                0 <= j < 512 && !(232 <= j < 240) ==> spec_bit(final(self).data@, j)
                    == spec_bit(old(self).data@, j),
            forall|off2: int, w2: nat|
                0 <= off2 && off2 + w2 <= 512 && (off2 + w2 <= 232 || 240 <= off2)
                    ==> #[trigger] spec_field(final(self).data@, off2, w2) == spec_field(
                    old(self).data@, off2, w2),
    {
        proof {
            lemma2_to64();
            lemma_small_mod(val as nat, pow2(8));
        }
        set_bitfield(&mut self.data, 232, 8, val as u64);
        proof {
            assert forall|off2: int, w2: nat|
                0 <= off2 && off2 + w2 <= 512 && (off2 + w2 <= 232 || 240 <= off2)
                    implies #[trigger] spec_field(final(self).data@, off2, w2) == spec_field(
                old(self).data@, off2, w2) by {
                lemma_spec_field_congruence(old(self).data@, final(self).data@, off2, w2);
            }
        }
    }

    /// Reads the `link_width_supported` field (bits 240..248).
    pub fn link_width_supported(&self) -> (r: u8)
        ensures
            r as nat == spec_field(self.data@, 240, 8),
    {
        proof {
            lemma_spec_field_bound(self.data@, 240, 8);
            lemma2_to64();
        }
        get_bitfield(&self.data, 240, 8) as u8
    }

    /// Writes the `link_width_supported` field (bits 240..248), leaving every other
    /// bit of the record unchanged.
    pub fn set_link_width_supported(&mut self, val: u8)
        ensures
            spec_field(final(self).data@, 240, 8) == val as nat,
            forall|j: int|
                0 <= j < 512 && !(240 <= j < 248) ==> spec_bit(final(self).data@, j)
                    == spec_bit(old(self).data@, j),
            forall|off2: int, w2: nat|
                0 <= off2 && off2 + w2 <= 512 && (off2 + w2 <= 240 || 248 <= off2)
                    ==> #[trigger] spec_field(final(self).data@, off2, w2) == spec_field(
                    old(self).data@, off2, w2),
    {
        proof {
            lemma2_to64();
            lemma_small_mod(val as nat, pow2(8));
        }
        set_bitfield(&mut self.data, 240, 8, val as u64);
        proof {
            assert forall|off2: int, w2: nat|
                0 <= off2 && off2 + w2 <= 512 && (off2 + w2 <= 240 || 248 <= off2)
                    implies #[trigger] spec_field(final(self).data@, off2, w2) == spec_field(
                old(self).data@, off2, w2) by {
                lemma_spec_field_congruence(old(self).data@, final(self).data@, off2, w2);
            }
        }
    }

    /// Reads the `link_width_active` field (bits 248..256).
    pub fn link_width_active(&self) -> (r: u8)
        ensures
            r as nat == spec_field(self.data@, 248, 8),
    {
        proof {
            lemma_spec_field_bound(self.data@, 248, 8);
            lemma2_to64();
        }
        get_bitfield(&self.data, 248, 8) as u8
    }

    /// Writes the `link_width_active` field (bits 248..256), leaving every other
    /// bit of the record unchanged.
    pub fn set_link_width_active(&mut self, val: u8)
        ensures
            spec_field(final(self).data@, 248, 8) == val as nat,
            forall|j: int|
                0 <= j < 512 && !(248 <= j < 256) ==> spec_bit(final(self).data@, j)
                    == spec_bit(old(self).data@, j),
            forall|off2: int, w2: nat|
                0 <= off2 && off2 + w2 <= 512 && (off2 + w2 <= 248 || 256 <= off2)
                    ==> #[trigger] spec_field(final(self).data@, off2, w2) == spec_field(
                    old(self).data@, off2, w2),
    {
        proof {
            lemma2_to64();
            lemma_small_mod(val as nat, pow2(8));
        }
        set_bitfield(&mut self.data, 248, 8, val as u64);
        proof {
            assert forall|off2: int, w2: nat|
                0 <= off2 && off2 + w2 <= 512 && (off2 + w2 <= 248 || 256 <= off2)
                    implies #[trigger] spec_field(final(self).data@, off2, w2) == spec_field(
                old(self).data@, off2, w2) by {
                lemma_spec_field_congruence(old(self).data@, final(self).data@, off2, w2);
            }
        }
    }

    /// Reads the `link_speed_supported` field (bits 256..260).
    pub fn link_speed_supported(&self) -> (r: u8)
        ensures
            r as nat == spec_field(self.data@, 256, 4),
    {
        proof {
            lemma_spec_field_bound(self.data@, 256, 4);
            lemma2_to64();
        }
        get_bitfield(&self.data, 256, 4) as u8
    }

    /// Writes the `link_speed_supported` field (bits 256..260), leaving every other
    /// bit of the record unchanged.
    pub fn set_link_speed_supported(&mut self, val: u8)
        ensures
            spec_field(final(self).data@, 256, 4) == val as nat % pow2(4),
            forall|j: int|
                0 <= j < 512 && !(256 <= j < 260) ==> spec_bit(final(self).data@, j)
                    == spec_bit(old(self).data@, j),
            forall|off2: int, w2: nat|
                0 <= off2 && off2 + w2 <= 512 && (off2 + w2 <= 256 || 260 <= off2)
                    ==> #[trigger] spec_field(final(self).data@, off2, w2) == spec_field(
                    old(self).data@, off2, w2),
    {
        set_bitfield(&mut self.data, 256, 4, val as u64);
        proof {
            assert forall|off2: int, w2: nat|
                0 <= off2 && off2 + w2 <= 512 && (off2 + w2 <= 256 || 260 <= off2)
                    implies #[trigger] spec_field(final(self).data@, off2, w2) == spec_field(
                old(self).data@, off2, w2) by {
                lemma_spec_field_congruence(old(self).data@, final(self).data@, off2, w2);
            }
        }
    }

    /// Reads the `port_state` field (bits 260..264).
    pub fn port_state(&self) -> (r: u8)
        ensures
            r as nat == spec_field(self.data@, 260, 4),
    {
        proof {
            lemma_spec_field_bound(self.data@, 260, 4);
            lemma2_to64();
        }
        get_bitfield(&self.data, 260, 4) as u8
    }

    /// Writes the `port_state` field (bits 260..264), leaving every other
    /// bit of the record unchanged.
    pub fn set_port_state(&mut self, val: u8)
        ensures
            spec_field(final(self).data@, 260, 4) == val as nat % pow2(4),
            forall|j: int|
                0 <= j < 512 && !(260 <= j < 264) ==> spec_bit(final(self).data@, j)
                    == spec_bit(old(self).data@, j),
            forall|off2: int, w2: nat|
                0 <= off2 && off2 + w2 <= 512 && (off2 + w2 <= 260 || 264 <= off2)
                    ==> #[trigger] spec_field(final(self).data@, off2, w2) == spec_field(
                    old(self).data@, off2, w2),
    {
        set_bitfield(&mut self.data, 260, 4, val as u64);
        proof {
            assert forall|off2: int, w2: nat|
                0 <= off2 && off2 + w2 <= 512 && (off2 + w2 <= 260 || 264 <= off2)
                    implies #[trigger] spec_field(final(self).data@, off2, w2) == spec_field(
                old(self).data@, off2, w2) by {
                lemma_spec_field_congruence(old(self).data@, final(self).data@, off2, w2);
            }
        }
    }

    /// Reads the `port_physical_state` field (bits 264..268).
    pub fn port_physical_state(&self) -> (r: u8)
        ensures
            r as nat == spec_field(self.data@, 264, 4),
    {
        proof {
            lemma_spec_field_bound(self.data@, 264, 4);
            lemma2_to64();
        }
        get_bitfield(&self.data, 264, 4) as u8
    }

    /// Writes the `port_physical_state` field (bits 264..268), leaving every other
    /// bit of the record unchanged.
    pub fn set_port_physical_state(&mut self, val: u8)
        ensures
            spec_field(final(self).data@, 264, 4) == val as nat % pow2(4),
            forall|j: int|
                0 <= j < 512 && !(264 <= j < 268) ==> spec_bit(final(self).data@, j)
                    == spec_bit(old(self).data@, j),
            forall|off2: int, w2: nat|
                0 <= off2 && off2 + w2 <= 512 && (off2 + w2 <= 264 || 268 <= off2)
                    ==> #[trigger] spec_field(final(self).data@, off2, w2) == spec_field(
                    old(self).data@, off2, w2),
    {
        set_bitfield(&mut self.data, 264, 4, val as u64);
        proof {
            assert forall|off2: int, w2: nat|
                0 <= off2 && off2 + w2 <= 512 && (off2 + w2 <= 264 || 268 <= off2)
                    implies #[trigger] spec_field(final(self).data@, off2, w2) == spec_field(
                old(self).data@, off2, w2) by {
                lemma_spec_field_congruence(old(self).data@, final(self).data@, off2, w2);
            }
        }
    }

    /// Reads the `link_down_default_state` field (bits 268..272).
    pub fn link_down_default_state(&self) -> (r: u8)
        ensures
            r as nat == spec_field(self.data@, 268, 4),
    {
        proof {
            lemma_spec_field_bound(self.data@, 268, 4);
            lemma2_to64();
        }
        get_bitfield(&self.data, 268, 4) as u8
    }

    /// Writes the `link_down_default_state` field (bits 268..272), leaving every other
    /// bit of the record unchanged.
    pub fn set_link_down_default_state(&mut self, val: u8)
        ensures
            spec_field(final(self).data@, 268, 4) == val as nat % pow2(4),
            forall|j: int|
                0 <= j < 512 && !(268 <= j < 272) ==> spec_bit(final(self).data@, j)
                    == spec_bit(old(self).data@, j),
            forall|off2: int, w2: nat|
                0 <= off2 && off2 + w2 <= 512 && (off2 + w2 <= 268 || 272 <= off2)
                    ==> #[trigger] spec_field(final(self).data@, off2, w2) == spec_field(
                    old(self).data@, off2, w2),
    {
        set_bitfield(&mut self.data, 268, 4, val as u64);
        proof {
            assert forall|off2: int, w2: nat|
                0 <= off2 && off2 + w2 <= 512 && (off2 + w2 <= 268 || 272 <= off2)
                    implies #[trigger] spec_field(final(self).data@, off2, w2) == spec_field(
                old(self).data@, off2, w2) by {
                lemma_spec_field_congruence(old(self).data@, final(self).data@, off2, w2);
            }
        }
    }

    /// Reads the `m_key_protect_bits` field (bits 272..274).
    pub fn m_key_protect_bits(&self) -> (r: u8)
        ensures
            r as nat == spec_field(self.data@, 272, 2),
    {
        proof {
            lemma_spec_field_bound(self.data@, 272, 2);
            lemma2_to64();
        }
        get_bitfield(&self.data, 272, 2) as u8
    }

    /// Writes the `m_key_protect_bits` field (bits 272..274), leaving every other
    /// bit of the record unchanged.
    pub fn set_m_key_protect_bits(&mut self, val: u8)
        ensures
            spec_field(final(self).data@, 272, 2) == val as nat % pow2(2),
            forall|j: int|
                0 <= j < 512 && !(272 <= j < 274) ==> spec_bit(final(self).data@, j)
                    == spec_bit(old(self).data@, j),
            forall|off2: int, w2: nat|
                0 <= off2 && off2 + w2 <= 512 && (off2 + w2 <= 272 || 274 <= off2)
                    ==> #[trigger] spec_field(final(self).data@, off2, w2) == spec_field(
                    old(self).data@, off2, w2),
    {
        set_bitfield(&mut self.data, 272, 2, val as u64);
        proof {
            assert forall|off2: int, w2: nat|
                0 <= off2 && off2 + w2 <= 512 && (off2 + w2 <= 272 || 274 <= off2)
                    implies #[trigger] spec_field(final(self).data@, off2, w2) == spec_field(
                old(self).data@, off2, w2) by {
                lemma_spec_field_congruence(old(self).data@, final(self).data@, off2, w2);
            }
        }
    }

    /// Reads the `m_key_protect_bits_ext` field (bits 274..277).
    pub fn m_key_protect_bits_ext(&self) -> (r: u8)
        ensures
            r as nat == spec_field(self.data@, 274, 3),
    {
        proof {
            lemma_spec_field_bound(self.data@, 274, 3);
            lemma2_to64();
        }
        get_bitfield(&self.data, 274, 3) as u8
    }

    /// Writes the `m_key_protect_bits_ext` field (bits 274..277), leaving every other
    /// bit of the record unchanged.
    pub fn set_m_key_protect_bits_ext(&mut self, val: u8)
        ensures
            spec_field(final(self).data@, 274, 3) == val as nat % pow2(3),
            forall|j: int|
                0 <= j < 512 && !(274 <= j < 277) ==> spec_bit(final(self).data@, j)
                    == spec_bit(old(self).data@, j),
            forall|off2: int, w2: nat|
                0 <= off2 && off2 + w2 <= 512 && (off2 + w2 <= 274 || 277 <= off2)
                    ==> #[trigger] spec_field(final(self).data@, off2, w2) == spec_field(
                    old(self).data@, off2, w2),
    {
        set_bitfield(&mut self.data, 274, 3, val as u64);
        proof {
            assert forall|off2: int, w2: nat|
                0 <= off2 && off2 + w2 <= 512 && (off2 + w2 <= 274 || 277 <= off2)
                    implies #[trigger] spec_field(final(self).data@, off2, w2) == spec_field(
                old(self).data@, off2, w2) by {
                lemma_spec_field_congruence(old(self).data@, final(self).data@, off2, w2);
            }
        }
    }

    /// Reads the `lmc` field (bits 277..280).
    pub fn lmc(&self) -> (r: u8)
        ensures
            r as nat == spec_field(self.data@, 277, 3),
    {
        proof {
            lemma_spec_field_bound(self.data@, 277, 3);
            lemma2_to64();
        }
        get_bitfield(&self.data, 277, 3) as u8
    }

    /// Writes the `lmc` field (bits 277..280), leaving every other
    /// bit of the record unchanged.
    pub fn set_lmc(&mut self, val: u8)
        ensures
            spec_field(final(self).data@, 277, 3) == val as nat % pow2(3),
            forall|j: int|
                0 <= j < 512 && !(277 <= j < 280) ==> spec_bit(final(self).data@, j)
                    == spec_bit(old(self).data@, j),
            forall|off2: int, w2: nat|
                0 <= off2 && off2 + w2 <= 512 && (off2 + w2 <= 277 || 280 <= off2)
                    ==> #[trigger] spec_field(final(self).data@, off2, w2) == spec_field(
                    old(self).data@, off2, w2),
    {
        set_bitfield(&mut self.data, 277, 3, val as u64);
        proof {
            assert forall|off2: int, w2: nat|
                0 <= off2 && off2 + w2 <= 512 && (off2 + w2 <= 277 || 280 <= off2)
                    implies #[trigger] spec_field(final(self).data@, off2, w2) == spec_field(
                old(self).data@, off2, w2) by {
                lemma_spec_field_congruence(old(self).data@, final(self).data@, off2, w2);
            }
        }
    }

    /// Reads the `link_speed_active` field (bits 280..284).
    pub fn link_speed_active(&self) -> (r: u8)
        ensures
            r as nat == spec_field(self.data@, 280, 4),
    {
        proof {
            lemma_spec_field_bound(self.data@, 280, 4);
            lemma2_to64();
        }
        get_bitfield(&self.data, 280, 4) as u8
    }

    /// Writes the `link_speed_active` field (bits 280..284), leaving every other
    /// bit of the record unchanged.
    pub fn set_link_speed_active(&mut self, val: u8)
        ensures
            spec_field(final(self).data@, 280, 4) == val as nat % pow2(4),
            forall|j: int|
                0 <= j < 512 && !(280 <= j < 284) ==> spec_bit(final(self).data@, j)
                    == spec_bit(old(self).data@, j),
            forall|off2: int, w2: nat|
                0 <= off2 && off2 + w2 <= 512 && (off2 + w2 <= 280 || 284 <= off2)
                    ==> #[trigger] spec_field(final(self).data@, off2, w2) == spec_field(
                    old(self).data@, off2, w2),
    {
        set_bitfield(&mut self.data, 280, 4, val as u64);
        proof {
            assert forall|off2: int, w2: nat|
                0 <= off2 && off2 + w2 <= 512 && (off2 + w2 <= 280 || 284 <= off2)
                    implies #[trigger] spec_field(final(self).data@, off2, w2) == spec_field(
                old(self).data@, off2, w2) by {
                lemma_spec_field_congruence(old(self).data@, final(self).data@, off2, w2);
            }
        }
    }

    /// Reads the `link_speed_enabled` field (bits 284..288).
    pub fn link_speed_enabled(&self) -> (r: u8)
        ensures
            r as nat == spec_field(self.data@, 284, 4),
    {
        proof {
            lemma_spec_field_bound(self.data@, 284, 4);
            lemma2_to64();
        }
        get_bitfield(&self.data, 284, 4) as u8
    }

    /// Writes the `link_speed_enabled` field (bits 284..288), leaving every other
    /// bit of the record unchanged.
    pub fn set_link_speed_enabled(&mut self, val: u8)
        ensures
            spec_field(final(self).data@, 284, 4) == val as nat % pow2(4),
            forall|j: int|
                0 <= j < 512 && !(284 <= j < 288) ==> spec_bit(final(self).data@, j)
                    == spec_bit(old(self).data@, j),
            forall|off2: int, w2: nat|
                0 <= off2 && off2 + w2 <= 512 && (off2 + w2 <= 284 || 288 <= off2)
                    ==> #[trigger] spec_field(final(self).data@, off2, w2) == spec_field(
                    old(self).data@, off2, w2),
    {
        set_bitfield(&mut self.data, 284, 4, val as u64);
        proof {
            assert forall|off2: int, w2: nat|
                0 <= off2 && off2 + w2 <= 512 && (off2 + w2 <= 284 || 288 <= off2)
                    implies #[trigger] spec_field(final(self).data@, off2, w2) == spec_field(
                old(self).data@, off2, w2) by {
                lemma_spec_field_congruence(old(self).data@, final(self).data@, off2, w2);
            }
        }
    }

    /// Reads the `neighbor_mtu` field (bits 288..292).
    pub fn neighbor_mtu(&self) -> (r: u8)
        ensures
            r as nat == spec_field(self.data@, 288, 4),
    {
        proof {
            lemma_spec_field_bound(self.data@, 288, 4);
            lemma2_to64();
        }
        get_bitfield(&self.data, 288, 4) as u8
    }

    /// Writes the `neighbor_mtu` field (bits 288..292), leaving every other
    /// bit of the record unchanged.
    pub fn set_neighbor_mtu(&mut self, val: u8)
        ensures
            spec_field(final(self).data@, 288, 4) == val as nat % pow2(4),
            forall|j: int|
                0 <= j < 512 && !(288 <= j < 292) ==> spec_bit(final(self).data@, j)
                    == spec_bit(old(self).data@, j),
            forall|off2: int, w2: nat|
                0 <= off2 && off2 + w2 <= 512 && (off2 + w2 <= 288 || 292 <= off2)
                    ==> #[trigger] spec_field(final(self).data@, off2, w2) == spec_field(
                    old(self).data@, off2, w2),
    {
        set_bitfield(&mut self.data, 288, 4, val as u64);
        proof {
            assert forall|off2: int, w2: nat|
                0 <= off2 && off2 + w2 <= 512 && (off2 + w2 <= 288 || 292 <= off2)
                    implies #[trigger] spec_field(final(self).data@, off2, w2) == spec_field(
                old(self).data@, off2, w2) by {
                lemma_spec_field_congruence(old(self).data@, final(self).data@, off2, w2);
            }
        }
    }

    /// Reads the `master_sm_sl` field (bits 292..296).
    pub fn master_sm_sl(&self) -> (r: u8)
        ensures
            r as nat == spec_field(self.data@, 292, 4),
    {
        proof {
            lemma_spec_field_bound(self.data@, 292, 4);
            lemma2_to64();
        }
        get_bitfield(&self.data, 292, 4) as u8
    }

    /// Writes the `master_sm_sl` field (bits 292..296), leaving every other
    /// bit of the record unchanged.
    pub fn set_master_sm_sl(&mut self, val: u8)
        ensures
            spec_field(final(self).data@, 292, 4) == val as nat % pow2(4),
            forall|j: int|
                0 <= j < 512 && !(292 <= j < 296) ==> spec_bit(final(self).data@, j)
                    == spec_bit(old(self).data@, j),
            forall|off2: int, w2: nat|
                0 <= off2 && off2 + w2 <= 512 && (off2 + w2 <= 292 || 296 <= off2)
                    ==> #[trigger] spec_field(final(self).data@, off2, w2) == spec_field(
                    old(self).data@, off2, w2),
    {
        set_bitfield(&mut self.data, 292, 4, val as u64);
        proof {
            assert forall|off2: int, w2: nat|
                0 <= off2 && off2 + w2 <= 512 && (off2 + w2 <= 292 || 296 <= off2)
                    implies #[trigger] spec_field(final(self).data@, off2, w2) == spec_field(
                old(self).data@, off2, w2) by {
                lemma_spec_field_congruence(old(self).data@, final(self).data@, off2, w2);
            }
        }
    }

    /// Reads the `vl_cap` field (bits 296..300).
    pub fn vl_cap(&self) -> (r: u8)
        ensures
            r as nat == spec_field(self.data@, 296, 4),
    {
        proof {
            lemma_spec_field_bound(self.data@, 296, 4);
            lemma2_to64();
        }
        get_bitfield(&self.data, 296, 4) as u8
    }

    /// Writes the `vl_cap` field (bits 296..300), leaving every other
    /// bit of the record unchanged.
    pub fn set_vl_cap(&mut self, val: u8)
        ensures
            spec_field(final(self).data@, 296, 4) == val as nat % pow2(4),
            forall|j: int|
                0 <= j < 512 && !(296 <= j < 300) ==> spec_bit(final(self).data@, j)
                    == spec_bit(old(self).data@, j),
            forall|off2: int, w2: nat|
                0 <= off2 && off2 + w2 <= 512 && (off2 + w2 <= 296 || 300 <= off2)
                    ==> #[trigger] spec_field(final(self).data@, off2, w2) == spec_field(
                    old(self).data@, off2, w2),
    {
        set_bitfield(&mut self.data, 296, 4, val as u64);
        proof {
            assert forall|off2: int, w2: nat|
                0 <= off2 && off2 + w2 <= 512 && (off2 + w2 <= 296 || 300 <= off2)
                    implies #[trigger] spec_field(final(self).data@, off2, w2) == spec_field(
                old(self).data@, off2, w2) by {
                lemma_spec_field_congruence(old(self).data@, final(self).data@, off2, w2);
            }
        }
    }

    /// Reads the `init_type` field (bits 300..304).
    pub fn init_type(&self) -> (r: u8)
        ensures
            r as nat == spec_field(self.data@, 300, 4),
    {
        proof {
            lemma_spec_field_bound(self.data@, 300, 4);
            lemma2_to64();
        }
        get_bitfield(&self.data, 300, 4) as u8
    }

    /// Writes the `init_type` field (bits 300..304), leaving every other
    /// bit of the record unchanged.
    pub fn set_init_type(&mut self, val: u8)
        ensures
            spec_field(final(self).data@, 300, 4) == val as nat % pow2(4),
            forall|j: int|
                0 <= j < 512 && !(300 <= j < 304) ==> spec_bit(final(self).data@, j)
                    == spec_bit(old(self).data@, j),
            forall|off2: int, w2: nat|
                0 <= off2 && off2 + w2 <= 512 && (off2 + w2 <= 300 || 304 <= off2)
                    ==> #[trigger] spec_field(final(self).data@, off2, w2) == spec_field(
                    old(self).data@, off2, w2),
    {
        set_bitfield(&mut self.data, 300, 4, val as u64);
        proof {
            assert forall|off2: int, w2: nat|
                0 <= off2 && off2 + w2 <= 512 && (off2 + w2 <= 300 || 304 <= off2)
                    implies #[trigger] spec_field(final(self).data@, off2, w2) == spec_field(
                old(self).data@, off2, w2) by {
                lemma_spec_field_congruence(old(self).data@, final(self).data@, off2, w2);
            }
        }
    }

    /// Reads the `vl_high_limit` field (bits 304..312).
    pub fn vl_high_limit(&self) -> (r: u8)
        ensures
            r as nat == spec_field(self.data@, 304, 8),
    {
        proof {
            lemma_spec_field_bound(self.data@, 304, 8);
            lemma2_to64();
        }
        get_bitfield(&self.data, 304, 8) as u8
    }

    /// Writes the `vl_high_limit` field (bits 304..312), leaving every other
    /// bit of the record unchanged.
    pub fn set_vl_high_limit(&mut self, val: u8)
        ensures
            spec_field(final(self).data@, 304, 8) == val as nat,
            forall|j: int|
                0 <= j < 512 && !(304 <= j < 312) ==> spec_bit(final(self).data@, j)
                    == spec_bit(old(self).data@, j),
            forall|off2: int, w2: nat|
                0 <= off2 && off2 + w2 <= 512 && (off2 + w2 <= 304 || 312 <= off2)
                    ==> #[trigger] spec_field(final(self).data@, off2, w2) == spec_field(
                    old(self).data@, off2, w2),
    {
        proof {
            lemma2_to64();
            lemma_small_mod(val as nat, pow2(8));
        }
        set_bitfield(&mut self.data, 304, 8, val as u64);
        proof {
            assert forall|off2: int, w2: nat|
                0 <= off2 && off2 + w2 <= 512 && (off2 + w2 <= 304 || 312 <= off2)
                    implies #[trigger] spec_field(final(self).data@, off2, w2) == spec_field(
                old(self).data@, off2, w2) by {
                lemma_spec_field_congruence(old(self).data@, final(self).data@, off2, w2);
            }
        }
    }

    /// Reads the `vl_arbitration_high_cap` field (bits 312..320).
    pub fn vl_arbitration_high_cap(&self) -> (r: u8)
        ensures
            r as nat == spec_field(self.data@, 312, 8),
    {
        proof {
            lemma_spec_field_bound(self.data@, 312, 8);
            lemma2_to64();
        }
        get_bitfield(&self.data, 312, 8) as u8
    }

    /// Writes the `vl_arbitration_high_cap` field (bits 312..320), leaving every other
    /// bit of the record unchanged.
    pub fn set_vl_arbitration_high_cap(&mut self, val: u8)
        ensures
            spec_field(final(self).data@, 312, 8) == val as nat,
            forall|j: int|
                0 <= j < 512 && !(312 <= j < 320) ==> spec_bit(final(self).data@, j)
                    == spec_bit(old(self).data@, j),
            forall|off2: int, w2: nat|
                0 <= off2 && off2 + w2 <= 512 && (off2 + w2 <= 312 || 320 <= off2)
                    ==> #[trigger] spec_field(final(self).data@, off2, w2) == spec_field(
                    old(self).data@, off2, w2),
    {
        proof {
            lemma2_to64();
            lemma_small_mod(val as nat, pow2(8));
        }
        set_bitfield(&mut self.data, 312, 8, val as u64);
        proof {
            assert forall|off2: int, w2: nat|
                0 <= off2 && off2 + w2 <= 512 && (off2 + w2 <= 312 || 320 <= off2)
                    implies #[trigger] spec_field(final(self).data@, off2, w2) == spec_field(
                old(self).data@, off2, w2) by {
                lemma_spec_field_congruence(old(self).data@, final(self).data@, off2, w2);
            }
        }
    }

    /// Reads the `vl_arbitration_low_cap` field (bits 320..328).
    pub fn vl_arbitration_low_cap(&self) -> (r: u8)
        ensures
            r as nat == spec_field(self.data@, 320, 8),
    {
        proof {
            lemma_spec_field_bound(self.data@, 320, 8);
            lemma2_to64();
        }
        get_bitfield(&self.data, 320, 8) as u8
    }

    /// Writes the `vl_arbitration_low_cap` field (bits 320..328), leaving every other
    /// bit of the record unchanged.
    pub fn set_vl_arbitration_low_cap(&mut self, val: u8)
        ensures
            spec_field(final(self).data@, 320, 8) == val as nat,
            forall|j: int|
                0 <= j < 512 && !(320 <= j < 328) ==> spec_bit(final(self).data@, j)
                    == spec_bit(old(self).data@, j),
            forall|off2: int, w2: nat|
                0 <= off2 && off2 + w2 <= 512 && (off2 + w2 <= 320 || 328 <= off2)
                    ==> #[trigger] spec_field(final(self).data@, off2, w2) == spec_field(
                    old(self).data@, off2, w2),
    {
        proof {
            lemma2_to64();
            lemma_small_mod(val as nat, pow2(8));
        }
        set_bitfield(&mut self.data, 320, 8, val as u64);
        proof {
            assert forall|off2: int, w2: nat|
                0 <= off2 && off2 + w2 <= 512 && (off2 + w2 <= 320 || 328 <= off2)
                    implies #[trigger] spec_field(final(self).data@, off2, w2) == spec_field(
                old(self).data@, off2, w2) by {
                lemma_spec_field_congruence(old(self).data@, final(self).data@, off2, w2);
            }
        }
    }

    /// Reads the `init_type_reply` field (bits 328..332).
    pub fn init_type_reply(&self) -> (r: u8)
        ensures
            r as nat == spec_field(self.data@, 328, 4),
    {
        proof {
            lemma_spec_field_bound(self.data@, 328, 4);
            lemma2_to64();
        }
        get_bitfield(&self.data, 328, 4) as u8
    }

    /// Writes the `init_type_reply` field (bits 328..332), leaving every other
    /// bit of the record unchanged.
    pub fn set_init_type_reply(&mut self, val: u8)
        ensures
            spec_field(final(self).data@, 328, 4) == val as nat % pow2(4),
            forall|j: int|
                0 <= j < 512 && !(328 <= j < 332) ==> spec_bit(final(self).data@, j)
                    == spec_bit(old(self).data@, j),
            forall|off2: int, w2: nat|
                0 <= off2 && off2 + w2 <= 512 && (off2 + w2 <= 328 || 332 <= off2)
                    ==> #[trigger] spec_field(final(self).data@, off2, w2) == spec_field(
                    old(self).data@, off2, w2),
    {
        set_bitfield(&mut self.data, 328, 4, val as u64);
        proof {
            assert forall|off2: int, w2: nat|
                0 <= off2 && off2 + w2 <= 512 && (off2 + w2 <= 328 || 332 <= off2)
                    implies #[trigger] spec_field(final(self).data@, off2, w2) == spec_field(
                old(self).data@, off2, w2) by {
                lemma_spec_field_congruence(old(self).data@, final(self).data@, off2, w2);
            }
        }
    }

    /// Reads the `mtu_cap` field (bits 332..336).
    pub fn mtu_cap(&self) -> (r: u8)
        ensures
            r as nat == spec_field(self.data@, 332, 4),
    {
        proof {
            lemma_spec_field_bound(self.data@, 332, 4);
            lemma2_to64();
        }
        get_bitfield(&self.data, 332, 4) as u8
    }

    /// Writes the `mtu_cap` field (bits 332..336), leaving every other
    /// bit of the record unchanged.
    pub fn set_mtu_cap(&mut self, val: u8)
        ensures
            spec_field(final(self).data@, 332, 4) == val as nat % pow2(4),
            forall|j: int|
                0 <= j < 512 && !(332 <= j < 336) ==> spec_bit(final(self).data@, j)
                    == spec_bit(old(self).data@, j),
            forall|off2: int, w2: nat|
                0 <= off2 && off2 + w2 <= 512 && (off2 + w2 <= 332 || 336 <= off2)
                    ==> #[trigger] spec_field(final(self).data@, off2, w2) == spec_field(
                    old(self).data@, off2, w2),
    {
        set_bitfield(&mut self.data, 332, 4, val as u64);
        proof {
            assert forall|off2: int, w2: nat|
                0 <= off2 && off2 + w2 <= 512 && (off2 + w2 <= 332 || 336 <= off2)
                    implies #[trigger] spec_field(final(self).data@, off2, w2) == spec_field(
                old(self).data@, off2, w2) by {
                lemma_spec_field_congruence(old(self).data@, final(self).data@, off2, w2);
            }
        }
    }

    /// Reads the `vl_stall_count` field (bits 336..339).
    pub fn vl_stall_count(&self) -> (r: u8)
        ensures
            r as nat == spec_field(self.data@, 336, 3),
    {
        proof {
            lemma_spec_field_bound(self.data@, 336, 3);
            lemma2_to64();
        }
        get_bitfield(&self.data, 336, 3) as u8
    }

    /// Writes the `vl_stall_count` field (bits 336..339), leaving every other
    /// bit of the record unchanged.
    pub fn set_vl_stall_count(&mut self, val: u8)
        ensures
            spec_field(final(self).data@, 336, 3) == val as nat % pow2(3),
            forall|j: int|
                0 <= j < 512 && !(336 <= j < 339) ==> spec_bit(final(self).data@, j)
                    == spec_bit(old(self).data@, j),
            forall|off2: int, w2: nat|
                0 <= off2 && off2 + w2 <= 512 && (off2 + w2 <= 336 || 339 <= off2)
                    ==> #[trigger] spec_field(final(self).data@, off2, w2) == spec_field(
                    old(self).data@, off2, w2),
    {
        set_bitfield(&mut self.data, 336, 3, val as u64);
        proof {
            assert forall|off2: int, w2: nat|
                0 <= off2 && off2 + w2 <= 512 && (off2 + w2 <= 336 || 339 <= off2)
                    implies #[trigger] spec_field(final(self).data@, off2, w2) == spec_field(
                old(self).data@, off2, w2) by {
                lemma_spec_field_congruence(old(self).data@, final(self).data@, off2, w2);
            }
        }
    }

    /// Reads the `hoq_life` field (bits 339..344).
    pub fn hoq_life(&self) -> (r: u8)
        ensures
            r as nat == spec_field(self.data@, 339, 5),
    {
        proof {
            lemma_spec_field_bound(self.data@, 339, 5);
            lemma2_to64();
        }
        get_bitfield(&self.data, 339, 5) as u8
    }

    /// Writes the `hoq_life` field (bits 339..344), leaving every other
    /// bit of the record unchanged.
    pub fn set_hoq_life(&mut self, val: u8)
        ensures
            spec_field(final(self).data@, 339, 5) == val as nat % pow2(5),
            forall|j: int|
                0 <= j < 512 && !(339 <= j < 344) ==> spec_bit(final(self).data@, j)
                    == spec_bit(old(self).data@, j),
            forall|off2: int, w2: nat|
                0 <= off2 && off2 + w2 <= 512 && (off2 + w2 <= 339 || 344 <= off2)
                    ==> #[trigger] spec_field(final(self).data@, off2, w2) == spec_field(
                    old(self).data@, off2, w2),
    {
        set_bitfield(&mut self.data, 339, 5, val as u64);
        proof {
            assert forall|off2: int, w2: nat|
                0 <= off2 && off2 + w2 <= 512 && (off2 + w2 <= 339 || 344 <= off2)
                    implies #[trigger] spec_field(final(self).data@, off2, w2) == spec_field(
                old(self).data@, off2, w2) by {
                lemma_spec_field_congruence(old(self).data@, final(self).data@, off2, w2);
            }
        }
    }

    /// Reads the `operational_vls` field (bits 344..348).
    pub fn operational_vls(&self) -> (r: u8)
        ensures
            r as nat == spec_field(self.data@, 344, 4),
    {
        proof {
            lemma_spec_field_bound(self.data@, 344, 4);
            lemma2_to64();
        }
        get_bitfield(&self.data, 344, 4) as u8
    }

    /// Writes the `operational_vls` field (bits 344..348), leaving every other
    /// bit of the record unchanged.
    pub fn set_operational_vls(&mut self, val: u8)
        ensures
            spec_field(final(self).data@, 344, 4) == val as nat % pow2(4),
            forall|j: int|
                0 <= j < 512 && !(344 <= j < 348) ==> spec_bit(final(self).data@, j)
                    == spec_bit(old(self).data@, j),
            forall|off2: int, w2: nat|
                0 <= off2 && off2 + w2 <= 512 && (off2 + w2 <= 344 || 348 <= off2)
                    ==> #[trigger] spec_field(final(self).data@, off2, w2) == spec_field(
                    old(self).data@, off2, w2),
    {
        set_bitfield(&mut self.data, 344, 4, val as u64);
        proof {
            assert forall|off2: int, w2: nat|
                0 <= off2 && off2 + w2 <= 512 && (off2 + w2 <= 344 || 348 <= off2)
                    implies #[trigger] spec_field(final(self).data@, off2, w2) == spec_field(
                old(self).data@, off2, w2) by {
                lemma_spec_field_congruence(old(self).data@, final(self).data@, off2, w2);
            }
        }
    }

    /// Reads the `partition_enforcement_inbound` field (bits 348..349).
    pub fn partition_enforcement_inbound(&self) -> (r: u8)
        ensures
            r as nat == spec_field(self.data@, 348, 1),
    {
        proof {
            lemma_spec_field_bound(self.data@, 348, 1);
            lemma2_to64();
        }
        get_bitfield(&self.data, 348, 1) as u8
    }

    /// Writes the `partition_enforcement_inbound` field (bits 348..349), leaving every other
    /// bit of the record unchanged.
    pub fn set_partition_enforcement_inbound(&mut self, val: u8)
        ensures
            spec_field(final(self).data@, 348, 1) == val as nat % pow2(1),
            forall|j: int|
                0 <= j < 512 && !(348 <= j < 349) ==> spec_bit(final(self).data@, j)
                    == spec_bit(old(self).data@, j),
            forall|off2: int, w2: nat|
                0 <= off2 && off2 + w2 <= 512 && (off2 + w2 <= 348 || 349 <= off2)
                    ==> #[trigger] spec_field(final(self).data@, off2, w2) == spec_field(
                    old(self).data@, off2, w2),
    {
        set_bitfield(&mut self.data, 348, 1, val as u64);
        proof {
            assert forall|off2: int, w2: nat|
                0 <= off2 && off2 + w2 <= 512 && (off2 + w2 <= 348 || 349 <= off2)
                    implies #[trigger] spec_field(final(self).data@, off2, w2) == spec_field(
                old(self).data@, off2, w2) by {
                lemma_spec_field_congruence(old(self).data@, final(self).data@, off2, w2);
            }
        }
    }

    /// Reads the `partition_enforcement_outbound` field (bits 349..350).
    pub fn partition_enforcement_outbound(&self) -> (r: u8)
        ensures
            r as nat == spec_field(self.data@, 349, 1),
    {
        proof {
            lemma_spec_field_bound(self.data@, 349, 1);
            lemma2_to64();
        }
        get_bitfield(&self.data, 349, 1) as u8
    }

    /// Writes the `partition_enforcement_outbound` field (bits 349..350), leaving every other
    /// bit of the record unchanged.
    pub fn set_partition_enforcement_outbound(&mut self, val: u8)
        ensures
            spec_field(final(self).data@, 349, 1) == val as nat % pow2(1),
            forall|j: int|
                0 <= j < 512 && !(349 <= j < 350) ==> spec_bit(final(self).data@, j)
                    == spec_bit(old(self).data@, j),
            forall|off2: int, w2: nat|
                0 <= off2 && off2 + w2 <= 512 && (off2 + w2 <= 349 || 350 <= off2)
                    ==> #[trigger] spec_field(final(self).data@, off2, w2) == spec_field(
                    old(self).data@, off2, w2),
    {
        set_bitfield(&mut self.data, 349, 1, val as u64);
        proof {
            assert forall|off2: int, w2: nat|
                0 <= off2 && off2 + w2 <= 512 && (off2 + w2 <= 349 || 350 <= off2)
                    implies #[trigger] spec_field(final(self).data@, off2, w2) == spec_field(
                old(self).data@, off2, w2) by {
                lemma_spec_field_congruence(old(self).data@, final(self).data@, off2, w2);
            }
        }
    }

    /// Reads the `filter_raw_inbound` field (bits 350..351).
    pub fn filter_raw_inbound(&self) -> (r: u8)
        ensures
            r as nat == spec_field(self.data@, 350, 1),
    {
        proof {
            lemma_spec_field_bound(self.data@, 350, 1);
            lemma2_to64();
        }
        get_bitfield(&self.data, 350, 1) as u8
    }

    /// Writes the `filter_raw_inbound` field (bits 350..351), leaving every other
    /// bit of the record unchanged.
    pub fn set_filter_raw_inbound(&mut self, val: u8)
        ensures
            spec_field(final(self).data@, 350, 1) == val as nat % pow2(1),
            forall|j: int|
                0 <= j < 512 && !(350 <= j < 351) ==> spec_bit(final(self).data@, j)
                    == spec_bit(old(self).data@, j),
            forall|off2: int, w2: nat|
                0 <= off2 && off2 + w2 <= 512 && (off2 + w2 <= 350 || 351 <= off2)
                    ==> #[trigger] spec_field(final(self).data@, off2, w2) == spec_field(
                    old(self).data@, off2, w2),
    {
        set_bitfield(&mut self.data, 350, 1, val as u64);
        proof {
            assert forall|off2: int, w2: nat|
                0 <= off2 && off2 + w2 <= 512 && (off2 + w2 <= 350 || 351 <= off2)
                    implies #[trigger] spec_field(final(self).data@, off2, w2) == spec_field(
                old(self).data@, off2, w2) by {
                lemma_spec_field_congruence(old(self).data@, final(self).data@, off2, w2);
            }
        }
    }

    /// Reads the `filter_raw_outbound` field (bits 351..352).
    pub fn filter_raw_outbound(&self) -> (r: u8)
        ensures
            r as nat == spec_field(self.data@, 351, 1),
    {
        proof {
            lemma_spec_field_bound(self.data@, 351, 1);
            lemma2_to64();
        }
        get_bitfield(&self.data, 351, 1) as u8
    }

    /// Writes the `filter_raw_outbound` field (bits 351..352), leaving every other
    /// bit of the record unchanged.
    pub fn set_filter_raw_outbound(&mut self, val: u8)
        ensures
            spec_field(final(self).data@, 351, 1) == val as nat % pow2(1),
            forall|j: int|
                0 <= j < 512 && !(351 <= j < 352) ==> spec_bit(final(self).data@, j)
                    == spec_bit(old(self).data@, j),
            forall|off2: int, w2: nat|
                0 <= off2 && off2 + w2 <= 512 && (off2 + w2 <= 351 || 352 <= off2)
                    ==> #[trigger] spec_field(final(self).data@, off2, w2) == spec_field(
                    old(self).data@, off2, w2),
    {
        set_bitfield(&mut self.data, 351, 1, val as u64);
        proof {
            assert forall|off2: int, w2: nat|
                0 <= off2 && off2 + w2 <= 512 && (off2 + w2 <= 351 || 352 <= off2)
                    implies #[trigger] spec_field(final(self).data@, off2, w2) == spec_field(
                old(self).data@, off2, w2) by {
                lemma_spec_field_congruence(old(self).data@, final(self).data@, off2, w2);
            }
        }
    }

    /// Reads the `m_key_violations` field (bits 352..368).
    pub fn m_key_violations(&self) -> (r: u16)
        ensures
            r as nat == spec_field(self.data@, 352, 16),
    {
        proof {
            lemma_spec_field_bound(self.data@, 352, 16);
            lemma2_to64();
        }
        get_bitfield(&self.data, 352, 16) as u16
    }

    /// Writes the `m_key_violations` field (bits 352..368), leaving every other
    /// bit of the record unchanged.
    pub fn set_m_key_violations(&mut self, val: u16)
        ensures
            spec_field(final(self).data@, 352, 16) == val as nat,
            forall|j: int|
                0 <= j < 512 && !(352 <= j < 368) ==> spec_bit(final(self).data@, j)
                    == spec_bit(old(self).data@, j),
            forall|off2: int, w2: nat|
                0 <= off2 && off2 + w2 <= 512 && (off2 + w2 <= 352 || 368 <= off2)
                    ==> #[trigger] spec_field(final(self).data@, off2, w2) == spec_field(
                    old(self).data@, off2, w2),
    {
        proof {
            lemma2_to64();
            lemma_small_mod(val as nat, pow2(16));
        }
        set_bitfield(&mut self.data, 352, 16, val as u64);
        proof {
            assert forall|off2: int, w2: nat|
                0 <= off2 && off2 + w2 <= 512 && (off2 + w2 <= 352 || 368 <= off2)
                    implies #[trigger] spec_field(final(self).data@, off2, w2) == spec_field(
                old(self).data@, off2, w2) by {
                lemma_spec_field_congruence(old(self).data@, final(self).data@, off2, w2);
            }
        }
    }

    /// Reads the `p_key_violations` field (bits 368..384).
    pub fn p_key_violations(&self) -> (r: u16)
        ensures
            r as nat == spec_field(self.data@, 368, 16),
    {
        proof {
            lemma_spec_field_bound(self.data@, 368, 16);
            lemma2_to64();
        }
        get_bitfield(&self.data, 368, 16) as u16
    }

    /// Writes the `p_key_violations` field (bits 368..384), leaving every other
    /// bit of the record unchanged.
    pub fn set_p_key_violations(&mut self, val: u16)
        ensures
            spec_field(final(self).data@, 368, 16) == val as nat,
            forall|j: int|
                0 <= j < 512 && !(368 <= j < 384) ==> spec_bit(final(self).data@, j)
                    == spec_bit(old(self).data@, j),
            forall|off2: int, w2: nat|
                0 <= off2 && off2 + w2 <= 512 && (off2 + w2 <= 368 || 384 <= off2)
                    ==> #[trigger] spec_field(final(self).data@, off2, w2) == spec_field(
                    old(self).data@, off2, w2),
    {
        proof {
            lemma2_to64();
            lemma_small_mod(val as nat, pow2(16));
        }
        set_bitfield(&mut self.data, 368, 16, val as u64);
        proof {
            assert forall|off2: int, w2: nat|
                0 <= off2 && off2 + w2 <= 512 && (off2 + w2 <= 368 || 384 <= off2)
                    implies #[trigger] spec_field(final(self).data@, off2, w2) == spec_field(
                old(self).data@, off2, w2) by {
                lemma_spec_field_congruence(old(self).data@, final(self).data@, off2, w2);
            }
        }
    }

    /// Reads the `q_key_violations` field (bits 384..400).
    pub fn q_key_violations(&self) -> (r: u16)
        ensures
            r as nat == spec_field(self.data@, 384, 16),
    {
        proof {
            lemma_spec_field_bound(self.data@, 384, 16);
            lemma2_to64();
        }
        get_bitfield(&self.data, 384, 16) as u16
    }

    /// Writes the `q_key_violations` field (bits 384..400), leaving every other
    /// bit of the record unchanged.
    pub fn set_q_key_violations(&mut self, val: u16)
        ensures
            spec_field(final(self).data@, 384, 16) == val as nat,
            forall|j: int|
                0 <= j < 512 && !(384 <= j < 400) ==> spec_bit(final(self).data@, j)
                    == spec_bit(old(self).data@, j),
            forall|off2: int, w2: nat|
                0 <= off2 && off2 + w2 <= 512 && (off2 + w2 <= 384 || 400 <= off2)
                    ==> #[trigger] spec_field(final(self).data@, off2, w2) == spec_field(
                    old(self).data@, off2, w2),
    {
        proof {
            lemma2_to64();
            lemma_small_mod(val as nat, pow2(16));
        }
        set_bitfield(&mut self.data, 384, 16, val as u64);
        proof {
            assert forall|off2: int, w2: nat|
                0 <= off2 && off2 + w2 <= 512 && (off2 + w2 <= 384 || 400 <= off2)
                    implies #[trigger] spec_field(final(self).data@, off2, w2) == spec_field(
                old(self).data@, off2, w2) by {
                lemma_spec_field_congruence(old(self).data@, final(self).data@, off2, w2);
            }
        }
    }

    /// Reads the `guid_cap` field (bits 400..408).
    pub fn guid_cap(&self) -> (r: u8)
        ensures
            r as nat == spec_field(self.data@, 400, 8),
    {
        proof {
            lemma_spec_field_bound(self.data@, 400, 8);
            lemma2_to64();
        }
        get_bitfield(&self.data, 400, 8) as u8
    }

    /// Writes the `guid_cap` field (bits 400..408), leaving every other
    /// bit of the record unchanged.
    pub fn set_guid_cap(&mut self, val: u8)
        ensures
            spec_field(final(self).data@, 400, 8) == val as nat,
            forall|j: int|
                0 <= j < 512 && !(400 <= j < 408) ==> spec_bit(final(self).data@, j)
                    == spec_bit(old(self).data@, j),
            forall|off2: int, w2: nat|
                0 <= off2 && off2 + w2 <= 512 && (off2 + w2 <= 400 || 408 <= off2)
                    ==> #[trigger] spec_field(final(self).data@, off2, w2) == spec_field(
                    old(self).data@, off2, w2),
    {
        proof {
            lemma2_to64();
            lemma_small_mod(val as nat, pow2(8));
        }
        set_bitfield(&mut self.data, 400, 8, val as u64);
        proof {
            assert forall|off2: int, w2: nat|
                0 <= off2 && off2 + w2 <= 512 && (off2 + w2 <= 400 || 408 <= off2)
                    implies #[trigger] spec_field(final(self).data@, off2, w2) == spec_field(
                old(self).data@, off2, w2) by {
                lemma_spec_field_congruence(old(self).data@, final(self).data@, off2, w2);
            }
        }
    }

    /// Reads the `client_register` field (bits 408..409).
    pub fn client_register(&self) -> (r: u8)
        ensures
            r as nat == spec_field(self.data@, 408, 1),
    {
        proof {
            lemma_spec_field_bound(self.data@, 408, 1);
            lemma2_to64();
        }
        get_bitfield(&self.data, 408, 1) as u8
    }

    /// Writes the `client_register` field (bits 408..409), leaving every other
    /// bit of the record unchanged.
    pub fn set_client_register(&mut self, val: u8)
        ensures
            spec_field(final(self).data@, 408, 1) == val as nat % pow2(1),
            forall|j: int|
                0 <= j < 512 && !(408 <= j < 409) ==> spec_bit(final(self).data@, j)
                    == spec_bit(old(self).data@, j),
            forall|off2: int, w2: nat|
                0 <= off2 && off2 + w2 <= 512 && (off2 + w2 <= 408 || 409 <= off2)
                    ==> #[trigger] spec_field(final(self).data@, off2, w2) == spec_field(
                    old(self).data@, off2, w2),
    {
        set_bitfield(&mut self.data, 408, 1, val as u64);
        proof {
            assert forall|off2: int, w2: nat|
                0 <= off2 && off2 + w2 <= 512 && (off2 + w2 <= 408 || 409 <= off2)
                    implies #[trigger] spec_field(final(self).data@, off2, w2) == spec_field(
                old(self).data@, off2, w2) by {
                lemma_spec_field_congruence(old(self).data@, final(self).data@, off2, w2);
            }
        }
    }

    /// Reads the `multicast_pkey_trap_suppression` field (bits 409..411).
    pub fn multicast_pkey_trap_suppression(&self) -> (r: u8)
        ensures
            r as nat == spec_field(self.data@, 409, 2),
    {
        proof {
            lemma_spec_field_bound(self.data@, 409, 2);
            lemma2_to64();
        }
        get_bitfield(&self.data, 409, 2) as u8
    }

    /// Writes the `multicast_pkey_trap_suppression` field (bits 409..411), leaving every other
    /// bit of the record unchanged.
    pub fn set_multicast_pkey_trap_suppression(&mut self, val: u8)
        ensures
            spec_field(final(self).data@, 409, 2) == val as nat % pow2(2),
            forall|j: int|
                0 <= j < 512 && !(409 <= j < 411) ==> spec_bit(final(self).data@, j)
                    == spec_bit(old(self).data@, j),
            forall|off2: int, w2: nat|
                0 <= off2 && off2 + w2 <= 512 && (off2 + w2 <= 409 || 411 <= off2)
                    ==> #[trigger] spec_field(final(self).data@, off2, w2) == spec_field(
                    old(self).data@, off2, w2),
    {
        set_bitfield(&mut self.data, 409, 2, val as u64);
        proof {
            assert forall|off2: int, w2: nat|
                0 <= off2 && off2 + w2 <= 512 && (off2 + w2 <= 409 || 411 <= off2)
                    implies #[trigger] spec_field(final(self).data@, off2, w2) == spec_field(
                old(self).data@, off2, w2) by {
                lemma_spec_field_congruence(old(self).data@, final(self).data@, off2, w2);
            }
        }
    }

    /// Reads the `subnet_timeout` field (bits 411..416).
    pub fn subnet_timeout(&self) -> (r: u8)
        ensures
            r as nat == spec_field(self.data@, 411, 5),
    {
        proof {
            lemma_spec_field_bound(self.data@, 411, 5);
            lemma2_to64();
        }
        get_bitfield(&self.data, 411, 5) as u8
    }

    /// Writes the `subnet_timeout` field (bits 411..416), leaving every other
    /// bit of the record unchanged.
    pub fn set_subnet_timeout(&mut self, val: u8)
        ensures
            spec_field(final(self).data@, 411, 5) == val as nat % pow2(5),
            forall|j: int|
                0 <= j < 512 && !(411 <= j < 416) ==> spec_bit(final(self).data@, j)
                    == spec_bit(old(self).data@, j),
            forall|off2: int, w2: nat|
                0 <= off2 && off2 + w2 <= 512 && (off2 + w2 <= 411 || 416 <= off2)
                    ==> #[trigger] spec_field(final(self).data@, off2, w2) == spec_field(
                    old(self).data@, off2, w2),
    {
        set_bitfield(&mut self.data, 411, 5, val as u64);
        proof {
            assert forall|off2: int, w2: nat|
                0 <= off2 && off2 + w2 <= 512 && (off2 + w2 <= 411 || 416 <= off2)
                    implies #[trigger] spec_field(final(self).data@, off2, w2) == spec_field(
                old(self).data@, off2, w2) by {
                lemma_spec_field_congruence(old(self).data@, final(self).data@, off2, w2);
            }
        }
    }

    /// Reads the `partition_top` field (bits 416..418).
    pub fn partition_top(&self) -> (r: u8)
        ensures
            r as nat == spec_field(self.data@, 416, 2),
    {
        proof {
            lemma_spec_field_bound(self.data@, 416, 2);
            lemma2_to64();
        }
        get_bitfield(&self.data, 416, 2) as u8
    }

    /// Writes the `partition_top` field (bits 416..418), leaving every other
    /// bit of the record unchanged.
    pub fn set_partition_top(&mut self, val: u8)
        ensures
            spec_field(final(self).data@, 416, 2) == val as nat % pow2(2),
            forall|j: int|
                0 <= j < 512 && !(416 <= j < 418) ==> spec_bit(final(self).data@, j)
                    == spec_bit(old(self).data@, j),
            forall|off2: int, w2: nat|
                0 <= off2 && off2 + w2 <= 512 && (off2 + w2 <= 416 || 418 <= off2)
                    ==> #[trigger] spec_field(final(self).data@, off2, w2) == spec_field(
                    old(self).data@, off2, w2),
    {
        set_bitfield(&mut self.data, 416, 2, val as u64);
        proof {
            assert forall|off2: int, w2: nat|
                0 <= off2 && off2 + w2 <= 512 && (off2 + w2 <= 416 || 418 <= off2)
                    implies #[trigger] spec_field(final(self).data@, off2, w2) == spec_field(
                old(self).data@, off2, w2) by {
                lemma_spec_field_congruence(old(self).data@, final(self).data@, off2, w2);
            }
        }
    }

    /// Reads the `enhanced_qos_arbiter_enabled` field (bits 417..418).
    pub fn enhanced_qos_arbiter_enabled(&self) -> (r: u8)
        ensures
            r as nat == spec_field(self.data@, 417, 1),
    {
        proof {
            lemma_spec_field_bound(self.data@, 417, 1);
            lemma2_to64();
        }
        get_bitfield(&self.data, 417, 1) as u8
    }

    /// Writes the `enhanced_qos_arbiter_enabled` field (bits 417..418), leaving every other
    /// bit of the record unchanged.
    pub fn set_enhanced_qos_arbiter_enabled(&mut self, val: u8)
        ensures
            spec_field(final(self).data@, 417, 1) == val as nat % pow2(1),
            forall|j: int|
                0 <= j < 512 && !(417 <= j < 418) ==> spec_bit(final(self).data@, j)
                    == spec_bit(old(self).data@, j),
            forall|off2: int, w2: nat|
                0 <= off2 && off2 + w2 <= 512 && (off2 + w2 <= 417 || 418 <= off2)
                    ==> #[trigger] spec_field(final(self).data@, off2, w2) == spec_field(
                    old(self).data@, off2, w2),
    {
        set_bitfield(&mut self.data, 417, 1, val as u64);
        proof {
            assert forall|off2: int, w2: nat|
                0 <= off2 && off2 + w2 <= 512 && (off2 + w2 <= 417 || 418 <= off2)
                    implies #[trigger] spec_field(final(self).data@, off2, w2) == spec_field(
                old(self).data@, off2, w2) by {
                lemma_spec_field_congruence(old(self).data@, final(self).data@, off2, w2);
            }
        }
    }

    /// Reads the `resp_time_value` field (bits 419..424).
    pub fn resp_time_value(&self) -> (r: u8)
        ensures
            r as nat == spec_field(self.data@, 419, 5),
    {
        proof {
            lemma_spec_field_bound(self.data@, 419, 5);
            lemma2_to64();
        }
        get_bitfield(&self.data, 419, 5) as u8
    }

    /// Writes the `resp_time_value` field (bits 419..424), leaving every other
    /// bit of the record unchanged.
    pub fn set_resp_time_value(&mut self, val: u8)
        ensures
            spec_field(final(self).data@, 419, 5) == val as nat % pow2(5),
            forall|j: int|
                0 <= j < 512 && !(419 <= j < 424) ==> spec_bit(final(self).data@, j)
                    == spec_bit(old(self).data@, j),
            forall|off2: int, w2: nat|
                0 <= off2 && off2 + w2 <= 512 && (off2 + w2 <= 419 || 424 <= off2)
                    ==> #[trigger] spec_field(final(self).data@, off2, w2) == spec_field(
                    old(self).data@, off2, w2),
    {
        set_bitfield(&mut self.data, 419, 5, val as u64);
        proof {
            assert forall|off2: int, w2: nat|
                0 <= off2 && off2 + w2 <= 512 && (off2 + w2 <= 419 || 424 <= off2)
                    implies #[trigger] spec_field(final(self).data@, off2, w2) == spec_field(
                old(self).data@, off2, w2) by {
                lemma_spec_field_congruence(old(self).data@, final(self).data@, off2, w2);
            }
        }
    }

    /// Reads the `local_phy_errors` field (bits 424..428).
    pub fn local_phy_errors(&self) -> (r: u8)
        ensures
            r as nat == spec_field(self.data@, 424, 4),
    {
        proof {
            lemma_spec_field_bound(self.data@, 424, 4);
            lemma2_to64();
        }
        get_bitfield(&self.data, 424, 4) as u8
    }

    /// Writes the `local_phy_errors` field (bits 424..428), leaving every other
    /// bit of the record unchanged.
    pub fn set_local_phy_errors(&mut self, val: u8)
        ensures
            spec_field(final(self).data@, 424, 4) == val as nat % pow2(4),
            forall|j: int|
                0 <= j < 512 && !(424 <= j < 428) ==> spec_bit(final(self).data@, j)
                    == spec_bit(old(self).data@, j),
            forall|off2: int, w2: nat|
                0 <= off2 && off2 + w2 <= 512 && (off2 + w2 <= 424 || 428 <= off2)
                    ==> #[trigger] spec_field(final(self).data@, off2, w2) == spec_field(
                    old(self).data@, off2, w2),
    {
        set_bitfield(&mut self.data, 424, 4, val as u64);
        proof {
            assert forall|off2: int, w2: nat|
                0 <= off2 && off2 + w2 <= 512 && (off2 + w2 <= 424 || 428 <= off2)
                    implies #[trigger] spec_field(final(self).data@, off2, w2) == spec_field(
                old(self).data@, off2, w2) by {
                lemma_spec_field_congruence(old(self).data@, final(self).data@, off2, w2);
            }
        }
    }

    /// Reads the `overrun_errors` field (bits 428..432).
    pub fn overrun_errors(&self) -> (r: u8)
        ensures
            r as nat == spec_field(self.data@, 428, 4),
    {
        proof {
            lemma_spec_field_bound(self.data@, 428, 4);
            lemma2_to64();
        }
        get_bitfield(&self.data, 428, 4) as u8
    }

    /// Writes the `overrun_errors` field (bits 428..432), leaving every other
    /// bit of the record unchanged.
    pub fn set_overrun_errors(&mut self, val: u8)
        ensures
            spec_field(final(self).data@, 428, 4) == val as nat % pow2(4),
            forall|j: int|
                0 <= j < 512 && !(428 <= j < 432) ==> spec_bit(final(self).data@, j)
                    == spec_bit(old(self).data@, j),
            forall|off2: int, w2: nat|
                0 <= off2 && off2 + w2 <= 512 && (off2 + w2 <= 428 || 432 <= off2)
                    ==> #[trigger] spec_field(final(self).data@, off2, w2) == spec_field(
                    old(self).data@, off2, w2),
    {
        set_bitfield(&mut self.data, 428, 4, val as u64);
        proof {
            assert forall|off2: int, w2: nat|
                0 <= off2 && off2 + w2 <= 512 && (off2 + w2 <= 428 || 432 <= off2)
                    implies #[trigger] spec_field(final(self).data@, off2, w2) == spec_field(
                old(self).data@, off2, w2) by {
                lemma_spec_field_congruence(old(self).data@, final(self).data@, off2, w2);
            }
        }
    }

    /// Reads the `max_credit_hint` field (bits 432..448).
    pub fn max_credit_hint(&self) -> (r: u16)
        ensures
            r as nat == spec_field(self.data@, 432, 16),
    {
        proof {
            lemma_spec_field_bound(self.data@, 432, 16);
            lemma2_to64();
        }
        get_bitfield(&self.data, 432, 16) as u16
    }

    /// Writes the `max_credit_hint` field (bits 432..448), leaving every other
    /// bit of the record unchanged.
    pub fn set_max_credit_hint(&mut self, val: u16)
        ensures
            spec_field(final(self).data@, 432, 16) == val as nat,
            forall|j: int|
                0 <= j < 512 && !(432 <= j < 448) ==> spec_bit(final(self).data@, j)
                    == spec_bit(old(self).data@, j),
            forall|off2: int, w2: nat|
                0 <= off2 && off2 + w2 <= 512 && (off2 + w2 <= 432 || 448 <= off2)
                    ==> #[trigger] spec_field(final(self).data@, off2, w2) == spec_field(
                    old(self).data@, off2, w2),
    {
        proof {
            lemma2_to64();
            lemma_small_mod(val as nat, pow2(16));
        }
        set_bitfield(&mut self.data, 432, 16, val as u64);
        proof {
            assert forall|off2: int, w2: nat|
                0 <= off2 && off2 + w2 <= 512 && (off2 + w2 <= 432 || 448 <= off2)
                    implies #[trigger] spec_field(final(self).data@, off2, w2) == spec_field(
                old(self).data@, off2, w2) by {
                lemma_spec_field_congruence(old(self).data@, final(self).data@, off2, w2);
            }
        }
    }

    /// Reads the `link_round_trip_latency` field (bits 456..480).
    pub fn link_round_trip_latency(&self) -> (r: u32)
        ensures
            r as nat == spec_field(self.data@, 456, 24),
    {
        proof {
            lemma_spec_field_bound(self.data@, 456, 24);
            lemma2_to64();
        }
        get_bitfield(&self.data, 456, 24) as u32
    }

    /// Writes the `link_round_trip_latency` field (bits 456..480), leaving every other
    /// bit of the record unchanged.
    pub fn set_link_round_trip_latency(&mut self, val: u32)
        ensures
            spec_field(final(self).data@, 456, 24) == val as nat % pow2(24),
            forall|j: int|
                0 <= j < 512 && !(456 <= j < 480) ==> spec_bit(final(self).data@, j)
                    == spec_bit(old(self).data@, j),
            forall|off2: int, w2: nat|
                0 <= off2 && off2 + w2 <= 512 && (off2 + w2 <= 456 || 480 <= off2)
                    ==> #[trigger] spec_field(final(self).data@, off2, w2) == spec_field(
                    old(self).data@, off2, w2),
    {
        set_bitfield(&mut self.data, 456, 24, val as u64);
        proof {
            assert forall|off2: int, w2: nat|
                0 <= off2 && off2 + w2 <= 512 && (off2 + w2 <= 456 || 480 <= off2)
                    implies #[trigger] spec_field(final(self).data@, off2, w2) == spec_field(
                old(self).data@, off2, w2) by {
                lemma_spec_field_congruence(old(self).data@, final(self).data@, off2, w2);
            }
        }
    }

    /// Reads the `capability_mask2` field (bits 480..496).
    pub fn capability_mask2(&self) -> (r: u16)
        ensures
            r as nat == spec_field(self.data@, 480, 16),
    {
        proof {
            lemma_spec_field_bound(self.data@, 480, 16);
            lemma2_to64();
        }
        get_bitfield(&self.data, 480, 16) as u16
    }

    /// Writes the `capability_mask2` field (bits 480..496), leaving every other
    /// bit of the record unchanged.
    pub fn set_capability_mask2(&mut self, val: u16)
        ensures
            spec_field(final(self).data@, 480, 16) == val as nat,
            forall|j: int|
                0 <= j < 512 && !(480 <= j < 496) ==> spec_bit(final(self).data@, j)
                    == spec_bit(old(self).data@, j),
            forall|off2: int, w2: nat|
                0 <= off2 && off2 + w2 <= 512 && (off2 + w2 <= 480 || 496 <= off2)
                    ==> #[trigger] spec_field(final(self).data@, off2, w2) == spec_field(
                    old(self).data@, off2, w2),
    {
        proof {
            lemma2_to64();
            lemma_small_mod(val as nat, pow2(16));
        }
        set_bitfield(&mut self.data, 480, 16, val as u64);
        proof {
            assert forall|off2: int, w2: nat|
                0 <= off2 && off2 + w2 <= 512 && (off2 + w2 <= 480 || 496 <= off2)
                    implies #[trigger] spec_field(final(self).data@, off2, w2) == spec_field(
                old(self).data@, off2, w2) by {
                lemma_spec_field_congruence(old(self).data@, final(self).data@, off2, w2);
            }
        }
    }

    /// Reads the `link_speed_ext_active` field (bits 496..500).
    pub fn link_speed_ext_active(&self) -> (r: u8)
        ensures
            r as nat == spec_field(self.data@, 496, 4),
    {
        proof {
            lemma_spec_field_bound(self.data@, 496, 4);
            lemma2_to64();
        }
        get_bitfield(&self.data, 496, 4) as u8
    }

    /// Writes the `link_speed_ext_active` field (bits 496..500), leaving every other
    /// bit of the record unchanged.
    pub fn set_link_speed_ext_active(&mut self, val: u8)
        ensures
            spec_field(final(self).data@, 496, 4) == val as nat % pow2(4),
            forall|j: int|
                0 <= j < 512 && !(496 <= j < 500) ==> spec_bit(final(self).data@, j)
                    == spec_bit(old(self).data@, j),
            forall|off2: int, w2: nat|
                0 <= off2 && off2 + w2 <= 512 && (off2 + w2 <= 496 || 500 <= off2)
                    ==> #[trigger] spec_field(final(self).data@, off2, w2) == spec_field(
                    old(self).data@, off2, w2),
    {
        set_bitfield(&mut self.data, 496, 4, val as u64);
        proof {
            assert forall|off2: int, w2: nat|
                0 <= off2 && off2 + w2 <= 512 && (off2 + w2 <= 496 || 500 <= off2)
                    implies #[trigger] spec_field(final(self).data@, off2, w2) == spec_field(
                old(self).data@, off2, w2) by {
                lemma_spec_field_congruence(old(self).data@, final(self).data@, off2, w2);
            }
        }
    }

    /// Reads the `link_speed_ext_supported` field (bits 500..504).
    pub fn link_speed_ext_supported(&self) -> (r: u8)
        ensures
            r as nat == spec_field(self.data@, 500, 4),
    {
        proof {
            lemma_spec_field_bound(self.data@, 500, 4);
            lemma2_to64();
        }
        get_bitfield(&self.data, 500, 4) as u8
    }

    /// Writes the `link_speed_ext_supported` field (bits 500..504), leaving every other
    /// bit of the record unchanged.
    pub fn set_link_speed_ext_supported(&mut self, val: u8)
        ensures
            spec_field(final(self).data@, 500, 4) == val as nat % pow2(4),
            forall|j: int|
                0 <= j < 512 && !(500 <= j < 504) ==> spec_bit(final(self).data@, j)
                    == spec_bit(old(self).data@, j),
            forall|off2: int, w2: nat|
                0 <= off2 && off2 + w2 <= 512 && (off2 + w2 <= 500 || 504 <= off2)
                    ==> #[trigger] spec_field(final(self).data@, off2, w2) == spec_field(
                    old(self).data@, off2, w2),
    {
        set_bitfield(&mut self.data, 500, 4, val as u64);
        proof {
            assert forall|off2: int, w2: nat|
                0 <= off2 && off2 + w2 <= 512 && (off2 + w2 <= 500 || 504 <= off2)
                    implies #[trigger] spec_field(final(self).data@, off2, w2) == spec_field(
                old(self).data@, off2, w2) by {
                lemma_spec_field_congruence(old(self).data@, final(self).data@, off2, w2);
            }
        }
    }

    /// Reads the `link_speed_ext_enabled` field (bits 504..509).
    pub fn link_speed_ext_enabled(&self) -> (r: u8)
        ensures
            r as nat == spec_field(self.data@, 504, 5),
    {
        proof {
            lemma_spec_field_bound(self.data@, 504, 5);
            lemma2_to64();
        }
        get_bitfield(&self.data, 504, 5) as u8
    }

    /// Writes the `link_speed_ext_enabled` field (bits 504..509), leaving every other
    /// bit of the record unchanged.
    pub fn set_link_speed_ext_enabled(&mut self, val: u8)
        ensures
            spec_field(final(self).data@, 504, 5) == val as nat % pow2(5),
            forall|j: int|
                0 <= j < 512 && !(504 <= j < 509) ==> spec_bit(final(self).data@, j)
                    == spec_bit(old(self).data@, j),
            forall|off2: int, w2: nat|
                0 <= off2 && off2 + w2 <= 512 && (off2 + w2 <= 504 || 509 <= off2)
                    ==> #[trigger] spec_field(final(self).data@, off2, w2) == spec_field(
                    old(self).data@, off2, w2),
    {
        set_bitfield(&mut self.data, 504, 5, val as u64);
        proof {
            assert forall|off2: int, w2: nat|
                0 <= off2 && off2 + w2 <= 512 && (off2 + w2 <= 504 || 509 <= off2)
                    implies #[trigger] spec_field(final(self).data@, off2, w2) == spec_field(
                old(self).data@, off2, w2) by {
                lemma_spec_field_congruence(old(self).data@, final(self).data@, off2, w2);
            }
        }
    }
}

} // verus!
