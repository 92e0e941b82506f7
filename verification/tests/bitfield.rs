//! The bit-level accessor toolkit: exact values, width edges, and
//! non-interference between fields.

use ibmad::mad::helpers::{get_bitfield, set_bitfield};

#[test]
fn get_bitfield_big_endian_bit_order() {
    // bit 0 is the most significant bit of byte 0
    let data = [0b1010_0000u8, 0x00, 0x00];
    assert_eq!(get_bitfield(&data, 0, 1), 1);
    assert_eq!(get_bitfield(&data, 1, 1), 0);
    assert_eq!(get_bitfield(&data, 2, 1), 1);
    assert_eq!(get_bitfield(&data, 0, 4), 0b1010);
}

#[test]
fn get_bitfield_crosses_byte_boundary() {
    let data = [0x12u8, 0x34, 0x56];
    // bits 4..12 span two bytes: low nibble of 0x12 and high nibble of 0x34
    assert_eq!(get_bitfield(&data, 4, 8), 0x23);
    assert_eq!(get_bitfield(&data, 0, 24), 0x123456);
}

#[test]
fn set_bitfield_exact_bytes() {
    let mut data = vec![0u8; 4];
    set_bitfield(&mut data, 4, 8, 0xAB);
    assert_eq!(data, vec![0x0A, 0xB0, 0x00, 0x00]);
    set_bitfield(&mut data, 0, 4, 0xF);
    assert_eq!(data, vec![0xFA, 0xB0, 0x00, 0x00]);
}

#[test]
fn set_bitfield_masks_to_width() {
    let mut data = vec![0u8; 2];
    // a value wider than the field keeps only its low bits
    set_bitfield(&mut data, 0, 4, 0xFF);
    assert_eq!(data[0], 0xF0);
    set_bitfield(&mut data, 0, 4, 0x12);
    assert_eq!(data[0], 0x20);
}

#[test]
fn set_then_get_round_trips() {
    let mut data = vec![0u8; 16];
    set_bitfield(&mut data, 13, 11, 0x5A5);
    assert_eq!(get_bitfield(&data, 13, 11), 0x5A5);
    set_bitfield(&mut data, 64, 64, 0x0123_4567_89AB_CDEF);
    assert_eq!(get_bitfield(&data, 64, 64), 0x0123_4567_89AB_CDEF);
}

#[test]
fn set_bitfield_does_not_disturb_neighbors() {
    let mut data = vec![0xFFu8; 8];
    set_bitfield(&mut data, 8, 8, 0);
    assert_eq!(data[0], 0xFF);
    assert_eq!(data[1], 0x00);
    assert_eq!(data[2], 0xFF);
    // adjacent bit fields inside one byte
    let mut d2 = vec![0u8; 1];
    set_bitfield(&mut d2, 0, 4, 0x9);
    set_bitfield(&mut d2, 4, 4, 0x6);
    assert_eq!(get_bitfield(&d2, 0, 4), 0x9);
    assert_eq!(get_bitfield(&d2, 4, 4), 0x6);
    assert_eq!(d2[0], 0x96);
}

#[test]
fn single_bit_and_full_width() {
    let mut data = vec![0u8; 8];
    set_bitfield(&mut data, 63, 1, 1);
    assert_eq!(data[7], 0x01);
    assert_eq!(get_bitfield(&data, 63, 1), 1);
    set_bitfield(&mut data, 0, 64, u64::MAX);
    assert_eq!(data, vec![0xFF; 8]);
    assert_eq!(get_bitfield(&data, 0, 64), u64::MAX);
}

#[test]
fn every_declared_width_round_trips() {
    // widths drawn from the PortInfo layout: 1 to 64 bits at odd offsets
    let widths: [usize; 9] = [1, 2, 3, 4, 5, 8, 16, 24, 64];
    let mut data = vec![0u8; 24];
    let mut off: usize = 3;
    for &w in widths.iter() {
        let val: u64 = if w == 64 { 0xDEAD_BEEF_0123_4567 } else { (1u64 << w) - 1 };
        set_bitfield(&mut data, off, w, val);
        assert_eq!(get_bitfield(&data, off, w), val);
        off += w + 1;
    }
}
