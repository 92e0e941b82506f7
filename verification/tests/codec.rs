//! Wire-codec round trips and byte-exact encoding checks.

use ibmad::discovery::Fabric;
use ibmad::enums::SmiAttrID;
use ibmad::mad::{dr_smp_mad, ib_mad, ib_mad_addr, ib_user_mad, node_info};

fn sample_addr() -> ib_mad_addr {
    ib_mad_addr {
        qpn: 0x00A1B2C3,
        qkey: 0x80010000,
        lid: 0xFFFF,
        sl: 3,
        path_bits: 1,
        grh_present: 0,
        gid_index: 2,
        hop_limit: 63,
        traffic_class: 9,
        gid: [7u8; 16],
        flow_label: 0x000FF00F,
        pkey_index: 0x1234,
        reserved: [0u8; 6],
    }
}

fn sample_mad() -> ib_mad {
    let mut data = [0u8; 232];
    data[0] = 0xAB;
    data[231] = 0xCD;
    ib_mad {
        base_version: 1,
        mgmt_class: 0x81,
        class_version: 1,
        method: 0x01,
        status: 0x1122,
        hop_ptr: 0,
        hop_cnt: 3,
        tid: 0x0102030405060708,
        attr_id: 0x0011,
        additional_status: 0,
        attr_mod: 0xA1B2C3D4,
        data,
    }
}

#[test]
fn ib_mad_round_trip() {
    let m = sample_mad();
    let bytes = m.to_bytes();
    assert_eq!(bytes.len(), 256);
    let d = ib_mad::from_bytes(&bytes).unwrap();
    assert_eq!(d.base_version, m.base_version);
    assert_eq!(d.mgmt_class, m.mgmt_class);
    assert_eq!(d.class_version, m.class_version);
    assert_eq!(d.method, m.method);
    assert_eq!(d.status, m.status);
    assert_eq!(d.hop_ptr, m.hop_ptr);
    assert_eq!(d.hop_cnt, m.hop_cnt);
    assert_eq!(d.tid, m.tid);
    assert_eq!(d.attr_id, m.attr_id);
    assert_eq!(d.additional_status, m.additional_status);
    assert_eq!(d.attr_mod, m.attr_mod);
    assert_eq!(d.data, m.data);
}

#[test]
fn ib_mad_encodes_big_endian() {
    let m = sample_mad();
    let bytes = m.to_bytes();
    // the transaction identifier sits at bytes 8..16, big-endian
    assert_eq!(&bytes[8..16], &[1, 2, 3, 4, 5, 6, 7, 8]);
    // the attribute identifier at 16..18
    assert_eq!(&bytes[16..18], &[0x00, 0x11]);
    // the attribute modifier at 20..24
    assert_eq!(&bytes[20..24], &[0xA1, 0xB2, 0xC3, 0xD4]);
    assert_eq!(bytes[1], 0x81);
}

#[test]
fn ib_mad_addr_round_trip() {
    let a = sample_addr();
    let bytes = a.to_bytes();
    assert_eq!(bytes.len(), 44);
    let d = ib_mad_addr::from_bytes(&bytes).unwrap();
    assert_eq!(d.qpn, a.qpn);
    assert_eq!(d.qkey, a.qkey);
    assert_eq!(d.lid, a.lid);
    assert_eq!(d.sl, a.sl);
    assert_eq!(d.path_bits, a.path_bits);
    assert_eq!(d.grh_present, a.grh_present);
    assert_eq!(d.gid_index, a.gid_index);
    assert_eq!(d.hop_limit, a.hop_limit);
    assert_eq!(d.traffic_class, a.traffic_class);
    assert_eq!(d.gid, a.gid);
    assert_eq!(d.flow_label, a.flow_label);
    assert_eq!(d.pkey_index, a.pkey_index);
}

#[test]
fn ib_user_mad_round_trip() {
    let mut data = [0u8; 256];
    data[5] = 0x5A;
    let u = ib_user_mad {
        agent_id: 7,
        status: 0,
        timeout_ms: 50,
        retries: 2,
        length: 256,
        addr: sample_addr(),
        data,
    };
    let bytes = u.to_bytes();
    assert_eq!(bytes.len(), 320);
    let d = ib_user_mad::from_bytes(&bytes).unwrap();
    assert_eq!(d.agent_id, u.agent_id);
    assert_eq!(d.status, u.status);
    assert_eq!(d.timeout_ms, u.timeout_ms);
    assert_eq!(d.retries, u.retries);
    assert_eq!(d.length, u.length);
    assert_eq!(d.addr.qpn, u.addr.qpn);
    assert_eq!(d.data, u.data);
    // the header the kernel consumes is little-endian
    assert_eq!(&bytes[0..4], &[7, 0, 0, 0]);
    assert_eq!(&bytes[8..12], &[50, 0, 0, 0]);
}

#[test]
fn dr_smp_round_trip() {
    let mut path = [0u8; 64];
    path[1] = 1;
    path[2] = 34;
    path[3] = 29;
    let dr = dr_smp_mad {
        m_key: 0xDEADBEEF00112233,
        drslid: 0xffff,
        drdlid: 0xfffe,
        reserved: [0u8; 28],
        attr_layout: [9u8; 64],
        initial_path: path,
        return_path: [0u8; 64],
    };
    let bytes = dr.to_bytes();
    assert_eq!(bytes.len(), 232);
    let d = dr_smp_mad::from_bytes(&bytes).unwrap();
    assert_eq!(d.m_key, dr.m_key);
    assert_eq!(d.drslid, dr.drslid);
    assert_eq!(d.drdlid, dr.drdlid);
    assert_eq!(d.attr_layout, dr.attr_layout);
    assert_eq!(d.initial_path, dr.initial_path);
    assert_eq!(d.return_path, dr.return_path);
}

#[test]
fn node_info_round_trip() {
    let ni = node_info {
        base_version: 1,
        class_version: 1,
        node_type: 2,
        nports: 65,
        system_guid: 0x7ffc_0000_0000_1000,
        node_guid: 0x7ffc_0000_0000_1001,
        port_guid: 0x7ffc_0000_0000_1002,
        partition_cap: 8,
        device_id: 0xd2f2,
        revision: 0xa0,
        local_port: 3,
        vendor_id: [0x00, 0xcf, 0x09],
        reserved: [0u8; 24],
    };
    let bytes = ni.to_bytes();
    assert_eq!(bytes.len(), 64);
    let d = node_info::from_bytes(&bytes).unwrap();
    assert_eq!(d.base_version, ni.base_version);
    assert_eq!(d.class_version, ni.class_version);
    assert_eq!(d.node_type, ni.node_type);
    assert_eq!(d.nports, ni.nports);
    assert_eq!(d.system_guid, ni.system_guid);
    assert_eq!(d.node_guid, ni.node_guid);
    assert_eq!(d.port_guid, ni.port_guid);
    assert_eq!(d.partition_cap, ni.partition_cap);
    assert_eq!(d.device_id, ni.device_id);
    assert_eq!(d.revision, ni.revision);
    assert_eq!(d.local_port, ni.local_port);
    assert_eq!(d.vendor_id, ni.vendor_id);
    // the node GUID sits at bytes 12..20, big-endian
    assert_eq!(&bytes[12..20], &[0x7f, 0xfc, 0, 0, 0, 0, 0x10, 0x01]);
}

#[test]
fn from_bytes_rejects_short_buffers() {
    assert!(ib_mad::from_bytes(&[0u8; 255]).is_none());
    assert!(ib_user_mad::from_bytes(&[0u8; 319]).is_none());
    assert!(ib_mad_addr::from_bytes(&[0u8; 43]).is_none());
    assert!(dr_smp_mad::from_bytes(&[0u8; 231]).is_none());
    assert!(node_info::from_bytes(&[0u8; 63]).is_none());
}

#[test]
fn umad_tid_accessors() {
    let umad = Fabric::build_dr_smp_umad(
        [0u8; 64],
        SmiAttrID::NodeInfo,
        0,
        0,
        0xCAFEBABE,
        50,
        1,
    );
    assert_eq!(umad.get_tid(), 0xCAFEBABE);
    let other = Fabric::build_dr_smp_umad([0u8; 64], SmiAttrID::NodeInfo, 0, 0, 0xCAFEBABE, 9, 9);
    assert!(umad.is_tid_equal(&other));
    let third = Fabric::build_dr_smp_umad([0u8; 64], SmiAttrID::NodeInfo, 0, 0, 1, 50, 1);
    assert!(!umad.is_tid_equal(&third));
}

#[test]
fn build_dr_smp_umad_layout() {
    let mut path = [0u8; 64];
    path[1] = 1;
    path[2] = 7;
    let umad = Fabric::build_dr_smp_umad(path, SmiAttrID::PortInfo, 7, 2, 0x42, 600, 3);
    assert_eq!(umad.timeout_ms, 600);
    assert_eq!(umad.retries, 3);
    assert_eq!(umad.addr.lid, 0xffff);
    assert_eq!(umad.addr.qkey, 0x80010000);
    assert_eq!(umad.addr.hop_limit, 63);
    // embedded envelope: directed-route class, method Get, hop count
    assert_eq!(umad.data[0], 1);
    assert_eq!(umad.data[1], 0x81);
    assert_eq!(umad.data[3], 1);
    assert_eq!(umad.data[7], 2);
    // attribute id 0x15 big-endian at 16..18, modifier at 20..24
    assert_eq!(&umad.data[16..18], &[0x00, 0x15]);
    assert_eq!(&umad.data[20..24], &[0, 0, 0, 7]);
    // the initial path sits at 128..192 of the envelope data
    assert_eq!(&umad.data[128..192], &path[..]);
}

#[test]
fn dump_bytes_exact_format() {
    let buf: Vec<u8> = (0u8..20).collect();
    let expected = "0x0000: 00 01 02 03 04 05 06 07  08 09 0a 0b 0c 0d 0e 0f  \n0x000f: 10 11 12 13 ";
    assert_eq!(ibmad::dump_bytes(&buf), expected.to_string());
    assert_eq!(ibmad::dump_bytes(&[]), "0x0000: ".to_string());
}

#[test]
fn backoff_doubles_and_saturates() {
    assert_eq!(ibmad::discovery::backoff_timeout(50), 100);
    assert_eq!(ibmad::discovery::backoff_timeout(0), 0);
    assert_eq!(ibmad::discovery::backoff_timeout(u32::MAX), u32::MAX);
    assert_eq!(ibmad::discovery::backoff_timeout(u32::MAX / 2 + 1), u32::MAX);
}
