//! PortInfo bit-level decoding against the canonical fixture values.

use ibmad::mad::dr_smp_mad;
use ibmad::mad::port_info;

/// Builds the canonical 64-byte PortInfo record: `lid = 27251`,
/// `master_sm_lid = 4`, `capability_mask = 0xA751E848`,
/// `operational_vls = 3`, `guid_cap = 8`, `link_speed_ext_active = 8`.
fn canonical_port_info() -> port_info {
    let mut pi = port_info { data: [0u8; 64] };
    pi.set_lid(27251);
    pi.set_master_sm_lid(4);
    pi.set_capability_mask(0xA751E848);
    pi.set_operational_vls(3);
    pi.set_guid_cap(8);
    pi.set_link_speed_ext_active(8);
    pi
}

/// Builds the 256-byte MAD image the fixture packet carries: a directed
/// route SMP whose attribute layout holds the canonical PortInfo.
fn get_pi_mad() -> [u8; 256] {
    let dr = dr_smp_mad {
        m_key: 0,
        drslid: 0xffff,
        drdlid: 0xffff,
        reserved: [0u8; 28],
        attr_layout: canonical_port_info().data,
        initial_path: [0u8; 64],
        return_path: [0u8; 64],
    };
    let dr_bytes = dr.to_bytes();
    let mut bytes = [0u8; 256];
    bytes[24..256].copy_from_slice(&dr_bytes);
    bytes
}

#[test]
fn get_port_info_lid_success() {
    let bytes = get_pi_mad();

    let dr_smp_bytes = &bytes[24..256];

    match dr_smp_mad::from_bytes(dr_smp_bytes) {
        Some(dr_smp) => {
            let pi = port_info::from_bytes(&dr_smp.attr_layout).unwrap();
            assert!(pi.lid() == 27251, "lid is not 27251");
        }
        None => {}
    };
}

#[test]
fn set_port_info_lid_success() {
    let bytes = get_pi_mad();

    let dr_smp_bytes = &bytes[24..256];

    match dr_smp_mad::from_bytes(dr_smp_bytes) {
        Some(dr_smp) => {
            let mut pi = port_info::from_bytes(&dr_smp.attr_layout).unwrap();
            assert_eq!(pi.lid(), 27251);
            pi.set_lid(27);
            assert_eq!(pi.lid(), 27);
            pi.set_mkey(0x1);
            assert_eq!(pi.m_key(), 0x1);
        }
        None => {}
    };
}

#[test]
fn canonical_port_info_accessors() {
    let pi = canonical_port_info();
    assert_eq!(pi.lid(), 27251);
    assert_eq!(pi.master_sm_lid(), 4);
    assert_eq!(pi.capability_mask(), 0xA751E848);
    assert_eq!(pi.operational_vls(), 3);
    assert_eq!(pi.guid_cap(), 8);
    assert_eq!(pi.link_speed_ext_active(), 8);
}

#[test]
fn canonical_port_info_reencode_identical() {
    let pi = canonical_port_info();
    let bytes = pi.to_bytes();
    let decoded = port_info::from_bytes(&bytes).unwrap();
    assert_eq!(decoded.data, pi.data);
    let reencoded = decoded.to_bytes();
    assert_eq!(reencoded, bytes);
}

#[test]
fn setting_one_field_leaves_others_alone() {
    let mut pi = canonical_port_info();
    pi.set_port_state(4);
    pi.set_port_physical_state(5);
    // every previously written field still reads back unchanged
    assert_eq!(pi.lid(), 27251);
    assert_eq!(pi.master_sm_lid(), 4);
    assert_eq!(pi.capability_mask(), 0xA751E848);
    assert_eq!(pi.operational_vls(), 3);
    assert_eq!(pi.guid_cap(), 8);
    assert_eq!(pi.link_speed_ext_active(), 8);
    assert_eq!(pi.port_state(), 4);
    assert_eq!(pi.port_physical_state(), 5);
}

#[test]
fn every_field_set_and_read_back() {
    // every field written with a value of its declared width; every
    // getter must return exactly what was set, later writes included
    let mut pi = port_info { data: [0u8; 64] };
    pi.set_mkey(0xa6fbc7641d3fbb66);
    pi.set_gid_prefix(0x5a3d4d4313f10c3d);
    pi.set_lid(0xeb08);
    pi.set_master_sm_lid(0xc9b7);
    pi.set_capability_mask(0x5cddbf7a);
    pi.set_diag_code(0xafc1);
    pi.set_m_key_lease_period(0x253c);
    pi.set_local_portnum(0xdb);
    pi.set_link_width_enabled(0xce);
    pi.set_link_width_supported(0x85);
    pi.set_link_width_active(0xb0);
    pi.set_link_speed_supported(0xf);
    pi.set_port_state(0x2);
    pi.set_port_physical_state(0x9);
    pi.set_link_down_default_state(0x4);
    pi.set_m_key_protect_bits(0x3);
    pi.set_m_key_protect_bits_ext(0x6);
    pi.set_lmc(0x5);
    pi.set_link_speed_active(0x8);
    pi.set_link_speed_enabled(0x7);
    pi.set_neighbor_mtu(0xa);
    pi.set_master_sm_sl(0x1);
    pi.set_vl_cap(0xc);
    pi.set_init_type(0xb);
    pi.set_vl_high_limit(0x9e);
    pi.set_vl_arbitration_high_cap(0x15);
    pi.set_vl_arbitration_low_cap(0xff);
    pi.set_init_type_reply(0xf);
    pi.set_mtu_cap(0x2);
    pi.set_vl_stall_count(0x1);
    pi.set_hoq_life(0x14);
    pi.set_operational_vls(0x3);
    pi.set_partition_enforcement_inbound(0x1);
    pi.set_partition_enforcement_outbound(0x1);
    pi.set_filter_raw_inbound(0x1);
    pi.set_filter_raw_outbound(0x1);
    pi.set_m_key_violations(0x7d1a);
    pi.set_p_key_violations(0x64e1);
    pi.set_q_key_violations(0xdbdc);
    pi.set_guid_cap(0xfb);
    pi.set_client_register(0x1);
    pi.set_multicast_pkey_trap_suppression(0x1);
    pi.set_subnet_timeout(0x10);
    pi.set_partition_top(0x3);
    pi.set_enhanced_qos_arbiter_enabled(0x1);
    pi.set_resp_time_value(0x9);
    pi.set_local_phy_errors(0x4);
    pi.set_overrun_errors(0x3);
    pi.set_max_credit_hint(0x5ed6);
    pi.set_link_round_trip_latency(0x4656ed);
    pi.set_capability_mask2(0x5bf8);
    pi.set_link_speed_ext_active(0x7);
    pi.set_link_speed_ext_supported(0xa);
    pi.set_link_speed_ext_enabled(0x11);
    assert_eq!(pi.m_key(), 0xa6fbc7641d3fbb66);
    assert_eq!(pi.gid_prefix(), 0x5a3d4d4313f10c3d);
    assert_eq!(pi.lid(), 0xeb08);
    assert_eq!(pi.master_sm_lid(), 0xc9b7);
    assert_eq!(pi.capability_mask(), 0x5cddbf7a);
    assert_eq!(pi.diag_code(), 0xafc1);
    assert_eq!(pi.m_key_lease_period(), 0x253c);
    assert_eq!(pi.local_portnum(), 0xdb);
    assert_eq!(pi.link_width_enabled(), 0xce);
    assert_eq!(pi.link_width_supported(), 0x85);
    assert_eq!(pi.link_width_active(), 0xb0);
    assert_eq!(pi.link_speed_supported(), 0xf);
    assert_eq!(pi.port_state(), 0x2);
    assert_eq!(pi.port_physical_state(), 0x9);
    assert_eq!(pi.link_down_default_state(), 0x4);
    assert_eq!(pi.m_key_protect_bits(), 0x3);
    assert_eq!(pi.m_key_protect_bits_ext(), 0x6);
    assert_eq!(pi.lmc(), 0x5);
    assert_eq!(pi.link_speed_active(), 0x8);
    assert_eq!(pi.link_speed_enabled(), 0x7);
    assert_eq!(pi.neighbor_mtu(), 0xa);
    assert_eq!(pi.master_sm_sl(), 0x1);
    assert_eq!(pi.vl_cap(), 0xc);
    assert_eq!(pi.init_type(), 0xb);
    assert_eq!(pi.vl_high_limit(), 0x9e);
    assert_eq!(pi.vl_arbitration_high_cap(), 0x15);
    assert_eq!(pi.vl_arbitration_low_cap(), 0xff);
    assert_eq!(pi.init_type_reply(), 0xf);
    assert_eq!(pi.mtu_cap(), 0x2);
    assert_eq!(pi.vl_stall_count(), 0x1);
    assert_eq!(pi.hoq_life(), 0x14);
    assert_eq!(pi.operational_vls(), 0x3);
    assert_eq!(pi.partition_enforcement_inbound(), 0x1);
    assert_eq!(pi.partition_enforcement_outbound(), 0x1);
    assert_eq!(pi.filter_raw_inbound(), 0x1);
    assert_eq!(pi.filter_raw_outbound(), 0x1);
    assert_eq!(pi.m_key_violations(), 0x7d1a);
    assert_eq!(pi.p_key_violations(), 0x64e1);
    assert_eq!(pi.q_key_violations(), 0xdbdc);
    assert_eq!(pi.guid_cap(), 0xfb);
    assert_eq!(pi.client_register(), 0x1);
    assert_eq!(pi.multicast_pkey_trap_suppression(), 0x1);
    assert_eq!(pi.subnet_timeout(), 0x10);
    assert_eq!(pi.partition_top(), 0x3);
    assert_eq!(pi.enhanced_qos_arbiter_enabled(), 0x1);
    assert_eq!(pi.resp_time_value(), 0x9);
    assert_eq!(pi.local_phy_errors(), 0x4);
    assert_eq!(pi.overrun_errors(), 0x3);
    assert_eq!(pi.max_credit_hint(), 0x5ed6);
    assert_eq!(pi.link_round_trip_latency(), 0x4656ed);
    assert_eq!(pi.capability_mask2(), 0x5bf8);
    assert_eq!(pi.link_speed_ext_active(), 0x7);
    assert_eq!(pi.link_speed_ext_supported(), 0xa);
    assert_eq!(pi.link_speed_ext_enabled(), 0x11);
    // the record survives a wire round trip unchanged
    let decoded = port_info::from_bytes(&pi.to_bytes()).unwrap();
    assert_eq!(decoded.data, pi.data);
}
