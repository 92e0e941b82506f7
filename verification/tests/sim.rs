//! The fabric simulator answering directed-route requests directly.

use ibmad::discovery::{Fabric, IbError, PortKey};
use ibmad::enums::SmiAttrID;
use ibmad::mad::{node_info, port_info};
use ibmad::sim;

fn line_fabric() -> sim::Fabric {
    let mut fab = sim::Fabric::new();
    let hca = sim::Node::new_hca("host0001", 0x7ffc_0000_0000_3001);
    let h = fab.add_hca(hca);
    let hp = sim::Port::new_port(1, 2);
    fab.nodes[h].ports.push(hp);
    let mut sw = sim::Node::new_switch("leaf-0", 0x7ffc_0000_0000_2000);
    sw.node_info.nports = 4;
    let s = fab.add_switch(sw);
    for i in 0..=4u8 {
        let port = sim::Port::new_port(i, 3000);
        fab.nodes[s].ports.push(port);
    }
    sim::connect_ports(
        &mut fab,
        PortKey { node: h, port: 0 },
        PortKey { node: s, port: 1 },
    );
    fab.first_hop = Some(PortKey { node: h, port: 0 });
    fab
}

fn request(path: [u8; 64], attr: SmiAttrID, attr_mod: u32, hop_cnt: u8) -> Vec<u8> {
    Fabric::build_dr_smp_umad(path, attr, attr_mod, hop_cnt, 0x1337, 50, 1).to_bytes()
}

#[test]
fn create_new_fabric_empty() {
    let fab = sim::Fabric::new();
    assert!(fab.nodes.is_empty());
    assert!(fab.first_hop.is_none());
}

#[test]
fn node_info_response_overrides_local_port() {
    let fab = line_fabric();
    let mut path = [0u8; 64];
    path[1] = 1;
    // one hop through the host's port 1 arrives at the switch's port 1
    let req = request(path, SmiAttrID::NodeInfo, 0, 1);
    let resp = fab.respond(&req).unwrap().unwrap();
    assert_eq!(resp.len(), 320);
    let ni = node_info::from_bytes(&resp[128..192]).unwrap();
    assert_eq!(ni.node_guid, 0x7ffc_0000_0000_2000);
    assert_eq!(ni.node_type, 2);
    assert_eq!(ni.local_port, 1);
    // everything outside the attribute layout echoes the request
    assert_eq!(&resp[..128], &req[..128]);
    assert_eq!(&resp[192..], &req[192..]);
}

#[test]
fn node_info_on_empty_path_hits_first_hop() {
    let fab = line_fabric();
    let req = request([0u8; 64], SmiAttrID::NodeInfo, 0, 0);
    let resp = fab.respond(&req).unwrap().unwrap();
    let ni = node_info::from_bytes(&resp[128..192]).unwrap();
    assert_eq!(ni.node_guid, 0x7ffc_0000_0000_3001);
    assert_eq!(ni.node_type, 1);
}

#[test]
fn node_desc_response_carries_description() {
    let fab = line_fabric();
    let req = request([0u8; 64], SmiAttrID::NodeDesc, 0, 0);
    let resp = fab.respond(&req).unwrap().unwrap();
    assert_eq!(&resp[128..136], b"host0001");
    // the padding beyond the description echoes the request (zeros)
    assert_eq!(&resp[136..192], &req[136..192]);
}

#[test]
fn port_info_response_picks_port_by_modifier() {
    let fab = line_fabric();
    let mut path = [0u8; 64];
    path[1] = 1;
    let req = request(path, SmiAttrID::PortInfo, 1, 1);
    let resp = fab.respond(&req).unwrap().unwrap();
    let pi = port_info::from_bytes(&resp[128..192]).unwrap();
    assert_eq!(pi.local_portnum(), 1);
    // port 1 was connected, so the simulator marked it Active/LinkUp
    assert_eq!(pi.port_state(), 4);
    assert_eq!(pi.port_physical_state(), 5);
    // an unconnected port stays Down/Polling
    let req2 = request(path, SmiAttrID::PortInfo, 2, 1);
    let resp2 = fab.respond(&req2).unwrap().unwrap();
    let pi2 = port_info::from_bytes(&resp2[128..192]).unwrap();
    assert_eq!(pi2.local_portnum(), 2);
    assert_eq!(pi2.port_state(), 1);
    assert_eq!(pi2.port_physical_state(), 2);
}

#[test]
fn port_info_modifier_zero_means_port_one() {
    let fab = line_fabric();
    let req = request([0u8; 64], SmiAttrID::PortInfo, 0, 0);
    let resp = fab.respond(&req).unwrap().unwrap();
    let pi = port_info::from_bytes(&resp[128..192]).unwrap();
    assert_eq!(pi.local_portnum(), 1);
}

#[test]
fn unresolvable_path_is_not_found() {
    let fab = line_fabric();
    let mut path = [0u8; 64];
    path[1] = 1;
    path[2] = 3;  // switch port 3 has no remote
    let req = request(path, SmiAttrID::NodeInfo, 0, 2);
    assert_eq!(fab.respond(&req), Err(IbError::NotFound));
    // a missing egress port number fails the same way
    let mut path2 = [0u8; 64];
    path2[1] = 9;
    let req2 = request(path2, SmiAttrID::NodeInfo, 0, 1);
    assert_eq!(fab.respond(&req2), Err(IbError::NotFound));
}

#[test]
fn missing_first_hop_is_not_found() {
    let mut fab = line_fabric();
    fab.first_hop = None;
    let req = request([0u8; 64], SmiAttrID::NodeInfo, 0, 0);
    assert_eq!(fab.respond(&req), Err(IbError::NotFound));
}

#[test]
fn short_request_is_short_read() {
    let fab = line_fabric();
    assert_eq!(fab.respond(&[0u8; 319]), Err(IbError::ShortRead));
    assert_eq!(fab.respond(&[]), Err(IbError::ShortRead));
}

#[test]
fn foreign_class_and_unknown_attribute_are_ignored() {
    let fab = line_fabric();
    // a LID-routed SMP is not answered
    let mut req = request([0u8; 64], SmiAttrID::NodeInfo, 0, 0);
    req[65] = 0x01;
    assert_eq!(fab.respond(&req), Ok(None));
    // an unknown attribute id is not answered either
    let mut req2 = request([0u8; 64], SmiAttrID::NodeInfo, 0, 0);
    req2[80] = 0x00;
    req2[81] = 0x42;
    assert_eq!(fab.respond(&req2), Ok(None));
}

#[test]
fn missing_target_port_is_not_found() {
    let fab = line_fabric();
    // the host only has port 1; asking for its port 7 cannot be answered
    let req = request([0u8; 64], SmiAttrID::PortInfo, 7, 0);
    assert_eq!(fab.respond(&req), Err(IbError::NotFound));
}
