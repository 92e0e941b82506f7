//! The discovery engine: hop counting, linking, and full walks against
//! the simulator.

use ibmad::discovery::walk::{ProbeOutcome, WalkStep, Walker};
use ibmad::discovery::{Fabric, IbError, Node, Port, PortKey};
use ibmad::enums::{IbNodeType, IbPortLinkLayerState, IbPortPhyState};
use ibmad::sim;

fn sim_add_switch(fab: &mut sim::Fabric, desc: &str, guid: u64, nports: u8, lid: u16) -> usize {
    let mut node = sim::Node::new_switch(desc, guid);
    node.node_info.nports = nports;
    let idx = fab.add_switch(node);
    for i in 0..=nports {
        let port = sim::Port::new_port(i, lid);
        fab.nodes[idx].ports.push(port);
    }
    idx
}

fn sim_add_hca(fab: &mut sim::Fabric, desc: &str, guid: u64, lid: u16) -> usize {
    let node = sim::Node::new_hca(desc, guid);
    let idx = fab.add_hca(node);
    let port = sim::Port::new_port(1, lid);
    fab.nodes[idx].ports.push(port);
    idx
}

fn count_links(fabric: &Fabric) -> usize {
    let mut ends = 0;
    for node in fabric.nodes.iter() {
        for port in node.ports.iter() {
            if port.remote_port.is_some() {
                ends += 1;
            }
        }
    }
    assert_eq!(ends % 2, 0);
    ends / 2
}

fn assert_links_symmetric(fabric: &Fabric) {
    for (ni, node) in fabric.nodes.iter().enumerate() {
        for (pi, port) in node.ports.iter().enumerate() {
            if let Some(rk) = port.remote_port {
                let back = fabric.nodes[rk.node].ports[rk.port].remote_port;
                assert_eq!(back, Some(PortKey { node: ni, port: pi }));
            }
        }
    }
}

#[test]
fn hop_count_counts_leading_run() {
    let mut path = [0u8; 64];
    assert_eq!(Fabric::get_hop_count(&path), 0);
    path[1] = 5;
    path[2] = 7;
    path[3] = 2;
    assert_eq!(Fabric::get_hop_count(&path), 3);
    // zeros past the run terminate it even if later slots are non-zero
    path[5] = 9;
    assert_eq!(Fabric::get_hop_count(&path), 3);
    let mut full = [1u8; 64];
    full[0] = 0;
    assert_eq!(Fabric::get_hop_count(&full), 63);
}

fn test_port(number: u8) -> Port {
    Port {
        number,
        link_state: IbPortLinkLayerState::Active,
        phys_state: IbPortPhyState::LinkUp,
        remote_port: None,
    }
}

fn two_node_fabric() -> Fabric {
    let mut fabric = Fabric::new(50, 1);
    fabric.add_node(Node {
        lid: 0,
        node_type: IbNodeType::CA,
        node_guid: 0x10,
        description: None,
        local_port: 1,
        nports: 1,
        ports: vec![test_port(1)],
    });
    fabric.add_node(Node {
        lid: 0,
        node_type: IbNodeType::Switch,
        node_guid: 0x20,
        description: None,
        local_port: 0,
        nports: 2,
        ports: vec![test_port(1), test_port(2)],
    });
    fabric
}

#[test]
fn link_ports_is_symmetric() {
    let mut fabric = two_node_fabric();
    let a = PortKey { node: 0, port: 0 };
    let b = PortKey { node: 1, port: 0 };
    assert!(fabric.link_ports(a, b).is_ok());
    assert_eq!(fabric.nodes[0].ports[0].remote_port, Some(b));
    assert_eq!(fabric.nodes[1].ports[0].remote_port, Some(a));
    // relinking the same pair is idempotent
    assert!(fabric.link_ports(a, b).is_ok());
    assert_eq!(fabric.nodes[0].ports[0].remote_port, Some(b));
}

#[test]
fn link_ports_rejects_relink_to_different_peer() {
    let mut fabric = two_node_fabric();
    let a = PortKey { node: 0, port: 0 };
    let b = PortKey { node: 1, port: 0 };
    let c = PortKey { node: 1, port: 1 };
    assert!(fabric.link_ports(a, b).is_ok());
    assert_eq!(fabric.link_ports(a, c), Err(IbError::InvalidData));
    // the failed call changed nothing
    assert_eq!(fabric.nodes[0].ports[0].remote_port, Some(b));
    assert_eq!(fabric.nodes[1].ports[1].remote_port, None);
}

#[test]
fn get_or_create_node_is_idempotent() {
    let mut fabric = Fabric::new(50, 1);
    let i = fabric.get_or_create_node(0xAA);
    let j = fabric.get_or_create_node(0xAA);
    assert_eq!(i, j);
    assert_eq!(fabric.nodes.len(), 1);
    let k = fabric.get_or_create_node(0xBB);
    assert_ne!(i, k);
    assert_eq!(fabric.nodes.len(), 2);
    assert_eq!(fabric.get_node(0xAA), Some(i));
    assert_eq!(fabric.get_node(0xCC), None);
}

#[test]
fn get_or_create_port_creates_parent_and_port() {
    let mut fabric = Fabric::new(50, 1);
    let k = fabric.get_or_create_port(0xAA, 3);
    assert_eq!(fabric.nodes[k.node].node_guid, 0xAA);
    assert_eq!(fabric.nodes[k.node].ports[k.port].number, 3);
    let k2 = fabric.get_or_create_port(0xAA, 3);
    assert_eq!(k, k2);
    assert_eq!(fabric.nodes[k.node].ports.len(), 1);
}

/// Builds the two-hop line: CA0 - SW1(port 1, port 2) - CA2.
fn two_hop_line() -> sim::Fabric {
    let mut fab = sim::Fabric::new();
    let ca0 = sim_add_hca(&mut fab, "ca0", 0x1000, 10);
    let sw1 = sim_add_switch(&mut fab, "sw1", 0x2000, 2, 20);
    let ca2 = sim_add_hca(&mut fab, "ca2", 0x3000, 30);
    sim::connect_ports(
        &mut fab,
        PortKey { node: ca0, port: 0 },
        PortKey { node: sw1, port: 1 },
    );
    sim::connect_ports(
        &mut fab,
        PortKey { node: sw1, port: 2 },
        PortKey { node: ca2, port: 0 },
    );
    fab.first_hop = Some(PortKey { node: ca0, port: 0 });
    fab
}

#[test]
fn two_hop_line_walk() {
    let fab = two_hop_line();
    let mut walker = Walker::new(50, 1);
    let r = walker.seq_discover_sim(&fab, 1000);
    assert_eq!(r, Ok(()));
    assert!(walker.done);
    assert_eq!(walker.fabric.nodes.len(), 3);
    assert_eq!(walker.fabric.switches.len(), 1);
    assert_eq!(walker.fabric.hcas.len(), 2);
    assert_eq!(count_links(&walker.fabric), 2);
    assert_eq!(walker.fabric.mads_sent, 9);
    assert_eq!(walker.fabric.mad_timeouts, 0);
    assert_eq!(walker.fabric.mad_errors, 0);
    assert_links_symmetric(&walker.fabric);
    // the switch's description came through the NodeDescription probe
    let sw = walker
        .fabric
        .nodes
        .iter()
        .find(|n| n.node_guid == 0x2000)
        .unwrap();
    assert_eq!(sw.description.as_deref(), Some("sw1"));
    assert_eq!(sw.node_type, IbNodeType::Switch);
    assert_eq!(sw.nports, 2);
    let ca2 = walker
        .fabric
        .nodes
        .iter()
        .find(|n| n.node_guid == 0x3000)
        .unwrap();
    assert_eq!(ca2.description.as_deref(), Some("ca2"));
    assert_eq!(ca2.node_type, IbNodeType::CA);
}

#[test]
fn fat_tree_walk() {
    // 16 spines x 32 leaves x 32 CAs per leaf: 1072 nodes,
    // 16*32 spine-leaf links and 1024 leaf-CA links.
    let mut fab = sim::Fabric::new();
    let mut spines = Vec::new();
    let mut lid: u16 = 2000;
    for spine_idx in 0..16u64 {
        let idx = sim_add_switch(
            &mut fab,
            &format!("spine-{}", spine_idx),
            0x7ffc_0000_0000_1000 + spine_idx,
            65,
            lid,
        );
        spines.push(idx);
        lid += 1;
    }
    let mut hca_count: u64 = 0;
    let mut lid: u16 = 3000;
    for leaf_idx in 0..32usize {
        let leaf = sim_add_switch(
            &mut fab,
            &format!("leaf-{}", leaf_idx),
            0x7ffc_0000_0000_2000 + leaf_idx as u64,
            65,
            lid,
        );
        lid += 1;
        for (spine_idx, &spine) in spines.iter().enumerate() {
            sim::connect_ports(
                &mut fab,
                PortKey { node: spine, port: leaf_idx + 1 },
                PortKey { node: leaf, port: 33 + spine_idx },
            );
        }
        for h in 0..32usize {
            hca_count += 1;
            let hca = sim_add_hca(
                &mut fab,
                &format!("host{:04}", hca_count),
                0x7ffc_0000_0000_3000 + hca_count,
                (hca_count + 1) as u16,
            );
            sim::connect_ports(
                &mut fab,
                PortKey { node: leaf, port: h + 1 },
                PortKey { node: hca, port: 0 },
            );
            if hca_count == 1 {
                fab.first_hop = Some(PortKey { node: hca, port: 0 });
            }
        }
    }

    let mut walker = Walker::new(50, 1);
    let r = walker.seq_discover_sim(&fab, 1_000_000);
    assert_eq!(r, Ok(()));
    assert_eq!(walker.fabric.nodes.len(), 1072);
    assert_eq!(walker.fabric.switches.len(), 48);
    assert_eq!(walker.fabric.hcas.len(), 1024);
    assert_eq!(count_links(&walker.fabric), 16 * 32 + 1024);
    assert_eq!(walker.fabric.mad_timeouts, 0);
    assert_links_symmetric(&walker.fabric);
    // unique nodes: as many distinct GUIDs as nodes
    let mut guids: Vec<u64> = walker.fabric.nodes.iter().map(|n| n.node_guid).collect();
    guids.sort();
    guids.dedup();
    assert_eq!(guids.len(), walker.fabric.nodes.len());
}

#[test]
fn duplicate_guid_via_alternate_path() {
    // CA0 - SW_A, and two parallel links SW_A(3)-SW_B(5), SW_A(4)-SW_B(6).
    let mut fab = sim::Fabric::new();
    let ca0 = sim_add_hca(&mut fab, "ca0", 0x1000, 10);
    let sw_a = sim_add_switch(&mut fab, "sw_a", 0xA000, 65, 20);
    let sw_b = sim_add_switch(&mut fab, "sw_b", 0xB000, 65, 21);
    sim::connect_ports(
        &mut fab,
        PortKey { node: ca0, port: 0 },
        PortKey { node: sw_a, port: 1 },
    );
    sim::connect_ports(
        &mut fab,
        PortKey { node: sw_a, port: 3 },
        PortKey { node: sw_b, port: 5 },
    );
    sim::connect_ports(
        &mut fab,
        PortKey { node: sw_a, port: 4 },
        PortKey { node: sw_b, port: 6 },
    );
    fab.first_hop = Some(PortKey { node: ca0, port: 0 });

    let mut walker = Walker::new(50, 1);
    let r = walker.seq_discover_sim(&fab, 10_000);
    assert_eq!(r, Ok(()));
    // one SW_B node despite two paths reaching it
    let b_nodes = walker
        .fabric
        .nodes
        .iter()
        .filter(|n| n.node_guid == 0xB000)
        .count();
    assert_eq!(b_nodes, 1);
    assert_eq!(walker.fabric.nodes.len(), 3);
    // three links: CA0-SW_A plus the two parallel SW_A-SW_B links
    assert_eq!(count_links(&walker.fabric), 3);
    assert_links_symmetric(&walker.fabric);
    // unique nodes in the face of duplicate paths
    let mut guids: Vec<u64> = walker.fabric.nodes.iter().map(|n| n.node_guid).collect();
    guids.sort();
    guids.dedup();
    assert_eq!(guids.len(), walker.fabric.nodes.len());
}

#[test]
fn silent_port_left_unconnected() {
    // SW1 port 2 is Active but leads nowhere: its probe times out,
    // the port stays unlinked, and the walk continues to the end.
    let mut fab = sim::Fabric::new();
    let ca0 = sim_add_hca(&mut fab, "ca0", 0x1000, 10);
    let sw1 = sim_add_switch(&mut fab, "sw1", 0x2000, 2, 20);
    sim::connect_ports(
        &mut fab,
        PortKey { node: ca0, port: 0 },
        PortKey { node: sw1, port: 1 },
    );
    // mark port 2 Active without connecting it
    fab.nodes[sw1].ports[2].port_info.set_port_state(4);
    fab.first_hop = Some(PortKey { node: ca0, port: 0 });

    let mut walker = Walker::new(50, 1);
    let r = walker.seq_discover_sim(&fab, 1000);
    assert_eq!(r, Ok(()));
    assert_eq!(walker.fabric.nodes.len(), 2);
    // the silent port ended with no remote
    let sw = walker
        .fabric
        .nodes
        .iter()
        .find(|n| n.node_guid == 0x2000)
        .unwrap();
    let p2 = sw.ports.iter().find(|p| p.number == 2).unwrap();
    assert_eq!(p2.remote_port, None);
    // in the synchronous mode the timeout counter grows by retries + 1
    assert_eq!(walker.fabric.mad_timeouts, 1 + 1);
}

#[test]
fn inconsistent_remote_fails_walk() {
    // The remote NodeInfo reports arrival port 99 on a switch that only
    // declares 8 ports: a fabric inconsistency, fatal to the walk.
    let mut fab = sim::Fabric::new();
    let ca0 = sim_add_hca(&mut fab, "ca0", 0x1000, 10);
    let sw_a = sim_add_switch(&mut fab, "sw_a", 0xA000, 2, 20);
    let sw_b = sim_add_switch(&mut fab, "sw_b", 0xB000, 8, 21);
    // give SW_B an undeclared port numbered 99 and link through it
    let port99 = sim::Port::new_port(99, 21);
    fab.nodes[sw_b].ports.push(port99);
    let p99_idx = fab.nodes[sw_b].ports.len() - 1;
    sim::connect_ports(
        &mut fab,
        PortKey { node: ca0, port: 0 },
        PortKey { node: sw_a, port: 1 },
    );
    sim::connect_ports(
        &mut fab,
        PortKey { node: sw_a, port: 2 },
        PortKey { node: sw_b, port: p99_idx },
    );
    fab.first_hop = Some(PortKey { node: ca0, port: 0 });

    let mut walker = Walker::new(50, 1);
    let r = walker.seq_discover_sim(&fab, 10_000);
    assert_eq!(r, Err(IbError::InvalidData));
}

#[test]
fn walk_probes_carry_fresh_tids() {
    let mut walker = Walker::new(50, 1);
    let first = match walker.poll() {
        WalkStep::Send(p) => p,
        WalkStep::Finished => panic!("expected a probe"),
    };
    walker.deliver(ProbeOutcome::TimedOut);
    // the root probe timed out, which is fatal; still, a rerun's probe
    // would carry a fresh identifier
    assert!(walker.failed.is_some());
    assert_eq!(walker.fabric.tid, first.tid + 1);
}

#[test]
fn fatal_outcome_aborts_with_io_error() {
    let mut walker = Walker::new(50, 1);
    match walker.poll() {
        WalkStep::Send(_) => {}
        WalkStep::Finished => panic!("expected a probe"),
    }
    walker.deliver(ProbeOutcome::Fatal);
    assert_eq!(walker.failed, Some(IbError::Io));
    assert_eq!(walker.fabric.mad_errors, 1);
    match walker.poll() {
        WalkStep::Finished => {}
        WalkStep::Send(_) => panic!("walk should be over"),
    }
}

#[test]
fn exhausted_step_budget_times_out() {
    let fab = two_hop_line();
    let mut walker = Walker::new(50, 1);
    let r = walker.seq_discover_sim(&fab, 3);
    assert_eq!(r, Err(IbError::TimedOut));
}

#[test]
fn unknown_phys_state_keeps_the_port() {
    // a PortInfo reply with a physical state outside 1..=7 decodes to
    // Unknown; the port is kept and the node's discovery completes
    let mut fab = sim::Fabric::new();
    let ca0 = sim_add_hca(&mut fab, "ca0", 0x1000, 10);
    let sw1 = sim_add_switch(&mut fab, "sw1", 0x2000, 2, 20);
    sim::connect_ports(
        &mut fab,
        PortKey { node: ca0, port: 0 },
        PortKey { node: sw1, port: 1 },
    );
    fab.nodes[sw1].ports[2].port_info.set_port_physical_state(9);
    fab.first_hop = Some(PortKey { node: ca0, port: 0 });

    let mut walker = Walker::new(50, 1);
    let r = walker.seq_discover_sim(&fab, 1000);
    assert_eq!(r, Ok(()));
    assert_eq!(walker.fabric.nodes.len(), 2);
    let sw = walker
        .fabric
        .nodes
        .iter()
        .find(|n| n.node_guid == 0x2000)
        .unwrap();
    assert_eq!(sw.ports.len(), 2);
    let p2 = sw.ports.iter().find(|p| p.number == 2).unwrap();
    assert_eq!(p2.phys_state, IbPortPhyState::Unknown);
    assert_eq!(p2.remote_port, None);
}

#[test]
fn fatal_send_is_not_counted_as_sent() {
    // a request whose first write failed was never sent: only the error
    // counter grows
    let mut walker = Walker::new(50, 1);
    match walker.poll() {
        WalkStep::Send(_) => {}
        WalkStep::Finished => panic!("expected a probe"),
    }
    walker.deliver(ProbeOutcome::Fatal);
    assert_eq!(walker.fabric.mads_sent, 0);
    assert_eq!(walker.fabric.mad_errors, 1);
    assert_eq!(walker.fabric.mad_timeouts, 0);
}
