//! In-memory fabric graph, directed-route request builders, and the
//! sequential discovery engine.
//!
//! The graph owns its nodes in a vector; ports name their peer through a
//! [`PortKey`] (node index, port index), so the bidirectional edge between
//! two ports is the sole representation of a link and back-references are
//! plain indices.

use vstd::prelude::*;
use std::collections::HashMap;
use crate::enums::{IbNodeType, IbPortLinkLayerState, IbPortPhyState, MadClasses, SmiAttrID};
use crate::mad::dr_smp::dr_smp_mad;
use crate::mad::types::{ib_mad, ib_mad_addr, ib_user_mad};
use crate::mad::wire::{read_array, spec_be16, spec_be32, spec_be64};
use crate::mad::IB_DEFAULT_QKEY;

pub mod walk;

verus! {

broadcast use vstd::std_specs::hash::group_hash_axioms;

/// Errors of the discovery engine and its collaborators.
#[derive(Clone, Copy, Debug, PartialEq, Eq, Structural)]
pub enum IbError {
    /// A device, node, port or fabric entity is missing.
    NotFound,
    /// A decode failure, unknown enum value, or fabric inconsistency.
    InvalidData,
    /// A device read, write or control-operation failure.
    Io,
    /// A per-attempt or per-request deadline expired.
    TimedOut,
    /// The device delivered fewer bytes than a full packet.
    ShortRead,
}

/// Identifies a port by the index of its parent node in the fabric's node
/// vector and the index of the port in that node's port vector.
#[derive(Clone, Copy, Debug, PartialEq, Eq, Structural)]
pub struct PortKey {
    pub node: usize,
    pub port: usize,
}

/// A discovered port: its number, the states its PortInfo reported, and
/// the port at the far end of its link, if one has been found.
#[derive(Debug, Clone, Copy, PartialEq, Eq, Structural)]
pub struct Port {
    pub number: u8,
    pub link_state: IbPortLinkLayerState,
    pub phys_state: IbPortPhyState,
    pub remote_port: Option<PortKey>,
}

/// A discovered node: identity, kind, description and ports.
#[derive(Debug, Clone)]
pub struct Node {
    pub lid: u16,
    pub node_type: IbNodeType,
    pub node_guid: u64,
    pub description: Option<String>,
    pub local_port: u8,
    pub nports: u8,
    pub ports: Vec<Port>,
}

/// The fabric graph the discovery engine populates, together with the
/// transaction configuration and counters.
#[derive(Debug)]
pub struct Fabric {
    pub nodes: Vec<Node>,
    pub node_map: HashMap<u64, usize>,
    pub switches: Vec<usize>,
    pub hcas: Vec<usize>,
    pub retries: u32,
    pub timeout: u32,
    pub mad_errors: u64,
    pub mad_timeouts: u64,
    pub mads_sent: u64,
    pub tid: u64,
}

impl Fabric {
    /// Whether `k` names an existing port of an existing node.
    pub open spec fn valid_key(self, k: PortKey) -> bool {
        k.node < self.nodes@.len() && k.port < self.nodes@[k.node as int].ports@.len()
    }

    /// The remote port recorded for `k`.
    pub open spec fn remote_of(self, k: PortKey) -> Option<PortKey>
        recommends
            self.valid_key(k),
    {
        self.nodes@[k.node as int].ports@[k.port as int].remote_port
    }

    /// No two nodes carry the same GUID.
    pub open spec fn guids_unique(self) -> bool {
        forall|i: int, j: int|
            0 <= i < j < self.nodes@.len() ==> self.nodes@[i].node_guid != self.nodes@[j].node_guid
    }

    /// The GUID index is exactly the set of present nodes, each mapped to
    /// its position.
    pub open spec fn map_consistent(self) -> bool {
        &&& forall|g: u64|
            self.node_map@.contains_key(g) ==> #[trigger] self.node_map@[g] < self.nodes@.len()
                && self.nodes@[self.node_map@[g] as int].node_guid == g
        &&& forall|i: int|
            0 <= i < self.nodes@.len() ==> #[trigger] self.node_map@.contains_key(
                self.nodes@[i].node_guid,
            ) && self.node_map@[self.nodes@[i].node_guid] == i
    }

    /// Symmetric linking: if a port names a remote, the remote exists and
    /// names it back.
    pub open spec fn links_symmetric(self) -> bool {
        forall|a: PortKey|
            self.valid_key(a) && (#[trigger] self.remote_of(a)) is Some ==> {
                let b = self.remote_of(a)->Some_0;
                self.valid_key(b) && self.remote_of(b) == Some(a)
            }
    }

    /// Well-formedness of the fabric graph.
    pub open spec fn wf(self) -> bool {
        &&& self.guids_unique()
        &&& self.map_consistent()
        &&& self.links_symmetric()
    }

    /// Creates an empty fabric with the given transaction configuration.
    pub fn new(timeout: u32, retries: u32) -> (r: Self)
        ensures
            r.wf(),
            r.nodes@.len() == 0,
            r.switches@.len() == 0,
            r.hcas@.len() == 0,
            r.timeout == timeout,
            r.retries == retries,
            r.mads_sent == 0,
            r.mad_timeouts == 0,
            r.mad_errors == 0,
            r.tid == 1,
    {
        Fabric {
            nodes: Vec::new(),
            node_map: HashMap::new(),
            switches: Vec::new(),
            hcas: Vec::new(),
            retries,
            timeout,
            mad_errors: 0,
            mad_timeouts: 0,
            mads_sent: 0,
            tid: 1,
        }
    }

    /// Looks a node up by GUID; `Some` exactly when the GUID is present.
    pub fn get_node(&self, guid: u64) -> (r: Option<usize>)
        requires
            self.wf(),
        ensures
            match r {
                Some(i) => self.node_map@.contains_key(guid) && i < self.nodes@.len()
                    && self.nodes@[i as int].node_guid == guid && self.node_map@[guid] == i,
                None => !self.node_map@.contains_key(guid),
            },
    {
        match self.node_map.get(&guid) {
            Some(i) => Some(*i),
            None => None,
        }
    }

    /// Appends a node whose GUID is not yet present and indexes it;
    /// existing nodes, links and counters are untouched.
    pub fn add_node(&mut self, node: Node) -> (i: usize)
        requires
            old(self).wf(),
            !old(self).node_map@.contains_key(node.node_guid),
            forall|j: int|
                0 <= j < node.ports@.len() ==> #[trigger] node.ports@[j].remote_port is None,
        ensures
            final(self).wf(),
            i == old(self).nodes@.len(),
            final(self).nodes@ == old(self).nodes@.push(node),
            final(self).node_map@ == old(self).node_map@.insert(node.node_guid, i),
            final(self).node_map@.contains_key(node.node_guid),
            final(self).switches == old(self).switches,
            final(self).hcas == old(self).hcas,
            final(self).retries == old(self).retries,
            final(self).timeout == old(self).timeout,
            final(self).mads_sent == old(self).mads_sent,
            final(self).mad_timeouts == old(self).mad_timeouts,
            final(self).mad_errors == old(self).mad_errors,
            final(self).tid == old(self).tid,
    {
        let i = self.nodes.len();
        let guid = node.node_guid;
        self.nodes.push(node);
        self.node_map.insert(guid, i);
        proof {
            assert forall|a: PortKey|
                self.valid_key(a) && (#[trigger] self.remote_of(a)) is Some implies {
                let b = self.remote_of(a)->Some_0;
                self.valid_key(b) && self.remote_of(b) == Some(a)
            } by {
                if a.node < i {
                    assert(old(self).valid_key(a));
                    assert(old(self).remote_of(a) == self.remote_of(a));
                }
            }
        }
        i
    }

    /// Returns the index of the node with this GUID, inserting a fresh
    /// node with empty ports if none exists.
    pub fn get_or_create_node(&mut self, guid: u64) -> (i: usize)
        requires
            old(self).wf(),
        ensures
            final(self).wf(),
            i < final(self).nodes@.len(),
            final(self).nodes@[i as int].node_guid == guid,
            final(self).node_map@.contains_key(guid),
            old(self).node_map@.contains_key(guid) ==> *final(self) == *old(self)
                && i == old(self).node_map@[guid],
            !old(self).node_map@.contains_key(guid) ==> i == old(self).nodes@.len()
                && final(self).nodes@.len() == i + 1
                && final(self).nodes@.subrange(0, i as int) == old(self).nodes@,
    {
        match self.get_node(guid) {
            Some(i) => i,
            None => {
                let node = Node {
                    lid: 0,
                    node_type: IbNodeType::CA,
                    node_guid: guid,
                    description: None,
                    local_port: 0,
                    nports: 0,
                    ports: Vec::new(),
                };
                let i = self.add_node(node);
                proof {
                    assert(final(self).nodes@.subrange(0, i as int) =~= old(self).nodes@);
                }
                i
            },
        }
    }

    /// Ensures the node with this GUID exists and carries a port numbered
    /// `port_num`, creating either as needed, and returns the port's key.
    pub fn get_or_create_port(&mut self, guid: u64, port_num: u8) -> (k: PortKey)
        requires
            old(self).wf(),
        ensures
            final(self).wf(),
            final(self).valid_key(k),
            final(self).nodes@[k.node as int].node_guid == guid,
            final(self).nodes@[k.node as int].ports@[k.port as int].number == port_num,
    {
        let i = self.get_or_create_node(guid);
        let nports = self.nodes[i].ports.len();
        let mut j: usize = 0;
        loop
            invariant
                self.wf(),
                i < self.nodes@.len(),
                self.nodes@[i as int].node_guid == guid,
                j <= nports,
                nports == self.nodes@[i as int].ports@.len(),
            decreases nports - j,
        {
            if j == nports {
                break ;
            }
            if self.nodes[i].ports[j].number == port_num {
                return PortKey { node: i, port: j };
            }
            j += 1;
        }
        let port = Port {
            number: port_num,
            link_state: IbPortLinkLayerState::Down,
            phys_state: IbPortPhyState::Polling,
            remote_port: None,
        };
        let ghost old_fab = *self;
        let node_ref = &mut self.nodes[i];
        let pidx = node_ref.ports.len();
        node_ref.ports.push(port);
        proof {
            assert forall|a: PortKey|
                self.valid_key(a) && (#[trigger] self.remote_of(a)) is Some implies {
                let b = self.remote_of(a)->Some_0;
                self.valid_key(b) && self.remote_of(b) == Some(a)
            } by {
                assert(old_fab.valid_key(a));
                assert(old_fab.remote_of(a) == self.remote_of(a));
            }
        }
        PortKey { node: i, port: pidx }
    }

    /// Links two ports to each other, making the edge in both directions
    /// at once.  Linking is idempotent for an already-linked pair, and it
    /// is an error (`InvalidData`, with the graph unchanged) to relink a
    /// port to a different peer.
    pub fn link_ports(&mut self, a: PortKey, b: PortKey) -> (r: Result<(), IbError>)
        requires
            old(self).wf(),
            old(self).valid_key(a),
            old(self).valid_key(b),
        ensures
            final(self).wf(),
            match r {
                Ok(()) => {
                    &&& (old(self).remote_of(a) is None || old(self).remote_of(a) == Some(b))
                    &&& (old(self).remote_of(b) is None || old(self).remote_of(b) == Some(a))
                    &&& final(self).remote_of(a) == Some(b)
                    &&& final(self).remote_of(b) == Some(a)
                    &&& forall|c: PortKey|
                        final(self).valid_key(c) && c != a && c != b
                            ==> #[trigger] final(self).remote_of(c) == old(self).remote_of(c)
                    &&& final(self).nodes@.len() == old(self).nodes@.len()
                    &&& final(self).node_map@ == old(self).node_map@
                    &&& final(self).switches == old(self).switches
                    &&& final(self).hcas == old(self).hcas
                    &&& final(self).retries == old(self).retries
                    &&& final(self).timeout == old(self).timeout
                    &&& final(self).mads_sent == old(self).mads_sent
                    &&& final(self).mad_timeouts == old(self).mad_timeouts
                    &&& final(self).mad_errors == old(self).mad_errors
                    &&& final(self).tid == old(self).tid
                    &&& forall|n: int|
                        0 <= n < old(self).nodes@.len()
                            ==> (#[trigger] final(self).nodes@[n]).ports@.len()
                            == old(self).nodes@[n].ports@.len()
                            && final(self).nodes@[n].node_guid == old(self).nodes@[n].node_guid
                            && final(self).nodes@[n].node_type == old(self).nodes@[n].node_type
                            && final(self).nodes@[n].nports == old(self).nodes@[n].nports
                            && final(self).nodes@[n].description == old(self).nodes@[n].description
                            && final(self).nodes@[n].local_port == old(self).nodes@[n].local_port
                            && final(self).nodes@[n].lid == old(self).nodes@[n].lid
                    &&& forall|c: PortKey|
                        old(self).valid_key(c)
                            ==> (#[trigger] final(self).nodes@[c.node as int].ports@[c.port as int]).number
                            == old(self).nodes@[c.node as int].ports@[c.port as int].number
                            && final(self).nodes@[c.node as int].ports@[c.port as int].link_state
                            == old(self).nodes@[c.node as int].ports@[c.port as int].link_state
                            && final(self).nodes@[c.node as int].ports@[c.port as int].phys_state
                            == old(self).nodes@[c.node as int].ports@[c.port as int].phys_state
                },
                Err(e) => {
                    &&& e == IbError::InvalidData
                    &&& *final(self) == *old(self)
                    &&& !((old(self).remote_of(a) is None || old(self).remote_of(a) == Some(b)) && (
                    old(self).remote_of(b) is None || old(self).remote_of(b) == Some(a)))
                },
            },
    {
        let a_remote = self.nodes[a.node].ports[a.port].remote_port;
        let b_remote = self.nodes[b.node].ports[b.port].remote_port;
        let a_ok = match a_remote {
            Option::None => true,
            Option::Some(k) => k == b,
        };
        let b_ok = match b_remote {
            Option::None => true,
            Option::Some(k) => k == a,
        };
        if !a_ok || !b_ok {
            return Err(IbError::InvalidData);
        }
        let ghost old_fab = *self;
        {
            let node_ref = &mut self.nodes[a.node];
            let port_ref = &mut node_ref.ports[a.port];
            port_ref.remote_port = Some(b);
        }
        {
            let node_ref = &mut self.nodes[b.node];
            let port_ref = &mut node_ref.ports[b.port];
            port_ref.remote_port = Some(a);
        }
        proof {
            assert(self.remote_of(a) == Some(b));
            assert(self.remote_of(b) == Some(a));
            assert forall|c: PortKey|
                self.valid_key(c) && c != a && c != b implies #[trigger] self.remote_of(c)
                == old_fab.remote_of(c) by {}
            assert forall|c: PortKey|
                self.valid_key(c) && (#[trigger] self.remote_of(c)) is Some implies {
                let d = self.remote_of(c)->Some_0;
                self.valid_key(d) && self.remote_of(d) == Some(c)
            } by {
                let d = self.remote_of(c)->Some_0;
                if c != a && c != b {
                    assert(old_fab.remote_of(c) == Some(d));
                    assert(old_fab.valid_key(c));
                    assert(d != a && d != b);
                }
            }
        }
        Ok(())
    }

    /// The graph invariants only read the nodes and the GUID index, so
    /// they survive any change to the configuration and counters.
    pub proof fn lemma_wf_same_graph(f1: Fabric, f2: Fabric)
        requires
            f1.wf(),
            f2.nodes == f1.nodes,
            f2.node_map == f1.node_map,
        ensures
            f2.wf(),
    {
        assert forall|i: int, j: int| 0 <= i < j < f2.nodes@.len() implies f2.nodes@[i].node_guid
            != f2.nodes@[j].node_guid by {
            assert(f1.nodes@[i].node_guid != f1.nodes@[j].node_guid);
        }
        assert forall|g: u64| f2.node_map@.contains_key(g) implies #[trigger] f2.node_map@[g]
            < f2.nodes@.len() && f2.nodes@[f2.node_map@[g] as int].node_guid == g by {
            assert(f1.node_map@.contains_key(g));
            assert(f1.node_map@[g] < f1.nodes@.len());
        }
        assert forall|i: int| 0 <= i < f2.nodes@.len() implies #[trigger] f2.node_map@.contains_key(
            f2.nodes@[i].node_guid,
        ) && f2.node_map@[f2.nodes@[i].node_guid] == i by {
            assert(f1.node_map@.contains_key(f1.nodes@[i].node_guid));
        }
        assert forall|a: PortKey|
            f2.valid_key(a) && (#[trigger] f2.remote_of(a)) is Some implies {
            let b = f2.remote_of(a)->Some_0;
            f2.valid_key(b) && f2.remote_of(b) == Some(a)
        } by {
            assert(f1.valid_key(a));
            assert(f1.remote_of(a) == f2.remote_of(a));
            let b = f1.remote_of(a)->Some_0;
            assert(f1.valid_key(b) && f1.remote_of(b) == Some(a));
        }
    }

    /// Law: nodes are unique per GUID; the number of nodes equals the
    /// number of distinct GUIDs among them.
    pub proof fn lemma_unique_nodes(self)
        requires
            self.wf(),
        ensures
            self.nodes@.map(|i: int, n: Node| n.node_guid).to_set().len() == self.nodes@.len(),
    {
        let guids = self.nodes@.map(|i: int, n: Node| n.node_guid);
        assert(guids.no_duplicates());
        guids.unique_seq_to_set();
    }
}

impl Fabric {
    /// Builds the user-MAD skeleton every request shares: queue pair 0,
    /// the default management queue key, the permissive link-layer id,
    /// hop limit 63 and GID index 0.
    pub fn build_umad(timeout: u32, retries: u32) -> (r: ib_user_mad)
        ensures
            r.agent_id == 0,
            r.status == 0,
            r.timeout_ms == timeout,
            r.retries == retries,
            r.length == 0,
            r.addr.qpn == 0,
            r.addr.qkey == IB_DEFAULT_QKEY,
            r.addr.lid == 0xffff,
            r.addr.sl == 0,
            r.addr.path_bits == 0,
            r.addr.grh_present == 0,
            r.addr.hop_limit == 63,
            r.addr.gid_index == 0,
            r.addr.traffic_class == 0,
            r.addr.flow_label == 0,
            r.addr.pkey_index == 0,
            forall|j: int| 0 <= j < 256 ==> r.data@[j] == 0,
    {
        ib_user_mad {
            agent_id: 0x0,
            status: 0x0,
            timeout_ms: timeout,
            retries,
            length: 0,
            addr: ib_mad_addr {
                qpn: 0,
                qkey: IB_DEFAULT_QKEY,
                lid: 0xffff,
                sl: 0,
                path_bits: 0,
                grh_present: 0,
                hop_limit: 63,
                gid_index: 0,
                traffic_class: 0,
                gid: [0u8; 16],
                flow_label: 0,
                pkey_index: 0,
                reserved: [0u8; 6],
            },
            data: [0u8; 256],
        }
    }

    /// Builds the MAD envelope of a request: base and class version 1, a
    /// zero status, and the given class, method, attribute, modifier, hop
    /// count and transaction identifier.
    pub fn build_mad(
        mgmt_class: u8,
        method: u8,
        attr_id: SmiAttrID,
        attr_mod: u32,
        hop_cnt: u8,
        tid: u64,
    ) -> (r: ib_mad)
        ensures
            r.base_version == 1,
            r.mgmt_class == mgmt_class,
            r.class_version == 1,
            r.method == method,
            r.status == 0,
            r.hop_ptr == 0,
            r.hop_cnt == hop_cnt,
            r.tid == tid,
            r.attr_id == attr_id.spec_value(),
            r.additional_status == 0,
            r.attr_mod == attr_mod,
            forall|j: int| 0 <= j < 232 ==> r.data@[j] == 0,
    {
        ib_mad {
            base_version: 0x1,
            mgmt_class,
            method,
            class_version: 0x1,
            status: 0x0,
            hop_ptr: 0,
            hop_cnt,
            tid,
            attr_id: attr_id.value(),
            additional_status: 0x0,
            attr_mod,
            data: [0u8; 232],
        }
    }

    /// Builds the directed-route SMP payload for a path: zero management
    /// key, permissive source and destination DR link-ids, and a zeroed
    /// attribute layout and return path.
    pub fn build_dr_smp(path: [u8; 64]) -> (r: dr_smp_mad)
        ensures
            r.m_key == 0,
            r.drslid == 0xffff,
            r.drdlid == 0xffff,
            r.initial_path@ == path@,
            forall|j: int| 0 <= j < 64 ==> r.attr_layout@[j] == 0,
            forall|j: int| 0 <= j < 64 ==> r.return_path@[j] == 0,
    {
        dr_smp_mad {
            m_key: 0x0,
            drslid: 0xffff,
            drdlid: 0xffff,
            reserved: [0u8; 28],
            attr_layout: [0u8; 64],
            initial_path: path,
            return_path: [0u8; 64],
        }
    }

    /// Assembles a complete directed-route request: the DR SMP payload is
    /// encoded into the MAD envelope's payload, and the envelope into the
    /// user-MAD's data.  The contract pins the wire bytes the request
    /// carries: envelope header, transaction identifier, attribute,
    /// modifier and the initial path.
    pub fn build_dr_smp_umad(
        path: [u8; 64],
        attr_id: SmiAttrID,
        attr_mod: u32,
        hop_cnt: u8,
        tid: u64,
        timeout: u32,
        retries: u32,
    ) -> (r: ib_user_mad)
        ensures
            r.agent_id == 0,
            r.status == 0,
            r.timeout_ms == timeout,
            r.retries == retries,
            r.length == 0,
            r.addr.qpn == 0,
            r.addr.qkey == IB_DEFAULT_QKEY,
            r.addr.lid == 0xffff,
            r.addr.hop_limit == 63,
            r.addr.gid_index == 0,
            r.data@[0] == 1,
            r.data@[1] == MadClasses::DirecteRoute.spec_value(),
            r.data@[2] == 1,
            r.data@[3] == 1,
            spec_be16(r.data@, 4) == 0,
            r.data@[6] == 0,
            r.data@[7] == hop_cnt,
            spec_be64(r.data@, 8) == tid as nat,
            spec_be16(r.data@, 16) == attr_id.spec_value() as nat,
            spec_be32(r.data@, 20) == attr_mod as nat,
            spec_be64(r.data@, 24) == 0,
            spec_be16(r.data@, 32) == 0xffff,
            spec_be16(r.data@, 34) == 0xffff,
            forall|j: int| 64 <= j < 128 ==> r.data@[j] == 0,
            r.data@.subrange(128, 192) == path@,
            forall|j: int| 192 <= j < 256 ==> r.data@[j] == 0,
    {
        let dr_smp = Fabric::build_dr_smp(path);
        let mut mad = Fabric::build_mad(
            MadClasses::DirecteRoute.value(),
            0x1,
            attr_id,
            attr_mod,
            hop_cnt,
            tid,
        );
        let mut umad = Fabric::build_umad(timeout, retries);

        let dr_bytes = dr_smp.to_bytes();
        mad.data = read_array::<232>(dr_bytes.as_slice(), 0);
        let mad_bytes = mad.to_bytes();
        umad.data = read_array::<256>(mad_bytes.as_slice(), 0);
        proof {
            assert(mad.data@ =~= dr_bytes@);
            assert(umad.data@ =~= mad_bytes@);
            assert(forall|j: int|
                0 <= j < 232 ==> umad.data@[24 + j] == mad_bytes@.subrange(24, 256)[j]);
            assert(forall|j: int| 0 <= j < 232 ==> umad.data@[24 + j] == dr_bytes@[j]);
            assert(forall|j: int|
                0 <= j < 64 ==> dr_bytes@[104 + j] == dr_bytes@.subrange(104, 168)[j]);
            assert(forall|j: int|
                0 <= j < 64 ==> dr_bytes@[40 + j] == dr_bytes@.subrange(40, 104)[j]);
            assert(forall|j: int|
                0 <= j < 64 ==> dr_bytes@[168 + j] == dr_bytes@.subrange(168, 232)[j]);
            assert(umad.data@.subrange(128, 192) =~= path@);
            assert forall|j: int| 64 <= j < 128 implies umad.data@[j] == 0 by {
                let t = j - 24;
                assert(umad.data@[24 + t] == dr_bytes@[t]);
                let u = t - 40;
                assert(dr_bytes@[40 + u] == dr_bytes@.subrange(40, 104)[u]);
            }
            assert forall|j: int| 192 <= j < 256 implies umad.data@[j] == 0 by {
                let t = j - 24;
                assert(umad.data@[24 + t] == dr_bytes@[t]);
                let u = t - 168;
                assert(dr_bytes@[168 + u] == dr_bytes@.subrange(168, 232)[u]);
            }
        }
        umad
    }
}

impl Fabric {
    /// Finds the index, on the given node, of the first port carrying a
    /// given port number.
    pub fn find_port_idx(&self, node: usize, num: u8) -> (r: Option<usize>)
        requires
            node < self.nodes@.len(),
        ensures
            match r {
                Some(j) => j < self.nodes@[node as int].ports@.len()
                    && self.nodes@[node as int].ports@[j as int].number == num,
                None => forall|j: int|
                    0 <= j < self.nodes@[node as int].ports@.len()
                        ==> (#[trigger] self.nodes@[node as int].ports@[j].number) != num,
            },
    {
        let n = self.nodes[node].ports.len();
        let mut j: usize = 0;
        while j < n
            invariant
                j <= n,
                node < self.nodes@.len(),
                n == self.nodes@[node as int].ports@.len(),
                forall|t: int|
                    0 <= t < j ==> (#[trigger] self.nodes@[node as int].ports@[t].number) != num,
            decreases n - j,
        {
            if self.nodes[node].ports[j].number == num {
                return Some(j);
            }
            j += 1;
        }
        None
    }
}

/// Doubles a timeout for the next retry attempt (exponential backoff
/// with factor 2), saturating at the maximum.
pub fn backoff_timeout(timeout: u32) -> (r: u32)
    ensures
        r as int == if 2 * timeout <= u32::MAX {
            2 * timeout
        } else {
            u32::MAX as int
        },
{
    if timeout <= u32::MAX / 2 {
        timeout * 2
    } else {
        u32::MAX
    }
}

/// Number of hops of a directed-route path, counted from index `i`: the
/// length of the run of non-zero entries starting there.
pub open spec fn spec_hops_from(p: Seq<u8>, i: int) -> int
    recommends
        p.len() == 64,
        1 <= i <= 64,
    decreases 64 - i,
{
    if i >= 64 || i < 0 {
        0
    } else if p[i] == 0 {
        0
    } else {
        1 + spec_hops_from(p, i + 1)
    }
}

/// Number of hops of a directed-route path: index 0 is reserved, and the
/// hops are the run of non-zero port numbers starting at index 1.
pub open spec fn spec_hop_count(p: Seq<u8>) -> int
    recommends
        p.len() == 64,
{
    spec_hops_from(p, 1)
}

impl Fabric {
    /// Counts the hops of a path: the number of consecutive non-zero
    /// entries starting at index 1.
    pub fn get_hop_count(path: &[u8; 64]) -> (r: u8)
        ensures
            r as int == spec_hop_count(path@),
            r <= 63,
    {
        let mut i: usize = 1;
        while i < 64 && path[i] != 0
            invariant
                1 <= i <= 64,
                forall|j: int| 1 <= j < i ==> path@[j] != 0,
                spec_hop_count(path@) == i - 1 + spec_hops_from(path@, i as int),
            decreases 64 - i,
        {
            i += 1;
        }
        (i - 1) as u8
    }
}

/// Law: a path whose slots `1..=k` are non-zero and whose following slot
/// (if any) is zero has hop count exactly `k`; in particular the all-zero
/// path has hop count 0.
pub proof fn lemma_hop_count_exact(p: Seq<u8>, k: int)
    requires
        p.len() == 64,
        0 <= k <= 63,
        forall|j: int| 1 <= j <= k ==> p[j] != 0,
        k < 63 ==> p[k + 1] == 0,
    ensures
        spec_hop_count(p) == k,
{
    lemma_hops_from_exact(p, k, 1);
}

proof fn lemma_hops_from_exact(p: Seq<u8>, k: int, i: int)
    requires
        p.len() == 64,
        1 <= i,
        i + k <= 64,
        k >= 0,
        forall|j: int| i <= j < i + k ==> p[j] != 0,
        i + k < 64 ==> p[i + k] == 0,
    ensures
        spec_hops_from(p, i) == k,
    decreases k,
{
    if k > 0 {
        lemma_hops_from_exact(p, k - 1, i + 1);
    }
}

} // verus!
