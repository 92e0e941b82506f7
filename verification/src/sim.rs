//! Fabric simulator: an in-memory fabric that answers directed-route SMP
//! requests exactly as the wire codec's decoders expect.
//!
//! The simulator owns a graph of the same shape as the discoverer's: nodes
//! hold ports, ports name their peer by [`PortKey`].  Test harnesses build
//! the graph up front; [`Fabric::respond`] consumes one 320-byte request
//! and produces the 320-byte response, or reports why none can be made.

use vstd::prelude::*;
use crate::discovery::{IbError, PortKey};
use crate::mad::dr_smp::dr_smp_mad;
use crate::mad::helpers::{spec_bit, spec_field};
use crate::mad::node::{node_info, node_info_wire};
use crate::mad::port::port_info;
use crate::mad::types::{ib_mad, ib_user_mad};
use crate::mad::wire::{spec_be16, spec_be32, write_slice};
use vstd::slice::slice_to_vec;

verus! {

/// A simulated port: its number, its PortInfo in wire form, and the port
/// at the far end of its link, if any.
#[derive(Debug, Clone, Copy)]
pub struct Port {
    pub num: u8,
    pub port_info: port_info,
    pub remote_port: Option<PortKey>,
}

/// A simulated node: description, NodeInfo record, and ports.
#[derive(Debug, Clone)]
pub struct Node {
    pub description: String,
    pub node_info: node_info,
    pub ports: Vec<Port>,
}

/// The simulated fabric: nodes with their ports, the port registered as
/// the first hop of every directed-route path, and an optional response
/// delay bound for jitter testing (applied by the I/O driver).
#[derive(Debug)]
pub struct Fabric {
    pub nodes: Vec<Node>,
    pub switches: Vec<usize>,
    pub hcas: Vec<usize>,
    pub first_hop: Option<PortKey>,
    pub response_delay: Option<u64>,
}

impl Fabric {
    /// Whether `k` names an existing port of an existing node.
    pub open spec fn valid_key(self, k: PortKey) -> bool {
        k.node < self.nodes@.len() && k.port < self.nodes@[k.node as int].ports@.len()
    }
}

/// Index of the first port numbered `num` at or after position `i`.
pub open spec fn spec_find_port_from(ports: Seq<Port>, num: u8, i: int) -> Option<int>
    decreases ports.len() - i,
{
    if i < 0 || i >= ports.len() {
        None
    } else if ports[i].num == num {
        Some(i)
    } else {
        spec_find_port_from(ports, num, i + 1)
    }
}

/// Index of the first port numbered `num`, if one exists.
pub open spec fn spec_find_port(ports: Seq<Port>, num: u8) -> Option<int> {
    spec_find_port_from(ports, num, 0)
}

/// One directed-route step after another, starting at path index `i` on
/// the port `cur`: a zero entry ends the path at `cur`; a non-zero entry
/// leaves the current node through the port with that number and arrives
/// at its remote port.  `None` when a step cannot be resolved.
pub open spec fn spec_walk_from(fab: Fabric, path: Seq<u8>, i: int, cur: PortKey) -> Option<PortKey>
    decreases 64 - i,
{
    if i < 1 || i >= 64 {
        Some(cur)
    } else if path[i] == 0 {
        Some(cur)
    } else if !fab.valid_key(cur) {
        None
    } else {
        let node = fab.nodes@[cur.node as int];
        match spec_find_port_from(node.ports@, path[i], 0) {
            None => None,
            Some(p) => match node.ports@[p].remote_port {
                None => None,
                Some(rk) => if fab.valid_key(rk) {
                    spec_walk_from(fab, path, i + 1, rk)
                } else {
                    None
                },
            },
        }
    }
}

/// Resolves a 64-entry directed-route path against the fabric, starting
/// at the registered first hop; index 0 is reserved and must be zero.
pub open spec fn spec_walk(fab: Fabric, path: Seq<u8>) -> Option<PortKey> {
    match fab.first_hop {
        None => None,
        Some(fh) => if fab.valid_key(fh) && path[0] == 0 {
            spec_walk_from(fab, path, 1, fh)
        } else {
            None
        },
    }
}

/// The port number a PortInfo request with this attribute modifier asks
/// for: the modifier's low byte, with 0 standing for port 1.
pub open spec fn spec_target_port_num(attr_mod: nat) -> u8 {
    if attr_mod % 256 == 0 {
        1u8
    } else {
        (attr_mod % 256) as u8
    }
}

impl Port {
    /// Creates a port with a fresh PortInfo: the port number and LID
    /// written, the port logically Down and physically Polling, and the
    /// supported, enabled and active speeds and widths set to one.
    #[verifier::rlimit(60)]
    pub fn new_port(num: u8, lid: u16) -> (r: Port)
        ensures
            r.num == num,
            r.remote_port is None,
            spec_field(r.port_info.data@, 224, 8) == num as nat,
            spec_field(r.port_info.data@, 128, 16) == lid as nat,
            spec_field(r.port_info.data@, 260, 4) == 1,
            spec_field(r.port_info.data@, 264, 4) == 2,
            spec_field(r.port_info.data@, 256, 4) == 1,
            spec_field(r.port_info.data@, 284, 4) == 1,
            spec_field(r.port_info.data@, 280, 4) == 1,
            spec_field(r.port_info.data@, 240, 8) == 1,
            spec_field(r.port_info.data@, 232, 8) == 1,
            spec_field(r.port_info.data@, 248, 8) == 1,
            forall|j: int|
                0 <= j < 512 && !(128 <= j < 144) && !(224 <= j < 268) && !(280 <= j < 288)
                    ==> spec_bit(r.port_info.data@, j) == 0,
    {
        let zeros: [u8; 64] = [0u8; 64];
        let mut pi = port_info { data: zeros };
        let ghost d0 = pi.data@;
        proof {
            broadcast use vstd::array::group_array_axioms;

            vstd::arithmetic::power2::lemma2_to64();
            assert(d0 =~= zeros@);
            assert forall|j: int| 0 <= j < 512 implies spec_bit(d0, j) == 0 by {
                assert(zeros@[j / 8] == 0u8);
                vstd::arithmetic::power2::lemma_pow2_pos((7 - j % 8) as nat);
            }
        }
        pi.set_local_portnum(num);
        pi.set_lid(lid);
        pi.set_port_state(1);
        pi.set_port_physical_state(2);
        pi.set_link_speed_supported(1);
        pi.set_link_speed_enabled(1);
        pi.set_link_speed_active(1);
        pi.set_link_width_supported(1);
        pi.set_link_width_enabled(1);
        pi.set_link_width_active(1);
        proof {
            vstd::arithmetic::power2::lemma2_to64();
        }
        Port { num, port_info: pi, remote_port: None }
    }
}

impl Node {
    /// Creates a channel adapter with one port, its three GUIDs equal to
    /// `guid`, and an empty port list.
    pub fn new_hca(description: &str, guid: u64) -> (r: Node)
        ensures
            r.description@ == description@,
            r.node_info.node_type == 1,
            r.node_info.nports == 1,
            r.node_info.node_guid == guid,
            r.node_info.system_guid == guid,
            r.node_info.port_guid == guid,
            r.node_info.local_port == 1,
            r.node_info.base_version == 1,
            r.node_info.class_version == 1,
            r.node_info.partition_cap == 128,
            r.node_info.device_id == 128,
            r.node_info.revision == 0,
            r.ports@.len() == 0,
    {
        Node {
            description: description.to_owned(),
            node_info: node_info {
                base_version: 0x1,
                class_version: 0x1,
                node_type: 0x1,
                nports: 1,
                system_guid: guid,
                node_guid: guid,
                port_guid: guid,
                partition_cap: 128,
                device_id: 128,
                revision: 0,
                local_port: 1,
                vendor_id: [0x00, 0x02, 0xc9],
                reserved: [0u8; 24],
            },
            ports: Vec::new(),
        }
    }

    /// Creates a switch with 65 physical ports (port 0 is the management
    /// port), its three GUIDs equal to `guid`, and an empty port list.
    pub fn new_switch(description: &str, guid: u64) -> (r: Node)
        ensures
            r.description@ == description@,
            r.node_info.node_type == 2,
            r.node_info.nports == 65,
            r.node_info.node_guid == guid,
            r.node_info.system_guid == guid,
            r.node_info.port_guid == guid,
            r.node_info.local_port == 0,
            r.node_info.base_version == 1,
            r.node_info.class_version == 1,
            r.node_info.partition_cap == 8,
            r.node_info.device_id == 0xd2f2,
            r.node_info.revision == 0xa0,
            r.ports@.len() == 0,
    {
        Node {
            description: description.to_owned(),
            node_info: node_info {
                base_version: 0x1,
                class_version: 0x1,
                node_type: 0x2,
                nports: 65,
                system_guid: guid,
                node_guid: guid,
                port_guid: guid,
                partition_cap: 8,
                device_id: 0xd2f2,
                revision: 0x0000_00a0,
                local_port: 0,
                vendor_id: [0x00, 0xcf, 0x09],
                reserved: [0u8; 24],
            },
            ports: Vec::new(),
        }
    }
}

impl Fabric {
    /// Creates an empty simulated fabric.
    pub fn new() -> (r: Self)
        ensures
            r.nodes@.len() == 0,
            r.switches@.len() == 0,
            r.hcas@.len() == 0,
            r.first_hop is None,
            r.response_delay is None,
    {
        Fabric {
            nodes: Vec::new(),
            switches: Vec::new(),
            hcas: Vec::new(),
            first_hop: None,
            response_delay: None,
        }
    }

    /// Appends a switch node and records it in the switch index; returns
    /// its node index.
    pub fn add_switch(&mut self, switch: Node) -> (i: usize)
        ensures
            i == old(self).nodes@.len(),
            final(self).nodes@ == old(self).nodes@.push(switch),
            final(self).switches@ == old(self).switches@.push(i),
            final(self).hcas == old(self).hcas,
            final(self).first_hop == old(self).first_hop,
            final(self).response_delay == old(self).response_delay,
    {
        let i = self.nodes.len();
        self.switches.push(i);
        self.nodes.push(switch);
        i
    }

    /// Appends a channel adapter node and records it in the CA index;
    /// returns its node index.
    pub fn add_hca(&mut self, hca: Node) -> (i: usize)
        ensures
            i == old(self).nodes@.len(),
            final(self).nodes@ == old(self).nodes@.push(hca),
            final(self).hcas@ == old(self).hcas@.push(i),
            final(self).switches == old(self).switches,
            final(self).first_hop == old(self).first_hop,
            final(self).response_delay == old(self).response_delay,
    {
        let i = self.nodes.len();
        self.hcas.push(i);
        self.nodes.push(hca);
        i
    }
}

/// The NodeInfo record a node answers with when reached through a given
/// port: its own record with `local_port` overridden by the arrival port's
/// number.
pub open spec fn spec_ni_response(ni: node_info, arrival: u8) -> node_info {
    node_info { local_port: arrival, ..ni }
}

/// A request the simulator ignores without a response: one whose
/// management class is not directed-route SMP, or whose attribute is not
/// NodeDescription, NodeInfo or PortInfo.
pub open spec fn spec_ignores(req: Seq<u8>) -> bool {
    req[65] != 0x81 || (spec_be16(req, 80) != 0x10 && spec_be16(req, 80) != 0x11 && spec_be16(
        req,
        80,
    ) != 0x15)
}

/// A directed-route request the simulator cannot answer: its path does
/// not resolve, or it asks for the PortInfo of a port the target node
/// does not have.
pub open spec fn spec_fails(fab: Fabric, req: Seq<u8>) -> bool {
    ||| spec_walk(fab, req.subrange(192, 256)) is None
    ||| {
        &&& spec_be16(req, 80) == 0x15
        &&& spec_walk(fab, req.subrange(192, 256)) matches Some(k) && spec_find_port(
            fab.nodes@[k.node as int].ports@,
            spec_target_port_num(spec_be32(req, 84)),
        ) is None
    }
}

/// What a successful response contains: the request echoed byte for byte,
/// with the 64-byte attribute layout region (bytes 128..192 of the
/// packet) replaced by the answer for the resolved target.
pub open spec fn spec_response_ok(fab: Fabric, req: Seq<u8>, resp: Seq<u8>) -> bool {
    let attr = spec_be16(req, 80);
    let walk = spec_walk(fab, req.subrange(192, 256));
    &&& walk is Some
    &&& {
        let k = walk->Some_0;
        let node = fab.nodes@[k.node as int];
        &&& resp.len() == 320
        &&& (forall|j: int| 0 <= j < 320 && !(128 <= j < 192) ==> resp[j] == req[j])
        &&& (attr == 0x11 ==> node_info_wire(
            spec_ni_response(node.node_info, node.ports@[k.port as int].num),
            resp.subrange(128, 192),
        ))
        &&& (attr == 0x15 ==> {
            let p = spec_find_port(node.ports@, spec_target_port_num(spec_be32(req, 84)));
            &&& p is Some
            &&& resp.subrange(128, 192) == node.ports@[p->Some_0].port_info.data@
        })
        &&& (attr == 0x10 ==> {
            let db = vstd::utf8::encode_utf8(node.description@);
            let m = if db.len() < 64 {
                db.len() as int
            } else {
                64
            };
            &&& resp.subrange(128, 128 + m) == db.take(m)
            &&& (forall|j: int| 128 + m <= j < 192 ==> resp[j] == req[j])
        })
    }
}

/// Finds the first port of a node carrying a given number.
fn find_port(node: &Node, num: u8) -> (r: Option<usize>)
    ensures
        match r {
            Some(p) => spec_find_port(node.ports@, num) == Some(p as int) && p
                < node.ports@.len() && node.ports@[p as int].num == num,
            None => spec_find_port(node.ports@, num) is None,
        },
{
    let n = node.ports.len();
    let mut i: usize = 0;
    while i < n
        invariant
            i <= n,
            n == node.ports@.len(),
            spec_find_port(node.ports@, num) == spec_find_port_from(node.ports@, num, i as int),
        decreases n - i,
    {
        if node.ports[i].num == num {
            return Some(i);
        }
        i += 1;
    }
    None
}

impl Fabric {
    /// Answers one 320-byte request.  The directed-route path is walked
    /// from the registered first hop; the response is the request with
    /// its attribute layout replaced by the answer.  Requests of another
    /// management class or an unknown attribute are ignored (`Ok(None)`);
    /// a short request fails with `ShortRead`; an unresolvable path or a
    /// missing target port fails with `NotFound`.
    pub fn respond(&self, req: &[u8]) -> (r: Result<Option<Vec<u8>>, IbError>)
        ensures
            match r {
                Ok(opt) => req@.len() == 320 && match opt {
                    None => spec_ignores(req@),
                    Some(resp) => !spec_ignores(req@) && !spec_fails(*self, req@)
                        && spec_response_ok(*self, req@, resp@),
                },
                Err(e) => (e == IbError::ShortRead && req@.len() != 320) || (e
                    == IbError::NotFound && req@.len() == 320 && !spec_ignores(req@) && spec_fails(
                    *self,
                    req@,
                )),
            },
    {
        if req.len() != 320 {
            return Err(IbError::ShortRead);
        }
        let umad = match ib_user_mad::from_bytes(req) {
            Some(u) => u,
            None => {
                return Err(IbError::ShortRead);
            },
        };
        let mad = match ib_mad::from_bytes(&umad.data) {
            Some(m) => m,
            None => {
                return Err(IbError::ShortRead);
            },
        };
        proof {
            assert(req@.take(320) =~= req@);
            assert(umad.data@ =~= req@.subrange(64, 320));
            assert(umad.data@.take(256) =~= umad.data@);
            assert(mad.mgmt_class == req@[65]);
            assert(spec_be16(req@, 80) == mad.attr_id);
            assert(spec_be32(req@, 84) == mad.attr_mod);
        }
        if mad.mgmt_class != 0x81 {
            return Ok(None);
        }
        if mad.attr_id != 0x10 && mad.attr_id != 0x11 && mad.attr_id != 0x15 {
            return Ok(None);
        }
        let dr = match dr_smp_mad::from_bytes(&mad.data) {
            Some(d) => d,
            None => {
                return Err(IbError::ShortRead);
            },
        };
        let ghost path = req@.subrange(192, 256);
        proof {
            assert(mad.data@ =~= req@.subrange(88, 320));
            assert(mad.data@.take(232) =~= mad.data@);
            assert(dr.initial_path@ =~= path);
            assert(dr.attr_layout@ =~= req@.subrange(128, 192));
        }

        // Resolve the directed-route path from the registered first hop.
        let fh = match self.first_hop {
            Some(k) => k,
            None => {
                return Err(IbError::NotFound);
            },
        };
        if !(fh.node < self.nodes.len() && fh.port < self.nodes[fh.node].ports.len()) {
            return Err(IbError::NotFound);
        }
        if dr.initial_path[0] != 0 {
            return Err(IbError::NotFound);
        }
        let mut cur: PortKey = fh;
        let mut i: usize = 1;
        while i < 64 && dr.initial_path[i] != 0
            invariant
                1 <= i <= 64,
                self.valid_key(cur),
                dr.initial_path@ == path,
                path.len() == 64,
                req@.len() == 320,
                !spec_ignores(req@),
                path == req@.subrange(192, 256),
                self.first_hop == Some(fh),
                self.valid_key(fh),
                path[0] == 0,
                spec_walk_from(*self, path, 1, fh) == spec_walk_from(*self, path, i as int, cur),
            decreases 64 - i,
        {
            let portnum = dr.initial_path[i];
            let node = &self.nodes[cur.node];
            let p = match find_port(node, portnum) {
                Some(p) => p,
                None => {
                    proof {
                        assert(spec_walk_from(*self, path, i as int, cur) is None);
                    }
                    return Err(IbError::NotFound);
                },
            };
            let rk = match node.ports[p].remote_port {
                Some(rk) => rk,
                None => {
                    proof {
                        assert(spec_walk_from(*self, path, i as int, cur) is None);
                    }
                    return Err(IbError::NotFound);
                },
            };
            if !(rk.node < self.nodes.len() && rk.port < self.nodes[rk.node].ports.len()) {
                proof {
                    assert(!self.valid_key(rk));
                    assert(spec_walk_from(*self, path, i as int, cur) is None);
                }
                return Err(IbError::NotFound);
            }
            cur = rk;
            i += 1;
        }
        proof {
            assert(spec_walk_from(*self, path, i as int, cur) == Some(cur));
            assert(spec_walk(*self, path) == Some(cur));
        }

        // Build the answer for the resolved target.
        let node = &self.nodes[cur.node];
        let mut resp = slice_to_vec(req);
        if mad.attr_id == 0x11 {
            let mut ni = node.node_info;
            ni.local_port = node.ports[cur.port].num;
            let ni_bytes = ni.to_bytes();
            write_slice(&mut resp, 128, ni_bytes.as_slice());
            proof {
                assert(resp@.subrange(128, 192) =~= ni_bytes@);
                assert(ni == spec_ni_response(node.node_info, node.ports@[cur.port as int].num));
            }
            Ok(Some(resp))
        } else if mad.attr_id == 0x15 {
            let tn0 = (mad.attr_mod % 0x100) as u8;
            let tn: u8 = if tn0 == 0 {
                1
            } else {
                tn0
            };
            proof {
                assert(tn == spec_target_port_num(mad.attr_mod as nat));
            }
            let p = match find_port(node, tn) {
                Some(p) => p,
                None => {
                    return Err(IbError::NotFound);
                },
            };
            let pi_bytes = node.ports[p].port_info.to_bytes();
            write_slice(&mut resp, 128, pi_bytes.as_slice());
            proof {
                assert(resp@.subrange(128, 192) =~= pi_bytes@);
            }
            Ok(Some(resp))
        } else {
            let desc_bytes = node.description.as_str().as_bytes();
            let m: usize = if desc_bytes.len() < 64 {
                desc_bytes.len()
            } else {
                64
            };
            let mut j: usize = 0;
            while j < m
                invariant
                    j <= m,
                    m <= 64,
                    m <= desc_bytes@.len(),
                    resp@.len() == 320,
                    forall|t: int| 0 <= t < 320 && !(128 <= t < 128 + j) ==> resp@[t] == req@[t],
                    forall|t: int| 0 <= t < j ==> resp@[128 + t] == desc_bytes@[t],
                decreases m - j,
            {
                resp[128 + j] = desc_bytes[j];
                j += 1;
            }
            proof {
                assert(resp@.subrange(128, 128 + m) =~= desc_bytes@.take(m as int));
            }
            Ok(Some(resp))
        }
    }
}

/// Links two ports of the fabric to each other and marks both ends up:
/// port state Active, physical state LinkUp, active speed and width one.
/// Everything else in the fabric is untouched.
#[verifier::rlimit(60)]
pub fn connect_ports(fabric: &mut Fabric, a: PortKey, b: PortKey)
    requires
        old(fabric).valid_key(a),
        old(fabric).valid_key(b),
        a != b,
    ensures
        final(fabric).nodes@.len() == old(fabric).nodes@.len(),
        final(fabric).valid_key(a),
        final(fabric).valid_key(b),
        final(fabric).switches == old(fabric).switches,
        final(fabric).hcas == old(fabric).hcas,
        final(fabric).first_hop == old(fabric).first_hop,
        final(fabric).response_delay == old(fabric).response_delay,
        forall|n: int|
            0 <= n < old(fabric).nodes@.len() ==> #[trigger] final(fabric).nodes@[n].ports@.len()
                == old(fabric).nodes@[n].ports@.len() && final(fabric).nodes@[n].description == old(
                fabric,
            ).nodes@[n].description && final(fabric).nodes@[n].node_info == old(
                fabric,
            ).nodes@[n].node_info,
        forall|c: PortKey|
            old(fabric).valid_key(c) && c != a && c != b
                ==> #[trigger] final(fabric).nodes@[c.node as int].ports@[c.port as int] == old(
                fabric,
            ).nodes@[c.node as int].ports@[c.port as int],
        final(fabric).nodes@[a.node as int].ports@[a.port as int].remote_port == Some(b),
        final(fabric).nodes@[b.node as int].ports@[b.port as int].remote_port == Some(a),
        final(fabric).nodes@[a.node as int].ports@[a.port as int].num == old(
            fabric,
        ).nodes@[a.node as int].ports@[a.port as int].num,
        final(fabric).nodes@[b.node as int].ports@[b.port as int].num == old(
            fabric,
        ).nodes@[b.node as int].ports@[b.port as int].num,
        spec_field(
            final(fabric).nodes@[a.node as int].ports@[a.port as int].port_info.data@,
            260,
            4,
        ) == 4,
        spec_field(
            final(fabric).nodes@[a.node as int].ports@[a.port as int].port_info.data@,
            264,
            4,
        ) == 5,
        spec_field(
            final(fabric).nodes@[b.node as int].ports@[b.port as int].port_info.data@,
            260,
            4,
        ) == 4,
        spec_field(
            final(fabric).nodes@[b.node as int].ports@[b.port as int].port_info.data@,
            264,
            4,
        ) == 5,
        spec_field(
            final(fabric).nodes@[a.node as int].ports@[a.port as int].port_info.data@,
            224,
            8,
        ) == spec_field(
            old(fabric).nodes@[a.node as int].ports@[a.port as int].port_info.data@,
            224,
            8,
        ),
        spec_field(
            final(fabric).nodes@[b.node as int].ports@[b.port as int].port_info.data@,
            224,
            8,
        ) == spec_field(
            old(fabric).nodes@[b.node as int].ports@[b.port as int].port_info.data@,
            224,
            8,
        ),
        spec_field(
            final(fabric).nodes@[a.node as int].ports@[a.port as int].port_info.data@,
            280,
            4,
        ) == 1,
        spec_field(
            final(fabric).nodes@[a.node as int].ports@[a.port as int].port_info.data@,
            248,
            8,
        ) == 1,
        spec_field(
            final(fabric).nodes@[b.node as int].ports@[b.port as int].port_info.data@,
            280,
            4,
        ) == 1,
        spec_field(
            final(fabric).nodes@[b.node as int].ports@[b.port as int].port_info.data@,
            248,
            8,
        ) == 1,
        forall|j: int|
            0 <= j < 512 && !(248 <= j < 256) && !(260 <= j < 268) && !(280 <= j < 284)
                ==> spec_bit(
                final(fabric).nodes@[a.node as int].ports@[a.port as int].port_info.data@,
                j,
            ) == spec_bit(
                old(fabric).nodes@[a.node as int].ports@[a.port as int].port_info.data@,
                j,
            ),
        forall|j: int|
            0 <= j < 512 && !(248 <= j < 256) && !(260 <= j < 268) && !(280 <= j < 284)
                ==> spec_bit(
                final(fabric).nodes@[b.node as int].ports@[b.port as int].port_info.data@,
                j,
            ) == spec_bit(
                old(fabric).nodes@[b.node as int].ports@[b.port as int].port_info.data@,
                j,
            ),
{
    proof {
        vstd::arithmetic::power2::lemma2_to64();
    }
    {
        let node_ref = &mut fabric.nodes[a.node];
        let port_ref = &mut node_ref.ports[a.port];
        port_ref.remote_port = Some(b);
        port_ref.port_info.set_port_state(4);
        port_ref.port_info.set_port_physical_state(5);
        port_ref.port_info.set_link_speed_active(1);
        port_ref.port_info.set_link_width_active(1);
    }
    let ghost mid = *fabric;
    {
        let node_ref = &mut fabric.nodes[b.node];
        let port_ref = &mut node_ref.ports[b.port];
        port_ref.remote_port = Some(a);
        port_ref.port_info.set_port_state(4);
        port_ref.port_info.set_port_physical_state(5);
        port_ref.port_info.set_link_speed_active(1);
        port_ref.port_info.set_link_width_active(1);
    }
    proof {
        assert(fabric.nodes@[a.node as int].ports@[a.port as int] == mid.nodes@[a.node as int].ports@[a.port as int]);
    }
}

} // verus!
