//! The directed-route walk: a state machine that discovers the fabric one
//! probe at a time.
//!
//! The walker never performs I/O.  [`Walker::poll`] hands out the next
//! request to send (assigning it a fresh transaction identifier), and
//! [`Walker::deliver`] consumes that request's outcome — the 64-byte
//! attribute layout of the matched response, a timeout, or a fatal
//! transport error — and advances the walk.  A driver alternates the two:
//! against hardware it sends and receives through the kernel device;
//! against the simulator ([`Walker::seq_discover_sim`]) the exchange is a
//! pure function call, so the whole walk is verified executable code.

use vstd::prelude::*;
use crate::discovery::{Fabric, IbError, Node, Port, PortKey, spec_hop_count};
use crate::enums::{IbNodeType, IbPortLinkLayerState, IbPortPhyState, SmiAttrID};
use crate::mad::node::{lemma_node_info_wire_deterministic, node_info, node_info_wire};
use crate::mad::port::port_info;
use crate::mad::types::ib_user_mad;
use crate::mad::wire::{read_array, spec_be16};
use crate::sim;

verus! {

/// The attribute a probe asks for; PortInfo carries the port number used
/// as the attribute modifier.
#[derive(Debug, Clone, Copy, PartialEq, Eq, Structural)]
pub enum ProbeKind {
    NodeInfoProbe,
    NodeDescProbe,
    PortInfoProbe(u8),
}

/// One outstanding request: the directed-route path, its hop count, the
/// attribute asked for, and the transaction identifier it carries.
#[derive(Debug, Clone, Copy)]
pub struct Probe {
    pub path: [u8; 64],
    pub hop_cnt: u8,
    pub kind: ProbeKind,
    pub tid: u64,
}

/// The outcome of one probe, as the transaction layer reports it: the
/// matched response's 64-byte attribute layout, expiry of every attempt's
/// deadline, or a fatal transport error.
#[derive(Debug, Clone, Copy)]
pub enum ProbeOutcome {
    Reply([u8; 64]),
    TimedOut,
    Fatal,
}

/// Why a node is being discovered, and what to do when its records have
/// been fetched.
#[derive(Debug, Clone, Copy)]
pub enum DiscoverTarget {
    /// A first-hop neighbor, reached from the root's port with this
    /// number: link that port to the arrival port, then seed the worklist
    /// with every Active or Init port of the new node.
    FirstHop { root_port_num: u8 },
    /// A remote node, reached by probing from `local`: link `local` to
    /// the arrival port; if the new node is a switch, push its Active
    /// ports (except the arrival port) in reverse numeric order.
    Remote { local: PortKey },
}

/// What the pending probe was for: the continuation the walker runs when
/// the outcome arrives.
#[derive(Debug, Clone)]
pub enum WalkContext {
    /// NodeInfo on the empty path: the root node itself.
    RootNI,
    /// NodeInfo through one of the root's ports: the first-hop neighbor.
    FirstHopNI { root_port_num: u8 },
    /// NodeInfo refetch opening a full node discovery.
    DiscoverNI { target: DiscoverTarget },
    /// NodeDescription of a node under discovery.
    DiscoverND { target: DiscoverTarget, ni: node_info, node_type: IbNodeType },
    /// PortInfo sweep of a node under discovery: ports below `next_port`
    /// are collected in `ports` (gaps where a probe timed out).  The sweep
    /// covers the physical ports 1..=nports for every node kind; a
    /// switch's management port 0 is never a hop and is not fetched.
    DiscoverPI {
        target: DiscoverTarget,
        ni: node_info,
        node_type: IbNodeType,
        desc: Vec<u8>,
        ports: Vec<Port>,
        next_port: u8,
    },
    /// NodeInfo through a worklist port: the node at its far end.
    RemoteNI { local: PortKey },
}

/// What `poll` asks the driver to do next.
#[derive(Debug)]
pub enum WalkStep {
    /// Send this probe and deliver its outcome.
    Send(Probe),
    /// The walk is over; the walker's fabric and error hold the result.
    Finished,
}

/// The sequential directed-route walker.
pub struct Walker {
    /// The graph and counters the walk populates.
    pub fabric: Fabric,
    /// LIFO worklist of (port to probe through, path to its node).
    pub stack: Vec<(PortKey, [u8; 64])>,
    /// The probe handed out by `poll` that has not been delivered yet.
    pub pending: Option<(Probe, WalkContext)>,
    /// Index of the root node once discovered.
    pub root: Option<usize>,
    /// Root port numbers still to probe, popped from the end.
    pub first_hop_ports: Vec<u8>,
    /// Whether the walk has terminated normally.
    pub done: bool,
    /// The error that aborted the walk, if any.
    pub failed: Option<IbError>,
    /// Every transaction identifier issued so far, in issue order.
    pub issued: Ghost<Seq<u64>>,
}

impl WalkContext {
    /// Validity of a continuation against the graph: keys it holds name
    /// existing ports, and a node under discovery is not yet indexed.
    pub open spec fn wf(self, fabric: Fabric) -> bool {
        match self {
            WalkContext::RootNI => true,
            WalkContext::FirstHopNI { .. } => true,
            WalkContext::DiscoverNI { target } => target.wf(fabric),
            WalkContext::DiscoverND { target, .. } => target.wf(fabric),
            WalkContext::DiscoverPI { target, ni, node_type, desc, ports, next_port } => {
                &&& target.wf(fabric)
                &&& forall|j: int| 0 <= j < ports@.len() ==> #[trigger] ports@[j].remote_port is None
            },
            WalkContext::RemoteNI { local } => fabric.valid_key(local),
        }
    }

    /// Whether the continuation will need the root node: first-hop
    /// probes and discoveries opened from a root port do.
    pub open spec fn needs_root(self) -> bool {
        match self {
            WalkContext::RootNI => false,
            WalkContext::FirstHopNI { .. } => true,
            WalkContext::DiscoverNI { target } => target is FirstHop,
            WalkContext::DiscoverND { target, .. } => target is FirstHop,
            WalkContext::DiscoverPI { target, .. } => target is FirstHop,
            WalkContext::RemoteNI { .. } => false,
        }
    }
}

impl DiscoverTarget {
    /// Validity of a continuation target against the graph.
    pub open spec fn wf(self, fabric: Fabric) -> bool {
        match self {
            DiscoverTarget::FirstHop { .. } => true,
            DiscoverTarget::Remote { local } => fabric.valid_key(local),
        }
    }
}


/// Existing nodes keep their identity as the graph grows: indices are
/// stable and a node's GUID, kind and declared port count never change.
pub open spec fn nodes_identity_stable(f1: Fabric, f2: Fabric) -> bool {
    &&& f2.nodes@.len() >= f1.nodes@.len()
    &&& forall|i: int|
        0 <= i < f1.nodes@.len() ==> (#[trigger] f2.nodes@[i]).node_guid == f1.nodes@[i].node_guid
            && f2.nodes@[i].node_type == f1.nodes@[i].node_type && f2.nodes@[i].nports
            == f1.nodes@[i].nports
}

/// What every outcome handler leaves alone: the counters and
/// configuration, the termination flag, the identity of existing nodes;
/// an abort sets only a fabric-inconsistency or transport error; and a
/// follow-up probe, if one was issued, is a discovery step with a fresh
/// identifier.
pub open spec fn handler_frame(w1: Walker, w2: Walker) -> bool {
    &&& w2.fabric.mads_sent == w1.fabric.mads_sent
    &&& w2.fabric.mad_timeouts == w1.fabric.mad_timeouts
    &&& w2.fabric.mad_errors == w1.fabric.mad_errors
    &&& w2.fabric.retries == w1.fabric.retries
    &&& w2.fabric.timeout == w1.fabric.timeout
    &&& w2.done == w1.done
    &&& nodes_identity_stable(w1.fabric, w2.fabric)
    &&& (w2.failed == w1.failed || w2.failed == Some(IbError::Io) || w2.failed == Some(
        IbError::InvalidData,
    ))
    &&& match w2.pending {
        Some((p, c)) => !(c is RootNI) && w2.issued@.len() > w1.issued@.len(),
        None => true,
    }
}

impl Walker {
    /// Every node is classified: the switch and CA indices partition the
    /// node vector by node type.
    pub open spec fn classified(self) -> bool {
        &&& self.fabric.switches@.len() + self.fabric.hcas@.len() == self.fabric.nodes@.len()
        &&& forall|i: int|
            0 <= i < self.fabric.nodes@.len() && (#[trigger] self.fabric.nodes@[i].node_type)
                == IbNodeType::Switch ==> self.fabric.switches@.contains(i as usize)
        &&& forall|i: int|
            0 <= i < self.fabric.nodes@.len() && (#[trigger] self.fabric.nodes@[i].node_type)
                != IbNodeType::Switch ==> self.fabric.hcas@.contains(i as usize)
    }

    /// A worklist entry still worth probing: its port exists, is not yet
    /// linked, and extending its path stays within the length bound.
    pub open spec fn spec_entry_workable(fabric: Fabric, e: (PortKey, [u8; 64])) -> bool {
        &&& fabric.valid_key(e.0)
        &&& fabric.remote_of(e.0) is None
        &&& spec_hop_count(e.1@) + 1 < 63
    }

    /// Whether the walk still owes a probe: the root is undiscovered, a
    /// root port awaits its first-hop probe, or the worklist holds a
    /// workable entry.
    pub open spec fn has_pending_work(self) -> bool {
        ||| self.root is None
        ||| self.first_hop_ports@.len() > 0
        ||| exists|s: int|
            0 <= s < self.stack@.len() && Walker::spec_entry_workable(
                self.fabric,
                #[trigger] self.stack@[s],
            )
    }
}

/// Continuation validity only reads the nodes and the GUID index, so it
/// survives any change to the configuration and counters.
proof fn lemma_ctx_wf_same_graph(ctx: WalkContext, f1: Fabric, f2: Fabric)
    requires
        ctx.wf(f1),
        f2.nodes == f1.nodes,
        f2.node_map == f1.node_map,
    ensures
        ctx.wf(f2),
{
    match ctx {
        WalkContext::RootNI => {},
        WalkContext::FirstHopNI { .. } => {},
        WalkContext::DiscoverNI { target } => lemma_target_wf_same_graph(target, f1, f2),
        WalkContext::DiscoverND { target, .. } => lemma_target_wf_same_graph(target, f1, f2),
        WalkContext::DiscoverPI { target, .. } => lemma_target_wf_same_graph(target, f1, f2),
        WalkContext::RemoteNI { local } => {
            assert(f1.valid_key(local));
        },
    }
}

proof fn lemma_target_wf_same_graph(target: DiscoverTarget, f1: Fabric, f2: Fabric)
    requires
        target.wf(f1),
        f2.nodes == f1.nodes,
        f2.node_map == f1.node_map,
    ensures
        target.wf(f2),
{
    match target {
        DiscoverTarget::FirstHop { .. } => {},
        DiscoverTarget::Remote { local } => {
            assert(f1.valid_key(local));
        },
    }
}

impl Walker {
    /// Well-formedness of the walker: the graph invariants hold, every
    /// worklist key names an existing port, issued transaction
    /// identifiers are strictly increasing and below the next one, and
    /// the pending continuation is valid.
    pub open spec fn wf(self) -> bool {
        &&& self.fabric.wf()
        &&& forall|s: int|
            0 <= s < self.stack@.len() ==> self.fabric.valid_key(#[trigger] self.stack@[s].0)
        &&& match self.root {
            Some(i) => i < self.fabric.nodes@.len(),
            None => true,
        }
        &&& forall|t: int|
            0 <= t < self.issued@.len() ==> #[trigger] self.issued@[t] < self.fabric.tid
        &&& forall|i: int, j: int|
            0 <= i < j < self.issued@.len() ==> self.issued@[i] < self.issued@[j]
        &&& match self.pending {
            Some((probe, ctx)) => ctx.wf(self.fabric) && (ctx.needs_root()
                ==> self.root is Some),
            None => true,
        }
    }

    /// Walker well-formedness only reads the graph, the worklist, the
    /// pending continuation and the identifier log, so it survives any
    /// change to the switch and CA indices and the counters.
    proof fn lemma_wf_same_graph_walker(w1: Walker, w2: Walker)
        requires
            w1.wf(),
            w2.fabric.nodes == w1.fabric.nodes,
            w2.fabric.node_map == w1.fabric.node_map,
            w2.fabric.tid == w1.fabric.tid,
            w2.stack == w1.stack,
            w2.pending == w1.pending || w2.pending is None,
            w2.root == w1.root,
            w2.issued == w1.issued,
        ensures
            w2.wf(),
    {
        Fabric::lemma_wf_same_graph(w1.fabric, w2.fabric);
        assert forall|s: int| 0 <= s < w2.stack@.len() implies w2.fabric.valid_key(
            #[trigger] w2.stack@[s].0,
        ) by {
            assert(w1.fabric.valid_key(w1.stack@[s].0));
        }
        match w2.pending {
            Some((probe, ctx)) => {
                lemma_ctx_wf_same_graph(ctx, w1.fabric, w2.fabric);
            },
            None => {},
        }
    }

    /// Creates a walker with an empty fabric and the given transaction
    /// configuration.
    pub fn new(timeout: u32, retries: u32) -> (r: Self)
        ensures
            r.wf(),
            r.fabric.nodes@.len() == 0,
            r.fabric.timeout == timeout,
            r.fabric.retries == retries,
            r.fabric.mads_sent == 0,
            r.fabric.mad_timeouts == 0,
            r.fabric.mad_errors == 0,
            r.pending is None,
            !r.done,
            r.failed is None,
            r.issued@.len() == 0,
    {
        Walker {
            fabric: Fabric::new(timeout, retries),
            stack: Vec::new(),
            pending: None,
            root: None,
            first_hop_ports: Vec::new(),
            done: false,
            failed: None,
            issued: Ghost(Seq::empty()),
        }
    }

    /// Law: no two issued transaction identifiers are equal.  Every
    /// request carries a fresh identifier, so across a walk no two
    /// outstanding requests can share one.
    pub proof fn lemma_tids_unique(self)
        requires
            self.wf(),
        ensures
            forall|i: int, j: int|
                0 <= i < j < self.issued@.len() ==> self.issued@[i] != self.issued@[j],
    {
    }

    /// Issues the probe for a path and attribute: stamps the next
    /// transaction identifier, counts the send, and records the pending
    /// continuation.
    fn issue(&mut self, path: [u8; 64], hop_cnt: u8, kind: ProbeKind, ctx: WalkContext) -> (r:
        Probe)
        requires
            old(self).wf(),
            old(self).pending is None,
            ctx.wf(old(self).fabric),
            ctx.needs_root() ==> old(self).root is Some,
            old(self).fabric.tid < u64::MAX,
        ensures
            final(self).wf(),
            final(self).pending == Some((r, ctx)),
            r.tid == old(self).fabric.tid,
            r.path == path,
            r.hop_cnt == hop_cnt,
            r.kind == kind,
            final(self).fabric.tid == old(self).fabric.tid + 1,
            final(self).issued@ == old(self).issued@.push(r.tid),
            final(self).fabric.mads_sent == old(self).fabric.mads_sent,
            final(self).fabric.nodes == old(self).fabric.nodes,
            final(self).fabric.node_map == old(self).fabric.node_map,
            final(self).fabric.mad_timeouts == old(self).fabric.mad_timeouts,
            final(self).fabric.mad_errors == old(self).fabric.mad_errors,
            final(self).fabric.retries == old(self).fabric.retries,
            final(self).fabric.timeout == old(self).fabric.timeout,
            final(self).fabric.switches == old(self).fabric.switches,
            final(self).fabric.hcas == old(self).fabric.hcas,
            final(self).stack == old(self).stack,
            final(self).root == old(self).root,
            final(self).done == old(self).done,
            final(self).failed == old(self).failed,
    {
        let tid = self.fabric.tid;
        self.fabric.tid = tid + 1;
        let probe = Probe { path, hop_cnt, kind, tid };
        proof {
            Fabric::lemma_wf_same_graph(old(self).fabric, self.fabric);
            lemma_ctx_wf_same_graph(ctx, old(self).fabric, self.fabric);
            assert forall|s: int| 0 <= s < self.stack@.len() implies self.fabric.valid_key(
                #[trigger] self.stack@[s].0,
            ) by {
                assert(old(self).fabric.valid_key(self.stack@[s].0));
            }
        }
        self.pending = Some((probe, ctx));
        proof {
            self.issued@ = self.issued@.push(tid);
            let s = self.issued@;
            let prev = old(self).issued@;
            assert forall|t: int| 0 <= t < s.len() implies #[trigger] s[t] < self.fabric.tid by {
                if t < prev.len() {
                    assert(s[t] == prev[t]);
                } else {
                    assert(s[t] == tid);
                }
            }
            assert forall|i: int, j: int| 0 <= i < j < s.len() implies s[i] < s[j] by {
                assert(s[i] == if i < prev.len() { prev[i] } else { tid });
                assert(s[j] == if j < prev.len() { prev[j] } else { tid });
            }
        }
        probe
    }

    /// Hands out the next request of the walk, or reports that the walk
    /// is over.  Polling never changes the graph; it only pops worklist
    /// entries that are already linked, stamps the new probe, and - when
    /// nothing is left to ask - classifies the nodes and finishes.
    pub fn poll(&mut self) -> (r: WalkStep)
        requires
            old(self).wf(),
            old(self).pending is None,
        ensures
            final(self).wf(),
            final(self).fabric.nodes == old(self).fabric.nodes,
            final(self).fabric.node_map == old(self).fabric.node_map,
            final(self).fabric.mads_sent == old(self).fabric.mads_sent,
            final(self).fabric.mad_timeouts == old(self).fabric.mad_timeouts,
            final(self).fabric.mad_errors == old(self).fabric.mad_errors,
            final(self).fabric.retries == old(self).fabric.retries,
            final(self).fabric.timeout == old(self).fabric.timeout,
            final(self).root == old(self).root,
            // a probe is owed while the walk has work left
            old(self).failed is None && !old(self).done && old(self).fabric.tid < u64::MAX
                && old(self).has_pending_work() ==> r is Send,
            final(self).done && !old(self).done ==> final(self).root is Some
                && final(self).classified(),
            match r {
                WalkStep::Send(probe) => {
                    &&& final(self).pending matches Some((p, _)) && p == probe
                    &&& final(self).done == old(self).done
                    &&& final(self).failed == old(self).failed
                    &&& probe.tid == old(self).fabric.tid
                    &&& final(self).fabric.tid == old(self).fabric.tid + 1
                    &&& final(self).issued@ == old(self).issued@.push(probe.tid)
                    &&& probe.kind == ProbeKind::NodeInfoProbe
                    &&& (old(self).root is None ==> probe.hop_cnt == 0 && (forall|j: int|
                        0 <= j < 64 ==> probe.path@[j] == 0) && final(self).pending->Some_0.1 == (
                    WalkContext::RootNI))
                    &&& (old(self).root is Some && old(self).first_hop_ports@.len() > 0
                        ==> probe.hop_cnt == 1
                        && probe.path@[1] == old(self).first_hop_ports@.last() && (forall|j: int|
                        0 <= j < 64 && j != 1 ==> probe.path@[j] == 0)
                        && (final(self).pending->Some_0.1 matches WalkContext::FirstHopNI { .. }))
                    &&& (old(self).root is Some && old(self).first_hop_ports@.len() == 0 ==> (
                    final(self).pending->Some_0.1 matches WalkContext::RemoteNI { .. }))
                },
                WalkStep::Finished => {
                    &&& final(self).pending is None
                    &&& (final(self).done || final(self).failed is Some)
                    &&& (final(self).failed is Some ==> old(self).failed is Some
                        || old(self).fabric.tid == u64::MAX)
                    &&& (final(self).failed == old(self).failed || final(self).failed == Some(
                        IbError::Io,
                    ))
                    &&& final(self).issued == old(self).issued
                    &&& final(self).fabric.tid == old(self).fabric.tid
                },
            },
    {
        if self.done || self.failed.is_some() {
            return WalkStep::Finished;
        }
        if self.fabric.tid == u64::MAX {
            // The transaction identifier space would wrap; give up rather
            // than reuse one.
            self.failed = Some(IbError::Io);
            return WalkStep::Finished;
        }
        if self.root.is_none() {
            let path = [0u8; 64];
            let probe = self.issue(path, 0, ProbeKind::NodeInfoProbe, WalkContext::RootNI);
            return WalkStep::Send(probe);
        }
        if self.first_hop_ports.len() > 0 {
            let idx = self.first_hop_ports.len() - 1;
            let p = self.first_hop_ports[idx];
            self.first_hop_ports.pop();
            let mut path = [0u8; 64];
            path[1] = p;
            let probe = self.issue(
                path,
                1,
                ProbeKind::NodeInfoProbe,
                WalkContext::FirstHopNI { root_port_num: p },
            );
            return WalkStep::Send(probe);
        }
        loop
            invariant
                self.wf(),
                self.pending is None,
                self.fabric.tid < u64::MAX,
                self.fabric == old(self).fabric,
                self.issued@ == old(self).issued@,
                self.root == old(self).root,
                self.root is Some,
                self.first_hop_ports == old(self).first_hop_ports,
                old(self).first_hop_ports@.len() == 0,
                !self.done,
                !old(self).done,
                self.failed is None,
                old(self).failed is None,
                old(self).has_pending_work() ==> exists|s: int|
                    0 <= s < self.stack@.len() && Walker::spec_entry_workable(
                        self.fabric,
                        #[trigger] self.stack@[s],
                    ),
            decreases self.stack@.len(),
        {
            let ghost prev_stack = self.stack@;
            let entry = match self.stack.pop() {
                Some(e) => e,
                None => {
                    self.classify();
                    self.done = true;
                    proof {
                        assert(self.classified());
                    }
                    return WalkStep::Finished;
                },
            };
            let (local, path_to_node) = entry;
            let already_linked = self.fabric.nodes[local.node].ports[local.port].remote_port
                .is_some();
            if already_linked {
                proof {
                    Self::lemma_stack_work_remains(
                        prev_stack,
                        self.stack@,
                        self.fabric,
                        *old(self),
                    );
                }
                continue ;
            }
            let hops = Fabric::get_hop_count(&path_to_node);
            if hops + 1 >= 63 {
                // A directed-route path has 64 slots with index 0
                // reserved; paths this long are refused.
                proof {
                    Self::lemma_stack_work_remains(
                        prev_stack,
                        self.stack@,
                        self.fabric,
                        *old(self),
                    );
                }
                continue ;
            }
            let local_num = self.fabric.nodes[local.node].ports[local.port].number;
            let mut remote_path = path_to_node;
            let next_hop = (hops + 1) as usize;
            remote_path[next_hop] = local_num;
            let probe = self.issue(
                remote_path,
                hops + 1,
                ProbeKind::NodeInfoProbe,
                WalkContext::RemoteNI { local },
            );
            return WalkStep::Send(probe);
        }
    }

    /// Popping a worklist entry that is already linked or whose path is
    /// exhausted cannot remove the last workable entry.
    proof fn lemma_stack_work_remains(
        prev: Seq<(PortKey, [u8; 64])>,
        cur: Seq<(PortKey, [u8; 64])>,
        fabric: Fabric,
        w0: Walker,
    )
        requires
            prev.len() > 0,
            cur == prev.drop_last(),
            !Walker::spec_entry_workable(fabric, prev.last()),
            w0.has_pending_work() ==> exists|s: int|
                0 <= s < prev.len() && Walker::spec_entry_workable(fabric, #[trigger] prev[s]),
        ensures
            w0.has_pending_work() ==> exists|s: int|
                0 <= s < cur.len() && Walker::spec_entry_workable(fabric, #[trigger] cur[s]),
    {
        if w0.has_pending_work() {
            let s = choose|s: int|
                0 <= s < prev.len() && Walker::spec_entry_workable(fabric, #[trigger] prev[s]);
            assert(s < prev.len() - 1);
            assert(cur[s] == prev[s]);
        }
    }

    /// Fills the switch and CA indices from the discovered nodes: every
    /// switch's index lands in `switches`, every other node's in `hcas`.
    fn classify(&mut self)
        requires
            old(self).wf(),
        ensures
            final(self).wf(),
            final(self).fabric.nodes == old(self).fabric.nodes,
            final(self).fabric.node_map == old(self).fabric.node_map,
            final(self).pending == old(self).pending,
            final(self).fabric.tid == old(self).fabric.tid,
            final(self).issued == old(self).issued,
            final(self).done == old(self).done,
            final(self).failed == old(self).failed,
            final(self).root == old(self).root,
            final(self).fabric.mads_sent == old(self).fabric.mads_sent,
            final(self).fabric.mad_timeouts == old(self).fabric.mad_timeouts,
            final(self).fabric.mad_errors == old(self).fabric.mad_errors,
            final(self).fabric.retries == old(self).fabric.retries,
            final(self).fabric.timeout == old(self).fabric.timeout,
            final(self).fabric.switches@.len() + final(self).fabric.hcas@.len()
                == final(self).fabric.nodes@.len(),
            forall|i: int|
                0 <= i < final(self).fabric.nodes@.len()
                    && (#[trigger] final(self).fabric.nodes@[i].node_type) == IbNodeType::Switch
                    ==> final(self).fabric.switches@.contains(i as usize),
            forall|i: int|
                0 <= i < final(self).fabric.nodes@.len()
                    && (#[trigger] final(self).fabric.nodes@[i].node_type) != IbNodeType::Switch
                    ==> final(self).fabric.hcas@.contains(i as usize),
    {
        self.fabric.switches = Vec::new();
        self.fabric.hcas = Vec::new();
        proof {
            Self::lemma_wf_same_graph_walker(*old(self), *self);
        }
        let n = self.fabric.nodes.len();
        let mut i: usize = 0;
        while i < n
            invariant
                self.wf(),
                i <= n,
                n == self.fabric.nodes@.len(),
                self.fabric.switches@.len() + self.fabric.hcas@.len() == i,
                self.fabric.nodes == old(self).fabric.nodes,
                self.fabric.node_map == old(self).fabric.node_map,
                self.fabric.tid == old(self).fabric.tid,
                self.fabric.retries == old(self).fabric.retries,
                self.fabric.timeout == old(self).fabric.timeout,
                self.fabric.mads_sent == old(self).fabric.mads_sent,
                self.fabric.mad_timeouts == old(self).fabric.mad_timeouts,
                self.fabric.mad_errors == old(self).fabric.mad_errors,
                self.stack == old(self).stack,
                self.pending == old(self).pending,
                self.root == old(self).root,
                self.first_hop_ports == old(self).first_hop_ports,
                self.done == old(self).done,
                self.failed == old(self).failed,
                self.issued == old(self).issued,
                forall|j: int|
                    0 <= j < i && (#[trigger] self.fabric.nodes@[j].node_type)
                        == IbNodeType::Switch ==> self.fabric.switches@.contains(j as usize),
                forall|j: int|
                    0 <= j < i && (#[trigger] self.fabric.nodes@[j].node_type)
                        != IbNodeType::Switch ==> self.fabric.hcas@.contains(j as usize),
            decreases n - i,
        {
            let is_switch = match self.fabric.nodes[i].node_type {
                IbNodeType::Switch => true,
                _ => false,
            };
            let ghost w0 = *self;
            let ghost sw0 = self.fabric.switches@;
            let ghost hc0 = self.fabric.hcas@;
            if is_switch {
                self.fabric.switches.push(i);
            } else {
                self.fabric.hcas.push(i);
            }
            proof {
                Self::lemma_wf_same_graph_walker(w0, *self);
                assert forall|j: int|
                    0 <= j < i + 1 && (#[trigger] self.fabric.nodes@[j].node_type)
                        == IbNodeType::Switch implies self.fabric.switches@.contains(j as usize) by {
                    if j < i {
                        assert(sw0.contains(j as usize));
                        let t = choose|t: int| 0 <= t < sw0.len() && sw0[t] == j as usize;
                        assert(self.fabric.switches@[t] == j as usize);
                    } else {
                        assert(is_switch);
                        assert(self.fabric.switches@.last() == i);
                    }
                }
                assert forall|j: int|
                    0 <= j < i + 1 && (#[trigger] self.fabric.nodes@[j].node_type)
                        != IbNodeType::Switch implies self.fabric.hcas@.contains(j as usize) by {
                    if j < i {
                        assert(hc0.contains(j as usize));
                        let t = choose|t: int| 0 <= t < hc0.len() && hc0[t] == j as usize;
                        assert(self.fabric.hcas@[t] == j as usize);
                    } else {
                        assert(self.fabric.hcas@.last() == i);
                    }
                }
            }
            i += 1;
        }
    }
}

/// Saturating addition on a 64-bit counter.
pub open spec fn spec_sat_add(a: u64, b: u64) -> u64 {
    if a + b <= u64::MAX {
        (a + b) as u64
    } else {
        u64::MAX
    }
}

/// Adds two counters, saturating at the maximum.
fn sat_add(a: u64, b: u64) -> (r: u64)
    ensures
        r == spec_sat_add(a, b),
{
    if a <= u64::MAX - b {
        a + b
    } else {
        u64::MAX
    }
}

/// The characters `String::from_utf8_lossy` decodes from a byte sequence;
/// the result depends on the bytes alone.
pub uninterp spec fn utf8_lossy_chars(b: Seq<u8>) -> Seq<char>;

/// Relies on String::from_utf8_lossy: decoding depends on the bytes
/// alone, and ASCII bytes decode to themselves.
#[verifier::external_body]
fn lossy_string(b: &[u8]) -> (r: String)
    ensures
        r@ == utf8_lossy_chars(b@),
        (forall|i: int| 0 <= i < b@.len() ==> b@[i] < 0x80) ==> r@ == b@.map_values(
            |x: u8| x as char,
        ),
{
    String::from_utf8_lossy(b).to_string()
}

/// The bytes of a node description up to its first NUL: descriptions are
/// NUL-padded on the wire.
fn trim_node_desc(attr: &[u8; 64]) -> (r: Vec<u8>)
    ensures
        r@.len() <= 64,
        forall|i: int| 0 <= i < r@.len() ==> r@[i] == attr@[i] && r@[i] != 0,
{
    let mut out: Vec<u8> = Vec::new();
    let mut i: usize = 0;
    while i < 64 && attr[i] != 0
        invariant
            i <= 64,
            out@.len() == i,
            forall|j: int| 0 <= j < i ==> out@[j] == attr@[j] && out@[j] != 0,
        decreases 64 - i,
    {
        out.push(attr[i]);
        i += 1;
    }
    out
}

/// Ports 1..=nports of a newly seen node whose states are not yet known.
fn make_ports(nports: u8) -> (r: Vec<Port>)
    ensures
        r@.len() == nports as int,
        forall|j: int|
            0 <= j < nports as int ==> (#[trigger] r@[j]).number == j + 1 && r@[j].remote_port
                is None,
{
    let mut out: Vec<Port> = Vec::new();
    let mut k: u8 = 0;
    while k < nports
        invariant
            k <= nports,
            out@.len() == k as int,
            forall|j: int|
                0 <= j < k as int ==> (#[trigger] out@[j]).number == j + 1 && out@[j].remote_port
                    is None,
        decreases nports - k,
    {
        out.push(
            Port {
                number: k + 1,
                link_state: IbPortLinkLayerState::Unknown,
                phys_state: IbPortPhyState::Unknown,
                remote_port: None,
            },
        );
        k += 1;
    }
    out
}

impl Walker {
    /// Counts one fatal transport error.
    fn bump_errors(&mut self)
        requires
            old(self).wf(),
        ensures
            final(self).wf(),
            *final(self) == (Walker {
                fabric: Fabric {
                    mad_errors: spec_sat_add(old(self).fabric.mad_errors, 1),
                    ..old(self).fabric
                },
                ..*old(self)
            }),
    {
        self.fabric.mad_errors = sat_add(self.fabric.mad_errors, 1);
        proof {
            Self::lemma_wf_same_graph_walker(*old(self), *self);
        }
    }

    /// Counts one logical request whose first write reached the device:
    /// sent once, whatever the number of retries.
    fn bump_sent(&mut self)
        requires
            old(self).wf(),
        ensures
            final(self).wf(),
            *final(self) == (Walker {
                fabric: Fabric {
                    mads_sent: spec_sat_add(old(self).fabric.mads_sent, 1),
                    ..old(self).fabric
                },
                ..*old(self)
            }),
    {
        self.fabric.mads_sent = sat_add(self.fabric.mads_sent, 1);
        proof {
            Self::lemma_wf_same_graph_walker(*old(self), *self);
        }
    }

    /// Counts one timed-out request: every one of its `retries + 1`
    /// attempts expired.
    fn bump_timeouts(&mut self)
        requires
            old(self).wf(),
        ensures
            final(self).wf(),
            *final(self) == (Walker {
                fabric: Fabric {
                    mad_timeouts: spec_sat_add(
                        old(self).fabric.mad_timeouts,
                        (old(self).fabric.retries + 1) as u64,
                    ),
                    ..old(self).fabric
                },
                ..*old(self)
            }),
    {
        let attempts = self.fabric.retries as u64 + 1;
        self.fabric.mad_timeouts = sat_add(self.fabric.mad_timeouts, attempts);
        proof {
            Self::lemma_wf_same_graph_walker(*old(self), *self);
        }
    }

    /// Links the port `local` to the port numbered `remote_num` on node
    /// `node_idx`.  A missing port number or a conflicting existing link
    /// is a fabric inconsistency and aborts the walk with `InvalidData`.
    fn link_by_numbers(&mut self, local: PortKey, node_idx: usize, remote_num: u8)
        requires
            old(self).wf(),
            old(self).pending is None,
            old(self).fabric.valid_key(local),
            node_idx < old(self).fabric.nodes@.len(),
        ensures
            final(self).wf(),
            final(self).pending is None,
            final(self).fabric.nodes@.len() == old(self).fabric.nodes@.len(),
            final(self).fabric.node_map@ == old(self).fabric.node_map@,
            final(self).fabric.tid == old(self).fabric.tid,
            final(self).issued == old(self).issued,
            final(self).fabric.mads_sent == old(self).fabric.mads_sent,
            final(self).fabric.mad_timeouts == old(self).fabric.mad_timeouts,
            final(self).fabric.mad_errors == old(self).fabric.mad_errors,
            final(self).fabric.retries == old(self).fabric.retries,
            final(self).fabric.timeout == old(self).fabric.timeout,
            final(self).done == old(self).done,
            final(self).root == old(self).root,
            nodes_identity_stable(old(self).fabric, final(self).fabric),
            forall|n: int|
                0 <= n < old(self).fabric.nodes@.len()
                    ==> (#[trigger] final(self).fabric.nodes@[n]).description == old(
                    self,
                ).fabric.nodes@[n].description && final(self).fabric.nodes@[n].local_port == old(
                    self,
                ).fabric.nodes@[n].local_port && final(self).fabric.nodes@[n].ports@.len() == old(
                    self,
                ).fabric.nodes@[n].ports@.len(),
            forall|c: PortKey|
                old(self).fabric.valid_key(c)
                    ==> (#[trigger] final(self).fabric.nodes@[c.node as int].ports@[c.port as int]).number
                    == old(self).fabric.nodes@[c.node as int].ports@[c.port as int].number
                    && final(self).fabric.nodes@[c.node as int].ports@[c.port as int].link_state
                    == old(self).fabric.nodes@[c.node as int].ports@[c.port as int].link_state
                    && final(self).fabric.nodes@[c.node as int].ports@[c.port as int].phys_state
                    == old(self).fabric.nodes@[c.node as int].ports@[c.port as int].phys_state,
            final(self).failed == old(self).failed || final(self).failed == Some(
                IbError::InvalidData,
            ),
            old(self).failed is None && final(self).failed is None
                ==> (final(self).fabric.remote_of(local) matches Some(rk) && rk.node == node_idx
                && final(self).fabric.nodes@[rk.node as int].ports@[rk.port as int].number
                == remote_num),
    {
        let rp = match self.fabric.find_port_idx(node_idx, remote_num) {
            Some(j) => j,
            None => {
                self.failed = Some(IbError::InvalidData);
                return ;
            },
        };
        let remote = PortKey { node: node_idx, port: rp };
        let ghost w0 = *self;
        let r = self.fabric.link_ports(local, remote);
        proof {
            assert forall|s: int| 0 <= s < self.stack@.len() implies self.fabric.valid_key(
                #[trigger] self.stack@[s].0,
            ) by {
                assert(w0.fabric.valid_key(self.stack@[s].0));
            }
        }
        match r {
            Ok(()) => {},
            Err(_) => {
                self.failed = Some(IbError::InvalidData);
            },
        }
    }

    /// Seeds the worklist with every port of a first-hop node whose
    /// link-layer state is Active or Init, pairing each with the path to
    /// that node.
    fn seed_first_hop(&mut self, node_idx: usize, path: [u8; 64])
        requires
            old(self).wf(),
            old(self).pending is None,
            node_idx < old(self).fabric.nodes@.len(),
        ensures
            final(self).wf(),
            final(self).pending is None,
            final(self).fabric == old(self).fabric,
            final(self).done == old(self).done,
            final(self).failed == old(self).failed,
            final(self).root == old(self).root,
            final(self).issued == old(self).issued,
    {
        let n = self.fabric.nodes[node_idx].ports.len();
        let mut j: usize = 0;
        while j < n
            invariant
                self.wf(),
                j <= n,
                self.pending is None,
                node_idx < self.fabric.nodes@.len(),
                n == self.fabric.nodes@[node_idx as int].ports@.len(),
                self.fabric == old(self).fabric,
                self.done == old(self).done,
                self.failed == old(self).failed,
                self.root == old(self).root,
                self.issued == old(self).issued,
            decreases n - j,
        {
            let st = self.fabric.nodes[node_idx].ports[j].link_state;
            if st == IbPortLinkLayerState::Active || st == IbPortLinkLayerState::Init {
                self.stack.push((PortKey { node: node_idx, port: j }, path));
            }
            j += 1;
        }
    }

    /// Seeds the worklist with every Active port of a newly discovered
    /// switch except the arrival port, in reverse numeric order so lower
    /// numbers are popped first.
    fn seed_switch(&mut self, node_idx: usize, path: [u8; 64], arrival_num: u8)
        requires
            old(self).wf(),
            old(self).pending is None,
            node_idx < old(self).fabric.nodes@.len(),
        ensures
            final(self).wf(),
            final(self).pending is None,
            final(self).fabric == old(self).fabric,
            final(self).done == old(self).done,
            final(self).failed == old(self).failed,
            final(self).root == old(self).root,
            final(self).issued == old(self).issued,
    {
        let n = self.fabric.nodes[node_idx].ports.len();
        let mut j: usize = n;
        while j > 0
            invariant
                self.wf(),
                j <= n,
                self.pending is None,
                node_idx < self.fabric.nodes@.len(),
                n == self.fabric.nodes@[node_idx as int].ports@.len(),
                self.fabric == old(self).fabric,
                self.done == old(self).done,
                self.failed == old(self).failed,
                self.root == old(self).root,
                self.issued == old(self).issued,
            decreases j,
        {
            j -= 1;
            let st = self.fabric.nodes[node_idx].ports[j].link_state;
            let num = self.fabric.nodes[node_idx].ports[j].number;
            if st == IbPortLinkLayerState::Active && num != arrival_num {
                self.stack.push((PortKey { node: node_idx, port: j }, path));
            }
        }
    }

    /// Finishes a node discovery: the node is added (unless its GUID
    /// appeared meanwhile), the port probed through is linked to the
    /// arrival port, and the new node's ports seed the worklist as the
    /// target prescribes.
    fn complete_job(
        &mut self,
        path: [u8; 64],
        target: DiscoverTarget,
        ni: node_info,
        node_type: IbNodeType,
        desc: Vec<u8>,
        ports: Vec<Port>,
    )
        requires
            old(self).wf(),
            old(self).pending is None,
            target.wf(old(self).fabric),
            target is FirstHop ==> old(self).root is Some,
            forall|j: int| 0 <= j < ports@.len() ==> #[trigger] ports@[j].remote_port is None,
        ensures
            final(self).wf(),
            final(self).pending is None,
            final(self).fabric.nodes@.len() >= old(self).fabric.nodes@.len(),
            final(self).fabric.tid == old(self).fabric.tid,
            final(self).issued == old(self).issued,
            final(self).fabric.mads_sent == old(self).fabric.mads_sent,
            final(self).fabric.mad_timeouts == old(self).fabric.mad_timeouts,
            final(self).fabric.mad_errors == old(self).fabric.mad_errors,
            final(self).fabric.retries == old(self).fabric.retries,
            final(self).fabric.timeout == old(self).fabric.timeout,
            final(self).done == old(self).done,
            final(self).root == old(self).root,
            nodes_identity_stable(old(self).fabric, final(self).fabric),
            final(self).failed == old(self).failed || final(self).failed == Some(
                IbError::InvalidData,
            ),
            !old(self).fabric.node_map@.contains_key(ni.node_guid) && old(self).failed is None
                && final(self).failed is None ==> {
                let n = final(self).fabric.nodes@[old(self).fabric.nodes@.len() as int];
                &&& final(self).fabric.nodes@.len() == old(self).fabric.nodes@.len() + 1
                &&& n.node_guid == ni.node_guid
                &&& n.node_type == node_type
                &&& n.nports == ni.nports
                &&& n.local_port == ni.local_port
                &&& (n.description matches Some(d) && d@ == utf8_lossy_chars(desc@))
                &&& n.ports@.len() == ports@.len()
                &&& forall|j: int|
                    0 <= j < ports@.len() ==> (#[trigger] n.ports@[j]).number == ports@[j].number
                        && n.ports@[j].link_state == ports@[j].link_state && n.ports@[j].phys_state
                        == ports@[j].phys_state
                &&& final(self).fabric.node_map@.contains_key(ni.node_guid)
            },
    {
        let _ports_len: usize = ports.len();
        // Resolve the local end of the link being completed.
        let local: PortKey = match target {
            DiscoverTarget::FirstHop { root_port_num } => {
                let root_idx = match self.root {
                    Some(i) => i,
                    None => {
                        self.failed = Some(IbError::InvalidData);
                        return ;
                    },
                };
                match self.fabric.find_port_idx(root_idx, root_port_num) {
                    Some(j) => PortKey { node: root_idx, port: j },
                    None => {
                        self.failed = Some(IbError::InvalidData);
                        return ;
                    },
                }
            },
            DiscoverTarget::Remote { local } => local,
        };
        let arrival = ni.local_port;
        match self.fabric.get_node(ni.node_guid) {
            Some(existing) => {
                // Another path reached this GUID first: only link.
                self.link_by_numbers(local, existing, arrival);
            },
            None => {
                let node = Node {
                    lid: 0,
                    node_type,
                    node_guid: ni.node_guid,
                    description: Some(lossy_string(desc.as_slice())),
                    local_port: ni.local_port,
                    nports: ni.nports,
                    ports,
                };
                let ghost w0 = *self;
                let idx = self.fabric.add_node(node);
                proof {
                    assert forall|s: int| 0 <= s < self.stack@.len() implies self.fabric.valid_key(
                        #[trigger] self.stack@[s].0,
                    ) by {
                        assert(w0.fabric.valid_key(self.stack@[s].0));
                    }
                }
                let ghost w1 = *self;
                self.link_by_numbers(local, idx, arrival);
                proof {
                    assert forall|j: int|
                        0 <= j < ports@.len() implies (#[trigger] self.fabric.nodes@[idx as int].ports@[j]).number
                        == ports@[j].number && self.fabric.nodes@[idx as int].ports@[j].link_state
                        == ports@[j].link_state && self.fabric.nodes@[idx as int].ports@[j].phys_state
                        == ports@[j].phys_state by {
                        let c = PortKey { node: idx, port: j as usize };
                        assert(c.port as int == j);
                        assert(w1.fabric.nodes@[idx as int].ports@[j] == ports@[j]);
                        assert(w1.fabric.valid_key(c));
                        assert(self.fabric.nodes@[c.node as int].ports@[c.port as int].number
                            == w1.fabric.nodes@[c.node as int].ports@[c.port as int].number);
                        assert(self.fabric.nodes@[c.node as int].ports@[c.port as int].link_state
                            == w1.fabric.nodes@[c.node as int].ports@[c.port as int].link_state);
                        assert(self.fabric.nodes@[c.node as int].ports@[c.port as int].phys_state
                            == w1.fabric.nodes@[c.node as int].ports@[c.port as int].phys_state);
                    }
                }
                if self.failed.is_none() {
                    let is_switch = match node_type {
                        IbNodeType::Switch => true,
                        _ => false,
                    };
                    match target {
                        DiscoverTarget::FirstHop { .. } => {
                            self.seed_first_hop(idx, path);
                        },
                        DiscoverTarget::Remote { .. } => {
                            if is_switch {
                                self.seed_switch(idx, path, arrival);
                            }
                        },
                    }
                }
            },
        }
    }
}

impl Walker {
    /// Continues a PortInfo sweep past `next_port`: issues the next
    /// port's probe, or completes the node when the sweep is done.
    fn discover_pi_advance(
        &mut self,
        probe: Probe,
        target: DiscoverTarget,
        ni: node_info,
        node_type: IbNodeType,
        desc: Vec<u8>,
        ports: Vec<Port>,
        next_port: u8,
    )
        requires
            old(self).wf(),
            old(self).pending is None,
            target.wf(old(self).fabric),
            target is FirstHop ==> old(self).root is Some,
            forall|j: int| 0 <= j < ports@.len() ==> #[trigger] ports@[j].remote_port is None,
        ensures
            final(self).wf(),
            old(self).issued@.is_prefix_of(final(self).issued@),
            final(self).fabric.nodes@.len() >= old(self).fabric.nodes@.len(),
            handler_frame(*old(self), *final(self)),
            final(self).root == old(self).root,
    {
        let nxt: u16 = next_port as u16 + 1;
        if nxt > ni.nports as u16 {
            self.complete_job(probe.path, target, ni, node_type, desc, ports);
        } else {
            if self.fabric.tid == u64::MAX {
                self.failed = Some(IbError::Io);
                return ;
            }
            self.issue(
                probe.path,
                probe.hop_cnt,
                ProbeKind::PortInfoProbe(nxt as u8),
                WalkContext::DiscoverPI {
                    target,
                    ni,
                    node_type,
                    desc,
                    ports,
                    next_port: nxt as u8,
                },
            );
        }
    }

    /// Handles the root NodeInfo reply: the local node enters the graph
    /// with placeholder ports, and its port numbers queue up for
    /// first-hop probing.
    fn handle_root_reply(&mut self, attr: &[u8; 64])
        requires
            old(self).wf(),
            old(self).pending is None,
        ensures
            final(self).wf(),
            old(self).issued@.is_prefix_of(final(self).issued@),
            final(self).fabric.nodes@.len() >= old(self).fabric.nodes@.len(),
            handler_frame(*old(self), *final(self)),
            final(self).root is Some || final(self).failed is Some,
            forall|ni: node_info|
                #![trigger node_info_wire(ni, attr@)]
                node_info_wire(ni, attr@) && 1 <= ni.node_type <= 4
                    ==> (final(self).root matches Some(ri) && ri < final(self).fabric.nodes@.len()
                    && final(self).fabric.nodes@[ri as int].node_guid == ni.node_guid
                    && final(self).fabric.node_map@.contains_key(ni.node_guid)),
            forall|ni: node_info|
                #![trigger node_info_wire(ni, attr@)]
                node_info_wire(ni, attr@) && !(1 <= ni.node_type <= 4)
                    ==> final(self).failed is Some && final(self).root == old(self).root
                    && final(self).fabric.nodes == old(self).fabric.nodes,
    {
        let ni = match node_info::from_bytes(attr) {
            Some(n) => n,
            None => {
                return ;
            },
        };
        proof {
            assert(attr@.take(64) =~= attr@);
            assert forall|ni2: node_info| node_info_wire(ni2, attr@) implies ni2 == ni by {
                lemma_node_info_wire_deterministic(ni2, ni, attr@);
            }
        }
        let node_type = match IbNodeType::try_from(ni.node_type) {
            Ok(t) => t,
            Err(()) => {
                self.failed = Some(IbError::InvalidData);
                return ;
            },
        };
        let idx: usize = match self.fabric.get_node(ni.node_guid) {
            Some(i) => i,
            None => {
                let node = Node {
                    lid: 0,
                    node_type,
                    node_guid: ni.node_guid,
                    description: None,
                    local_port: ni.local_port,
                    nports: ni.nports,
                    ports: make_ports(ni.nports),
                };
                let ghost w0 = *self;
                let i = self.fabric.add_node(node);
                proof {
                    assert forall|s: int| 0 <= s < self.stack@.len() implies self.fabric.valid_key(
                        #[trigger] self.stack@[s].0,
                    ) by {
                        assert(w0.fabric.valid_key(self.stack@[s].0));
                    }
                }
                i
            },
        };
        self.root = Some(idx);
        let mut fh: Vec<u8> = Vec::new();
        let mut k: u8 = ni.nports;
        while k > 0
            invariant
                fh@.len() == ni.nports - k,
            decreases k,
        {
            fh.push(k);
            k -= 1;
        }
        self.first_hop_ports = fh;
    }

    /// Handles a first-hop NodeInfo reply: an already known neighbor is
    /// linked to the root port; a new GUID opens a full node discovery,
    /// starting with a NodeInfo refetch.
    fn handle_first_hop_reply(&mut self, probe: Probe, root_port_num: u8, attr: &[u8; 64])
        requires
            old(self).wf(),
            old(self).pending is None,
            old(self).root is Some,
        ensures
            final(self).wf(),
            old(self).issued@.is_prefix_of(final(self).issued@),
            final(self).fabric.nodes@.len() >= old(self).fabric.nodes@.len(),
            handler_frame(*old(self), *final(self)),
            final(self).root == old(self).root,
    {
        let ni = match node_info::from_bytes(attr) {
            Some(n) => n,
            None => {
                return ;
            },
        };
        let root_idx = match self.root {
            Some(i) => i,
            None => {
                return ;
            },
        };
        match self.fabric.get_node(ni.node_guid) {
            Some(i) => {
                let local = match self.fabric.find_port_idx(root_idx, root_port_num) {
                    Some(j) => PortKey { node: root_idx, port: j },
                    None => {
                        self.failed = Some(IbError::InvalidData);
                        return ;
                    },
                };
                self.link_by_numbers(local, i, ni.local_port);
            },
            None => {
                if self.fabric.tid == u64::MAX {
                    self.failed = Some(IbError::Io);
                    return ;
                }
                self.issue(
                    probe.path,
                    probe.hop_cnt,
                    ProbeKind::NodeInfoProbe,
                    WalkContext::DiscoverNI { target: DiscoverTarget::FirstHop { root_port_num } },
                );
            },
        }
    }

    /// Handles the NodeInfo refetch of a discovery: an unknown node type
    /// loses the probe; otherwise the NodeDescription fetch follows.
    fn handle_discover_ni_reply(&mut self, probe: Probe, target: DiscoverTarget, attr: &[u8; 64])
        requires
            old(self).wf(),
            old(self).pending is None,
            target.wf(old(self).fabric),
            target is FirstHop ==> old(self).root is Some,
        ensures
            final(self).wf(),
            old(self).issued@.is_prefix_of(final(self).issued@),
            final(self).fabric.nodes@.len() >= old(self).fabric.nodes@.len(),
            handler_frame(*old(self), *final(self)),
            final(self).root == old(self).root,
            final(self).fabric.nodes == old(self).fabric.nodes,
            final(self).fabric.node_map == old(self).fabric.node_map,
            old(self).failed is None ==> final(self).failed is None || final(self).failed == Some(
                IbError::Io,
            ),
    {
        let ni = match node_info::from_bytes(attr) {
            Some(n) => n,
            None => {
                return ;
            },
        };
        let node_type = match IbNodeType::try_from(ni.node_type) {
            Ok(t) => t,
            Err(()) => {
                return ;
            },
        };
        if self.fabric.tid == u64::MAX {
            self.failed = Some(IbError::Io);
            return ;
        }
        self.issue(
            probe.path,
            probe.hop_cnt,
            ProbeKind::NodeDescProbe,
            WalkContext::DiscoverND { target, ni, node_type },
        );
    }

    /// Handles a NodeDescription reply: the NUL-trimmed description is
    /// kept and the PortInfo sweep begins (or the node completes at once
    /// if it declares no ports).
    fn handle_discover_nd_reply(
        &mut self,
        probe: Probe,
        target: DiscoverTarget,
        ni: node_info,
        node_type: IbNodeType,
        attr: &[u8; 64],
    )
        requires
            old(self).wf(),
            old(self).pending is None,
            target.wf(old(self).fabric),
            target is FirstHop ==> old(self).root is Some,
        ensures
            final(self).wf(),
            old(self).issued@.is_prefix_of(final(self).issued@),
            final(self).fabric.nodes@.len() >= old(self).fabric.nodes@.len(),
            handler_frame(*old(self), *final(self)),
            final(self).root == old(self).root,
    {
        let desc = trim_node_desc(attr);
        if ni.nports == 0 {
            self.complete_job(probe.path, target, ni, node_type, desc, Vec::new());
        } else {
            if self.fabric.tid == u64::MAX {
                self.failed = Some(IbError::Io);
                return ;
            }
            self.issue(
                probe.path,
                probe.hop_cnt,
                ProbeKind::PortInfoProbe(1),
                WalkContext::DiscoverPI {
                    target,
                    ni,
                    node_type,
                    desc,
                    ports: Vec::new(),
                    next_port: 1,
                },
            );
        }
    }

    /// Handles a PortInfo reply: a port with undecodable states aborts
    /// the node's discovery; otherwise the port joins the node and the
    /// sweep continues.
    fn handle_discover_pi_reply(
        &mut self,
        probe: Probe,
        target: DiscoverTarget,
        ni: node_info,
        node_type: IbNodeType,
        desc: Vec<u8>,
        ports: Vec<Port>,
        next_port: u8,
        attr: &[u8; 64],
    )
        requires
            old(self).wf(),
            old(self).pending is None,
            target.wf(old(self).fabric),
            target is FirstHop ==> old(self).root is Some,
            forall|j: int| 0 <= j < ports@.len() ==> #[trigger] ports@[j].remote_port is None,
        ensures
            final(self).wf(),
            old(self).issued@.is_prefix_of(final(self).issued@),
            final(self).fabric.nodes@.len() >= old(self).fabric.nodes@.len(),
            handler_frame(*old(self), *final(self)),
            final(self).root == old(self).root,
    {
        let pi = match port_info::from_bytes(attr) {
            Some(p) => p,
            None => {
                return ;
            },
        };
        let link_state = match IbPortLinkLayerState::try_from(pi.port_state()) {
            Ok(s) => s,
            Err(()) => {
                return ;
            },
        };
        // the physical-state mapping is total: values outside 1..=7 decode
        // to Unknown rather than losing the port
        let phys_state = IbPortPhyState::from_u8(pi.port_physical_state());
        let mut ports = ports;
        ports.push(
            Port { number: next_port, link_state, phys_state, remote_port: None },
        );
        self.discover_pi_advance(probe, target, ni, node_type, desc, ports, next_port);
    }

    /// Handles a worklist NodeInfo reply: a known GUID is linked in
    /// place; a new GUID with a known node type opens a discovery that
    /// reuses this reply's NodeInfo.
    fn handle_remote_reply(&mut self, probe: Probe, local: PortKey, attr: &[u8; 64])
        requires
            old(self).wf(),
            old(self).pending is None,
            old(self).fabric.valid_key(local),
        ensures
            final(self).wf(),
            old(self).issued@.is_prefix_of(final(self).issued@),
            final(self).fabric.nodes@.len() >= old(self).fabric.nodes@.len(),
            handler_frame(*old(self), *final(self)),
            final(self).root == old(self).root,
            forall|ni: node_info|
                #![trigger node_info_wire(ni, attr@)]
                node_info_wire(ni, attr@) && !old(self).fabric.node_map@.contains_key(ni.node_guid)
                    && !(1 <= ni.node_type <= 4) ==> final(self).fabric.nodes == old(
                    self,
                ).fabric.nodes && final(self).fabric.node_map == old(self).fabric.node_map
                    && final(self).failed == old(self).failed && final(self).pending is None,
            forall|ni: node_info|
                #![trigger node_info_wire(ni, attr@)]
                node_info_wire(ni, attr@) && old(self).fabric.node_map@.contains_key(ni.node_guid)
                    && old(self).failed is None && final(self).failed is None
                    ==> (final(self).fabric.remote_of(local) matches Some(rk)
                    && rk.node == old(self).fabric.node_map@[ni.node_guid]
                    && final(self).fabric.nodes@[rk.node as int].ports@[rk.port as int].number
                    == ni.local_port),
    {
        let ni = match node_info::from_bytes(attr) {
            Some(n) => n,
            None => {
                return ;
            },
        };
        proof {
            assert(attr@.take(64) =~= attr@);
            assert forall|ni2: node_info| node_info_wire(ni2, attr@) implies ni2 == ni by {
                lemma_node_info_wire_deterministic(ni2, ni, attr@);
            }
        }
        match self.fabric.get_node(ni.node_guid) {
            Some(i) => {
                self.link_by_numbers(local, i, ni.local_port);
            },
            None => {
                let node_type = match IbNodeType::try_from(ni.node_type) {
                    Ok(t) => t,
                    Err(()) => {
                        return ;
                    },
                };
                if self.fabric.tid == u64::MAX {
                    self.failed = Some(IbError::Io);
                    return ;
                }
                self.issue(
                    probe.path,
                    probe.hop_cnt,
                    ProbeKind::NodeDescProbe,
                    WalkContext::DiscoverND {
                        target: DiscoverTarget::Remote { local },
                        ni,
                        node_type,
                    },
                );
            },
        }
    }

    /// Consumes the outcome of the pending probe and advances the walk:
    /// replies extend the graph and may issue a follow-up probe, a
    /// timeout counts its attempts and abandons only what the probe was
    /// for, and a fatal transport error aborts the walk.
    pub fn deliver(&mut self, outcome: ProbeOutcome)
        requires
            old(self).wf(),
            old(self).pending is Some,
        ensures
            final(self).wf(),
            final(self).pending is None || (final(self).pending matches Some((p, c)) && !(c
                is RootNI) && final(self).issued@.len() > old(self).issued@.len()),
            old(self).issued@.is_prefix_of(final(self).issued@),
            final(self).fabric.nodes@.len() >= old(self).fabric.nodes@.len(),
            nodes_identity_stable(old(self).fabric, final(self).fabric),
            final(self).done == old(self).done,
            final(self).fabric.retries == old(self).fabric.retries,
            final(self).fabric.timeout == old(self).fabric.timeout,
            final(self).failed == old(self).failed || final(self).failed == Some(IbError::Io)
                || final(self).failed == Some(IbError::InvalidData),
            // counters: a request whose first write failed was never sent;
            // every other outcome counts one logical request
            outcome is Fatal ==> final(self).fabric.mads_sent == old(self).fabric.mads_sent
                && final(self).fabric.mad_timeouts == old(self).fabric.mad_timeouts
                && final(self).fabric.mad_errors == spec_sat_add(old(self).fabric.mad_errors, 1)
                && final(self).fabric.nodes == old(self).fabric.nodes
                && final(self).fabric.node_map == old(self).fabric.node_map
                && final(self).pending is None && final(self).failed is Some,
            !(outcome is Fatal) ==> final(self).fabric.mads_sent == spec_sat_add(
                old(self).fabric.mads_sent,
                1,
            ) && final(self).fabric.mad_errors == old(self).fabric.mad_errors,
            outcome is TimedOut ==> final(self).fabric.mad_timeouts == spec_sat_add(
                old(self).fabric.mad_timeouts,
                (old(self).fabric.retries + 1) as u64,
            ),
            outcome is Reply ==> final(self).fabric.mad_timeouts == old(self).fabric.mad_timeouts,
            // a timeout abandons only what the probe was for: except a
            // PortInfo sweep (which may still complete its node) and the
            // root probe (whose loss is fatal), the graph and error state
            // are untouched
            (outcome is TimedOut && !(old(self).pending->Some_0.1 is RootNI)
                && !(old(self).pending->Some_0.1 is DiscoverPI))
                ==> final(self).fabric.nodes == old(self).fabric.nodes
                && final(self).fabric.node_map == old(self).fabric.node_map
                && final(self).failed == old(self).failed && final(self).pending is None,
            (outcome is TimedOut && old(self).pending->Some_0.1 is RootNI)
                ==> final(self).failed is Some
                && final(self).fabric.nodes == old(self).fabric.nodes,
            // the root node: set by the root probe's reply, untouched by
            // every other delivery
            !(old(self).pending->Some_0.1 is RootNI) ==> final(self).root == old(self).root,
            !(outcome is Reply) ==> final(self).root == old(self).root,
            forall|attr: [u8; 64], ni: node_info|
                #![trigger node_info_wire(ni, attr@)]
                outcome == (ProbeOutcome::Reply(attr)) && old(self).pending->Some_0.1 == (
                WalkContext::RootNI) && node_info_wire(ni, attr@) && 1 <= ni.node_type <= 4
                    ==> (final(self).root matches Some(ri) && ri < final(self).fabric.nodes@.len()
                    && final(self).fabric.nodes@[ri as int].node_guid == ni.node_guid
                    && final(self).fabric.node_map@.contains_key(ni.node_guid)),
            forall|attr: [u8; 64], ni: node_info|
                #![trigger node_info_wire(ni, attr@)]
                outcome == (ProbeOutcome::Reply(attr)) && old(self).pending->Some_0.1 == (
                WalkContext::RootNI) && node_info_wire(ni, attr@) && !(1 <= ni.node_type <= 4)
                    ==> final(self).root == old(self).root && final(self).failed is Some,
            // the NodeInfo refetch that opens a discovery never changes
            // the graph; it only asks the next question or drops the probe
            (outcome is Reply && old(self).pending->Some_0.1 is DiscoverNI)
                ==> final(self).fabric.nodes == old(self).fabric.nodes
                && final(self).fabric.node_map == old(self).fabric.node_map,
            // a worklist reply whose GUID is already indexed only links
            forall|local: PortKey, attr: [u8; 64], ni: node_info|
                #![trigger node_info_wire(ni, attr@), final(self).fabric.remote_of(local)]
                old(self).pending->Some_0.1 == (WalkContext::RemoteNI { local })
                    && outcome == (ProbeOutcome::Reply(attr)) && node_info_wire(ni, attr@)
                    && old(self).fabric.node_map@.contains_key(ni.node_guid)
                    && old(self).failed is None && final(self).failed is None
                    ==> (final(self).fabric.remote_of(local) matches Some(rk)
                    && rk.node == old(self).fabric.node_map@[ni.node_guid]
                    && final(self).fabric.nodes@[rk.node as int].ports@[rk.port as int].number
                    == ni.local_port),
    {
        let pending = self.pending.take();
        proof {
            Self::lemma_wf_same_graph_walker(*old(self), *self);
        }
        let (probe, ctx) = match pending {
            Some(x) => x,
            None => {
                proof {
                    assert(false);
                }
                return ;
            },
        };
        match outcome {
            ProbeOutcome::Fatal => {
                self.bump_errors();
                self.failed = Some(IbError::Io);
            },
            ProbeOutcome::TimedOut => {
                self.bump_sent();
                self.bump_timeouts();
                match ctx {
                    WalkContext::RootNI => {
                        self.failed = Some(IbError::InvalidData);
                    },
                    WalkContext::FirstHopNI { .. } => {},
                    WalkContext::DiscoverNI { .. } => {},
                    WalkContext::DiscoverND { .. } => {},
                    WalkContext::DiscoverPI { target, ni, node_type, desc, ports, next_port } => {
                        self.discover_pi_advance(
                            probe,
                            target,
                            ni,
                            node_type,
                            desc,
                            ports,
                            next_port,
                        );
                    },
                    WalkContext::RemoteNI { .. } => {},
                }
            },
            ProbeOutcome::Reply(attr) => {
                self.bump_sent();
                match ctx {
                    WalkContext::RootNI => {
                        self.handle_root_reply(&attr);
                    },
                    WalkContext::FirstHopNI { root_port_num } => {
                        self.handle_first_hop_reply(probe, root_port_num, &attr);
                    },
                    WalkContext::DiscoverNI { target } => {
                        self.handle_discover_ni_reply(probe, target, &attr);
                    },
                    WalkContext::DiscoverND { target, ni, node_type } => {
                        self.handle_discover_nd_reply(probe, target, ni, node_type, &attr);
                    },
                    WalkContext::DiscoverPI { target, ni, node_type, desc, ports, next_port } => {
                        self.handle_discover_pi_reply(
                            probe,
                            target,
                            ni,
                            node_type,
                            desc,
                            ports,
                            next_port,
                            &attr,
                        );
                    },
                    WalkContext::RemoteNI { local } => {
                        self.handle_remote_reply(probe, local, &attr);
                    },
                }
            },
        }
    }
}

impl Walker {
    /// Runs the whole walk against a simulated fabric: every probe the
    /// walker issues is encoded, answered by the simulator, and delivered
    /// back, so the complete discovery is one verified computation.  A
    /// request the simulator cannot answer counts as a timeout.  The
    /// walker must be fresh (no walk begun); the configuration is kept,
    /// and on success the walk terminated with every node classified and
    /// the root node carrying the GUID of the simulator's first-hop node.
    /// `TimedOut` is returned only after `max_steps` probes were spent.
    pub fn seq_discover_sim(&mut self, sim_fabric: &sim::Fabric, max_steps: usize) -> (r: Result<
        (),
        IbError,
    >)
        requires
            old(self).wf(),
            !old(self).done,
            old(self).failed is None,
            old(self).root is None,
            old(self).pending is None,
        ensures
            final(self).wf(),
            final(self).fabric.links_symmetric(),
            final(self).fabric.guids_unique(),
            final(self).fabric.retries == old(self).fabric.retries,
            final(self).fabric.timeout == old(self).fabric.timeout,
            r is Ok ==> final(self).done && final(self).failed is None && final(self).classified(),
            r is Ok ==> (sim_fabric.first_hop matches Some(fh) && sim_fabric.valid_key(fh)
                && final(self).root is Some && {
                let ri = final(self).root->Some_0 as int;
                &&& ri < final(self).fabric.nodes@.len()
                &&& final(self).fabric.nodes@[ri].node_guid
                    == sim_fabric.nodes@[fh.node as int].node_info.node_guid
                &&& final(self).fabric.node_map@.contains_key(
                    sim_fabric.nodes@[fh.node as int].node_info.node_guid,
                )
            }),
            (r matches Err(e) && e == IbError::TimedOut) ==> final(self).issued@.len() + 1
                >= old(self).issued@.len() + max_steps,
    {
        let ghost fh_guid: u64 = match sim_fabric.first_hop {
            Some(fh) => if sim_fabric.valid_key(fh) {
                sim_fabric.nodes@[fh.node as int].node_info.node_guid
            } else {
                0
            },
            None => 0,
        };
        let mut steps: usize = 0;
        loop
            invariant
                self.wf(),
                steps <= max_steps,
                !self.done,
                self.fabric.retries == old(self).fabric.retries,
                self.fabric.timeout == old(self).fabric.timeout,
                self.failed is None || self.failed == Some(IbError::Io) || self.failed == Some(
                    IbError::InvalidData,
                ),
                old(self).issued@.len() + steps <= self.issued@.len() + (if self.pending is None {
                    1int
                } else {
                    0
                }),
                (sim_fabric.first_hop is Some && sim_fabric.valid_key(
                    sim_fabric.first_hop->Some_0,
                )) ==> fh_guid == sim_fabric.nodes@[sim_fabric.first_hop->Some_0.node as int].node_info.node_guid,
                self.root is Some ==> (sim_fabric.first_hop matches Some(fh)
                    && sim_fabric.valid_key(fh) && {
                    let ri = self.root->Some_0 as int;
                    &&& ri < self.fabric.nodes@.len()
                    &&& self.fabric.nodes@[ri].node_guid == fh_guid
                    &&& fh_guid == sim_fabric.nodes@[fh.node as int].node_info.node_guid
                    &&& self.fabric.node_map@.contains_key(fh_guid)
                }),
                (self.pending is Some && self.pending->Some_0.1 is RootNI) ==> (self.root is None
                    && self.pending->Some_0.0.kind == ProbeKind::NodeInfoProbe && (forall|j: int|
                    0 <= j < 64 ==> self.pending->Some_0.0.path@[j] == 0)),
            decreases max_steps - steps,
        {
            if steps == max_steps {
                return Err(IbError::TimedOut);
            }
            steps += 1;
            let probe_opt: Option<Probe> = match &self.pending {
                Some((p, _)) => Some(*p),
                None => None,
            };
            let probe = match probe_opt {
                Some(p) => p,
                None => match self.poll() {
                    WalkStep::Finished => {
                        return match self.failed {
                            Some(e) => Err(e),
                            None => Ok(()),
                        };
                    },
                    WalkStep::Send(p) => p,
                },
            };
            let ghost ctx0 = self.pending->Some_0.1;
            let attr_id = match probe.kind {
                ProbeKind::NodeInfoProbe => SmiAttrID::NodeInfo,
                ProbeKind::NodeDescProbe => SmiAttrID::NodeDesc,
                ProbeKind::PortInfoProbe(_) => SmiAttrID::PortInfo,
            };
            let attr_mod: u32 = match probe.kind {
                ProbeKind::PortInfoProbe(p) => p as u32,
                _ => 0,
            };
            let umad = Fabric::build_dr_smp_umad(
                probe.path,
                attr_id,
                attr_mod,
                probe.hop_cnt,
                probe.tid,
                self.fabric.timeout,
                self.fabric.retries,
            );
            let bytes = umad.to_bytes();
            let resp_result = sim_fabric.respond(bytes.as_slice());
            let mut attr_buf: [u8; 64] = [0u8; 64];
            let mut got_reply: bool = false;
            match &resp_result {
                Ok(Some(resp)) => {
                    if resp.len() == 320 {
                        attr_buf = read_array::<64>(resp.as_slice(), 128);
                        got_reply = true;
                    }
                },
                Ok(None) => {},
                Err(_) => {},
            }
            proof {
                if got_reply && ctx0 is RootNI {
                    let rs = resp_result->Ok_0->Some_0@;
                    assert(sim::spec_response_ok(*sim_fabric, bytes@, rs) && rs.subrange(128, 192)
                        == attr_buf@);
                    Self::lemma_root_reply_from_sim(*sim_fabric, probe, umad, bytes@, attr_buf);
                }
            }
            let outcome = if got_reply {
                ProbeOutcome::Reply(attr_buf)
            } else {
                ProbeOutcome::TimedOut
            };
            let ghost w_before = *self;
            self.deliver(outcome);
            proof {
                if self.root is Some && w_before.root is Some {
                    let ri = w_before.root->Some_0;
                    assert(self.fabric.nodes@[ri as int].node_guid == fh_guid);
                    let i = w_before.fabric.node_map@[fh_guid];
                    assert(w_before.fabric.nodes@[i as int].node_guid == fh_guid);
                    assert(self.fabric.nodes@[i as int].node_guid == fh_guid);
                    assert(self.fabric.node_map@.contains_key(fh_guid));
                }
                if self.root is Some && w_before.root is None {
                    assert(ctx0 is RootNI);
                    assert(outcome is Reply);
                    assert(got_reply);
                    let fh = sim_fabric.first_hop->Some_0;
                    let node = sim_fabric.nodes@[fh.node as int];
                    let arrival = choose|a: u8|
                        #[trigger] node_info_wire(
                            sim::spec_ni_response(node.node_info, a),
                            attr_buf@,
                        );
                    let ni = sim::spec_ni_response(node.node_info, arrival);
                    assert(node_info_wire(ni, attr_buf@));
                    assert(ni.node_guid == node.node_info.node_guid);
                    if 1 <= ni.node_type <= 4 {
                        assert(self.root matches Some(ri2) && ri2 < self.fabric.nodes@.len()
                            && self.fabric.nodes@[ri2 as int].node_guid == ni.node_guid
                            && self.fabric.node_map@.contains_key(ni.node_guid));
                    } else {
                        assert(self.root == w_before.root);
                        assert(false);
                    }
                }
            }
        }
    }

    /// A reply to the root probe, produced by the simulator, carries the
    /// NodeInfo of the simulator's first-hop node (with the arrival port
    /// substituted): the zero path resolves to the registered first hop.
    proof fn lemma_root_reply_from_sim(
        sim_fabric: sim::Fabric,
        probe: Probe,
        umad: ib_user_mad,
        req: Seq<u8>,
        attr: [u8; 64],
    )
        requires
            probe.kind == ProbeKind::NodeInfoProbe,
            forall|j: int| 0 <= j < 64 ==> probe.path@[j] == 0,
            req.len() == 320,
            crate::mad::types::ib_user_mad_wire(umad, req),
            umad.data@[1] == 0x81,
            crate::mad::wire::spec_be16(umad.data@, 16) == 0x11,
            umad.data@.subrange(128, 192) == probe.path@,
            exists|resp: Seq<u8>| #[trigger] sim::spec_response_ok(sim_fabric, req, resp) && resp.subrange(
                128,
                192,
            ) == attr@,
        ensures
            sim_fabric.first_hop matches Some(fh) && sim_fabric.valid_key(fh)
                && (exists|arrival: u8| #[trigger] node_info_wire(
                sim::spec_ni_response(
                    sim_fabric.nodes@[fh.node as int].node_info,
                    arrival,
                ),
                attr@,
            )),
    {
        let resp = choose|resp: Seq<u8>|
            #[trigger] sim::spec_response_ok(sim_fabric, req, resp) && resp.subrange(128, 192)
                == attr@;
        assert(req.subrange(64, 320) == umad.data@);
        assert forall|j: int| 0 <= j < 64 implies req.subrange(192, 256)[j] == 0 by {
            assert(req.subrange(192, 256)[j] == req[192 + j]);
            assert(req[192 + j] == req.subrange(64, 320)[128 + j]);
            assert(req.subrange(64, 320)[128 + j] == umad.data@[128 + j]);
            assert(umad.data@[128 + j] == umad.data@.subrange(128, 192)[j]);
            assert(umad.data@.subrange(128, 192)[j] == probe.path@[j]);
        }
        assert(spec_be16(req, 80) == spec_be16(umad.data@, 16)) by {
            assert(req[80] == req.subrange(64, 320)[16]);
            assert(req[81] == req.subrange(64, 320)[17]);
        }
        let walk = sim::spec_walk(sim_fabric, req.subrange(192, 256));
        assert(walk is Some);
        let fh = sim_fabric.first_hop->Some_0;
        assert(req.subrange(192, 256)[0] == 0);
        assert(req.subrange(192, 256)[1] == 0);
        assert(sim::spec_walk_from(sim_fabric, req.subrange(192, 256), 1, fh) == Some(fh));
        assert(walk == Some(fh));
        let node = sim_fabric.nodes@[fh.node as int];
        let arrival = node.ports@[fh.port as int].num;
        assert(node_info_wire(sim::spec_ni_response(node.node_info, arrival), attr@));
    }
}

} // verus!
