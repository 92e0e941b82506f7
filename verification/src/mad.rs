//! Wire codec for management datagrams and their attribute records.

use vstd::prelude::*;

pub mod dr_smp;
pub mod helpers;
pub mod node;
pub mod perf;
pub mod types;
pub mod wire;

pub use dr_smp::dr_smp_mad;
pub use node::node_info;
pub use port::port_info;
pub use types::{ib_mad, ib_mad_addr, ib_user_mad};
pub mod port;

verus! {

/// Management class of performance-management datagrams.
pub const IB_MGMT_CLASS_PERFORMANCE: u8 = 0x4;

/// Management class of LID-routed subnet-management packets.
pub const IB_MGMT_CLASS_LID_ROUTED_SMP: u8 = 0x1;

/// Management class of directed-route subnet-management packets.
pub const IB_MGMT_CLASS_DIRECT_ROUTED_SMP: u8 = 0x81;

/// Default queue key for management traffic.
pub const IB_DEFAULT_QKEY: u32 = 0x80010000;

} // verus!
