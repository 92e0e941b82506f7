//! The performance-management datagram payload.

use vstd::prelude::*;

verus! {

/// Performance-management MAD payload: the management key followed by the
/// class payload.
#[derive(Clone, Copy, Debug)]
#[allow(non_camel_case_types)]
pub struct perf_mad {
    pub pm_key: u64,
    pub reserved: [u8; 32],
    pub data: [u8; 192],
}

} // verus!
