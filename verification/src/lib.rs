//! A single-host port-range scanner core: expanding a port range into scan
//! units, collecting one probe result per port, and partitioning the results
//! into the sets of ports open over TCP and over UDP.

pub mod addr;
pub mod aggregate;
pub mod scan;

use vstd::prelude::*;

verus! {

/// The outcome of probing one port: whether an outbound TCP connection
/// succeeded within the timeout, and whether a local UDP endpoint could be
/// bound to the target address.
#[derive(Clone, Copy, PartialEq, Eq, Structural, Debug)]
pub struct PortResult {
    pub port: u32,
    pub tcp_open: bool,
    pub udp_open: bool,
}

} // verus!
