//! The result aggregator: pure filters that partition a finished report into
//! the set of ports open over TCP and the set open over UDP.

use vstd::prelude::*;
use crate::PortResult;
use crate::scan::ScanReport;

verus! {

/// Some entry reports port `p` as open over TCP.
pub open spec fn tcp_open_in(results: Seq<PortResult>, p: int) -> bool {
    exists|i: int|
        0 <= i < results.len() && #[trigger] results[i].port == p && results[i].tcp_open
}

/// Some entry reports port `p` as open over UDP.
pub open spec fn udp_open_in(results: Seq<PortResult>, p: int) -> bool {
    exists|i: int|
        0 <= i < results.len() && #[trigger] results[i].port == p && results[i].udp_open
}

/// The two reportable open-port sets, derived read-only from one report. A
/// port may appear in neither, either, or both.
pub struct OpenPortSets {
    pub tcp: Vec<u32>,
    pub udp: Vec<u32>,
}

/// The ports whose TCP probe succeeded, each listed once.
pub fn tcp_open_ports(rep: &ScanReport) -> (open: Vec<u32>)
    requires
        rep.wf(),
    ensures
        forall|p: u32| #[trigger] open@.contains(p) <==> tcp_open_in(rep.results@, p as int),
        open@.no_duplicates(),
{
    let results = &rep.results;
    let mut open: Vec<u32> = Vec::new();
    let mut k: usize = 0;
    while k < results.len()
        invariant
            rep.wf(),
            results == &rep.results,
            k <= results@.len(),
            forall|p: u32| #[trigger] open@.contains(p) ==> exists|i: int|
                0 <= i < k && #[trigger] results@[i].port == p && results@[i].tcp_open,
            forall|i: int|
                0 <= i < k && #[trigger] results@[i].tcp_open ==> open@.contains(
                    results@[i].port,
                ),
            open@.no_duplicates(),
        decreases results@.len() - k,
    {
        let r = results[k];
        if r.tcp_open {
            proof {
                broadcast use vstd::seq_lib::lemma_seq_contains_after_push;

                assert(!open@.contains(r.port)) by {
                    if open@.contains(r.port) {
                        let i = choose|i: int|
                            0 <= i < k && results@[i].port == r.port && results@[i].tcp_open;
                        assert(results@[i].port != results@[k as int].port);
                    }
                }
            }
            open.push(r.port);
            proof {
                broadcast use vstd::seq_lib::lemma_seq_contains_after_push;

                assert(results@[k as int].port == r.port && results@[k as int].tcp_open);
            }
        }
        k = k + 1;
    }
    open
}

/// The ports whose UDP bind check succeeded, each listed once.
pub fn udp_open_ports(rep: &ScanReport) -> (open: Vec<u32>)
    requires
        rep.wf(),
    ensures
        forall|p: u32| #[trigger] open@.contains(p) <==> udp_open_in(rep.results@, p as int),
        open@.no_duplicates(),
{
    let results = &rep.results;
    let mut open: Vec<u32> = Vec::new();
    let mut k: usize = 0;
    while k < results.len()
        invariant
            rep.wf(),
            results == &rep.results,
            k <= results@.len(),
            forall|p: u32| #[trigger] open@.contains(p) ==> exists|i: int|
                0 <= i < k && #[trigger] results@[i].port == p && results@[i].udp_open,
            forall|i: int|
                0 <= i < k && #[trigger] results@[i].udp_open ==> open@.contains(
                    results@[i].port,
                ),
            open@.no_duplicates(),
        decreases results@.len() - k,
    {
        let r = results[k];
        if r.udp_open {
            proof {
                broadcast use vstd::seq_lib::lemma_seq_contains_after_push;

                assert(!open@.contains(r.port)) by {
                    if open@.contains(r.port) {
                        let i = choose|i: int|
                            0 <= i < k && results@[i].port == r.port && results@[i].udp_open;
                        assert(results@[i].port != results@[k as int].port);
                    }
                }
            }
            open.push(r.port);
            proof {
                broadcast use vstd::seq_lib::lemma_seq_contains_after_push;

                assert(results@[k as int].port == r.port && results@[k as int].udp_open);
            }
        }
        k = k + 1;
    }
    open
}

/// Partitions a finished report into its two open-port sets: the TCP set
/// holds exactly the ports some entry reports TCP-open, the UDP set exactly
/// those some entry reports UDP-open.
pub fn open_port_sets(rep: &ScanReport) -> (sets: OpenPortSets)
    requires
        rep.wf(),
    ensures
        forall|p: u32| #[trigger] sets.tcp@.contains(p) <==> tcp_open_in(rep.results@, p as int),
        forall|p: u32| #[trigger] sets.udp@.contains(p) <==> udp_open_in(rep.results@, p as int),
        sets.tcp@.no_duplicates(),
        sets.udp@.no_duplicates(),
{
    OpenPortSets { tcp: tcp_open_ports(rep), udp: udp_open_ports(rep) }
}

} // verus!
