//! The scan core: the validated request, the per-port results collected as
//! concurrent probes complete, and the frozen report of a finished sweep.

use vstd::prelude::*;
use vstd::seq_lib::*;
use vstd::set_lib::*;
use crate::PortResult;

verus! {

/// One scan's immutable inputs: the target host, the inclusive port range
/// `[start, end]`, and the per-probe timeout in microseconds.
///
/// The timeout is always positive. The range is not otherwise constrained:
/// an empty range (`start > end`) simply yields no scan units, and a port
/// above the valid 16-bit range is only rejected later, when a probe turns
/// it into a socket address.
pub struct ScanRequest {
    pub ipaddr: String,
    pub start: u32,
    pub end: u32,
    pub timeout_micros: u64,
}

impl ScanRequest {
    /// The number of ports the scan covers.
    pub open spec fn num_ports(self) -> int {
        if self.start <= self.end {
            self.end - self.start + 1
        } else {
            0
        }
    }

    pub fn new(ipaddr: String, start: u32, end: u32, timeout_micros: u64) -> (r: ScanRequest)
        requires
            timeout_micros > 0,
        ensures
            r.ipaddr == ipaddr,
            r.start == start,
            r.end == end,
            r.timeout_micros == timeout_micros,
    {
        ScanRequest { ipaddr, start, end, timeout_micros }
    }

    /// Expands the range into the individual ports to scan, in ascending
    /// order: one scan unit per port, none skipped, none repeated.
    pub fn port_list(&self) -> (ports: Vec<u32>)
        requires
            self.num_ports() <= usize::MAX,
        ensures
            ports@.len() == self.num_ports(),
            forall|i: int| 0 <= i < ports@.len() ==> ports@[i] == self.start + i,
    {
        let mut ports: Vec<u32> = Vec::new();
        if self.start > self.end {
            return ports;
        }
        let end: u64 = self.end as u64;
        let mut p: u64 = self.start as u64;
        while p <= end
            invariant
                self.start <= self.end,
                end == self.end as u64,
                self.start as u64 <= p <= end + 1,
                ports@.len() == p - self.start,
                forall|i: int| 0 <= i < ports@.len() ==> ports@[i] == self.start + i,
            decreases end + 1 - p,
        {
            ports.push(p as u32);
            p = p + 1;
        }
        ports
    }
}

/// No two entries speak of the same port.
pub open spec fn ports_unique(results: Seq<PortResult>) -> bool {
    forall|i: int, j: int|
        0 <= i < j < results.len() ==> #[trigger] results[i].port != #[trigger] results[j].port
}

/// Every entry's port lies in the inclusive range `[start, end]`.
pub open spec fn ports_in_range(results: Seq<PortResult>, start: int, end: int) -> bool {
    forall|i: int| 0 <= i < results.len() ==> start <= #[trigger] results[i].port <= end
}

/// Some entry reports on port `p`.
pub open spec fn has_result_for(results: Seq<PortResult>, p: int) -> bool {
    exists|i: int| 0 <= i < results.len() && #[trigger] results[i].port == p
}

/// With distinct in-range ports, the collection covers the whole range
/// exactly when it holds one entry per port of the range: a counting
/// argument over the set of recorded ports.
proof fn lemma_full_range(results: Seq<PortResult>, start: int, end: int)
    requires
        start <= end,
        ports_unique(results),
        ports_in_range(results, start, end),
    ensures
        results.len() == end - start + 1 <==> (forall|p: int|
            start <= p <= end ==> has_result_for(results, p)),
{
    broadcast use seq_to_set_is_finite;

    let ports = results.map_values(|r: PortResult| r.port as int);
    assert(ports.no_duplicates()) by {
        assert forall|i: int, j: int|
            0 <= i < ports.len() && 0 <= j < ports.len() && i != j implies ports[i]
            != ports[j] by {
            if i < j {
                assert(results[i].port != results[j].port);
            } else {
                assert(results[j].port != results[i].port);
            }
        }
    }
    let range = set_int_range(start, end + 1);
    lemma_int_range(start, end + 1);
    ports.unique_seq_to_set();
    assert(ports.to_set() <= range) by {
        assert forall|p: int| ports.to_set().contains(p) implies range.contains(p) by {
            let i = choose|i: int| 0 <= i < ports.len() && ports[i] == p;
            assert(start <= results[i].port <= end);
        }
    }
    if results.len() == end - start + 1 {
        lemma_subset_equality(ports.to_set(), range);
        assert forall|p: int| start <= p <= end implies has_result_for(results, p) by {
            assert(ports.to_set().contains(p));
            let i = choose|i: int| 0 <= i < ports.len() && ports[i] == p;
            assert(results[i].port == p);
        }
    } else {
        if forall|p: int| start <= p <= end ==> has_result_for(results, p) {
            assert forall|p: int| range.contains(p) implies ports.to_set().contains(p) by {
                assert(has_result_for(results, p));
                let i = choose|i: int|
                    0 <= i < results.len() && results[i].port == p;
                assert(ports[i] == p);
            }
            assert(ports.to_set() =~= range);
            assert(results.len() == end - start + 1);
        }
    }
}

/// The per-port results gathered so far by one scan run, keyed by port
/// number: probes complete in a concurrency-driven order, and each port is
/// recorded at most once.
pub struct ScanCollector {
    pub start: u32,
    pub end: u32,
    pub results: Vec<PortResult>,
}

impl ScanCollector {
    /// Invariant: every recorded port is in range, and no port is recorded
    /// twice.
    pub open spec fn wf(self) -> bool {
        &&& ports_unique(self.results@)
        &&& ports_in_range(self.results@, self.start as int, self.end as int)
    }

    /// Every port of the range has been recorded.
    pub open spec fn complete(self) -> bool {
        forall|p: int| self.start <= p <= self.end ==> has_result_for(self.results@, p)
    }

    pub fn new(start: u32, end: u32) -> (c: ScanCollector)
        ensures
            c.wf(),
            c.start == start,
            c.end == end,
            c.results@ == Seq::<PortResult>::empty(),
    {
        let c = ScanCollector { start, end, results: Vec::new() };
        proof {
            assert(c.results@ =~= Seq::<PortResult>::empty());
        }
        c
    }

    /// Whether a result for `port` has already been recorded.
    pub fn has_port(&self, port: u32) -> (b: bool)
        ensures
            b == has_result_for(self.results@, port as int),
    {
        let mut i: usize = 0;
        while i < self.results.len()
            invariant
                i <= self.results@.len(),
                forall|j: int| 0 <= j < i ==> #[trigger] self.results@[j].port != port,
            decreases self.results@.len() - i,
        {
            if self.results[i].port == port {
                return true;
            }
            i = i + 1;
        }
        false
    }

    /// Records the outcome of one completed probe. The caller hands in each
    /// port of the range exactly once; completion order is arbitrary.
    pub fn record(&mut self, r: PortResult)
        requires
            old(self).wf(),
            old(self).start <= r.port <= old(self).end,
            !has_result_for(old(self).results@, r.port as int),
        ensures
            final(self).wf(),
            final(self).start == old(self).start,
            final(self).end == old(self).end,
            final(self).results@ == old(self).results@.push(r),
    {
        self.results.push(r);
        proof {
            let results = self.results@;
            assert forall|i: int, j: int|
                0 <= i < j < results.len() implies #[trigger] results[i].port
                != #[trigger] results[j].port by {
                if j < results.len() - 1 {
                    assert(old(self).results@[i].port != old(self).results@[j].port);
                } else {
                    assert(!has_result_for(old(self).results@, r.port as int));
                    assert(old(self).results@[i].port != r.port);
                }
            }
        }
    }

    /// How many probes have completed: one unit of progress per port.
    pub fn progress(&self) -> (n: usize)
        ensures
            n == self.results@.len(),
    {
        self.results.len()
    }

    /// Whether every port of the range has a recorded result. Decided by
    /// counting: with distinct in-range ports, the count reaches the size of
    /// the range exactly when no port is missing.
    pub fn is_complete(&self) -> (b: bool)
        requires
            self.wf(),
        ensures
            b == self.complete(),
    {
        if self.start > self.end {
            return true;
        }
        let want: u64 = self.end as u64 - self.start as u64 + 1;
        let n: u64 = self.results.len() as u64;
        proof {
            lemma_full_range(self.results@, self.start as int, self.end as int);
        }
        n == want
    }

    /// Freezes the collected results into the final report, stamping the
    /// total elapsed wall-clock time of the sweep.
    pub fn finish(self, elapsed_micros: u64) -> (rep: ScanReport)
        requires
            self.wf(),
            self.complete(),
            elapsed_micros > 0,
        ensures
            rep.wf(),
            rep.start == self.start,
            rep.end == self.end,
            rep.results@ == self.results@,
            rep.elapsed_micros == elapsed_micros,
    {
        ScanReport {
            start: self.start,
            end: self.end,
            results: self.results,
            elapsed_micros,
        }
    }
}

/// The complete, immutable outcome of one scan run: exactly one result per
/// port of the range, plus the total elapsed wall-clock time.
pub struct ScanReport {
    pub start: u32,
    pub end: u32,
    pub results: Vec<PortResult>,
    pub elapsed_micros: u64,
}

impl ScanReport {
    /// Invariant of a finished report: distinct in-range ports, full
    /// coverage of the range, and a strictly positive elapsed time.
    pub open spec fn wf(self) -> bool {
        &&& ports_unique(self.results@)
        &&& ports_in_range(self.results@, self.start as int, self.end as int)
        &&& forall|p: int|
            self.start <= p <= self.end ==> has_result_for(self.results@, p)
        &&& self.elapsed_micros > 0
    }
}

/// Collates the completed probe outcomes of one sweep into the final
/// report. The report is produced exactly when the outcomes are a
/// duplicate-free cover of the whole range by in-range ports and the
/// elapsed time is positive; any other collection is rejected whole — there
/// is no partial-result recovery.
pub fn collate_results(start: u32, end: u32, results: Vec<PortResult>, elapsed_micros: u64) -> (rep:
    Option<ScanReport>)
    ensures
        rep is Some <==> {
            &&& elapsed_micros > 0
            &&& ports_unique(results@)
            &&& ports_in_range(results@, start as int, end as int)
            &&& forall|p: int| start <= p <= end ==> has_result_for(results@, p)
        },
        rep matches Some(r) ==> {
            &&& r.wf()
            &&& r.start == start
            &&& r.end == end
            &&& r.results@ == results@
            &&& r.elapsed_micros == elapsed_micros
        },
{
    if elapsed_micros == 0 {
        return None;
    }
    let mut c = ScanCollector::new(start, end);
    let mut k: usize = 0;
    while k < results.len()
        invariant
            c.wf(),
            c.start == start,
            c.end == end,
            k <= results@.len(),
            c.results@ == results@.subrange(0, k as int),
        decreases results@.len() - k,
    {
        let r = results[k];
        if r.port < start || r.port > end {
            proof {
                assert(!ports_in_range(results@, start as int, end as int)) by {
                    if ports_in_range(results@, start as int, end as int) {
                        assert(start <= results@[k as int].port <= end);
                    }
                }
            }
            return None;
        }
        if c.has_port(r.port) {
            proof {
                let i = choose|i: int|
                    0 <= i < c.results@.len() && #[trigger] c.results@[i].port == r.port;
                assert(results@[i].port == results@[k as int].port);
                assert(!ports_unique(results@)) by {
                    if ports_unique(results@) {
                        assert(results@[i].port != results@[k as int].port);
                    }
                }
            }
            return None;
        }
        c.record(r);
        proof {
            assert(c.results@ =~= results@.subrange(0, k as int + 1));
        }
        k = k + 1;
    }
    proof {
        assert(results@.subrange(0, results@.len() as int) =~= results@);
    }
    if !c.is_complete() {
        return None;
    }
    Some(c.finish(elapsed_micros))
}

/// Completeness without duplication: a well-formed report holds exactly one
/// result for every port of the requested range — one entry reports on the
/// port, and any two entries reporting on it are the same entry.
pub proof fn lemma_report_exactly_one(rep: ScanReport, p: int)
    requires
        rep.wf(),
        rep.start <= p <= rep.end,
    ensures
        exists|i: int| 0 <= i < rep.results@.len() && #[trigger] rep.results@[i].port == p,
        forall|i: int, j: int|
            (0 <= i < rep.results@.len() && 0 <= j < rep.results@.len()
                && rep.results@[i].port == p && rep.results@[j].port == p) ==> i == j,
{
    assert(has_result_for(rep.results@, p));
    assert forall|i: int, j: int|
        (0 <= i < rep.results@.len() && 0 <= j < rep.results@.len()
            && rep.results@[i].port == p && rep.results@[j].port == p) implies i == j by {
        if i < j {
            assert(rep.results@[i].port != rep.results@[j].port);
        } else if j < i {
            assert(rep.results@[j].port != rep.results@[i].port);
        }
    }
}

} // verus!
