use portscan::PortResult;
use portscan::aggregate::{open_port_sets, tcp_open_ports, udp_open_ports};
use portscan::scan::ScanCollector;

fn result(port: u32, tcp_open: bool, udp_open: bool) -> PortResult {
    PortResult { port, tcp_open, udp_open }
}

#[test]
fn listener_outside_range_never_appears() {
    // A listener on port 8080 is not covered by the range [1, 10]: every
    // probe in range comes back closed, and 8080 cannot be in the TCP set.
    let mut c = ScanCollector::new(1, 10);
    for p in 1..=10 {
        c.record(result(p, false, false));
    }
    let rep = c.finish(1);
    let sets = open_port_sets(&rep);
    assert!(sets.tcp.is_empty());
    assert!(!sets.tcp.contains(&8080));
}

#[test]
fn accepting_listener_is_reported_open() {
    // Range [8080, 8080] with the one probe succeeding over TCP.
    let mut c = ScanCollector::new(8080, 8080);
    c.record(result(8080, true, true));
    let rep = c.finish(1);
    let sets = open_port_sets(&rep);
    assert_eq!(sets.tcp, vec![8080]);
    assert_eq!(sets.udp, vec![8080]);
}

#[test]
fn nothing_listening_yields_empty_sets() {
    // Range [8081, 8081] with the one probe failing both checks.
    let mut c = ScanCollector::new(8081, 8081);
    c.record(result(8081, false, false));
    let rep = c.finish(1);
    let sets = open_port_sets(&rep);
    assert!(sets.tcp.is_empty());
    assert!(sets.udp.is_empty());
}

#[test]
fn sets_partition_mixed_results() {
    // A port may land in neither, either, or both sets; recording order is
    // the (arbitrary) completion order and does not change membership.
    let mut c = ScanCollector::new(1, 4);
    c.record(result(4, false, false));
    c.record(result(2, false, true));
    c.record(result(3, true, true));
    c.record(result(1, true, false));
    let rep = c.finish(1);

    let mut tcp = tcp_open_ports(&rep);
    tcp.sort();
    assert_eq!(tcp, vec![1, 3]);

    let mut udp = udp_open_ports(&rep);
    udp.sort();
    assert_eq!(udp, vec![2, 3]);
}

#[test]
fn no_port_is_listed_twice() {
    let mut c = ScanCollector::new(1, 3);
    c.record(result(1, true, true));
    c.record(result(2, true, true));
    c.record(result(3, true, true));
    let rep = c.finish(1);
    let tcp = tcp_open_ports(&rep);
    assert_eq!(tcp.len(), 3);
    for p in 1..=3 {
        assert_eq!(tcp.iter().filter(|&&q| q == p).count(), 1);
    }
}
