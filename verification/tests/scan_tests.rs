use portscan::PortResult;
use portscan::scan::{collate_results, ScanCollector, ScanRequest};

fn result(port: u32, tcp_open: bool, udp_open: bool) -> PortResult {
    PortResult { port, tcp_open, udp_open }
}

#[test]
fn port_list_covers_range() {
    let req = ScanRequest::new(String::from("127.0.0.1"), 1, 1024, 40_000);
    let ports = req.port_list();
    assert_eq!(ports.len(), 1024);
    assert_eq!(ports[0], 1);
    assert_eq!(ports[1023], 1024);
    for (i, p) in ports.iter().enumerate() {
        assert_eq!(*p, 1 + i as u32);
    }
}

#[test]
fn port_list_single_port() {
    let req = ScanRequest::new(String::from("127.0.0.1"), 8080, 8080, 40_000);
    assert_eq!(req.port_list(), vec![8080]);
}

#[test]
fn port_list_empty_when_start_exceeds_end() {
    let req = ScanRequest::new(String::from("127.0.0.1"), 10, 5, 40_000);
    assert!(req.port_list().is_empty());
}

#[test]
fn port_list_default_range() {
    let req = ScanRequest::new(String::from("10.0.0.1"), 1, 65535, 40_000);
    let ports = req.port_list();
    assert_eq!(ports.len(), 65535);
    assert_eq!(ports[0], 1);
    assert_eq!(ports[65534], 65535);
}

#[test]
fn collector_records_each_port_once() {
    let mut c = ScanCollector::new(1, 3);
    assert_eq!(c.progress(), 0);
    assert!(!c.is_complete());

    // Completion order is concurrency-driven: record out of port order.
    c.record(result(2, false, true));
    assert!(c.has_port(2));
    assert!(!c.has_port(1));
    assert!(!c.is_complete());

    c.record(result(3, true, false));
    c.record(result(1, false, false));
    assert_eq!(c.progress(), 3);
    assert!(c.is_complete());
}

#[test]
fn collector_empty_range_is_complete_at_once() {
    let c = ScanCollector::new(9, 5);
    assert!(c.is_complete());
}

#[test]
fn collate_accepts_a_full_cover() {
    let results = vec![result(3, true, false), result(1, false, true), result(2, false, false)];
    let rep = collate_results(1, 3, results.clone(), 77).expect("cover is complete");
    assert_eq!(rep.start, 1);
    assert_eq!(rep.end, 3);
    assert_eq!(rep.elapsed_micros, 77);
    assert_eq!(rep.results, results);
}

#[test]
fn collate_rejects_a_missing_port() {
    let results = vec![result(1, true, true), result(3, true, true)];
    assert!(collate_results(1, 3, results, 77).is_none());
}

#[test]
fn collate_rejects_a_duplicated_port() {
    let results = vec![result(1, true, true), result(2, true, true), result(1, false, false)];
    assert!(collate_results(1, 3, results, 77).is_none());
}

#[test]
fn collate_rejects_an_out_of_range_port() {
    let results = vec![result(1, true, true), result(9, true, true)];
    assert!(collate_results(1, 2, results, 77).is_none());
}

#[test]
fn collate_rejects_a_zero_elapsed_time() {
    let results = vec![result(5, false, false)];
    assert!(collate_results(5, 5, results, 0).is_none());
}

#[test]
fn finish_stamps_elapsed_time() {
    let mut c = ScanCollector::new(5, 5);
    c.record(result(5, false, false));
    let rep = c.finish(1234);
    assert_eq!(rep.elapsed_micros, 1234);
    assert_eq!(rep.start, 5);
    assert_eq!(rep.end, 5);
    assert_eq!(rep.results.len(), 1);
    assert_eq!(rep.results[0], result(5, false, false));
}
