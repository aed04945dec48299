use portscan::addr::{decimal_string, socket_addr_string};

#[test]
fn decimal_renders_small_numbers() {
    assert_eq!(decimal_string(0), "0");
    assert_eq!(decimal_string(7), "7");
}

#[test]
fn decimal_renders_multi_digit_numbers() {
    assert_eq!(decimal_string(8080), "8080");
    assert_eq!(decimal_string(65535), "65535");
    assert_eq!(decimal_string(100), "100");
    assert_eq!(decimal_string(u32::MAX), "4294967295");
}

#[test]
fn socket_addr_joins_host_and_port() {
    assert_eq!(socket_addr_string("127.0.0.1", 8080), "127.0.0.1:8080");
    assert_eq!(socket_addr_string("10.1.2.3", 1), "10.1.2.3:1");
    assert_eq!(socket_addr_string("localhost", 65535), "localhost:65535");
}
