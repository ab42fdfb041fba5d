use rustscanner::fingerprint::fingerprint;
use rustscanner::scan::{port_list, socket_address, PortResult, ResultSet, ScanConfig};

#[test]
fn inverted_range_is_rejected() {
    let r = ScanConfig::new(String::from("127.0.0.1"), 1024, 1, 500);
    let e = r.err().expect("an inverted range must be rejected");
    assert_eq!(e.message(), "start port must be less than or equal to end port");
}

#[test]
fn valid_range_is_accepted() {
    let c = ScanConfig::new(String::from("example.com"), 1, 1024, 500).unwrap();
    assert_eq!(c.target, "example.com");
    assert_eq!(c.start_port, 1);
    assert_eq!(c.end_port, 1024);
    assert_eq!(c.timeout_ms, 500);
}

#[test]
fn single_port_range_is_accepted() {
    assert!(ScanConfig::new(String::from("h"), 80, 80, 1).is_ok());
}

#[test]
fn port_list_covers_range_ascending() {
    assert_eq!(port_list(1, 5), vec![1, 2, 3, 4, 5]);
    assert_eq!(port_list(80, 80), vec![80]);
}

#[test]
fn port_list_reaches_highest_port() {
    let v = port_list(65530, 65535);
    assert_eq!(v, vec![65530, 65531, 65532, 65533, 65534, 65535]);
}

#[test]
fn results_are_sorted_by_port() {
    let mut rs = ResultSet::new();
    rs.record(PortResult { port: 443, banner: None });
    rs.record(PortResult { port: 22, banner: Some(String::from("SSH-2.0")) });
    rs.record(PortResult { port: 80, banner: Some(String::from("HTTP/1.1 200 OK")) });
    assert_eq!(rs.len(), 3);
    let sorted = rs.into_sorted();
    let ports: Vec<u16> = sorted.iter().map(|r| r.port).collect();
    assert_eq!(ports, vec![22, 80, 443]);
    assert_eq!(sorted[0].banner, Some(String::from("SSH-2.0")));
    assert_eq!(sorted[2].banner, None);
}

#[test]
fn empty_scan_yields_no_results() {
    let rs = ResultSet::new();
    assert_eq!(rs.len(), 0);
    let sorted = rs.into_sorted();
    assert!(sorted.is_empty());
}

#[test]
fn single_listener_scenario() {
    let mut rs = ResultSet::new();
    rs.record(PortResult { port: 22, banner: Some(String::from("SSH-2.0-OpenSSH_8.9")) });
    let sorted = rs.into_sorted();
    assert_eq!(sorted.len(), 1);
    assert_eq!(sorted[0].port, 22);
    assert_eq!(sorted[0].banner, Some(String::from("SSH-2.0-OpenSSH_8.9")));
    assert_eq!(fingerprint(sorted[0].port, &sorted[0].banner), "SSH");
}

#[test]
fn socket_address_joins_host_and_port() {
    assert_eq!(socket_address("127.0.0.1", 8080), "127.0.0.1:8080");
    assert_eq!(socket_address("localhost", 0), "localhost:0");
    assert_eq!(socket_address("10.0.0.1", 65535), "10.0.0.1:65535");
}
