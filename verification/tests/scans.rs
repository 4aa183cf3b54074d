use printer_scan::orchestrator::PrinterInfo;
use printer_scan::network::ScanError;
use printer_scan::scan::{Next, Scan, ScanConfig};

fn config(network: &str, concurrency: usize) -> ScanConfig {
    ScanConfig { network: network.to_string(), timeout_ms: 2000, concurrency }
}

fn printer(ip: u32) -> PrinterInfo {
    PrinterInfo { ip, model: format!("model {}", ip), source: "SNMP".to_string() }
}

#[test]
fn default_configuration() {
    let config = ScanConfig::default();
    assert_eq!(config.network, "192.168.199.0/24");
    assert_eq!(config.timeout_ms, 2000);
    assert_eq!(config.concurrency, 50);
}

#[test]
fn malformed_network_stops_the_scan_before_it_begins() {
    for text in ["", "192.168.1.0", "10.0.0.0/40", "fe80::/10", "not a network"] {
        let refused = ScanError::InvalidNetwork("invalid IP address syntax".to_string());
        assert_eq!(Scan::begin(&config(text, 50)).err(), Some(refused));
    }
}

#[test]
fn scan_walks_the_hosts_within_the_limit() {
    let mut scan = Scan::begin(&config("10.0.0.0/29", 2)).unwrap();
    assert_eq!(scan.next(), Next::Examine(0x0a000001));
    assert_eq!(scan.next(), Next::Examine(0x0a000002));
    assert_eq!(scan.next(), Next::Wait);
    assert!(scan.record(Some(printer(0x0a000002))));
    assert_eq!(scan.next(), Next::Examine(0x0a000003));
    assert_eq!(scan.next(), Next::Wait);
    assert!(scan.record(None));
    assert!(scan.record(Some(printer(0x0a000001))));
    assert_eq!(scan.next(), Next::Examine(0x0a000004));
    assert_eq!(scan.next(), Next::Examine(0x0a000005));
    assert_eq!(scan.next(), Next::Wait);
    assert!(scan.record(None));
    assert_eq!(scan.next(), Next::Examine(0x0a000006));
    assert_eq!(scan.next(), Next::Wait);
    assert!(scan.record(Some(printer(0x0a000006))));
    assert_eq!(scan.next(), Next::Wait);
    assert!(scan.record(Some(printer(0x0a000004))));
    assert_eq!(scan.next(), Next::Done);
    assert!(!scan.record(Some(printer(0x0a000009))));
    assert_eq!(
        scan.findings(),
        vec![printer(0x0a000001), printer(0x0a000002), printer(0x0a000004), printer(0x0a000006)]
    );
}

#[test]
fn scan_of_a_slash_24_examines_254_hosts_and_never_exceeds_the_limit() {
    for limit in [1usize, 7, 50, 254, 1000] {
        let mut scan = Scan::begin(&config("192.168.1.0/24", limit)).unwrap();
        let mut under_way: Vec<u32> = Vec::new();
        let mut examined = Vec::new();
        loop {
            match scan.next() {
                Next::Examine(ip) => {
                    under_way.push(ip);
                    examined.push(ip);
                    assert!(under_way.len() <= limit);
                }
                Next::Wait => {
                    let ip = under_way.remove(under_way.len() / 2);
                    let outcome = if ip % 5 == 0 { Some(printer(ip)) } else { None };
                    assert!(scan.record(outcome));
                }
                Next::Done => break,
                Next::Stalled => panic!("stalled"),
            }
        }
        assert!(under_way.is_empty());
        assert_eq!(examined, (0xc0a80101u32..=0xc0a801fe).collect::<Vec<u32>>());
        let expected: Vec<PrinterInfo> =
            (0xc0a80101u32..=0xc0a801fe).filter(|ip| ip % 5 == 0).map(printer).collect();
        assert_eq!(scan.findings(), expected);
    }
}

#[test]
fn scan_without_concurrency_stalls() {
    let mut scan = Scan::begin(&config("10.0.0.0/30", 0)).unwrap();
    assert_eq!(scan.next(), Next::Stalled);
    assert!(!scan.record(None));
    assert_eq!(scan.findings(), vec![]);
}

#[test]
fn scan_of_a_single_host() {
    let mut scan = Scan::begin(&config("10.9.8.7/32", 50)).unwrap();
    assert_eq!(scan.next(), Next::Examine(0x0a090807));
    assert_eq!(scan.next(), Next::Wait);
    assert!(scan.record(None));
    assert_eq!(scan.next(), Next::Done);
    assert_eq!(scan.findings(), vec![]);
}
