use printer_scan::network::{Network, ScanError};

fn ip(a: u8, b: u8, c: u8, d: u8) -> u32 {
    u32::from_be_bytes([a, b, c, d])
}

#[test]
fn slash_24_has_254_hosts_ascending() {
    let net = Network::parse("192.168.1.0/24").unwrap();
    assert_eq!(net.addr(), ip(192, 168, 1, 0));
    assert_eq!(net.prefix_len(), 24);
    assert_eq!(net.host_count(), 254);
    let hosts = net.hosts();
    assert_eq!(hosts.len(), 254);
    assert_eq!(hosts[0], ip(192, 168, 1, 1));
    assert_eq!(hosts[253], ip(192, 168, 1, 254));
    for i in 0..hosts.len() {
        assert_eq!(hosts[i], ip(192, 168, 1, 1) + i as u32);
        assert_eq!(net.host(i), Some(hosts[i]));
    }
    assert!(!hosts.contains(&ip(192, 168, 1, 0)));
    assert!(!hosts.contains(&ip(192, 168, 1, 255)));
    assert_eq!(net.host(254), None);
    assert_eq!(net.host(usize::MAX), None);
}

#[test]
fn hosts_do_not_depend_on_the_host_part_of_the_descriptor() {
    let net = Network::parse("192.168.199.77/24").unwrap();
    assert_eq!(net.addr(), ip(192, 168, 199, 77));
    assert_eq!(net.hosts(), Network::parse("192.168.199.0/24").unwrap().hosts());
    assert_eq!(net.host(0), Some(ip(192, 168, 199, 1)));
    assert_eq!(net.host(76), Some(ip(192, 168, 199, 77)));
}

#[test]
fn small_networks() {
    let net = Network::parse("10.0.0.0/30").unwrap();
    assert_eq!(net.hosts(), vec![ip(10, 0, 0, 1), ip(10, 0, 0, 2)]);
    let net = Network::parse("10.0.0.4/31").unwrap();
    assert_eq!(net.hosts(), vec![ip(10, 0, 0, 4), ip(10, 0, 0, 5)]);
    let net = Network::parse("10.0.0.5/31").unwrap();
    assert_eq!(net.hosts(), vec![ip(10, 0, 0, 4), ip(10, 0, 0, 5)]);
    let net = Network::parse("10.0.0.9/32").unwrap();
    assert_eq!(net.hosts(), vec![ip(10, 0, 0, 9)]);
    assert_eq!(net.host_count(), 1);
    let net = Network::parse("10.1.2.3/29").unwrap();
    assert_eq!(net.host_count(), 6);
    assert_eq!(net.host(0), Some(ip(10, 1, 2, 1)));
    assert_eq!(net.host(5), Some(ip(10, 1, 2, 6)));
    assert_eq!(net.host(6), None);
}

#[test]
fn large_networks_are_counted_without_being_listed() {
    let net = Network::parse("10.0.0.0/8").unwrap();
    assert_eq!(net.host_count(), (1 << 24) - 2);
    assert_eq!(net.host(0), Some(ip(10, 0, 0, 1)));
    assert_eq!(net.host((1 << 24) - 3), Some(ip(10, 255, 255, 254)));
    assert_eq!(net.host((1 << 24) - 2), None);
    let all = Network::parse("0.0.0.0/0").unwrap();
    assert_eq!(all.host_count() as u64, (1u64 << 32) - 2);
    assert_eq!(all.host(0), Some(1));
    assert_eq!(all.host(all.host_count() - 1), Some(u32::MAX - 1));
    let top = Network::parse("255.255.255.255/0").unwrap();
    assert_eq!(top.host(0), Some(1));
}

#[test]
fn descriptors_that_are_no_ipv4_network_are_refused() {
    for text in [
        "",
        "192.168.1.0",
        "192.168.1.0/",
        "192.168.1.0/33",
        "192.168.1.0/024",
        "192.168.1/24",
        "192.168.1.256/24",
        "192.168.1.0/24 ",
        " 192.168.1.0/24",
        "192.168.1.0/-1",
        "fe80::/64",
        "::1/128",
        "printer/24",
        "192.168.1.0/24/24",
        "1921.68.1.0/24",
    ] {
        let refused = ScanError::InvalidNetwork("invalid IP address syntax".to_string());
        assert_eq!(Network::parse(text), Err(refused), "{:?}", text);
    }
}

#[test]
fn descriptors_are_read_as_ipnet_reads_them() {
    let net = Network::parse("10.20.30.40/8").unwrap();
    assert_eq!((net.addr(), net.prefix_len()), (ip(10, 20, 30, 40), 8));
    let net = Network::parse("0.0.0.0/0").unwrap();
    assert_eq!((net.addr(), net.prefix_len()), (0, 0));
    let net = Network::parse("255.255.255.255/32").unwrap();
    assert_eq!((net.addr(), net.prefix_len()), (u32::MAX, 32));
    let net = Network::parse("010.001.000.009/08").unwrap();
    assert_eq!((net.addr(), net.prefix_len()), (ip(10, 1, 0, 9), 8));
}

#[test]
fn new_takes_prefix_lengths_up_to_32() {
    assert_eq!(Network::new(ip(10, 0, 0, 0), 33), None);
    assert_eq!(Network::new(ip(10, 0, 0, 0), 255), None);
    let net = Network::new(ip(172, 16, 5, 9), 22).unwrap();
    assert_eq!(net.addr(), ip(172, 16, 5, 9));
    assert_eq!(net.prefix_len(), 22);
    assert_eq!(net.host_count(), 1022);
    assert_eq!(net.host(0), Some(ip(172, 16, 4, 1)));
    assert_eq!(net.host(1021), Some(ip(172, 16, 7, 254)));
    assert_eq!(Network::new(5, 32).unwrap().hosts(), vec![5]);
    assert_eq!(Network::new(5, 0).unwrap().host(4), Some(5));
}

#[test]
fn error_message_is_what_the_parser_said() {
    let error = Network::parse("192.168.1.0/33").unwrap_err();
    assert_eq!(error.message(), "invalid IP address syntax");
    assert_eq!(ScanError::InvalidNetwork("no".to_string()).message(), "no");
}
