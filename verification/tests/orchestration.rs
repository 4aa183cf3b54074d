use printer_scan::orchestrator::{Action, Orchestrator, Phase, PrinterInfo};
use printer_scan::probe::{ProbeKind, Reply};
use printer_scan::snmp::SnmpValue;

/// A host that answers each probe in a fixed way.
struct SimulatedHost {
    port_open: bool,
    sgd: Reply,
    pjl: Reply,
    zpl: Reply,
    snmp: Reply,
    banner: Reply,
}

fn silent_host() -> SimulatedHost {
    SimulatedHost {
        port_open: true,
        sgd: Reply::Nothing,
        pjl: Reply::Nothing,
        zpl: Reply::Nothing,
        snmp: Reply::Nothing,
        banner: Reply::Nothing,
    }
}

fn data(s: &str) -> Reply {
    Reply::Data(s.as_bytes().to_vec())
}

/// Runs an examination against the host and returns its result with the
/// probes that were asked for, in order, and the number of port checks.
fn examine(ip: u32, host: &SimulatedHost) -> (Option<PrinterInfo>, Vec<ProbeKind>, usize) {
    let (mut orchestrator, mut action) = Orchestrator::new(ip);
    let mut probes = Vec::new();
    let mut port_checks = 0;
    for _ in 0..20 {
        let reply = match action {
            Action::CheckPort => {
                port_checks += 1;
                Reply::Port(host.port_open)
            }
            Action::Probe(kind) => {
                probes.push(kind);
                match kind {
                    ProbeKind::ZebraSgd => host.sgd.clone(),
                    ProbeKind::Pjl => host.pjl.clone(),
                    ProbeKind::ZebraZpl => host.zpl.clone(),
                    ProbeKind::Snmp => host.snmp.clone(),
                    ProbeKind::RawBanner => host.banner.clone(),
                }
            }
            Action::Finish(result) => {
                assert_eq!(orchestrator.phase(), Phase::Finished);
                return (result, probes, port_checks);
            }
        };
        action = orchestrator.advance(&reply);
    }
    panic!("the examination did not end");
}

fn info(ip: u32, model: &str, source: &str) -> Option<PrinterInfo> {
    Some(PrinterInfo { ip, model: model.to_string(), source: source.to_string() })
}

#[test]
fn examination_begins_with_the_port_check() {
    let (orchestrator, action) = Orchestrator::new(0x0a000001);
    assert_eq!(action, Action::CheckPort);
    assert_eq!(orchestrator.ip(), 0x0a000001);
    assert_eq!(orchestrator.phase(), Phase::Reachability);
}

#[test]
fn closed_port_yields_no_record_and_no_probe() {
    let mut host = silent_host();
    host.port_open = false;
    host.sgd = data("GX430t");
    host.pjl = data("ID=GX430t");
    host.banner = data("Model X1");
    let (result, probes, port_checks) = examine(7, &host);
    assert_eq!(result, None);
    assert_eq!(probes.len(), 0);
    assert_eq!(port_checks, 1);
}

#[test]
fn anything_but_an_open_port_ends_the_examination() {
    for reply in [Reply::Port(false), Reply::Nothing, data("GX430t"), Reply::Snmp(vec![SnmpValue::Other])] {
        let (mut orchestrator, _) = Orchestrator::new(1);
        assert_eq!(orchestrator.advance(&reply), Action::Finish(None));
        assert_eq!(orchestrator.phase(), Phase::Finished);
        assert_eq!(orchestrator.advance(&Reply::Port(true)), Action::Finish(None));
        assert_eq!(orchestrator.advance(&data("GX430t")), Action::Finish(None));
    }
}

#[test]
fn sgd_wins_over_pjl() {
    let mut host = silent_host();
    host.sgd = data("\"GX430t\"");
    host.pjl = data("ID=\"GX430t\"");
    host.zpl = data("GX430t,V1");
    host.banner = data("GX430t");
    let (result, probes, _) = examine(0xc0a80105, &host);
    assert_eq!(result, info(0xc0a80105, "Zebra GX430t", "SGD (Zebra)"));
    assert_eq!(probes, vec![ProbeKind::ZebraSgd]);
}

#[test]
fn pjl_is_second() {
    let mut host = silent_host();
    host.sgd = data("\u{1b}garbage\u{0}");
    host.pjl = data("@PJL INFO ID\r\nID=\"HP LaserJet 4250\"\r\n");
    host.zpl = data("a,bb,ccccc,d");
    let (result, probes, _) = examine(9, &host);
    assert_eq!(result, info(9, "@PJL INFO ID", "PJL"));
    assert_eq!(probes, vec![ProbeKind::ZebraSgd, ProbeKind::Pjl]);
}

#[test]
fn zpl_is_third() {
    let mut host = silent_host();
    host.zpl = data("a,bb,ccccc,d");
    host.snmp = Reply::Snmp(vec![SnmpValue::OctetString(b"something".to_vec())]);
    let (result, probes, _) = examine(9, &host);
    assert_eq!(result, info(9, "Zebra ZPL (ccccc)", "ZPL"));
    assert_eq!(probes, vec![ProbeKind::ZebraSgd, ProbeKind::Pjl, ProbeKind::ZebraZpl]);
}

#[test]
fn snmp_is_fourth() {
    let mut host = silent_host();
    host.sgd = data("\r\n");
    host.pjl = data("?");
    host.zpl = data("no comma");
    host.snmp = Reply::Snmp(vec![SnmpValue::OctetString(b"Lexmark MS510dn version NH.HS.N211 \n".to_vec())]);
    host.banner = data("Model X1");
    let (result, probes, _) = examine(77, &host);
    assert_eq!(result, info(77, "Lexmark MS510dn version NH.HS.N211", "SNMP"));
    assert_eq!(
        probes,
        vec![ProbeKind::ZebraSgd, ProbeKind::Pjl, ProbeKind::ZebraZpl, ProbeKind::Snmp]
    );
}

#[test]
fn banner_is_last_and_marked_raw() {
    let mut host = silent_host();
    host.snmp = Reply::Snmp(vec![SnmpValue::Other]);
    host.banner = data("Model X1\r\n");
    let (result, probes, _) = examine(3, &host);
    assert_eq!(result, info(3, "Raw: Model X1", "Raw Banner"));
    assert_eq!(probes, printer_scan::probe::probe_order());
}

#[test]
fn silent_host_is_dropped_after_every_probe() {
    let (result, probes, port_checks) = examine(3, &silent_host());
    assert_eq!(result, None);
    assert_eq!(probes, printer_scan::probe::probe_order());
    assert_eq!(port_checks, 1);
}

#[test]
fn rejected_banner_leaves_no_record() {
    let mut host = silent_host();
    host.banner = data("123");
    let (result, probes, _) = examine(3, &host);
    assert_eq!(result, None);
    assert_eq!(probes.len(), 5);
}

#[test]
fn conclude_takes_the_reading_of_the_current_probe() {
    let (mut orchestrator, _) = Orchestrator::new(5);
    assert_eq!(orchestrator.advance(&Reply::Port(true)), Action::Probe(ProbeKind::ZebraSgd));
    assert_eq!(orchestrator.phase(), Phase::Probing(ProbeKind::ZebraSgd));
    assert_eq!(orchestrator.conclude(None), Action::Probe(ProbeKind::Pjl));
    assert_eq!(orchestrator.conclude(None), Action::Probe(ProbeKind::ZebraZpl));
    assert_eq!(orchestrator.phase(), Phase::Probing(ProbeKind::ZebraZpl));
    assert_eq!(
        orchestrator.conclude(Some("Zebra ZPL (x)".to_string())),
        Action::Finish(info(5, "Zebra ZPL (x)", "ZPL"))
    );
    assert_eq!(orchestrator.phase(), Phase::Finished);
    assert_eq!(orchestrator.conclude(Some("late".to_string())), Action::Finish(None));
}

#[test]
fn conclude_outside_a_probe_ends_without_a_record() {
    let (mut orchestrator, _) = Orchestrator::new(5);
    assert_eq!(orchestrator.conclude(Some("early".to_string())), Action::Finish(None));
    assert_eq!(orchestrator.phase(), Phase::Finished);
}

#[test]
fn after_a_record_nothing_more_is_asked() {
    let (mut orchestrator, _) = Orchestrator::new(5);
    orchestrator.advance(&Reply::Port(true));
    assert_eq!(
        orchestrator.advance(&data("GX430t")),
        Action::Finish(info(5, "Zebra GX430t", "SGD (Zebra)"))
    );
    for reply in [data("ID=x"), Reply::Port(true), Reply::Nothing, data("GX430t")] {
        assert_eq!(orchestrator.advance(&reply), Action::Finish(None));
    }
}
