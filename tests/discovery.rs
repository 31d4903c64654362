use internet_quality_monitor::address::{
    first_ipv4_target, ipv4_is_private, is_public_ipv4_address, reference_address, IpAddress,
    LookupError,
};
use internet_quality_monitor::discovery::{discover, DiscoveryOutcome, HopSearch, TraceReply};

const MS: u64 = 1_000_000;

fn reply(addr: IpAddress, rtt_ms: u64, last: bool) -> TraceReply {
    TraceReply { addr, rtt_nanos: rtt_ms * MS, last }
}

fn v4(a: u8, b: u8, c: u8, d: u8) -> IpAddress {
    IpAddress::V4(a, b, c, d)
}

#[test]
fn unreachable_reference_finds_public_hop_on_third_ttl() {
    let private = v4(10, 0, 0, 1);
    let public = v4(8, 8, 8, 8);
    let trace = vec![
        vec![],
        vec![reply(private, 1, false), reply(private, 2, false)],
        vec![reply(public, 9, false)],
    ];
    let run = discover(reference_address(), 2, 3, &trace);
    assert_eq!(run.outcome, DiscoveryOutcome::Found(public));
    assert_eq!(run.reports.len(), 3);
    let ttls: Vec<u8> = run.reports.iter().map(|r| r.ttl).collect();
    assert_eq!(ttls, vec![1, 2, 3]);
    assert_eq!(run.reports[0].rows.len(), 0);
    assert_eq!(run.reports[0].missing, 2);
    assert_eq!(run.reports[1].rows.len(), 1);
    assert_eq!(run.reports[1].rows[0].addr, private);
    assert_eq!(run.reports[1].rows[0].rtts, vec![MS, 2 * MS]);
    assert_eq!(run.reports[1].missing, 0);
    assert_eq!(run.reports[2].rows[0].addr, public);
    assert_eq!(run.reports[2].missing, 1);
}

#[test]
fn public_hop_stops_the_search_mid_batch() {
    let public = v4(93, 184, 216, 34);
    let trace = vec![
        vec![reply(v4(192, 168, 1, 1), 1, false)],
        vec![reply(public, 5, false), reply(v4(100, 1, 1, 1), 6, false)],
        vec![reply(v4(1, 0, 0, 1), 7, false)],
    ];
    let run = discover(reference_address(), 2, 30, &trace);
    assert_eq!(run.outcome, DiscoveryOutcome::Found(public));
    assert_eq!(run.reports.len(), 2);
    assert_eq!(run.reports[1].rows.len(), 1);
    assert_eq!(run.reports[1].rows[0].rtts, vec![5 * MS]);
}

#[test]
fn only_private_and_ipv6_hops_exhaust_the_limit() {
    let trace = vec![
        vec![reply(v4(10, 1, 1, 1), 1, false)],
        vec![reply(IpAddress::V6(1), 2, false)],
        vec![reply(v4(172, 16, 0, 1), 3, false)],
        vec![reply(v4(192, 168, 0, 1), 4, false)],
        vec![reply(v4(8, 8, 8, 8), 5, false)],
    ];
    let run = discover(reference_address(), 1, 4, &trace);
    assert_eq!(run.outcome, DiscoveryOutcome::Exhausted);
    assert_eq!(run.reports.len(), 4);
}

#[test]
fn empty_trace_examines_every_ttl() {
    let trace: Vec<Vec<TraceReply>> = vec![];
    let run = discover(reference_address(), 4, 5, &trace);
    assert_eq!(run.outcome, DiscoveryOutcome::Exhausted);
    assert_eq!(run.reports.len(), 5);
    assert!(run.reports.iter().all(|r| r.missing == 4 && r.rows.is_empty()));
}

#[test]
fn zero_limit_examines_nothing() {
    let trace = vec![vec![reply(v4(8, 8, 8, 8), 1, false)]];
    let run = discover(reference_address(), 1, 0, &trace);
    assert_eq!(run.outcome, DiscoveryOutcome::Exhausted);
    assert_eq!(run.reports.len(), 0);
}

#[test]
fn final_hop_ends_the_search() {
    let trace = vec![
        vec![reply(v4(10, 0, 0, 1), 1, true)],
        vec![reply(v4(8, 8, 8, 8), 2, false)],
    ];
    let run = discover(reference_address(), 1, 30, &trace);
    assert_eq!(run.outcome, DiscoveryOutcome::Exhausted);
    assert_eq!(run.reports.len(), 1);
}

#[test]
fn reaching_the_reference_ends_the_search() {
    let reference = v4(10, 9, 9, 9);
    let trace = vec![
        vec![reply(v4(10, 0, 0, 1), 1, false), reply(reference, 2, false)],
        vec![reply(v4(8, 8, 8, 8), 3, false)],
    ];
    let run = discover(reference, 2, 30, &trace);
    assert_eq!(run.outcome, DiscoveryOutcome::Exhausted);
    assert_eq!(run.reports.len(), 1);
}

#[test]
fn report_pads_missing_probes_and_keeps_order() {
    let a = v4(10, 0, 0, 1);
    let b = v4(10, 0, 0, 2);
    let mut search = HopSearch::new(reference_address(), 5, 30);
    assert_eq!(search.current_ttl(), Some(1));
    assert_eq!(search.observe(reply(a, 3, false)), None);
    assert_eq!(search.observe(reply(b, 1, false)), None);
    assert_eq!(search.observe(reply(a, 2, false)), None);
    let report = search.finish_ttl();
    assert_eq!(report.ttl, 1);
    assert_eq!(report.missing, 2);
    assert_eq!(report.rows.len(), 2);
    assert_eq!(report.rows[0].addr, a);
    assert_eq!(report.rows[0].rtts, vec![3 * MS, 2 * MS]);
    assert_eq!(report.rows[1].addr, b);
    assert_eq!(report.rows[1].rtts, vec![MS]);
    let entries: usize = report.rows.iter().map(|r| r.rtts.len()).sum::<usize>() + report.missing;
    assert_eq!(entries, 5);
    assert_eq!(search.current_ttl(), Some(2));
}

#[test]
fn step_search_stops_after_terminal_ttl() {
    let mut search = HopSearch::new(reference_address(), 2, 30);
    assert_eq!(search.observe(reply(v4(10, 0, 0, 1), 1, true)), None);
    assert_eq!(search.observe(reply(v4(10, 0, 0, 2), 1, false)), None);
    search.finish_ttl();
    assert_eq!(search.current_ttl(), None);
}

#[test]
fn step_search_reports_public_address() {
    let mut search = HopSearch::new(reference_address(), 2, 30);
    let public = v4(8, 8, 4, 4);
    assert_eq!(search.observe(reply(public, 4, false)), Some(public));
}

#[test]
fn step_search_stops_at_limit() {
    let mut search = HopSearch::new(reference_address(), 1, 2);
    search.finish_ttl();
    assert_eq!(search.current_ttl(), Some(2));
    search.finish_ttl();
    assert_eq!(search.current_ttl(), None);
}

#[test]
fn private_ranges() {
    assert!(ipv4_is_private(10, 0, 0, 1));
    assert!(ipv4_is_private(172, 16, 0, 1));
    assert!(ipv4_is_private(172, 31, 255, 255));
    assert!(!ipv4_is_private(172, 32, 0, 1));
    assert!(!ipv4_is_private(172, 15, 0, 1));
    assert!(ipv4_is_private(192, 168, 3, 4));
    assert!(!ipv4_is_private(192, 169, 0, 1));
    assert!(!ipv4_is_private(8, 8, 8, 8));
}

#[test]
fn reserved_ranges() {
    assert!(ipv4_is_private(0, 0, 0, 0));
    assert!(ipv4_is_private(127, 0, 0, 1));
    assert!(ipv4_is_private(169, 254, 1, 1));
    assert!(ipv4_is_private(100, 64, 0, 1));
    assert!(ipv4_is_private(100, 127, 255, 254));
    assert!(!ipv4_is_private(100, 63, 0, 1));
    assert!(!ipv4_is_private(100, 128, 0, 1));
    assert!(ipv4_is_private(192, 0, 0, 8));
    assert!(ipv4_is_private(192, 0, 2, 1));
    assert!(!ipv4_is_private(192, 0, 1, 1));
    assert!(ipv4_is_private(198, 18, 0, 1));
    assert!(ipv4_is_private(198, 19, 255, 1));
    assert!(!ipv4_is_private(198, 20, 0, 1));
    assert!(ipv4_is_private(198, 51, 100, 7));
    assert!(ipv4_is_private(203, 0, 113, 9));
    assert!(!ipv4_is_private(203, 0, 114, 9));
    assert!(ipv4_is_private(224, 0, 0, 1));
    assert!(ipv4_is_private(255, 255, 255, 255));
    assert!(!ipv4_is_private(223, 255, 255, 255));
}

#[test]
fn public_classification() {
    assert_eq!(is_public_ipv4_address(v4(1, 1, 1, 1)), Some(v4(1, 1, 1, 1)));
    assert_eq!(is_public_ipv4_address(v4(10, 2, 3, 4)), None);
    assert_eq!(is_public_ipv4_address(v4(127, 0, 0, 1)), None);
    assert_eq!(is_public_ipv4_address(v4(169, 254, 1, 1)), None);
    assert_eq!(is_public_ipv4_address(v4(100, 64, 0, 1)), None);
    assert_eq!(is_public_ipv4_address(v4(255, 255, 255, 255)), None);
    assert_eq!(is_public_ipv4_address(IpAddress::V6(0x2001_4860_4860_0000_0000_0000_0000_8888)), None);
}

#[test]
fn carrier_nat_hop_is_not_the_first_public_hop() {
    let public = v4(8, 8, 8, 8);
    let trace = vec![
        vec![reply(v4(192, 168, 1, 1), 1, false)],
        vec![reply(v4(100, 64, 0, 1), 2, false), reply(v4(127, 0, 0, 1), 2, false)],
        vec![reply(v4(169, 254, 1, 1), 3, false), reply(public, 4, false)],
    ];
    let run = discover(reference_address(), 2, 30, &trace);
    assert_eq!(run.outcome, DiscoveryOutcome::Found(public));
    assert_eq!(run.reports.len(), 3);
}

#[test]
fn lookup_takes_first_ipv4_address() {
    assert_eq!(first_ipv4_target(&vec![]), Err(LookupError::InvalidTarget));
    assert_eq!(first_ipv4_target(&vec![IpAddress::V6(7), v4(1, 2, 3, 4)]), Err(LookupError::Ipv6(7)));
    assert_eq!(first_ipv4_target(&vec![v4(1, 2, 3, 4), IpAddress::V6(7)]), Ok(v4(1, 2, 3, 4)));
}
