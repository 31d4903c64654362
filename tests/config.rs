use internet_quality_monitor::config::{select_protocol, trace_protocol, Args, TraceProtocol};

#[test]
fn protocol_names_in_any_case() {
    assert_eq!(trace_protocol("icmp", 0), TraceProtocol::Icmp);
    assert_eq!(trace_protocol("tcp", 443), TraceProtocol::Tcp(443));
    assert_eq!(trace_protocol("Udp", 33434), TraceProtocol::Udp(33434));
}

#[test]
fn port_is_needed_for_tcp_and_udp() {
    assert_eq!(select_protocol("TCP", 0), TraceProtocol::EngineDefault);
    assert_eq!(select_protocol("UDP", 0), TraceProtocol::EngineDefault);
    assert_eq!(select_protocol("ICMP", 0), TraceProtocol::Icmp);
    assert_eq!(select_protocol("SCTP", 9), TraceProtocol::EngineDefault);
    assert_eq!(select_protocol("icmp", 0), TraceProtocol::EngineDefault);
}

#[test]
fn args_select_protocol() {
    let args = Args {
        help: false,
        proto: String::from("tcp"),
        probe_port: 80,
        count: 4,
        delay: 500,
        limit: 30,
        expiry: 250,
    };
    assert_eq!(args.protocol(), TraceProtocol::Tcp(80));
}

#[test]
fn default_args() {
    let args = Args::default();
    assert_eq!(args.proto, "ICMP");
    assert!(!args.help);
    assert_eq!(args.probe_port, 0);
    assert_eq!((args.count, args.delay, args.limit, args.expiry), (4, 500, 30, 250));
    assert_eq!(args.protocol(), TraceProtocol::Icmp);
}
