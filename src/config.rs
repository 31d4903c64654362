use vstd::prelude::*;
use vstd::string::StrSliceExecFns;

verus! {

/// The command-line options.
#[derive(Debug)]
pub struct Args {
    pub help: bool,
    /// Protocol used to find the first public IP: ICMP, UDP, or TCP.
    pub proto: String,
    /// Port the TCP or UDP trace probe connects to; needed for TCP or UDP.
    pub probe_port: u16,
    /// Probes per TTL while tracing to the first public IP.
    pub count: usize,
    /// Milliseconds between monitoring pings.
    pub delay: u64,
    /// Max network hops before giving up finding a public IP.
    pub limit: u8,
    /// Milliseconds to wait for a network reply.
    pub expiry: u64,
}

/// The transport that the trace probes use. A TCP or UDP name without a probe
/// port falls back to the probing engine's own default transport.
#[derive(Clone, Copy, Debug, PartialEq, Eq, Structural)]
pub enum TraceProtocol {
    Icmp,
    Tcp(u16),
    Udp(u16),
    EngineDefault,
}

/// What `str::to_uppercase` returns on a string.
pub uninterp spec fn upper_of(s: Seq<char>) -> Seq<char>;

/// Relies on `str::to_uppercase`: the uppercase form, a function of the
/// characters alone.
#[verifier::external_body]
fn uppercase(s: &str) -> (r: String)
    ensures
        r@ == upper_of(s@),
{
    s.to_uppercase()
}

/// The transport named by an uppercase protocol name and a probe port.
pub open spec fn protocol_named(name: Seq<char>, probe_port: u16) -> TraceProtocol {
    if name == seq!['I', 'C', 'M', 'P'] {
        TraceProtocol::Icmp
    } else if name == seq!['T', 'C', 'P'] && probe_port > 0 {
        TraceProtocol::Tcp(probe_port)
    } else if name == seq!['U', 'D', 'P'] && probe_port > 0 {
        TraceProtocol::Udp(probe_port)
    } else {
        TraceProtocol::EngineDefault
    }
}

/// Whether two strings hold the same characters.
fn same_text(s: &str, t: &str) -> (r: bool)
    ensures
        r == (s@ == t@),
{
    let n = s.unicode_len();
    if n != t.unicode_len() {
        return false;
    }
    let mut i: usize = 0;
    while i < n
        invariant
            i <= n,
            n == s@.len(),
            n == t@.len(),
            forall|j: int| 0 <= j < i ==> s@[j] == t@[j],
        decreases n - i,
    {
        if s.get_char(i) != t.get_char(i) {
            return false;
        }
        i += 1;
    }
    proof {
        assert(s@ =~= t@);
    }
    true
}

/// Picks the transport for an already uppercased protocol name.
pub fn select_protocol(name: &str, probe_port: u16) -> (r: TraceProtocol)
    ensures
        r == protocol_named(name@, probe_port),
{
    proof {
        reveal_strlit("ICMP");
        reveal_strlit("TCP");
        reveal_strlit("UDP");
        assert("ICMP"@ =~= seq!['I', 'C', 'M', 'P']);
        assert("TCP"@ =~= seq!['T', 'C', 'P']);
        assert("UDP"@ =~= seq!['U', 'D', 'P']);
    }
    if same_text(name, "ICMP") {
        TraceProtocol::Icmp
    } else if same_text(name, "TCP") && probe_port > 0 {
        TraceProtocol::Tcp(probe_port)
    } else if same_text(name, "UDP") && probe_port > 0 {
        TraceProtocol::Udp(probe_port)
    } else {
        TraceProtocol::EngineDefault
    }
}

/// Picks the transport for a protocol name in any case.
pub fn trace_protocol(proto: &str, probe_port: u16) -> (r: TraceProtocol)
    ensures
        r == protocol_named(upper_of(proto@), probe_port),
{
    let upper = uppercase(proto);
    select_protocol(upper.as_str(), probe_port)
}

impl Default for Args {
    /// ICMP, four probes per TTL, 500 ms between pings, at most 30 hops and
    /// 250 ms to wait for a reply.
    fn default() -> (r: Args)
        ensures
            r.proto@ == seq!['I', 'C', 'M', 'P'],
            !r.help,
            r.probe_port == 0,
            r.count == 4,
            r.delay == 500,
            r.limit == 30,
            r.expiry == 250,
    {
        proof {
            reveal_strlit("ICMP");
            assert("ICMP"@ =~= seq!['I', 'C', 'M', 'P']);
        }
        Args {
            help: false,
            proto: "ICMP".to_owned(),
            probe_port: 0,
            count: 4,
            delay: 500,
            limit: 30,
            expiry: 250,
        }
    }
}

impl Args {
    /// The transport that these options select for the trace.
    pub fn protocol(&self) -> (r: TraceProtocol)
        ensures
            r == protocol_named(upper_of(self.proto@), self.probe_port),
    {
        trace_protocol(self.proto.as_str(), self.probe_port)
    }
}

} // verus!
