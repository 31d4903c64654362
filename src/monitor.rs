use vstd::prelude::*;

use crate::address::IpAddress;

verus! {

/// Seconds to wait before reopening a ping session that ended.
pub const NETWORK_ERROR_DELAY: u64 = 10;

/// The outcome of one ping: a round-trip time in nanoseconds, a timeout, or
/// a transport error.
#[derive(Clone, Copy, Debug, PartialEq, Eq, Structural)]
pub enum PingOutcome {
    Sample(u64),
    Timeout,
    TransportError,
}

/// What one outcome does to the metrics: a successful ping counts as sent and
/// adds its latency to the histogram; any other outcome counts as failed.
#[derive(Clone, Copy, Debug, PartialEq, Eq, Structural)]
pub enum MetricUpdate {
    Sent(u64),
    Failed,
}

/// How many pings a session sends.
#[derive(Clone, Copy, Debug, PartialEq, Eq, Structural)]
pub enum ProbeCount {
    Unbounded,
}

/// What a ping session is opened with.
#[derive(Clone, Copy, Debug, PartialEq, Eq, Structural)]
pub struct SessionRequest {
    pub target: IpAddress,
    pub expiry_ms: u64,
    pub count: ProbeCount,
}

pub open spec fn update_of(o: PingOutcome) -> MetricUpdate {
    match o {
        PingOutcome::Sample(d) => MetricUpdate::Sent(d),
        _ => MetricUpdate::Failed,
    }
}

/// Classifies a ping outcome into its metric update.
pub fn classify(o: PingOutcome) -> (r: MetricUpdate)
    ensures
        r == update_of(o),
{
    match o {
        PingOutcome::Sample(d) => MetricUpdate::Sent(d),
        PingOutcome::Timeout => MetricUpdate::Failed,
        PingOutcome::TransportError => MetricUpdate::Failed,
    }
}

/// The number of successful pings in a sequence of outcomes.
pub open spec fn count_sent(s: Seq<PingOutcome>) -> nat
    decreases s.len(),
{
    if s.len() == 0 {
        0
    } else {
        count_sent(s.drop_last()) + if s.last() is Sample { 1nat } else { 0nat }
    }
}

/// The number of timeouts and transport errors in a sequence of outcomes.
pub open spec fn count_failed(s: Seq<PingOutcome>) -> nat
    decreases s.len(),
{
    if s.len() == 0 {
        0
    } else {
        count_failed(s.drop_last()) + if s.last() is Sample { 0nat } else { 1nat }
    }
}

/// The latencies of the successful pings, in order.
pub open spec fn sample_latencies(s: Seq<PingOutcome>) -> Seq<u64>
    decreases s.len(),
{
    if s.len() == 0 {
        Seq::empty()
    } else {
        match s.last() {
            PingOutcome::Sample(d) => sample_latencies(s.drop_last()).push(d),
            _ => sample_latencies(s.drop_last()),
        }
    }
}

/// The metric values that a sequence of outcomes produces.
#[derive(Debug)]
pub struct PingTally {
    pub sent: u64,
    pub failed: u64,
    pub latencies: Vec<u64>,
}

impl PingTally {
    pub fn new() -> (r: PingTally)
        ensures
            r.sent == 0,
            r.failed == 0,
            r.latencies@.len() == 0,
    {
        PingTally { sent: 0, failed: 0, latencies: Vec::new() }
    }

    /// Applies one metric update.
    pub fn apply(&mut self, u: MetricUpdate)
        requires
            old(self).sent < u64::MAX,
            old(self).failed < u64::MAX,
        ensures
            match u {
                MetricUpdate::Sent(d) => {
                    &&& final(self).sent == old(self).sent + 1
                    &&& final(self).failed == old(self).failed
                    &&& final(self).latencies@ == old(self).latencies@.push(d)
                },
                MetricUpdate::Failed => {
                    &&& final(self).sent == old(self).sent
                    &&& final(self).failed == old(self).failed + 1
                    &&& final(self).latencies@ == old(self).latencies@
                },
            },
    {
        match u {
            MetricUpdate::Sent(d) => {
                self.sent = self.sent + 1;
                self.latencies.push(d);
            },
            MetricUpdate::Failed => {
                self.failed = self.failed + 1;
            },
        }
    }
}

/// The metrics that a session's outcomes produce, each outcome in turn.
pub fn tally(outcomes: &Vec<PingOutcome>) -> (r: PingTally)
    ensures
        r.sent == count_sent(outcomes@),
        r.failed == count_failed(outcomes@),
        r.latencies@ == sample_latencies(outcomes@),
{
    let mut t = PingTally::new();
    let mut i: usize = 0;
    while i < outcomes.len()
        invariant
            i <= outcomes.len(),
            t.sent == count_sent(outcomes@.take(i as int)),
            t.failed == count_failed(outcomes@.take(i as int)),
            t.latencies@ == sample_latencies(outcomes@.take(i as int)),
            t.sent + t.failed == i,
        decreases outcomes.len() - i,
    {
        let ghost pre = outcomes@.take(i as int);
        proof {
            assert(outcomes@.take(i as int + 1).drop_last() =~= pre);
        }
        t.apply(classify(outcomes[i]));
        i += 1;
    }
    proof {
        assert(outcomes@.take(i as int) =~= outcomes@);
    }
    t
}

/// Every outcome updates exactly one metric: the sent counter for each sample
/// (with its latency in the histogram), the failed counter for each timeout
/// or transport error.
pub proof fn lemma_each_outcome_counted_once(s: Seq<PingOutcome>)
    ensures
        count_sent(s) + count_failed(s) == s.len(),
        sample_latencies(s).len() == count_sent(s),
    decreases s.len(),
{
    if s.len() > 0 {
        lemma_each_outcome_counted_once(s.drop_last());
    }
}

/// Where the monitor stands: not started, consuming a session's outcomes, or
/// waiting out the cooldown after a session ended.
#[derive(Clone, Copy, Debug, PartialEq, Eq, Structural)]
pub enum Phase {
    Idle,
    Probing,
    CoolingDown,
}

/// What the monitor is told: to start, one outcome of the open session, the
/// end of the session, or the end of the cooldown.
#[derive(Clone, Copy, Debug, PartialEq, Eq, Structural)]
pub enum MonitorEvent {
    Start,
    Outcome(PingOutcome),
    SessionEnded,
    CooldownElapsed,
}

/// What the monitor asks for next: open a fresh session; apply a metric
/// update, then wait the given milliseconds before the next outcome; sleep
/// the given milliseconds of cooldown; or nothing.
#[derive(Clone, Copy, Debug, PartialEq, Eq, Structural)]
pub enum MonitorAction {
    OpenSession(SessionRequest),
    Record(MetricUpdate, u64),
    Sleep(u64),
    Ignore,
}

/// The continuous latency monitor, as a state machine over events.
#[derive(Clone, Copy, Debug)]
pub struct Monitor {
    pub target: IpAddress,
    pub expiry_ms: u64,
    pub delay_ms: u64,
    pub cooldown_ms: u64,
    pub phase: Phase,
}

impl Monitor {
    pub open spec fn request(&self) -> SessionRequest {
        SessionRequest { target: self.target, expiry_ms: self.expiry_ms, count: ProbeCount::Unbounded }
    }

    /// The next phase and the action that `e` brings about in phase `p`.
    pub open spec fn transition(&self, p: Phase, e: MonitorEvent) -> (Phase, MonitorAction) {
        match (p, e) {
            (Phase::Idle, MonitorEvent::Start) => (Phase::Probing, MonitorAction::OpenSession(self.request())),
            (Phase::Probing, MonitorEvent::Outcome(o)) => (Phase::Probing, MonitorAction::Record(update_of(o), self.delay_ms)),
            (Phase::Probing, MonitorEvent::SessionEnded) => (Phase::CoolingDown, MonitorAction::Sleep(self.cooldown_ms)),
            (Phase::CoolingDown, MonitorEvent::CooldownElapsed) => (Phase::Probing, MonitorAction::OpenSession(self.request())),
            _ => (p, MonitorAction::Ignore),
        }
    }

    /// A monitor that has not started yet.
    pub fn new(target: IpAddress, expiry_ms: u64, delay_ms: u64, cooldown_ms: u64) -> (r: Monitor)
        ensures
            r.target == target,
            r.expiry_ms == expiry_ms,
            r.delay_ms == delay_ms,
            r.cooldown_ms == cooldown_ms,
            r.phase == Phase::Idle,
    {
        Monitor { target, expiry_ms, delay_ms, cooldown_ms, phase: Phase::Idle }
    }

    /// Takes one event and returns the action it calls for.
    pub fn step(&mut self, e: MonitorEvent) -> (r: MonitorAction)
        ensures
            (final(self).phase, r) == old(self).transition(old(self).phase, e),
            final(self).target == old(self).target,
            final(self).expiry_ms == old(self).expiry_ms,
            final(self).delay_ms == old(self).delay_ms,
            final(self).cooldown_ms == old(self).cooldown_ms,
    {
        let request = SessionRequest { target: self.target, expiry_ms: self.expiry_ms, count: ProbeCount::Unbounded };
        match (self.phase, e) {
            (Phase::Idle, MonitorEvent::Start) => {
                self.phase = Phase::Probing;
                MonitorAction::OpenSession(request)
            },
            (Phase::Probing, MonitorEvent::Outcome(o)) => MonitorAction::Record(classify(o), self.delay_ms),
            (Phase::Probing, MonitorEvent::SessionEnded) => {
                self.phase = Phase::CoolingDown;
                MonitorAction::Sleep(self.cooldown_ms)
            },
            (Phase::CoolingDown, MonitorEvent::CooldownElapsed) => {
                self.phase = Phase::Probing;
                MonitorAction::OpenSession(request)
            },
            _ => MonitorAction::Ignore,
        }
    }
}

/// The phase after `m` takes `events` in turn.
pub open spec fn phase_after(m: Monitor, events: Seq<MonitorEvent>) -> Phase
    decreases events.len(),
{
    if events.len() == 0 {
        m.phase
    } else {
        m.transition(phase_after(m, events.drop_last()), events.last()).0
    }
}

/// The actions that `m` returns as it takes `events` in turn.
pub open spec fn actions(m: Monitor, events: Seq<MonitorEvent>) -> Seq<MonitorAction>
    decreases events.len(),
{
    if events.len() == 0 {
        Seq::empty()
    } else {
        actions(m, events.drop_last()).push(m.transition(phase_after(m, events.drop_last()), events.last()).1)
    }
}

/// Feeds the events to the monitor in turn and collects its actions.
pub fn replay(m: &mut Monitor, events: &Vec<MonitorEvent>) -> (r: Vec<MonitorAction>)
    ensures
        r@ == actions(*old(m), events@),
        final(m).phase == phase_after(*old(m), events@),
        final(m).target == old(m).target,
        final(m).expiry_ms == old(m).expiry_ms,
        final(m).delay_ms == old(m).delay_ms,
        final(m).cooldown_ms == old(m).cooldown_ms,
{
    let ghost m0 = *m;
    let mut r: Vec<MonitorAction> = Vec::new();
    let mut i: usize = 0;
    while i < events.len()
        invariant
            i <= events.len(),
            r@ == actions(m0, events@.take(i as int)),
            m.phase == phase_after(m0, events@.take(i as int)),
            m.target == m0.target,
            m.expiry_ms == m0.expiry_ms,
            m.delay_ms == m0.delay_ms,
            m.cooldown_ms == m0.cooldown_ms,
        decreases events.len() - i,
    {
        proof {
            assert(events@.take(i as int + 1).drop_last() =~= events@.take(i as int));
        }
        let a = m.step(events[i]);
        r.push(a);
        i += 1;
    }
    proof {
        assert(events@.take(i as int) =~= events@);
    }
    r
}

proof fn lemma_actions_at(m: Monitor, events: Seq<MonitorEvent>, i: int)
    requires
        0 <= i < events.len(),
    ensures
        actions(m, events).len() == events.len(),
        actions(m, events)[i] == m.transition(phase_after(m, events.take(i)), events[i]).1,
        phase_after(m, events.take(i + 1)) == m.transition(phase_after(m, events.take(i)), events[i]).0,
    decreases events.len(),
{
    assert(events.take(i + 1).drop_last() =~= events.take(i));
    if i == events.len() - 1 {
        assert(events.drop_last() =~= events.take(i));
        lemma_actions_len(m, events);
    } else {
        let d = events.drop_last();
        lemma_actions_at(m, d, i);
        assert(d.take(i) =~= events.take(i));
        assert(d.take(i + 1) =~= events.take(i + 1));
        lemma_actions_len(m, events);
    }
}

proof fn lemma_actions_len(m: Monitor, events: Seq<MonitorEvent>)
    ensures
        actions(m, events).len() == events.len(),
    decreases events.len(),
{
    if events.len() > 0 {
        lemma_actions_len(m, events.drop_last());
    }
}

proof fn lemma_cooling(m: Monitor, events: Seq<MonitorEvent>, j: int, i: int, k: int)
    requires
        0 <= j < i <= k < events.len(),
        phase_after(m, events.take(j + 1)) == Phase::CoolingDown,
        forall|l: int| j < l < k ==> !(actions(m, events)[l] is OpenSession),
    ensures
        phase_after(m, events.take(i)) == Phase::CoolingDown,
        forall|l: int| j < l < i ==> actions(m, events)[l] == MonitorAction::Ignore,
    decreases i - j,
{
    if i > j + 1 {
        lemma_cooling(m, events, j, i - 1, k);
        lemma_actions_at(m, events, i - 1);
    }
}

/// After a session ends, the monitor sleeps the configured cooldown, and the
/// next session it opens comes on the event that the cooldown elapsed, with
/// nothing done in between.
pub proof fn lemma_reopen_only_after_cooldown(m: Monitor, events: Seq<MonitorEvent>, j: int, k: int)
    requires
        0 <= j < k < events.len(),
        actions(m, events)[j] is Sleep,
        actions(m, events)[k] is OpenSession,
        forall|i: int| j < i < k ==> !(actions(m, events)[i] is OpenSession),
    ensures
        actions(m, events)[j] == MonitorAction::Sleep(m.cooldown_ms),
        events[j] == MonitorEvent::SessionEnded,
        events[k] == MonitorEvent::CooldownElapsed,
        forall|i: int| j < i < k ==> actions(m, events)[i] == MonitorAction::Ignore,
{
    lemma_actions_at(m, events, j);
    lemma_cooling(m, events, j, k, k);
    lemma_actions_at(m, events, k);
}

} // verus!
