use internet_quality_monitor::address::IpAddress;
use internet_quality_monitor::monitor::{
    classify, replay, tally, MetricUpdate, Monitor, MonitorAction, MonitorEvent, Phase,
    PingOutcome, ProbeCount, SessionRequest, NETWORK_ERROR_DELAY,
};

const MS: u64 = 1_000_000;

fn target() -> IpAddress {
    IpAddress::V4(8, 8, 8, 8)
}

#[test]
fn session_of_two_samples_and_a_timeout() {
    let outcomes = vec![PingOutcome::Sample(10 * MS), PingOutcome::Timeout, PingOutcome::Sample(12 * MS)];
    let t = tally(&outcomes);
    assert_eq!(t.sent, 2);
    assert_eq!(t.failed, 1);
    let seconds: Vec<f64> = t.latencies.iter().map(|n| *n as f64 / 1e9).collect();
    assert_eq!(seconds, vec![0.010, 0.012]);
}

#[test]
fn every_outcome_updates_one_metric() {
    let outcomes = vec![
        PingOutcome::TransportError,
        PingOutcome::Sample(3),
        PingOutcome::Timeout,
        PingOutcome::TransportError,
        PingOutcome::Sample(4),
    ];
    let t = tally(&outcomes);
    assert_eq!(t.sent, 2);
    assert_eq!(t.failed, 3);
    assert_eq!(t.latencies, vec![3, 4]);
    assert_eq!(classify(PingOutcome::Sample(5)), MetricUpdate::Sent(5));
    assert_eq!(classify(PingOutcome::Timeout), MetricUpdate::Failed);
    assert_eq!(classify(PingOutcome::TransportError), MetricUpdate::Failed);
}

#[test]
fn empty_session_updates_nothing() {
    let t = tally(&vec![]);
    assert_eq!((t.sent, t.failed, t.latencies.len()), (0, 0, 0));
}

#[test]
fn ended_session_reopens_after_cooldown() {
    let cooldown = NETWORK_ERROR_DELAY * 1000;
    let mut m = Monitor::new(target(), 250, 500, cooldown);
    let events = vec![
        MonitorEvent::Start,
        MonitorEvent::Outcome(PingOutcome::Sample(7)),
        MonitorEvent::Outcome(PingOutcome::Timeout),
        MonitorEvent::SessionEnded,
        MonitorEvent::Outcome(PingOutcome::Sample(8)),
        MonitorEvent::CooldownElapsed,
        MonitorEvent::Outcome(PingOutcome::TransportError),
    ];
    let actions = replay(&mut m, &events);
    let open = MonitorAction::OpenSession(SessionRequest {
        target: target(),
        expiry_ms: 250,
        count: ProbeCount::Unbounded,
    });
    assert_eq!(
        actions,
        vec![
            open,
            MonitorAction::Record(MetricUpdate::Sent(7), 500),
            MonitorAction::Record(MetricUpdate::Failed, 500),
            MonitorAction::Sleep(10_000),
            MonitorAction::Ignore,
            open,
            MonitorAction::Record(MetricUpdate::Failed, 500),
        ]
    );
    assert_eq!(m.phase, Phase::Probing);
}

#[test]
fn cooling_monitor_ignores_other_events() {
    let mut m = Monitor::new(target(), 250, 500, 10_000);
    assert_eq!(m.step(MonitorEvent::CooldownElapsed), MonitorAction::Ignore);
    assert_eq!(m.phase, Phase::Idle);
    m.step(MonitorEvent::Start);
    assert_eq!(m.step(MonitorEvent::SessionEnded), MonitorAction::Sleep(10_000));
    assert_eq!(m.phase, Phase::CoolingDown);
    assert_eq!(m.step(MonitorEvent::Start), MonitorAction::Ignore);
    assert_eq!(m.step(MonitorEvent::SessionEnded), MonitorAction::Ignore);
    assert_eq!(m.phase, Phase::CoolingDown);
}
