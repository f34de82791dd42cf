use netband::config::Address;
use netband::health::{
    DegradationReason, HealthConfig, HealthDecision, HealthSample, HealthWindow,
};
use netband::interfaces::{InterfaceError, InterfaceResolver, ResolvedInterface};
use netband::model::{
    ErrorKind, EventKind, IpAddr, LoadPhase, MeasurementEvent, Outcome, RunId, Scalar,
    TriggerReason,
};
use netband::monitor::interface::{Clock, InterfaceRuntime, select_bandwidth_interface};
use netband::monitor::several::{Asked, Found, InterfaceMonitor, Turn, assign_interface};
use netband::monitor::{
    MonitorLoop, MonitorStats, MonitorStep, PingMonitorConfig, Rounds, Tick, round_request,
    unassigned_report,
};
use netband::interfaces::FairInterfaceSelector;
use netband::ping::PingRoundReport;
use netband::scheduler::{BandwidthOpportunity, SchedulerAction};
use netband::time::{Duration, Timestamp};
use std::cell::RefCell;

fn scalar(value: f64) -> Scalar {
    let bits = value.to_bits() as i64;
    Scalar { key: if bits >= 0 { bits } else { bits ^ i64::MAX } }
}

fn loss(attempted: usize, successful: usize) -> Scalar {
    if attempted == 0 {
        scalar(0.0)
    } else {
        scalar((attempted - successful) as f64 * 100.0 / attempted as f64)
    }
}

fn health() -> HealthConfig {
    HealthConfig {
        window_rounds: 3,
        min_samples: 2,
        loss_threshold_pct: scalar(50.0),
        rtt_threshold_ms: Some(scalar(100.0)),
        recovery_loss_pct: scalar(10.0),
        recovery_rounds: 2,
    }
}

fn good(rtt: f64) -> HealthSample {
    HealthSample { successful: true, rtt_ms: Some(scalar(rtt)) }
}

fn lost() -> HealthSample {
    HealthSample { successful: false, rtt_ms: None }
}

#[test]
fn health_degrades_on_loss_and_recovers_after_a_streak() {
    let mut window = HealthWindow::new(health());
    assert!(matches!(
        window.observe_round(vec![lost()], loss),
        HealthDecision::Healthy(snapshot) if !snapshot.sufficient_samples
    ));
    let HealthDecision::Degraded { snapshot, reason } = window.observe_round(vec![lost()], loss)
    else {
        panic!("two lost probes degrade");
    };
    assert_eq!(reason, DegradationReason::Loss);
    assert_eq!(snapshot.attempted, 2);
    assert_eq!(snapshot.successful, 0);
    assert_eq!(snapshot.loss_pct, scalar(100.0));
    assert_eq!(snapshot.p95_rtt_ms, None);
    assert!(matches!(
        window.observe_round(vec![good(20.0)], loss),
        HealthDecision::Degraded { .. }
    ));
    assert!(matches!(
        window.observe_round(vec![lost()], loss),
        HealthDecision::Degraded { .. }
    ));
    assert!(matches!(
        window.observe_round(vec![good(20.0)], loss),
        HealthDecision::Degraded { .. }
    ));
    assert!(matches!(
        window.observe_round(vec![good(20.0)], loss),
        HealthDecision::Recovered(_)
    ));
    assert_eq!(window.rounds_retained(), 3);
}

#[test]
fn health_degrades_on_slow_replies() {
    let mut window = HealthWindow::new(health());
    let HealthDecision::Degraded { reason, snapshot } =
        window.observe_round(vec![good(150.0), good(10.0)], loss)
    else {
        panic!("slow replies degrade");
    };
    assert_eq!(reason, DegradationReason::Rtt);
    assert_eq!(snapshot.p95_rtt_ms, Some(scalar(150.0)));
    let mut window = HealthWindow::new(health());
    assert!(matches!(
        window.observe_round(vec![good(150.0), lost()], loss),
        HealthDecision::Degraded { reason: DegradationReason::LossAndRtt, .. }
    ));
}

#[test]
fn nineteen_in_twenty_replies_are_not_slower_than_the_reading() {
    let config = HealthConfig { window_rounds: 1, ..health() };
    let mut window = HealthWindow::new(config);
    let samples = (1..=40).rev().map(|rtt| good(rtt as f64)).collect();
    let decision = window.observe_round(samples, loss);
    assert_eq!(decision.snapshot().p95_rtt_ms, Some(scalar(38.0)));
}

fn probe(outcome: Outcome) -> MeasurementEvent {
    let mut event = MeasurementEvent::new(
        RunId { value: 1 },
        EventKind::PingProbe,
        outcome,
        Timestamp { nanos: 0 },
    );
    event.ping_rtt_ms = Some(scalar(10.0));
    event
}

fn report(successful: usize, failed: usize) -> PingRoundReport {
    let mut events = Vec::new();
    for _ in 0..successful {
        events.push(probe(Outcome::Success));
    }
    for _ in 0..failed {
        events.push(probe(Outcome::Timeout));
    }
    PingRoundReport { events, successful_targets: successful, failed_targets: failed }
}

#[test]
fn one_round_is_on_at_a_time() {
    let mut rounds = Rounds::new();
    assert_eq!(rounds.tick(), Tick::Start(0));
    assert_eq!(rounds.tick(), Tick::Skipped);
    assert_eq!(rounds.tick(), Tick::Skipped);
    rounds.finish(&report(2, 1));
    assert_eq!(rounds.tick(), Tick::Start(1));
    assert_eq!(
        rounds.stats,
        MonitorStats {
            rounds_started: 2,
            rounds_completed: 1,
            skipped_ticks: 2,
            successful_probes: 2,
            failed_probes: 1,
            ..MonitorStats::default()
        }
    );
}

#[test]
fn the_scheduler_is_asked_between_rounds_and_the_last_round_is_finished() {
    let mut monitor = MonitorLoop::new(true, health());
    assert_eq!(monitor.step(false), MonitorStep::PollScheduler);
    monitor.asked(false);
    assert_eq!(monitor.step(false), MonitorStep::AwaitTick);
    assert_eq!(monitor.tick(), Tick::Start(0));
    assert_eq!(monitor.step(false), MonitorStep::AwaitRound);
    assert_eq!(monitor.step(true), MonitorStep::LastRound);
    let decision = monitor.complete_round(&report(1, 0), loss);
    assert!(matches!(decision, HealthDecision::Healthy(_)));
    assert!(monitor.latest_round_has_success);
    assert_eq!(monitor.step(false), MonitorStep::PollScheduler);
    monitor.asked(true);
    assert_eq!(monitor.rounds.stats.bandwidth_attempts, 1);
    assert_eq!(monitor.step(false), MonitorStep::PollScheduler);
    assert_eq!(monitor.step(true), MonitorStep::End);
    let plain = MonitorLoop::new(false, health());
    assert_eq!(plain.step(false), MonitorStep::AwaitTick);
}

#[test]
fn rounds_under_load_carry_the_load() {
    let config = PingMonitorConfig {
        run_id: RunId { value: 5 },
        targets: vec![Address { ip: IpAddr::V4(1), text: "0.0.0.1".into() }],
        interval: Duration::from_secs(5),
        timeout: Duration::from_secs(1),
        identifier: 9,
        health: health(),
    };
    let now = Timestamp { nanos: 3 };
    let plain = round_request(&config, 4, None, now);
    assert_eq!(plain.round_number, 4);
    assert_eq!(plain.load_phase, None);
    assert_eq!(plain.scheduled_at_utc, now);
    assert_eq!(plain.targets, config.targets);
    let loaded = round_request(&config, 5, Some((LoadPhase::Upload, RunId { value: 8 })), now);
    assert_eq!(loaded.load_phase, Some(LoadPhase::Upload));
    assert_eq!(loaded.load_run_id, Some(RunId { value: 8 }));
    assert_eq!(loaded.run_id, RunId { value: 5 });
}

fn clock(seconds: u64) -> Clock {
    Clock {
        running: Duration::from_secs(seconds),
        utc: Timestamp { nanos: seconds as i128 * 1_000_000_000 },
    }
}

fn utc(seconds: i128) -> Option<Timestamp> {
    Some(Timestamp { nanos: seconds * 1_000_000_000 })
}

#[test]
fn missing_interfaces_are_left_alone_for_up_to_a_minute() {
    let mut runtime = InterfaceRuntime::new("eth0".into(), health());
    let mut delays = Vec::new();
    for _ in 0..9 {
        delays.push(runtime.mark_failed(Duration::from_secs(0)).as_secs());
    }
    assert_eq!(delays, [1, 2, 4, 8, 16, 32, 60, 60, 60]);
    assert!(!runtime.available);
    assert!(!runtime.can_resolve(Duration::from_secs(59)));
    assert!(runtime.can_resolve(Duration::from_secs(60)));
    assert!(runtime.mark_available());
    assert!(!runtime.mark_available());
    assert_eq!(runtime.mark_failed(Duration::from_secs(7)).as_secs(), 1);
    assert_eq!(runtime.retry_at, Some(Duration::from_secs(8)));
}

/// Finds some interfaces and not others, and notes what it was asked.
struct Fixture {
    there: Vec<&'static str>,
    asked: RefCell<Vec<String>>,
}

impl Fixture {
    fn new(there: &[&'static str]) -> Fixture {
        Fixture { there: there.to_vec(), asked: RefCell::new(Vec::new()) }
    }
}

impl InterfaceResolver for Fixture {
    fn resolve(&self, name: &str) -> Result<ResolvedInterface, InterfaceError> {
        self.asked.borrow_mut().push(name.to_owned());
        if self.there.contains(&name) {
            Ok(ResolvedInterface { name: name.to_owned(), addresses: vec![] })
        } else {
            Err(InterfaceError::Missing { name: name.to_owned() })
        }
    }
}

fn names(values: &[&str]) -> Vec<String> {
    values.iter().map(|value| (*value).to_owned()).collect()
}

fn runtimes(values: &[&str]) -> Vec<InterfaceRuntime> {
    values
        .iter()
        .map(|name| InterfaceRuntime::new((*name).to_owned(), health()))
        .collect()
}

#[test]
fn scheduled_tests_take_the_next_interface_that_is_there() {
    let mut interfaces = runtimes(&["a", "b", "c", "d"]);
    interfaces[0].degraded = true;
    let fairness = FairInterfaceSelector::new(&names(&["a", "b", "c", "d"]));
    let resolver = Fixture::new(&["a", "d"]);
    let selection = select_bandwidth_interface(
        RunId { value: 1 },
        &None,
        &mut interfaces,
        &resolver,
        &fairness,
        clock(100),
    );
    assert_eq!(selection.selected.as_deref(), Some("d"));
    assert_eq!(*resolver.asked.borrow(), ["b", "c", "d"]);
    assert_eq!(selection.events.len(), 2);
    let event = &selection.events[0];
    assert_eq!(event.interface.as_deref(), Some("b"));
    assert_eq!(event.outcome, Outcome::Deferred);
    assert_eq!(event.error_kind, Some(ErrorKind::Io));
    assert_eq!(event.scheduler_not_before_utc, utc(101));
    assert_eq!(
        event.message.as_deref(),
        Some("decision=bandwidth_interface_skipped reason=unavailable error=network interface does not exist: b")
    );
    assert!(interfaces[0].available);
    assert!(!interfaces[1].available);
    assert!(!interfaces[2].available);
    assert!(interfaces[3].available);
    let again = select_bandwidth_interface(
        RunId { value: 1 },
        &None,
        &mut interfaces,
        &Fixture::new(&[]),
        &fairness,
        clock(100),
    );
    assert_eq!(again.selected, None);
    assert_eq!(again.lookups.len(), 1);
    assert_eq!(again.events.len(), 2);
    assert_eq!(
        again.events[1].message.as_deref(),
        Some("decision=bandwidth_suppressed reason=no_healthy_interface")
    );
    assert_eq!(again.events[1].outcome, Outcome::Suppressed);
    assert_eq!(again.events[1].interface, None);
}

#[test]
fn tests_that_ask_for_an_interface_take_no_other() {
    let mut interfaces = runtimes(&["a", "b"]);
    let fairness = FairInterfaceSelector::new(&names(&["a", "b"]));
    let run = RunId { value: 1 };
    let missing = select_bandwidth_interface(
        run,
        &Some("z".into()),
        &mut interfaces,
        &Fixture::new(&["a"]),
        &fairness,
        clock(10),
    );
    assert_eq!(missing.selected, None);
    assert_eq!(missing.events[0].outcome, Outcome::Error);
    assert_eq!(
        missing.events[0].message.as_deref(),
        Some("decision=bandwidth_suppressed reason=trigger_interface_missing")
    );
    let gone = select_bandwidth_interface(
        run,
        &Some("b".into()),
        &mut interfaces,
        &Fixture::new(&["a"]),
        &fairness,
        clock(10),
    );
    assert_eq!(gone.selected, None);
    assert_eq!(
        gone.events[0].message.as_deref(),
        Some("decision=bandwidth_suppressed reason=trigger_interface_unavailable error=network interface does not exist: b")
    );
    let resting = select_bandwidth_interface(
        run,
        &Some("b".into()),
        &mut interfaces,
        &Fixture::new(&["b"]),
        &fairness,
        Clock { running: Duration::from_millis(10_500), utc: Timestamp { nanos: 0 } },
    );
    assert_eq!(resting.selected, None);
    assert_eq!(resting.lookups.len(), 0);
    assert_eq!(
        resting.events[0].scheduler_not_before_utc,
        Some(Timestamp { nanos: 500_000_000 })
    );
    assert_eq!(
        resting.events[0].message.as_deref(),
        Some("decision=bandwidth_suppressed reason=trigger_interface_backoff")
    );
    let back = select_bandwidth_interface(
        run,
        &Some("b".into()),
        &mut interfaces,
        &Fixture::new(&["b"]),
        &fairness,
        clock(11),
    );
    assert_eq!(back.selected.as_deref(), Some("b"));
    assert!(back.events.is_empty());
    assert!(interfaces[1].available);
}

#[test]
fn an_interface_named_unassigned_is_not_told() {
    let mut interfaces = runtimes(&["unassigned"]);
    let fairness = FairInterfaceSelector::new(&names(&["unassigned"]));
    let gone = select_bandwidth_interface(
        RunId { value: 1 },
        &Some("unassigned".into()),
        &mut interfaces,
        &Fixture::new(&[]),
        &fairness,
        clock(10),
    );
    assert_eq!(gone.selected, None);
    assert_eq!(gone.events[0].interface, None);
    assert_eq!(
        gone.events[0].message.as_deref(),
        Some("decision=bandwidth_suppressed reason=trigger_interface_unavailable error=network interface does not exist: unassigned")
    );
}

#[test]
fn interfaces_have_their_rounds_in_turn() {
    let run = RunId { value: 1 };
    let mut monitor = InterfaceMonitor::new(&names(&["a", "b"]), health());
    assert_eq!(monitor.step(false, true), MonitorStep::PollScheduler);
    monitor.asked_in_vain();
    assert_eq!(monitor.step(false, true), MonitorStep::AwaitTick);
    assert_eq!(monitor.tick(Duration::from_secs(0)), Turn::LookUp(0));
    let Found::Start { number, recovered } = monitor.looked_up(0, None, run, clock(0)) else {
        panic!("a round starts");
    };
    assert_eq!(number, 0);
    assert!(recovered.is_none());
    assert_eq!(monitor.tick(Duration::from_secs(1)), Turn::Skipped);
    assert_eq!(monitor.rounds.stats.skipped_ticks, 1);
    monitor.complete_round(&report(1, 0), loss);
    assert!(monitor.interfaces[0].latest_success);
    assert_eq!(monitor.tick(Duration::from_secs(2)), Turn::LookUp(1));
    let Found::Missing { event } =
        monitor.looked_up(1, Some("network interface is not up: b".into()), run, clock(2))
    else {
        panic!("the interface is missing");
    };
    assert_eq!(
        event.message.as_deref(),
        Some("decision=interface_retry error=network interface is not up: b")
    );
    assert_eq!(event.scheduler_not_before_utc, utc(3));
    assert_eq!(monitor.rounds.stats.interface_failures, 1);
    assert_eq!(monitor.tick(Duration::from_secs(2)), Turn::LookUp(0));
    assert_eq!(monitor.tick(Duration::from_secs(2)), Turn::LeftAlone);
    assert_eq!(monitor.tick(Duration::from_secs(3)), Turn::LookUp(0));
    assert_eq!(monitor.tick(Duration::from_secs(3)), Turn::LookUp(1));
    let Found::Start { recovered, .. } = monitor.looked_up(1, None, run, clock(3)) else {
        panic!("a round starts");
    };
    let event = recovered.unwrap();
    assert_eq!(event.message.as_deref(), Some("decision=interface_recovered"));
    assert_eq!(event.outcome, Outcome::Success);
    monitor.complete_round(&report(0, 2), loss);
    assert!(monitor.interfaces[1].degraded);
    assert!(!monitor.interfaces[1].latest_success);
    let answers = monitor.latest_success();
    assert_eq!(answers.get("a"), Some(&true));
    assert_eq!(answers.get("b"), Some(&false));
    let selection = monitor.select(run, &None, &Fixture::new(&["a"]), clock(4));
    assert_eq!(selection.selected.as_deref(), Some("a"));
    monitor.tested("a");
    assert_eq!(monitor.fairness.attempts("a"), 1);
    assert_eq!(monitor.rounds.stats.bandwidth_attempts, 1);
    let selection = monitor.select(run, &None, &Fixture::new(&[]), clock(4));
    assert_eq!(selection.selected, None);
    assert_eq!(monitor.rounds.stats.interface_failures, 2);
}

fn due(interface: Option<&str>) -> SchedulerAction {
    SchedulerAction {
        opportunity: Some(BandwidthOpportunity {
            reason: TriggerReason::Scheduled,
            scheduled_at_utc: Timestamp { nanos: 0 },
            interface: interface.map(str::to_owned),
        }),
        events: vec![probe(Outcome::Success)],
    }
}

#[test]
fn a_due_test_is_assigned_to_an_interface_or_over_at_once() {
    let run = RunId { value: 1 };
    let mut monitor = InterfaceMonitor::new(&names(&["a", "b"]), health());
    let told = probe(Outcome::Deferred);
    let idle = SchedulerAction { opportunity: None, events: vec![told.clone()] };
    let Asked::InVain { events } = monitor.take_up(idle, run, &Fixture::new(&["a"]), clock(0))
    else {
        panic!("nothing is due");
    };
    assert_eq!(events, vec![told]);
    assert_eq!(monitor.step(false, true), MonitorStep::AwaitTick);
    assert_eq!(monitor.tick(Duration::from_secs(0)), Turn::LookUp(0));
    let Asked::Test { opportunity, interface, events, found, lookups } =
        monitor.take_up(due(Some("b")), run, &Fixture::new(&["b"]), clock(1))
    else {
        panic!("the test is run");
    };
    assert_eq!(opportunity.interface.as_deref(), Some("b"));
    assert_eq!(interface, "b");
    assert_eq!(events[0].interface.as_deref(), Some("b"));
    assert!(found.is_empty());
    assert_eq!(lookups.len(), 1);
    assert_eq!(monitor.step(false, true), MonitorStep::PollScheduler);
    let Asked::Unassigned { events, report, lookups, .. } =
        monitor.take_up(due(Some("b")), run, &Fixture::new(&[]), clock(2))
    else {
        panic!("no interface is there");
    };
    assert_eq!(events[0].interface, None);
    assert_eq!(report.outcome, Outcome::Error);
    assert!(!report.reserved);
    assert_eq!(report.events.len(), 1);
    assert_eq!(lookups.len(), 1);
    assert_eq!(monitor.rounds.stats.interface_failures, 1);
    assert!(!monitor.interfaces[1].available);
}

#[test]
fn events_without_an_interface_are_given_one() {
    let mut events = vec![probe(Outcome::Success), probe(Outcome::Success)];
    events[0].interface = Some("eth1".into());
    assign_interface(&mut events, &"eth0".to_owned());
    assert_eq!(events[0].interface.as_deref(), Some("eth1"));
    assert_eq!(events[1].interface.as_deref(), Some("eth0"));
    let report = unassigned_report(events);
    assert_eq!(report.outcome, Outcome::Error);
    assert!(!report.reserved);
    assert_eq!(report.events.len(), 2);
}
