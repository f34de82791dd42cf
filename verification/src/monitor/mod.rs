//! The monitoring loop: when a round of probes starts, when the scheduler is asked, and what is
//! counted.
pub mod interface;
pub mod interface_laws;
pub mod round_laws;
pub mod several;

use crate::bandwidth::BandwidthReport;
use crate::config::Address;
use crate::console::ConsoleStats;
use crate::health::{
    HealthConfig, HealthDecision, HealthWindow, all_samples, last_rounds, round_views, samples_of,
};
use crate::journal::JournalError;
use crate::model::{LoadPhase, MeasurementEvent, Outcome, RunId};
use crate::ping::{PingRoundError, PingRoundReport, PingRoundRequest};
use crate::scalar::Scalar;
use crate::scheduler::rules::{accounted, all_report, finished, used_today};
use crate::scheduler::{BandwidthOpportunity, Scheduler, SchedulerError};
use crate::time::{Duration, Timestamp};
use vstd::prelude::*;
use vstd::string::StringExecFns;

verus! {

/// What is monitored, and how.
pub struct PingMonitorConfig {
    pub run_id: RunId,
    pub targets: Vec<Address>,
    pub interval: Duration,
    pub timeout: Duration,
    pub identifier: u16,
    pub health: HealthConfig,
}

/// What was counted since the monitor started.
#[derive(Clone, Copy, Debug, PartialEq, Eq, Structural)]
pub struct MonitorStats {
    pub rounds_started: u64,
    pub rounds_completed: u64,
    pub skipped_ticks: u64,
    pub successful_probes: u64,
    pub failed_probes: u64,
    pub bandwidth_attempts: u64,
    pub interface_failures: u64,
}

/// A monitor that was run until it was stopped.
pub struct PingMonitorExecution {
    pub output_path: String,
    pub monitor_stats: MonitorStats,
    pub console_stats: ConsoleStats,
}

/// Why a monitor could not go on.
pub enum MonitorError {
    Journal(JournalError),
    Round(PingRoundError),
    Task(String),
    Scheduler(SchedulerError),
}

impl MonitorError {
    pub open spec fn text(self) -> Seq<char> {
        match self {
            MonitorError::Journal(error) => error.text(),
            MonitorError::Round(error) => error.text(),
            MonitorError::Task(reason) => "ping scheduler task failed: "@ + reason@,
            MonitorError::Scheduler(error) => error.text(),
        }
    }

    /// The error in words.
    pub fn message(&self) -> (text: String)
        ensures
            text@ == self.text(),
    {
        match self {
            MonitorError::Journal(error) => error.message(),
            MonitorError::Round(error) => error.message(),
            MonitorError::Task(reason) => {
                "ping scheduler task failed: ".to_owned().concat(reason)
            },
            MonitorError::Scheduler(error) => error.message(),
        }
    }
}

/// Nothing counted yet.
pub open spec fn no_stats() -> MonitorStats {
    MonitorStats {
        rounds_started: 0,
        rounds_completed: 0,
        skipped_ticks: 0,
        successful_probes: 0,
        failed_probes: 0,
        bandwidth_attempts: 0,
        interface_failures: 0,
    }
}

impl Default for MonitorStats {
    fn default() -> (stats: Self)
        ensures
            stats == no_stats(),
    {
        MonitorStats {
            rounds_started: 0,
            rounds_completed: 0,
            skipped_ticks: 0,
            successful_probes: 0,
            failed_probes: 0,
            bandwidth_attempts: 0,
            interface_failures: 0,
        }
    }
}

/// The statistics once a round is over.
pub open spec fn counted_round(stats: MonitorStats, report: PingRoundReport) -> MonitorStats {
    MonitorStats {
        rounds_completed: stats.rounds_completed.wrapping_add(1),
        successful_probes: stats.successful_probes.wrapping_add(report.successful_targets as u64),
        failed_probes: stats.failed_probes.wrapping_add(report.failed_targets as u64),
        ..stats
    }
}

fn count_round(stats: &mut MonitorStats, report: &PingRoundReport)
    ensures
        *final(stats) == counted_round(*old(stats), *report),
{
    stats.rounds_completed = stats.rounds_completed.wrapping_add(1);
    stats.successful_probes = stats.successful_probes.wrapping_add(
        report.successful_targets as u64,
    );
    stats.failed_probes = stats.failed_probes.wrapping_add(report.failed_targets as u64);
}

/// The round that a monitor asks: its number, and the bandwidth test that runs beside it.
pub open spec fn monitor_round(
    request: PingRoundRequest,
    config: PingMonitorConfig,
    round_number: u64,
    load: Option<(LoadPhase, RunId)>,
    now: Timestamp,
) -> bool {
    &&& request.run_id == config.run_id
    &&& request.round_number == round_number
    &&& request.targets@ == config.targets@
    &&& request.timeout == config.timeout
    &&& request.scheduled_at_utc == now
    &&& request.identifier == config.identifier
    &&& request.load_phase == (match load {
        Some((phase, _)) => Some(phase),
        None => None,
    })
    &&& request.load_run_id == (match load {
        Some((_, run_id)) => Some(run_id),
        None => None,
    })
}

fn clone_targets(targets: &Vec<Address>) -> (copy: Vec<Address>)
    ensures
        copy@ == targets@,
{
    let mut copy: Vec<Address> = Vec::new();
    let mut i: usize = 0;
    while i < targets.len()
        invariant
            i <= targets@.len(),
            copy@ == targets@.take(i as int),
        decreases targets@.len() - i,
    {
        copy.push(targets[i].clone());
        i += 1;
        proof {
            assert(targets@.take(i as int) == targets@.take(i - 1).push(targets@[i - 1]));
        }
    }
    proof {
        assert(targets@.take(targets@.len() as int) == targets@);
    }
    copy
}

/// The round that a monitor asks.
pub fn round_request(
    config: &PingMonitorConfig,
    round_number: u64,
    load: Option<(LoadPhase, RunId)>,
    now: Timestamp,
) -> (request: PingRoundRequest)
    ensures
        monitor_round(request, *config, round_number, load, now),
{
    let (load_phase, load_run_id) = match load {
        Some((phase, run_id)) => (Some(phase), Some(run_id)),
        None => (None, None),
    };
    PingRoundRequest {
        run_id: config.run_id,
        round_number,
        targets: clone_targets(&config.targets),
        timeout: config.timeout,
        scheduled_at_utc: now,
        identifier: config.identifier,
        load_phase,
        load_run_id,
    }
}

/// What a tick of the interval brings.
#[derive(Clone, Copy, Debug, PartialEq, Eq, Structural)]
pub enum Tick {
    /// The round with this number starts.
    Start(u64),
    /// The round before is still on: no round starts.
    Skipped,
}

/// The rounds of a monitor: at most one is on at a time.
#[derive(Clone, Copy, Debug, PartialEq, Eq, Structural)]
pub struct Rounds {
    pub stats: MonitorStats,
    pub next_round: u64,
    pub active: bool,
}

impl Rounds {
    pub fn new() -> (rounds: Self)
        ensures
            rounds == (Rounds { stats: no_stats(), next_round: 0, active: false }),
    {
        Rounds { stats: MonitorStats::default(), next_round: 0, active: false }
    }

    /// The rounds after one has started.
    pub open spec fn started(self) -> Rounds {
        Rounds {
            stats: MonitorStats {
                rounds_started: self.stats.rounds_started.wrapping_add(1),
                ..self.stats
            },
            next_round: self.next_round.wrapping_add(1),
            active: true,
        }
    }

    /// The rounds after a tick while one was on.
    pub open spec fn skipped(self) -> Rounds {
        Rounds {
            stats: MonitorStats {
                skipped_ticks: self.stats.skipped_ticks.wrapping_add(1),
                ..self.stats
            },
            ..self
        }
    }

    /// The rounds after the one that was on is over.
    pub open spec fn ended(self, report: PingRoundReport) -> Rounds {
        Rounds { stats: counted_round(self.stats, report), active: false, ..self }
    }

    /// Takes in a tick: a round starts unless one is still on.
    pub fn tick(&mut self) -> (tick: Tick)
        ensures
            old(self).active ==> tick == Tick::Skipped && *final(self) == old(self).skipped(),
            !old(self).active ==> tick == Tick::Start(old(self).next_round) && *final(self)
                == old(self).started(),
    {
        if self.active {
            self.stats.skipped_ticks = self.stats.skipped_ticks.wrapping_add(1);
            Tick::Skipped
        } else {
            let number: u64 = self.next_round;
            self.stats.rounds_started = self.stats.rounds_started.wrapping_add(1);
            self.next_round = self.next_round.wrapping_add(1);
            self.active = true;
            Tick::Start(number)
        }
    }

    /// Takes in the end of a round.
    pub fn finish(&mut self, report: &PingRoundReport)
        ensures
            *final(self) == old(self).ended(*report),
    {
        count_round(&mut self.stats, report);
        self.active = false;
    }
}

/// What the monitor does next.
#[derive(Clone, Copy, Debug, PartialEq, Eq, Structural)]
pub enum MonitorStep {
    /// Wait for the round that is on, for a tick, or for the wish to stop.
    AwaitRound,
    /// Wait for the round that is on, and end.
    LastRound,
    /// Ask the scheduler whether a bandwidth test is due.
    PollScheduler,
    /// Wait for a tick or for the wish to stop.
    AwaitTick,
    End,
}

/// A monitor of one connection.
pub struct MonitorLoop {
    pub adaptive: bool,
    pub rounds: Rounds,
    pub latest_round_has_success: bool,
    pub polled: bool,
    pub health: HealthWindow,
}

/// The step that follows: a round that is on is never cut short, and the scheduler is asked
/// between rounds only.
pub open spec fn step_after(stop: bool, active: bool, asks: bool) -> MonitorStep {
    if stop {
        if active {
            MonitorStep::LastRound
        } else {
            MonitorStep::End
        }
    } else if active {
        MonitorStep::AwaitRound
    } else if asks {
        MonitorStep::PollScheduler
    } else {
        MonitorStep::AwaitTick
    }
}

pub fn next_step(stop: bool, active: bool, asks: bool) -> (step: MonitorStep)
    ensures
        step == step_after(stop, active, asks),
{
    if stop {
        if active {
            MonitorStep::LastRound
        } else {
            MonitorStep::End
        }
    } else if active {
        MonitorStep::AwaitRound
    } else if asks {
        MonitorStep::PollScheduler
    } else {
        MonitorStep::AwaitTick
    }
}

/// A window that can take in a round: the probes in it can be counted.
pub open spec fn takes_round(health: HealthWindow, report: PingRoundReport) -> bool {
    &&& report.events@.len() <= u32::MAX
    &&& all_samples(
        last_rounds(
            round_views(health.rounds@).push(samples_of(report.events@)),
            health.config.window_rounds as nat,
        ),
    ).len() <= u32::MAX
}

/// The monitor after a tick, and what it brought.
pub open spec fn has_ticked(
    before: MonitorLoop,
    tick: Tick,
    after: MonitorLoop,
) -> bool {
    &&& tick == (if before.rounds.active {
        Tick::Skipped
    } else {
        Tick::Start(before.rounds.next_round)
    })
    &&& after == (MonitorLoop {
        rounds: if before.rounds.active {
            before.rounds.skipped()
        } else {
            before.rounds.started()
        },
        polled: false,
        ..before
    })
}

/// The monitor after the scheduler was asked.
pub open spec fn has_asked(
    before: MonitorLoop,
    tested: bool,
    after: MonitorLoop,
) -> bool {
    after == (MonitorLoop {
        polled: !tested,
        rounds: Rounds {
            stats: MonitorStats {
                bandwidth_attempts: if tested {
                    before.rounds.stats.bandwidth_attempts.wrapping_add(1)
                } else {
                    before.rounds.stats.bandwidth_attempts
                },
                ..before.rounds.stats
            },
            ..before.rounds
        },
        ..before
    })
}

/// The monitor after a round, and what is judged of it.
pub open spec fn has_probed<F: Fn(usize, usize) -> Scalar>(
    before: MonitorLoop,
    report: PingRoundReport,
    loss_pct: F,
    decision: HealthDecision,
    after: MonitorLoop,
) -> bool {
    &&& after.adaptive == before.adaptive
    &&& after.rounds == before.rounds.ended(report)
    &&& after.latest_round_has_success == (report.successful_targets > 0)
    &&& !after.polled
    &&& exists|losses: (Scalar, Scalar)|
        #[trigger] HealthWindow::observes(
            before.health,
            after.health,
            samples_of(report.events@),
            loss_pct,
            decision,
            losses,
        )
}

impl MonitorLoop {
    pub fn new(adaptive: bool, health: HealthConfig) -> (monitor: Self)
        ensures
            monitor.adaptive == adaptive,
            monitor.rounds == (Rounds { stats: no_stats(), next_round: 0, active: false }),
            !monitor.latest_round_has_success,
            !monitor.polled,
            monitor.health.config == health,
            monitor.health.rounds@.len() == 0,
            monitor.health.condition.degraded is None,
    {
        MonitorLoop {
            adaptive,
            rounds: Rounds::new(),
            latest_round_has_success: false,
            polled: false,
            health: HealthWindow::new(health),
        }
    }

    /// What to do next.
    pub fn step(&self, stop: bool) -> (step: MonitorStep)
        ensures
            step == step_after(stop, self.rounds.active, self.adaptive && !self.polled),
    {
        next_step(stop, self.rounds.active, self.adaptive && !self.polled)
    }

    /// Takes in a tick.
    pub fn tick(&mut self) -> (tick: Tick)
        ensures
            has_ticked(*old(self), tick, *final(self)),
    {
        self.polled = false;
        self.rounds.tick()
    }

    /// Takes in that the scheduler was asked, and whether a bandwidth test was run for it.
    pub fn asked(&mut self, tested: bool)
        ensures
            has_asked(*old(self), tested, *final(self)),
    {
        self.polled = !tested;
        if tested {
            self.rounds.stats.bandwidth_attempts = self.rounds.stats.bandwidth_attempts.wrapping_add(
                1,
            );
        }
    }

    /// Takes in a round: its probes are counted and judged.
    pub fn complete_round<F: Fn(usize, usize) -> Scalar>(
        &mut self,
        report: &PingRoundReport,
        loss_pct: F,
    ) -> (decision: HealthDecision)
        requires
            takes_round(old(self).health, *report),
            forall|attempted: usize, successful: usize|
                #[trigger] call_requires(loss_pct, (attempted, successful)),
        ensures
            has_probed(*old(self), *report, loss_pct, decision, *final(self)),
    {
        self.rounds.finish(report);
        self.latest_round_has_success = report.successful_targets > 0;
        self.polled = false;
        self.health.observe_events(&report.events, loss_pct)
    }
}

/// Ends a bandwidth test: the scheduler learns what came of it, and its events join the report.
/// A test that the scheduler could not write down ends the monitor.
pub fn finish_test(
    scheduler: &mut Scheduler,
    run_id: RunId,
    now: Timestamp,
    opportunity: &BandwidthOpportunity,
    report: &mut BandwidthReport,
) -> (fatal: Option<SchedulerError>)
    requires
        now.schedulable(),
    ensures
        match old(report).reservation_error {
            Some(message) => {
                &&& fatal is Some
                &&& fatal->0 matches SchedulerError::Admission(told) && told@ == message@
                &&& *final(scheduler) == *old(scheduler)
                &&& *final(report) == *old(report)
            },
            None => {
                let step = finished(
                    old(scheduler).state@,
                    old(scheduler).policy,
                    now,
                    opportunity@,
                    old(report).events@,
                    old(report).reserved,
                );
                let before = old(report).events@.len() as int;
                &&& fatal is None
                &&& final(scheduler).policy == old(scheduler).policy
                &&& final(scheduler).others == old(scheduler).others
                &&& final(scheduler).unsaved
                &&& final(scheduler).state@ == step.state
                &&& final(report).events@.len() >= before
                &&& final(report).events@.take(before) == old(report).events@.map_values(
                    |e: MeasurementEvent|
                        accounted(e, opportunity@, used_today(step.state, now)),
                )
                &&& all_report(
                    final(report).events@.skip(before),
                    run_id,
                    now,
                    old(scheduler).policy,
                    step.notes,
                )
                &&& final(report).outcome == old(report).outcome
                &&& final(report).reserved == old(report).reserved
                &&& final(report).reservation_error is None
            },
        },
{
    match &report.reservation_error {
        Some(message) => {
            return Some(SchedulerError::Admission(message.clone()));
        },
        None => {},
    }
    let mut events = scheduler.finish_attempt(run_id, now, opportunity, report);
    let ghost told = report.events@;
    let ghost notes = events@;
    report.events.append(&mut events);
    proof {
        assert(report.events@ == told + notes);
        assert(report.events@.take(told.len() as int) == told);
        assert(report.events@.skip(told.len() as int) == notes);
    }
    None
}

/// The report of a test for which no interface was found.
pub fn unassigned_report(events: Vec<MeasurementEvent>) -> (report: BandwidthReport)
    ensures
        report.events == events,
        report.outcome == Outcome::Error,
        !report.reserved,
        report.reservation_error is None,
{
    BandwidthReport { events, outcome: Outcome::Error, reserved: false, reservation_error: None }
}

/// A round that has started is carried to its end: no tick starts another one, and where the
/// monitor is told to stop it ends only after it.
pub proof fn law_rounds_never_overlap(rounds: Rounds, report: PingRoundReport, asks: bool)
    ensures
        rounds.active ==> {
            &&& rounds.skipped().active
            &&& rounds.skipped().next_round == rounds.next_round
            &&& rounds.skipped().stats.rounds_started == rounds.stats.rounds_started
            &&& step_after(true, rounds.active, asks) == MonitorStep::LastRound
        },
        rounds.started().active,
        !rounds.ended(report).active,
{
}

/// Every round that was started is over or still on.
pub open spec fn accounts_for_rounds(rounds: Rounds) -> bool {
    rounds.stats.rounds_started == (if rounds.active {
        rounds.stats.rounds_completed.wrapping_add(1)
    } else {
        rounds.stats.rounds_completed
    })
}

/// The statistics account for every round: each one that was started has been completed, but for
/// the one that is on.
pub proof fn law_every_round_is_accounted_for(rounds: Rounds, report: PingRoundReport)
    requires
        accounts_for_rounds(rounds),
    ensures
        rounds.active ==> accounts_for_rounds(rounds.skipped()),
        !rounds.active ==> accounts_for_rounds(rounds.started()),
        rounds.active ==> accounts_for_rounds(rounds.ended(report)),
{
}

} // verus!
