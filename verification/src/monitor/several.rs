//! The monitor of several interfaces: one round at a time, the interfaces in turn.
use super::interface::{
    Clock, InterfaceRuntime, Lookup, Selection, RETRY_LATER, after_lookups, all_resolved,
    failed_lookups,
    interface_event, note_lost, select_bandwidth_interface, selects_asked, selects_by_turn,
    tells_interface, tells_lost,
};
use super::{
    MonitorStats, MonitorStep, Rounds, next_step, no_stats, step_after, takes_round,
    unassigned_report,
};
use crate::bandwidth::BandwidthReport;
use crate::health::{HealthConfig, HealthDecision, HealthWindow, samples_of};
use crate::interfaces::{FairInterfaceSelector, InterfaceResolver, all_rested, gives_turn};
use crate::model::{MeasurementEvent, Outcome, RunId};
use crate::ping::PingRoundReport;
use crate::scalar::Scalar;
use crate::scheduler::{BandwidthOpportunity, SchedulerAction};
use crate::string_map::{StringMap, stored};
use crate::time::Duration;
use vstd::prelude::*;

verus! {

/// A monitor of several interfaces.
pub struct InterfaceMonitor {
    pub interfaces: Vec<InterfaceRuntime>,
    pub fairness: FairInterfaceSelector,
    pub rounds: Rounds,
    /// The interface of the round that is on.
    pub active: usize,
    /// The interface whose turn is next.
    pub next_interface: usize,
    pub polled: bool,
}

/// What a tick brings.
#[derive(Clone, Copy, Debug, PartialEq, Eq, Structural)]
pub enum Turn {
    /// The round before is still on.
    Skipped,
    /// The interface whose turn it is is left alone.
    LeftAlone,
    /// The interface whose turn it is is to be looked up.
    LookUp(usize),
}

/// What a lookup brings.
pub enum Found {
    /// A round starts. The event tells that the interface had been missing.
    Start { number: u64, recovered: Option<MeasurementEvent> },
    /// The interface is missing.
    Missing { event: MeasurementEvent },
}

/// What came of asking the scheduler.
pub enum Asked {
    /// There is no test to run.
    InVain { events: Vec<MeasurementEvent> },
    /// A test is to be run on an interface. What the scheduler said is published first, and
    /// what was found about the interfaces after it.
    Test {
        opportunity: BandwidthOpportunity,
        interface: String,
        events: Vec<MeasurementEvent>,
        found: Vec<MeasurementEvent>,
        lookups: Vec<Lookup>,
    },
    /// A test is to be run and no interface can be used: it is over with this report.
    Unassigned {
        opportunity: BandwidthOpportunity,
        events: Vec<MeasurementEvent>,
        report: BandwidthReport,
        lookups: Vec<Lookup>,
    },
}

/// The selection is the one that a test calls for: the interface that it asks for, or else the
/// one whose turn it is.
pub open spec fn selects(
    selection: Selection,
    monitor: InterfaceMonitor,
    asked: Option<String>,
    run_id: RunId,
    clock: Clock,
) -> bool {
    match asked {
        Some(name) => selects_asked(selection, monitor.interfaces@, run_id, clock, name@),
        None => selects_by_turn(
            selection,
            monitor.interfaces@,
            monitor.fairness,
            run_id,
            clock,
        ),
    }
}

/// The monitor after interfaces were looked up: those that were missing are counted and left
/// alone for a while.
pub open spec fn has_looked_up(
    before: InterfaceMonitor,
    after: InterfaceMonitor,
    lookups: Seq<Lookup>,
    clock: Clock,
) -> bool {
    &&& after.interfaces@ == after_lookups(before.interfaces@, lookups, clock.running)
    &&& after.fairness == before.fairness
    &&& after.rounds == (Rounds {
        stats: with_failures(before.rounds.stats, failed_lookups(lookups) as u64),
        ..before.rounds
    })
    &&& after.active == before.active
    &&& after.next_interface == before.next_interface
    &&& after.polled == before.polled
}

/// Which interfaces answered in their last round.
pub open spec fn answering(runtimes: Seq<InterfaceRuntime>) -> Seq<(Seq<char>, bool)>
    decreases runtimes.len(),
{
    if runtimes.len() == 0 {
        Seq::empty()
    } else {
        stored(
            answering(runtimes.drop_last()),
            runtimes.last().name@,
            runtimes.last().latest_success,
        )
    }
}

/// The statistics with more lookups that failed.
pub open spec fn with_failures(stats: MonitorStats, failures: u64) -> MonitorStats {
    MonitorStats {
        interface_failures: stats.interface_failures.wrapping_add(failures),
        ..stats
    }
}

fn count_failed(lookups: &Vec<Lookup>) -> (count: u64)
    ensures
        count == failed_lookups(lookups@),
{
    let mut count: u64 = 0;
    let mut i: usize = 0;
    while i < lookups.len()
        invariant
            i <= lookups@.len(),
            count == failed_lookups(lookups@.take(i as int)),
            count <= i,
        decreases lookups@.len() - i,
    {
        proof {
            assert(lookups@.take(i + 1).drop_last() == lookups@.take(i as int));
        }
        if lookups[i].error.is_some() {
            count += 1;
        }
        i += 1;
    }
    proof {
        assert(lookups@.take(lookups@.len() as int) == lookups@);
    }
    count
}

/// The monitor after a tick, and whose turn it brought.
pub open spec fn has_ticked(
    before: InterfaceMonitor,
    now: Duration,
    turn: Turn,
    after: InterfaceMonitor,
) -> bool {
    &&& after.well_formed()
    &&& after.interfaces == before.interfaces
    &&& after.fairness == before.fairness
    &&& after.active == before.active
    &&& !after.polled
    &&& before.rounds.active ==> {
        &&& turn == Turn::Skipped
        &&& after.rounds == before.rounds.skipped()
        &&& after.next_interface == before.next_interface
    }
    &&& !before.rounds.active ==> {
        &&& turn == (if before.interfaces@[before.next_interface as int].may_resolve(now) {
            Turn::LookUp(before.next_interface)
        } else {
            Turn::LeftAlone
        })
        &&& after.rounds == before.rounds
        &&& after.next_interface == (before.next_interface + 1) % (before.interfaces@.len() as int)
    }
}

/// The monitor after the interface whose turn it was was looked up, and what that brought.
pub open spec fn has_found(
    before: InterfaceMonitor,
    index: usize,
    error: Option<String>,
    run_id: RunId,
    clock: Clock,
    found: Found,
    after: InterfaceMonitor,
) -> bool {
    &&& after.well_formed()
    &&& after.fairness == before.fairness
    &&& after.next_interface == before.next_interface
    &&& after.polled == before.polled
    &&& ({
        let runtime = before.interfaces@[index as int];
        match (error, found) {
            (None, Found::Start { number, recovered }) => {
                &&& number == before.rounds.next_round
                &&& after.rounds == before.rounds.started()
                &&& after.active == index
                &&& after.interfaces@ == before.interfaces@.update(
                    index as int,
                    runtime.found(),
                )
                &&& recovered is Some <==> !runtime.available
                &&& recovered is Some ==> tells_interface(
                    recovered->0,
                    run_id,
                    clock.utc,
                    runtime.name@,
                    Outcome::Success,
                    None,
                    None,
                    "decision=interface_recovered"@,
                )
            },
            (Some(error), Found::Missing { event }) => {
                &&& after.rounds == (Rounds {
                    stats: with_failures(before.rounds.stats, 1),
                    ..before.rounds
                })
                &&& after.active == before.active
                &&& after.interfaces@ == before.interfaces@.update(
                    index as int,
                    runtime.lost(clock.running),
                )
                &&& tells_lost(event, run_id, clock, runtime, RETRY_LATER@, error@)
            },
            _ => false,
        }
    })
}

/// The monitor after a round of the interface that was probed, and what is judged of it.
pub open spec fn has_probed<F: Fn(usize, usize) -> Scalar>(
    before: InterfaceMonitor,
    report: PingRoundReport,
    loss_pct: F,
    decision: HealthDecision,
    after: InterfaceMonitor,
) -> bool {
    &&& after.well_formed()
    &&& after.fairness == before.fairness
    &&& after.next_interface == before.next_interface
    &&& after.active == before.active
    &&& !after.polled
    &&& after.rounds == before.rounds.ended(report)
    &&& ({
        let at = before.active as int;
        let held = before.interfaces@[at];
        let left = after.interfaces@[at];
        &&& after.interfaces@ == before.interfaces@.update(at, left)
        &&& left == (InterfaceRuntime {
            health: left.health,
            latest_success: report.successful_targets > 0,
            degraded: decision is Degraded,
            ..held
        })
        &&& exists|losses: (Scalar, Scalar)|
            #[trigger] HealthWindow::observes(
                held.health,
                left.health,
                samples_of(report.events@),
                loss_pct,
                decision,
                losses,
            )
    })
}

/// The monitor after it took in what the scheduler had, and what is to be done about it.
pub open spec fn has_taken_up<R: InterfaceResolver>(
    before: InterfaceMonitor,
    action: SchedulerAction,
    run_id: RunId,
    resolver: &R,
    clock: Clock,
    asked: Asked,
    after: InterfaceMonitor,
) -> bool {
    match (action.opportunity, asked) {
        (None, Asked::InVain { events }) => {
            &&& events == action.events
            &&& after == (InterfaceMonitor { polled: true, ..before })
        },
        (
            Some(due),
            Asked::Test { opportunity, interface, events, found, lookups },
        ) => {
            &&& opportunity == due
            &&& selects(
                (Selection { selected: Some(interface), events: found, lookups }),
                before,
                due.interface,
                run_id,
                clock,
            )
            &&& events@ == action.events@.map_values(
                |e: MeasurementEvent| assigned(e, interface),
            )
            &&& all_resolved(resolver, lookups@)
            &&& has_looked_up(before, after, lookups@, clock)
        },
        (Some(due), Asked::Unassigned { opportunity, events, report, lookups }) => {
            &&& opportunity == due
            &&& selects(
                (Selection { selected: None, events: report.events, lookups }),
                before,
                due.interface,
                run_id,
                clock,
            )
            &&& events == action.events
            &&& report.outcome == Outcome::Error
            &&& !report.reserved
            &&& report.reservation_error is None
            &&& all_resolved(resolver, lookups@)
            &&& has_looked_up(before, after, lookups@, clock)
        },
        _ => false,
    }
}

/// The monitor after a bandwidth test was run on an interface.
pub open spec fn has_tested(
    before: InterfaceMonitor,
    interface: Seq<char>,
    after: InterfaceMonitor,
) -> bool {
    &&& after.interfaces == before.interfaces
    &&& after.active == before.active
    &&& after.next_interface == before.next_interface
    &&& !after.polled
    &&& after.rounds == (Rounds {
        stats: MonitorStats {
            bandwidth_attempts: before.rounds.stats.bandwidth_attempts.wrapping_add(1),
            ..before.rounds.stats
        },
        ..before.rounds
    })
    &&& gives_turn(before.fairness, interface, after.fairness)
}

impl InterfaceMonitor {
    /// The turns point to interfaces.
    pub open spec fn well_formed(&self) -> bool {
        &&& self.next_interface < self.interfaces@.len()
        &&& self.active < self.interfaces@.len()
    }

    pub fn new(names: &Vec<String>, health: HealthConfig) -> (monitor: Self)
        ensures
            monitor.interfaces@.len() == names@.len(),
            forall|i: int|
                0 <= i < names@.len() ==> {
                    let runtime = #[trigger] monitor.interfaces@[i];
                    &&& runtime.name == names@[i]
                    &&& runtime.health.config == health
                    &&& runtime.health.rounds@.len() == 0
                    &&& runtime.health.condition.degraded is None
                    &&& !runtime.latest_success
                    &&& !runtime.degraded
                    &&& runtime.available
                    &&& runtime.retry_at is None
                    &&& runtime.backoff_step == 0
                },
            monitor.fairness.order() == names@,
            monitor.fairness.state() == all_rested(names@),
            monitor.rounds == (Rounds { stats: no_stats(), next_round: 0, active: false }),
            monitor.next_interface == 0,
            monitor.active == 0,
            !monitor.polled,
            names@.len() > 0 ==> monitor.well_formed(),
    {
        let mut interfaces: Vec<InterfaceRuntime> = Vec::new();
        let mut i: usize = 0;
        while i < names.len()
            invariant
                i <= names@.len(),
                interfaces@.len() == i,
                forall|k: int|
                    0 <= k < i ==> {
                        let runtime = #[trigger] interfaces@[k];
                        &&& runtime.name == names@[k]
                        &&& runtime.health.config == health
                        &&& runtime.health.rounds@.len() == 0
                        &&& runtime.health.condition.degraded is None
                        &&& !runtime.latest_success
                        &&& !runtime.degraded
                        &&& runtime.available
                        &&& runtime.retry_at is None
                        &&& runtime.backoff_step == 0
                    },
            decreases names@.len() - i,
        {
            interfaces.push(InterfaceRuntime::new(names[i].clone(), health));
            i += 1;
        }
        InterfaceMonitor {
            interfaces,
            fairness: FairInterfaceSelector::new(names),
            rounds: Rounds::new(),
            active: 0,
            next_interface: 0,
            polled: false,
        }
    }

    /// What to do next.
    pub fn step(&self, stop: bool, scheduled: bool) -> (step: MonitorStep)
        ensures
            step == step_after(stop, self.rounds.active, scheduled && !self.polled),
    {
        next_step(stop, self.rounds.active, scheduled && !self.polled)
    }

    /// Which interfaces answered in their last round.
    pub fn latest_success(&self) -> (answers: StringMap<bool>)
        ensures
            answers.entries() == answering(self.interfaces@),
    {
        let mut answers: StringMap<bool> = StringMap::new();
        let mut i: usize = 0;
        while i < self.interfaces.len()
            invariant
                i <= self.interfaces@.len(),
                answers.entries() == answering(self.interfaces@.take(i as int)),
            decreases self.interfaces@.len() - i,
        {
            proof {
                assert(self.interfaces@.take(i + 1).drop_last() == self.interfaces@.take(
                    i as int,
                ));
            }
            answers.put(self.interfaces[i].name.clone(), self.interfaces[i].latest_success);
            i += 1;
        }
        proof {
            assert(self.interfaces@.take(self.interfaces@.len() as int) == self.interfaces@);
        }
        answers
    }

    /// Takes in a tick. While a round is on it is skipped; else the turn passes to the next
    /// interface, and the one whose turn it is is to be looked up unless it is left alone.
    pub fn tick(&mut self, now: Duration) -> (turn: Turn)
        requires
            old(self).well_formed(),
        ensures
            has_ticked(*old(self), now, turn, *final(self)),
    {
        self.polled = false;
        if self.rounds.active {
            let _ = self.rounds.tick();
            return Turn::Skipped;
        }
        let index: usize = self.next_interface;
        let count: usize = self.interfaces.len();
        self.next_interface = (index + 1) % count;
        if self.interfaces[index].can_resolve(now) {
            Turn::LookUp(index)
        } else {
            Turn::LeftAlone
        }
    }

    /// Takes in what came of looking up the interface whose turn it was. Where it was found a
    /// round starts; where it was not, it is left alone for a while.
    pub fn looked_up(
        &mut self,
        index: usize,
        error: Option<String>,
        run_id: RunId,
        clock: Clock,
    ) -> (found: Found)
        requires
            old(self).well_formed(),
            index < old(self).interfaces@.len(),
            !old(self).rounds.active,
            clock.sound(),
        ensures
            has_found(*old(self), index, error, run_id, clock, found, *final(self)),
    {
        let runtime = &mut self.interfaces[index];
        match error {
            None => {
                let recovered = if runtime.mark_available() {
                    Some(
                        interface_event(
                            run_id,
                            clock.utc,
                            &runtime.name,
                            Outcome::Success,
                            None,
                            None,
                            "decision=interface_recovered".to_owned(),
                        ),
                    )
                } else {
                    None
                };
                let number: u64 = self.rounds.next_round;
                let _ = self.rounds.tick();
                self.active = index;
                Found::Start { number, recovered }
            },
            Some(error) => {
                let event = note_lost(runtime, run_id, clock, RETRY_LATER, &error);
                self.rounds.stats.interface_failures =
                self.rounds.stats.interface_failures.wrapping_add(1);
                Found::Missing { event }
            },
        }
    }

    /// Takes in a round of the interface that was probed: its probes are counted and judged.
    pub fn complete_round<F: Fn(usize, usize) -> Scalar>(
        &mut self,
        report: &PingRoundReport,
        loss_pct: F,
    ) -> (decision: HealthDecision)
        requires
            old(self).well_formed(),
            takes_round(old(self).interfaces@[old(self).active as int].health, *report),
            forall|attempted: usize, successful: usize|
                #[trigger] call_requires(loss_pct, (attempted, successful)),
        ensures
            has_probed(*old(self), *report, loss_pct, decision, *final(self)),
    {
        self.rounds.finish(report);
        self.polled = false;
        let runtime = &mut self.interfaces[self.active];
        let decision = runtime.health.observe_events(&report.events, loss_pct);
        runtime.latest_success = report.successful_targets > 0;
        runtime.degraded = match decision {
            HealthDecision::Degraded { .. } => true,
            _ => false,
        };
        decision
    }

    /// Finds the interface that a bandwidth test uses.
    pub fn select<R: InterfaceResolver>(
        &mut self,
        run_id: RunId,
        asked: &Option<String>,
        resolver: &R,
        clock: Clock,
    ) -> (selection: Selection)
        requires
            clock.sound(),
        ensures
            selects(selection, *old(self), *asked, run_id, clock),
            all_resolved(resolver, selection.lookups@),
            has_looked_up(*old(self), *final(self), selection.lookups@, clock),
    {
        let selection = select_bandwidth_interface(
            run_id,
            asked,
            &mut self.interfaces,
            resolver,
            &self.fairness,
            clock,
        );
        let failed: u64 = count_failed(&selection.lookups);
        self.rounds.stats.interface_failures = self.rounds.stats.interface_failures.wrapping_add(
            failed,
        );
        selection
    }

    /// Takes in what the scheduler had: a test is assigned to an interface, or is over at once
    /// where no interface can be used.
    pub fn take_up<R: InterfaceResolver>(
        &mut self,
        action: SchedulerAction,
        run_id: RunId,
        resolver: &R,
        clock: Clock,
    ) -> (asked: Asked)
        requires
            clock.sound(),
        ensures
            has_taken_up(*old(self), action, run_id, resolver, clock, asked, *final(self)),
    {
        let mut events = action.events;
        let Some(opportunity) = action.opportunity else {
            self.asked_in_vain();
            return Asked::InVain { events };
        };
        let selection = self.select(run_id, &opportunity.interface, resolver, clock);
        let lookups = selection.lookups;
        match selection.selected {
            Some(interface) => {
                assign_interface(&mut events, &interface);
                Asked::Test { opportunity, interface, events, found: selection.events, lookups }
            },
            None => {
                let report = unassigned_report(selection.events);
                Asked::Unassigned { opportunity, events, report, lookups }
            },
        }
    }

    /// Takes in that the scheduler was asked and had no test to run.
    pub fn asked_in_vain(&mut self)
        ensures
            *final(self) == (InterfaceMonitor { polled: true, ..*old(self) }),
    {
        self.polled = true;
    }

    /// Takes in that a bandwidth test was run on an interface: it had its turn.
    pub fn tested(&mut self, interface: &str)
        ensures
            has_tested(*old(self), interface@, *final(self)),
    {
        self.polled = false;
        self.fairness.record_attempt(interface);
        self.rounds.stats.bandwidth_attempts = self.rounds.stats.bandwidth_attempts.wrapping_add(1);
    }
}

/// The interface that events speak of.
pub open spec fn assigned(event: MeasurementEvent, interface: String) -> MeasurementEvent {
    if event.interface is None {
        MeasurementEvent { interface: Some(interface), ..event }
    } else {
        event
    }
}

/// Names the interface in the events that name none.
pub fn assign_interface(events: &mut Vec<MeasurementEvent>, interface: &String)
    ensures
        final(events)@ == old(events)@.map_values(|e: MeasurementEvent| assigned(e, *interface)),
{
    let ghost before = events@;
    let count: usize = events.len();
    let mut i: usize = 0;
    while i < count
        invariant
            count == before.len(),
            events@.len() == count,
            i <= count,
            forall|k: int| 0 <= k < i ==> #[trigger] events@[k] == assigned(before[k], *interface),
            forall|k: int| i <= k < count ==> #[trigger] events@[k] == before[k],
        decreases count - i,
    {
        if events[i].interface.is_none() {
            let event = &mut events[i];
            event.interface = Some(interface.clone());
        }
        i += 1;
    }
    proof {
        assert(events@ == before.map_values(|e: MeasurementEvent| assigned(e, *interface)));
    }
}

/// Every interface has its turn: in as many ticks as there are interfaces, each of them has been
/// the next one.
pub proof fn law_turns_go_round(count: int, at: int, wanted: int)
    requires
        0 <= at < count,
        0 <= wanted < count,
    ensures
        exists|ticks: int| 0 <= ticks < count && #[trigger] turn_after(at, ticks, count) == wanted,
{
    let ticks = if wanted >= at {
        wanted - at
    } else {
        wanted - at + count
    };
    lemma_turn_after(at, ticks, count);
    assert(turn_after(at, ticks, count) == wanted);
}

/// The interface that is next after some ticks.
pub open spec fn turn_after(at: int, ticks: int, count: int) -> int
    decreases ticks,
{
    if ticks <= 0 {
        at
    } else {
        (turn_after(at, ticks - 1, count) + 1) % count
    }
}

proof fn lemma_turn_after(at: int, ticks: int, count: int)
    requires
        0 <= at < count,
        0 <= ticks < count,
    ensures
        turn_after(at, ticks, count) == if at + ticks < count {
            at + ticks
        } else {
            at + ticks - count
        },
    decreases ticks,
{
    if ticks > 0 {
        lemma_turn_after(at, ticks - 1, count);
        let before = turn_after(at, ticks - 1, count);
        if before + 1 < count {
            vstd::arithmetic::div_mod::lemma_small_mod((before + 1) as nat, count as nat);
        } else {
            vstd::arithmetic::div_mod::lemma_mod_self_0(count);
        }
    }
}

} // verus!
