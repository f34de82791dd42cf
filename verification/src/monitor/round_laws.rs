//! What rounds, lookups and tests change in a monitor, and what they leave.
use super::interface::{Clock, InterfaceRuntime, Lookup};
use super::interface_laws::{decided_at, rest_secs, rested, says, time_after, was_missed, was_seen};
use super::several::{
    Asked, Found, InterfaceMonitor, Turn, answering, has_found, has_probed, has_taken_up,
    has_tested, has_ticked,
};
use super::{
    MonitorLoop, MonitorStats, MonitorStep, PingMonitorConfig, Tick, round_request,
};
use crate::health::HealthDecision;
use crate::interfaces::InterfaceResolver;
use crate::model::{EventKind, LoadPhase, MeasurementEvent, Outcome, RunId};
use crate::ping::{PingRoundReport, PingRoundRequest};
use crate::scalar::Scalar;
use crate::scheduler::SchedulerAction;
use crate::string_map::{lemma_stored, lookup};
use crate::time::{Duration, Timestamp};
use vstd::prelude::*;

verus! {

/// Another number than this many is not lost to the largest that can be counted.
pub open spec fn countable_stats(stats: MonitorStats) -> bool {
    &&& stats.rounds_started < 0x8000_0000_0000_0000
    &&& stats.rounds_completed < 0x8000_0000_0000_0000
    &&& stats.skipped_ticks < 0x8000_0000_0000_0000
    &&& stats.successful_probes < 0x8000_0000_0000_0000
    &&& stats.failed_probes < 0x8000_0000_0000_0000
    &&& stats.bandwidth_attempts < 0x8000_0000_0000_0000
    &&& stats.interface_failures < 0x8000_0000_0000_0000
}

/// The statistics have grown by these numbers.
pub open spec fn grown(
    before: MonitorStats,
    after: MonitorStats,
    started: int,
    completed: int,
    skipped: int,
    successful: int,
    failed: int,
    tests: int,
    missing: int,
) -> bool {
    &&& after.rounds_started == before.rounds_started + started
    &&& after.rounds_completed == before.rounds_completed + completed
    &&& after.skipped_ticks == before.skipped_ticks + skipped
    &&& after.successful_probes == before.successful_probes + successful
    &&& after.failed_probes == before.failed_probes + failed
    &&& after.bandwidth_attempts == before.bandwidth_attempts + tests
    &&& after.interface_failures == before.interface_failures + missing
}

/// A tick starts the next round where none is on, and is counted as skipped where one is.
pub proof fn law_tick_starts_a_round_or_is_skipped(
    before: MonitorLoop,
    tick: Tick,
    after: MonitorLoop,
)
    requires
        super::has_ticked(before, tick, after),
        countable_stats(before.rounds.stats),
        before.rounds.next_round < u64::MAX,
    ensures
        after.rounds.active,
        !after.polled,
        after.adaptive == before.adaptive,
        after.latest_round_has_success == before.latest_round_has_success,
        after.health == before.health,
        before.rounds.active ==> {
            &&& tick == Tick::Skipped
            &&& after.rounds.next_round == before.rounds.next_round
            &&& grown(before.rounds.stats, after.rounds.stats, 0, 0, 1, 0, 0, 0, 0)
        },
        !before.rounds.active ==> {
            &&& tick == Tick::Start(before.rounds.next_round)
            &&& after.rounds.next_round == before.rounds.next_round + 1
            &&& grown(before.rounds.stats, after.rounds.stats, 1, 0, 0, 0, 0, 0, 0)
        },
{
}

/// A round that is over is counted once, with all its probes, and the scheduler may be asked
/// again.
pub proof fn law_round_is_counted_with_its_probes<F: Fn(usize, usize) -> Scalar>(
    before: MonitorLoop,
    report: PingRoundReport,
    loss_pct: F,
    decision: HealthDecision,
    after: MonitorLoop,
)
    requires
        super::has_probed(before, report, loss_pct, decision, after),
        countable_stats(before.rounds.stats),
        report.successful_targets <= u32::MAX,
        report.failed_targets <= u32::MAX,
    ensures
        !after.rounds.active,
        !after.polled,
        after.adaptive == before.adaptive,
        after.rounds.next_round == before.rounds.next_round,
        after.latest_round_has_success <==> report.successful_targets >= 1,
        grown(
            before.rounds.stats,
            after.rounds.stats,
            0,
            1,
            0,
            report.successful_targets as int,
            report.failed_targets as int,
            0,
            0,
        ),
{
}

/// A test is counted, and the scheduler is asked again after it; where there was none, it is not
/// asked again before the next tick or round.
pub proof fn law_tests_are_counted(before: MonitorLoop, tested: bool, after: MonitorLoop)
    requires
        super::has_asked(before, tested, after),
        countable_stats(before.rounds.stats),
    ensures
        after.polled != tested,
        after.rounds.active == before.rounds.active,
        after.rounds.next_round == before.rounds.next_round,
        after.adaptive == before.adaptive,
        after.latest_round_has_success == before.latest_round_has_success,
        after.health == before.health,
        tested ==> grown(before.rounds.stats, after.rounds.stats, 0, 0, 0, 0, 0, 1, 0),
        !tested ==> grown(before.rounds.stats, after.rounds.stats, 0, 0, 0, 0, 0, 0, 0),
{
}

/// The monitor ends only where it is told to and no round is on. It never asks the scheduler
/// during a round, nor twice in vain, nor where nothing adapts.
pub proof fn law_monitor_ends_between_rounds(monitor: MonitorLoop, stop: bool, step: MonitorStep)
    requires
        call_ensures(MonitorLoop::step, (&monitor, stop), step),
    ensures
        step == MonitorStep::End <==> stop && !monitor.rounds.active,
        step == MonitorStep::LastRound <==> stop && monitor.rounds.active,
        step == MonitorStep::AwaitRound <==> !stop && monitor.rounds.active,
        step == MonitorStep::PollScheduler <==> !stop && !monitor.rounds.active && monitor.adaptive
            && !monitor.polled,
        step == MonitorStep::AwaitTick <==> !stop && !monitor.rounds.active && (!monitor.adaptive
            || monitor.polled),
{
}

/// The monitor of several interfaces ends and asks in the same way.
pub proof fn law_several_end_between_rounds(
    monitor: InterfaceMonitor,
    stop: bool,
    scheduled: bool,
    step: MonitorStep,
)
    requires
        call_ensures(InterfaceMonitor::step, (&monitor, stop, scheduled), step),
    ensures
        step == MonitorStep::End <==> stop && !monitor.rounds.active,
        step == MonitorStep::LastRound <==> stop && monitor.rounds.active,
        step == MonitorStep::AwaitRound <==> !stop && monitor.rounds.active,
        step == MonitorStep::PollScheduler <==> !stop && !monitor.rounds.active && scheduled
            && !monitor.polled,
        step == MonitorStep::AwaitTick <==> !stop && !monitor.rounds.active && (!scheduled
            || monitor.polled),
{
}

/// A round asks every target of the configuration, with what runs beside it.
pub proof fn law_round_asks_what_is_configured(
    config: PingMonitorConfig,
    round_number: u64,
    load: Option<(LoadPhase, RunId)>,
    now: Timestamp,
    request: PingRoundRequest,
)
    requires
        call_ensures(round_request, (&config, round_number, load, now), request),
    ensures
        request.targets@ == config.targets@,
        request.timeout == config.timeout,
        request.run_id == config.run_id,
        request.identifier == config.identifier,
        request.round_number == round_number,
        request.scheduled_at_utc == now,
        load is None ==> request.load_phase is None && request.load_run_id is None,
        load is Some ==> request.load_phase == Some((load->0).0) && request.load_run_id == Some(
            (load->0).1,
        ),
{
}

/// Between rounds a tick passes the turn to the next interface, and behind the last to the first.
/// The one whose turn it was is looked up unless it is left alone.
pub proof fn law_turn_passes_on(
    before: InterfaceMonitor,
    now: Duration,
    turn: Turn,
    after: InterfaceMonitor,
)
    requires
        before.well_formed(),
        has_ticked(before, now, turn, after),
        countable_stats(before.rounds.stats),
    ensures
        after.interfaces == before.interfaces,
        after.fairness == before.fairness,
        after.active == before.active,
        !after.polled,
        after.rounds.active == before.rounds.active,
        after.rounds.next_round == before.rounds.next_round,
        before.rounds.active ==> {
            &&& turn == Turn::Skipped
            &&& after.next_interface == before.next_interface
            &&& grown(before.rounds.stats, after.rounds.stats, 0, 0, 1, 0, 0, 0, 0)
        },
        !before.rounds.active ==> {
            &&& before.next_interface + 1 < before.interfaces@.len() ==> after.next_interface
                == before.next_interface + 1
            &&& before.next_interface + 1 == before.interfaces@.len() ==> after.next_interface == 0
            &&& rested(before.interfaces@[before.next_interface as int], now) ==> turn
                == Turn::LookUp(before.next_interface)
            &&& !rested(before.interfaces@[before.next_interface as int], now) ==> turn
                == Turn::LeftAlone
            &&& grown(before.rounds.stats, after.rounds.stats, 0, 0, 0, 0, 0, 0, 0)
        },
{
    let count = before.interfaces@.len() as int;
    if before.next_interface + 1 < count {
        vstd::arithmetic::div_mod::lemma_small_mod(
            (before.next_interface + 1) as nat,
            count as nat,
        );
    } else {
        vstd::arithmetic::div_mod::lemma_mod_self_0(count);
    }
}

/// An interface that is found is probed; that it had been missing is told. One that is missing is
/// counted, left alone and told of. The others stay as they are.
pub proof fn law_lookup_starts_a_round_or_is_counted(
    before: InterfaceMonitor,
    index: usize,
    error: Option<String>,
    run_id: RunId,
    clock: Clock,
    found: Found,
    after: InterfaceMonitor,
)
    requires
        clock.sound(),
        index < before.interfaces@.len(),
        has_found(before, index, error, run_id, clock, found, after),
        countable_stats(before.rounds.stats),
        before.rounds.next_round < u64::MAX,
        before.interfaces@[index as int].name@ != "unassigned"@,
    ensures
        after.interfaces@.len() == before.interfaces@.len(),
        forall|i: int|
            0 <= i < before.interfaces@.len() && i != index
                ==> #[trigger] after.interfaces@[i] == before.interfaces@[i],
        after.next_interface == before.next_interface,
        after.fairness == before.fairness,
        error is None ==> {
            let held = before.interfaces@[index as int];
            &&& found is Start
            &&& found->number == before.rounds.next_round
            &&& after.active == index
            &&& after.rounds.active
            &&& after.rounds.next_round == before.rounds.next_round + 1
            &&& grown(before.rounds.stats, after.rounds.stats, 1, 0, 0, 0, 0, 0, 0)
            &&& was_seen(held, after.interfaces@[index as int])
            &&& found->recovered is Some <==> !held.available
            &&& found->recovered is Some ==> {
                let event = found->recovered->0;
                &&& event.event_kind == EventKind::Scheduler
                &&& event.outcome == Outcome::Success
                &&& event.error_kind is None
                &&& event.run_id == run_id
                &&& event.finished_at_utc == Some(clock.utc)
                &&& event.interface is Some && event.interface->0@ == held.name@
                &&& says(event, "decision=interface_recovered"@)
            }
        },
        error is Some ==> {
            let held = before.interfaces@[index as int];
            &&& found is Missing
            &&& after.active == before.active
            &&& after.rounds.active == before.rounds.active
            &&& after.rounds.next_round == before.rounds.next_round
            &&& grown(before.rounds.stats, after.rounds.stats, 0, 0, 0, 0, 0, 0, 1)
            &&& was_missed(held, clock.running, after.interfaces@[index as int])
            &&& decided_at(found->event, run_id, clock, Outcome::Deferred)
            &&& found->event.interface is Some && found->event.interface->0@ == held.name@
            &&& time_after(
                clock.utc,
                rest_secs(held.backoff_step as int) * 1_000_000_000,
                found->event.scheduler_not_before_utc,
            )
            &&& says(found->event, "decision=interface_retry error="@ + error->0@)
        },
{
    super::interface_laws::lemma_rest(before.interfaces@[index as int].backoff_step);
}

/// A round counts for the interface that was probed and for no other: whether it answered, and
/// whether it is degraded now.
pub proof fn law_round_counts_for_its_interface<F: Fn(usize, usize) -> Scalar>(
    before: InterfaceMonitor,
    report: PingRoundReport,
    loss_pct: F,
    decision: HealthDecision,
    after: InterfaceMonitor,
)
    requires
        before.well_formed(),
        has_probed(before, report, loss_pct, decision, after),
        countable_stats(before.rounds.stats),
        report.successful_targets <= u32::MAX,
        report.failed_targets <= u32::MAX,
    ensures
        after.interfaces@.len() == before.interfaces@.len(),
        forall|i: int|
            0 <= i < before.interfaces@.len() && i != before.active
                ==> #[trigger] after.interfaces@[i] == before.interfaces@[i],
        ({
            let held = before.interfaces@[before.active as int];
            let left = after.interfaces@[before.active as int];
            &&& left.name == held.name
            &&& left.available == held.available
            &&& left.retry_at == held.retry_at
            &&& left.backoff_step == held.backoff_step
            &&& left.latest_success <==> report.successful_targets >= 1
            &&& left.degraded <==> decision is Degraded
        }),
        !after.rounds.active,
        !after.polled,
        after.rounds.next_round == before.rounds.next_round,
        after.next_interface == before.next_interface,
        after.fairness == before.fairness,
        grown(
            before.rounds.stats,
            after.rounds.stats,
            0,
            1,
            0,
            report.successful_targets as int,
            report.failed_targets as int,
            0,
            0,
        ),
{
}

/// A test is counted, and takes a turn of the interface that it ran on.
pub proof fn law_test_takes_a_turn(
    before: InterfaceMonitor,
    interface: Seq<char>,
    after: InterfaceMonitor,
    i: int,
)
    requires
        before.fairness.well_formed(),
        has_tested(before, interface, after),
        countable_stats(before.rounds.stats),
        0 <= i < before.fairness.order().len(),
        crate::interfaces_laws::turns_had(before.fairness, i) < u64::MAX,
        before.fairness.turn() < u64::MAX,
    ensures
        !after.polled,
        after.interfaces == before.interfaces,
        after.rounds.active == before.rounds.active,
        after.rounds.next_round == before.rounds.next_round,
        grown(before.rounds.stats, after.rounds.stats, 0, 0, 0, 0, 0, 1, 0),
        crate::interfaces_laws::turns_had(after.fairness, i) == crate::interfaces_laws::turns_had(
            before.fairness,
            i,
        ) + if before.fairness.order()[i]@ == interface {
            1int
        } else {
            0
        },
{
    crate::interfaces_laws::law_turn_counts_once(before.fairness, interface, after.fairness, i);
}

/// How many of the lookups failed.
pub open spec fn misses(lookups: Seq<Lookup>) -> nat {
    lookups.filter(|lookup: Lookup| lookup.error is Some).len()
}

proof fn lemma_misses(lookups: Seq<Lookup>)
    ensures
        super::interface::failed_lookups(lookups) == misses(lookups),
        misses(lookups) <= lookups.len(),
    decreases lookups.len(),
{
    reveal(Seq::filter);
    if lookups.len() > 0 {
        lemma_misses(lookups.drop_last());
    }
}

/// A test that is due is run on the interface that was selected, which its events then name, or is
/// over as an error without a start where none was. Every lookup that failed is counted. Without a
/// test nothing is looked up, and the scheduler is not asked again at once.
pub proof fn law_due_test_is_assigned_or_over<R: InterfaceResolver>(
    before: InterfaceMonitor,
    action: SchedulerAction,
    run_id: RunId,
    resolver: &R,
    clock: Clock,
    asked: Asked,
    after: InterfaceMonitor,
)
    requires
        has_taken_up(before, action, run_id, resolver, clock, asked, after),
        countable_stats(before.rounds.stats),
        asked is Test ==> asked->Test_lookups@.len() <= u32::MAX,
        asked is Unassigned ==> asked->Unassigned_lookups@.len() <= u32::MAX,
    ensures
        action.opportunity is None <==> asked is InVain,
        asked is InVain ==> asked->InVain_events == action.events && after.polled
            && after.interfaces == before.interfaces && after.rounds == before.rounds
            && after.fairness == before.fairness,
        asked is Test ==> {
            &&& action.opportunity == Some(asked->Test_opportunity)
            &&& asked->Test_events@.len() == action.events@.len()
            &&& forall|k: int|
                0 <= k < action.events@.len() ==> {
                    let told = #[trigger] asked->Test_events@[k];
                    &&& action.events@[k].interface is Some ==> told == action.events@[k]
                    &&& action.events@[k].interface is None ==> told == (MeasurementEvent {
                        interface: Some(asked->interface),
                        ..action.events@[k]
                    })
                }
            &&& (asked->Test_opportunity).interface is Some ==> asked->interface@ == (
            asked->Test_opportunity).interface->0@
            &&& grown(
                before.rounds.stats,
                after.rounds.stats,
                0,
                0,
                0,
                0,
                0,
                0,
                misses(asked->Test_lookups@) as int,
            )
        },
        asked is Unassigned ==> {
            &&& action.opportunity == Some(asked->Unassigned_opportunity)
            &&& asked->Unassigned_events == action.events
            &&& asked->report.outcome == Outcome::Error
            &&& !asked->report.reserved
            &&& asked->report.reservation_error is None
            &&& asked->report.events@.len() > 0
            &&& grown(
                before.rounds.stats,
                after.rounds.stats,
                0,
                0,
                0,
                0,
                0,
                0,
                misses(asked->Unassigned_lookups@) as int,
            )
        },
{
    match asked {
        Asked::InVain { .. } => {},
        Asked::Test { lookups, .. } => {
            lemma_misses(lookups@);
        },
        Asked::Unassigned { lookups, .. } => {
            lemma_misses(lookups@);
        },
    }
}

/// Of every interface it is told whether it answered in its last round.
pub proof fn law_answers_are_told_by_name(runtimes: Seq<InterfaceRuntime>, i: int)
    requires
        0 <= i < runtimes.len(),
        forall|j: int, k: int|
            0 <= j < k < runtimes.len() ==> (#[trigger] runtimes[j]).name@ != (
            #[trigger] runtimes[k]).name@,
    ensures
        lookup(answering(runtimes), runtimes[i].name@) == Some(runtimes[i].latest_success),
    decreases runtimes.len(),
{
    let fewer = runtimes.drop_last();
    lemma_answering_ascends(fewer);
    lemma_stored(answering(fewer), runtimes.last().name@, runtimes.last().latest_success);
    if i < runtimes.len() - 1 {
        assert forall|j: int, k: int| 0 <= j < k < fewer.len() implies (
        #[trigger] fewer[j]).name@ != (#[trigger] fewer[k]).name@ by {
            assert(runtimes[j].name@ != runtimes[k].name@);
        }
        law_answers_are_told_by_name(fewer, i);
        assert(runtimes[i].name@ != runtimes[runtimes.len() - 1].name@);
    }
}

proof fn lemma_answering_ascends(runtimes: Seq<InterfaceRuntime>)
    ensures
        crate::string_map::ascending(answering(runtimes)),
    decreases runtimes.len(),
{
    if runtimes.len() > 0 {
        let fewer = runtimes.drop_last();
        lemma_answering_ascends(fewer);
        lemma_stored(answering(fewer), runtimes.last().name@, runtimes.last().latest_success);
    }
}

} // verus!
