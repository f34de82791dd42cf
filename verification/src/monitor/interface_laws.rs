//! How long a missing interface is left alone, and what a choice of one tells.
use super::interface::{
    Clock, InterfaceRuntime, Lookup, Selection, after_lookups, backoff_delay, first_named,
    interface_backoff, law_no_interface_is_tried_twice, lemma_first_named, lemma_not_tried,
    lemma_usable_is_named, not_tried, selects_asked, selects_by_turn, takes_turn, tells_skipped,
    usable,
};
use crate::interfaces::{FairInterfaceSelector, listed};
use crate::model::{ErrorKind, EventKind, MeasurementEvent, Outcome, RunId};
use crate::time::{Duration, MAX_DURATION_NANOS, MAX_UTC_NANOS, Timestamp};
use vstd::arithmetic::power2::lemma2_to64;
use vstd::prelude::*;

verus! {

/// How many seconds an interface is left alone that was missing this many times before.
pub open spec fn rest_secs(times: int) -> int {
    if times <= 0 {
        1
    } else if times == 1 {
        2
    } else if times == 2 {
        4
    } else if times == 3 {
        8
    } else if times == 4 {
        16
    } else if times == 5 {
        32
    } else {
        60
    }
}

/// One second at first, then twice as long each time, and a minute from the seventh on.
pub proof fn law_rest_doubles_up_to_a_minute(step: u8, delay: Duration)
    requires
        call_ensures(interface_backoff, (step,), delay),
    ensures
        delay.nanos == rest_secs(step as int) * 1_000_000_000,
{
    lemma_rest(step);
}

pub(crate) proof fn lemma_rest(step: u8)
    ensures
        backoff_delay(step).nanos == rest_secs(step as int) * 1_000_000_000,
{
    lemma2_to64();
}

/// Nothing but whether the interface is there, and when it is looked up again, has changed.
pub open spec fn same_interface(one: InterfaceRuntime, other: InterfaceRuntime) -> bool {
    one.name == other.name && one.health == other.health && one.degraded == other.degraded
}

/// The interface was missed at this time.
pub open spec fn was_missed(before: InterfaceRuntime, now: Duration, after: InterfaceRuntime)
    -> bool {
    &&& same_interface(before, after)
    &&& !after.available
    &&& !after.latest_success
    &&& after.retry_at is Some
    &&& after.retry_at->0.nanos == now.nanos + rest_secs(before.backoff_step as int)
        * 1_000_000_000
    &&& after.backoff_step == (if before.backoff_step >= 6 {
        6int
    } else {
        before.backoff_step + 1
    })
}

/// The interface was seen.
pub open spec fn was_seen(before: InterfaceRuntime, after: InterfaceRuntime) -> bool {
    &&& same_interface(before, after)
    &&& after.available
    &&& after.latest_success == before.latest_success
    &&& after.retry_at is None
    &&& after.backoff_step == 0
}

/// The interface may be looked up now.
pub open spec fn rested(runtime: InterfaceRuntime, now: Duration) -> bool {
    runtime.retry_at is Some ==> runtime.retry_at->0.nanos <= now.nanos
}

/// A scheduled test may use the interface.
pub open spec fn fit(runtime: InterfaceRuntime, now: Duration) -> bool {
    runtime.available && !runtime.degraded && rested(runtime, now)
}

/// One of the interfaces has this name.
pub open spec fn known(runtimes: Seq<InterfaceRuntime>, name: Seq<char>) -> bool {
    exists|i: int| 0 <= i < runtimes.len() && (#[trigger] runtimes[i]).name@ == name
}

/// A lookup changes what is known of the interface that it asks for: one that is missing is left
/// alone for longer each time, and one that is found is as good as new. Its health, and all that
/// is known of the others, stay.
pub proof fn law_lookups_tell_of_their_interface(
    before: Seq<InterfaceRuntime>,
    lookups: Seq<Lookup>,
    now: Duration,
    i: int,
)
    requires
        now.nanos <= MAX_DURATION_NANOS,
        0 <= i < before.len(),
        forall|k: int| 0 <= k < i ==> (#[trigger] before[k]).name@ != before[i].name@,
        forall|j: int, k: int|
            0 <= j < k < lookups.len() ==> (#[trigger] lookups[j]).name@ != (
            #[trigger] lookups[k]).name@,
        forall|k: int| 0 <= k < lookups.len() ==> known(before, (#[trigger] lookups[k]).name@),
    ensures
        after_lookups(before, lookups, now).len() == before.len(),
        forall|k: int|
            0 <= k < before.len() ==> (#[trigger] after_lookups(before, lookups, now)[k]).name
                == before[k].name,
        (forall|k: int| 0 <= k < lookups.len() ==> (#[trigger] lookups[k]).name@ != before[i].name@)
            ==> after_lookups(before, lookups, now)[i] == before[i],
        forall|k: int|
            0 <= k < lookups.len() && (#[trigger] lookups[k]).name@ == before[i].name@ ==> {
                &&& lookups[k].error is None ==> was_seen(
                    before[i],
                    after_lookups(before, lookups, now)[i],
                )
                &&& lookups[k].error is Some ==> was_missed(
                    before[i],
                    now,
                    after_lookups(before, lookups, now)[i],
                )
            },
    decreases lookups.len(),
{
    lemma_rest(before[i].backoff_step);
    if lookups.len() > 0 {
        let fewer = lookups.drop_last();
        let last = lookups.last();
        assert forall|j: int, k: int| 0 <= j < k < fewer.len() implies (
        #[trigger] fewer[j]).name@ != (#[trigger] fewer[k]).name@ by {
            assert(lookups[j].name@ != lookups[k].name@);
        }
        assert forall|k: int| 0 <= k < fewer.len() implies known(
            before,
            (#[trigger] fewer[k]).name@,
        ) by {
            assert(known(before, lookups[k].name@));
        }
        law_lookups_tell_of_their_interface(before, fewer, now, i);
        let held = after_lookups(before, fewer, now);
        let after = after_lookups(before, lookups, now);
        let at = first_named(held, last.name@);
        assert(at < held.len()) by {
            lemma_first_is_named(held, last.name@);
            assert(known(before, lookups[lookups.len() - 1].name@));
            let n = choose|n: int| 0 <= n < before.len() && (#[trigger] before[n]).name@ == last.name@;
            assert(held[n].name == before[n].name);
        }
        if last.name@ == before[i].name@ {
            assert forall|k: int| 0 <= k < i implies (#[trigger] held[k]).name@ != last.name@ by {
                assert(before[k].name@ != before[i].name@);
            }
            assert(held[i].name == before[i].name);
            lemma_first_named(held, last.name@, i);
            assert forall|k: int| 0 <= k < fewer.len() implies (#[trigger] fewer[k]).name@
                != before[i].name@ by {
                assert(lookups[k].name@ != lookups[lookups.len() - 1].name@);
            }
            assert(held[i] == before[i]);
            assert forall|k: int|
                0 <= k < lookups.len() && (#[trigger] lookups[k]).name@ == before[i].name@ implies k
                == lookups.len() - 1 by {
                if k < lookups.len() - 1 {
                    assert(fewer[k].name@ != before[i].name@);
                }
            }
        } else {
            lemma_first_is_named(held, last.name@);
            assert(at != i) by {
                assert(held[i].name == before[i].name);
            }
            assert(after[i] == held[i]);
            if forall|k: int|
                0 <= k < lookups.len() ==> (#[trigger] lookups[k]).name@ != before[i].name@ {
                assert forall|k: int| 0 <= k < fewer.len() implies (#[trigger] fewer[k]).name@
                    != before[i].name@ by {
                    assert(lookups[k].name@ != before[i].name@);
                }
            }
            assert forall|k: int|
                0 <= k < lookups.len() && (#[trigger] lookups[k]).name@ == before[i].name@ implies {
                &&& lookups[k].error is None ==> was_seen(before[i], after[i])
                &&& lookups[k].error is Some ==> was_missed(before[i], now, after[i])
            } by {
                assert(fewer[k].name@ == before[i].name@);
            }
        }
        assert forall|k: int| 0 <= k < before.len() implies (#[trigger] after[k]).name
            == before[k].name by {
            assert(held[k].name == before[k].name);
        }
    }
}

proof fn lemma_first_is_named(runtimes: Seq<InterfaceRuntime>, name: Seq<char>)
    ensures
        0 <= first_named(runtimes, name) <= runtimes.len(),
        first_named(runtimes, name) < runtimes.len() ==> runtimes[first_named(runtimes, name)].name@
            == name,
        forall|k: int|
            0 <= k < first_named(runtimes, name) ==> (#[trigger] runtimes[k]).name@ != name,
    decreases runtimes.len(),
{
    if runtimes.len() > 0 && runtimes[0].name@ != name {
        let rest = runtimes.drop_first();
        lemma_first_is_named(rest, name);
        assert forall|k: int| 0 <= k < first_named(runtimes, name) implies (
        #[trigger] runtimes[k]).name@ != name by {
            if k > 0 {
                assert(rest[k - 1].name@ != name);
            }
        }
    }
}

/// The time of day after so many nanoseconds, at most the last there is.
pub open spec fn time_after(at: Timestamp, nanos: int, told: Option<Timestamp>) -> bool {
    &&& told is Some
    &&& told->0.nanos == (if at.nanos + nanos > MAX_UTC_NANOS {
        MAX_UTC_NANOS as int
    } else {
        at.nanos + nanos
    })
}

/// The event tells of a decision at this time, and the trouble is the system's.
pub open spec fn decided_at(event: MeasurementEvent, run_id: RunId, clock: Clock, outcome: Outcome)
    -> bool {
    &&& event.event_kind == EventKind::Scheduler
    &&& event.outcome == outcome
    &&& event.run_id == run_id
    &&& event.finished_at_utc == Some(clock.utc)
    &&& event.error_kind == Some(ErrorKind::Io)
}

/// The event says this.
pub open spec fn says(event: MeasurementEvent, message: Seq<char>) -> bool {
    event.message is Some && event.message->0@ == message
}

/// The interface that a test asks for is used if it is known, may be looked up and is found. No
/// other is tried, and where it is not used an event tells why.
pub proof fn law_asked_interface_is_used_or_told_of(
    selection: Selection,
    before: Seq<InterfaceRuntime>,
    run_id: RunId,
    clock: Clock,
    asked: Seq<char>,
    i: int,
)
    requires
        selects_asked(selection, before, run_id, clock, asked),
        0 <= i <= before.len(),
        i < before.len() ==> before[i].name@ == asked,
        forall|k: int| 0 <= k < i ==> (#[trigger] before[k]).name@ != asked,
        asked != "unassigned"@,
    ensures
        selection.selected is Some ==> {
            &&& selection.selected->0@ == asked
            &&& i < before.len()
            &&& rested(before[i], clock.running)
            &&& selection.events@.len() == 0
            &&& selection.lookups@.len() == 1
            &&& selection.lookups@[0].error is None
        },
        selection.selected is None ==> {
            let event = selection.events@[0];
            &&& selection.events@.len() == 1
            &&& event.interface is Some && event.interface->0@ == asked
            &&& i == before.len() ==> {
                &&& selection.lookups@.len() == 0
                &&& decided_at(event, run_id, clock, Outcome::Error)
                &&& event.scheduler_not_before_utc is None
                &&& says(
                    event,
                    "decision=bandwidth_suppressed reason="@ + "trigger_interface_missing"@,
                )
            }
            &&& i < before.len() && !rested(before[i], clock.running) ==> {
                &&& selection.lookups@.len() == 0
                &&& decided_at(event, run_id, clock, Outcome::Deferred)
                &&& time_after(
                    clock.utc,
                    before[i].retry_at->0.nanos - clock.running.nanos,
                    event.scheduler_not_before_utc,
                )
                &&& says(
                    event,
                    "decision=bandwidth_suppressed reason="@ + "trigger_interface_backoff"@,
                )
            }
            &&& i < before.len() && rested(before[i], clock.running) ==> {
                &&& selection.lookups@.len() == 1
                &&& selection.lookups@[0].name@ == asked
                &&& selection.lookups@[0].error is Some
                &&& decided_at(event, run_id, clock, Outcome::Deferred)
                &&& time_after(
                    clock.utc,
                    rest_secs(before[i].backoff_step as int) * 1_000_000_000,
                    event.scheduler_not_before_utc,
                )
                &&& says(
                    event,
                    "decision=bandwidth_suppressed reason=trigger_interface_unavailable error="@
                        + selection.lookups@[0].error->0@,
                )
            }
        },
{
    if i < before.len() {
        lemma_rest(before[i].backoff_step);
    }
    lemma_first_named(before, asked, i);
}

/// A scheduled test looks up fit interfaces only, each once, until one is found, and that one is
/// used. It goes without only where every fit one that has turns was missed. Each one missed is
/// told of.
pub proof fn law_scheduled_test_takes_the_first_found(
    selection: Selection,
    before: Seq<InterfaceRuntime>,
    fairness: FairInterfaceSelector,
    run_id: RunId,
    clock: Clock,
)
    requires
        selects_by_turn(selection, before, fairness, run_id, clock),
    ensures
        forall|k: int|
            0 <= k < selection.lookups@.len() ==> exists|i: int|
                0 <= i < before.len() && (#[trigger] before[i]).name@ == (
                #[trigger] selection.lookups@[k]).name@ && fit(before[i], clock.running),
        forall|k: int|
            0 <= k < selection.lookups@.len() ==> ((
            #[trigger] selection.lookups@[k]).error is None <==> k == selection.lookups@.len() - 1
                && selection.selected is Some),
        selection.selected is Some ==> selection.lookups@.len() > 0
            && selection.lookups@.last().name@ == selection.selected->0@,
        selection.selected is None ==> forall|i: int, n: int|
            0 <= i < before.len() && fit(#[trigger] before[i], clock.running) && 0 <= n
                < fairness.order().len() && (#[trigger] fairness.order()[n])@ == before[i].name@
                ==> exists|k: int|
                0 <= k < selection.lookups@.len() && (#[trigger] selection.lookups@[k]).name@
                    == before[i].name@,
{
    let lookups = selection.lookups@;
    let names = usable(before, clock.running);
    assert forall|k: int| 0 <= k < lookups.len() implies exists|i: int|
        0 <= i < before.len() && (#[trigger] before[i]).name@ == (#[trigger] lookups[k]).name@
            && fit(before[i], clock.running) by {
        let name = lookups[k].name@;
        assert(takes_turn(fairness, not_tried(names, lookups.take(k)), lookups[k].name@));
        lemma_not_tried(names, lookups.take(k), name);
        lemma_usable_is_named(before, clock.running, name);
        let i = choose|i: int|
            {
                &&& 0 <= i < before.len()
                &&& (#[trigger] before[i]).name@ == name
                &&& before[i].available
                &&& !before[i].degraded
                &&& before[i].may_resolve(clock.running)
            };
        assert(before[i].name@ == name && fit(before[i], clock.running));
    }
    assert forall|k: int| 0 <= k < lookups.len() implies ((#[trigger] lookups[k]).error is None
        <==> k == lookups.len() - 1 && selection.selected is Some) by {
        if k < lookups.len() - 1 || selection.selected is None {
            assert(tells_skipped(selection.events@[k], before, run_id, clock, lookups, k));
        }
    }
    if selection.selected is None {
        assert forall|i: int, n: int|
            0 <= i < before.len() && fit(#[trigger] before[i], clock.running) && 0 <= n
                < fairness.order().len() && (#[trigger] fairness.order()[n])@
                == before[i].name@ implies exists|k: int|
            0 <= k < lookups.len() && (#[trigger] lookups[k]).name@ == before[i].name@ by {
            lemma_fit_is_usable(before, clock.running, i);
            lemma_not_tried(names, lookups, before[i].name@);
            assert(!listed(not_tried(names, lookups), fairness.order()[n]@));
        }
    }
}

proof fn lemma_fit_is_usable(runtimes: Seq<InterfaceRuntime>, now: Duration, i: int)
    requires
        0 <= i < runtimes.len(),
        fit(runtimes[i], now),
    ensures
        listed(usable(runtimes, now), runtimes[i].name@),
    decreases runtimes.len(),
{
    let names = usable(runtimes, now);
    let before = usable(runtimes.drop_last(), now);
    if i == runtimes.len() - 1 {
        assert(names[names.len() - 1]@ == runtimes[i].name@);
    } else {
        lemma_fit_is_usable(runtimes.drop_last(), now, i);
        let k = choose|k: int| 0 <= k < before.len() && (#[trigger] before[k])@ == runtimes[i].name@;
        assert(names[k]@ == runtimes[i].name@);
    }
}

/// Each interface that a scheduled test missed is told of, with when it is looked up again, and so
/// is a test that goes without one.
pub proof fn law_missed_interfaces_are_told_of(
    selection: Selection,
    before: Seq<InterfaceRuntime>,
    fairness: FairInterfaceSelector,
    run_id: RunId,
    clock: Clock,
    k: int,
    i: int,
)
    requires
        clock.sound(),
        selects_by_turn(selection, before, fairness, run_id, clock),
        0 <= k < selection.lookups@.len(),
        selection.lookups@[k].error is Some,
        0 <= i < before.len(),
        before[i].name@ == selection.lookups@[k].name@,
        before[i].name@ != "unassigned"@,
        forall|j: int| 0 <= j < i ==> (#[trigger] before[j]).name@ != before[i].name@,
    ensures
        k < selection.events@.len(),
        decided_at(selection.events@[k], run_id, clock, Outcome::Deferred),
        selection.events@[k].interface is Some,
        selection.events@[k].interface->0@ == before[i].name@,
        time_after(
            clock.utc,
            rest_secs(before[i].backoff_step as int) * 1_000_000_000,
            selection.events@[k].scheduler_not_before_utc,
        ),
        says(
            selection.events@[k],
            "decision=bandwidth_interface_skipped reason=unavailable error="@
                + selection.lookups@[k].error->0@,
        ),
{
    lemma_rest(before[i].backoff_step);
    lemma_missed_is_as_before(selection, before, fairness, run_id, clock, k, i);
    if selection.selected is Some && k == selection.lookups@.len() - 1 {
        assert(selection.lookups@.last().error is None);
    }
    assert(tells_skipped(selection.events@[k], before, run_id, clock, selection.lookups@, k));
}

proof fn lemma_missed_is_as_before(
    selection: Selection,
    before: Seq<InterfaceRuntime>,
    fairness: FairInterfaceSelector,
    run_id: RunId,
    clock: Clock,
    k: int,
    i: int,
)
    requires
        clock.sound(),
        selects_by_turn(selection, before, fairness, run_id, clock),
        0 <= k < selection.lookups@.len(),
        0 <= i < before.len(),
        before[i].name@ == selection.lookups@[k].name@,
        forall|j: int| 0 <= j < i ==> (#[trigger] before[j]).name@ != before[i].name@,
    ensures
        ({
            let held = after_lookups(before, selection.lookups@.take(k), clock.running);
            held[first_named(held, selection.lookups@[k].name@)] == before[i]
        }),
{
    let lookups = selection.lookups@;
    let tried = lookups.take(k);
    assert forall|a: int, b: int| 0 <= a < b < tried.len() implies (#[trigger] tried[a]).name@ != (
    #[trigger] tried[b]).name@ by {
        law_no_interface_is_tried_twice(selection, before, fairness, run_id, clock, a, b);
    }
    assert forall|a: int| 0 <= a < tried.len() implies (#[trigger] tried[a]).name@
        != before[i].name@ by {
        law_no_interface_is_tried_twice(selection, before, fairness, run_id, clock, a, k);
    }
    assert forall|a: int| 0 <= a < tried.len() implies known(
        before,
        (#[trigger] tried[a]).name@,
    ) by {
        law_scheduled_test_takes_the_first_found(selection, before, fairness, run_id, clock);
        assert(lookups[a] == tried[a]);
        let n = choose|n: int|
            0 <= n < before.len() && (#[trigger] before[n]).name@ == lookups[a].name@ && fit(
                before[n],
                clock.running,
            );
        assert(before[n].name@ == tried[a].name@);
    }
    law_lookups_tell_of_their_interface(before, tried, clock.running, i);
    let held = after_lookups(before, tried, clock.running);
    assert forall|j: int| 0 <= j < i implies (#[trigger] held[j]).name@ != before[i].name@ by {
        assert(before[j].name@ != before[i].name@);
    }
    lemma_first_named(held, before[i].name@, i);
}

/// A scheduled test that goes without an interface is told of last, on no interface.
pub proof fn law_test_without_an_interface_is_told_of(
    selection: Selection,
    before: Seq<InterfaceRuntime>,
    fairness: FairInterfaceSelector,
    run_id: RunId,
    clock: Clock,
)
    requires
        selects_by_turn(selection, before, fairness, run_id, clock),
        selection.selected is None,
    ensures
        selection.events@.len() == selection.lookups@.len() + 1,
        decided_at(selection.events@.last(), run_id, clock, Outcome::Suppressed),
        selection.events@.last().interface is None,
        selection.events@.last().scheduler_not_before_utc is None,
        says(
            selection.events@.last(),
            "decision=bandwidth_suppressed reason="@ + "no_healthy_interface"@,
        ),
{
}

} // verus!
