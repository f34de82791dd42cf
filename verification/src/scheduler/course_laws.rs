//! What holds of the scheduler's course, told by instants, starts and triggers.
use super::plan::{count_on_day, by_time};
use super::plan_laws::{law_plan_has_a_test_in_every_part, opens_at};
use super::rules::{
    OpportunityView, accounted, blocked, cooldown_for, day_planned, finished, first_limit,
    first_state, limit_of, observed, oldest_pending, polled, reconciled, replanned, reserved,
    rolled,
};
use super::state::{InterfaceTriggerState, PendingTrigger, StateView};
use super::{
    BandwidthOpportunity, ReservationLedgerEntry, Scheduler, SchedulerPolicy, manual_opportunity,
    reserved_for, with_ledger,
};
use crate::bandwidth::{AdmissionReservation, ReservationGate};
use crate::config::BandwidthConfig;
use crate::health::HealthDecision;
use crate::model::{MeasurementEvent, ProviderKind, TriggerReason};
use crate::string_map::{ascending, lemma_stored, lookup};
use crate::time::{Duration, Timestamp, MAX_UTC_NANOS};
use vstd::prelude::*;

verus! {

/// The instants of a day.
pub open spec fn on_the_day_of(now: Timestamp) -> spec_fn(Timestamp) -> bool {
    |t: Timestamp| t.nanos as int / 86_400_000_000_000 == now.nanos as int / 86_400_000_000_000
}

/// How many starts the day has seen.
pub open spec fn starts_of_the_day(state: StateView, now: Timestamp) -> nat {
    state.runs.filter(on_the_day_of(now)).len()
}

/// The instant is in the spacing behind the last start.
pub open spec fn too_close(state: StateView, policy: SchedulerPolicy, now: Timestamp) -> bool {
    state.last_started_at_utc matches Some(last) && now.nanos < last.nanos
        + policy.min_spacing.nanos && now.nanos < MAX_UTC_NANOS
}

/// A cooldown is on.
pub open spec fn cooling(state: StateView, now: Timestamp) -> bool {
    state.cooldown_until_utc matches Some(deadline) && now.nanos < deadline.nanos
}

proof fn lemma_starts_of_the_day(runs: Seq<Timestamp>, now: Timestamp)
    ensures
        count_on_day(runs, now.day_number()) == runs.filter(on_the_day_of(now)).len(),
    decreases runs.len(),
{
    reveal(Seq::filter);
    if runs.len() > 0 {
        lemma_starts_of_the_day(runs.drop_last(), now);
    }
}

/// A test may start exactly if the day has seen fewer starts than its maximum, no cooldown is on
/// and the last start is the spacing away, unless the spacing is waived. A refusal names the first
/// of these that forbids it, and until when.
pub proof fn law_start_is_refused_for_a_reason(
    state: StateView,
    policy: SchedulerPolicy,
    now: Timestamp,
)
    requires
        policy.daily_max < u32::MAX,
        now.valid(),
    ensures
        ({
            let block = blocked(state, policy, now);
            let full = starts_of_the_day(state, now) >= policy.daily_max;
            let close = !policy.force_limits && too_close(state, policy, now);
            &&& block is None <==> !full && !cooling(state, now) && !close
            &&& full ==> block->0.kind is DailyCap && block->0.until is None
            &&& !full && cooling(state, now) ==> block->0.kind is ProviderCooldown
                && block->0.until == state.cooldown_until_utc
            &&& !full && !cooling(state, now) && close ==> {
                &&& block->0.kind is ProviderCooldown
                &&& block->0.until is Some
                &&& now.nanos < block->0.until->0.nanos
                &&& state.last_started_at_utc->0.nanos + policy.min_spacing.nanos <= MAX_UTC_NANOS
                    ==> block->0.until->0.nanos == state.last_started_at_utc->0.nanos
                    + policy.min_spacing.nanos
            }
        }),
{
    lemma_starts_of_the_day(state.runs, now);
}

/// A start is written down: it joins the starts, which stay in order and lose none, and is the
/// last one. The day's plan, a cooldown and a test that was put off stay as they are.
pub proof fn law_start_is_written_down(state: StateView, policy: SchedulerPolicy, now: Timestamp)
    ensures
        ({
            let before = rolled(state, policy, now);
            let after = reserved(state, policy, now);
            &&& after.runs.to_multiset() == before.runs.to_multiset().insert(now)
            &&& after.runs.len() == before.runs.len() + 1
            &&& forall|i: int, j: int|
                0 <= i <= j < after.runs.len() ==> (#[trigger] after.runs[i]).nanos <= (
                #[trigger] after.runs[j]).nanos
            &&& after.last_started_at_utc == Some(now)
            &&& after.slots == before.slots
            &&& after.cooldown_until_utc == before.cooldown_until_utc
            &&& after.backoff_step == before.backoff_step
            &&& after.deferred == before.deferred
            &&& after.interface_triggers == before.interface_triggers
            &&& after.last_observed_utc.nanos >= now.nanos
            &&& after.last_observed_utc.nanos >= before.last_observed_utc.nanos
        }),
{
    broadcast use vstd::seq_lib::group_to_multiset_ensures;

    let runs = rolled(state, policy, now).runs.push(now);
    let sorted = runs.sort_by(by_time());
    runs.lemma_sort_by_ensures(by_time());
    assert(sorted.len() == runs.len()) by {
        assert(sorted.to_multiset().len() == sorted.len());
        assert(runs.to_multiset().len() == runs.len());
    }
    assert forall|i: int, j: int| 0 <= i <= j < sorted.len() implies (#[trigger] sorted[i]).nanos
        <= (#[trigger] sorted[j]).nanos by {
        if i < j {
            assert(by_time()(sorted[i], sorted[j]));
        }
    }
}

/// A new day begins with the starts that are its own, without a test that was put off and without
/// triggers, and keeps a cooldown exactly while it is on. Before the day changes nothing does.
pub proof fn law_new_day_begins_afresh(state: StateView, policy: SchedulerPolicy, now: Timestamp)
    ensures
        ({
            let day = now.nanos as int / 86_400_000_000_000;
            let next = rolled(state, policy, now);
            &&& day <= state.day_utc.day ==> next == state
            &&& day > state.day_utc.day ==> {
                &&& next.day_utc.day == day
                &&& next.runs == state.runs.filter(
                    |t: Timestamp| t.nanos as int / 86_400_000_000_000 >= day,
                )
                &&& next.deferred is None
                &&& next.interface_triggers.len() == 0
                &&& next.cooldown_until_utc == if cooling(state, now) {
                    state.cooldown_until_utc
                } else {
                    None
                }
                &&& next.last_started_at_utc == state.last_started_at_utc
                &&& next.backoff_step == state.backoff_step
                &&& next.last_observed_utc == state.last_observed_utc
                &&& forall|i: int|
                    0 <= i < next.slots.len() ==> (#[trigger] next.slots[i]).nanos > now.nanos
            }
        }),
{
    broadcast use vstd::seq_lib::group_filter_ensures;

    let day = now.nanos as int / 86_400_000_000_000;
    assert(state.runs.filter(|t: Timestamp| t.nanos as int / 86_400_000_000_000 >= day)
        =~= state.runs.filter(|t: Timestamp| t.day_number() >= now.day_number())) by {
        assert((|t: Timestamp| t.nanos as int / 86_400_000_000_000 >= day) =~= (|t: Timestamp|
            t.day_number() >= now.day_number()));
    }
    if day > state.day_utc.day {
        let next = rolled(state, policy, now);
        let test = |t: Timestamp| t.nanos > now.nanos;
        assert forall|i: int| 0 <= i < next.slots.len() implies (#[trigger] next.slots[i]).nanos
            > now.nanos by {
            assert(test(next.slots[i]));
        }
    }
}

/// A part of a span of milliseconds behind an instant, one of `count` equal ones.
pub open spec fn in_part(at: Timestamp, from: Timestamp, total: int, count: int, i: int) -> bool {
    &&& from.nanos + total * i / count * 1_000_000 <= at.nanos
    &&& at.nanos < from.nanos + total * (i + 1) / count * 1_000_000
}

/// The spacing fits between two of `count` equal parts of a span of milliseconds, whatever is
/// drawn.
pub open spec fn spacing_fits(policy: SchedulerPolicy, total: int, count: int) -> bool {
    let width = total / count;
    &&& width >= 1
    &&& policy.min_spacing.nanos <= (width - width * policy.slot_jitter_pct / 100 - 1) * 1_000_000
}

/// Where the spacing fits, a day on which nothing stands in the way from its first instant on has
/// as many tests planned as it may see, one in each equal part of it; those that are not ahead any
/// more are left out.
pub proof fn law_day_is_planned_in_full(
    state: StateView,
    policy: SchedulerPolicy,
    now: Timestamp,
) -> (full: Seq<Timestamp>)
    requires
        now.schedulable(),
        policy.slot_jitter_pct <= 100,
        policy.daily_max > 0,
        spacing_fits(policy, 86_400_000, policy.daily_max as int),
        state.cooldown_until_utc matches Some(deadline) ==> deadline.nanos
            <= now.nanos as int / 86_400_000_000_000 * 86_400_000_000_000,
        state.last_started_at_utc matches Some(last) ==> last.nanos + policy.min_spacing.nanos
            <= now.nanos as int / 86_400_000_000_000 * 86_400_000_000_000,
    ensures
        ({
            let midnight = Timestamp {
                nanos: (now.nanos as int / 86_400_000_000_000 * 86_400_000_000_000) as i128,
            };
            &&& full.len() == policy.daily_max
            &&& forall|i: int|
                0 <= i < full.len() ==> in_part(
                    #[trigger] full[i],
                    midnight,
                    86_400_000,
                    policy.daily_max as int,
                    i,
                )
            &&& day_planned(state, policy, now).slots == full.filter(
                |t: Timestamp| t.nanos > now.nanos,
            )
        }),
{
    let day = now.nanos as int / 86_400_000_000_000;
    let midnight = Timestamp { nanos: (day * 86_400_000_000_000) as i128 };
    let end = Timestamp { nanos: ((day + 1) * 86_400_000_000_000) as i128 };
    assert(crate::time::day_start_of(day) == midnight.nanos);
    assert(crate::time::day_end_of(day) == end.nanos);
    assert(crate::time::MIN_UTC_NANOS <= midnight.nanos) by {
        assert(-8_334_601_228_800_000_000_000 == -96_465_292 * 86_400_000_000_000);
        assert(day >= -96_465_292) by (nonlinear_arith)
            requires
                day == now.nanos as int / 86_400_000_000_000,
                now.nanos >= -8_334_601_228_800_000_000_000,
        ;
    }
    assert(opens_at(
        midnight,
        state.last_started_at_utc,
        state.cooldown_until_utc,
        policy.min_spacing,
        midnight,
    ));
    law_plan_has_a_test_in_every_part(
        state.rng_state,
        state.last_started_at_utc,
        state.cooldown_until_utc,
        policy.min_spacing,
        policy.slot_jitter_pct,
        midnight,
        end,
        policy.daily_max,
        midnight,
    );
    super::plan::plan(
        state.rng_state,
        state.last_started_at_utc,
        state.cooldown_until_utc,
        policy.min_spacing,
        policy.slot_jitter_pct,
        midnight,
        end,
        policy.daily_max,
    ).0
}

/// A new day, and the first one of an installation, is planned in full.
pub proof fn law_new_day_is_planned(
    state: StateView,
    policy: SchedulerPolicy,
    now: Timestamp,
    seed: u64,
)
    ensures
        now.nanos as int / 86_400_000_000_000 > state.day_utc.day ==> rolled(
            state,
            policy,
            now,
        ).slots == day_planned(
            StateView {
                cooldown_until_utc: if cooling(state, now) {
                    state.cooldown_until_utc
                } else {
                    None
                },
                ..state
            },
            policy,
            now,
        ).slots,
        ({
            let first = first_state(policy, now, seed);
            &&& first.slots == day_planned(
                StateView {
                    rng_state: if seed == 0 {
                        1
                    } else {
                        seed
                    },
                    ..first
                },
                policy,
                now,
            ).slots
            &&& first.runs.len() == 0
            &&& first.last_started_at_utc is None
            &&& first.cooldown_until_utc is None
            &&& first.deferred is None
            &&& first.interface_triggers.len() == 0
            &&& first.backoff_step == 0
            &&& first.day_utc.day == now.nanos as int / 86_400_000_000_000
            &&& first.last_observed_utc == now
        }),
{
}

/// What is planned for the rest of a day from some instant on: where the spacing fits, as many
/// tests as the day may still see, one in each equal part of the time that is left.
pub proof fn law_rest_of_the_day_is_planned(
    state: StateView,
    policy: SchedulerPolicy,
    now: Timestamp,
    earliest: Timestamp,
)
    requires
        now.schedulable(),
        policy.slot_jitter_pct <= 100,
        policy.daily_max < u32::MAX,
        starts_of_the_day(state, now) < policy.daily_max,
        opens_at(
            earliest,
            state.last_started_at_utc,
            state.cooldown_until_utc,
            policy.min_spacing,
            now,
        ),
        earliest.nanos + 1_000_000 <= (now.nanos as int / 86_400_000_000_000 + 1)
            * 86_400_000_000_000,
        spacing_fits(
            policy,
            ((now.nanos as int / 86_400_000_000_000 + 1) * 86_400_000_000_000 - earliest.nanos)
                / 1_000_000,
            policy.daily_max - starts_of_the_day(state, now),
        ),
    ensures
        ({
            let next = replanned(state, policy, now);
            let left = policy.daily_max - starts_of_the_day(state, now);
            let total = ((now.nanos as int / 86_400_000_000_000 + 1) * 86_400_000_000_000
                - earliest.nanos) / 1_000_000;
            &&& next.slots.len() == left
            &&& forall|i: int|
                0 <= i < left ==> in_part(#[trigger] next.slots[i], earliest, total, left, i)
            &&& next == (StateView { slots: next.slots, rng_state: next.rng_state, ..state })
        }),
{
    lemma_starts_of_the_day(state.runs, now);
    let day = now.nanos as int / 86_400_000_000_000;
    let end = Timestamp { nanos: ((day + 1) * 86_400_000_000_000) as i128 };
    assert(crate::time::day_end_of(day) == end.nanos);
    let left = (policy.daily_max - starts_of_the_day(state, now)) as u32;
    law_plan_has_a_test_in_every_part(
        state.rng_state,
        state.last_started_at_utc,
        state.cooldown_until_utc,
        policy.min_spacing,
        policy.slot_jitter_pct,
        now,
        end,
        left,
        earliest,
    );
}

/// An interface whose pending test may run now: it has not outlived its time, and a probe of the
/// interface was answered in its latest round, or a planned test is due anyway.
pub open spec fn may_run(
    entry: (Seq<char>, InterfaceTriggerState),
    now: Timestamp,
    latest_success: Seq<(Seq<char>, bool)>,
    due: bool,
) -> bool {
    &&& entry.1.pending matches Some(pending) && now.nanos < pending.expires_at_utc.nanos
    &&& due || lookup(latest_success, entry.0) == Some(true)
}

/// A planned test is due.
pub open spec fn something_due(slots: Seq<Timestamp>, now: Timestamp) -> bool {
    exists|i: int| 0 <= i < slots.len() && (#[trigger] slots[i]).nanos <= now.nanos
}

/// A pending test is found exactly if an interface may run one; it is one of theirs, and none of
/// theirs is older.
proof fn lemma_oldest(
    triggers: Seq<(Seq<char>, InterfaceTriggerState)>,
    latest_success: Seq<(Seq<char>, bool)>,
    allow: bool,
)
    ensures
        ({
            let found = oldest_pending(triggers, latest_success, allow);
            &&& found matches Some((key, pending)) ==> exists|i: int|
                {
                    &&& 0 <= i < triggers.len()
                    &&& (#[trigger] triggers[i]).0 == key
                    &&& triggers[i].1.pending == Some(pending)
                    &&& allow || lookup(latest_success, key) == Some(true)
                }
            &&& forall|i: int|
                0 <= i < triggers.len() && (#[trigger] triggers[i]).1.pending is Some && (allow
                    || lookup(latest_success, triggers[i].0) == Some(true)) ==> found is Some
                    && (found->0).1.created_at_utc.nanos
                    <= triggers[i].1.pending->0.created_at_utc.nanos
        }),
    decreases triggers.len(),
{
    if triggers.len() > 0 {
        let rest = triggers.drop_last();
        lemma_oldest(rest, latest_success, allow);
        let before = oldest_pending(rest, latest_success, allow);
        let found = oldest_pending(triggers, latest_success, allow);
        let last = triggers.len() - 1;
        assert(triggers[last] == triggers.last());
        if found != before {
            assert(triggers[last].0 == (found->0).0);
        } else if before is Some {
            let i = choose|i: int|
                {
                    &&& 0 <= i < rest.len()
                    &&& (#[trigger] rest[i]).0 == (before->0).0
                    &&& rest[i].1.pending == Some((before->0).1)
                    &&& allow || lookup(latest_success, (before->0).0) == Some(true)
                };
            assert(triggers[i] == rest[i]);
        }
        assert forall|i: int|
            0 <= i < triggers.len() && (#[trigger] triggers[i]).1.pending is Some && (allow
                || lookup(latest_success, triggers[i].0) == Some(true)) implies found is Some
            && (found->0).1.created_at_utc.nanos
            <= triggers[i].1.pending->0.created_at_utc.nanos by {
            if i < last {
                assert(rest[i] == triggers[i]);
            }
        }
    }
}

/// The state that a poll looks at: that of the current day, at the time of the poll.
pub open spec fn at_poll(state: StateView, policy: SchedulerPolicy, now: Timestamp) -> StateView {
    StateView { last_observed_utc: now, ..rolled(state, policy, now) }
}

/// The test that was put off has its turn: its time is not over, it was not refused too often, and
/// no cooldown is on.
pub open spec fn put_off_is_due(state: StateView, now: Timestamp) -> bool {
    &&& state.deferred matches Some(d) && now.nanos < d.expires_at_utc.nanos
        && d.rate_limit_attempts < 5
    &&& !cooling(state, now)
}

/// Nothing is decided while the clock is behind what it has shown. Otherwise a test that was put
/// off and is due goes first. Then a test starts exactly if a planned one is due, or an interface
/// may run a pending one, and no limit forbids it. A pending test goes before a planned one, the
/// oldest first; a planned one is the first in the plan that is due.
pub proof fn law_poll_starts_what_is_due(
    state: StateView,
    policy: SchedulerPolicy,
    now: Timestamp,
    latest_success: Seq<(Seq<char>, bool)>,
)
    ensures
        ({
            let current = at_poll(state, policy, now);
            let result = polled(state, policy, now, latest_success);
            let due = something_due(current.slots, now);
            let pending = exists|i: int|
                0 <= i < current.interface_triggers.len() && may_run(
                    #[trigger] current.interface_triggers[i],
                    now,
                    latest_success,
                    due,
                );
            if now.nanos < state.last_observed_utc.nanos {
                &&& result.opportunity is None
                &&& result.state == state
                &&& result.notes.len() == 1
                &&& result.notes[0].outcome is Suppressed
            } else if put_off_is_due(current, now) {
                &&& result.opportunity == Some(
                    OpportunityView {
                        reason: current.deferred->0.reason,
                        scheduled_at_utc: current.deferred->0.created_at_utc,
                        interface: current.deferred->0.interface,
                    },
                )
                &&& result.state.slots == current.slots
                &&& result.state.deferred == current.deferred
            } else {
                &&& result.opportunity is Some <==> (due || pending) && blocked(
                    current,
                    policy,
                    now,
                ) is None
                &&& result.opportunity is Some && pending ==> exists|i: int|
                    {
                        let entry = #[trigger] current.interface_triggers[i];
                        &&& 0 <= i < current.interface_triggers.len()
                        &&& may_run(entry, now, latest_success, due)
                        &&& result.opportunity->0.reason == entry.1.pending->0.reason
                        &&& result.opportunity->0.scheduled_at_utc
                            == entry.1.pending->0.created_at_utc
                        &&& entry.0.len() > 0 ==> result.opportunity->0.interface == Some(entry.0)
                        &&& entry.0.len() == 0 ==> result.opportunity->0.interface is None
                        &&& forall|k: int|
                            0 <= k < current.interface_triggers.len() && may_run(
                                #[trigger] current.interface_triggers[k],
                                now,
                                latest_success,
                                due,
                            ) ==> entry.1.pending->0.created_at_utc.nanos
                                <= current.interface_triggers[k].1.pending->0.created_at_utc.nanos
                    }
                &&& result.opportunity is Some && !pending ==> {
                    &&& result.opportunity->0.reason is Scheduled
                    &&& result.opportunity->0.interface is None
                    &&& exists|i: int|
                        {
                            &&& 0 <= i < current.slots.len()
                            &&& #[trigger] current.slots[i]
                                == result.opportunity->0.scheduled_at_utc
                            &&& current.slots[i].nanos <= now.nanos
                            &&& forall|k: int|
                                0 <= k < i ==> (#[trigger] current.slots[k]).nanos > now.nanos
                        }
                }
                &&& (due || pending) && blocked(current, policy, now) is Some ==> {
                    let note = result.notes.last();
                    &&& result.notes.len() > 0
                    &&& note.error_kind == Some(blocked(current, policy, now)->0.kind)
                    &&& note.not_before == blocked(current, policy, now)->0.until
                    &&& note.outcome is Suppressed || note.outcome is Deferred
                    &&& blocked(current, policy, now)->0.kind is DailyCap ==> note.outcome
                        is Suppressed
                }
                &&& result.opportunity is Some ==> result.notes.len() > 0
                    && result.notes.last().outcome is Scheduled
                &&& due ==> !something_due(result.state.slots, now)
                &&& !due && !pending ==> result.state.slots == current.slots
                &&& current.deferred matches Some(d) ==> (now.nanos >= d.expires_at_utc.nanos
                    || d.rate_limit_attempts >= 5) ==> result.state.deferred is None
            }
        }),
{
    let current = at_poll(state, policy, now);
    if now.nanos >= state.last_observed_utc.nanos && !put_off_is_due(current, now) {
        let result = polled(state, policy, now, latest_success);
        let due = something_due(current.slots, now);
        let lapsed = super::rules::lapsed_triggers(current.interface_triggers, now);
        lemma_first_due(current.slots, now);
        lemma_oldest(lapsed, latest_success, due);
        let found = oldest_pending(lapsed, latest_success, due);
        let triggers = current.interface_triggers;
        assert forall|i: int| 0 <= i < triggers.len() implies (lapsed[i].0 == (
        #[trigger] triggers[i]).0 && ((lapsed[i].1.pending is Some && (due || lookup(
            latest_success,
            lapsed[i].0,
        ) == Some(true))) == may_run(triggers[i], now, latest_success, due)) && (lapsed[i].1.pending
            is Some ==> lapsed[i].1.pending == triggers[i].1.pending)) by {}
        if found is Some {
            let i = choose|i: int|
                {
                    &&& 0 <= i < lapsed.len()
                    &&& (#[trigger] lapsed[i]).0 == (found->0).0
                    &&& lapsed[i].1.pending == Some((found->0).1)
                    &&& due || lookup(latest_success, (found->0).0) == Some(true)
                };
            assert(may_run(triggers[i], now, latest_success, due));
            assert forall|k: int|
                0 <= k < triggers.len() && may_run(
                    #[trigger] triggers[k],
                    now,
                    latest_success,
                    due,
                ) implies triggers[i].1.pending->0.created_at_utc.nanos
                <= triggers[k].1.pending->0.created_at_utc.nanos by {
                assert(lapsed[k].1.pending is Some);
            }
        }
        assert(found is Some <==> exists|i: int|
            0 <= i < triggers.len() && may_run(#[trigger] triggers[i], now, latest_success, due))
            by {
            if exists|i: int|
                0 <= i < triggers.len() && may_run(
                    #[trigger] triggers[i],
                    now,
                    latest_success,
                    due,
                ) {
                let i = choose|i: int|
                    0 <= i < triggers.len() && may_run(
                        #[trigger] triggers[i],
                        now,
                        latest_success,
                        due,
                    );
                assert(lapsed[i].1.pending is Some);
            }
        }
        let ahead = current.slots.filter(|t: Timestamp| t.nanos > now.nanos);
        lemma_slots_after(result.state.slots, current.slots, now, ahead[0]);
    }
}

/// The first planned test that is due is the first in the plan at or before now.
proof fn lemma_first_due(slots: Seq<Timestamp>, now: Timestamp)
    ensures
        super::rules::first_due(slots, now) is Some <==> something_due(slots, now),
        super::rules::first_due(slots, now) matches Some(at) ==> exists|i: int|
            {
                &&& 0 <= i < slots.len()
                &&& #[trigger] slots[i] == at
                &&& slots[i].nanos <= now.nanos
                &&& forall|k: int| 0 <= k < i ==> (#[trigger] slots[k]).nanos > now.nanos
            },
    decreases slots.len(),
{
    reveal(Seq::filter);
    let test = |t: Timestamp| t.nanos <= now.nanos;
    if slots.len() > 0 {
        let rest = slots.drop_last();
        let last = slots.len() - 1;
        lemma_first_due(rest, now);
        assert(slots[last] == slots.last());
        if something_due(rest, now) {
            let i = choose|i: int|
                {
                    &&& 0 <= i < rest.len()
                    &&& #[trigger] rest[i] == super::rules::first_due(rest, now)->0
                    &&& rest[i].nanos <= now.nanos
                    &&& forall|k: int| 0 <= k < i ==> (#[trigger] rest[k]).nanos > now.nanos
                };
            assert(slots[i] == rest[i]);
            assert forall|k: int| 0 <= k < i implies (#[trigger] slots[k]).nanos > now.nanos by {
                assert(rest[k] == slots[k]);
            }
        } else {
            assert forall|k: int| 0 <= k < last implies (#[trigger] slots[k]).nanos
                > now.nanos by {
                assert(rest[k] == slots[k]);
            }
        }
    }
}

proof fn lemma_slots_after(
    after: Seq<Timestamp>,
    slots: Seq<Timestamp>,
    now: Timestamp,
    taken: Timestamp,
)
    ensures
        ({
            let ahead = slots.filter(|t: Timestamp| t.nanos > now.nanos);
            &&& after == ahead ==> !something_due(after, now)
            &&& after == ahead.filter(|t: Timestamp| t != taken) ==> !something_due(after, now)
        }),
{
    broadcast use vstd::seq_lib::group_filter_ensures;

    let test = |t: Timestamp| t.nanos > now.nanos;
    let ahead = slots.filter(test);
    assert forall|i: int| 0 <= i < ahead.len() implies (#[trigger] ahead[i]).nanos > now.nanos by {
        assert(test(ahead[i]));
    }
    let other = |t: Timestamp| t != taken;
    let fewer = ahead.filter(other);
    assert forall|i: int| 0 <= i < fewer.len() implies (#[trigger] fewer[i]).nanos > now.nanos by {
        super::laws::lemma_filter_is_from(ahead, other, i);
    }
}

/// The trigger of an interface; one that never degraded is calm.
pub open spec fn trigger_of(state: StateView, key: Seq<char>) -> InterfaceTriggerState {
    match lookup(state.interface_triggers, key) {
        Some(trigger) => trigger,
        None => InterfaceTriggerState { pending: None, latched: false },
    }
}

/// A connection that degrades asks for one test: for slow round trips, or for loss where there is
/// any, until its time is over. While it stays degraded it asks for no other. Where a test was put
/// off already, that one takes over the reason and the interface. A connection that recovers asks
/// for nothing any more. The triggers of other interfaces, the plan and the account are left alone.
pub proof fn law_degradation_asks_for_one_test(
    state: StateView,
    policy: SchedulerPolicy,
    now: Timestamp,
    interface: Option<Seq<char>>,
    decision: HealthDecision,
    loss_text: Seq<char>,
    rtt_text: Option<Seq<char>>,
)
    requires
        ascending(state.interface_triggers),
        now.nanos >= state.last_observed_utc.nanos,
        now.nanos + policy.pending_ttl.nanos <= MAX_UTC_NANOS,
    ensures
        ({
            let current = at_poll(state, policy, now);
            let next = observed(state, policy, now, interface, decision, loss_text, rtt_text).state;
            let key = if interface is Some {
                interface->0
            } else {
                Seq::empty()
            };
            let raised = decision is Degraded && !trigger_of(current, key).latched;
            let asked = if decision is Degraded && decision->reason is Rtt {
                TriggerReason::PingRtt
            } else {
                TriggerReason::PingLoss
            };
            &&& forall|other: Seq<char>|
                other != key ==> #[trigger] trigger_of(next, other) == trigger_of(current, other)
            &&& raised ==> trigger_of(next, key).latched
            &&& raised && current.deferred is None ==> trigger_of(next, key).pending == Some(
                PendingTrigger {
                    reason: asked,
                    created_at_utc: now,
                    expires_at_utc: Timestamp {
                        nanos: (now.nanos + policy.pending_ttl.nanos) as i128,
                    },
                },
            )
            &&& raised && current.deferred is Some ==> {
                &&& trigger_of(next, key).pending is None
                &&& next.deferred is Some
                &&& next.deferred->0.reason == asked
                &&& next.deferred->0.interface == interface
                &&& next.deferred->0.created_at_utc == current.deferred->0.created_at_utc
                &&& next.deferred->0.expires_at_utc == current.deferred->0.expires_at_utc
                &&& next.deferred->0.rate_limit_attempts == current.deferred->0.rate_limit_attempts
            }
            &&& decision is Recovered ==> trigger_of(next, key) == (InterfaceTriggerState {
                pending: None,
                latched: false,
            })
            &&& !raised && !(decision is Recovered) ==> next == current
            &&& !(raised && current.deferred is Some) ==> next.deferred == current.deferred
            &&& next.slots == current.slots
            &&& next.runs == current.runs
            &&& next.last_started_at_utc == current.last_started_at_utc
            &&& next.cooldown_until_utc == current.cooldown_until_utc
            &&& next.backoff_step == current.backoff_step
        }),
{
    let current = at_poll(state, policy, now);
    let key = if interface is Some {
        interface->0
    } else {
        Seq::empty()
    };
    let next = observed(state, policy, now, interface, decision, loss_text, rtt_text).state;
    assert(ascending(current.interface_triggers));
    lemma_stored(current.interface_triggers, key, trigger_of(next, key));
    let raised = decision is Degraded && !trigger_of(current, key).latched;
    if raised {
        let trigger = InterfaceTriggerState {
            pending: if current.deferred is Some {
                None
            } else {
                Some(
                    PendingTrigger {
                        reason: super::rules::trigger_reason_of(decision->reason),
                        created_at_utc: now,
                        expires_at_utc: crate::time::later(now, policy.pending_ttl),
                    },
                )
            },
            latched: true,
        };
        lemma_stored(current.interface_triggers, key, trigger);
    } else if decision is Recovered {
        lemma_stored(
            current.interface_triggers,
            key,
            InterfaceTriggerState { pending: None, latched: false },
        );
    }
}

/// The event tells that the provider refused to serve: it is rate limited, or answered so, or has
/// no capacity to give, as M-Lab says when servers are located and other servers when they are
/// asked.
pub open spec fn refuses(event: MeasurementEvent, kind: ProviderKind) -> bool {
    let status = event.request_http_status;
    &&& event.event_kind is RequestFailure
    &&& event.request_stage is Some
    &&& {
        ||| event.outcome is RateLimited
        ||| status == Some(429u16)
        ||| kind is Mlab && event.request_stage->0 is Locate && (status == Some(204u16) || status
            == Some(503u16))
        ||| kind is Direct && event.request_stage->0 is WebsocketHandshake && status == Some(503u16)
    }
}

/// The event shows that the provider was reached.
pub open spec fn reaches(event: MeasurementEvent) -> bool {
    &&& event.event_kind is Bandwidth
    &&& event.outcome is Success || event.outcome is Partial || event.request_remote_ip is Some
        || event.download_remote_ip is Some || event.upload_remote_ip is Some
}

proof fn lemma_first_refusal(events: Seq<MeasurementEvent>, kind: ProviderKind)
    ensures
        first_limit(events, kind) is Some <==> exists|i: int|
            0 <= i < events.len() && refuses(#[trigger] events[i], kind),
        first_limit(events, kind) matches Some(limit) ==> exists|i: int|
            {
                &&& 0 <= i < events.len()
                &&& refuses(#[trigger] events[i], kind)
                &&& limit_of(events[i], kind) == Some(limit)
                &&& forall|k: int| 0 <= k < i ==> !refuses(#[trigger] events[k], kind)
            },
    decreases events.len(),
{
    if events.len() > 0 {
        let rest = events.drop_first();
        lemma_first_refusal(rest, kind);
        assert(limit_of(events[0], kind) is Some <==> refuses(events[0], kind));
        assert(forall|i: int| 0 <= i < rest.len() ==> #[trigger] rest[i] == events[i + 1]);
        if !refuses(events[0], kind) {
            if exists|i: int| 0 <= i < events.len() && refuses(#[trigger] events[i], kind) {
                let i = choose|i: int| 0 <= i < events.len() && refuses(#[trigger] events[i], kind);
                assert(rest[i - 1] == events[i]);
            }
            if first_limit(rest, kind) is Some {
                let limit = first_limit(rest, kind)->0;
                let i = choose|i: int|
                    {
                        &&& 0 <= i < rest.len()
                        &&& refuses(#[trigger] rest[i], kind)
                        &&& limit_of(rest[i], kind) == Some(limit)
                        &&& forall|k: int| 0 <= k < i ==> !refuses(#[trigger] rest[k], kind)
                    };
                assert(events[i + 1] == rest[i]);
                assert forall|k: int| 0 <= k < i + 1 implies !refuses(
                    #[trigger] events[k],
                    kind,
                ) by {
                    if k > 0 {
                        assert(rest[k - 1] == events[k]);
                    }
                }
            }
        }
    }
}

/// The delay that backing off comes to: the initial delay doubled with each step, at most sixteen
/// times it and at most the longest, moved by up to a fifth of it either way.
pub open spec fn backs_off(delay: Duration, policy: SchedulerPolicy, step: u8) -> bool {
    let initial = policy.cooldown_initial.nanos;
    let doubled = if step == 0 {
        initial as int
    } else if step == 1 {
        2 * initial
    } else if step == 2 {
        4 * initial
    } else if step == 3 {
        8 * initial
    } else {
        16 * initial
    };
    let base = if doubled <= policy.cooldown_max.nanos {
        doubled
    } else {
        policy.cooldown_max.nanos as int
    };
    let millis = base / 1_000_000;
    let moved = delay.nanos as int / 1_000_000;
    &&& millis - millis / 5 <= moved <= millis + millis / 5
    &&& millis < 5 ==> delay.nanos == base
}

/// A refusal puts the provider in a cooldown: for as long as it asked for, or for the delay that
/// backing off comes to. Backing off goes a step further, at most to the fourth. A test that had
/// not started is put off to the end of the cooldown, if that is on the same day and it was not
/// refused four times before; one that had started is not. The day's starts stay as they are.
pub proof fn law_refusal_cools_down(
    state: StateView,
    policy: SchedulerPolicy,
    now: Timestamp,
    opportunity: OpportunityView,
    events: Seq<MeasurementEvent>,
    was_reserved: bool,
) -> (at: int)
    requires
        exists|i: int|
            0 <= i < events.len() && refuses(#[trigger] events[i], policy.provider_kind),
        policy.cooldown_max.nanos / 1_000_000 <= u64::MAX / 2,
        now.schedulable(),
    ensures
        ({
            let next = finished(state, policy, now, opportunity, events, was_reserved).state;
            let asked = events[at].request_retry_after_ms;
            let deadline = next.cooldown_until_utc->0;
            let midnight = (now.nanos as int / 86_400_000_000_000 + 1) * 86_400_000_000_000;
            let attempts = if state.deferred is Some {
                state.deferred->0.rate_limit_attempts + 1
            } else {
                1
            };
            &&& 0 <= at < events.len()
            &&& refuses(events[at], policy.provider_kind)
            &&& forall|k: int|
                0 <= k < at ==> !refuses(#[trigger] events[k], policy.provider_kind)
            &&& next.cooldown_until_utc is Some
            &&& asked matches Some(millis) ==> deadline.nanos == if now.nanos + millis * 1_000_000
                <= MAX_UTC_NANOS {
                now.nanos + millis * 1_000_000
            } else {
                MAX_UTC_NANOS as int
            }
            &&& asked is None ==> exists|delay: Duration| #[trigger]
                backs_off(delay, policy, state.backoff_step) && deadline.nanos == if now.nanos
                    + delay.nanos <= MAX_UTC_NANOS {
                    now.nanos + delay.nanos
                } else {
                    MAX_UTC_NANOS as int
                }
            &&& next.backoff_step == if state.backoff_step >= 4 {
                4
            } else {
                state.backoff_step + 1
            }
            &&& was_reserved ==> next.deferred is None
            &&& !was_reserved ==> {
                &&& next.deferred is Some <==> attempts < 5 && deadline.nanos < midnight
                &&& next.deferred matches Some(d) ==> {
                    &&& d.reason == opportunity.reason
                    &&& d.interface == opportunity.interface
                    &&& d.created_at_utc == opportunity.scheduled_at_utc
                    &&& d.expires_at_utc.nanos == midnight
                    &&& d.rate_limit_attempts == attempts
                }
            }
            &&& next.runs == state.runs
            &&& next.last_started_at_utc == state.last_started_at_utc
            &&& next.day_utc == state.day_utc
            &&& next.last_observed_utc == state.last_observed_utc
        }),
{
    lemma_first_refusal(events, policy.provider_kind);
    let limit = first_limit(events, policy.provider_kind)->0;
    let at = choose|i: int|
        {
            &&& 0 <= i < events.len()
            &&& refuses(#[trigger] events[i], policy.provider_kind)
            &&& limit_of(events[i], policy.provider_kind) == Some(limit)
            &&& forall|k: int|
                0 <= k < i ==> !refuses(#[trigger] events[k], policy.provider_kind)
        };
    let delay = cooldown_for(state, policy, limit).0;
    if events[at].request_retry_after_ms is None {
        let base = super::rules::backoff_base(policy, state.backoff_step);
        let rng = super::rules::jitter_rng(state.rng_state, base);
        assert(base.nanos / 1_000_000 <= u64::MAX / 2);
        super::plan::law_jitter_stays_within_a_fifth(base, rng);
        assert(backs_off(delay, policy, state.backoff_step));
    }
    at
}

/// A test that was not refused is settled: nothing is put off any more, its interface asks for no
/// other, and where the provider was reached its cooldown and its backing off are over. A planned
/// test that had started leaves no other planned in the spacing behind it; a test that was asked
/// for otherwise has the rest of the day planned anew. The day's starts stay as they are.
pub proof fn law_finished_test_is_settled(
    state: StateView,
    policy: SchedulerPolicy,
    now: Timestamp,
    opportunity: OpportunityView,
    events: Seq<MeasurementEvent>,
    was_reserved: bool,
)
    requires
        forall|i: int|
            0 <= i < events.len() ==> !refuses(#[trigger] events[i], policy.provider_kind),
        ascending(state.interface_triggers),
        now.nanos + policy.min_spacing.nanos <= MAX_UTC_NANOS,
    ensures
        ({
            let next = finished(state, policy, now, opportunity, events, was_reserved).state;
            let reached = exists|i: int| 0 <= i < events.len() && reaches(#[trigger] events[i]);
            let key = if opportunity.interface is Some {
                opportunity.interface->0
            } else {
                Seq::empty()
            };
            &&& next.deferred is None
            &&& next.cooldown_until_utc == if reached {
                None
            } else {
                state.cooldown_until_utc
            }
            &&& next.backoff_step == if reached {
                0
            } else {
                state.backoff_step
            }
            &&& trigger_of(next, key).pending is None
            &&& trigger_of(next, key).latched == trigger_of(state, key).latched
            &&& forall|other: Seq<char>|
                other != key ==> #[trigger] trigger_of(next, other) == trigger_of(state, other)
            &&& opportunity.reason is Scheduled && was_reserved ==> next.slots
                == state.slots.filter(
                |t: Timestamp| t.nanos >= now.nanos + policy.min_spacing.nanos,
            )
            &&& opportunity.reason is Scheduled && !was_reserved ==> next.slots == state.slots
            &&& !(opportunity.reason is Scheduled) ==> next.slots == replanned(
                StateView {
                    cooldown_until_utc: if reached {
                        None
                    } else {
                        state.cooldown_until_utc
                    },
                    ..state
                },
                policy,
                now,
            ).slots
            &&& next.runs == state.runs
            &&& next.last_started_at_utc == state.last_started_at_utc
            &&& finished(state, policy, now, opportunity, events, was_reserved).notes.len() == 0
        }),
{
    lemma_first_refusal(events, policy.provider_kind);
    let key = if opportunity.interface is Some {
        opportunity.interface->0
    } else {
        Seq::empty()
    };
    lemma_stored(
        state.interface_triggers,
        key,
        InterfaceTriggerState { pending: None, ..trigger_of(state, key) },
    );
    let reached = exists|i: int| 0 <= i < events.len() && reaches(#[trigger] events[i]);
    let test = |e: MeasurementEvent| super::rules::reached_provider(e);
    assert(events.any(test) == reached) by {
        if reached {
            let i = choose|i: int| 0 <= i < events.len() && reaches(#[trigger] events[i]);
            assert(test(events[i]));
        }
        if events.any(test) {
            let i = choose|i: int| 0 <= i < events.len() && #[trigger] test(events[i]);
            assert(reaches(events[i]));
        }
    }
    let eligible = crate::time::later(now, policy.min_spacing);
    assert((|t: Timestamp| t.nanos >= eligible.nanos) =~= (|t: Timestamp|
        t.nanos >= now.nanos + policy.min_spacing.nanos));
}

/// The starts that a list names for a provider are taken over: all of them are starts then, no
/// start is lost, no other joins them, they stay in order, and the last start is no earlier than
/// any of the list.
pub proof fn law_listed_starts_are_taken_over(
    state: StateView,
    entries: Seq<ReservationLedgerEntry>,
    provider_id: Seq<char>,
)
    ensures
        ({
            let next = with_ledger(state, entries, provider_id);
            &&& forall|i: int|
                0 <= i < entries.len() && (#[trigger] entries[i]).provider_id@ == provider_id ==> {
                    &&& next.runs.contains(entries[i].started_at_utc)
                    &&& next.last_started_at_utc is Some
                    &&& next.last_started_at_utc->0.nanos >= entries[i].started_at_utc.nanos
                }
            &&& forall|t: Timestamp| state.runs.contains(t) ==> #[trigger] next.runs.contains(t)
            &&& state.last_started_at_utc matches Some(last) ==> next.last_started_at_utc is Some
                && next.last_started_at_utc->0.nanos >= last.nanos
            &&& forall|t: Timestamp| #[trigger]
                next.runs.contains(t) ==> state.runs.contains(t) || exists|i: int|
                    0 <= i < entries.len() && (#[trigger] entries[i]).provider_id@ == provider_id
                        && entries[i].started_at_utc == t
            &&& forall|i: int, j: int|
                0 <= i <= j < next.runs.len() ==> (#[trigger] next.runs[i]).nanos <= (
                #[trigger] next.runs[j]).nanos
            &&& next.slots == state.slots
            &&& next.cooldown_until_utc == state.cooldown_until_utc
        }),
{
    broadcast use vstd::seq_lib::group_to_multiset_ensures;

    let times = reserved_for(entries, provider_id);
    let merged = super::rules::with_reservations(state.runs, times);
    let runs = merged.sort_by(by_time());
    merged.lemma_sort_by_ensures(by_time());
    lemma_listed(entries, provider_id);
    lemma_merged(state.runs, times);
    lemma_latest(state.last_started_at_utc, times);
    assert forall|t: Timestamp| merged.contains(t) <==> #[trigger] runs.contains(t) by {
        assert(merged.contains(t) <==> merged.to_multiset().contains(t));
        assert(runs.contains(t) <==> runs.to_multiset().contains(t));
    }
    assert forall|i: int, j: int| 0 <= i <= j < runs.len() implies (#[trigger] runs[i]).nanos <= (
    #[trigger] runs[j]).nanos by {
        if i < j {
            assert(by_time()(runs[i], runs[j]));
        }
    }
    assert forall|i: int|
        0 <= i < entries.len() && (#[trigger] entries[i]).provider_id@ == provider_id implies {
        let next = with_ledger(state, entries, provider_id);
        &&& next.runs.contains(entries[i].started_at_utc)
        &&& next.last_started_at_utc is Some
        &&& next.last_started_at_utc->0.nanos >= entries[i].started_at_utc.nanos
    } by {
        assert(times.contains(entries[i].started_at_utc));
    }
}

proof fn lemma_listed(entries: Seq<ReservationLedgerEntry>, provider_id: Seq<char>)
    ensures
        forall|t: Timestamp| #[trigger]
            reserved_for(entries, provider_id).contains(t) <==> exists|i: int|
                0 <= i < entries.len() && (#[trigger] entries[i]).provider_id@ == provider_id
                    && entries[i].started_at_utc == t,
    decreases entries.len(),
{
    if entries.len() > 0 {
        let rest = entries.drop_last();
        let n = entries.len() - 1;
        lemma_listed(rest, provider_id);
        let before = reserved_for(rest, provider_id);
        let after = reserved_for(entries, provider_id);
        assert(entries[n] == entries.last());
        assert(forall|i: int| 0 <= i < n ==> #[trigger] rest[i] == entries[i]);
        assert forall|t: Timestamp| #[trigger] after.contains(t) <==> exists|i: int|
            0 <= i < entries.len() && (#[trigger] entries[i]).provider_id@ == provider_id
                && entries[i].started_at_utc == t by {
            if after.contains(t) {
                let k = choose|k: int| 0 <= k < after.len() && after[k] == t;
                if k < before.len() {
                    assert(before[k] == t);
                    assert(before.contains(t));
                    let i = choose|i: int|
                        0 <= i < rest.len() && (#[trigger] rest[i]).provider_id@ == provider_id
                            && rest[i].started_at_utc == t;
                    assert(entries[i] == rest[i]);
                } else {
                    assert(entries[n].started_at_utc == t);
                }
            }
            if exists|i: int|
                0 <= i < entries.len() && (#[trigger] entries[i]).provider_id@ == provider_id
                    && entries[i].started_at_utc == t {
                let i = choose|i: int|
                    0 <= i < entries.len() && (#[trigger] entries[i]).provider_id@ == provider_id
                        && entries[i].started_at_utc == t;
                if i < n {
                    assert(rest[i] == entries[i]);
                    assert(before.contains(t));
                    let k = choose|k: int| 0 <= k < before.len() && before[k] == t;
                    assert(after[k] == t);
                } else {
                    assert(after[after.len() - 1] == t);
                }
            }
        }
    }
}

proof fn lemma_merged(runs: Seq<Timestamp>, times: Seq<Timestamp>)
    ensures
        forall|t: Timestamp| #[trigger]
            super::rules::with_reservations(runs, times).contains(t) <==> runs.contains(t)
                || times.contains(t),
    decreases times.len(),
{
    let after = super::rules::with_reservations(runs, times);
    if times.len() > 0 {
        let rest = times.drop_last();
        lemma_merged(runs, rest);
        let before = super::rules::with_reservations(runs, rest);
        assert forall|t: Timestamp| #[trigger] after.contains(t) <==> runs.contains(t)
            || times.contains(t) by {
            lemma_push_contains(before, times.last(), t);
            lemma_push_contains(rest, times.last(), t);
            assert(times =~= rest.push(times.last()));
        }
    }
}

proof fn lemma_push_contains(times: Seq<Timestamp>, last: Timestamp, t: Timestamp)
    ensures
        times.push(last).contains(t) <==> times.contains(t) || t == last,
{
    let after = times.push(last);
    assert(after[times.len() as int] == last);
    if times.contains(t) {
        let k = choose|k: int| 0 <= k < times.len() && times[k] == t;
        assert(after[k] == t);
    }
    if after.contains(t) && t != last {
        let k = choose|k: int| 0 <= k < after.len() && after[k] == t;
        assert(times[k] == t);
    }
}

proof fn lemma_latest(last: Option<Timestamp>, times: Seq<Timestamp>)
    ensures
        ({
            let latest = super::rules::latest_start(last, times);
            &&& forall|t: Timestamp| #[trigger]
                times.contains(t) ==> latest is Some && latest->0.nanos >= t.nanos
            &&& last is Some ==> latest is Some && latest->0.nanos >= last->0.nanos
        }),
    decreases times.len(),
{
    if times.len() > 0 {
        let rest = times.drop_last();
        lemma_latest(last, rest);
        let latest = super::rules::latest_start(last, times);
        assert forall|t: Timestamp| #[trigger] times.contains(t) implies latest is Some
            && latest->0.nanos >= t.nanos by {
            lemma_push_contains(rest, times.last(), t);
            assert(times =~= rest.push(times.last()));
        }
    }
}

proof fn lemma_one_more_start(runs: Seq<Timestamp>, sorted: Seq<Timestamp>, now: Timestamp)
    requires
        sorted.to_multiset() == runs.to_multiset().insert(now),
    ensures
        sorted.filter(on_the_day_of(now)).len() == runs.filter(on_the_day_of(now)).len() + 1,
{
    broadcast use vstd::seq_lib::group_to_multiset_ensures;
    broadcast use vstd::multiset::group_multiset_axioms;

    super::laws::lemma_count_is_of_multiset(runs.push(now), now.day_number());
    super::laws::lemma_count_is_of_multiset(sorted, now.day_number());
    lemma_starts_of_the_day(sorted, now);
    lemma_starts_of_the_day(runs.push(now), now);
    lemma_starts_of_the_day(runs, now);
    assert(sorted.to_multiset() =~= runs.push(now).to_multiset());
    assert(runs.push(now).drop_last() =~= runs);
}

/// A scheduler admits a start exactly if the day has not seen its maximum, no cooldown is on and
/// the spacing is kept or waived. An admitted start is told as the how many of the day it is, which
/// is never more than the maximum, and is on the account; a refused one is not.
pub proof fn law_account_admits_within_its_limits(
    account: Scheduler,
    started_at: Timestamp,
    admission: Result<AdmissionReservation, String>,
    after: Scheduler,
)
    requires
        account.admits(started_at, admission, &after),
        account.policy.daily_max < u32::MAX,
        started_at.valid(),
    ensures
        ({
            let state = rolled(account.state@, account.policy, started_at);
            let seen = starts_of_the_day(state, started_at);
            let close = !account.policy.force_limits && too_close(
                state,
                account.policy,
                started_at,
            );
            &&& admission is Ok <==> seen < account.policy.daily_max && !cooling(state, started_at)
                && !close
            &&& admission matches Ok(reservation) ==> {
                &&& reservation is Reserved
                &&& reservation->daily_runs_used == seen + 1
                &&& reservation->daily_runs_used <= account.policy.daily_max
                &&& starts_of_the_day(after.state@, started_at) == seen + 1
                &&& after.state@.runs.contains(started_at)
                &&& after.state@.last_started_at_utc == Some(started_at)
                &&& after.unsaved
            }
            &&& admission is Err ==> after.state@ == state
            &&& after.policy == account.policy
            &&& after.others == account.others
        }),
{
    let state = rolled(account.state@, account.policy, started_at);
    law_start_is_refused_for_a_reason(state, account.policy, started_at);
    if admission is Ok {
        let runs = after.state@.runs;
        law_start_is_written_down(account.state@, account.policy, started_at);
        lemma_one_more_start(state.runs, runs, started_at);
        lemma_starts_of_the_day(runs, started_at);
        runs.to_multiset_ensures();
        assert(runs.to_multiset().contains(started_at));
    }
}

/// A scheduler opens with every start that was stored for its provider since midnight and every
/// one that the list names for it, and with a plan that is ahead. Whatever the stored plan was made
/// for, the limits it is held to are those of the policy.
pub proof fn law_opening_keeps_the_account(
    state: StateView,
    policy: SchedulerPolicy,
    now: Timestamp,
)
    ensures
        ({
            let day = now.nanos as int / 86_400_000_000_000;
            let next = reconciled(state, policy, now);
            let current = rolled(state, policy, now);
            let same = current.policy_daily_max == policy.daily_max
                && current.policy_min_spacing_ms == policy.min_spacing.millis_capped()
                && current.policy_slot_jitter_pct == policy.slot_jitter_pct;
            &&& forall|t: Timestamp| #[trigger]
                next.runs.contains(t) ==> state.runs.contains(t)
            &&& forall|t: Timestamp|
                state.runs.contains(t) && t.nanos as int / 86_400_000_000_000 >= day
                    ==> #[trigger] next.runs.contains(t)
            &&& next.last_started_at_utc == state.last_started_at_utc
            &&& next.backoff_step == state.backoff_step
            &&& cooling(state, now) ==> next.cooldown_until_utc == state.cooldown_until_utc
            &&& forall|i: int|
                0 <= i < next.slots.len() ==> (#[trigger] next.slots[i]).nanos > now.nanos
            &&& next.policy_daily_max == policy.daily_max
            &&& next.policy_min_spacing_ms == policy.min_spacing.millis_capped()
            &&& next.policy_slot_jitter_pct == policy.slot_jitter_pct
            &&& same ==> next.slots == current.slots.filter(|t: Timestamp| t.nanos > now.nanos)
            &&& same ==> next.deferred == current.deferred && next.interface_triggers
                == current.interface_triggers
            &&& !same && policy.daily_max == 0 ==> next.slots.len() == 0 && next.deferred is None
                && next.interface_triggers.len() == 0
            &&& !same && policy.daily_max > 0 ==> next.slots == replanned(
                current,
                policy,
                now,
            ).slots.filter(|t: Timestamp| t.nanos > now.nanos) && next.deferred == current.deferred
                && next.interface_triggers == current.interface_triggers
            &&& next.last_observed_utc.nanos >= now.nanos
            &&& next.last_observed_utc.nanos >= state.last_observed_utc.nanos
        }),
{
    broadcast use vstd::seq_lib::group_filter_ensures;

    let day = now.nanos as int / 86_400_000_000_000;
    let next = reconciled(state, policy, now);
    let current = rolled(state, policy, now);
    law_new_day_begins_afresh(state, policy, now);
    let keep = |t: Timestamp| t.nanos as int / 86_400_000_000_000 >= day;
    let ahead = |t: Timestamp| t.nanos > now.nanos;
    let plan = super::rules::adopted(current, policy, now).slots;
    assert(next.slots == plan.filter(ahead));
    assert forall|i: int| 0 <= i < next.slots.len() implies (#[trigger] next.slots[i]).nanos
        > now.nanos by {
        assert(ahead(plan.filter(ahead)[i]));
    }
    assert(next.runs == current.runs);
    if day > state.day_utc.day {
        assert forall|t: Timestamp| #[trigger] next.runs.contains(t) implies state.runs.contains(
            t,
        ) by {
            let i = choose|i: int| 0 <= i < next.runs.len() && next.runs[i] == t;
            super::laws::lemma_filter_is_from(state.runs, keep, i);
        }
        assert forall|t: Timestamp|
            state.runs.contains(t) && t.nanos as int / 86_400_000_000_000
                >= day implies #[trigger] next.runs.contains(t) by {
            assert(keep(t));
            let i = choose|i: int| 0 <= i < state.runs.len() && state.runs[i] == t;
            assert(next.runs.contains(state.runs[i])) by {
                broadcast use vstd::seq_lib::group_filter_ensures;

            }
        }
    }
}

/// The events of a test are told with what it was asked for, when it was to run and the day's
/// starts, and with nothing else changed.
pub proof fn law_events_tell_their_test(
    event: MeasurementEvent,
    opportunity: OpportunityView,
    used: u32,
)
    ensures
        ({
            let told = accounted(event, opportunity, used);
            &&& told.trigger_reason == Some(opportunity.reason)
            &&& told.scheduled_at_utc == Some(opportunity.scheduled_at_utc)
            &&& told.provider_daily_starts == Some(used)
            &&& told == (MeasurementEvent {
                trigger_reason: told.trigger_reason,
                scheduled_at_utc: told.scheduled_at_utc,
                provider_daily_starts: told.provider_daily_starts,
                ..event
            })
        }),
{
}

/// A test that is asked for by hand is due at once, on the first interface that was named.
pub proof fn law_manual_test_is_due_at_once(
    now: Timestamp,
    interfaces: Vec<String>,
    opportunity: BandwidthOpportunity,
)
    requires
        call_ensures(manual_opportunity, (now, &interfaces), opportunity),
    ensures
        opportunity.reason is Manual,
        opportunity.scheduled_at_utc == now,
        interfaces@.len() > 0 ==> opportunity.interface == Some(interfaces@[0]),
        interfaces@.len() == 0 ==> opportunity.interface is None,
{
}

/// A scheduler is held to the limits of its configuration.
pub proof fn law_limits_are_those_of_the_configuration(
    config: BandwidthConfig,
    policy: SchedulerPolicy,
)
    requires
        call_ensures(SchedulerPolicy::of, (&config,), policy),
    ensures
        policy.provider_id == config.provider_id,
        policy.provider_kind is Mlab <==> config.provider is Mlab,
        policy.daily_max == config.daily_max,
        policy.min_spacing == config.min_spacing,
        policy.slot_jitter_pct == config.slot_jitter_pct,
        policy.pending_ttl == config.trigger.pending_ttl,
        policy.cooldown_initial == config.cooldown.initial,
        policy.cooldown_max == config.cooldown.max,
        policy.force_limits == config.force_limits,
{
}

} // verus!
