//! What holds of the scheduler whatever it is asked.
use super::plan::{by_time, count_on_day};
use super::rules::{
    OpportunityView, RateLimit, backed_off, backoff_base, blocked, completed, cooldown_for, cooled,
    first_due, observed, polled, put_off, refused, replanned, reserved, rolled, started, used_today,
    with_reservations,
};
use super::state::StateView;
use super::{
    ReservationLedgerEntry, SchedulerPolicy, MAX_RATE_LIMIT_ATTEMPTS, limits_of, reserved_for,
    with_ledger,
};
use crate::config::BandwidthConfig;
use crate::config::bandwidth::{BandwidthSettings, law_mlab_terms_are_kept};
use crate::health::HealthDecision;
use crate::time::{Duration, Timestamp, day_end_of, later};
use vstd::multiset::Multiset;
use vstd::prelude::*;
use vstd::seq_lib::lemma_sorted_unique;

verus! {

/// A test may start exactly when the daily maximum is not reached, no cooldown is running and
/// the last start is far enough in the past.
pub proof fn law_admission(state: StateView, policy: SchedulerPolicy, now: Timestamp)
    ensures
        blocked(state, policy, now) is None <==> {
            &&& used_today(state, now) < policy.daily_max
            &&& cooled(state, now)
            &&& policy.force_limits || state.last_started_at_utc is None || now.nanos >= later(
                state.last_started_at_utc->0,
                policy.min_spacing,
            ).nanos
        },
{
}

pub(crate) open spec fn on_day(day: int) -> spec_fn(Timestamp) -> bool {
    |t: Timestamp| t.day_number() == day
}

pub(crate) proof fn lemma_count_is_of_multiset(runs: Seq<Timestamp>, day: int)
    ensures
        count_on_day(runs, day) == runs.to_multiset().filter(on_day(day)).len(),
    decreases runs.len(),
{
    broadcast use vstd::multiset::group_multiset_axioms;
    broadcast use vstd::seq_lib::group_to_multiset_ensures;

    if runs.len() == 0 {
        assert(runs.to_multiset() =~= Multiset::empty());
        assert(runs.to_multiset().filter(on_day(day)) =~= Multiset::empty());
    } else {
        let rest = runs.drop_last();
        lemma_count_is_of_multiset(rest, day);
        assert(runs =~= rest.push(runs.last()));
        assert(runs.to_multiset() =~= rest.to_multiset().insert(runs.last()));
        if on_day(day)(runs.last()) {
            assert(runs.to_multiset().filter(on_day(day)) =~= rest.to_multiset().filter(
                on_day(day),
            ).insert(runs.last()));
        } else {
            assert(runs.to_multiset().filter(on_day(day)) =~= rest.to_multiset().filter(
                on_day(day),
            ));
        }
    }
}

proof fn lemma_count_ignores_order(runs: Seq<Timestamp>, day: int)
    ensures
        count_on_day(runs.sort_by(by_time()), day) == count_on_day(runs, day),
{
    lemma_count_is_of_multiset(runs, day);
    lemma_count_is_of_multiset(runs.sort_by(by_time()), day);
    runs.lemma_sort_by_ensures(by_time());
}

/// An admitted start uses one of the day's starts, and the daily maximum is never exceeded.
pub proof fn law_reservation_uses_one_start(
    state: StateView,
    policy: SchedulerPolicy,
    now: Timestamp,
)
    requires
        blocked(rolled(state, policy, now), policy, now) is None,
    ensures
        used_today(reserved(state, policy, now), now) == used_today(
            rolled(state, policy, now),
            now,
        ) + 1,
        used_today(reserved(state, policy, now), now) <= policy.daily_max,
{
    let runs = rolled(state, policy, now).runs;
    let day = now.day_number();
    lemma_count_ignores_order(runs.push(now), day);
    assert(runs.push(now).drop_last() =~= runs);
    assert(count_on_day(runs.push(now), day) == count_on_day(runs, day) + 1);
}

/// Tests with M-Lab start at most four times a day, whoever asks for them, and not in the
/// thirty-six minutes after a start.
pub proof fn law_mlab_starts_are_limited(
    settings: BandwidthSettings,
    directory: Seq<char>,
    config: BandwidthConfig,
    state: StateView,
    now: Timestamp,
)
    requires
        settings.fault() is None,
        settings.describes(directory, config),
        config.provider is Mlab,
        blocked(rolled(state, limits_of(config), now), limits_of(config), now) is None,
    ensures
        used_today(reserved(state, limits_of(config), now), now) <= 4,
        rolled(state, limits_of(config), now).last_started_at_utc matches Some(last)
            ==> now.nanos >= later(last, Duration { nanos: 2_160_000_000_000 }).nanos,
{
    law_mlab_terms_are_kept(settings, directory, config);
    law_reservation_uses_one_start(state, limits_of(config), now);
}

/// After an admitted start no other is admitted before the minimum spacing has passed.
pub proof fn law_starts_are_spaced(
    state: StateView,
    policy: SchedulerPolicy,
    now: Timestamp,
    again: Timestamp,
)
    requires
        !policy.force_limits,
        again.nanos < later(now, policy.min_spacing).nanos,
    ensures
        blocked(rolled(reserved(state, policy, now), policy, again), policy, again) is Some,
{
}

/// A new day does not end a cooldown: nothing is admitted before its deadline.
pub proof fn law_cooldown_survives_midnight(
    state: StateView,
    policy: SchedulerPolicy,
    now: Timestamp,
)
    requires
        state.cooldown_until_utc is Some,
        now.nanos < state.cooldown_until_utc->0.nanos,
    ensures
        rolled(state, policy, now).cooldown_until_utc == state.cooldown_until_utc,
        blocked(rolled(state, policy, now), policy, now) is Some,
{
}

/// A refusal starts a cooldown: nothing is admitted before the delay that the provider asked
/// for, or that backing off comes to, has passed.
pub proof fn law_refusal_starts_a_cooldown(
    state: StateView,
    policy: SchedulerPolicy,
    now: Timestamp,
    opportunity: OpportunityView,
    was_reserved: bool,
    limit: RateLimit,
    again: Timestamp,
)
    ensures
        ({
            let next = refused(state, policy, now, opportunity, was_reserved, limit);
            let deadline = later(now, cooldown_for(state, policy, limit).0);
            &&& next.cooldown_until_utc == Some(deadline)
            &&& again.nanos < deadline.nanos ==> blocked(
                rolled(next, policy, again),
                policy,
                again,
            ) is Some
        }),
{
}

/// A test that the provider keeps refusing is put off four times at most, and never beyond the
/// day it was to run on.
pub proof fn law_put_off_is_bounded(
    state: StateView,
    now: Timestamp,
    deadline: Timestamp,
    opportunity: OpportunityView,
)
    requires
        now.schedulable(),
    ensures
        match put_off(state, now, deadline, opportunity) {
            Some(deferred) => {
                &&& 1 <= deferred.rate_limit_attempts < MAX_RATE_LIMIT_ATTEMPTS
                &&& state.deferred is Some ==> deferred.rate_limit_attempts
                    > state.deferred->0.rate_limit_attempts
                &&& deadline.nanos < deferred.expires_at_utc.nanos
                &&& deferred.expires_at_utc.nanos == day_end_of(now.day_number())
            },
            None => true,
        },
{
}

/// Backing off grows with each step and never beyond the longest delay.
pub proof fn law_backoff_grows(policy: SchedulerPolicy, step: u8)
    ensures
        backoff_base(policy, step).nanos <= backoff_base(policy, backed_off(step)).nanos,
        backoff_base(policy, step).nanos <= policy.cooldown_max.nanos,
        backed_off(step) <= 4,
{
}

proof fn lemma_count_of_kept(runs: Seq<Timestamp>, first: int, day: int)
    requires
        first <= day,
    ensures
        count_on_day(runs.filter(|t: Timestamp| t.day_number() >= first), day) == count_on_day(
            runs,
            day,
        ),
    decreases runs.len(),
{
    reveal(Seq::filter);
    let test = |t: Timestamp| t.day_number() >= first;
    if runs.len() > 0 {
        let rest = runs.drop_last();
        lemma_count_of_kept(rest, first, day);
        if test(runs.last()) {
            assert(runs.filter(test) == rest.filter(test).push(runs.last()));
            assert(runs.filter(test).drop_last() =~= rest.filter(test));
        } else {
            assert(runs.filter(test) == rest.filter(test));
        }
    }
}

/// Moving on to a day forgets none of the starts of that day.
pub proof fn law_new_day_keeps_its_starts(
    state: StateView,
    policy: SchedulerPolicy,
    now: Timestamp,
)
    ensures
        used_today(rolled(state, policy, now), now) == used_today(state, now),
{
    lemma_count_of_kept(state.runs, now.day_number(), now.day_number());
}

/// A start is admitted when it is asked for.
pub open spec fn admitted(state: StateView, policy: SchedulerPolicy, now: Timestamp) -> bool {
    blocked(rolled(state, policy, now), policy, now) is None
}

/// The state after a start was asked for.
pub open spec fn after_asking(state: StateView, policy: SchedulerPolicy, now: Timestamp)
    -> StateView {
    if admitted(state, policy, now) {
        reserved(state, policy, now)
    } else {
        rolled(state, policy, now)
    }
}

/// Starts are asked for one after the other, from an account without any: `states` are the states
/// before each of them and after the last.
pub open spec fn starts_asked(
    states: Seq<StateView>,
    times: Seq<Timestamp>,
    policy: SchedulerPolicy,
) -> bool {
    &&& states.len() == times.len() + 1
    &&& states[0].runs.len() == 0
    &&& states[0].last_started_at_utc is None
    &&& forall|i: int, j: int|
        0 <= i <= j < times.len() ==> (#[trigger] times[i]).nanos <= (#[trigger] times[j]).nanos
    &&& forall|j: int|
        0 <= j < times.len() ==> states[j + 1] == after_asking(
            states[j],
            policy,
            #[trigger] times[j],
        )
}

/// How many of the first starts that were asked for were admitted on a day.
pub open spec fn admitted_on(
    states: Seq<StateView>,
    times: Seq<Timestamp>,
    policy: SchedulerPolicy,
    day: int,
    first: int,
) -> nat
    decreases first,
{
    if first <= 0 {
        0
    } else {
        admitted_on(states, times, policy, day, first - 1) + if times[first - 1].day_number()
            == day && admitted(states[first - 1], policy, times[first - 1]) {
            1nat
        } else {
            0nat
        }
    }
}

proof fn lemma_count_after_asking(
    state: StateView,
    policy: SchedulerPolicy,
    now: Timestamp,
    day: int,
)
    requires
        now.day_number() <= day,
    ensures
        count_on_day(after_asking(state, policy, now).runs, day) == count_on_day(state.runs, day)
            + if now.day_number() == day && admitted(state, policy, now) {
            1nat
        } else {
            0nat
        },
{
    lemma_count_of_kept(state.runs, now.day_number(), day);
    let runs = rolled(state, policy, now).runs;
    assert(count_on_day(runs, day) == count_on_day(state.runs, day));
    lemma_count_ignores_order(runs.push(now), day);
    assert(runs.push(now).drop_last() =~= runs);
}

proof fn lemma_asked_so_far(
    states: Seq<StateView>,
    times: Seq<Timestamp>,
    policy: SchedulerPolicy,
    k: int,
)
    requires
        starts_asked(states, times, policy),
        0 <= k <= times.len(),
    ensures
        forall|day: int|
            (k > 0 ==> times[k - 1].day_number() <= day) ==> #[trigger] count_on_day(
                states[k].runs,
                day,
            ) == admitted_on(states, times, policy, day, k),
        forall|day: int| #[trigger]
            admitted_on(states, times, policy, day, k) <= policy.daily_max,
        forall|i: int|
            0 <= i < k && admitted(states[i], policy, #[trigger] times[i])
                ==> states[k].last_started_at_utc is Some && times[i].nanos
                <= states[k].last_started_at_utc->0.nanos,
    decreases k,
{
    if k > 0 {
        let j = k - 1;
        let now = times[j];
        lemma_asked_so_far(states, times, policy, j);
        assert(states[j + 1] == after_asking(states[j], policy, times[j]));
        assert(j > 0 ==> times[j - 1].nanos <= times[j].nanos);
        assert forall|day: int| now.day_number() <= day implies #[trigger] count_on_day(
            states[k].runs,
            day,
        ) == admitted_on(states, times, policy, day, k) by {
            lemma_count_after_asking(states[j], policy, now, day);
            assert(count_on_day(states[j].runs, day) == admitted_on(
                states,
                times,
                policy,
                day,
                j,
            ));
        }
        assert forall|day: int| #[trigger]
            admitted_on(states, times, policy, day, k) <= policy.daily_max by {
            assert(admitted_on(states, times, policy, day, j) <= policy.daily_max);
            if now.day_number() == day && admitted(states[j], policy, now) {
                law_new_day_keeps_its_starts(states[j], policy, now);
                assert(count_on_day(states[j].runs, day) == admitted_on(
                    states,
                    times,
                    policy,
                    day,
                    j,
                ));
            }
        }
        assert forall|i: int|
            0 <= i < k && admitted(
                states[i],
                policy,
                #[trigger] times[i],
            ) implies states[k].last_started_at_utc is Some && times[i].nanos
            <= states[k].last_started_at_utc->0.nanos by {
            assert(times[i].nanos <= times[j].nanos);
        }
    }
}

/// However often starts are asked for, by hand or by plan, no more than the daily maximum are
/// admitted on a day. The number that is told with a start counts those of its day. Two starts are
/// at least the minimum spacing apart unless that is waived, and none comes before a cooldown is
/// over. A start that is refused changes neither the starts of the day nor the last one.
pub proof fn law_starts_of_a_day_are_limited(
    states: Seq<StateView>,
    times: Seq<Timestamp>,
    policy: SchedulerPolicy,
)
    requires
        starts_asked(states, times, policy),
    ensures
        forall|day: int| #[trigger]
            admitted_on(states, times, policy, day, times.len() as int) <= policy.daily_max,
        forall|j: int|
            0 <= j < times.len() && admitted(states[j], policy, #[trigger] times[j]) ==> {
                &&& used_today(states[j + 1], times[j]) == 1 + admitted_on(
                    states,
                    times,
                    policy,
                    times[j].day_number(),
                    j,
                )
                &&& cooled(states[j], times[j])
            },
        forall|i: int, j: int|
            0 <= i < j < times.len() && admitted(states[i], policy, #[trigger] times[i])
                && admitted(states[j], policy, #[trigger] times[j]) && !policy.force_limits
                ==> times[j].nanos >= later(times[i], policy.min_spacing).nanos,
        forall|j: int|
            0 <= j < times.len() && !admitted(states[j], policy, #[trigger] times[j]) ==> {
                &&& used_today(states[j + 1], times[j]) == used_today(states[j], times[j])
                &&& states[j + 1].last_started_at_utc == states[j].last_started_at_utc
            },
{
    lemma_asked_so_far(states, times, policy, times.len() as int);
    assert forall|j: int|
        0 <= j < times.len() && admitted(states[j], policy, #[trigger] times[j]) implies {
        &&& used_today(states[j + 1], times[j]) == 1 + admitted_on(
            states,
            times,
            policy,
            times[j].day_number(),
            j,
        )
        &&& cooled(states[j], times[j])
    } by {
        let day = times[j].day_number();
        lemma_asked_so_far(states, times, policy, j);
        law_new_day_keeps_its_starts(states[j], policy, times[j]);
        law_reservation_uses_one_start(states[j], policy, times[j]);
        assert(j > 0 ==> times[j - 1].nanos <= times[j].nanos);
        assert(count_on_day(states[j].runs, day) == admitted_on(states, times, policy, day, j));
    }
    assert forall|i: int, j: int|
        0 <= i < j < times.len() && admitted(states[i], policy, #[trigger] times[i]) && admitted(
            states[j],
            policy,
            #[trigger] times[j],
        ) && !policy.force_limits implies times[j].nanos >= later(
        times[i],
        policy.min_spacing,
    ).nanos by {
        lemma_asked_so_far(states, times, policy, j);
        let last = states[j].last_started_at_utc->0;
        assert(rolled(states[j], policy, times[j]).last_started_at_utc == Some(last));
        assert(times[j].nanos >= later(last, policy.min_spacing).nanos);
    }
    assert forall|j: int|
        0 <= j < times.len() && !admitted(states[j], policy, #[trigger] times[j]) implies {
        &&& used_today(states[j + 1], times[j]) == used_today(states[j], times[j])
        &&& states[j + 1].last_started_at_utc == states[j].last_started_at_utc
    } by {
        law_new_day_keeps_its_starts(states[j], policy, times[j]);
    }
}

/// Nothing but a new day takes a start off the account: not a health report, not a poll, not a
/// refusal and not the end of a test.
pub proof fn law_starts_are_never_refunded(
    state: StateView,
    policy: SchedulerPolicy,
    now: Timestamp,
    interface: Option<Seq<char>>,
    decision: HealthDecision,
    loss_text: Seq<char>,
    rtt_text: Option<Seq<char>>,
    latest_success: Seq<(Seq<char>, bool)>,
    opportunity: OpportunityView,
    was_reserved: bool,
    reached: bool,
    limit: RateLimit,
)
    ensures
        used_today(
            observed(state, policy, now, interface, decision, loss_text, rtt_text).state,
            now,
        ) == used_today(state, now),
        used_today(polled(state, policy, now, latest_success).state, now) == used_today(state, now),
        used_today(refused(state, policy, now, opportunity, was_reserved, limit), now)
            == used_today(state, now),
        used_today(completed(state, policy, now, opportunity, was_reserved, reached), now)
            == used_today(state, now),
{
    law_new_day_keeps_its_starts(state, policy, now);
}

proof fn lemma_known_reservations(runs: Seq<Timestamp>, times: Seq<Timestamp>)
    requires
        forall|i: int| 0 <= i < times.len() ==> runs.contains(#[trigger] times[i]),
    ensures
        with_reservations(runs, times) == runs,
    decreases times.len(),
{
    if times.len() > 0 {
        assert forall|i: int| 0 <= i < times.drop_last().len() implies runs.contains(
            #[trigger] times.drop_last()[i],
        ) by {
            assert(times.drop_last()[i] == times[i]);
        }
        lemma_known_reservations(runs, times.drop_last());
        assert(runs.contains(times[times.len() - 1]));
    }
}

proof fn lemma_reservations_are_taken(runs: Seq<Timestamp>, times: Seq<Timestamp>)
    ensures
        forall|i: int|
            0 <= i < times.len() ==> with_reservations(runs, times).contains(#[trigger] times[i]),
        forall|i: int|
            0 <= i < runs.len() ==> with_reservations(runs, times).contains(#[trigger] runs[i]),
    decreases times.len(),
{
    let after = with_reservations(runs, times);
    if times.len() == 0 {
        assert forall|i: int| 0 <= i < runs.len() implies after.contains(#[trigger] runs[i]) by {
            assert(after[i] == runs[i]);
        }
    } else {
        let rest = times.drop_last();
        let before = with_reservations(runs, rest);
        lemma_reservations_are_taken(runs, rest);
        assert forall|t: Timestamp| before.contains(t) implies after.contains(t) by {
            let k = choose|k: int| 0 <= k < before.len() && before[k] == t;
            assert(after[k] == t);
        }
        assert(after.contains(times.last())) by {
            if !before.contains(times.last()) {
                assert(after[after.len() - 1] == times.last());
            }
        }
        assert forall|i: int| 0 <= i < times.len() implies after.contains(#[trigger] times[i]) by {
            if i < rest.len() {
                assert(rest[i] == times[i]);
                assert(before.contains(rest[i]));
            }
        }
        assert forall|i: int| 0 <= i < runs.len() implies after.contains(#[trigger] runs[i]) by {
            assert(before.contains(runs[i]));
        }
    }
}

/// Taking over a list of reservations again changes nothing: a start that was written down twice
/// is counted once.
pub proof fn law_ledger_counts_once(
    state: StateView,
    entries: Seq<ReservationLedgerEntry>,
    provider_id: Seq<char>,
)
    ensures
        with_ledger(with_ledger(state, entries, provider_id), entries, provider_id).runs
            == with_ledger(state, entries, provider_id).runs,
{
    broadcast use vstd::seq_lib::group_to_multiset_ensures;

    let times = reserved_for(entries, provider_id);
    let merged = with_reservations(state.runs, times);
    let runs = merged.sort_by(by_time());
    merged.lemma_sort_by_ensures(by_time());
    lemma_reservations_are_taken(state.runs, times);
    assert forall|i: int| 0 <= i < times.len() implies runs.contains(#[trigger] times[i]) by {
        assert(merged.contains(times[i]));
        assert(merged.to_multiset().contains(times[i]));
        assert(runs.to_multiset().contains(times[i]));
    }
    lemma_known_reservations(runs, times);
    runs.lemma_sort_by_ensures(by_time());
    lemma_sorted_unique(runs.sort_by(by_time()), runs, by_time());
}

/// Starting, putting off or giving up a test leaves no planned test behind that is due.
pub proof fn law_no_due_slot_is_left(
    state: StateView,
    policy: SchedulerPolicy,
    now: Timestamp,
    latest_success: Seq<(Seq<char>, bool)>,
    i: int,
)
    requires
        0 <= i < started(state, Seq::empty(), policy, now, latest_success).state.slots.len(),
    ensures
        started(state, Seq::empty(), policy, now, latest_success).state.slots[i].nanos > now.nanos,
{
    broadcast use vstd::seq_lib::group_filter_ensures;

    let after = started(state, Seq::empty(), policy, now, latest_success).state.slots;
    let due = state.slots.filter(|t: Timestamp| t.nanos <= now.nanos);
    let ahead = |t: Timestamp| t.nanos > now.nanos;
    let dropped = super::rules::due_dropped(state, now).slots;
    assert forall|k: int| 0 <= k < dropped.len() implies (#[trigger] dropped[k]).nanos
        > now.nanos by {
        if first_due(state.slots, now) is Some {
            assert(ahead(state.slots.filter(ahead)[k]));
        } else if state.slots[k].nanos <= now.nanos {
            assert(due.contains(state.slots[k]));
        }
    }
    if after != dropped {
        let taken = dropped[0];
        let other = |t: Timestamp| t != taken;
        assert(after == dropped.filter(other));
        lemma_filter_is_from(dropped, other, i);
    }
}

pub(crate) proof fn lemma_filter_is_from(times: Seq<Timestamp>, test: spec_fn(Timestamp) -> bool, i: int)
    requires
        0 <= i < times.filter(test).len(),
    ensures
        exists|k: int| 0 <= k < times.len() && #[trigger] times[k] == times.filter(test)[i],
    decreases times.len(),
{
    reveal(Seq::filter);
    let rest = times.drop_last();
    if i < rest.filter(test).len() {
        lemma_filter_is_from(rest, test, i);
        let k = choose|k: int| 0 <= k < rest.len() && #[trigger] rest[k] == rest.filter(test)[i];
        assert(times[k] == times.filter(test)[i]);
    } else {
        assert(times[times.len() - 1] == times.filter(test)[i]);
    }
}

/// A test that a poll starts from a plan or a trigger may be admitted at once.
pub proof fn law_started_test_is_admissible(
    state: StateView,
    policy: SchedulerPolicy,
    now: Timestamp,
    latest_success: Seq<(Seq<char>, bool)>,
)
    requires
        now.day_number() <= state.day_utc.day,
        started(state, Seq::empty(), policy, now, latest_success).opportunity is Some,
    ensures
        ({
            let next = started(state, Seq::empty(), policy, now, latest_success).state;
            blocked(rolled(next, policy, now), policy, now) is None
        }),
{
}

/// What is planned for the rest of a day fits into it: with the starts already used it does not
/// exceed the daily maximum, and the planned tests are spaced, come after any cooldown and end
/// with the day.
pub proof fn law_plan_fits_the_day(state: StateView, policy: SchedulerPolicy, now: Timestamp)
    requires
        now.schedulable(),
        policy.slot_jitter_pct <= 100,
    ensures
        ({
            let slots = replanned(state, policy, now).slots;
            &&& slots.len() > 0 ==> used_today(state, now) + slots.len() <= policy.daily_max
            &&& forall|i: int|
                0 <= i < slots.len() ==> {
                    &&& now.nanos <= (#[trigger] slots[i]).nanos < day_end_of(now.day_number())
                    &&& state.cooldown_until_utc is Some ==> slots[i].nanos
                        >= state.cooldown_until_utc->0.nanos
                    &&& state.last_started_at_utc is Some ==> slots[i].nanos >= later(
                        state.last_started_at_utc->0,
                        policy.min_spacing,
                    ).nanos
                }
            &&& forall|i: int, j: int|
                0 <= i < j < slots.len() ==> (#[trigger] slots[j]).nanos >= later(
                    #[trigger] slots[i],
                    policy.min_spacing,
                ).nanos
        }),
{
    let used = used_today(state, now);
    let remaining: u32 = if policy.daily_max >= used {
        (policy.daily_max - used) as u32
    } else {
        0
    };
    super::plan::law_planned_slots(
        state.rng_state,
        state.last_started_at_utc,
        state.cooldown_until_utc,
        policy.min_spacing,
        policy.slot_jitter_pct,
        now,
        Timestamp { nanos: day_end_of(now.day_number()) as i128 },
        remaining,
    );
}

} // verus!
