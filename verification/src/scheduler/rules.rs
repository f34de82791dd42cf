//! What the scheduler decides, as functions from state to state.
use super::plan::{plan, used_on_day};
use super::state::{
    DeferredView, InterfaceTriggerState, PendingTrigger, StateView, calm,
};
use super::{MAX_RATE_LIMIT_ATTEMPTS, SchedulerPolicy};
use crate::health::{DegradationReason, HealthDecision};
use crate::names::stage_text;
use crate::model::{
    ErrorKind, EventKind, MeasurementEvent, Outcome, ProviderKind, RequestStage, RunId,
    TriggerReason, blank_event,
};
use crate::string_map::{lookup, stored};
use crate::text::{dec, text_view};
use crate::time::{Duration, Timestamp, UtcDate, day_end_of, day_start_of, later};
use vstd::prelude::*;

verus! {

/// A decision as it is reported.
pub struct Note {
    pub outcome: Outcome,
    pub reason: TriggerReason,
    pub error_kind: Option<ErrorKind>,
    pub not_before: Option<Timestamp>,
    pub interface: Option<Seq<char>>,
    pub message: Seq<char>,
    pub used: u32,
}

/// The event that reports a decision.
pub open spec fn reports(
    event: MeasurementEvent,
    run_id: RunId,
    now: Timestamp,
    policy: SchedulerPolicy,
    note: Note,
) -> bool {
    &&& event == (MeasurementEvent {
        trigger_reason: Some(note.reason),
        provider_id: event.provider_id,
        provider_kind: Some(policy.provider_kind),
        interface: event.interface,
        scheduler_not_before_utc: note.not_before,
        provider_daily_starts: Some(note.used),
        error_kind: note.error_kind,
        message: event.message,
        ..blank_event(event.event_id, run_id, EventKind::Scheduler, note.outcome, now)
    })
    &&& text_view(event.provider_id) == Some(policy.provider_id@)
    &&& text_view(event.interface) == note.interface
    &&& text_view(event.message) == Some(note.message)
}

/// The events that report decisions, in order.
pub open spec fn all_report(
    events: Seq<MeasurementEvent>,
    run_id: RunId,
    now: Timestamp,
    policy: SchedulerPolicy,
    notes: Seq<Note>,
) -> bool {
    &&& events.len() == notes.len()
    &&& forall|i: int|
        0 <= i < notes.len() ==> reports(#[trigger] events[i], run_id, now, policy, notes[i])
}

/// A state and the decisions that led to it. `saves` says that the state is to be saved.
pub struct Step {
    pub state: StateView,
    pub notes: Seq<Note>,
    pub saves: bool,
}

/// Why no test may start.
pub struct Blocked {
    pub kind: ErrorKind,
    pub until: Option<Timestamp>,
    pub message: Seq<char>,
}

/// The runs that count against the daily maximum.
pub open spec fn used_today(state: StateView, now: Timestamp) -> u32 {
    used_on_day(state.runs, now.day_number())
}

/// Why no test may start now, if none may: the daily maximum first, then a cooldown, then the
/// minimum spacing.
pub open spec fn blocked(state: StateView, policy: SchedulerPolicy, now: Timestamp) -> Option<
    Blocked,
> {
    if policy.daily_max == 0 || used_today(state, now) >= policy.daily_max {
        Some(
            Blocked {
                kind: ErrorKind::DailyCap,
                until: None,
                message: "decision=suppressed reason=daily_cap used="@ + dec(
                    used_today(state, now) as nat,
                ) + " maximum="@ + dec(policy.daily_max as nat),
            },
        )
    } else if state.cooldown_until_utc is Some && now.nanos < state.cooldown_until_utc->0.nanos {
        let deadline = state.cooldown_until_utc->0;
        Some(
            Blocked {
                kind: ErrorKind::ProviderCooldown,
                until: Some(deadline),
                message: "decision=deferred reason=provider_cooldown until="@
                    + deadline.rfc3339_spec(),
            },
        )
    } else if !policy.force_limits && state.last_started_at_utc is Some && now.nanos < later(
        state.last_started_at_utc->0,
        policy.min_spacing,
    ).nanos {
        let eligible = later(state.last_started_at_utc->0, policy.min_spacing);
        Some(
            Blocked {
                kind: ErrorKind::ProviderCooldown,
                until: Some(eligible),
                message: "decision=deferred reason=minimum_spacing until="@
                    + eligible.rfc3339_spec(),
            },
        )
    } else {
        None
    }
}

/// A state whose remaining tests of the day were planned anew.
pub open spec fn replanned(state: StateView, policy: SchedulerPolicy, now: Timestamp) -> StateView {
    let used = used_today(state, now);
    let remaining: u32 = if policy.daily_max >= used {
        (policy.daily_max - used) as u32
    } else {
        0
    };
    let (slots, rng) = plan(
        state.rng_state,
        state.last_started_at_utc,
        state.cooldown_until_utc,
        policy.min_spacing,
        policy.slot_jitter_pct,
        now,
        Timestamp { nanos: day_end_of(now.day_number()) as i128 },
        remaining,
    );
    StateView { slots, rng_state: rng, ..state }
}

/// A state with the tests of a whole day planned; those that are not ahead are left out.
pub open spec fn day_planned(state: StateView, policy: SchedulerPolicy, now: Timestamp) -> StateView {
    let (slots, rng) = plan(
        state.rng_state,
        state.last_started_at_utc,
        state.cooldown_until_utc,
        policy.min_spacing,
        policy.slot_jitter_pct,
        Timestamp { nanos: day_start_of(now.day_number()) as i128 },
        Timestamp { nanos: day_end_of(now.day_number()) as i128 },
        policy.daily_max,
    );
    StateView { slots: slots.filter(|t: Timestamp| t.nanos > now.nanos), rng_state: rng, ..state }
}

/// The state on the current day. A new day forgets the runs, the triggers and the deferred test
/// of the days before, keeps a cooldown that is still ahead, and plans its tests.
pub open spec fn rolled(state: StateView, policy: SchedulerPolicy, now: Timestamp) -> StateView {
    let day = now.day_number();
    if day <= state.day_utc.day {
        state
    } else {
        day_planned(
            StateView {
                day_utc: UtcDate { day: day as i128 },
                runs: state.runs.filter(|t: Timestamp| t.day_number() >= day),
                deferred: None,
                interface_triggers: Seq::empty(),
                cooldown_until_utc: if state.cooldown_until_utc is Some
                    && state.cooldown_until_utc->0.nanos > now.nanos {
                    state.cooldown_until_utc
                } else {
                    None
                },
                ..state
            },
            policy,
            now,
        )
    }
}

/// The state of an installation that has none for its provider.
pub open spec fn first_state(policy: SchedulerPolicy, now: Timestamp, seed: u64) -> StateView {
    day_planned(
        StateView {
            day_utc: UtcDate { day: now.day_number() as i128 },
            slots: Seq::empty(),
            runs: Seq::empty(),
            last_started_at_utc: None,
            cooldown_until_utc: None,
            backoff_step: 0,
            deferred: None,
            interface_triggers: Seq::empty(),
            policy_daily_max: policy.daily_max,
            policy_min_spacing_ms: policy.min_spacing.millis_capped(),
            policy_slot_jitter_pct: policy.slot_jitter_pct,
            rng_state: if seed == 0 {
                1
            } else {
                seed
            },
            last_observed_utc: now,
        },
        policy,
        now,
    )
}

/// The state takes over a policy that differs from the one it was planned for.
pub open spec fn adopted(state: StateView, policy: SchedulerPolicy, now: Timestamp) -> StateView {
    if state.policy_daily_max == policy.daily_max && state.policy_min_spacing_ms
        == policy.min_spacing.millis_capped() && state.policy_slot_jitter_pct
        == policy.slot_jitter_pct {
        state
    } else {
        let taken = StateView {
            policy_daily_max: policy.daily_max,
            policy_min_spacing_ms: policy.min_spacing.millis_capped(),
            policy_slot_jitter_pct: policy.slot_jitter_pct,
            ..state
        };
        if policy.daily_max == 0 {
            StateView {
                slots: Seq::empty(),
                interface_triggers: Seq::empty(),
                deferred: None,
                ..taken
            }
        } else {
            replanned(taken, policy, now)
        }
    }
}

/// The state of a provider when its scheduler opens.
pub open spec fn reconciled(state: StateView, policy: SchedulerPolicy, now: Timestamp) -> StateView {
    let current = adopted(rolled(state, policy, now), policy, now);
    StateView {
        slots: current.slots.filter(|t: Timestamp| t.nanos > now.nanos),
        last_observed_utc: if now.nanos >= current.last_observed_utc.nanos {
            now
        } else {
            current.last_observed_utc
        },
        ..current
    }
}

/// Runs that a reservation list names and the state does not, added in order.
pub open spec fn with_reservations(runs: Seq<Timestamp>, reserved: Seq<Timestamp>) -> Seq<Timestamp>
    decreases reserved.len(),
{
    if reserved.len() == 0 {
        runs
    } else {
        let before = with_reservations(runs, reserved.drop_last());
        if before.contains(reserved.last()) {
            before
        } else {
            before.push(reserved.last())
        }
    }
}

/// The latest of a start and the starts that a reservation list names.
pub open spec fn latest_start(last: Option<Timestamp>, reserved: Seq<Timestamp>) -> Option<Timestamp>
    decreases reserved.len(),
{
    if reserved.len() == 0 {
        last
    } else {
        let before = latest_start(last, reserved.drop_last());
        if before is Some && before->0.nanos >= reserved.last().nanos {
            before
        } else {
            Some(reserved.last())
        }
    }
}

/// The clock went back: nothing is decided until it has caught up.
pub open spec fn rollback_note(state: StateView, now: Timestamp) -> Note {
    Note {
        outcome: Outcome::Suppressed,
        reason: TriggerReason::Scheduled,
        error_kind: Some(ErrorKind::Internal),
        not_before: None,
        interface: None,
        message: "decision=clock_rollback previous="@ + state.last_observed_utc.rfc3339_spec()
            + " current="@ + now.rfc3339_spec(),
        used: used_today(state, now),
    }
}

/// The clock is read.
pub open spec fn advanced(state: StateView, policy: SchedulerPolicy, now: Timestamp) -> Step {
    if now.nanos < state.last_observed_utc.nanos {
        Step { state, notes: seq![rollback_note(state, now)], saves: false }
    } else {
        Step {
            state: StateView { last_observed_utc: now, ..rolled(state, policy, now) },
            notes: Seq::empty(),
            saves: true,
        }
    }
}

/// The key that an interface is kept under: its name, or no text for the default route.
pub open spec fn interface_key(interface: Option<Seq<char>>) -> Seq<char> {
    match interface {
        Some(name) => name,
        None => Seq::empty(),
    }
}

/// The interface that is kept under a key.
pub open spec fn interface_of_key(key: Seq<char>) -> Option<Seq<char>> {
    if key.len() == 0 {
        None
    } else {
        Some(key)
    }
}

pub open spec fn trigger_at(state: StateView, key: Seq<char>) -> InterfaceTriggerState {
    match lookup(state.interface_triggers, key) {
        Some(trigger) => trigger,
        None => calm(),
    }
}

pub open spec fn with_trigger(
    state: StateView,
    key: Seq<char>,
    trigger: InterfaceTriggerState,
) -> StateView {
    StateView { interface_triggers: stored(state.interface_triggers, key, trigger), ..state }
}

/// The interface has no test pending.
pub open spec fn without_pending(state: StateView, key: Seq<char>) -> StateView {
    with_trigger(
        state,
        key,
        InterfaceTriggerState { pending: None, ..trigger_at(state, key) },
    )
}

/// The test that a degradation asks for.
pub open spec fn trigger_reason_of(reason: DegradationReason) -> TriggerReason {
    match reason {
        DegradationReason::Rtt => TriggerReason::PingRtt,
        _ => TriggerReason::PingLoss,
    }
}

/// The health of an interface is heard of.
pub open spec fn observed(
    state: StateView,
    policy: SchedulerPolicy,
    now: Timestamp,
    interface: Option<Seq<char>>,
    decision: HealthDecision,
    loss_text: Seq<char>,
    rtt_text: Option<Seq<char>>,
) -> Step {
    let first = advanced(state, policy, now);
    let key = interface_key(interface);
    let trigger = trigger_at(first.state, key);
    match decision {
        HealthDecision::Degraded { reason, .. } if !trigger.latched => {
            let asked = trigger_reason_of(reason);
            let expires = later(now, policy.pending_ttl);
            let merged = first.state.deferred is Some;
            let deferred = match first.state.deferred {
                Some(d) => Some(DeferredView { reason: asked, interface, ..d }),
                None => None,
            };
            let next = with_trigger(
                StateView { deferred, ..first.state },
                key,
                InterfaceTriggerState {
                    pending: if merged {
                        None
                    } else {
                        Some(
                            PendingTrigger {
                                reason: asked,
                                created_at_utc: now,
                                expires_at_utc: expires,
                            },
                        )
                    },
                    latched: true,
                },
            );
            let rtt = match rtt_text {
                Some(text) => text,
                None => "none"@,
            };
            let decided = if merged {
                "trigger_merged_with_deferred"@
            } else {
                "trigger_pending"@
            };
            Step {
                state: next,
                notes: first.notes.push(
                    Note {
                        outcome: Outcome::Deferred,
                        reason: asked,
                        error_kind: None,
                        not_before: None,
                        interface,
                        message: "decision="@ + decided + " loss_pct="@ + loss_text
                            + " p95_rtt_ms="@ + rtt + " expires_at="@ + expires.rfc3339_spec(),
                        used: used_today(next, now),
                    },
                ),
                saves: true,
            }
        },
        HealthDecision::Recovered(_) => {
            let next = if trigger.pending is Some || trigger.latched {
                with_trigger(first.state, key, calm())
            } else {
                first.state
            };
            Step {
                state: next,
                notes: if trigger.pending is Some {
                    first.notes.push(
                        Note {
                            outcome: Outcome::Expired,
                            reason: trigger.pending->0.reason,
                            error_kind: None,
                            not_before: None,
                            interface,
                            message: "decision=trigger_cancelled reason=health_recovered"@,
                            used: used_today(next, now),
                        },
                    )
                } else {
                    first.notes
                },
                saves: first.saves || trigger.pending is Some || trigger.latched,
            }
        },
        _ => first,
    }
}

/// The trigger's pending test has outlived its time.
pub open spec fn outlived(trigger: InterfaceTriggerState, now: Timestamp) -> bool {
    trigger.pending is Some && now.nanos >= trigger.pending->0.expires_at_utc.nanos
}

/// The triggers without the pending tests that have outlived their time.
pub open spec fn lapsed_triggers(
    triggers: Seq<(Seq<char>, InterfaceTriggerState)>,
    now: Timestamp,
) -> Seq<(Seq<char>, InterfaceTriggerState)> {
    triggers.map_values(
        |entry: (Seq<char>, InterfaceTriggerState)|
            (
                entry.0,
                if outlived(entry.1, now) {
                    InterfaceTriggerState { pending: None, ..entry.1 }
                } else {
                    entry.1
                },
            ),
    )
}

/// What is reported of the pending tests that have outlived their time.
pub open spec fn lapse_notes(
    triggers: Seq<(Seq<char>, InterfaceTriggerState)>,
    now: Timestamp,
    used: u32,
) -> Seq<Note>
    decreases triggers.len(),
{
    if triggers.len() == 0 {
        Seq::empty()
    } else {
        let before = lapse_notes(triggers.drop_last(), now, used);
        let (key, trigger) = triggers.last();
        if outlived(trigger, now) {
            before.push(
                Note {
                    outcome: Outcome::Expired,
                    reason: trigger.pending->0.reason,
                    error_kind: None,
                    not_before: None,
                    interface: interface_of_key(key),
                    message: "decision=trigger_expired reason=ttl"@,
                    used,
                },
            )
        } else {
            before
        }
    }
}

/// The oldest pending test among the interfaces that may run one; of several equally old, the
/// one whose interface comes first.
pub open spec fn oldest_pending(
    triggers: Seq<(Seq<char>, InterfaceTriggerState)>,
    latest_success: Seq<(Seq<char>, bool)>,
    allow_without_success: bool,
) -> Option<(Seq<char>, PendingTrigger)>
    decreases triggers.len(),
{
    if triggers.len() == 0 {
        None
    } else {
        let before = oldest_pending(triggers.drop_last(), latest_success, allow_without_success);
        let (key, trigger) = triggers.last();
        let eligible = allow_without_success || lookup(latest_success, key) == Some(true);
        let older = match before {
            None => true,
            Some((_, found)) => trigger.pending->0.created_at_utc.nanos
                < found.created_at_utc.nanos,
        };
        if eligible && trigger.pending is Some && older {
            Some((key, trigger.pending->0))
        } else {
            before
        }
    }
}

/// A test that may start.
pub struct OpportunityView {
    pub reason: TriggerReason,
    pub scheduled_at_utc: Timestamp,
    pub interface: Option<Seq<char>>,
}

/// What a poll comes to.
pub struct Polled {
    pub state: StateView,
    pub notes: Seq<Note>,
    pub opportunity: Option<OpportunityView>,
}

/// The deferred test is given up.
pub open spec fn gives_up(deferred: DeferredView, now: Timestamp) -> bool {
    now.nanos >= deferred.expires_at_utc.nanos || deferred.rate_limit_attempts
        >= MAX_RATE_LIMIT_ATTEMPTS
}

/// Whether a cooldown is over.
pub open spec fn cooled(state: StateView, now: Timestamp) -> bool {
    state.cooldown_until_utc is None || now.nanos >= state.cooldown_until_utc->0.nanos
}

/// The first planned test that is due.
pub open spec fn first_due(slots: Seq<Timestamp>, now: Timestamp) -> Option<Timestamp> {
    let due = slots.filter(|t: Timestamp| t.nanos <= now.nanos);
    if due.len() == 0 {
        None
    } else {
        Some(due[0])
    }
}

/// The state without the planned tests that are due, where one is.
pub open spec fn due_dropped(state: StateView, now: Timestamp) -> StateView {
    if first_due(state.slots, now) is Some {
        StateView { slots: state.slots.filter(|t: Timestamp| t.nanos > now.nanos), ..state }
    } else {
        state
    }
}

/// The scheduler is asked whether a test should start.
pub open spec fn polled(
    state: StateView,
    policy: SchedulerPolicy,
    now: Timestamp,
    latest_success: Seq<(Seq<char>, bool)>,
) -> Polled {
    let first = advanced(state, policy, now);
    if now.nanos < state.last_observed_utc.nanos {
        Polled { state: first.state, notes: first.notes, opportunity: None }
    } else {
        let used = used_today(first.state, now);
        let lapsed = StateView {
            interface_triggers: lapsed_triggers(first.state.interface_triggers, now),
            ..first.state
        };
        let notes = lapse_notes(first.state.interface_triggers, now, used);
        match lapsed.deferred {
            Some(deferred) => if gives_up(deferred, now) {
                started(
                    StateView { deferred: None, ..lapsed },
                    notes.push(
                        Note {
                            outcome: Outcome::Expired,
                            reason: deferred.reason,
                            error_kind: None,
                            not_before: lapsed.cooldown_until_utc,
                            interface: None,
                            message: "decision=deferred_expired reason=day_or_attempt_limit"@,
                            used,
                        },
                    ),
                    policy,
                    now,
                    latest_success,
                )
            } else if cooled(lapsed, now) {
                Polled {
                    state: lapsed,
                    notes,
                    opportunity: Some(
                        OpportunityView {
                            reason: deferred.reason,
                            scheduled_at_utc: deferred.created_at_utc,
                            interface: deferred.interface,
                        },
                    ),
                }
            } else {
                started(lapsed, notes, policy, now, latest_success)
            },
            None => started(lapsed, notes, policy, now, latest_success),
        }
    }
}

/// A pending or planned test is started, put off or given up.
pub open spec fn started(
    state: StateView,
    notes: Seq<Note>,
    policy: SchedulerPolicy,
    now: Timestamp,
    latest_success: Seq<(Seq<char>, bool)>,
) -> Polled {
    let due = first_due(state.slots, now);
    let pending = oldest_pending(state.interface_triggers, latest_success, due is Some);
    let reason = match pending {
        Some((_, trigger)) => trigger.reason,
        None => TriggerReason::Scheduled,
    };
    let interface = match pending {
        Some((key, _)) => interface_of_key(key),
        None => None,
    };
    let scheduled_at = match pending {
        Some((_, trigger)) => Some(trigger.created_at_utc),
        None => due,
    };
    let dropped = due_dropped(state, now);
    match (scheduled_at, blocked(state, policy, now)) {
        (None, _) => Polled { state, notes, opportunity: None },
        (Some(_), Some(block)) => {
            let terminal = block.kind == ErrorKind::DailyCap || later(
                now,
                policy.min_spacing,
            ).nanos >= day_end_of(now.day_number());
            let next = if terminal && pending is Some {
                without_pending(dropped, interface_key(interface))
            } else {
                dropped
            };
            Polled {
                state: next,
                notes: notes.push(
                    Note {
                        outcome: if terminal {
                            Outcome::Suppressed
                        } else {
                            Outcome::Deferred
                        },
                        reason,
                        error_kind: Some(block.kind),
                        not_before: block.until,
                        interface,
                        message: block.message,
                        used: used_today(next, now),
                    },
                ),
                opportunity: None,
            }
        },
        (Some(at), None) => {
            let next = if reason != TriggerReason::Scheduled && dropped.slots.len() > 0 {
                let taken = dropped.slots[0];
                StateView { slots: dropped.slots.filter(|t: Timestamp| t != taken), ..dropped }
            } else {
                dropped
            };
            Polled {
                state: next,
                notes: notes.push(
                    Note {
                        outcome: Outcome::Scheduled,
                        reason,
                        error_kind: None,
                        not_before: None,
                        interface: None,
                        message: "decision=bandwidth_start"@,
                        used: used_today(next, now),
                    },
                ),
                opportunity: Some(
                    OpportunityView { reason, scheduled_at_utc: at, interface },
                ),
            }
        },
    }
}

/// The state after a start was admitted.
pub open spec fn reserved(state: StateView, policy: SchedulerPolicy, now: Timestamp) -> StateView {
    let current = rolled(state, policy, now);
    StateView {
        runs: current.runs.push(now).sort_by(super::plan::by_time()),
        last_started_at_utc: Some(now),
        last_observed_utc: if current.last_observed_utc.nanos >= now.nanos {
            current.last_observed_utc
        } else {
            now
        },
        ..current
    }
}

/// A provider's refusal because of too many requests.
#[derive(Clone, Copy, Debug, PartialEq, Eq, Structural)]
pub struct RateLimit {
    pub stage: RequestStage,
    pub status: Option<u16>,
    pub retry_after: Option<Duration>,
}

/// The refusal that an event tells of, if it tells of one.
pub open spec fn limit_of(event: MeasurementEvent, kind: ProviderKind) -> Option<RateLimit> {
    match (event.event_kind, event.request_stage) {
        (EventKind::RequestFailure, Some(stage)) => {
            let status = event.request_http_status;
            let limited = {
                ||| event.outcome == Outcome::RateLimited
                ||| status == Some(429u16)
                ||| stage == RequestStage::Locate && kind == ProviderKind::Mlab && (status == Some(
                    204u16,
                ) || status == Some(503u16))
                ||| stage == RequestStage::WebsocketHandshake && kind == ProviderKind::Direct
                    && status == Some(503u16)
            };
            if limited {
                Some(
                    RateLimit {
                        stage,
                        status,
                        retry_after: match event.request_retry_after_ms {
                            Some(millis) => Some(
                                Duration { nanos: (millis * 1_000_000) as u128 },
                            ),
                            None => None,
                        },
                    },
                )
            } else {
                None
            }
        },
        _ => None,
    }
}

/// The first refusal that a report tells of.
pub open spec fn first_limit(events: Seq<MeasurementEvent>, kind: ProviderKind) -> Option<RateLimit>
    decreases events.len(),
{
    if events.len() == 0 {
        None
    } else if limit_of(events[0], kind) is Some {
        limit_of(events[0], kind)
    } else {
        first_limit(events.drop_first(), kind)
    }
}

/// The event shows that the provider was reached.
pub open spec fn reached_provider(event: MeasurementEvent) -> bool {
    event.event_kind == EventKind::Bandwidth && (event.request_remote_ip is Some
        || event.download_remote_ip is Some || event.upload_remote_ip is Some || event.outcome
        == Outcome::Success || event.outcome == Outcome::Partial)
}

/// The event with what the scheduler knows of its test.
pub open spec fn accounted(event: MeasurementEvent, opportunity: OpportunityView, used: u32)
    -> MeasurementEvent {
    MeasurementEvent {
        trigger_reason: Some(opportunity.reason),
        scheduled_at_utc: Some(opportunity.scheduled_at_utc),
        provider_daily_starts: Some(used),
        ..event
    }
}

/// A test came to an end.
pub open spec fn finished(
    state: StateView,
    policy: SchedulerPolicy,
    now: Timestamp,
    opportunity: OpportunityView,
    events: Seq<MeasurementEvent>,
    was_reserved: bool,
) -> Step {
    match first_limit(events, policy.provider_kind) {
        Some(limit) => Step {
            state: refused(state, policy, now, opportunity, was_reserved, limit),
            notes: seq![refusal_note(state, policy, now, opportunity, was_reserved, limit)],
            saves: true,
        },
        None => Step {
            state: completed(
                state,
                policy,
                now,
                opportunity,
                was_reserved,
                events.any(|e: MeasurementEvent| reached_provider(e)),
            ),
            notes: Seq::empty(),
            saves: true,
        },
    }
}

/// One step further back off, at most four.
pub open spec fn backed_off(step: u8) -> u8 {
    if step >= 4 {
        4
    } else {
        (step + 1) as u8
    }
}

/// The delay a step of backing off stands for, before it is jittered.
pub open spec fn backoff_base(policy: SchedulerPolicy, step: u8) -> Duration {
    let factor: int = if step == 0 {
        1
    } else if step == 1 {
        2
    } else if step == 2 {
        4
    } else if step == 3 {
        8
    } else {
        16
    };
    if policy.cooldown_initial.nanos * factor <= policy.cooldown_max.nanos {
        Duration { nanos: (policy.cooldown_initial.nanos * factor) as u128 }
    } else {
        policy.cooldown_max
    }
}

/// The state of the pseudo-random sequence after a delay was jittered.
pub open spec fn jitter_rng(rng: u64, base: Duration) -> u64 {
    if base.millis_capped() / 5 == 0 {
        rng
    } else {
        super::plan::xorshift(rng)
    }
}

/// The delay that a refusal asks for, and the state of the pseudo-random sequence after it.
pub open spec fn cooldown_for(state: StateView, policy: SchedulerPolicy, limit: RateLimit) -> (
    Duration,
    u64,
) {
    match limit.retry_after {
        Some(delay) => (delay, state.rng_state),
        None => {
            let base = backoff_base(policy, state.backoff_step);
            let rng = jitter_rng(state.rng_state, base);
            (super::plan::jittered(base, rng), rng)
        },
    }
}

/// What is kept of a test that the provider refused before it had started.
pub open spec fn put_off(
    state: StateView,
    now: Timestamp,
    deadline: Timestamp,
    opportunity: OpportunityView,
) -> Option<DeferredView> {
    let attempts: u8 = match state.deferred {
        None => 1,
        Some(d) => if d.rate_limit_attempts == u8::MAX {
            u8::MAX
        } else {
            (d.rate_limit_attempts + 1) as u8
        },
    };
    if attempts < MAX_RATE_LIMIT_ATTEMPTS && deadline.nanos < day_end_of(now.day_number()) {
        Some(
            DeferredView {
                reason: opportunity.reason,
                interface: opportunity.interface,
                created_at_utc: opportunity.scheduled_at_utc,
                expires_at_utc: Timestamp { nanos: day_end_of(now.day_number()) as i128 },
                rate_limit_attempts: attempts,
            },
        )
    } else {
        None
    }
}

pub open spec fn flag_text(flag: bool) -> Seq<char> {
    if flag {
        "true"@
    } else {
        "false"@
    }
}

/// The state after the provider refused a test.
pub open spec fn refused(
    state: StateView,
    policy: SchedulerPolicy,
    now: Timestamp,
    opportunity: OpportunityView,
    was_reserved: bool,
    limit: RateLimit,
) -> StateView {
    let (delay, rng) = cooldown_for(state, policy, limit);
    let deadline = later(now, delay);
    replanned(
        without_pending(
            StateView {
                cooldown_until_utc: Some(deadline),
                backoff_step: backed_off(state.backoff_step),
                deferred: if was_reserved {
                    None
                } else {
                    put_off(state, now, deadline, opportunity)
                },
                rng_state: rng,
                ..state
            },
            interface_key(opportunity.interface),
        ),
        policy,
        now,
    )
}

/// What is reported of a refusal.
pub open spec fn refusal_note(
    state: StateView,
    policy: SchedulerPolicy,
    now: Timestamp,
    opportunity: OpportunityView,
    was_reserved: bool,
    limit: RateLimit,
) -> Note {
    let next = refused(state, policy, now, opportunity, was_reserved, limit);
    let status = match limit.status {
        Some(code) => dec(code as nat),
        None => "none"@,
    };
    let retry = match limit.retry_after {
        Some(delay) => dec((delay.nanos / 1_000_000) as nat) + "ms"@,
        None => "fallback"@,
    };
    let attempts: u8 = match next.deferred {
        Some(d) => d.rate_limit_attempts,
        None => 0,
    };
    Note {
        outcome: if was_reserved {
            Outcome::Suppressed
        } else {
            Outcome::Deferred
        },
        reason: opportunity.reason,
        error_kind: Some(ErrorKind::ProviderCooldown),
        not_before: next.cooldown_until_utc,
        interface: opportunity.interface,
        message: "decision=rate_limit stage="@ + stage_text(limit.stage) + " status="@ + status
            + " retry_after="@ + retry + " reserved="@ + flag_text(was_reserved)
            + " deferred_attempts="@ + dec(attempts as nat),
        used: used_today(next, now),
    }
}

/// The state after a test that the provider did not refuse.
pub open spec fn completed(
    state: StateView,
    policy: SchedulerPolicy,
    now: Timestamp,
    opportunity: OpportunityView,
    was_reserved: bool,
    reached: bool,
) -> StateView {
    let cleared = without_pending(
        if reached {
            StateView { deferred: None, cooldown_until_utc: None, backoff_step: 0, ..state }
        } else {
            StateView { deferred: None, ..state }
        },
        interface_key(opportunity.interface),
    );
    if opportunity.reason != TriggerReason::Scheduled {
        replanned(cleared, policy, now)
    } else if was_reserved {
        let eligible = later(now, policy.min_spacing);
        StateView {
            slots: cleared.slots.filter(|t: Timestamp| t.nanos >= eligible.nanos),
            ..cleared
        }
    } else {
        cleared
    }
}

} // verus!
