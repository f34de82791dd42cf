//! When bandwidth tests may run.
pub mod chance_laws;
pub mod course_laws;
pub mod error;
pub mod laws;
pub mod listing_laws;
pub mod persistence;
pub mod plan;
pub mod plan_laws;
pub mod recovery_laws;
pub mod reservations;
pub mod rules;
pub mod state;
pub mod store;

pub use self::error::SchedulerError;
use self::plan::{
    by_time, jitter_duration, plan_interval, retain_after, retain_from, retain_from_day,
    retain_others, retain_until, runs_on_day, sort_times,
};
use self::rules::{
    Note, OpportunityView, RateLimit, accounted, advanced, all_report, backed_off, backoff_base,
    blocked, day_planned, finished, first_limit, first_state, interface_key, interface_of_key,
    jitter_rng, lapse_notes, lapsed_triggers, latest_start, limit_of, observed, oldest_pending,
    outlived, polled, put_off, reached_provider, reconciled, refusal_note, refused, replanned,
    reports, reserved, rollback_note, rolled, started, trigger_at, used_today,
    with_reservations, without_pending,
};
use self::persistence::lemma_stored_views;
use self::store::{SchedulerStore, StoreView, clone_providers, providers_view};
use self::state::{
    DeferredOpportunity, InterfaceTriggerState, PendingTrigger, ProviderState, StateView,
    clone_deferred, clone_times, deferred_view, same_state,
};
use crate::bandwidth::{AdmissionReservation, BandwidthReport, ReservationGate};
use crate::config::{BandwidthConfig, ProviderConfig};
use crate::health::{DegradationReason, HealthDecision};
use crate::names::stage_name;
use crate::model::{
    ErrorKind, EventKind, MeasurementEvent, Outcome, ProviderKind, RequestStage, RunId,
    TriggerReason,
};
use crate::string_map::{StringMap, lookup, stored, without};
use crate::text::{borrowed, clone_text, decimal, name_view, owned_name, same_text, text_view};
use crate::time::{Duration, Timestamp, UtcDate, add_duration, day_end, day_start, duration_millis};
use vstd::prelude::*;
use vstd::string::StringExecFns;

verus! {

pub const STATE_SCHEMA_VERSION: u8 = 1;
pub const MAX_RATE_LIMIT_ATTEMPTS: u8 = 5;

/// The limits that tests of a provider are held to.
pub struct SchedulerPolicy {
    pub provider_id: String,
    pub provider_kind: ProviderKind,
    pub daily_max: u32,
    pub min_spacing: Duration,
    pub slot_jitter_pct: u8,
    pub pending_ttl: Duration,
    pub cooldown_initial: Duration,
    pub cooldown_max: Duration,
    pub force_limits: bool,
}

/// The limits of a configuration.
pub open spec fn limits_of(config: BandwidthConfig) -> SchedulerPolicy {
    SchedulerPolicy {
        provider_id: config.provider_id,
        provider_kind: match config.provider {
            ProviderConfig::Mlab(_) => ProviderKind::Mlab,
            ProviderConfig::Direct(_) => ProviderKind::Direct,
        },
        daily_max: config.daily_max,
        min_spacing: config.min_spacing,
        slot_jitter_pct: config.slot_jitter_pct,
        pending_ttl: config.trigger.pending_ttl,
        cooldown_initial: config.cooldown.initial,
        cooldown_max: config.cooldown.max,
        force_limits: config.force_limits,
    }
}

impl SchedulerPolicy {
    /// The limits of a configuration.
    pub fn of(config: &BandwidthConfig) -> (policy: SchedulerPolicy)
        ensures
            policy == limits_of(*config),
    {
        SchedulerPolicy {
            provider_id: config.provider_id.clone(),
            provider_kind: match &config.provider {
                ProviderConfig::Mlab(_) => ProviderKind::Mlab,
                ProviderConfig::Direct(_) => ProviderKind::Direct,
            },
            daily_max: config.daily_max,
            min_spacing: config.min_spacing,
            slot_jitter_pct: config.slot_jitter_pct,
            pending_ttl: config.trigger.pending_ttl,
            cooldown_initial: config.cooldown.initial,
            cooldown_max: config.cooldown.max,
            force_limits: config.force_limits,
        }
    }
}

struct BlockReason {
    kind: ErrorKind,
    cooldown_until: Option<Timestamp>,
    message: String,
}

spec fn block_view(reason: Option<BlockReason>) -> Option<rules::Blocked> {
    match reason {
        Some(block) => Some(
            rules::Blocked {
                kind: block.kind,
                until: block.cooldown_until,
                message: block.message@,
            },
        ),
        None => None,
    }
}

fn block_reason(state: &ProviderState, policy: &SchedulerPolicy, now: Timestamp) -> (reason: Option<
    BlockReason,
>)
    ensures
        block_view(reason) == blocked(state@, *policy, now),
{
    let used: u32 = runs_on_day(&state.runs, now.date());
    if policy.daily_max == 0 || used >= policy.daily_max {
        return Some(
            BlockReason {
                kind: ErrorKind::DailyCap,
                cooldown_until: None,
                message: "decision=suppressed reason=daily_cap used=".to_owned().concat(
                    &decimal(used as u128),
                ).concat(" maximum=").concat(&decimal(policy.daily_max as u128)),
            },
        );
    }
    if let Some(deadline) = state.cooldown_until_utc {
        if now.nanos < deadline.nanos {
            return Some(
                BlockReason {
                    kind: ErrorKind::ProviderCooldown,
                    cooldown_until: Some(deadline),
                    message: "decision=deferred reason=provider_cooldown until=".to_owned().concat(
                        &deadline.rfc3339_text(),
                    ),
                },
            );
        }
    }
    if !policy.force_limits {
        if let Some(last) = state.last_started_at_utc {
            let eligible = add_duration(last, policy.min_spacing);
            if now.nanos < eligible.nanos {
                return Some(
                    BlockReason {
                        kind: ErrorKind::ProviderCooldown,
                        cooldown_until: Some(eligible),
                        message: "decision=deferred reason=minimum_spacing until=".to_owned().concat(
                            &eligible.rfc3339_text(),
                        ),
                    },
                );
            }
        }
    }
    None
}

fn replan_remaining(state: &mut ProviderState, policy: &SchedulerPolicy, now: Timestamp)
    requires
        now.schedulable(),
    ensures
        final(state)@ == replanned(old(state)@, *policy, now),
{
    let used: u32 = runs_on_day(&state.runs, now.date());
    let remaining: u32 = if policy.daily_max >= used {
        policy.daily_max - used
    } else {
        0
    };
    let last = state.last_started_at_utc;
    let cooldown = state.cooldown_until_utc;
    let slots = plan_interval(
        &mut state.rng_state,
        last,
        cooldown,
        policy.min_spacing,
        policy.slot_jitter_pct,
        now,
        day_end(now),
        remaining,
    );
    state.slots = slots;
}

fn plan_full_day(state: &mut ProviderState, policy: &SchedulerPolicy, now: Timestamp)
    requires
        now.schedulable(),
    ensures
        final(state)@ == day_planned(old(state)@, *policy, now),
{
    let last = state.last_started_at_utc;
    let cooldown = state.cooldown_until_utc;
    let slots = plan_interval(
        &mut state.rng_state,
        last,
        cooldown,
        policy.min_spacing,
        policy.slot_jitter_pct,
        day_start(now),
        day_end(now),
        policy.daily_max,
    );
    state.slots = retain_after(&slots, now);
}

fn reconcile_day(state: &mut ProviderState, policy: &SchedulerPolicy, now: Timestamp)
    requires
        now.schedulable(),
    ensures
        final(state)@ == rolled(old(state)@, *policy, now),
{
    let day = now.date();
    if day.day <= state.day_utc.day {
        return;
    }
    state.day_utc = day;
    state.runs = retain_from_day(&state.runs, day);
    state.deferred = None;
    state.interface_triggers = StringMap::new();
    if let Some(deadline) = state.cooldown_until_utc {
        if deadline.nanos <= now.nanos {
            state.cooldown_until_utc = None;
        }
    }
    proof {
        assert(old(state)@.runs.filter(|t: Timestamp| t.day_number() >= day.day)
            == old(state)@.runs.filter(|t: Timestamp| t.day_number() >= now.day_number()));
    }
    plan_full_day(state, policy, now);
}

/// The state of a provider that has none yet.
fn initial_state(policy: &SchedulerPolicy, now: Timestamp, seed: u64) -> (state: ProviderState)
    requires
        now.schedulable(),
    ensures
        state@ == first_state(*policy, now, seed),
{
    let mut state = ProviderState {
        day_utc: now.date(),
        slots: Vec::new(),
        runs: Vec::new(),
        last_started_at_utc: None,
        cooldown_until_utc: None,
        backoff_step: 0,
        deferred: None,
        interface_triggers: StringMap::new(),
        policy_daily_max: policy.daily_max,
        policy_min_spacing_ms: duration_millis(policy.min_spacing),
        policy_slot_jitter_pct: policy.slot_jitter_pct,
        rng_state: if seed == 0 {
            1
        } else {
            seed
        },
        last_observed_utc: now,
    };
    plan_full_day(&mut state, policy, now);
    state
}

/// Brings a stored state up to the current day and policy. Says whether that changed it.
fn reconcile(state: &mut ProviderState, policy: &SchedulerPolicy, now: Timestamp) -> (changed: bool)
    requires
        now.schedulable(),
    ensures
        final(state)@ == reconciled(old(state)@, *policy, now),
        changed == (final(state)@ != old(state)@),
{
    let before = state.clone();
    reconcile_day(state, policy, now);
    let spacing_ms: u64 = duration_millis(policy.min_spacing);
    if state.policy_daily_max != policy.daily_max || state.policy_min_spacing_ms != spacing_ms
        || state.policy_slot_jitter_pct != policy.slot_jitter_pct {
        state.policy_daily_max = policy.daily_max;
        state.policy_min_spacing_ms = spacing_ms;
        state.policy_slot_jitter_pct = policy.slot_jitter_pct;
        if policy.daily_max == 0 {
            state.slots = Vec::new();
            state.interface_triggers = StringMap::new();
            state.deferred = None;
        } else {
            replan_remaining(state, policy, now);
        }
    }
    state.slots = retain_after(&state.slots, now);
    if now.nanos >= state.last_observed_utc.nanos {
        state.last_observed_utc = now;
    }
    !same_state(&before, state)
}

/// A start that was written down apart from the state.
pub struct ReservationLedgerEntry {
    pub provider_id: String,
    pub started_at_utc: Timestamp,
}

/// The starts that a reservation list names for a provider.
pub open spec fn reserved_for(entries: Seq<ReservationLedgerEntry>, provider_id: Seq<char>) -> Seq<
    Timestamp,
>
    decreases entries.len(),
{
    if entries.len() == 0 {
        Seq::empty()
    } else {
        let before = reserved_for(entries.drop_last(), provider_id);
        if entries.last().provider_id@ == provider_id {
            before.push(entries.last().started_at_utc)
        } else {
            before
        }
    }
}

/// The state with the starts that a reservation list names.
pub open spec fn with_ledger(
    state: StateView,
    entries: Seq<ReservationLedgerEntry>,
    provider_id: Seq<char>,
) -> StateView {
    let times = reserved_for(entries, provider_id);
    StateView {
        runs: with_reservations(state.runs, times).sort_by(by_time()),
        last_started_at_utc: latest_start(state.last_started_at_utc, times),
        ..state
    }
}

fn contains_time(times: &Vec<Timestamp>, time: Timestamp) -> (found: bool)
    ensures
        found == times@.contains(time),
{
    let mut i: usize = 0;
    while i < times.len()
        invariant
            i <= times@.len(),
            forall|k: int| 0 <= k < i ==> times@[k] != time,
        decreases times@.len() - i,
    {
        if times[i] == time {
            return true;
        }
        i += 1;
    }
    false
}

/// Takes over the starts that a reservation list names. Says whether runs were added.
fn merge_reservation_ledger(
    state: &mut ProviderState,
    entries: &Vec<ReservationLedgerEntry>,
    provider_id: &str,
) -> (changed: bool)
    ensures
        final(state)@ == with_ledger(old(state)@, entries@, provider_id@),
        changed == (final(state)@.runs.len() != old(state)@.runs.len()),
{
    let before: usize = state.runs.len();
    let ghost start = state@;
    let mut i: usize = 0;
    while i < entries.len()
        invariant
            i <= entries@.len(),
            ({
                let times = reserved_for(entries@.take(i as int), provider_id@);
                state@ == (StateView {
                    runs: with_reservations(start.runs, times),
                    last_started_at_utc: latest_start(start.last_started_at_utc, times),
                    ..start
                })
            }),
        decreases entries@.len() - i,
    {
        let entry = &entries[i];
        let ghost times = reserved_for(entries@.take(i as int), provider_id@);
        proof {
            assert(entries@.take(i + 1).drop_last() == entries@.take(i as int));
            assert(times.push(entry.started_at_utc).drop_last() == times);
        }
        if same_text(&entry.provider_id, provider_id) {
            if !contains_time(&state.runs, entry.started_at_utc) {
                state.runs.push(entry.started_at_utc);
            }
            let newer: bool = match state.last_started_at_utc {
                Some(last) => last.nanos < entry.started_at_utc.nanos,
                None => true,
            };
            if newer {
                state.last_started_at_utc = Some(entry.started_at_utc);
            }
        }
        i += 1;
    }
    proof {
        assert(entries@.take(entries@.len() as int) == entries@);
    }
    sort_times(&mut state.runs);
    state.runs.len() != before
}

/// A test that may start.
#[derive(Debug, PartialEq, Eq)]
pub struct BandwidthOpportunity {
    pub reason: TriggerReason,
    pub scheduled_at_utc: Timestamp,
    pub interface: Option<String>,
}

impl View for BandwidthOpportunity {
    type V = OpportunityView;

    open spec fn view(&self) -> OpportunityView {
        OpportunityView {
            reason: self.reason,
            scheduled_at_utc: self.scheduled_at_utc,
            interface: text_view(self.interface),
        }
    }
}

pub open spec fn opportunity_view(opportunity: Option<BandwidthOpportunity>) -> Option<
    OpportunityView,
> {
    match opportunity {
        Some(o) => Some(o@),
        None => None,
    }
}

/// What a poll came to.
#[derive(Debug, PartialEq)]
pub struct SchedulerAction {
    pub opportunity: Option<BandwidthOpportunity>,
    pub events: Vec<MeasurementEvent>,
}

/// Whether a test asked for by hand may start.
#[derive(Debug, PartialEq)]
pub enum ManualDecision {
    Allowed,
    Blocked(Box<MeasurementEvent>),
}

/// A start that was admitted, and how many of the day have been.
#[derive(Clone, Copy, Debug, PartialEq, Eq, Structural)]
pub struct Reservation {
    pub daily_runs_used: u32,
}

/// What the scheduler can be seen to hold.
#[derive(Debug, PartialEq, Eq)]
pub struct SchedulerSnapshot {
    pub provider_id: String,
    pub day_utc: UtcDate,
    pub slots: Vec<Timestamp>,
    pub runs: Vec<Timestamp>,
    pub last_started_at_utc: Option<Timestamp>,
    pub cooldown_until_utc: Option<Timestamp>,
    pub backoff_step: u8,
    pub deferred_attempts: Option<u8>,
    pub pending_trigger: Option<TriggerReason>,
    pub trigger_latched: bool,
}

/// Decides when tests of one provider may run. `unsaved` says that the state has changed since
/// it was last saved.
pub struct Scheduler {
    pub others: StringMap<ProviderState>,
    pub policy: SchedulerPolicy,
    pub state: ProviderState,
    pub unsaved: bool,
}

/// The state that a scheduler opens with, before starts written down apart from it are added.
pub open spec fn opening_state(
    store: SchedulerStore,
    policy: SchedulerPolicy,
    now: Timestamp,
    seed: u64,
) -> StateView {
    match lookup(store.providers.entries(), policy.provider_id@) {
        Some(state) => reconciled(state@, policy, now),
        None => first_state(policy, now, seed),
    }
}

/// The state that a scheduler opens with.
pub open spec fn opened_state(
    store: SchedulerStore,
    entries: Seq<ReservationLedgerEntry>,
    policy: SchedulerPolicy,
    now: Timestamp,
    seed: u64,
) -> StateView {
    let opening = opening_state(store, policy, now, seed);
    let merged = with_ledger(opening, entries, policy.provider_id@);
    if merged.runs.len() != opening.runs.len() {
        replanned(merged, policy, now)
    } else {
        merged
    }
}

/// Whether opening changed what is stored.
pub open spec fn opening_changes(
    store: SchedulerStore,
    entries: Seq<ReservationLedgerEntry>,
    policy: SchedulerPolicy,
    now: Timestamp,
    seed: u64,
) -> bool {
    let opening = opening_state(store, policy, now, seed);
    let merged = with_ledger(opening, entries, policy.provider_id@);
    ||| merged.runs.len() != opening.runs.len()
    ||| match lookup(store.providers.entries(), policy.provider_id@) {
        Some(state) => opening != state@,
        None => true,
    }
}

impl Scheduler {
    /// Opens the scheduler of a provider on what was stored. `saved` says whether a snapshot of
    /// the store exists.
    pub fn open_seeded(
        store: SchedulerStore,
        entries: &Vec<ReservationLedgerEntry>,
        policy: SchedulerPolicy,
        now: Timestamp,
        seed: u64,
        saved: bool,
    ) -> (opened: Result<Scheduler, SchedulerError>)
        requires
            now.schedulable(),
        ensures
            match opened {
                Err(error) => store.schema_version != STATE_SCHEMA_VERSION && error
                    == SchedulerError::UnsupportedSchema(store.schema_version),
                Ok(scheduler) => {
                    &&& store.schema_version == STATE_SCHEMA_VERSION
                    &&& scheduler.policy == policy
                    &&& scheduler.others.entries() == without(
                        store.providers.entries(),
                        policy.provider_id@,
                    )
                    &&& scheduler.state@ == opened_state(store, entries@, policy, now, seed)
                    &&& scheduler.unsaved == (!saved || opening_changes(
                        store,
                        entries@,
                        policy,
                        now,
                        seed,
                    ))
                },
            },
    {
        if store.schema_version != STATE_SCHEMA_VERSION {
            return Err(SchedulerError::UnsupportedSchema(store.schema_version));
        }
        let mut others = store.providers;
        let (mut state, mut changed) = match others.take(&policy.provider_id) {
            Some(mut state) => {
                let changed: bool = reconcile(&mut state, &policy, now);
                (state, changed)
            },
            None => (initial_state(&policy, now, seed), true),
        };
        if merge_reservation_ledger(&mut state, entries, &policy.provider_id) {
            replan_remaining(&mut state, &policy, now);
            changed = true;
        }
        Ok(Scheduler { others, policy, state, unsaved: changed || !saved })
    }
}

fn trigger_of(state: &ProviderState, key: &str) -> (trigger: InterfaceTriggerState)
    ensures
        trigger == trigger_at(state@, key@),
{
    match state.interface_triggers.get(key) {
        Some(trigger) => *trigger,
        None => InterfaceTriggerState { pending: None, latched: false },
    }
}

fn clear_pending(state: &mut ProviderState, key: &str)
    ensures
        final(state)@ == without_pending(old(state)@, key@),
{
    let trigger = trigger_of(state, key);
    state.interface_triggers.put(
        key.to_owned(),
        InterfaceTriggerState { pending: None, latched: trigger.latched },
    );
}

/// The key that an interface is kept under.
fn key_of(interface: Option<&str>) -> (key: &str)
    ensures
        key@ == interface_key(name_view(interface)),
{
    match interface {
        Some(name) => name,
        None => {
            proof {
                reveal_strlit("");
                assert(""@ =~= Seq::<char>::empty());
            }
            ""
        },
    }
}

/// The interface that is kept under a key.
fn interface_from_key(key: &str) -> (interface: Option<String>)
    ensures
        text_view(interface) == interface_of_key(key@),
{
    if key.unicode_len() == 0 {
        None
    } else {
        Some(key.to_owned())
    }
}

impl Scheduler {
    /// The event that reports a decision.
    fn event(
        &self,
        run_id: RunId,
        now: Timestamp,
        outcome: Outcome,
        reason: TriggerReason,
        error_kind: Option<ErrorKind>,
        not_before: Option<Timestamp>,
        interface: Option<String>,
        message: String,
    ) -> (event: MeasurementEvent)
        ensures
            reports(
                event,
                run_id,
                now,
                self.policy,
                (Note {
                    outcome,
                    reason,
                    error_kind,
                    not_before,
                    interface: text_view(interface),
                    message: message@,
                    used: used_today(self.state@, now),
                }),
            ),
    {
        let mut event = MeasurementEvent::new(run_id, EventKind::Scheduler, outcome, now);
        event.trigger_reason = Some(reason);
        event.provider_id = Some(self.policy.provider_id.clone());
        event.provider_kind = Some(self.policy.provider_kind);
        event.interface = interface;
        event.scheduler_not_before_utc = not_before;
        event.provider_daily_starts = Some(runs_on_day(&self.state.runs, now.date()));
        event.error_kind = error_kind;
        event.message = Some(message);
        event
    }

    /// Reads the clock: moves on to a new day, or reports that the clock went back.
    fn advance_clock(&mut self, run_id: RunId, now: Timestamp) -> (events: Vec<MeasurementEvent>)
        requires
            now.schedulable(),
        ensures
            final(self).policy == old(self).policy,
            final(self).others == old(self).others,
            final(self).state@ == advanced(old(self).state@, old(self).policy, now).state,
            all_report(
                events@,
                run_id,
                now,
                old(self).policy,
                advanced(old(self).state@, old(self).policy, now).notes,
            ),
            final(self).unsaved == (old(self).unsaved || advanced(
                old(self).state@,
                old(self).policy,
                now,
            ).saves),
    {
        let previous = self.state.last_observed_utc;
        let mut events: Vec<MeasurementEvent> = Vec::new();
        if now.nanos < previous.nanos {
            let message = "decision=clock_rollback previous=".to_owned().concat(
                &previous.rfc3339_text(),
            ).concat(" current=").concat(&now.rfc3339_text());
            events.push(
                self.event(
                    run_id,
                    now,
                    Outcome::Suppressed,
                    TriggerReason::Scheduled,
                    Some(ErrorKind::Internal),
                    None,
                    None,
                    message,
                ),
            );
            return events;
        }
        reconcile_day(&mut self.state, &self.policy, now);
        self.state.last_observed_utc = now;
        self.unsaved = true;
        events
    }

    /// Hears of the health of the default route. The texts are the measured loss and round-trip
    /// time as they are reported.
    pub fn observe_health(
        &mut self,
        run_id: RunId,
        now: Timestamp,
        decision: HealthDecision,
        loss_text: &str,
        rtt_text: Option<&str>,
    ) -> (events: Vec<MeasurementEvent>)
        requires
            now.schedulable(),
        ensures
            final(self).policy == old(self).policy,
            final(self).others == old(self).others,
            ({
                let step = observed(
                    old(self).state@,
                    old(self).policy,
                    now,
                    None,
                    decision,
                    loss_text@,
                    name_view(rtt_text),
                );
                &&& final(self).state@ == step.state
                &&& all_report(events@, run_id, now, old(self).policy, step.notes)
                &&& final(self).unsaved == (old(self).unsaved || step.saves)
            }),
    {
        self.observe_interface_health(run_id, now, None, decision, loss_text, rtt_text)
    }

    /// Hears of the health of an interface.
    pub fn observe_interface_health(
        &mut self,
        run_id: RunId,
        now: Timestamp,
        interface: Option<&str>,
        decision: HealthDecision,
        loss_text: &str,
        rtt_text: Option<&str>,
    ) -> (events: Vec<MeasurementEvent>)
        requires
            now.schedulable(),
        ensures
            final(self).policy == old(self).policy,
            final(self).others == old(self).others,
            ({
                let step = observed(
                    old(self).state@,
                    old(self).policy,
                    now,
                    name_view(interface),
                    decision,
                    loss_text@,
                    name_view(rtt_text),
                );
                &&& final(self).state@ == step.state
                &&& all_report(events@, run_id, now, old(self).policy, step.notes)
                &&& final(self).unsaved == (old(self).unsaved || step.saves)
            }),
    {
        let mut events = self.advance_clock(run_id, now);
        let key = key_of(interface);
        let trigger = trigger_of(&self.state, key);
        match decision {
            HealthDecision::Degraded { reason, snapshot: _ } => {
                if !trigger.latched {
                    let asked = match reason {
                        DegradationReason::Rtt => TriggerReason::PingRtt,
                        DegradationReason::Loss | DegradationReason::LossAndRtt => {
                            TriggerReason::PingLoss
                        },
                    };
                    let expires = add_duration(now, self.policy.pending_ttl);
                    let merged: bool = self.state.deferred.is_some();
                    let pending = if merged {
                        None
                    } else {
                        Some(
                            PendingTrigger {
                                reason: asked,
                                created_at_utc: now,
                                expires_at_utc: expires,
                            },
                        )
                    };
                    let deferred = self.state.deferred.take();
                    self.state.deferred = match deferred {
                        Some(d) => Some(
                            DeferredOpportunity {
                                reason: asked,
                                interface: owned_name(interface),
                                created_at_utc: d.created_at_utc,
                                expires_at_utc: d.expires_at_utc,
                                rate_limit_attempts: d.rate_limit_attempts,
                            },
                        ),
                        None => None,
                    };
                    self.state.interface_triggers.put(
                        key.to_owned(),
                        InterfaceTriggerState { pending, latched: true },
                    );
                    self.unsaved = true;
                    let decided = if merged {
                        "trigger_merged_with_deferred"
                    } else {
                        "trigger_pending"
                    };
                    let rtt = match rtt_text {
                        Some(text) => text,
                        None => "none",
                    };
                    let message = "decision=".to_owned().concat(decided).concat(
                        " loss_pct=",
                    ).concat(loss_text).concat(" p95_rtt_ms=").concat(rtt).concat(
                        " expires_at=",
                    ).concat(&expires.rfc3339_text());
                    events.push(
                        self.event(
                            run_id,
                            now,
                            Outcome::Deferred,
                            asked,
                            None,
                            None,
                            owned_name(interface),
                            message,
                        ),
                    );
                }
            },
            HealthDecision::Recovered(_) => {
                if trigger.pending.is_some() || trigger.latched {
                    self.state.interface_triggers.put(
                        key.to_owned(),
                        InterfaceTriggerState { pending: None, latched: false },
                    );
                    self.unsaved = true;
                }
                if let Some(pending) = trigger.pending {
                    events.push(
                        self.event(
                            run_id,
                            now,
                            Outcome::Expired,
                            pending.reason,
                            None,
                            None,
                            owned_name(interface),
                            "decision=trigger_cancelled reason=health_recovered".to_owned(),
                        ),
                    );
                }
            },
            HealthDecision::Healthy(_) => {},
        }
        events
    }

    /// Whether a test asked for by hand may start.
    pub fn preflight_manual(&mut self, run_id: RunId, now: Timestamp) -> (decision: ManualDecision)
        requires
            now.schedulable(),
        ensures
            final(self).policy == old(self).policy,
            final(self).others == old(self).others,
            final(self).state@ == advanced(old(self).state@, old(self).policy, now).state,
            ({
                let state = final(self).state@;
                let back = now.nanos < old(self).state.last_observed_utc.nanos;
                match (decision, blocked(state, old(self).policy, now)) {
                    (ManualDecision::Allowed, b) => !back && b is None,
                    (ManualDecision::Blocked(event), b) => if back {
                        reports(*event, run_id, now, old(self).policy, rollback_note(state, now))
                    } else {
                        b is Some && reports(
                            *event,
                            run_id,
                            now,
                            old(self).policy,
                            (Note {
                                outcome: Outcome::Suppressed,
                                reason: TriggerReason::Manual,
                                error_kind: Some(b->0.kind),
                                not_before: b->0.until,
                                interface: None,
                                message: b->0.message,
                                used: used_today(state, now),
                            }),
                        )
                    },
                }
            }),
            final(self).unsaved == (old(self).unsaved || advanced(
                old(self).state@,
                old(self).policy,
                now,
            ).saves),
    {
        let mut clock_events = self.advance_clock(run_id, now);
        if let Some(event) = clock_events.pop() {
            return ManualDecision::Blocked(Box::new(event));
        }
        match block_reason(&self.state, &self.policy, now) {
            Some(block) => ManualDecision::Blocked(
                Box::new(
                    self.event(
                        run_id,
                        now,
                        Outcome::Suppressed,
                        TriggerReason::Manual,
                        Some(block.kind),
                        block.cooldown_until,
                        None,
                        block.message,
                    ),
                ),
            ),
            None => ManualDecision::Allowed,
        }
    }

    /// Admits a start, or says why none may start.
    pub fn reserve_run(&mut self, now: Timestamp) -> (reservation: Result<
        Reservation,
        SchedulerError,
    >)
        requires
            now.schedulable(),
        ensures
            final(self).policy == old(self).policy,
            final(self).others == old(self).others,
            ({
                let current = rolled(old(self).state@, old(self).policy, now);
                match (reservation, blocked(current, old(self).policy, now)) {
                    (Ok(r), b) => {
                        &&& b is None
                        &&& final(self).state@ == reserved(old(self).state@, old(self).policy, now)
                        &&& final(self).unsaved
                        &&& r.daily_runs_used == used_today(final(self).state@, now)
                    },
                    (Err(error), b) => {
                        &&& b is Some
                        &&& final(self).state@ == current
                        &&& final(self).unsaved == old(self).unsaved
                        &&& error matches SchedulerError::Admission(message) && message@
                            == "reservation rejected after preflight: "@ + b->0.message
                    },
                }
            }),
    {
        reconcile_day(&mut self.state, &self.policy, now);
        if let Some(block) = block_reason(&self.state, &self.policy, now) {
            return Err(
                SchedulerError::Admission(
                    "reservation rejected after preflight: ".to_owned().concat(&block.message),
                ),
            );
        }
        self.state.runs.push(now);
        sort_times(&mut self.state.runs);
        self.state.last_started_at_utc = Some(now);
        if self.state.last_observed_utc.nanos < now.nanos {
            self.state.last_observed_utc = now;
        }
        self.unsaved = true;
        Ok(Reservation { daily_runs_used: runs_on_day(&self.state.runs, now.date()) })
    }

    /// Gives up the pending tests that have outlived their time.
    fn expire_triggers(&mut self, run_id: RunId, now: Timestamp, events: &mut Vec<MeasurementEvent>)
        requires
            old(events)@.len() == 0,
        ensures
            final(self).policy == old(self).policy,
            final(self).others == old(self).others,
            final(self).unsaved == old(self).unsaved,
            final(self).state@ == (StateView {
                interface_triggers: lapsed_triggers(old(self).state@.interface_triggers, now),
                ..old(self).state@
            }),
            all_report(
                final(events)@,
                run_id,
                now,
                old(self).policy,
                lapse_notes(
                    old(self).state@.interface_triggers,
                    now,
                    used_today(old(self).state@, now),
                ),
            ),
    {
        let ghost start = self.state@.interface_triggers;
        let mut triggers: StringMap<InterfaceTriggerState> = StringMap::new();
        std::mem::swap(&mut triggers, &mut self.state.interface_triggers);
        let ghost used = used_today(self.state@, now);
        let ghost held = *self;
        let mut i: usize = 0;
        proof {
            assert(start.take(0).len() == 0);
        }
        while i < triggers.len()
            invariant
                *self == held,
                used == used_today(self.state@, now),
                i <= start.len(),
                triggers.entries().len() == start.len(),
                forall|k: int|
                    0 <= k < i ==> #[trigger] triggers.entries()[k] == lapsed_triggers(
                        start,
                        now,
                    )[k],
                forall|k: int| i <= k < start.len() ==> #[trigger] triggers.entries()[k] == start[k],
                all_report(
                    events@,
                    run_id,
                    now,
                    self.policy,
                    lapse_notes(start.take(i as int), now, used),
                ),
            decreases start.len() - i,
        {
            let trigger = *triggers.value_at(i);
            proof {
                assert(triggers.entries()[i as int] == start[i as int]);
                assert(start.take(i + 1).drop_last() == start.take(i as int));
                assert(start.take(i + 1).last() == start[i as int]);
            }
            if let Some(pending) = trigger.pending {
                if now.nanos >= pending.expires_at_utc.nanos {
                    let interface = interface_from_key(triggers.key_at(i));
                    triggers.set_at(
                        i,
                        InterfaceTriggerState { pending: None, latched: trigger.latched },
                    );
                    events.push(
                        self.event(
                            run_id,
                            now,
                            Outcome::Expired,
                            pending.reason,
                            None,
                            None,
                            interface,
                            "decision=trigger_expired reason=ttl".to_owned(),
                        ),
                    );
                }
            }
            i += 1;
        }
        proof {
            assert(start.take(start.len() as int) == start);
            assert(triggers.entries() =~= lapsed_triggers(start, now));
        }
        self.state.interface_triggers = triggers;
    }

    /// The oldest pending test among the interfaces that may run one.
    fn oldest_eligible_pending_trigger(
        &self,
        latest_success: &StringMap<bool>,
        allow_without_success: bool,
    ) -> (found: Option<(String, PendingTrigger)>)
        ensures
            (match found {
                Some((key, pending)) => Some((key@, pending)),
                None => None,
            }) == oldest_pending(
                self.state@.interface_triggers,
                latest_success.entries(),
                allow_without_success,
            ),
    {
        let ghost entries = self.state@.interface_triggers;
        let mut found: Option<(String, PendingTrigger)> = None;
        let mut i: usize = 0;
        while i < self.state.interface_triggers.len()
            invariant
                entries == self.state.interface_triggers.entries(),
                i <= entries.len(),
                (match found {
                    Some((key, pending)) => Some((key@, pending)),
                    None => None,
                }) == oldest_pending(
                    entries.take(i as int),
                    latest_success.entries(),
                    allow_without_success,
                ),
            decreases entries.len() - i,
        {
            proof {
                assert(entries.take(i + 1).drop_last() == entries.take(i as int));
                assert(entries.take(i + 1).last() == entries[i as int]);
            }
            let key = self.state.interface_triggers.key_at(i);
            let succeeded: bool = match latest_success.get(key) {
                Some(success) => *success,
                None => false,
            };
            if allow_without_success || succeeded {
                if let Some(pending) = self.state.interface_triggers.value_at(i).pending {
                    let older: bool = match &found {
                        Some((_, best)) => pending.created_at_utc.nanos
                            < best.created_at_utc.nanos,
                        None => true,
                    };
                    if older {
                        found = Some((key.clone(), pending));
                    }
                }
            }
            i += 1;
        }
        proof {
            assert(entries.take(entries.len() as int) == entries);
        }
        found
    }

    /// Whether a test of the default route should start now.
    pub fn poll(
        &mut self,
        run_id: RunId,
        now: Timestamp,
        latest_round_has_success: bool,
    ) -> (action: SchedulerAction)
        requires
            now.schedulable(),
        ensures
            final(self).policy == old(self).policy,
            final(self).others == old(self).others,
            ({
                let result = polled(
                    old(self).state@,
                    old(self).policy,
                    now,
                    seq![(Seq::<char>::empty(), latest_round_has_success)],
                );
                &&& final(self).state@ == result.state
                &&& opportunity_view(action.opportunity) == result.opportunity
                &&& all_report(action.events@, run_id, now, old(self).policy, result.notes)
                &&& final(self).unsaved == (old(self).unsaved || now.nanos
                    >= old(self).state.last_observed_utc.nanos)
            }),
    {
        let mut health: StringMap<bool> = StringMap::new();
        health.put(key_of(None).to_owned(), latest_round_has_success);
        proof {
            assert(health.entries() == seq![(Seq::<char>::empty(), latest_round_has_success)]);
        }
        self.poll_interfaces(run_id, now, &health)
    }

    /// Whether a test should start now, and on which interface.
    pub fn poll_interfaces(
        &mut self,
        run_id: RunId,
        now: Timestamp,
        latest_success: &StringMap<bool>,
    ) -> (action: SchedulerAction)
        requires
            now.schedulable(),
        ensures
            final(self).policy == old(self).policy,
            final(self).others == old(self).others,
            ({
                let result = polled(
                    old(self).state@,
                    old(self).policy,
                    now,
                    latest_success.entries(),
                );
                &&& final(self).state@ == result.state
                &&& opportunity_view(action.opportunity) == result.opportunity
                &&& all_report(action.events@, run_id, now, old(self).policy, result.notes)
                &&& final(self).unsaved == (old(self).unsaved || now.nanos
                    >= old(self).state.last_observed_utc.nanos)
            }),
    {
        let rolled_back: bool = now.nanos < self.state.last_observed_utc.nanos;
        let mut events = self.advance_clock(run_id, now);
        if rolled_back {
            return SchedulerAction { opportunity: None, events };
        }
        let ghost mut notes = lapse_notes(
            self.state@.interface_triggers,
            now,
            used_today(self.state@, now),
        );
        self.expire_triggers(run_id, now, &mut events);
        if self.state.deferred.is_some() {
            let deferred = clone_deferred(&self.state.deferred).unwrap();
            if now.nanos >= deferred.expires_at_utc.nanos || deferred.rate_limit_attempts
                >= MAX_RATE_LIMIT_ATTEMPTS {
                self.state.deferred = None;
                proof {
                    notes = notes.push(
                        Note {
                            outcome: Outcome::Expired,
                            reason: deferred.reason,
                            error_kind: None,
                            not_before: self.state@.cooldown_until_utc,
                            interface: None,
                            message: "decision=deferred_expired reason=day_or_attempt_limit"@,
                            used: used_today(self.state@, now),
                        },
                    );
                }
                events.push(
                    self.event(
                        run_id,
                        now,
                        Outcome::Expired,
                        deferred.reason,
                        None,
                        self.state.cooldown_until_utc,
                        None,
                        "decision=deferred_expired reason=day_or_attempt_limit".to_owned(),
                    ),
                );
            } else {
                let ready: bool = match self.state.cooldown_until_utc {
                    Some(deadline) => now.nanos >= deadline.nanos,
                    None => true,
                };
                if ready {
                    return SchedulerAction {
                        opportunity: Some(
                            BandwidthOpportunity {
                                reason: deferred.reason,
                                scheduled_at_utc: deferred.created_at_utc,
                                interface: deferred.interface,
                            },
                        ),
                        events,
                    };
                }
            }
        }
        self.start_due(run_id, now, latest_success, events, Ghost(notes))
    }

    /// Starts, puts off or gives up a pending or planned test.
    fn start_due(
        &mut self,
        run_id: RunId,
        now: Timestamp,
        latest_success: &StringMap<bool>,
        events: Vec<MeasurementEvent>,
        Ghost(notes): Ghost<Seq<Note>>,
    ) -> (action: SchedulerAction)
        requires
            now.schedulable(),
            all_report(events@, run_id, now, old(self).policy, notes),
        ensures
            final(self).policy == old(self).policy,
            final(self).others == old(self).others,
            final(self).unsaved == old(self).unsaved,
            ({
                let result = started(
                    old(self).state@,
                    notes,
                    old(self).policy,
                    now,
                    latest_success.entries(),
                );
                &&& final(self).state@ == result.state
                &&& opportunity_view(action.opportunity) == result.opportunity
                &&& all_report(action.events@, run_id, now, old(self).policy, result.notes)
            }),
    {
        let mut events = events;
        let due_slots = retain_until(&self.state.slots, now);
        let due_slot: Option<Timestamp> = if due_slots.len() == 0 {
            None
        } else {
            Some(due_slots[0])
        };
        let pending = self.oldest_eligible_pending_trigger(latest_success, due_slot.is_some());
        let (reason, interface, scheduled_at) = match &pending {
            Some((key, trigger)) => (
                trigger.reason,
                interface_from_key(key),
                Some(trigger.created_at_utc),
            ),
            None => (TriggerReason::Scheduled, None, due_slot),
        };
        let at = match scheduled_at {
            Some(at) => at,
            None => {
                return SchedulerAction { opportunity: None, events };
            },
        };
        let block = block_reason(&self.state, &self.policy, now);
        if due_slot.is_some() {
            self.state.slots = retain_after(&self.state.slots, now);
        }
        if let Some(block) = block {
            let terminal: bool = block.kind == ErrorKind::DailyCap || add_duration(
                now,
                self.policy.min_spacing,
            ).nanos >= day_end(now).nanos;
            if terminal && pending.is_some() {
                clear_pending(&mut self.state, key_of(borrowed(&interface)));
            }
            events.push(
                self.event(
                    run_id,
                    now,
                    if terminal {
                        Outcome::Suppressed
                    } else {
                        Outcome::Deferred
                    },
                    reason,
                    Some(block.kind),
                    block.cooldown_until,
                    interface,
                    block.message,
                ),
            );
            return SchedulerAction { opportunity: None, events };
        }
        if reason != TriggerReason::Scheduled && self.state.slots.len() > 0 {
            let taken = self.state.slots[0];
            self.state.slots = retain_others(&self.state.slots, taken);
        }
        events.push(
            self.event(
                run_id,
                now,
                Outcome::Scheduled,
                reason,
                None,
                None,
                None,
                "decision=bandwidth_start".to_owned(),
            ),
        );
        SchedulerAction {
            opportunity: Some(BandwidthOpportunity { reason, scheduled_at_utc: at, interface }),
            events,
        }
    }

    /// The states of all providers, to be saved.
    pub fn to_store(&self) -> (store: SchedulerStore)
        ensures
            store@ == (StoreView {
                schema_version: STATE_SCHEMA_VERSION,
                providers: stored(
                    providers_view(self.others),
                    self.policy.provider_id@,
                    self.state@,
                ),
                checkpoint: None,
            }),
    {
        let mut providers = clone_providers(&self.others);
        let state = self.state.clone();
        proof {
            lemma_stored_views(providers.entries(), self.policy.provider_id@, state);
        }
        providers.put(self.policy.provider_id.clone(), state);
        SchedulerStore { schema_version: STATE_SCHEMA_VERSION, providers, checkpoint: None }
    }

    /// What the scheduler holds.
    pub fn snapshot(&self) -> (snapshot: SchedulerSnapshot)
        ensures
            snapshot.provider_id@ == self.policy.provider_id@,
            snapshot.day_utc == self.state@.day_utc,
            snapshot.slots@ == self.state@.slots,
            snapshot.runs@ == self.state@.runs.filter(
                |t: Timestamp| t.day_number() == self.state@.day_utc.day,
            ),
            snapshot.last_started_at_utc == self.state@.last_started_at_utc,
            snapshot.cooldown_until_utc == self.state@.cooldown_until_utc,
            snapshot.backoff_step == self.state@.backoff_step,
            snapshot.deferred_attempts == (match self.state@.deferred {
                Some(d) => Some(d.rate_limit_attempts),
                None => None,
            }),
            snapshot.pending_trigger == (match trigger_at(self.state@, Seq::empty()).pending {
                Some(p) => Some(p.reason),
                None => None,
            }),
            snapshot.trigger_latched == trigger_at(self.state@, Seq::empty()).latched,
    {
        let mut runs: Vec<Timestamp> = Vec::new();
        let day: i128 = self.state.day_utc.day;
        let ghost test = |t: Timestamp| t.day_number() == self.state@.day_utc.day;
        let mut i: usize = 0;
        proof {
            reveal(Seq::filter);
            assert(self.state.runs@.take(0).filter(test) == Seq::<Timestamp>::empty());
        }
        while i < self.state.runs.len()
            invariant
                day == self.state.day_utc.day,
                test == (|t: Timestamp| t.day_number() == self.state@.day_utc.day),
                i <= self.state.runs@.len(),
                runs@ == self.state.runs@.take(i as int).filter(test),
            decreases self.state.runs@.len() - i,
        {
            proof {
                reveal(Seq::filter);
                assert(self.state.runs@.take(i + 1).drop_last() == self.state.runs@.take(i as int));
            }
            if self.state.runs[i].date().day == day {
                runs.push(self.state.runs[i]);
            }
            i += 1;
        }
        proof {
            assert(self.state.runs@.take(self.state.runs@.len() as int) == self.state.runs@);
        }
        let trigger = trigger_of(&self.state, key_of(None));
        SchedulerSnapshot {
            provider_id: self.policy.provider_id.clone(),
            day_utc: self.state.day_utc,
            slots: clone_times(&self.state.slots),
            runs,
            last_started_at_utc: self.state.last_started_at_utc,
            cooldown_until_utc: self.state.cooldown_until_utc,
            backoff_step: self.state.backoff_step,
            deferred_attempts: match &self.state.deferred {
                Some(d) => Some(d.rate_limit_attempts),
                None => None,
            },
            pending_trigger: match trigger.pending {
                Some(p) => Some(p.reason),
                None => None,
            },
            trigger_latched: trigger.latched,
        }
    }
}

/// The refusal that an event tells of.
fn rate_limit_from_event(event: &MeasurementEvent, provider_kind: ProviderKind) -> (limit: Option<
    RateLimit,
>)
    ensures
        limit == limit_of(*event, provider_kind),
{
    if event.event_kind != EventKind::RequestFailure {
        return None;
    }
    let status: Option<u16> = event.request_http_status;
    let stage = match event.request_stage {
        Some(stage) => stage,
        None => {
            return None;
        },
    };
    let limited: bool = event.outcome == Outcome::RateLimited || status == Some(429u16) || (stage
        == RequestStage::Locate && provider_kind == ProviderKind::Mlab && (status == Some(204u16)
        || status == Some(503u16))) || (stage == RequestStage::WebsocketHandshake && provider_kind
        == ProviderKind::Direct && status == Some(503u16));
    if !limited {
        return None;
    }
    let retry_after = match event.request_retry_after_ms {
        Some(millis) => Some(Duration::from_millis(millis)),
        None => None,
    };
    Some(RateLimit { stage, status, retry_after })
}

/// The first refusal that a report tells of.
fn rate_limit_from_report(events: &Vec<MeasurementEvent>, provider_kind: ProviderKind) -> (limit:
    Option<RateLimit>)
    ensures
        limit == first_limit(events@, provider_kind),
{
    let mut i: usize = 0;
    proof {
        assert(events@.skip(0) == events@);
    }
    while i < events.len()
        invariant
            i <= events@.len(),
            first_limit(events@, provider_kind) == first_limit(
                events@.skip(i as int),
                provider_kind,
            ),
        decreases events@.len() - i,
    {
        let limit = rate_limit_from_event(&events[i], provider_kind);
        proof {
            assert(events@.skip(i as int).drop_first() == events@.skip(i + 1));
        }
        if limit.is_some() {
            return limit;
        }
        i += 1;
    }
    None
}

/// Whether a report shows that the provider was reached.
fn reached_any(events: &Vec<MeasurementEvent>) -> (reached: bool)
    ensures
        reached == events@.any(|e: MeasurementEvent| reached_provider(e)),
{
    let mut i: usize = 0;
    let ghost test = |e: MeasurementEvent| reached_provider(e);
    while i < events.len()
        invariant
            i <= events@.len(),
            test == (|e: MeasurementEvent| reached_provider(e)),
            forall|k: int| 0 <= k < i ==> !reached_provider(#[trigger] events@[k]),
        decreases events@.len() - i,
    {
        let event = &events[i];
        if event.event_kind == EventKind::Bandwidth && (event.request_remote_ip.is_some()
            || event.download_remote_ip.is_some() || event.upload_remote_ip.is_some()
            || event.outcome == Outcome::Success || event.outcome == Outcome::Partial) {
            proof {
                assert(test(events@[i as int]));
            }
            return true;
        }
        i += 1;
    }
    false
}

/// The delay for the current step of backing off; the next one is a step further.
fn next_backoff(state: &mut ProviderState, policy: &SchedulerPolicy) -> (delay: Duration)
    ensures
        ({
            let base = backoff_base(*policy, old(state)@.backoff_step);
            let rng = jitter_rng(old(state)@.rng_state, base);
            &&& delay == plan::jittered(base, rng)
            &&& final(state)@ == (StateView {
                backoff_step: backed_off(old(state)@.backoff_step),
                rng_state: rng,
                ..old(state)@
            })
        }),
{
    let step: u8 = state.backoff_step;
    let factor: u128 = if step == 0 {
        1
    } else if step == 1 {
        2
    } else if step == 2 {
        4
    } else if step == 3 {
        8
    } else {
        16
    };
    let base = match policy.cooldown_initial.nanos.checked_mul(factor) {
        Some(nanos) => if nanos <= policy.cooldown_max.nanos {
            Duration { nanos }
        } else {
            policy.cooldown_max
        },
        None => policy.cooldown_max,
    };
    state.backoff_step = if step >= 4 {
        4
    } else {
        step + 1
    };
    jitter_duration(&mut state.rng_state, base)
}

/// What is kept of a test that the provider refused before it had started.
fn put_off_opportunity(
    state: &ProviderState,
    now: Timestamp,
    deadline: Timestamp,
    opportunity: &BandwidthOpportunity,
) -> (deferred: Option<DeferredOpportunity>)
    requires
        now.schedulable(),
    ensures
        deferred_view(deferred) == put_off(state@, now, deadline, opportunity@),
{
    let attempts: u8 = match &state.deferred {
        None => 1,
        Some(d) => d.rate_limit_attempts.saturating_add(1),
    };
    let day_deadline = day_end(now);
    if attempts < MAX_RATE_LIMIT_ATTEMPTS && deadline.nanos < day_deadline.nanos {
        Some(
            DeferredOpportunity {
                reason: opportunity.reason,
                interface: clone_text(&opportunity.interface),
                created_at_utc: opportunity.scheduled_at_utc,
                expires_at_utc: day_deadline,
                rate_limit_attempts: attempts,
            },
        )
    } else {
        None
    }
}

impl Scheduler {
    /// Takes in a refusal and reports it.
    fn take_refusal(
        &mut self,
        run_id: RunId,
        now: Timestamp,
        opportunity: &BandwidthOpportunity,
        was_reserved: bool,
        limit: RateLimit,
    ) -> (event: MeasurementEvent)
        requires
            now.schedulable(),
        ensures
            final(self).policy == old(self).policy,
            final(self).others == old(self).others,
            final(self).unsaved,
            final(self).state@ == refused(
                old(self).state@,
                old(self).policy,
                now,
                opportunity@,
                was_reserved,
                limit,
            ),
            reports(
                event,
                run_id,
                now,
                old(self).policy,
                refusal_note(
                    old(self).state@,
                    old(self).policy,
                    now,
                    opportunity@,
                    was_reserved,
                    limit,
                ),
            ),
    {
        let step: u8 = self.state.backoff_step;
        let delay = match limit.retry_after {
            Some(delay) => {
                self.state.backoff_step = if step >= 4 {
                    4
                } else {
                    step + 1
                };
                delay
            },
            None => next_backoff(&mut self.state, &self.policy),
        };
        let deadline = add_duration(now, delay);
        self.state.cooldown_until_utc = Some(deadline);
        self.state.deferred = if was_reserved {
            None
        } else {
            put_off_opportunity(&self.state, now, deadline, opportunity)
        };
        clear_pending(&mut self.state, key_of(borrowed(&opportunity.interface)));
        replan_remaining(&mut self.state, &self.policy, now);
        self.unsaved = true;
        let status = match limit.status {
            Some(code) => decimal(code as u128),
            None => "none".to_owned(),
        };
        let retry = match limit.retry_after {
            Some(delay) => decimal(delay.nanos / 1_000_000).concat("ms"),
            None => "fallback".to_owned(),
        };
        let attempts: u8 = match &self.state.deferred {
            Some(d) => d.rate_limit_attempts,
            None => 0,
        };
        let flag = if was_reserved {
            "true"
        } else {
            "false"
        };
        let message = "decision=rate_limit stage=".to_owned().concat(
            stage_name(limit.stage),
        ).concat(" status=").concat(&status).concat(" retry_after=").concat(&retry).concat(
            " reserved=",
        ).concat(flag).concat(" deferred_attempts=").concat(&decimal(attempts as u128));
        self.event(
            run_id,
            now,
            if was_reserved {
                Outcome::Suppressed
            } else {
                Outcome::Deferred
            },
            opportunity.reason,
            Some(ErrorKind::ProviderCooldown),
            Some(deadline),
            clone_text(&opportunity.interface),
            message,
        )
    }

    /// Takes in the end of a test: a refusal starts a cooldown, anything else ends what was put
    /// off. The events of the report are given what the scheduler knows of the test.
    pub fn finish_attempt(
        &mut self,
        run_id: RunId,
        now: Timestamp,
        opportunity: &BandwidthOpportunity,
        report: &mut BandwidthReport,
    ) -> (events: Vec<MeasurementEvent>)
        requires
            now.schedulable(),
        ensures
            final(self).policy == old(self).policy,
            final(self).others == old(self).others,
            final(self).unsaved,
            ({
                let step = finished(
                    old(self).state@,
                    old(self).policy,
                    now,
                    opportunity@,
                    old(report).events@,
                    old(report).reserved,
                );
                &&& final(self).state@ == step.state
                &&& all_report(events@, run_id, now, old(self).policy, step.notes)
                &&& final(report).events@ == old(report).events@.map_values(
                    |e: MeasurementEvent|
                        accounted(e, opportunity@, used_today(step.state, now)),
                )
            }),
            final(report).outcome == old(report).outcome,
            final(report).reserved == old(report).reserved,
            final(report).reservation_error == old(report).reservation_error,
    {
        let mut events: Vec<MeasurementEvent> = Vec::new();
        let was_reserved: bool = report.reserved;
        match rate_limit_from_report(&report.events, self.policy.provider_kind) {
            Some(limit) => {
                let event = self.take_refusal(run_id, now, opportunity, was_reserved, limit);
                events.push(event);
            },
            None => {
                self.state.deferred = None;
                if reached_any(&report.events) {
                    self.state.cooldown_until_utc = None;
                    self.state.backoff_step = 0;
                }
                clear_pending(&mut self.state, key_of(borrowed(&opportunity.interface)));
                if opportunity.reason != TriggerReason::Scheduled {
                    replan_remaining(&mut self.state, &self.policy, now);
                } else if was_reserved {
                    let eligible = add_duration(now, self.policy.min_spacing);
                    self.state.slots = retain_from(&self.state.slots, eligible);
                }
                self.unsaved = true;
            },
        }
        let used: u32 = runs_on_day(&self.state.runs, now.date());
        let ghost before = report.events@;
        let ghost told = *report;
        let mut i: usize = 0;
        while i < report.events.len()
            invariant
                i <= before.len(),
                report.events@.len() == before.len(),
                report.outcome == told.outcome,
                report.reserved == told.reserved,
                report.reservation_error == told.reservation_error,
                forall|k: int|
                    0 <= k < i ==> #[trigger] report.events@[k] == accounted(
                        before[k],
                        opportunity@,
                        used,
                    ),
                forall|k: int| i <= k < before.len() ==> #[trigger] report.events@[k] == before[k],
            decreases before.len() - i,
        {
            let mut event = report.events[i].clone();
            event.trigger_reason = Some(opportunity.reason);
            event.scheduled_at_utc = Some(opportunity.scheduled_at_utc);
            event.provider_daily_starts = Some(used);
            report.events.set(i, event);
            i += 1;
        }
        proof {
            assert(report.events@ =~= before.map_values(
                |e: MeasurementEvent| accounted(e, opportunity@, used),
            ));
        }
        events
    }
}

impl ReservationGate for Scheduler {
    open spec fn admits(
        &self,
        started_at: Timestamp,
        admission: Result<AdmissionReservation, String>,
        after: &Self,
    ) -> bool {
        let current = rolled(self.state@, self.policy, started_at);
        &&& after.policy == self.policy
        &&& after.others == self.others
        &&& match (admission, blocked(current, self.policy, started_at)) {
            (Ok(AdmissionReservation::Reserved { daily_runs_used }), None) => {
                &&& after.state@ == reserved(self.state@, self.policy, started_at)
                &&& after.unsaved
                &&& daily_runs_used == used_today(after.state@, started_at)
            },
            (Err(message), Some(reason)) => {
                &&& after.state@ == current
                &&& after.unsaved == self.unsaved
                &&& message@ == "bandwidth admission rejected: "@ + (
                "reservation rejected after preflight: "@ + reason.message)
            },
            _ => false,
        }
    }

    fn reserve(&mut self, started_at: Timestamp) -> (admission: Result<
        AdmissionReservation,
        String,
    >)
    {
        match self.reserve_run(started_at) {
            Ok(reservation) => Ok(
                AdmissionReservation::Reserved { daily_runs_used: reservation.daily_runs_used },
            ),
            Err(error) => Err(error.message()),
        }
    }
}

/// The start of a test that was asked for by hand.
pub fn manual_opportunity(now: Timestamp, interfaces: &Vec<String>) -> (opportunity:
    BandwidthOpportunity)
    ensures
        opportunity.reason == TriggerReason::Manual,
        opportunity.scheduled_at_utc == now,
        opportunity.interface == (if interfaces@.len() > 0 {
            Some(interfaces@[0])
        } else {
            None
        }),
{
    let interface = if interfaces.len() > 0 {
        Some(interfaces[0].clone())
    } else {
        None
    };
    BandwidthOpportunity { reason: TriggerReason::Manual, scheduled_at_utc: now, interface }
}

} // verus!
