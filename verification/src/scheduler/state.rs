//! What the scheduler remembers of one provider.
use crate::model::TriggerReason;
use crate::string_map::StringMap;
use crate::text::{clone_text, same_name, same_text, text_view};
use crate::time::{Timestamp, UtcDate};
use vstd::prelude::*;

verus! {

/// A bandwidth test that degraded health asks for.
#[derive(Clone, Copy, Debug, PartialEq, Eq, Structural)]
pub struct PendingTrigger {
    pub reason: TriggerReason,
    pub created_at_utc: Timestamp,
    pub expires_at_utc: Timestamp,
}

/// The trigger of one network interface. A latched trigger is not raised again before the
/// interface has recovered.
#[derive(Clone, Copy, Debug, PartialEq, Eq, Structural)]
pub struct InterfaceTriggerState {
    pub pending: Option<PendingTrigger>,
    pub latched: bool,
}

/// The state of an interface that never degraded.
pub open spec fn calm() -> InterfaceTriggerState {
    InterfaceTriggerState { pending: None, latched: false }
}

/// A bandwidth test that the provider put off.
#[derive(Debug, PartialEq, Eq)]
pub struct DeferredOpportunity {
    pub reason: TriggerReason,
    pub interface: Option<String>,
    pub created_at_utc: Timestamp,
    pub expires_at_utc: Timestamp,
    pub rate_limit_attempts: u8,
}

pub struct DeferredView {
    pub reason: TriggerReason,
    pub interface: Option<Seq<char>>,
    pub created_at_utc: Timestamp,
    pub expires_at_utc: Timestamp,
    pub rate_limit_attempts: u8,
}

impl View for DeferredOpportunity {
    type V = DeferredView;

    open spec fn view(&self) -> DeferredView {
        DeferredView {
            reason: self.reason,
            interface: text_view(self.interface),
            created_at_utc: self.created_at_utc,
            expires_at_utc: self.expires_at_utc,
            rate_limit_attempts: self.rate_limit_attempts,
        }
    }
}

impl Clone for DeferredOpportunity {
    fn clone(&self) -> (copy: Self)
        ensures
            copy == *self,
    {
        DeferredOpportunity {
            reason: self.reason,
            interface: clone_text(&self.interface),
            created_at_utc: self.created_at_utc,
            expires_at_utc: self.expires_at_utc,
            rate_limit_attempts: self.rate_limit_attempts,
        }
    }
}

pub open spec fn deferred_view(deferred: Option<DeferredOpportunity>) -> Option<DeferredView> {
    match deferred {
        Some(d) => Some(d@),
        None => None,
    }
}

pub fn clone_deferred(deferred: &Option<DeferredOpportunity>) -> (copy: Option<DeferredOpportunity>)
    ensures
        copy == *deferred,
{
    match deferred {
        Some(d) => Some(d.clone()),
        None => None,
    }
}

/// The plan, the accounting and the health triggers of one provider.
pub struct ProviderState {
    pub day_utc: UtcDate,
    pub slots: Vec<Timestamp>,
    pub runs: Vec<Timestamp>,
    pub last_started_at_utc: Option<Timestamp>,
    pub cooldown_until_utc: Option<Timestamp>,
    pub backoff_step: u8,
    pub deferred: Option<DeferredOpportunity>,
    pub interface_triggers: StringMap<InterfaceTriggerState>,
    pub policy_daily_max: u32,
    pub policy_min_spacing_ms: u64,
    pub policy_slot_jitter_pct: u8,
    pub rng_state: u64,
    pub last_observed_utc: Timestamp,
}

#[verifier::ext_equal]
pub struct StateView {
    pub day_utc: UtcDate,
    pub slots: Seq<Timestamp>,
    pub runs: Seq<Timestamp>,
    pub last_started_at_utc: Option<Timestamp>,
    pub cooldown_until_utc: Option<Timestamp>,
    pub backoff_step: u8,
    pub deferred: Option<DeferredView>,
    pub interface_triggers: Seq<(Seq<char>, InterfaceTriggerState)>,
    pub policy_daily_max: u32,
    pub policy_min_spacing_ms: u64,
    pub policy_slot_jitter_pct: u8,
    pub rng_state: u64,
    pub last_observed_utc: Timestamp,
}

impl View for ProviderState {
    type V = StateView;

    open spec fn view(&self) -> StateView {
        StateView {
            day_utc: self.day_utc,
            slots: self.slots@,
            runs: self.runs@,
            last_started_at_utc: self.last_started_at_utc,
            cooldown_until_utc: self.cooldown_until_utc,
            backoff_step: self.backoff_step,
            deferred: deferred_view(self.deferred),
            interface_triggers: self.interface_triggers.entries(),
            policy_daily_max: self.policy_daily_max,
            policy_min_spacing_ms: self.policy_min_spacing_ms,
            policy_slot_jitter_pct: self.policy_slot_jitter_pct,
            rng_state: self.rng_state,
            last_observed_utc: self.last_observed_utc,
        }
    }
}

pub fn clone_times(times: &Vec<Timestamp>) -> (copy: Vec<Timestamp>)
    ensures
        copy@ == times@,
{
    let mut copy: Vec<Timestamp> = Vec::new();
    let mut i: usize = 0;
    while i < times.len()
        invariant
            i <= times@.len(),
            copy@ == times@.take(i as int),
        decreases times@.len() - i,
    {
        copy.push(times[i]);
        i += 1;
        proof {
            assert(times@.take(i as int) == times@.take(i - 1).push(times@[i - 1]));
        }
    }
    proof {
        assert(times@.take(times@.len() as int) == times@);
    }
    copy
}

pub fn same_times(a: &Vec<Timestamp>, b: &Vec<Timestamp>) -> (same: bool)
    ensures
        same == (a@ == b@),
{
    if a.len() != b.len() {
        return false;
    }
    let mut i: usize = 0;
    while i < a.len()
        invariant
            a@.len() == b@.len(),
            i <= a@.len(),
            forall|k: int| 0 <= k < i ==> a@[k] == b@[k],
        decreases a@.len() - i,
    {
        if a[i].nanos != b[i].nanos {
            return false;
        }
        i += 1;
    }
    proof {
        assert(a@ =~= b@);
    }
    true
}

pub fn same_deferred(a: &Option<DeferredOpportunity>, b: &Option<DeferredOpportunity>) -> (same: bool)
    ensures
        same == (deferred_view(*a) == deferred_view(*b)),
{
    match (a, b) {
        (Some(x), Some(y)) => x.reason == y.reason && same_name(&x.interface, &y.interface)
            && x.created_at_utc == y.created_at_utc && x.expires_at_utc == y.expires_at_utc
            && x.rate_limit_attempts == y.rate_limit_attempts,
        (None, None) => true,
        _ => false,
    }
}

pub fn same_triggers(
    a: &StringMap<InterfaceTriggerState>,
    b: &StringMap<InterfaceTriggerState>,
) -> (same: bool)
    ensures
        same == (a.entries() == b.entries()),
{
    if a.len() != b.len() {
        return false;
    }
    let mut i: usize = 0;
    while i < a.len()
        invariant
            a.entries().len() == b.entries().len(),
            i <= a.entries().len(),
            forall|k: int| 0 <= k < i ==> a.entries()[k] == b.entries()[k],
        decreases a.entries().len() - i,
    {
        if !same_text(a.key_at(i), b.key_at(i)) {
            return false;
        }
        if *a.value_at(i) != *b.value_at(i) {
            return false;
        }
        proof {
            assert(a.entries()[i as int] == b.entries()[i as int]);
        }
        i += 1;
    }
    proof {
        assert(a.entries() =~= b.entries());
    }
    true
}

/// Whether two states are the same.
pub fn same_state(a: &ProviderState, b: &ProviderState) -> (same: bool)
    ensures
        same == (a@ == b@),
{
    a.day_utc == b.day_utc && same_times(&a.slots, &b.slots) && same_times(&a.runs, &b.runs)
        && a.last_started_at_utc == b.last_started_at_utc && a.cooldown_until_utc
        == b.cooldown_until_utc && a.backoff_step == b.backoff_step && same_deferred(
        &a.deferred,
        &b.deferred,
    ) && same_triggers(&a.interface_triggers, &b.interface_triggers) && a.policy_daily_max
        == b.policy_daily_max && a.policy_min_spacing_ms == b.policy_min_spacing_ms
        && a.policy_slot_jitter_pct == b.policy_slot_jitter_pct && a.rng_state == b.rng_state
        && a.last_observed_utc == b.last_observed_utc
}

impl Clone for ProviderState {
    fn clone(&self) -> (copy: Self)
        ensures
            copy@ == self@,
    {
        ProviderState {
            day_utc: self.day_utc,
            slots: clone_times(&self.slots),
            runs: clone_times(&self.runs),
            last_started_at_utc: self.last_started_at_utc,
            cooldown_until_utc: self.cooldown_until_utc,
            backoff_step: self.backoff_step,
            deferred: clone_deferred(&self.deferred),
            interface_triggers: self.interface_triggers.copied(),
            policy_daily_max: self.policy_daily_max,
            policy_min_spacing_ms: self.policy_min_spacing_ms,
            policy_slot_jitter_pct: self.policy_slot_jitter_pct,
            rng_state: self.rng_state,
            last_observed_utc: self.last_observed_utc,
        }
    }
}

} // verus!
