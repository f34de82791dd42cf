//! The states of all providers, and what is kept of them on record.
use super::state::{DeferredView, ProviderState, StateView, same_deferred, same_times};
use crate::string_map::{StringMap, ascending};
use crate::text::same_text;
use crate::time::{Timestamp, UtcDate};
use vstd::prelude::*;

verus! {

/// How far the accounting log had come.
#[derive(Debug, PartialEq, Eq)]
pub struct Checkpoint {
    pub version: u8,
    pub installation: String,
    pub sequence: u64,
    pub digest: String,
}

pub struct CheckpointView {
    pub version: u8,
    pub installation: Seq<char>,
    pub sequence: u64,
    pub digest: Seq<char>,
}

impl View for Checkpoint {
    type V = CheckpointView;

    open spec fn view(&self) -> CheckpointView {
        CheckpointView {
            version: self.version,
            installation: self.installation@,
            sequence: self.sequence,
            digest: self.digest@,
        }
    }
}

impl Clone for Checkpoint {
    fn clone(&self) -> (copy: Self)
        ensures
            copy == *self,
    {
        Checkpoint {
            version: self.version,
            installation: self.installation.clone(),
            sequence: self.sequence,
            digest: self.digest.clone(),
        }
    }
}

/// Whether two checkpoints are the same.
pub fn same_checkpoint(a: &Checkpoint, b: &Checkpoint) -> (same: bool)
    ensures
        same == (a@ == b@),
{
    a.version == b.version && same_text(&a.installation, &b.installation) && a.sequence
        == b.sequence && same_text(&a.digest, &b.digest)
}

pub open spec fn checkpoint_view(checkpoint: Option<Checkpoint>) -> Option<CheckpointView> {
    match checkpoint {
        Some(c) => Some(c@),
        None => None,
    }
}

/// The states of all providers, by provider.
pub struct SchedulerStore {
    pub schema_version: u8,
    pub providers: StringMap<ProviderState>,
    pub checkpoint: Option<Checkpoint>,
}

#[verifier::ext_equal]
pub struct StoreView {
    pub schema_version: u8,
    pub providers: Seq<(Seq<char>, StateView)>,
    pub checkpoint: Option<CheckpointView>,
}

/// The states of providers, as values.
pub open spec fn providers_view(providers: StringMap<ProviderState>) -> Seq<(Seq<char>, StateView)> {
    providers.entries().map_values(|entry: (Seq<char>, ProviderState)| (entry.0, entry.1@))
}

impl View for SchedulerStore {
    type V = StoreView;

    open spec fn view(&self) -> StoreView {
        StoreView {
            schema_version: self.schema_version,
            providers: providers_view(self.providers),
            checkpoint: checkpoint_view(self.checkpoint),
        }
    }
}

pub fn clone_providers(providers: &StringMap<ProviderState>) -> (copy: StringMap<ProviderState>)
    ensures
        providers_view(copy) == providers_view(*providers),
{
    let mut copy: StringMap<ProviderState> = StringMap::new();
    let mut i: usize = 0;
    let count: usize = providers.len();
    while i < count
        invariant
            count == providers.entries().len(),
            ascending(providers.entries()),
            i <= count,
            copy.entries().len() == i,
            forall|k: int|
                0 <= k < i ==> (#[trigger] copy.entries()[k]).0 == providers.entries()[k].0
                    && copy.entries()[k].1@ == providers.entries()[k].1@,
        decreases count - i,
    {
        let key = providers.key_at(i).clone();
        copy.append(key, providers.value_at(i).clone());
        i += 1;
    }
    proof {
        assert(providers_view(copy) =~= providers_view(*providers));
    }
    copy
}

impl Clone for SchedulerStore {
    fn clone(&self) -> (copy: Self)
        ensures
            copy@ == self@,
    {
        SchedulerStore {
            schema_version: self.schema_version,
            providers: clone_providers(&self.providers),
            checkpoint: match &self.checkpoint {
                Some(c) => Some(c.clone()),
                None => None,
            },
        }
    }
}

/// What the accounting log keeps of a provider: everything that decides whether a test may start.
#[verifier::ext_equal]
pub struct Accounting {
    pub day: UtcDate,
    pub runs: Seq<Timestamp>,
    pub last_start: Option<Timestamp>,
    pub cooldown: Option<Timestamp>,
    pub backoff: u8,
    pub deferred: Option<DeferredView>,
}

pub open spec fn accounting_of(state: StateView) -> Accounting {
    Accounting {
        day: state.day_utc,
        runs: state.runs,
        last_start: state.last_started_at_utc,
        cooldown: state.cooldown_until_utc,
        backoff: state.backoff_step,
        deferred: state.deferred,
    }
}

/// The accounting of all providers.
pub open spec fn accounting(store: StoreView) -> Seq<(Seq<char>, Accounting)> {
    store.providers.map_values(
        |entry: (Seq<char>, StateView)| (entry.0, accounting_of(entry.1)),
    )
}

fn same_state_accounting(a: &ProviderState, b: &ProviderState) -> (same: bool)
    ensures
        same == (accounting_of(a@) == accounting_of(b@)),
{
    a.day_utc == b.day_utc && same_times(&a.runs, &b.runs) && a.last_started_at_utc
        == b.last_started_at_utc && a.cooldown_until_utc == b.cooldown_until_utc && a.backoff_step
        == b.backoff_step && same_deferred(&a.deferred, &b.deferred)
}

/// Whether two stores have the same accounting.
pub fn same_accounting(a: &SchedulerStore, b: &SchedulerStore) -> (same: bool)
    ensures
        same == (accounting(a@) == accounting(b@)),
{
    if a.providers.len() != b.providers.len() {
        proof {
            assert(accounting(a@).len() != accounting(b@).len());
        }
        return false;
    }
    let mut i: usize = 0;
    while i < a.providers.len()
        invariant
            a.providers.entries().len() == b.providers.entries().len(),
            i <= a.providers.entries().len(),
            forall|k: int| 0 <= k < i ==> accounting(a@)[k] == accounting(b@)[k],
        decreases a.providers.entries().len() - i,
    {
        proof {
            let x = a.providers.entries()[i as int];
            let y = b.providers.entries()[i as int];
            assert(accounting(a@)[i as int] == (x.0, accounting_of(x.1@)));
            assert(accounting(b@)[i as int] == (y.0, accounting_of(y.1@)));
        }
        if !same_text(a.providers.key_at(i), b.providers.key_at(i)) || !same_state_accounting(
            a.providers.value_at(i),
            b.providers.value_at(i),
        ) {
            return false;
        }
        i += 1;
    }
    proof {
        assert(accounting(a@) =~= accounting(b@));
    }
    true
}

/// The state of a provider is one that the scheduler can have left.
pub open spec fn sound_state(id: Seq<char>, state: StateView) -> bool {
    &&& id.len() > 0
    &&& state.rng_state != 0
    &&& state.policy_slot_jitter_pct <= 100
    &&& state.policy_min_spacing_ms != 0
    &&& state.backoff_step <= 4
    &&& forall|i: int, j: int|
        0 <= i <= j < state.runs.len() ==> (#[trigger] state.runs[i]).nanos <= (
        #[trigger] state.runs[j]).nanos
    &&& state.runs.len() > 0 ==> state.last_started_at_utc is Some && state.runs.last().nanos
        <= state.last_started_at_utc->0.nanos
}

/// The states of all providers are sound.
pub open spec fn sound_store(store: StoreView) -> bool {
    forall|i: int|
        0 <= i < store.providers.len() ==> sound_state(
            (#[trigger] store.providers[i]).0,
            store.providers[i].1,
        )
}

fn is_sound_state(id: &str, state: &ProviderState) -> (sound: bool)
    ensures
        sound == sound_state(id@, state@),
{
    let mut i: usize = 1;
    while i < state.runs.len()
        invariant
            1 <= i,
            i <= state.runs@.len() || state.runs@.len() == 0,
            forall|a: int, b: int|
                0 <= a <= b < i && b < state.runs@.len() ==> (#[trigger] state.runs@[a]).nanos <= (
                #[trigger] state.runs@[b]).nanos,
        decreases state.runs@.len() - i,
    {
        if state.runs[i - 1].nanos > state.runs[i].nanos {
            return false;
        }
        i += 1;
    }
    let ended: bool = match (state.runs.last(), state.last_started_at_utc) {
        (None, _) => true,
        (Some(run), Some(last)) => run.nanos <= last.nanos,
        (Some(_), None) => false,
    };
    id.unicode_len() > 0 && state.rng_state != 0 && state.policy_slot_jitter_pct <= 100
        && state.policy_min_spacing_ms != 0 && state.backoff_step <= 4 && ended
}

/// Whether the states of all providers are sound.
pub fn is_sound_store(store: &SchedulerStore) -> (sound: bool)
    ensures
        sound == sound_store(store@),
{
    let mut i: usize = 0;
    while i < store.providers.len()
        invariant
            i <= store.providers.entries().len(),
            forall|k: int|
                0 <= k < i ==> sound_state(
                    (#[trigger] store@.providers[k]).0,
                    store@.providers[k].1,
                ),
        decreases store.providers.entries().len() - i,
    {
        proof {
            let entry = store.providers.entries()[i as int];
            assert(store@.providers[i as int] == (entry.0, entry.1@));
        }
        if !is_sound_state(store.providers.key_at(i), store.providers.value_at(i)) {
            return false;
        }
        i += 1;
    }
    true
}

} // verus!
