//! Monitoring several interfaces: whose turn it is, how long a missing one is left alone, and
//! which one a bandwidth test uses.
use crate::health::{HealthConfig, HealthWindow};
use crate::interfaces::{
    FairInterfaceSelector, InterfaceError, InterfaceResolver, ResolvedInterface, listed,
};
use crate::model::{ErrorKind, EventKind, MeasurementEvent, Outcome, RunId, blank_event};
use crate::text::{same_text, text_view};
use crate::time::{Duration, MAX_DURATION_NANOS, Timestamp, add_duration, later};
use vstd::arithmetic::power2::{lemma2_to64, pow2};
use vstd::prelude::*;
use vstd::string::StringExecFns;

verus! {

/// A reading of the clocks: how long the monitor has run, and the time of day.
#[derive(Clone, Copy, Debug, PartialEq, Eq, Structural)]
pub struct Clock {
    pub running: Duration,
    pub utc: Timestamp,
}

impl Clock {
    /// A reading that a delay can be added to.
    pub open spec fn sound(self) -> bool {
        self.running.nanos <= MAX_DURATION_NANOS
    }
}

/// The longest that an interface is left alone, as a number of doublings.
pub const MAX_BACKOFF_STEP: u8 = 6;

/// How long an interface is left alone, in seconds: one second at first, twice as long each
/// further time, and a minute at most.
pub open spec fn backoff_secs(step: u8) -> nat {
    if step < MAX_BACKOFF_STEP {
        pow2(step as nat)
    } else {
        60
    }
}

/// How long an interface is left alone.
pub open spec fn backoff_delay(step: u8) -> Duration {
    Duration { nanos: (backoff_secs(step) * 1_000_000_000) as u128 }
}

proof fn lemma_backoff_secs(step: u8)
    ensures
        1 <= backoff_secs(step) <= 60,
        step == 0 ==> backoff_secs(step) == 1,
        step == 1 ==> backoff_secs(step) == 2,
        step == 2 ==> backoff_secs(step) == 4,
        step == 3 ==> backoff_secs(step) == 8,
        step == 4 ==> backoff_secs(step) == 16,
        step == 5 ==> backoff_secs(step) == 32,
{
    lemma2_to64();
}

/// How long an interface is left alone.
pub fn interface_backoff(step: u8) -> (delay: Duration)
    ensures
        delay == backoff_delay(step),
        delay.nanos <= 60_000_000_000,
{
    proof {
        lemma_backoff_secs(step);
    }
    let secs: u64 = match step {
        0 => 1,
        1 => 2,
        2 => 4,
        3 => 8,
        4 => 16,
        5 => 32,
        _ => 60,
    };
    Duration::from_secs(secs)
}

/// What is known of an interface.
pub struct InterfaceRuntime {
    pub name: String,
    pub health: HealthWindow,
    pub latest_success: bool,
    pub degraded: bool,
    pub available: bool,
    pub retry_at: Option<Duration>,
    pub backoff_step: u8,
}

impl InterfaceRuntime {
    pub fn new(name: String, health: HealthConfig) -> (runtime: Self)
        ensures
            runtime.name == name,
            runtime.health.config == health,
            runtime.health.rounds@.len() == 0,
            runtime.health.condition.degraded is None,
            !runtime.latest_success,
            !runtime.degraded,
            runtime.available,
            runtime.retry_at is None,
            runtime.backoff_step == 0,
    {
        InterfaceRuntime {
            name,
            health: HealthWindow::new(health),
            latest_success: false,
            degraded: false,
            available: true,
            retry_at: None,
            backoff_step: 0,
        }
    }

    /// Whether the interface may be looked up.
    pub open spec fn may_resolve(self, now: Duration) -> bool {
        match self.retry_at {
            Some(deadline) => now.nanos >= deadline.nanos,
            None => true,
        }
    }

    pub fn can_resolve(&self, now: Duration) -> (yes: bool)
        ensures
            yes == self.may_resolve(now),
    {
        match self.retry_at {
            Some(deadline) => now.nanos >= deadline.nanos,
            None => true,
        }
    }

    /// The interface after it was found.
    pub open spec fn found(self) -> InterfaceRuntime {
        InterfaceRuntime { available: true, retry_at: None, backoff_step: 0, ..self }
    }

    /// The interface after it was not found.
    pub open spec fn lost(self, now: Duration) -> InterfaceRuntime {
        InterfaceRuntime {
            available: false,
            latest_success: false,
            retry_at: Some(
                Duration {
                    nanos: (now.nanos + backoff_delay(self.backoff_step).nanos) as u128,
                },
            ),
            backoff_step: if self.backoff_step < MAX_BACKOFF_STEP {
                (self.backoff_step + 1) as u8
            } else {
                MAX_BACKOFF_STEP
            },
            ..self
        }
    }

    /// Notes that the interface was found, and tells whether it had been missing.
    pub fn mark_available(&mut self) -> (recovered: bool)
        ensures
            recovered == !old(self).available,
            *final(self) == old(self).found(),
    {
        let recovered: bool = !self.available;
        self.available = true;
        self.retry_at = None;
        self.backoff_step = 0;
        recovered
    }

    /// Notes that the interface was not found, and tells how long it is left alone.
    pub fn mark_failed(&mut self, now: Duration) -> (delay: Duration)
        requires
            now.nanos <= MAX_DURATION_NANOS,
        ensures
            delay == backoff_delay(old(self).backoff_step),
            *final(self) == old(self).lost(now),
    {
        let delay = interface_backoff(self.backoff_step);
        self.available = false;
        self.latest_success = false;
        self.retry_at = Some(Duration { nanos: now.nanos + delay.nanos });
        self.backoff_step = if self.backoff_step < MAX_BACKOFF_STEP {
            self.backoff_step + 1
        } else {
            MAX_BACKOFF_STEP
        };
        delay
    }
}

/// An interface that stays missing is left alone for one second, then for twice as long each
/// time, and never for more than a minute; once it is found the delays start again.
pub proof fn law_interface_backoff_doubles_up_to_a_minute(runtime: InterfaceRuntime, now: Duration)
    requires
        now.nanos <= MAX_DURATION_NANOS,
    ensures
        backoff_secs(runtime.found().backoff_step) == 1,
        1 <= backoff_secs(runtime.backoff_step) <= 60,
        backoff_secs(runtime.lost(now).backoff_step) == if 2 * backoff_secs(runtime.backoff_step)
            <= 60 {
            2 * backoff_secs(runtime.backoff_step)
        } else {
            60
        },
        !runtime.lost(now).may_resolve(now),
        runtime.lost(now).may_resolve(runtime.lost(now).retry_at->0),
        runtime.lost(now).retry_at->0.nanos == now.nanos + 1_000_000_000 * backoff_secs(
            runtime.backoff_step,
        ),
        runtime.found().may_resolve(now),
{
    lemma_backoff_secs(runtime.backoff_step);
    lemma_backoff_secs(runtime.lost(now).backoff_step);
    lemma_backoff_secs(0);
}

/// What stands in the place of a name where a decision is on no interface.
pub const UNASSIGNED: &'static str = "unassigned";

/// The interface that an event names.
pub open spec fn told_interface(interface: Seq<char>) -> Option<Seq<char>> {
    if interface == UNASSIGNED@ {
        None
    } else {
        Some(interface)
    }
}

/// The event that tells of a decision on an interface.
pub open spec fn tells_interface(
    event: MeasurementEvent,
    run_id: RunId,
    now: Timestamp,
    interface: Seq<char>,
    outcome: Outcome,
    error_kind: Option<ErrorKind>,
    retry_at: Option<Timestamp>,
    message: Seq<char>,
) -> bool {
    &&& event == (MeasurementEvent {
        message: event.message,
        interface: event.interface,
        scheduler_not_before_utc: retry_at,
        error_kind,
        ..blank_event(event.event_id, run_id, EventKind::Scheduler, outcome, now)
    })
    &&& text_view(event.interface) == told_interface(interface)
    &&& text_view(event.message) == Some(message)
}

pub(crate) fn interface_event(
    run_id: RunId,
    now: Timestamp,
    interface: &str,
    outcome: Outcome,
    error_kind: Option<ErrorKind>,
    retry_at: Option<Timestamp>,
    message: String,
) -> (event: MeasurementEvent)
    ensures
        tells_interface(
            event,
            run_id,
            now,
            interface@,
            outcome,
            error_kind,
            retry_at,
            message@,
        ),
{
    let mut event = MeasurementEvent::new(run_id, EventKind::Scheduler, outcome, now);
    event.interface = if same_text(interface, UNASSIGNED) {
        None
    } else {
        Some(interface.to_owned())
    };
    event.error_kind = error_kind;
    event.scheduler_not_before_utc = retry_at;
    event.message = Some(message);
    event
}

/// When an interface that is left alone may be looked up again, by the time of day.
pub open spec fn retry_time(clock: Clock, deadline: Duration) -> Timestamp {
    later(
        clock.utc,
        (Duration {
            nanos: if deadline.nanos >= clock.running.nanos {
                (deadline.nanos - clock.running.nanos) as u128
            } else {
                0
            },
        }),
    )
}

fn retry_time_of(clock: Clock, deadline: Duration) -> (at: Timestamp)
    ensures
        at == retry_time(clock, deadline),
{
    let rest: u128 = if deadline.nanos >= clock.running.nanos {
        deadline.nanos - clock.running.nanos
    } else {
        0
    };
    add_duration(clock.utc, Duration { nanos: rest })
}

/// The event that tells that an interface was not found while its turn had come.
pub open spec fn tells_lost(
    event: MeasurementEvent,
    run_id: RunId,
    clock: Clock,
    runtime: InterfaceRuntime,
    why: Seq<char>,
    error: Seq<char>,
) -> bool {
    tells_interface(
        event,
        run_id,
        clock.utc,
        runtime.name@,
        Outcome::Deferred,
        Some(ErrorKind::Io),
        Some(later(clock.utc, backoff_delay(runtime.backoff_step))),
        why + error,
    )
}

/// Notes that an interface was not found and tells of it.
pub(crate) fn note_lost(
    runtime: &mut InterfaceRuntime,
    run_id: RunId,
    clock: Clock,
    why: &str,
    error: &str,
) -> (event: MeasurementEvent)
    requires
        clock.sound(),
    ensures
        *final(runtime) == old(runtime).lost(clock.running),
        tells_lost(event, run_id, clock, *old(runtime), why@, error@),
{
    let delay = runtime.mark_failed(clock.running);
    interface_event(
        run_id,
        clock.utc,
        &runtime.name,
        Outcome::Deferred,
        Some(ErrorKind::Io),
        Some(add_duration(clock.utc, delay)),
        why.to_owned().concat(error),
    )
}

/// An interface that was looked up, and why it was not found if it was not.
pub struct Lookup {
    pub name: String,
    pub error: Option<String>,
}

/// The interface that a bandwidth test uses, what was written down on the way, and which
/// interfaces were looked up.
pub struct Selection {
    pub selected: Option<String>,
    pub events: Vec<MeasurementEvent>,
    pub lookups: Vec<Lookup>,
}

/// The first interface of a name, or the number of interfaces if there is none.
pub open spec fn first_named(runtimes: Seq<InterfaceRuntime>, name: Seq<char>) -> int
    decreases runtimes.len(),
{
    if runtimes.len() == 0 {
        0
    } else if runtimes[0].name@ == name {
        0
    } else {
        1 + first_named(runtimes.drop_first(), name)
    }
}

pub(crate) proof fn lemma_first_named(runtimes: Seq<InterfaceRuntime>, name: Seq<char>, i: int)
    requires
        0 <= i <= runtimes.len(),
        forall|k: int| 0 <= k < i ==> (#[trigger] runtimes[k]).name@ != name,
        i < runtimes.len() ==> runtimes[i].name@ == name,
    ensures
        first_named(runtimes, name) == i,
    decreases runtimes.len(),
{
    if runtimes.len() > 0 && i > 0 {
        let rest = runtimes.drop_first();
        assert(runtimes[0].name@ != name);
        assert forall|k: int| 0 <= k < i - 1 implies (#[trigger] rest[k]).name@ != name by {
            assert(rest[k] == runtimes[k + 1]);
        }
        if i < runtimes.len() {
            assert(rest[i - 1] == runtimes[i]);
        }
        lemma_first_named(rest, name, i - 1);
    }
}

fn find_named(runtimes: &Vec<InterfaceRuntime>, name: &str) -> (at: usize)
    ensures
        at == first_named(runtimes@, name@),
        at <= runtimes@.len(),
        at < runtimes@.len() ==> runtimes@[at as int].name@ == name@,
        at == runtimes@.len() ==> forall|k: int|
            0 <= k < runtimes@.len() ==> (#[trigger] runtimes@[k]).name@ != name@,
{
    let mut i: usize = 0;
    while i < runtimes.len()
        invariant
            i <= runtimes@.len(),
            forall|k: int| 0 <= k < i ==> (#[trigger] runtimes@[k]).name@ != name@,
        decreases runtimes@.len() - i,
    {
        if same_text(&runtimes[i].name, name) {
            proof {
                lemma_first_named(runtimes@, name@, i as int);
            }
            return i;
        }
        i += 1;
    }
    proof {
        lemma_first_named(runtimes@, name@, i as int);
    }
    i
}

/// What is known of the interfaces after one was looked up.
pub open spec fn after_lookup(
    runtimes: Seq<InterfaceRuntime>,
    lookup: Lookup,
    now: Duration,
) -> Seq<InterfaceRuntime> {
    let at = first_named(runtimes, lookup.name@);
    runtimes.update(
        at,
        if lookup.error is None {
            runtimes[at].found()
        } else {
            runtimes[at].lost(now)
        },
    )
}

/// What is known of the interfaces after some were looked up.
pub open spec fn after_lookups(
    runtimes: Seq<InterfaceRuntime>,
    lookups: Seq<Lookup>,
    now: Duration,
) -> Seq<InterfaceRuntime>
    decreases lookups.len(),
{
    if lookups.len() == 0 {
        runtimes
    } else {
        after_lookup(after_lookups(runtimes, lookups.drop_last(), now), lookups.last(), now)
    }
}

/// The interfaces that a scheduled test may use: there, not degraded, and not left alone.
pub open spec fn usable(runtimes: Seq<InterfaceRuntime>, now: Duration) -> Seq<String>
    decreases runtimes.len(),
{
    if runtimes.len() == 0 {
        Seq::empty()
    } else {
        let before = usable(runtimes.drop_last(), now);
        let last = runtimes.last();
        if last.available && !last.degraded && last.may_resolve(now) {
            before.push(last.name)
        } else {
            before
        }
    }
}

/// Names without one of them.
pub open spec fn names_without(names: Seq<String>, name: Seq<char>) -> Seq<String>
    decreases names.len(),
{
    if names.len() == 0 {
        Seq::empty()
    } else {
        let before = names_without(names.drop_last(), name);
        if names.last()@ == name {
            before
        } else {
            before.push(names.last())
        }
    }
}

/// The names that were not looked up.
pub open spec fn not_tried(names: Seq<String>, lookups: Seq<Lookup>) -> Seq<String>
    decreases lookups.len(),
{
    if lookups.len() == 0 {
        names
    } else {
        names_without(not_tried(names, lookups.drop_last()), lookups.last().name@)
    }
}

proof fn lemma_names_without(names: Seq<String>, gone: Seq<char>, name: Seq<char>)
    ensures
        listed(names_without(names, gone), name) <==> listed(names, name) && name != gone,
        names_without(names, gone).len() <= names.len(),
        listed(names, gone) ==> names_without(names, gone).len() < names.len(),
    decreases names.len(),
{
    if names.len() > 0 {
        lemma_names_without(names.drop_last(), gone, name);
        let before = names_without(names.drop_last(), gone);
        let after = names_without(names, gone);
        if listed(names, name) && name != gone {
            let i = choose|i: int| 0 <= i < names.len() && (#[trigger] names[i])@ == name;
            if i == names.len() - 1 {
                assert(after[after.len() - 1]@ == name);
            } else {
                assert(names.drop_last()[i]@ == name);
                let k = choose|k: int| 0 <= k < before.len() && (#[trigger] before[k])@ == name;
                assert(after[k]@ == name);
            }
        }
        if listed(after, name) {
            let k = choose|k: int| 0 <= k < after.len() && (#[trigger] after[k])@ == name;
            if k < before.len() {
                assert(before[k]@ == name);
                let i = choose|i: int|
                    0 <= i < names.drop_last().len() && (#[trigger] names.drop_last()[i])@ == name;
                assert(names[i]@ == name);
            } else {
                assert(names[names.len() - 1]@ == name);
            }
        }
        if listed(names, gone) && names.last()@ != gone {
            let i = choose|i: int| 0 <= i < names.len() && (#[trigger] names[i])@ == gone;
            assert(names.drop_last()[i]@ == gone);
        }
    }
}

fn usable_names(runtimes: &Vec<InterfaceRuntime>, now: Duration) -> (names: Vec<String>)
    ensures
        names@ == usable(runtimes@, now),
{
    let mut names: Vec<String> = Vec::new();
    let mut i: usize = 0;
    while i < runtimes.len()
        invariant
            i <= runtimes@.len(),
            names@ == usable(runtimes@.take(i as int), now),
        decreases runtimes@.len() - i,
    {
        proof {
            assert(runtimes@.take(i + 1).drop_last() == runtimes@.take(i as int));
        }
        let runtime = &runtimes[i];
        if runtime.available && !runtime.degraded && runtime.can_resolve(now) {
            names.push(runtime.name.clone());
        }
        i += 1;
    }
    proof {
        assert(runtimes@.take(runtimes@.len() as int) == runtimes@);
    }
    names
}

fn drop_name(names: &Vec<String>, name: &str) -> (left: Vec<String>)
    ensures
        left@ == names_without(names@, name@),
{
    let mut left: Vec<String> = Vec::new();
    let mut i: usize = 0;
    while i < names.len()
        invariant
            i <= names@.len(),
            left@ == names_without(names@.take(i as int), name@),
        decreases names@.len() - i,
    {
        proof {
            assert(names@.take(i + 1).drop_last() == names@.take(i as int));
        }
        if !same_text(&names[i], name) {
            left.push(names[i].clone());
        }
        i += 1;
    }
    proof {
        assert(names@.take(names@.len() as int) == names@);
    }
    left
}

/// An event that tells that no interface is used.
pub open spec fn tells_suppressed(
    event: MeasurementEvent,
    run_id: RunId,
    clock: Clock,
    interface: Seq<char>,
    outcome: Outcome,
    retry_at: Option<Timestamp>,
    reason: Seq<char>,
) -> bool {
    tells_interface(
        event,
        run_id,
        clock.utc,
        interface,
        outcome,
        Some(ErrorKind::Io),
        retry_at,
        "decision=bandwidth_suppressed reason="@ + reason,
    )
}

/// What is written down before the reason why a lookup failed, where the test asked for the
/// interface.
pub const ASKED_UNAVAILABLE: &'static str =
    "decision=bandwidth_suppressed reason=trigger_interface_unavailable error=";

/// What is written down before the reason why a lookup failed, where another interface is tried.
pub const SKIPPED_UNAVAILABLE: &'static str =
    "decision=bandwidth_interface_skipped reason=unavailable error=";

/// What is written down before the reason why a lookup failed, where no test was due.
pub const RETRY_LATER: &'static str = "decision=interface_retry error=";

/// The choice for a test that asks for an interface. It is used if it is known, not left alone,
/// and found; no other is tried.
pub open spec fn selects_asked(
    selection: Selection,
    before: Seq<InterfaceRuntime>,
    run_id: RunId,
    clock: Clock,
    asked: Seq<char>,
) -> bool {
    let at = first_named(before, asked);
    if at >= before.len() {
        &&& selection.selected is None
        &&& selection.lookups@.len() == 0
        &&& selection.events@.len() == 1
        &&& tells_suppressed(
            selection.events@[0],
            run_id,
            clock,
            asked,
            Outcome::Error,
            None,
            "trigger_interface_missing"@,
        )
    } else if !before[at].may_resolve(clock.running) {
        &&& selection.selected is None
        &&& selection.lookups@.len() == 0
        &&& selection.events@.len() == 1
        &&& tells_suppressed(
            selection.events@[0],
            run_id,
            clock,
            asked,
            Outcome::Deferred,
            Some(retry_time(clock, before[at].retry_at->0)),
            "trigger_interface_backoff"@,
        )
    } else {
        &&& selection.lookups@.len() == 1
        &&& selection.lookups@[0].name@ == asked
        &&& match selection.lookups@[0].error {
            None => {
                &&& text_view(selection.selected) == Some(asked)
                &&& selection.events@.len() == 0
            },
            Some(error) => {
                &&& selection.selected is None
                &&& selection.events@.len() == 1
                &&& tells_lost(
                    selection.events@[0],
                    run_id,
                    clock,
                    before[at],
                    ASKED_UNAVAILABLE@,
                    error@,
                )
            },
        }
    }
}

/// A lookup of the interface whose turn it is among those that are left.
pub open spec fn takes_turn(
    fairness: FairInterfaceSelector,
    left: Seq<String>,
    name: Seq<char>,
) -> bool {
    exists|i: int| #[trigger] fairness.is_choice(left, i) && name == fairness.order()[i]@
}

/// An event tells of the lookup with this number.
pub open spec fn tells_skipped(
    event: MeasurementEvent,
    before: Seq<InterfaceRuntime>,
    run_id: RunId,
    clock: Clock,
    lookups: Seq<Lookup>,
    k: int,
) -> bool {
    let runtimes = after_lookups(before, lookups.take(k), clock.running);
    &&& lookups[k].error is Some
    &&& tells_lost(
        event,
        run_id,
        clock,
        runtimes[first_named(runtimes, lookups[k].name@)],
        SKIPPED_UNAVAILABLE@,
        lookups[k].error->0@,
    )
}

/// The choice for a scheduled test: the usable interfaces are looked up in the order of their
/// turns until one is found.
pub open spec fn selects_by_turn(
    selection: Selection,
    before: Seq<InterfaceRuntime>,
    fairness: FairInterfaceSelector,
    run_id: RunId,
    clock: Clock,
) -> bool {
    let names = usable(before, clock.running);
    let lookups = selection.lookups@;
    let missed = if selection.selected is Some {
        lookups.len() - 1
    } else {
        lookups.len() as int
    };
    &&& forall|k: int|
        0 <= k < lookups.len() ==> takes_turn(
            fairness,
            not_tried(names, lookups.take(k)),
            (#[trigger] lookups[k]).name@,
        )
    &&& forall|k: int|
        0 <= k < missed ==> tells_skipped(
            #[trigger] selection.events@[k],
            before,
            run_id,
            clock,
            lookups,
            k,
        )
    &&& match selection.selected {
        Some(name) => {
            &&& lookups.len() > 0
            &&& lookups.last().name@ == name@
            &&& lookups.last().error is None
            &&& selection.events@.len() == missed
        },
        None => {
            &&& forall|i: int|
                0 <= i < fairness.order().len() ==> !listed(
                    not_tried(names, lookups),
                    (#[trigger] fairness.order()[i])@,
                )
            &&& selection.events@.len() == missed + 1
            &&& tells_suppressed(
                selection.events@[missed],
                run_id,
                clock,
                UNASSIGNED@,
                Outcome::Suppressed,
                None,
                "no_healthy_interface"@,
            )
        },
    }
}

/// The failed lookups of a selection.
pub open spec fn failed_lookups(lookups: Seq<Lookup>) -> nat
    decreases lookups.len(),
{
    if lookups.len() == 0 {
        0
    } else {
        failed_lookups(lookups.drop_last()) + if lookups.last().error is Some {
            1nat
        } else {
            0nat
        }
    }
}

fn suppressed_event(
    run_id: RunId,
    clock: Clock,
    interface: &str,
    outcome: Outcome,
    retry_at: Option<Timestamp>,
    reason: &str,
) -> (event: MeasurementEvent)
    ensures
        tells_suppressed(event, run_id, clock, interface@, outcome, retry_at, reason@),
{
    interface_event(
        run_id,
        clock.utc,
        interface,
        outcome,
        Some(ErrorKind::Io),
        retry_at,
        "decision=bandwidth_suppressed reason=".to_owned().concat(reason),
    )
}

/// The lookup is an answer of the resolver to its name: the interface is there, or the error says
/// why it is not.
pub open spec fn resolver_says<R: InterfaceResolver>(resolver: &R, lookup: Lookup) -> bool {
    exists|name: &str, answer: Result<ResolvedInterface, InterfaceError>|
        {
            &&& #[trigger] call_ensures(R::resolve, (resolver, name), answer)
            &&& name@ == lookup.name@
            &&& match answer {
                Ok(_) => lookup.error is None,
                Err(error) => lookup.error is Some && lookup.error->0@ == error.text(),
            }
        }
}

/// Every lookup is an answer of the resolver.
pub open spec fn all_resolved<R: InterfaceResolver>(resolver: &R, lookups: Seq<Lookup>) -> bool {
    forall|k: int| 0 <= k < lookups.len() ==> resolver_says(resolver, #[trigger] lookups[k])
}

/// Looks an interface up, and tells why it was not found if it was not.
fn look_up<R: InterfaceResolver>(resolver: &R, name: &str) -> (lookup: Lookup)
    ensures
        lookup.name@ == name@,
        resolver_says(resolver, lookup),
{
    let answer = resolver.resolve(name);
    let ghost told = answer;
    let error = match answer {
        Ok(_) => None,
        Err(error) => Some(error.message()),
    };
    proof {
        assert(call_ensures(R::resolve, (resolver, name), told));
    }
    Lookup { name: name.to_owned(), error }
}

/// Notes what came of a lookup.
fn note_lookup(
    interfaces: &mut Vec<InterfaceRuntime>,
    at: usize,
    lookup: &Lookup,
    run_id: RunId,
    clock: Clock,
    why: &str,
) -> (event: Option<MeasurementEvent>)
    requires
        clock.sound(),
        at < old(interfaces)@.len(),
        at == first_named(old(interfaces)@, lookup.name@),
    ensures
        final(interfaces)@ == after_lookup(old(interfaces)@, *lookup, clock.running),
        event is Some <==> lookup.error is Some,
        event is Some ==> tells_lost(
            event->0,
            run_id,
            clock,
            old(interfaces)@[at as int],
            why@,
            lookup.error->0@,
        ),
{
    let runtime = &mut interfaces[at];
    match &lookup.error {
        None => {
            let _ = runtime.mark_available();
            None
        },
        Some(error) => Some(note_lost(runtime, run_id, clock, why, error)),
    }
}

fn select_asked<R: InterfaceResolver>(
    run_id: RunId,
    asked: &str,
    interfaces: &mut Vec<InterfaceRuntime>,
    resolver: &R,
    clock: Clock,
) -> (selection: Selection)
    requires
        clock.sound(),
    ensures
        selects_asked(selection, old(interfaces)@, run_id, clock, asked@),
        all_resolved(resolver, selection.lookups@),
        final(interfaces)@ == after_lookups(
            old(interfaces)@,
            selection.lookups@,
            clock.running,
        ),
{
    let ghost before = interfaces@;
    let mut events: Vec<MeasurementEvent> = Vec::new();
    let mut lookups: Vec<Lookup> = Vec::new();
    let at: usize = find_named(interfaces, asked);
    if at >= interfaces.len() {
        events.push(
            suppressed_event(
                run_id,
                clock,
                asked,
                Outcome::Error,
                None,
                "trigger_interface_missing",
            ),
        );
        return Selection { selected: None, events, lookups };
    }
    if !interfaces[at].can_resolve(clock.running) {
        let retry_at = match interfaces[at].retry_at {
            Some(deadline) => Some(retry_time_of(clock, deadline)),
            None => None,
        };
        events.push(
            suppressed_event(
                run_id,
                clock,
                asked,
                Outcome::Deferred,
                retry_at,
                "trigger_interface_backoff",
            ),
        );
        return Selection { selected: None, events, lookups };
    }
    let lookup = look_up(resolver, asked);
    let event = note_lookup(interfaces, at, &lookup, run_id, clock, ASKED_UNAVAILABLE);
    let selected = match event {
        None => Some(asked.to_owned()),
        Some(event) => {
            events.push(event);
            None
        },
    };
    lookups.push(lookup);
    proof {
        assert(lookups@.drop_last() == Seq::<Lookup>::empty());
        assert(after_lookups(before, lookups@.drop_last(), clock.running) == before);
    }
    Selection { selected, events, lookups }
}

pub(crate) proof fn lemma_usable_is_named(runtimes: Seq<InterfaceRuntime>, now: Duration, name: Seq<char>)
    requires
        listed(usable(runtimes, now), name),
    ensures
        exists|i: int|
            {
                &&& 0 <= i < runtimes.len()
                &&& (#[trigger] runtimes[i]).name@ == name
                &&& runtimes[i].available
                &&& !runtimes[i].degraded
                &&& runtimes[i].may_resolve(now)
            },
    decreases runtimes.len(),
{
    if runtimes.len() > 0 {
        let names = usable(runtimes, now);
        let before = usable(runtimes.drop_last(), now);
        let k = choose|k: int| 0 <= k < names.len() && (#[trigger] names[k])@ == name;
        if k < before.len() {
            assert(before[k]@ == name);
            lemma_usable_is_named(runtimes.drop_last(), now, name);
            let i = choose|i: int|
                {
                    &&& 0 <= i < runtimes.drop_last().len()
                    &&& (#[trigger] runtimes.drop_last()[i]).name@ == name
                    &&& runtimes.drop_last()[i].available
                    &&& !runtimes.drop_last()[i].degraded
                    &&& runtimes.drop_last()[i].may_resolve(now)
                };
            assert(runtimes[i].name@ == name);
        } else {
            assert(runtimes[runtimes.len() - 1].name@ == name);
        }
    }
}

pub(crate) proof fn lemma_not_tried(names: Seq<String>, lookups: Seq<Lookup>, name: Seq<char>)
    ensures
        listed(not_tried(names, lookups), name) <==> listed(names, name) && forall|k: int|
            0 <= k < lookups.len() ==> (#[trigger] lookups[k]).name@ != name,
    decreases lookups.len(),
{
    if lookups.len() > 0 {
        lemma_not_tried(names, lookups.drop_last(), name);
        lemma_names_without(not_tried(names, lookups.drop_last()), lookups.last().name@, name);
        if listed(not_tried(names, lookups), name) {
            assert forall|k: int| 0 <= k < lookups.len() implies (#[trigger] lookups[k]).name@
                != name by {
                if k < lookups.len() - 1 {
                    assert(lookups.drop_last()[k].name@ != name);
                }
            }
        }
        if forall|k: int| 0 <= k < lookups.len() ==> (#[trigger] lookups[k]).name@ != name {
            assert(lookups[lookups.len() - 1].name@ != name);
            assert forall|k: int| 0 <= k < lookups.drop_last().len() implies (
            #[trigger] lookups.drop_last()[k]).name@ != name by {
                assert(lookups[k].name@ != name);
            }
        }
    }
}

fn select_by_turn<R: InterfaceResolver>(
    run_id: RunId,
    interfaces: &mut Vec<InterfaceRuntime>,
    resolver: &R,
    fairness: &FairInterfaceSelector,
    clock: Clock,
) -> (selection: Selection)
    requires
        clock.sound(),
    ensures
        selects_by_turn(selection, old(interfaces)@, *fairness, run_id, clock),
        all_resolved(resolver, selection.lookups@),
        final(interfaces)@ == after_lookups(
            old(interfaces)@,
            selection.lookups@,
            clock.running,
        ),
{
    let ghost before = interfaces@;
    let mut events: Vec<MeasurementEvent> = Vec::new();
    let mut lookups: Vec<Lookup> = Vec::new();
    let mut left = usable_names(interfaces, clock.running);
    let ghost names = left@;
    let mut choice = fairness.select(&left);
    proof {
        assert(lookups@ == Seq::<Lookup>::empty());
    }
    loop
        invariant_except_break
            clock.sound(),
            before == old(interfaces)@,
            names == usable(before, clock.running),
            left@ == not_tried(names, lookups@),
            interfaces@ == after_lookups(before, lookups@, clock.running),
            interfaces@.len() == before.len(),
            forall|i: int|
                0 <= i < before.len() ==> (#[trigger] interfaces@[i]).name == before[i].name,
            forall|k: int|
                0 <= k < lookups@.len() ==> takes_turn(
                    *fairness,
                    not_tried(names, lookups@.take(k)),
                    (#[trigger] lookups@[k]).name@,
                ),
            all_resolved(resolver, lookups@),
            events@.len() == lookups@.len(),
            forall|k: int|
                0 <= k < events@.len() ==> tells_skipped(
                    #[trigger] events@[k],
                    before,
                    run_id,
                    clock,
                    lookups@,
                    k,
                ),
            match choice {
                None => forall|i: int|
                    0 <= i < fairness.order().len() ==> !listed(
                        left@,
                        (#[trigger] fairness.order()[i])@,
                    ),
                Some(name) => takes_turn(*fairness, left@, name@),
            },
        ensures
            choice is None,
            before == old(interfaces)@,
            names == usable(before, clock.running),
            left@ == not_tried(names, lookups@),
            interfaces@ == after_lookups(before, lookups@, clock.running),
            forall|k: int|
                0 <= k < lookups@.len() ==> takes_turn(
                    *fairness,
                    not_tried(names, lookups@.take(k)),
                    (#[trigger] lookups@[k]).name@,
                ),
            all_resolved(resolver, lookups@),
            events@.len() == lookups@.len(),
            forall|k: int|
                0 <= k < events@.len() ==> tells_skipped(
                    #[trigger] events@[k],
                    before,
                    run_id,
                    clock,
                    lookups@,
                    k,
                ),
            forall|i: int|
                0 <= i < fairness.order().len() ==> !listed(
                    left@,
                    (#[trigger] fairness.order()[i])@,
                ),
        decreases left@.len(),
    {
        let name = match choice {
            None => {
                break;
            },
            Some(name) => name,
        };
        let ghost so_far = lookups@;
        let ghost runtimes = interfaces@;
        proof {
            let i = choose|i: int|
                #[trigger] fairness.is_choice(left@, i) && name@ == fairness.order()[i]@;
            assert(listed(left@, name@));
            lemma_not_tried(names, so_far, name@);
            lemma_usable_is_named(before, clock.running, name@);
            let at = choose|at: int|
                {
                    &&& 0 <= at < before.len()
                    &&& (#[trigger] before[at]).name@ == name@
                    &&& before[at].available
                    &&& !before[at].degraded
                    &&& before[at].may_resolve(clock.running)
                };
            assert(interfaces@[at].name@ == name@);
        }
        let at: usize = find_named(interfaces, name);
        let lookup = look_up(resolver, name);
        let event = note_lookup(interfaces, at, &lookup, run_id, clock, SKIPPED_UNAVAILABLE);
        lookups.push(lookup);
        proof {
            assert(lookups@.drop_last() == so_far);
            assert(lookups@.take(so_far.len() as int) == so_far);
            assert forall|k: int| 0 <= k < lookups@.len() implies takes_turn(
                *fairness,
                not_tried(names, lookups@.take(k)),
                (#[trigger] lookups@[k]).name@,
            ) by {
                if k < so_far.len() {
                    assert(lookups@.take(k) == so_far.take(k));
                    assert(lookups@[k] == so_far[k]);
                }
            }
            assert forall|k: int| 0 <= k < events@.len() implies tells_skipped(
                #[trigger] events@[k],
                before,
                run_id,
                clock,
                lookups@,
                k,
            ) by {
                assert(lookups@.take(k) == so_far.take(k));
                assert(lookups@[k] == so_far[k]);
            }
        }
        match event {
            None => {
                let selected = name.to_owned();
                return Selection { selected: Some(selected), events, lookups };
            },
            Some(event) => {
                let ghost told = events@;
                events.push(event);
                proof {
                    assert(tells_skipped(
                        event,
                        before,
                        run_id,
                        clock,
                        lookups@,
                        so_far.len() as int,
                    ));
                    assert forall|k: int| 0 <= k < events@.len() implies tells_skipped(
                        #[trigger] events@[k],
                        before,
                        run_id,
                        clock,
                        lookups@,
                        k,
                    ) by {
                        if k < told.len() {
                            assert(events@[k] == told[k]);
                        }
                    }
                    lemma_names_without(left@, name@, name@);
                }
                left = drop_name(&left, name);
            },
        }
        choice = fairness.select(&left);
    }
    events.push(
        suppressed_event(
            run_id,
            clock,
            UNASSIGNED,
            Outcome::Suppressed,
            None,
            "no_healthy_interface",
        ),
    );
    Selection { selected: None, events, lookups }
}

/// Finds the interface that a bandwidth test uses: the one that the test asks for, or else the
/// usable one whose turn it is. An interface that is not found is left alone for a while.
pub fn select_bandwidth_interface<R: InterfaceResolver>(
    run_id: RunId,
    asked: &Option<String>,
    interfaces: &mut Vec<InterfaceRuntime>,
    resolver: &R,
    fairness: &FairInterfaceSelector,
    clock: Clock,
) -> (selection: Selection)
    requires
        clock.sound(),
    ensures
        match *asked {
            Some(name) => selects_asked(selection, old(interfaces)@, run_id, clock, name@),
            None => selects_by_turn(selection, old(interfaces)@, *fairness, run_id, clock),
        },
        all_resolved(resolver, selection.lookups@),
        final(interfaces)@ == after_lookups(
            old(interfaces)@,
            selection.lookups@,
            clock.running,
        ),
{
    match asked {
        Some(name) => select_asked(run_id, name, interfaces, resolver, clock),
        None => select_by_turn(run_id, interfaces, resolver, fairness, clock),
    }
}

/// A scheduled test never runs on an interface that is missing, degraded or left alone.
pub proof fn law_scheduled_test_uses_a_healthy_interface(
    selection: Selection,
    before: Seq<InterfaceRuntime>,
    fairness: FairInterfaceSelector,
    run_id: RunId,
    clock: Clock,
)
    requires
        selects_by_turn(selection, before, fairness, run_id, clock),
        selection.selected is Some,
    ensures
        exists|i: int|
            {
                &&& 0 <= i < before.len()
                &&& (#[trigger] before[i]).name@ == selection.selected->0@
                &&& before[i].available
                &&& !before[i].degraded
                &&& before[i].may_resolve(clock.running)
            },
{
    let lookups = selection.lookups@;
    let k = lookups.len() - 1;
    let name = selection.selected->0@;
    let names = usable(before, clock.running);
    assert(lookups[k].name@ == name);
    assert(takes_turn(fairness, not_tried(names, lookups.take(k)), lookups[k].name@));
    lemma_not_tried(names, lookups.take(k), name);
    lemma_usable_is_named(before, clock.running, name);
}

/// No interface is looked up twice for one test.
pub proof fn law_no_interface_is_tried_twice(
    selection: Selection,
    before: Seq<InterfaceRuntime>,
    fairness: FairInterfaceSelector,
    run_id: RunId,
    clock: Clock,
    i: int,
    j: int,
)
    requires
        selects_by_turn(selection, before, fairness, run_id, clock),
        0 <= i < j < selection.lookups@.len(),
    ensures
        selection.lookups@[i].name@ != selection.lookups@[j].name@,
{
    let lookups = selection.lookups@;
    let names = usable(before, clock.running);
    assert(takes_turn(fairness, not_tried(names, lookups.take(j)), lookups[j].name@));
    lemma_not_tried(names, lookups.take(j), lookups[j].name@);
    assert(lookups.take(j)[i].name@ != lookups[j].name@);
}

} // verus!
