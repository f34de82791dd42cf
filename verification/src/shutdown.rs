//! Ending on request: what follows a signal, and when the end is forced.
use vstd::prelude::*;

verus! {

#[derive(Clone, Copy, Debug, PartialEq, Eq, Structural)]
pub enum SignalName {
    Interrupt,
    Terminate,
}

impl SignalName {
    pub fn as_str(self) -> (name: &'static str)
        ensures
            name@ == (match self {
                SignalName::Interrupt => "SIGINT"@,
                SignalName::Terminate => "SIGTERM"@,
            }),
    {
        match self {
            SignalName::Interrupt => "SIGINT",
            SignalName::Terminate => "SIGTERM",
        }
    }
}

#[derive(Clone, Copy, Debug, PartialEq, Eq, Structural)]
pub enum ForcedReason {
    SecondSignal(SignalName),
    GraceExpired,
}

/// How a piece of work ended.
#[derive(Debug)]
pub enum Supervised<T> {
    /// By itself.
    Completed(T),
    /// By itself after it was asked to.
    Graceful { result: T, signal: SignalName },
    /// By force.
    Forced(ForcedReason),
}

/// What happens to a piece of work.
pub enum SupervisionEvent<T> {
    Finished(T),
    Signal(SignalName),
    GraceExpired,
}

/// What follows.
pub enum SupervisionStep<T> {
    /// The work is asked to end, and the time of grace begins.
    RequestShutdown,
    /// Nothing.
    Wait,
    End(Supervised<T>),
}

/// Watches over a piece of work.
#[derive(Clone, Copy, Debug, PartialEq, Eq, Structural)]
pub struct Supervision {
    /// The signal that asked for the end.
    pub first: Option<SignalName>,
}

/// What follows an event.
pub open spec fn supervised<T>(first: Option<SignalName>, event: SupervisionEvent<T>)
    -> SupervisionStep<T> {
    match (first, event) {
        (None, SupervisionEvent::Finished(result)) => SupervisionStep::End(
            Supervised::Completed(result),
        ),
        (None, SupervisionEvent::Signal(_)) => SupervisionStep::RequestShutdown,
        (None, SupervisionEvent::GraceExpired) => SupervisionStep::Wait,
        (Some(signal), SupervisionEvent::Finished(result)) => SupervisionStep::End(
            Supervised::Graceful { result, signal },
        ),
        (Some(_), SupervisionEvent::Signal(second)) => SupervisionStep::End(
            Supervised::Forced(ForcedReason::SecondSignal(second)),
        ),
        (Some(_), SupervisionEvent::GraceExpired) => SupervisionStep::End(
            Supervised::Forced(ForcedReason::GraceExpired),
        ),
    }
}

/// The signal that asked for the end, after an event: the first one.
pub open spec fn remembered<T>(first: Option<SignalName>, event: SupervisionEvent<T>) -> Option<
    SignalName,
> {
    match (first, event) {
        (None, SupervisionEvent::Signal(signal)) => Some(signal),
        (first, _) => first,
    }
}

impl Supervision {
    pub fn new() -> (supervision: Self)
        ensures
            supervision.first is None,
    {
        Supervision { first: None }
    }

    /// Takes in what happened. The first signal asks the work to end; a second one, or the end of
    /// the time of grace, ends it by force.
    pub fn step<T>(&mut self, event: SupervisionEvent<T>) -> (step: SupervisionStep<T>)
        ensures
            step == supervised(old(self).first, event),
            final(self).first == remembered(old(self).first, event),
    {
        match (self.first, event) {
            (None, SupervisionEvent::Finished(result)) => {
                SupervisionStep::End(Supervised::Completed(result))
            },
            (None, SupervisionEvent::Signal(signal)) => {
                self.first = Some(signal);
                SupervisionStep::RequestShutdown
            },
            (None, SupervisionEvent::GraceExpired) => SupervisionStep::Wait,
            (Some(signal), SupervisionEvent::Finished(result)) => {
                SupervisionStep::End(Supervised::Graceful { result, signal })
            },
            (Some(_), SupervisionEvent::Signal(second)) => {
                SupervisionStep::End(Supervised::Forced(ForcedReason::SecondSignal(second)))
            },
            (Some(_), SupervisionEvent::GraceExpired) => {
                SupervisionStep::End(Supervised::Forced(ForcedReason::GraceExpired))
            },
        }
    }
}

/// Work that was asked to end and is done is never called forced, and its result is kept.
pub proof fn law_finished_work_keeps_its_result<T>(first: Option<SignalName>, result: T)
    ensures
        supervised(first, SupervisionEvent::Finished(result)) == SupervisionStep::End(
            match first {
                None => Supervised::Completed(result),
                Some(signal) => Supervised::Graceful { result, signal },
            },
        ),
{
}

/// The end is forced only after it was asked for.
pub proof fn law_no_end_is_forced_unasked<T>(first: Option<SignalName>, event: SupervisionEvent<T>)
    ensures
        supervised(first, event) matches SupervisionStep::End(Supervised::Forced(_))
            ==> first is Some,
{
}

} // verus!
