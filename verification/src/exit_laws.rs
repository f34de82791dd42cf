//! What a command ends with, and what becomes of one that is asked to end.
use crate::bandwidth::BandwidthCommandError;
use crate::exit::{
    CommandCompletion, bandwidth_error_code, check_single_interface, completed_code, completion_of,
    journal_error_code, monitor_error_code, ping_error_code, scheduler_error_code,
};
use crate::journal::JournalError;
use crate::monitor::MonitorError;
use crate::ping::PingCommandError;
use crate::scheduler::SchedulerError;
use crate::shutdown::{
    ForcedReason, SignalName, Supervised, SupervisionEvent, SupervisionStep, remembered, supervised,
};
use vstd::prelude::*;

verus! {

/// The system refused access to the journal.
pub open spec fn journal_refused(error: JournalError) -> bool {
    error is Io && error->permission_denied
}

/// The system refused access to the scheduler's state.
pub open spec fn scheduler_refused(error: SchedulerError) -> bool {
    match error {
        SchedulerError::Io { permission_denied, .. } => permission_denied,
        _ => false,
    }
}

/// A failure of the journal ends a command with three where access was refused, and with four
/// otherwise, whichever command it is.
pub proof fn law_journal_failures_have_their_codes(error: JournalError, code: u8)
    requires
        call_ensures(journal_error_code, (&error,), code) || call_ensures(
            ping_error_code,
            (&PingCommandError::Journal(error),),
            code,
        ) || call_ensures(monitor_error_code, (&MonitorError::Journal(error),), code)
            || call_ensures(
            bandwidth_error_code,
            (&BandwidthCommandError::Journal(error),),
            code,
        ),
    ensures
        code == 3 <==> journal_refused(error),
        code == 4 <==> !journal_refused(error),
{
}

/// A failure of the scheduler's state ends a command with three where access was refused, and with
/// four otherwise.
pub proof fn law_scheduler_failures_have_their_codes(error: SchedulerError, code: u8)
    requires
        call_ensures(scheduler_error_code, (&error,), code) || call_ensures(
            monitor_error_code,
            (&MonitorError::Scheduler(error),),
            code,
        ) || call_ensures(
            bandwidth_error_code,
            (&BandwidthCommandError::Scheduler(error),),
            code,
        ),
    ensures
        code == 3 <==> scheduler_refused(error),
        code == 4 <==> !scheduler_refused(error),
{
}

/// A round that cannot be carried out, and a task that fails, end a command with five.
pub proof fn law_inner_failures_have_one_code(
    ping: PingCommandError,
    monitor: MonitorError,
    ping_code: u8,
    monitor_code: u8,
)
    requires
        call_ensures(ping_error_code, (&ping,), ping_code),
        call_ensures(monitor_error_code, (&monitor,), monitor_code),
    ensures
        ping_code == 5 <==> ping is Round,
        monitor_code == 5 <==> monitor is Round || monitor is Task,
{
}

/// A command that comes to its end keeps its result, and it is known whether it was asked to end.
/// One that was ended by force has none, and its code is six.
pub proof fn law_forced_end_has_its_code<T>(
    supervised: Supervised<T>,
    completion: Result<CommandCompletion<T>, u8>,
)
    requires
        call_ensures(completion_of::<T>, (supervised,), completion),
    ensures
        completion is Err <==> supervised is Forced,
        completion is Err ==> completion->Err_0 == 6,
        supervised is Completed ==> completion->Ok_0.result == supervised->Completed_0
            && !completion->Ok_0.shutdown_requested,
        supervised is Graceful ==> completion->Ok_0.result == supervised->result
            && completion->Ok_0.shutdown_requested,
{
}

/// A command that was asked to end succeeds; any other has its own code.
pub proof fn law_asked_end_is_a_success(shutdown_requested: bool, own: u8, code: u8)
    requires
        call_ensures(completed_code, (shutdown_requested, own), code),
    ensures
        shutdown_requested ==> code == 0,
        !shutdown_requested ==> code == own,
{
}

/// A command that runs once is refused with two where it is given more than one interface.
pub proof fn law_one_run_takes_one_interface(interfaces: Vec<String>, result: Result<(), u8>)
    requires
        call_ensures(check_single_interface, (&interfaces,), result),
    ensures
        result is Ok <==> interfaces@.len() <= 1,
        result is Err ==> result->Err_0 == 2,
{
}

/// The first signal asks the work to end and is remembered; the second ends it by force, and so
/// does the end of the time of grace. Work that is done ends by itself.
pub proof fn law_second_signal_forces_the_end<T>(
    first: Option<SignalName>,
    event: SupervisionEvent<T>,
)
    ensures
        supervised(first, event) is RequestShutdown <==> first is None && event is Signal,
        supervised(first, event) is Wait <==> first is None && event is GraceExpired,
        event is Finished ==> supervised(first, event) is End,
        event is Finished && first is None ==> supervised(first, event)->End_0
            == Supervised::Completed(event->Finished_0),
        event is Finished && first is Some ==> supervised(first, event)->End_0
            == (Supervised::Graceful { result: event->Finished_0, signal: first->0 }),
        event is Signal && first is Some ==> supervised(first, event) == SupervisionStep::<T>::End(
            Supervised::Forced(ForcedReason::SecondSignal(event->Signal_0)),
        ),
        event is GraceExpired && first is Some ==> supervised(first, event)
            == SupervisionStep::<T>::End(Supervised::Forced(ForcedReason::GraceExpired)),
        first is Some ==> remembered(first, event) == first,
        first is None && event is Signal ==> remembered(first, event) == Some(event->Signal_0),
        first is None && !(event is Signal) ==> remembered(first, event) is None,
{
}

} // verus!
