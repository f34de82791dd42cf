//! The codes that commands end with.
use crate::bandwidth::BandwidthCommandError;
use crate::journal::JournalError;
use crate::monitor::MonitorError;
use crate::ping::PingCommandError;
use crate::scheduler::SchedulerError;
use crate::shutdown::Supervised;
use vstd::prelude::*;

verus! {

pub const EXIT_CONFIGURATION: u8 = 2;

pub const EXIT_PERMISSION: u8 = 3;

pub const EXIT_DURABLE_STATE: u8 = 4;

pub const EXIT_INTERNAL: u8 = 5;

pub const EXIT_FORCED_SHUTDOWN: u8 = 6;

/// The code of a failure to keep something.
pub open spec fn durable_code(permission_denied: bool) -> u8 {
    if permission_denied {
        EXIT_PERMISSION
    } else {
        EXIT_DURABLE_STATE
    }
}

/// Whether the system refused access to the journal.
pub open spec fn journal_denied(error: JournalError) -> bool {
    error matches JournalError::Io { permission_denied, .. } && permission_denied
}

/// Whether the system refused access to the scheduler's state.
pub open spec fn scheduler_denied(error: SchedulerError) -> bool {
    error matches SchedulerError::Io { permission_denied, .. } && permission_denied
}

pub fn journal_error_code(error: &JournalError) -> (code: u8)
    ensures
        code == durable_code(journal_denied(*error)),
{
    if error.is_permission_denied() {
        EXIT_PERMISSION
    } else {
        EXIT_DURABLE_STATE
    }
}

pub fn scheduler_error_code(error: &SchedulerError) -> (code: u8)
    ensures
        code == durable_code(scheduler_denied(*error)),
{
    if error.is_permission_denied() {
        EXIT_PERMISSION
    } else {
        EXIT_DURABLE_STATE
    }
}

/// The code of a round that could not be carried out.
pub open spec fn ping_code(error: PingCommandError) -> u8 {
    match error {
        PingCommandError::Journal(error) => durable_code(journal_denied(error)),
        PingCommandError::Round(_) => EXIT_INTERNAL,
    }
}

pub fn ping_error_code(error: &PingCommandError) -> (code: u8)
    ensures
        code == ping_code(*error),
{
    match error {
        PingCommandError::Journal(error) => journal_error_code(error),
        PingCommandError::Round(_) => EXIT_INTERNAL,
    }
}

/// The code of a monitor that could not go on.
pub open spec fn monitor_code(error: MonitorError) -> u8 {
    match error {
        MonitorError::Journal(error) => durable_code(journal_denied(error)),
        MonitorError::Scheduler(error) => durable_code(scheduler_denied(error)),
        MonitorError::Round(_) | MonitorError::Task(_) => EXIT_INTERNAL,
    }
}

pub fn monitor_error_code(error: &MonitorError) -> (code: u8)
    ensures
        code == monitor_code(*error),
{
    match error {
        MonitorError::Journal(error) => journal_error_code(error),
        MonitorError::Scheduler(error) => scheduler_error_code(error),
        MonitorError::Round(_) | MonitorError::Task(_) => EXIT_INTERNAL,
    }
}

/// The code of a bandwidth test that could not be carried out.
pub open spec fn bandwidth_code(error: BandwidthCommandError) -> u8 {
    match error {
        BandwidthCommandError::Journal(error) => durable_code(journal_denied(error)),
        BandwidthCommandError::Scheduler(error) => durable_code(scheduler_denied(error)),
    }
}

pub fn bandwidth_error_code(error: &BandwidthCommandError) -> (code: u8)
    ensures
        code == bandwidth_code(*error),
{
    match error {
        BandwidthCommandError::Journal(error) => journal_error_code(error),
        BandwidthCommandError::Scheduler(error) => scheduler_error_code(error),
    }
}

/// The same failure of the journal or of the scheduler's state gives the same code, whichever
/// command it ends.
pub proof fn law_codes_are_the_same_across_commands(
    journal: JournalError,
    scheduler: SchedulerError,
)
    ensures
        ping_code(PingCommandError::Journal(journal)) == monitor_code(
            MonitorError::Journal(journal),
        ),
        monitor_code(MonitorError::Journal(journal)) == bandwidth_code(
            BandwidthCommandError::Journal(journal),
        ),
        monitor_code(MonitorError::Scheduler(scheduler)) == bandwidth_code(
            BandwidthCommandError::Scheduler(scheduler),
        ),
{
}

/// A command that ran to its end, and whether it was asked to end.
pub struct CommandCompletion<T> {
    pub result: T,
    pub shutdown_requested: bool,
}

/// What a command came to, or the code that it ends with where it was ended by force.
pub fn completion_of<T>(supervised: Supervised<T>) -> (completion: Result<CommandCompletion<T>, u8>)
    ensures
        match (supervised, completion) {
            (Supervised::Completed(done), Ok(completion)) => {
                completion.result == done && !completion.shutdown_requested
            },
            (Supervised::Graceful { result: done, .. }, Ok(completion)) => {
                completion.result == done && completion.shutdown_requested
            },
            (Supervised::Forced(_), Err(code)) => code == EXIT_FORCED_SHUTDOWN,
            _ => false,
        },
{
    match supervised {
        Supervised::Completed(result) => Ok(
            CommandCompletion { result, shutdown_requested: false },
        ),
        Supervised::Graceful { result, .. } => Ok(
            CommandCompletion { result, shutdown_requested: true },
        ),
        Supervised::Forced(_) => Err(EXIT_FORCED_SHUTDOWN),
    }
}

/// The code of a command that ran to its end: its own, or zero where it was asked to end.
pub fn completed_code(shutdown_requested: bool, own: u8) -> (code: u8)
    ensures
        code == (if shutdown_requested {
            0u8
        } else {
            own
        }),
{
    if shutdown_requested {
        0
    } else {
        own
    }
}

/// A command that runs once takes one interface at most.
pub fn check_single_interface(interfaces: &Vec<String>) -> (result: Result<(), u8>)
    ensures
        result == (if interfaces@.len() > 1 {
            Err::<(), u8>(EXIT_CONFIGURATION)
        } else {
            Ok(())
        }),
{
    if interfaces.len() > 1 {
        Err(EXIT_CONFIGURATION)
    } else {
        Ok(())
    }
}

} // verus!
