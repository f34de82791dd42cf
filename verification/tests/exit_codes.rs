use netband::bandwidth::BandwidthCommandError;
use netband::exit::{
    EXIT_CONFIGURATION, EXIT_FORCED_SHUTDOWN, bandwidth_error_code, check_single_interface,
    completed_code, completion_of, monitor_error_code, ping_error_code,
};
use netband::journal::JournalError;
use netband::monitor::MonitorError;
use netband::ping::{PingCommandError, PingExitStatus, PingRoundError};
use netband::scheduler::SchedulerError;
use netband::shutdown::{
    ForcedReason, SignalName, Supervised, Supervision, SupervisionEvent, SupervisionStep,
};

#[test]
fn journal_failures_have_consistent_exit_codes_across_commands() {
    for case in 0..6 {
        let make = || match case {
            0 => JournalError::Io {
                permission_denied: true,
                message: "permission denied".into(),
            },
            1 => JournalError::Io { permission_denied: false, message: "write failed".into() },
            2 => JournalError::Header("results.csv".into()),
            3 => JournalError::Corrupt("results.csv".into()),
            4 => JournalError::Locked("results.csv".into()),
            _ => JournalError::Csv { message: "CSV failed".into() },
        };
        let expected = if case == 0 { 3 } else { 4 };
        assert_eq!(ping_error_code(&PingCommandError::Journal(make())), expected);
        assert_eq!(monitor_error_code(&MonitorError::Journal(make())), expected);
        assert_eq!(bandwidth_error_code(&BandwidthCommandError::Journal(make())), expected);
    }
}

#[test]
fn scheduler_failures_have_consistent_exit_codes_across_commands() {
    for case in 0..6 {
        let make = || match case {
            0 | 1 => SchedulerError::Io {
                path: "scheduler.json".into(),
                permission_denied: case == 0,
                message: "fixture".into(),
            },
            2 => SchedulerError::Locked("scheduler.lock".into()),
            3 => SchedulerError::Corrupt {
                path: "scheduler.json".into(),
                message: "fixture".into(),
            },
            4 => SchedulerError::UnsupportedSchema(99),
            _ => SchedulerError::Admission("fixture".into()),
        };
        let expected = if case == 0 { 3 } else { 4 };
        assert_eq!(monitor_error_code(&MonitorError::Scheduler(make())), expected);
        assert_eq!(bandwidth_error_code(&BandwidthCommandError::Scheduler(make())), expected);
    }
    assert_eq!(ping_error_code(&PingCommandError::Round(PingRoundError::NoTargets)), 5);
    assert_eq!(monitor_error_code(&MonitorError::Round(PingRoundError::NoTargets)), 5);
}

#[test]
fn task_failure_maps_to_internal_error() {
    let error = MonitorError::Task("fixture task failure".into());
    assert_eq!(monitor_error_code(&error), 5);
    assert_eq!(error.message(), "ping scheduler task failed: fixture task failure");
}

#[test]
fn normal_completion_preserves_result_without_requesting_shutdown() {
    for result in [Ok(()), Err("operation error")] {
        let mut supervision = Supervision::new();
        let SupervisionStep::End(supervised) =
            supervision.step(SupervisionEvent::Finished(result))
        else {
            panic!("finished work ends the supervision");
        };
        let completion = completion_of(supervised).ok().unwrap();
        assert_eq!(completion.result, result);
        assert!(!completion.shutdown_requested);
        assert_eq!(supervision.first, None);
    }
}

#[test]
fn one_shot_commands_reject_multiple_interfaces_before_execution() {
    let two = vec!["fixture-a".to_owned(), "fixture-b".to_owned()];
    assert_eq!(check_single_interface(&two), Err(2));
    assert_eq!(EXIT_CONFIGURATION, 2);
    assert_eq!(check_single_interface(&vec!["fixture-a".to_owned()]), Ok(()));
    assert_eq!(check_single_interface(&vec![]), Ok(()));
}

#[test]
fn first_signal_asks_and_second_signal_forces() {
    let mut supervision = Supervision::new();
    assert!(matches!(
        supervision.step::<u8>(SupervisionEvent::GraceExpired),
        SupervisionStep::Wait
    ));
    assert!(matches!(
        supervision.step::<u8>(SupervisionEvent::Signal(SignalName::Interrupt)),
        SupervisionStep::RequestShutdown
    ));
    let mut impatient = supervision;
    assert!(matches!(
        impatient.step::<u8>(SupervisionEvent::Signal(SignalName::Terminate)),
        SupervisionStep::End(Supervised::Forced(ForcedReason::SecondSignal(
            SignalName::Terminate
        )))
    ));
    let mut late = supervision;
    let SupervisionStep::End(forced) = late.step::<u8>(SupervisionEvent::GraceExpired) else {
        panic!("the time of grace is over");
    };
    assert!(matches!(forced, Supervised::Forced(ForcedReason::GraceExpired)));
    assert_eq!(completion_of(forced).err(), Some(EXIT_FORCED_SHUTDOWN));
    assert_eq!(EXIT_FORCED_SHUTDOWN, 6);
    let SupervisionStep::End(graceful) = supervision.step(SupervisionEvent::Finished(7u8)) else {
        panic!("finished work ends the supervision");
    };
    let completion = completion_of(graceful).ok().unwrap();
    assert_eq!(completion.result, 7);
    assert!(completion.shutdown_requested);
}

#[test]
fn codes_and_names_are_fixed() {
    assert_eq!(PingExitStatus::Success.code(), 0);
    assert_eq!(PingExitStatus::PartialFailure.code(), 1);
    assert_eq!(SignalName::Interrupt.as_str(), "SIGINT");
    assert_eq!(SignalName::Terminate.as_str(), "SIGTERM");
    assert_eq!(completed_code(true, 1), 0);
    assert_eq!(completed_code(false, 1), 1);
    assert_eq!(
        SchedulerError::UnsupportedSchema(99).message(),
        "scheduler state schema 99 is unsupported"
    );
    assert_eq!(
        JournalError::Locked("results.csv".into()).message(),
        "output file is already locked by another Netband process: results.csv"
    );
}
