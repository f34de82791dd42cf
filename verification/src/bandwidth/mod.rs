//! Bandwidth tests.
pub mod connect;
pub mod connect_laws;
pub mod download;
pub mod measure;
pub mod part_laws;
pub mod report;
pub mod report_laws;
pub mod run;
pub mod transfer_laws;
pub mod upload;

pub use self::connect::classify_handshake_status;

use crate::console::ConsoleStats;
use crate::journal::JournalError;
use crate::model::{IpAddr, MeasurementEvent, Outcome};
use crate::provider::RequestFailure;
use crate::scalar::Scalar;
use crate::scheduler::SchedulerError;
use crate::time::{Duration, Timestamp};
use vstd::prelude::*;

verus! {

/// What a bandwidth test came to.
#[derive(Debug, PartialEq)]
pub struct BandwidthReport {
    pub events: Vec<MeasurementEvent>,
    pub outcome: Outcome,
    pub reserved: bool,
    pub reservation_error: Option<String>,
}

impl BandwidthReport {
    /// The exit code of a test: zero for full success only.
    pub fn exit_code(&self) -> (code: u8)
        ensures
            code == (if self.outcome == Outcome::Success {
                0u8
            } else {
                1u8
            }),
    {
        if self.outcome == Outcome::Success {
            0
        } else {
            1
        }
    }
}

/// What a server tells of its side of a connection.
#[derive(Clone, Copy, Debug, PartialEq, Eq, Structural)]
pub struct TcpMetrics {
    pub min_rtt_ms: Option<Scalar>,
    pub rtt_ms: Option<Scalar>,
    pub retransmissions: Option<u64>,
}

pub open spec fn no_metrics() -> TcpMetrics {
    TcpMetrics { min_rtt_ms: None, rtt_ms: None, retransmissions: None }
}

/// What a message of a server told, if it told anything of the connection.
pub open spec fn told_metrics(metrics: TcpMetrics, told: Option<TcpMetrics>) -> TcpMetrics {
    match told {
        Some(newer) => newer,
        None => metrics,
    }
}

/// What was measured in one direction. `elapsed_ms` and `mbps` are the time it took and the rate
/// it comes to.
#[derive(Clone, Copy, Debug, PartialEq, Eq, Structural)]
pub struct DirectionMeasurement {
    pub bytes: u64,
    pub elapsed: Duration,
    pub elapsed_ms: Scalar,
    pub mbps: Option<Scalar>,
    pub remote_ip: IpAddr,
    pub local_ip: IpAddr,
    pub metrics: TcpMetrics,
}

/// What came of one direction.
pub struct DirectionResult {
    pub measurement: Option<DirectionMeasurement>,
    pub failures: Vec<RequestFailure>,
}

/// Whether a start is on the account of a provider, and the how many of the day it is.
#[derive(Clone, Copy, Debug, PartialEq, Eq, Structural)]
pub enum AdmissionReservation {
    Untracked,
    Reserved { daily_runs_used: u32 },
}

/// Admits the start of a test.
pub trait ReservationGate {
    /// A start at an instant is answered with this admission, and the account is then as `after`.
    /// An account that does not say more may answer as it likes.
    open spec fn admits(
        &self,
        started_at: Timestamp,
        admission: Result<AdmissionReservation, String>,
        after: &Self,
    ) -> bool {
        true
    }

    /// Asks for the admission of a start.
    fn reserve(&mut self, started_at: Timestamp) -> (admission: Result<
        AdmissionReservation,
        String,
    >)
        requires
            started_at.schedulable(),
        ensures
            old(self).admits(started_at, admission, final(self)),
    ;
}

/// Admits every start and keeps no account.
pub struct UntrackedReservation;

impl ReservationGate for UntrackedReservation {
    open spec fn admits(
        &self,
        started_at: Timestamp,
        admission: Result<AdmissionReservation, String>,
        after: &Self,
    ) -> bool {
        admission == Ok::<AdmissionReservation, String>(AdmissionReservation::Untracked)
    }

    fn reserve(&mut self, started_at: Timestamp) -> (admission: Result<
        AdmissionReservation,
        String,
    >) {
        Ok(AdmissionReservation::Untracked)
    }
}

/// A bandwidth test that was run on request.
pub struct BandwidthExecution {
    pub output_path: String,
    pub report: BandwidthReport,
    pub console_stats: ConsoleStats,
}

/// Why a bandwidth test that was asked for could not be carried out.
pub enum BandwidthCommandError {
    Journal(JournalError),
    Scheduler(SchedulerError),
}

impl BandwidthCommandError {
    pub open spec fn text(self) -> Seq<char> {
        match self {
            BandwidthCommandError::Journal(error) => error.text(),
            BandwidthCommandError::Scheduler(error) => error.text(),
        }
    }

    /// The error in words.
    pub fn message(&self) -> (text: String)
        ensures
            text@ == self.text(),
    {
        match self {
            BandwidthCommandError::Journal(error) => error.message(),
            BandwidthCommandError::Scheduler(error) => error.message(),
        }
    }
}

/// The report of a test that the scheduler did not allow.
pub fn blocked_report(event: MeasurementEvent) -> (report: BandwidthReport)
    ensures
        report.events@ == seq![event],
        report.outcome == Outcome::Suppressed,
        !report.reserved,
        report.reservation_error is None,
{
    let mut events: Vec<MeasurementEvent> = Vec::new();
    events.push(event);
    proof {
        assert(events@ =~= seq![event]);
    }
    BandwidthReport {
        events,
        outcome: Outcome::Suppressed,
        reserved: false,
        reservation_error: None,
    }
}

} // verus!
