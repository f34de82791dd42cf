//! Receiving from a server.
use super::{DirectionMeasurement, DirectionResult, TcpMetrics, no_metrics, told_metrics};
use crate::model::{ErrorKind, IpAddr, RequestStage};
use crate::provider::{FailureView, RequestFailure, failure_views, plain_failure};
use crate::scalar::Scalar;
use crate::time::{Duration, Timestamp};
use vstd::prelude::*;

verus! {

/// A connection to a server.
pub struct Connection {
    pub logical_server: String,
    pub remote_ip: IpAddr,
    pub local_ip: IpAddr,
}

/// What a failure in the middle of a transfer is called.
pub open spec fn stream_error_kind(stage: RequestStage) -> ErrorKind {
    match stage {
        RequestStage::Download => ErrorKind::DownloadFailed,
        RequestStage::Upload => ErrorKind::UploadFailed,
        _ => ErrorKind::Io,
    }
}

/// A failure in the middle of a transfer.
pub open spec fn stream_failure_view(
    connection: Connection,
    stage: RequestStage,
    message: Seq<char>,
    os_error_code: Option<i32>,
    now: Timestamp,
) -> FailureView {
    FailureView {
        server_name: Some(connection.logical_server@),
        local_ip: Some(connection.local_ip),
        remote_ip: Some(connection.remote_ip),
        os_error_code,
        ..plain_failure(stage, stream_error_kind(stage), message, None, 1, now)
    }
}

pub fn stream_failure(
    connection: &Connection,
    stage: RequestStage,
    message: String,
    os_error_code: Option<i32>,
    now: Timestamp,
) -> (failure: RequestFailure)
    ensures
        failure@ == stream_failure_view(*connection, stage, message@, os_error_code, now),
{
    let error_kind = match stage {
        RequestStage::Download => ErrorKind::DownloadFailed,
        RequestStage::Upload => ErrorKind::UploadFailed,
        _ => ErrorKind::Io,
    };
    let mut failure = RequestFailure::simple(stage, error_kind, message, None, 1, now);
    failure.server_name = Some(connection.logical_server.clone());
    failure.local_ip = Some(connection.local_ip);
    failure.remote_ip = Some(connection.remote_ip);
    failure.os_error_code = os_error_code;
    failure
}

/// What arrived during a download. A ping was already answered, or the answer failed.
pub enum DownloadEvent {
    Binary { len: u64 },
    Text { told: Option<TcpMetrics> },
    Closed,
    Other,
    Failed { message: String, os_error_code: Option<i32> },
    Ended,
}

/// How far a download has come.
pub struct DownloadState {
    pub bytes: u64,
    pub metrics: TcpMetrics,
    pub completed: bool,
    pub failures: Vec<RequestFailure>,
}

#[verifier::ext_equal]
pub struct DownloadView {
    pub bytes: u64,
    pub metrics: TcpMetrics,
    pub completed: bool,
    pub failures: Seq<FailureView>,
}

impl View for DownloadState {
    type V = DownloadView;

    open spec fn view(&self) -> DownloadView {
        DownloadView {
            bytes: self.bytes,
            metrics: self.metrics,
            completed: self.completed,
            failures: failure_views(self.failures@),
        }
    }
}

/// More bytes, at most what 64 bits count.
pub open spec fn more_bytes(bytes: u64, len: u64) -> u64 {
    if bytes + len <= u64::MAX {
        (bytes + len) as u64
    } else {
        u64::MAX
    }
}

/// How far a download has come after something arrived, and whether it goes on.
pub open spec fn downloaded(
    state: DownloadView,
    connection: Connection,
    now: Timestamp,
    event: DownloadEvent,
) -> (DownloadView, bool) {
    match event {
        DownloadEvent::Binary { len } => (
            DownloadView { bytes: more_bytes(state.bytes, len), ..state },
            true,
        ),
        DownloadEvent::Text { told } => (
            DownloadView { metrics: told_metrics(state.metrics, told), ..state },
            true,
        ),
        DownloadEvent::Closed => (DownloadView { completed: true, ..state }, false),
        DownloadEvent::Other => (state, true),
        DownloadEvent::Failed { message, os_error_code } => (
            DownloadView {
                failures: state.failures.push(
                    stream_failure_view(
                        connection,
                        RequestStage::Download,
                        message@,
                        os_error_code,
                        now,
                    ),
                ),
                ..state
            },
            false,
        ),
        DownloadEvent::Ended => (state, false),
    }
}

/// The failures of a download that has ended: one without bytes, and one that broke off, are
/// failures even if nothing else was.
pub open spec fn download_failures(state: DownloadView, connection: Connection, now: Timestamp)
    -> Seq<FailureView> {
    if state.failures.len() > 0 {
        state.failures
    } else if state.bytes == 0 {
        seq![
            stream_failure_view(
                connection,
                RequestStage::Download,
                "download ended without measurement bytes"@,
                None,
                now,
            ),
        ]
    } else if !state.completed {
        seq![
            stream_failure_view(
                connection,
                RequestStage::Download,
                "download connection ended without a close frame"@,
                None,
                now,
            ),
        ]
    } else {
        Seq::empty()
    }
}

/// How long a transfer took: as a span, in milliseconds, and the rate that it comes to.
#[derive(Clone, Copy, Debug, PartialEq, Eq, Structural)]
pub struct Pace {
    pub elapsed: Duration,
    pub elapsed_ms: Scalar,
    pub mbps: Option<Scalar>,
}

/// What was measured in one direction.
pub open spec fn measured(bytes: u64, metrics: TcpMetrics, connection: Connection, pace: Pace)
    -> Option<DirectionMeasurement> {
    if bytes == 0 {
        None
    } else {
        Some(
            DirectionMeasurement {
                bytes,
                elapsed: pace.elapsed,
                elapsed_ms: pace.elapsed_ms,
                mbps: pace.mbps,
                remote_ip: connection.remote_ip,
                local_ip: connection.local_ip,
                metrics,
            },
        )
    }
}

pub fn measurement(bytes: u64, metrics: TcpMetrics, connection: &Connection, pace: Pace) -> (result:
    Option<DirectionMeasurement>)
    ensures
        result == measured(bytes, metrics, *connection, pace),
{
    if bytes == 0 {
        None
    } else {
        Some(
            DirectionMeasurement {
                bytes,
                elapsed: pace.elapsed,
                elapsed_ms: pace.elapsed_ms,
                mbps: pace.mbps,
                remote_ip: connection.remote_ip,
                local_ip: connection.local_ip,
                metrics,
            },
        )
    }
}

impl DownloadState {
    /// A download that is about to begin, with what failed on the way to the server.
    pub fn new(failures: Vec<RequestFailure>) -> (state: Self)
        ensures
            state@ == (DownloadView {
                bytes: 0,
                metrics: no_metrics(),
                completed: false,
                failures: failure_views(failures@),
            }),
    {
        DownloadState {
            bytes: 0,
            metrics: TcpMetrics { min_rtt_ms: None, rtt_ms: None, retransmissions: None },
            completed: false,
            failures,
        }
    }

    /// Takes in what arrived. Says whether the download goes on.
    pub fn receive(&mut self, connection: &Connection, now: Timestamp, event: DownloadEvent) -> (
        more: bool)
        ensures
            (final(self)@, more) == downloaded(old(self)@, *connection, now, event),
    {
        match event {
            DownloadEvent::Binary { len } => {
                self.bytes = self.bytes.saturating_add(len);
                true
            },
            DownloadEvent::Text { told } => {
                if let Some(metrics) = told {
                    self.metrics = metrics;
                }
                true
            },
            DownloadEvent::Closed => {
                self.completed = true;
                false
            },
            DownloadEvent::Other => true,
            DownloadEvent::Failed { message, os_error_code } => {
                let ghost before = self.failures@;
                self.failures.push(
                    stream_failure(
                        connection,
                        RequestStage::Download,
                        message,
                        os_error_code,
                        now,
                    ),
                );
                proof {
                    assert(failure_views(self.failures@) =~= failure_views(before).push(
                        self.failures@.last()@,
                    ));
                }
                false
            },
            DownloadEvent::Ended => false,
        }
    }

    /// What a download that has ended comes to.
    pub fn finish(self, connection: &Connection, now: Timestamp, pace: Pace) -> (result:
        DirectionResult)
        ensures
            result.measurement == measured(self@.bytes, self@.metrics, *connection, pace),
            failure_views(result.failures@) == download_failures(self@, *connection, now),
    {
        let mut failures = self.failures;
        if failures.len() == 0 && (self.bytes == 0 || !self.completed) {
            let message = if self.bytes == 0 {
                "download ended without measurement bytes"
            } else {
                "download connection ended without a close frame"
            };
            failures.push(
                stream_failure(connection, RequestStage::Download, message.to_owned(), None, now),
            );
        }
        proof {
            assert(failure_views(failures@) =~= download_failures(self@, *connection, now));
        }
        DirectionResult {
            measurement: measurement(self.bytes, self.metrics, connection, pace),
            failures,
        }
    }
}

/// A direction always comes to something: it was measured, or there is a failure that says why
/// not.
pub proof fn law_download_is_measured_or_explained(
    state: DownloadView,
    connection: Connection,
    now: Timestamp,
    pace: Pace,
)
    ensures
        measured(state.bytes, state.metrics, connection, pace) is Some || download_failures(
            state,
            connection,
            now,
        ).len() > 0,
        download_failures(state, connection, now).len() == 0 ==> state.completed && state.bytes > 0,
{
}

} // verus!
