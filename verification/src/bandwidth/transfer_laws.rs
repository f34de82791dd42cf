//! What holds of a whole download or upload, whatever arrives in whatever order.
use super::download::{
    Connection, DownloadEvent, DownloadView, Pace, download_failures, downloaded, measured,
};
use super::upload::{
    UploadError, UploadEvent, UploadState, outgoing_of, upload_failures, upload_start, uploaded,
};
use super::{TcpMetrics, no_metrics};
use crate::model::{ErrorKind, Outcome, RequestStage};
use crate::provider::{FailureDisposition, FailureView};
use crate::time::{Duration, Timestamp};
use vstd::prelude::*;

verus! {

/// A download after everything that arrived was taken in, one after the other.
pub open spec fn after_arrivals(
    state: DownloadView,
    connection: Connection,
    arrivals: Seq<(Timestamp, DownloadEvent)>,
) -> DownloadView
    decreases arrivals.len(),
{
    if arrivals.len() == 0 {
        state
    } else {
        let (now, event) = arrivals.last();
        downloaded(after_arrivals(state, connection, arrivals.drop_last()), connection, now, event).0
    }
}

/// The bytes of all binary messages together.
pub open spec fn binary_bytes(arrivals: Seq<(Timestamp, DownloadEvent)>) -> nat
    decreases arrivals.len(),
{
    if arrivals.len() == 0 {
        0
    } else {
        binary_bytes(arrivals.drop_last()) + match arrivals.last().1 {
            DownloadEvent::Binary { len } => len as nat,
            _ => 0,
        }
    }
}

/// How many of the arrivals were failures.
pub open spec fn failed_arrivals(arrivals: Seq<(Timestamp, DownloadEvent)>) -> nat
    decreases arrivals.len(),
{
    if arrivals.len() == 0 {
        0
    } else {
        failed_arrivals(arrivals.drop_last()) + if arrivals.last().1 is Failed {
            1nat
        } else {
            0
        }
    }
}

/// A server told of its side with this arrival.
pub open spec fn tells(arrival: (Timestamp, DownloadEvent)) -> Option<TcpMetrics> {
    match arrival.1 {
        DownloadEvent::Text { told } => told,
        _ => None,
    }
}

/// A failure in the middle of a transfer names its stage, its connection and its reason, and ends
/// the test.
pub open spec fn broke_off(
    failure: FailureView,
    connection: Connection,
    stage: RequestStage,
    kind: ErrorKind,
    message: Seq<char>,
    os_error_code: Option<i32>,
    now: Timestamp,
) -> bool {
    &&& failure.stage == stage
    &&& failure.error_kind == kind
    &&& failure.outcome == Outcome::Error
    &&& failure.message == message
    &&& failure.os_error_code == os_error_code
    &&& failure.server_name == Some(connection.logical_server@)
    &&& failure.local_ip == Some(connection.local_ip)
    &&& failure.remote_ip == Some(connection.remote_ip)
    &&& failure.started_at_utc == now
    &&& failure.finished_at_utc == now
    &&& failure.attempt == 1
    &&& failure.http_status is None
    &&& failure.retry_after is None
    &&& failure.disposition == FailureDisposition::Terminal
}

/// The bytes of a download are those of all its binary messages added up, as far as 64 bits count.
/// Nothing that arrives takes bytes away. What the server told last counts, a close frame
/// completes the download, and every failure is kept behind those that were there.
pub proof fn law_download_counts_every_byte(
    state: DownloadView,
    connection: Connection,
    arrivals: Seq<(Timestamp, DownloadEvent)>,
)
    ensures
        ({
            let end = after_arrivals(state, connection, arrivals);
            let total = state.bytes + binary_bytes(arrivals);
            &&& end.bytes == if total <= u64::MAX {
                total
            } else {
                u64::MAX as int
            }
            &&& end.bytes >= state.bytes
            &&& end.completed <==> (state.completed || exists|i: int|
                0 <= i < arrivals.len() && (#[trigger] arrivals[i]).1 is Closed)
            &&& end.failures.len() == state.failures.len() + failed_arrivals(arrivals)
            &&& forall|i: int|
                0 <= i < state.failures.len() ==> #[trigger] end.failures[i] == state.failures[i]
            &&& forall|i: int|
                0 <= i < arrivals.len() && tells(#[trigger] arrivals[i]) is Some && (forall|j: int|
                    i < j < arrivals.len() ==> tells(#[trigger] arrivals[j]) is None)
                    ==> end.metrics == tells(arrivals[i])->0
            &&& (forall|i: int| 0 <= i < arrivals.len() ==> tells(#[trigger] arrivals[i]) is None)
                ==> end.metrics == state.metrics
        }),
    decreases arrivals.len(),
{
    if arrivals.len() > 0 {
        let rest = arrivals.drop_last();
        let n = arrivals.len() - 1;
        law_download_counts_every_byte(state, connection, rest);
        let end = after_arrivals(state, connection, arrivals);
        let before = after_arrivals(state, connection, rest);
        assert(forall|i: int| 0 <= i < n ==> rest[i] == #[trigger] arrivals[i]);
        assert(forall|i: int| 0 <= i < n ==> #[trigger] rest[i] == arrivals[i]);
        assert(arrivals[n] == arrivals.last());
        if exists|i: int| 0 <= i < rest.len() && (#[trigger] rest[i]).1 is Closed {
            let i = choose|i: int| 0 <= i < rest.len() && (#[trigger] rest[i]).1 is Closed;
            assert(arrivals[i].1 is Closed);
        }
        assert forall|i: int|
            0 <= i < arrivals.len() && tells(#[trigger] arrivals[i]) is Some && (forall|j: int|
                i < j < arrivals.len() ==> tells(
                    #[trigger] arrivals[j],
                ) is None) implies end.metrics == tells(arrivals[i])->0 by {
            if i < n {
                assert(tells(arrivals[n]) is None);
                assert(end.metrics == before.metrics);
                assert(tells(rest[i]) is Some);
                assert forall|j: int| i < j < rest.len() implies tells(
                    #[trigger] rest[j],
                ) is None by {
                    assert(tells(arrivals[j]) is None);
                }
            }
        }
        if forall|i: int| 0 <= i < arrivals.len() ==> tells(#[trigger] arrivals[i]) is None {
            assert(tells(arrivals[n]) is None);
            assert forall|i: int| 0 <= i < rest.len() implies tells(#[trigger] rest[i]) is None by {
                assert(tells(arrivals[i]) is None);
            }
        }
    }
}

/// A download goes on until it is closed, fails or ends. A failure on the way is told with its
/// reason.
pub proof fn law_download_goes_on_until_its_end(
    state: DownloadView,
    connection: Connection,
    now: Timestamp,
    event: DownloadEvent,
)
    ensures
        ({
            let (next, more) = downloaded(state, connection, now, event);
            &&& more <==> event is Binary || event is Text || event is Other
            &&& event is Failed ==> {
                &&& next.failures.len() == state.failures.len() + 1
                &&& broke_off(
                    next.failures.last(),
                    connection,
                    RequestStage::Download,
                    ErrorKind::DownloadFailed,
                    event->message@,
                    event->os_error_code,
                    now,
                )
            }
        }),
{
}

/// A new download that has ended is measured exactly if binary messages brought bytes. The
/// measurement has the bytes of all of them, the time and the rate that were taken, both ends of
/// the connection and what the server told. It has a failure exactly if something went wrong: what
/// did, or that nothing arrived, or that no close frame came.
pub proof fn law_download_comes_to_its_bytes(
    failures: Seq<FailureView>,
    connection: Connection,
    arrivals: Seq<(Timestamp, DownloadEvent)>,
    now: Timestamp,
    pace: Pace,
)
    ensures
        ({
            let start = DownloadView {
                bytes: 0,
                metrics: TcpMetrics { min_rtt_ms: None, rtt_ms: None, retransmissions: None },
                completed: false,
                failures,
            };
            let end = after_arrivals(start, connection, arrivals);
            let result = measured(end.bytes, end.metrics, connection, pace);
            let told = download_failures(end, connection, now);
            let total = binary_bytes(arrivals);
            let closed = exists|i: int|
                0 <= i < arrivals.len() && (#[trigger] arrivals[i]).1 is Closed;
            &&& result is Some <==> total > 0
            &&& result is Some ==> {
                &&& result->0.bytes == if total <= u64::MAX {
                    total as int
                } else {
                    u64::MAX as int
                }
                &&& result->0.elapsed == pace.elapsed
                &&& result->0.elapsed_ms == pace.elapsed_ms
                &&& result->0.mbps == pace.mbps
                &&& result->0.remote_ip == connection.remote_ip
                &&& result->0.local_ip == connection.local_ip
                &&& result->0.metrics == end.metrics
            }
            &&& failures.len() + failed_arrivals(arrivals) > 0 ==> told == end.failures
            &&& failures.len() + failed_arrivals(arrivals) == 0 && total == 0 ==> told.len() == 1
                && broke_off(
                told[0],
                connection,
                RequestStage::Download,
                ErrorKind::DownloadFailed,
                "download ended without measurement bytes"@,
                None,
                now,
            )
            &&& failures.len() + failed_arrivals(arrivals) == 0 && total > 0 && !closed
                ==> told.len() == 1 && broke_off(
                told[0],
                connection,
                RequestStage::Download,
                ErrorKind::DownloadFailed,
                "download connection ended without a close frame"@,
                None,
                now,
            )
            &&& failures.len() + failed_arrivals(arrivals) == 0 && total > 0 && closed
                ==> told.len() == 0
        }),
{
    let start = DownloadView { bytes: 0, metrics: no_metrics(), completed: false, failures };
    law_download_counts_every_byte(start, connection, arrivals);
}

/// Every message that is accepted while sending goes on adds its size to the bytes of an upload,
/// and nothing else changes them. Messages start with eight kibibytes; when one was flushed, the
/// next is twice as large if it is less than a sixteenth of what was sent, and at most a mebibyte.
/// Sending stops at its deadline or when the server closes, and the time until then is what
/// counts. Then two seconds are left. An upload ends well only behind the server's close frame.
pub proof fn law_upload_counts_every_message(state: UploadState, at: Duration, event: UploadEvent)
    requires
        state.payload_size <= 1_048_576,
        at.nanos + 2_000_000_000 <= u128::MAX,
    ensures
        ({
            let (next, ended) = uploaded(state, at, event);
            let sending = state.elapsed is None;
            let total = state.bytes + state.payload_size;
            let twice = 2 * state.payload_size;
            &&& next.bytes == if event is Accepted && sending {
                if total <= u64::MAX {
                    total
                } else {
                    u64::MAX as int
                }
            } else {
                state.bytes as int
            }
            &&& next.payload_size == if event is Flushed && sending && state.payload_size
                < 1_048_576 && 16 * (state.payload_size + 1) <= state.bytes {
                if twice <= 1_048_576 {
                    twice
                } else {
                    1_048_576
                }
            } else {
                state.payload_size as int
            }
            &&& next.elapsed == if sending && (event is Deadline || event is PeerClosed) {
                Some(at)
            } else {
                state.elapsed
            }
            &&& next.deadline.nanos == if sending && (event is Deadline || event is PeerClosed) {
                at.nanos + 2_000_000_000
            } else {
                state.deadline.nanos as int
            }
            &&& next.peer_closed <==> state.peer_closed || event is PeerClosed
            &&& next.close_queued <==> state.close_queued || event is PeerClosed || (event
                is Accepted && !sending)
            &&& next.flushing <==> event is Accepted || event is PeerClosed || (state.flushing
                && !(event is Flushed))
            &&& next.metrics == if event is Text && event->told is Some {
                event->told->0
            } else {
                state.metrics
            }
            &&& ended is Some <==> event is Ended || event is Failed || (event is Deadline
                && !sending)
            &&& ended is Some && ended->0 is None <==> event is Ended && state.peer_closed
            &&& event is Ended && !state.peer_closed ==> ended->0->0 is MissingClose
            &&& event is Deadline && !sending ==> ended->0->0 is CloseTimeout
            &&& event is Failed ==> ended->0->0 == (UploadError::Transport {
                message: event->message,
                os_error_code: event->os_error_code,
            })
        }),
        upload_start().bytes == 0,
        upload_start().payload_size == 8_192,
        upload_start().elapsed is None,
        upload_start().deadline.nanos == 10_000_000_000,
        !upload_start().flushing && !upload_start().close_queued && !upload_start().peer_closed,
        upload_start().metrics.min_rtt_ms is None,
        upload_start().metrics.rtt_ms is None,
        upload_start().metrics.retransmissions is None,
{
}

/// While sending goes on messages are sent, then one close frame, then nothing.
pub proof fn law_upload_sends_and_then_closes(state: UploadState)
    ensures
        outgoing_of(state) is Payload <==> state.elapsed is None,
        outgoing_of(state) is Close <==> state.elapsed is Some && !state.close_queued,
        outgoing_of(state) is Nothing <==> state.elapsed is Some && state.close_queued,
{
}

/// An upload that has ended is measured exactly if bytes were sent, and its measurement is theirs.
/// How it went wrong is told behind what failed before, and so is that nothing was measured where
/// nothing else failed.
pub proof fn law_upload_comes_to_its_bytes(
    before: Seq<FailureView>,
    state: UploadState,
    error: Option<UploadError>,
    connection: Connection,
    now: Timestamp,
    pace: Pace,
)
    ensures
        ({
            let result = measured(state.bytes, state.metrics, connection, pace);
            let told = upload_failures(before, state.bytes, error, connection, now);
            let kind = ErrorKind::UploadFailed;
            let stage = RequestStage::Upload;
            &&& result is Some <==> state.bytes > 0
            &&& result is Some ==> {
                &&& result->0.bytes == state.bytes
                &&& result->0.elapsed == pace.elapsed
                &&& result->0.elapsed_ms == pace.elapsed_ms
                &&& result->0.mbps == pace.mbps
                &&& result->0.remote_ip == connection.remote_ip
                &&& result->0.local_ip == connection.local_ip
                &&& result->0.metrics == state.metrics
            }
            &&& forall|i: int| 0 <= i < before.len() ==> #[trigger] told[i] == before[i]
            &&& told.len() == if error is Some || (state.bytes == 0 && before.len() == 0) {
                before.len() + 1
            } else {
                before.len()
            }
            &&& error matches Some(UploadError::MissingClose) ==> broke_off(
                told.last(),
                connection,
                stage,
                kind,
                "upload connection ended without a close frame"@,
                None,
                now,
            )
            &&& error matches Some(UploadError::CloseTimeout) ==> broke_off(
                told.last(),
                connection,
                stage,
                kind,
                "upload close handshake timed out after 2s"@,
                None,
                now,
            )
            &&& error matches Some(UploadError::Transport { message, os_error_code })
                ==> broke_off(
                told.last(),
                connection,
                stage,
                kind,
                message@,
                os_error_code,
                now,
            )
            &&& error is None && state.bytes == 0 && before.len() == 0 ==> broke_off(
                told.last(),
                connection,
                stage,
                kind,
                "upload ended without measurement bytes"@,
                None,
                now,
            )
        }),
{
}

} // verus!
