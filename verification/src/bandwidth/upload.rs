//! Sending to a server.
use super::download::{
    Connection, Pace, measured, measurement, more_bytes, stream_failure, stream_failure_view,
};
use super::{DirectionResult, TcpMetrics, no_metrics, told_metrics};
use crate::model::RequestStage;
use crate::provider::{FailureView, RequestFailure, failure_views};
use crate::scheduler::plan::{next_random, xorshift};
use crate::time::{Duration, Timestamp};
use vstd::prelude::*;

verus! {

/// The size of the first message.
pub const INITIAL_UPLOAD_MESSAGE_SIZE: usize = 8_192;
/// The size that messages do not grow beyond.
pub const MAX_UPLOAD_MESSAGE_SIZE: usize = 1_048_576;
/// A message grows while it is smaller than this fraction of what was sent.
pub const UPLOAD_SCALING_FRACTION: u64 = 16;
/// How long is sent, in nanoseconds.
pub const UPLOAD_NANOS: u128 = 10_000_000_000;
/// How long the end of a transfer may take, in nanoseconds.
pub const UPLOAD_CLOSE_NANOS: u128 = 2_000_000_000;

/// The size of the next message: twice the last one while that is small against what was sent,
/// up to the largest.
pub open spec fn next_size(current: usize, total: u64) -> usize {
    if current >= MAX_UPLOAD_MESSAGE_SIZE || current as u64 >= total / UPLOAD_SCALING_FRACTION {
        current
    } else if current * 2 <= MAX_UPLOAD_MESSAGE_SIZE {
        (current * 2) as usize
    } else {
        MAX_UPLOAD_MESSAGE_SIZE
    }
}

pub fn next_upload_message_size(current_size: usize, total_bytes: u64) -> (size: usize)
    ensures
        size == next_size(current_size, total_bytes),
{
    if current_size >= MAX_UPLOAD_MESSAGE_SIZE || current_size as u64 >= total_bytes
        / UPLOAD_SCALING_FRACTION {
        current_size
    } else if current_size * 2 <= MAX_UPLOAD_MESSAGE_SIZE {
        current_size * 2
    } else {
        MAX_UPLOAD_MESSAGE_SIZE
    }
}

/// Messages never shrink, at most double, and do not grow beyond the largest size.
pub proof fn law_message_size_grows_within_bounds(current: usize, total: u64)
    requires
        current <= MAX_UPLOAD_MESSAGE_SIZE,
    ensures
        current <= next_size(current, total) <= MAX_UPLOAD_MESSAGE_SIZE,
        next_size(current, total) <= 2 * current || current == 0,
        next_size(current, total) > current ==> 16 * current < total,
{
}

/// The state of the pseudo-random sequence after `n` bytes.
pub open spec fn payload_state(seed: u64, n: nat) -> u64
    decreases n,
{
    if n == 0 {
        seed | 1
    } else {
        xorshift(payload_state(seed, (n - 1) as nat))
    }
}

/// A message that does not compress: the low bytes of a pseudo-random sequence.
pub open spec fn payload(seed: u64, size: nat) -> Seq<u8> {
    Seq::new(size, |i: int| (payload_state(seed, (i + 1) as nat) & 0xff) as u8)
}

/// The first message.
pub fn upload_payload(seed: u64) -> (bytes: Vec<u8>)
    ensures
        bytes@ == payload(seed, INITIAL_UPLOAD_MESSAGE_SIZE as nat),
{
    upload_payload_with_size(INITIAL_UPLOAD_MESSAGE_SIZE, seed)
}

/// A message of a size.
pub fn upload_payload_with_size(size: usize, seed: u64) -> (bytes: Vec<u8>)
    ensures
        bytes@ == payload(seed, size as nat),
{
    let mut bytes: Vec<u8> = Vec::new();
    let mut state: u64 = seed | 1;
    while bytes.len() < size
        invariant
            bytes@.len() <= size,
            state == payload_state(seed, bytes@.len()),
            forall|k: int| 0 <= k < bytes@.len() ==> #[trigger] bytes@[k] == payload(seed, size as nat)[k],
        decreases size - bytes@.len(),
    {
        let next: u64 = next_random(&mut state);
        proof {
            assert(next & 0xff <= 0xff) by (bit_vector);
        }
        bytes.push((next & 0xff) as u8);
    }
    proof {
        assert(bytes@ =~= payload(seed, size as nat));
    }
    bytes
}

/// What is to be sent next.
#[derive(Clone, Copy, Debug, PartialEq, Eq, Structural)]
pub enum Outgoing {
    Payload,
    Close,
    Nothing,
}

/// What is to be done next, besides listening to the server.
#[derive(Clone, Copy, Debug, PartialEq, Eq, Structural)]
pub enum UploadIo {
    Flush,
    Send(Outgoing),
}

/// How an upload went wrong.
#[derive(Debug, PartialEq, Eq)]
pub enum UploadError {
    Transport { message: String, os_error_code: Option<i32> },
    MissingClose,
    CloseTimeout,
}

/// What happened during an upload.
pub enum UploadEvent {
    Deadline,
    Text { told: Option<TcpMetrics> },
    PeerClosed,
    Other,
    Ended,
    Accepted,
    Flushed,
    Failed { message: String, os_error_code: Option<i32> },
}

/// How far an upload has come. Times are counted from its start. `elapsed` is fixed when sending
/// stops; until `deadline` the upload may go on as it is.
#[derive(Clone, Copy, Debug, PartialEq, Eq, Structural)]
pub struct UploadState {
    pub elapsed: Option<Duration>,
    pub deadline: Duration,
    pub bytes: u64,
    pub metrics: TcpMetrics,
    pub payload_size: usize,
    pub flushing: bool,
    pub close_queued: bool,
    pub peer_closed: bool,
}

/// An upload that is about to begin.
pub open spec fn upload_start() -> UploadState {
    UploadState {
        elapsed: None,
        deadline: Duration { nanos: UPLOAD_NANOS },
        bytes: 0,
        metrics: no_metrics(),
        payload_size: INITIAL_UPLOAD_MESSAGE_SIZE,
        flushing: false,
        close_queued: false,
        peer_closed: false,
    }
}

/// Sending stops, unless it has.
pub open spec fn stopped(state: UploadState, at: Duration) -> UploadState {
    match state.elapsed {
        Some(_) => state,
        None => UploadState {
            elapsed: Some(at),
            deadline: Duration { nanos: (at.nanos + UPLOAD_CLOSE_NANOS) as u128 },
            ..state
        },
    }
}

/// How far an upload has come after something happened, and how it ended if it did. Bytes count
/// when they are accepted while sending goes on: what is left in buffers, and waiting for the end,
/// do not.
pub open spec fn uploaded(state: UploadState, at: Duration, event: UploadEvent) -> (
    UploadState,
    Option<Option<UploadError>>,
) {
    match event {
        UploadEvent::Deadline => match state.elapsed {
            Some(_) => (state, Some(Some(UploadError::CloseTimeout))),
            None => (stopped(state, at), None),
        },
        UploadEvent::Text { told } => (
            UploadState { metrics: told_metrics(state.metrics, told), ..state },
            None,
        ),
        UploadEvent::PeerClosed => (
            UploadState {
                peer_closed: true,
                close_queued: true,
                flushing: true,
                ..stopped(state, at)
            },
            None,
        ),
        UploadEvent::Other => (state, None),
        UploadEvent::Ended => (
            state,
            Some(
                if state.peer_closed {
                    None
                } else {
                    Some(UploadError::MissingClose)
                },
            ),
        ),
        UploadEvent::Accepted => (
            if state.elapsed is None {
                UploadState {
                    flushing: true,
                    bytes: more_bytes(state.bytes, state.payload_size as u64),
                    ..state
                }
            } else {
                UploadState { flushing: true, close_queued: true, ..state }
            },
            None,
        ),
        UploadEvent::Flushed => (
            UploadState {
                flushing: false,
                payload_size: if state.elapsed is None {
                    next_size(state.payload_size, state.bytes)
                } else {
                    state.payload_size
                },
                ..state
            },
            None,
        ),
        UploadEvent::Failed { message, os_error_code } => (
            state,
            Some(Some(UploadError::Transport { message, os_error_code })),
        ),
    }
}

/// What is to be sent next.
pub open spec fn outgoing_of(state: UploadState) -> Outgoing {
    if state.elapsed is None {
        Outgoing::Payload
    } else if !state.close_queued {
        Outgoing::Close
    } else {
        Outgoing::Nothing
    }
}

impl UploadState {
    pub fn new() -> (state: Self)
        ensures
            state == upload_start(),
    {
        UploadState {
            elapsed: None,
            deadline: Duration { nanos: UPLOAD_NANOS },
            bytes: 0,
            metrics: TcpMetrics { min_rtt_ms: None, rtt_ms: None, retransmissions: None },
            payload_size: INITIAL_UPLOAD_MESSAGE_SIZE,
            flushing: false,
            close_queued: false,
            peer_closed: false,
        }
    }

    /// What is to be done next. A message that was accepted is flushed before another is sent, so
    /// that no message is sent or counted twice.
    pub fn next_io(&self) -> (io: UploadIo)
        ensures
            io == (if self.flushing {
                UploadIo::Flush
            } else {
                UploadIo::Send(outgoing_of(*self))
            }),
    {
        if self.flushing {
            UploadIo::Flush
        } else if self.elapsed.is_none() {
            UploadIo::Send(Outgoing::Payload)
        } else if !self.close_queued {
            UploadIo::Send(Outgoing::Close)
        } else {
            UploadIo::Send(Outgoing::Nothing)
        }
    }

    fn stop(&mut self, at: Duration)
        requires
            at.nanos <= u128::MAX - UPLOAD_CLOSE_NANOS,
        ensures
            *final(self) == stopped(*old(self), at),
    {
        if self.elapsed.is_none() {
            self.elapsed = Some(at);
            self.deadline = Duration { nanos: at.nanos + UPLOAD_CLOSE_NANOS };
        }
    }

    /// Takes in what happened, at a time from the start. Says how the upload ended, if it did.
    pub fn advance(&mut self, at: Duration, event: UploadEvent) -> (ended: Option<
        Option<UploadError>,
    >)
        requires
            at.nanos <= u128::MAX - UPLOAD_CLOSE_NANOS,
        ensures
            (*final(self), ended) == uploaded(*old(self), at, event),
    {
        match event {
            UploadEvent::Deadline => {
                if self.elapsed.is_some() {
                    return Some(Some(UploadError::CloseTimeout));
                }
                self.stop(at);
                None
            },
            UploadEvent::Text { told } => {
                if let Some(metrics) = told {
                    self.metrics = metrics;
                }
                None
            },
            UploadEvent::PeerClosed => {
                self.stop(at);
                self.peer_closed = true;
                self.close_queued = true;
                self.flushing = true;
                None
            },
            UploadEvent::Other => None,
            UploadEvent::Ended => {
                if self.peer_closed {
                    Some(None)
                } else {
                    Some(Some(UploadError::MissingClose))
                }
            },
            UploadEvent::Accepted => {
                self.flushing = true;
                if self.elapsed.is_none() {
                    self.bytes = self.bytes.saturating_add(self.payload_size as u64);
                } else {
                    self.close_queued = true;
                }
                None
            },
            UploadEvent::Flushed => {
                self.flushing = false;
                if self.elapsed.is_none() {
                    self.payload_size = next_upload_message_size(self.payload_size, self.bytes);
                }
                None
            },
            UploadEvent::Failed { message, os_error_code } => Some(
                Some(UploadError::Transport { message, os_error_code }),
            ),
        }
    }

    /// How long was sent, for an upload that ended at a time from the start.
    pub fn sending_time(&self, at: Duration) -> (elapsed: Duration)
        ensures
            elapsed == (match self.elapsed {
                Some(fixed) => fixed,
                None => at,
            }),
    {
        match self.elapsed {
            Some(fixed) => fixed,
            None => at,
        }
    }
}

/// How an upload went wrong, in words.
pub open spec fn upload_error_text(error: UploadError) -> Seq<char> {
    match error {
        UploadError::Transport { message, .. } => message@,
        UploadError::MissingClose => "upload connection ended without a close frame"@,
        UploadError::CloseTimeout => "upload close handshake timed out after 2s"@,
    }
}

pub open spec fn upload_os_error(error: UploadError) -> Option<i32> {
    match error {
        UploadError::Transport { os_error_code, .. } => os_error_code,
        _ => None,
    }
}

/// The failures of an upload that has ended: how it went wrong if it did, and that nothing was
/// measured if nothing else failed.
pub open spec fn upload_failures(
    before: Seq<FailureView>,
    bytes: u64,
    error: Option<UploadError>,
    connection: Connection,
    now: Timestamp,
) -> Seq<FailureView> {
    let failures = match error {
        Some(error) => before.push(
            stream_failure_view(
                connection,
                RequestStage::Upload,
                upload_error_text(error),
                upload_os_error(error),
                now,
            ),
        ),
        None => before,
    };
    if bytes == 0 && failures.len() == 0 {
        seq![
            stream_failure_view(
                connection,
                RequestStage::Upload,
                "upload ended without measurement bytes"@,
                None,
                now,
            ),
        ]
    } else {
        failures
    }
}

/// What an upload that has ended comes to. `failures` happened on the way to the server.
pub fn finish_upload(
    state: &UploadState,
    error: Option<UploadError>,
    failures: Vec<RequestFailure>,
    connection: &Connection,
    now: Timestamp,
    pace: Pace,
) -> (result: DirectionResult)
    ensures
        result.measurement == measured(state.bytes, state.metrics, *connection, pace),
        failure_views(result.failures@) == upload_failures(
            failure_views(failures@),
            state.bytes,
            error,
            *connection,
            now,
        ),
{
    let ghost before = failure_views(failures@);
    let mut failures = failures;
    if let Some(error) = error {
        let (message, os_error_code) = match error {
            UploadError::Transport { message, os_error_code } => (message, os_error_code),
            UploadError::MissingClose => (
                "upload connection ended without a close frame".to_owned(),
                None,
            ),
            UploadError::CloseTimeout => (
                "upload close handshake timed out after 2s".to_owned(),
                None,
            ),
        };
        let ghost held = failures@;
        failures.push(
            stream_failure(connection, RequestStage::Upload, message, os_error_code, now),
        );
        proof {
            assert(failure_views(failures@) =~= failure_views(held).push(failures@.last()@));
        }
    }
    if state.bytes == 0 && failures.len() == 0 {
        failures.push(
            stream_failure(
                connection,
                RequestStage::Upload,
                "upload ended without measurement bytes".to_owned(),
                None,
                now,
            ),
        );
    }
    proof {
        assert(failure_views(failures@) =~= upload_failures(
            before,
            state.bytes,
            error,
            *connection,
            now,
        ));
    }
    DirectionResult {
        measurement: measurement(state.bytes, state.metrics, connection, pace),
        failures,
    }
}

/// Once sending has stopped, neither the bytes nor the time that count change any more, and the
/// time that is left to end does not grow.
pub proof fn law_stopped_upload_is_settled(state: UploadState, at: Duration, event: UploadEvent)
    requires
        state.elapsed is Some,
    ensures
        ({
            let next = uploaded(state, at, event).0;
            &&& next.elapsed == state.elapsed
            &&& next.bytes == state.bytes
            &&& next.deadline == state.deadline
        }),
{
}

/// An upload whose deadlines are met on time sends for ten seconds at most and ends within
/// twelve.
pub open spec fn on_time(state: UploadState) -> bool {
    match state.elapsed {
        None => state.deadline.nanos == UPLOAD_NANOS,
        Some(elapsed) => elapsed.nanos <= UPLOAD_NANOS && state.deadline.nanos == elapsed.nanos
            + UPLOAD_CLOSE_NANOS,
    }
}

/// An upload sends for ten seconds at most and may take two more to end, as long as nothing
/// happens after a deadline but the deadline itself.
pub proof fn law_upload_is_over_in_twelve_seconds(
    state: UploadState,
    at: Duration,
    event: UploadEvent,
)
    requires
        on_time(state),
        at.nanos <= state.deadline.nanos,
    ensures
        on_time(upload_start()),
        on_time(uploaded(state, at, event).0),
        uploaded(state, at, event).0.deadline.nanos <= UPLOAD_NANOS + UPLOAD_CLOSE_NANOS,
{
}

/// Bytes are counted only when a message is accepted while sending goes on, and then once.
pub proof fn law_bytes_count_once(state: UploadState, at: Duration, event: UploadEvent)
    requires
        uploaded(state, at, event).0.bytes != state.bytes,
    ensures
        event is Accepted,
        state.elapsed is None,
        uploaded(state, at, event).0.bytes == more_bytes(state.bytes, state.payload_size as u64),
        uploaded(state, at, event).0.flushing,
{
}

} // verus!
