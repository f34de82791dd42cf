use netband::bandwidth::TcpMetrics;
use netband::bandwidth::upload::{
    INITIAL_UPLOAD_MESSAGE_SIZE, MAX_UPLOAD_MESSAGE_SIZE, Outgoing, UploadError, UploadEvent,
    UploadIo, UploadState, next_upload_message_size, upload_payload, upload_payload_with_size,
};
use netband::model::Scalar;
use netband::time::Duration;

fn key(value: f64) -> i64 {
    let bits = value.to_bits() as i64;
    if bits >= 0 { bits } else { bits ^ i64::MAX }
}

fn rtt(value: f64) -> TcpMetrics {
    TcpMetrics {
        min_rtt_ms: None,
        rtt_ms: Some(Scalar { key: key(value) }),
        retransmissions: None,
    }
}

#[test]
fn upload_payload_starts_at_the_ndt7_initial_size() {
    assert_eq!(upload_payload(1).len(), INITIAL_UPLOAD_MESSAGE_SIZE);
}

#[test]
fn upload_message_size_follows_ndt7_growth_boundaries_and_cap() {
    let threshold = (INITIAL_UPLOAD_MESSAGE_SIZE * 16) as u64;
    assert_eq!(
        next_upload_message_size(INITIAL_UPLOAD_MESSAGE_SIZE, threshold),
        INITIAL_UPLOAD_MESSAGE_SIZE
    );
    assert_eq!(
        next_upload_message_size(INITIAL_UPLOAD_MESSAGE_SIZE, threshold + 15),
        INITIAL_UPLOAD_MESSAGE_SIZE
    );
    assert_eq!(
        next_upload_message_size(INITIAL_UPLOAD_MESSAGE_SIZE, threshold + 16),
        INITIAL_UPLOAD_MESSAGE_SIZE * 2
    );

    let half_max = MAX_UPLOAD_MESSAGE_SIZE / 2;
    assert_eq!(
        next_upload_message_size(half_max, (half_max * 16) as u64 + 16),
        MAX_UPLOAD_MESSAGE_SIZE
    );
    assert_eq!(
        next_upload_message_size(MAX_UPLOAD_MESSAGE_SIZE, u64::MAX),
        MAX_UPLOAD_MESSAGE_SIZE
    );
}

#[test]
fn payload_depends_on_its_seed() {
    assert_eq!(upload_payload_with_size(64, 1), upload_payload_with_size(64, 1));
    assert_ne!(upload_payload_with_size(64, 1), upload_payload_with_size(64, 2));
    assert_eq!(upload_payload_with_size(0, 1), Vec::<u8>::new());
}

#[test]
fn stalled_upload_stops_at_twelve_seconds_without_counting_cleanup_time() {
    let mut upload = UploadState::new();
    assert_eq!(upload.next_io(), UploadIo::Send(Outgoing::Payload));
    assert_eq!(upload.advance(Duration::from_secs(0), UploadEvent::Accepted), None);
    assert_eq!(upload.next_io(), UploadIo::Flush);
    assert_eq!(upload.deadline, Duration::from_secs(10));
    assert_eq!(upload.advance(Duration::from_secs(10), UploadEvent::Deadline), None);
    assert_eq!(upload.deadline, Duration::from_secs(12));
    assert_eq!(
        upload.advance(Duration::from_secs(12), UploadEvent::Deadline),
        Some(Some(UploadError::CloseTimeout))
    );
    assert_eq!(upload.sending_time(Duration::from_secs(12)), Duration::from_secs(10));
    assert_eq!(upload.bytes, INITIAL_UPLOAD_MESSAGE_SIZE as u64);
}

#[test]
fn incoming_messages_do_not_requeue_or_recount_a_blocked_payload() {
    let mut upload = UploadState::new();
    assert_eq!(upload.advance(Duration::from_secs(0), UploadEvent::Accepted), None);
    assert_eq!(upload.advance(Duration::from_secs(1), UploadEvent::Other), None);
    for _ in 0..20 {
        let event = UploadEvent::Text { told: Some(rtt(2.5)) };
        assert_eq!(upload.advance(Duration::from_secs(1), event), None);
        assert_eq!(upload.next_io(), UploadIo::Flush);
    }
    assert_eq!(upload.advance(Duration::from_secs(1), UploadEvent::PeerClosed), None);
    assert_eq!(
        upload.advance(Duration::from_secs(3), UploadEvent::Deadline),
        Some(Some(UploadError::CloseTimeout))
    );
    assert_eq!(upload.bytes, INITIAL_UPLOAD_MESSAGE_SIZE as u64);
    assert_eq!(upload.sending_time(Duration::from_secs(3)), Duration::from_secs(1));
    assert_eq!(upload.metrics.rtt_ms, Some(Scalar { key: key(2.5) }));
}

#[test]
fn upload_automatically_replies_to_ping_and_preserves_partial_frame_on_close() {
    let mut upload = UploadState::new();
    assert_eq!(upload.advance(Duration::from_millis(1), UploadEvent::Other), None);
    assert_eq!(upload.advance(Duration::from_millis(1), UploadEvent::Accepted), None);
    assert_eq!(upload.advance(Duration::from_millis(2), UploadEvent::PeerClosed), None);
    assert_eq!(upload.next_io(), UploadIo::Flush);
    assert_eq!(upload.advance(Duration::from_millis(3), UploadEvent::Flushed), None);
    assert_eq!(upload.next_io(), UploadIo::Send(Outgoing::Nothing));
    assert_eq!(upload.advance(Duration::from_millis(4), UploadEvent::Ended), Some(None));
    assert_eq!(upload.bytes, INITIAL_UPLOAD_MESSAGE_SIZE as u64);
}

#[test]
fn abrupt_disconnect_retains_transport_error_and_accepted_bytes() {
    let mut upload = UploadState::new();
    assert_eq!(upload.advance(Duration::from_secs(0), UploadEvent::Accepted), None);
    let failed = UploadEvent::Failed { message: "connection reset".into(), os_error_code: Some(104) };
    assert_eq!(
        upload.advance(Duration::from_secs(1), failed),
        Some(Some(UploadError::Transport {
            message: "connection reset".into(),
            os_error_code: Some(104),
        }))
    );
    assert_eq!(upload.bytes, INITIAL_UPLOAD_MESSAGE_SIZE as u64);
}

#[test]
fn deadline_drains_only_the_pending_payload_and_excludes_close_waiting() {
    let mut upload = UploadState::new();
    assert_eq!(upload.advance(Duration::from_secs(0), UploadEvent::Accepted), None);
    assert_eq!(upload.advance(Duration::from_secs(0), UploadEvent::Flushed), None);
    assert_eq!(upload.advance(Duration::from_secs(1), UploadEvent::Accepted), None);
    assert_eq!(upload.advance(Duration::from_secs(10), UploadEvent::Deadline), None);
    assert_eq!(upload.next_io(), UploadIo::Flush);
    assert_eq!(upload.advance(Duration::from_secs(10), UploadEvent::Flushed), None);
    assert_eq!(upload.next_io(), UploadIo::Send(Outgoing::Close));
    assert_eq!(upload.advance(Duration::from_secs(10), UploadEvent::Accepted), None);
    assert_eq!(upload.bytes, 2 * INITIAL_UPLOAD_MESSAGE_SIZE as u64);
    assert_eq!(upload.advance(Duration::from_secs(10), UploadEvent::Flushed), None);
    assert_eq!(upload.next_io(), UploadIo::Send(Outgoing::Nothing));
    assert_eq!(upload.advance(Duration::from_secs(11), UploadEvent::PeerClosed), None);
    assert_eq!(upload.advance(Duration::from_secs(11), UploadEvent::Ended), Some(None));
    assert_eq!(upload.sending_time(Duration::from_secs(11)), Duration::from_secs(10));
    assert_eq!(upload.bytes, 2 * INITIAL_UPLOAD_MESSAGE_SIZE as u64);
}

#[test]
fn immediate_peer_close_does_not_invent_measurement_bytes() {
    let mut upload = UploadState::new();
    assert_eq!(upload.advance(Duration::from_secs(0), UploadEvent::PeerClosed), None);
    assert_eq!(upload.advance(Duration::from_secs(0), UploadEvent::Flushed), None);
    assert_eq!(upload.advance(Duration::from_secs(0), UploadEvent::Ended), Some(None));
    assert_eq!(upload.bytes, 0);
}

#[test]
fn end_without_a_close_is_an_error() {
    let mut upload = UploadState::new();
    assert_eq!(
        upload.advance(Duration::from_secs(0), UploadEvent::Ended),
        Some(Some(UploadError::MissingClose))
    );
}
