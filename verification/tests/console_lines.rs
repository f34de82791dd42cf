use netband::cli::ConsoleMode;
use netband::console::{
    ConsoleDiagnostic, ConsoleFailure, ConsoleForm, ConsoleState, ConsoleStats, Handover,
    console_form, human_line, queue_capacity, quote_human, write_failure,
};
use netband::model::{
    EventKind, MeasurementEvent, Outcome, ProviderKind, RunId, Scalar,
};
use netband::time::Timestamp;

fn scalar(value: f64) -> Scalar {
    let bits = value.to_bits() as i64;
    Scalar { key: if bits >= 0 { bits } else { bits ^ i64::MAX } }
}

fn show(value: Scalar) -> String {
    let bits = if value.key >= 0 { value.key } else { value.key ^ i64::MAX };
    f64::from_bits(bits as u64).to_string()
}

fn at(day: i128, seconds: i128) -> Timestamp {
    Timestamp { nanos: (day * 86_400 + seconds) * 1_000_000_000 }
}

fn event(kind: EventKind, outcome: Outcome, finished: Timestamp) -> MeasurementEvent {
    MeasurementEvent::new(RunId::new(), kind, outcome, finished)
}

#[test]
fn probes_and_tests_have_a_line_for_people() {
    let noon = at(20_713, 12 * 3600);
    let mut ping = event(EventKind::PingProbe, Outcome::Success, noon);
    ping.ping_target_ip = Some("1.1.1.1".into());
    ping.ping_rtt_ms = Some(scalar(12.5));
    ping.ping_packets_received = Some(1);
    assert_eq!(
        human_line(&ping, show).unwrap(),
        "2026-09-17T12:00:00.000Z ping interface=default-route target=1.1.1.1 outcome=success rtt_ms=12.5 loss_pct=0\n"
    );
    let mut test = event(EventKind::Bandwidth, Outcome::Success, at(20_713, 12 * 3600 + 60));
    test.provider_kind = Some(ProviderKind::Mlab);
    test.server_name = Some("ndt.example.net".into());
    test.download_mbps = Some(scalar(94.2));
    test.upload_mbps = Some(scalar(20.1));
    assert_eq!(
        human_line(&test, show).unwrap(),
        "2026-09-17T12:01:00.000Z bandwidth interface=default-route provider=mlab server_name=ndt.example.net outcome=success download=94.2 Mbps upload=20.1 Mbps\n"
    );
}

#[test]
fn failures_show_dashes_and_a_reason_on_one_line() {
    let mut ping = event(EventKind::PingProbe, Outcome::Timeout, at(0, 0));
    ping.interface = Some("eth0".into());
    ping.ping_packets_received = Some(0);
    ping.message = Some("said \"no\"\r\ntoken=abc".into());
    assert_eq!(
        human_line(&ping, show).unwrap(),
        "1970-01-01T00:00:00.000Z ping interface=eth0 target=- outcome=timeout rtt_ms=- loss_pct=100 reason=\"said \\\"no\\\"  token=[redacted]\"\n"
    );
    let test = event(EventKind::Bandwidth, Outcome::RateLimited, at(0, 0));
    assert_eq!(
        human_line(&test, show).unwrap(),
        "1970-01-01T00:00:00.000Z bandwidth interface=default-route provider=- server_name=- outcome=rate_limited download=- upload=-\n"
    );
}

#[test]
fn other_events_have_no_line() {
    for kind in [
        EventKind::RunStarted,
        EventKind::RunFinished,
        EventKind::RequestFailure,
        EventKind::Scheduler,
    ] {
        assert_eq!(human_line(&event(kind, Outcome::Success, at(0, 0)), show), None);
    }
    let mut open = event(EventKind::PingProbe, Outcome::Success, at(0, 0));
    open.finished_at_utc = None;
    assert_eq!(human_line(&open, show), None);
}

#[test]
fn quoting_keeps_messages_on_one_line() {
    assert_eq!(quote_human("a\nb\rc\"d"), "a b c\\\"d");
    assert_eq!(quote_human("key=abc"), "key=[redacted]");
}

#[test]
fn dropped_events_are_told_of_at_powers_of_two() {
    let mut state = ConsoleState::new();
    let mut told = Vec::new();
    for _ in 0..20 {
        if let Some(ConsoleDiagnostic::QueueFull { dropped_events }) =
            state.handed_over(Handover::Full)
        {
            told.push(dropped_events);
        }
    }
    assert_eq!(told, [1, 2, 4, 8, 16]);
    assert_eq!(state.stats(), ConsoleStats { dropped_events: 20, disabled: false });
    assert_eq!(state.handed_over(Handover::Queued), None);
    assert_eq!(state.dropped_events, 20);
}

#[test]
fn the_first_reason_for_switching_off_is_told_once() {
    let mut state = ConsoleState::new();
    assert_eq!(
        state.handed_over(Handover::Closed),
        Some(ConsoleDiagnostic::WriterDisabled { reason: ConsoleFailure::Write })
    );
    assert_eq!(state.disable(ConsoleFailure::Flush), None);
    state.drop_silently();
    assert_eq!(state.stats(), ConsoleStats { dropped_events: 2, disabled: true });
    let mut fresh = ConsoleState::new();
    assert_eq!(
        fresh.disable(ConsoleFailure::ShutdownTimeout),
        Some(ConsoleDiagnostic::WriterDisabled { reason: ConsoleFailure::ShutdownTimeout })
    );
    assert_eq!(write_failure(true), ConsoleFailure::BrokenPipe);
    assert_eq!(write_failure(false), ConsoleFailure::Write);
}

#[test]
fn modes_settle_on_a_form() {
    assert_eq!(console_form(ConsoleMode::Off), None);
    assert_eq!(console_form(ConsoleMode::Jsonl), Some(ConsoleForm::Jsonl));
    assert_eq!(console_form(ConsoleMode::Human), Some(ConsoleForm::Human));
    assert_eq!(console_form(ConsoleMode::Auto), Some(ConsoleForm::Human));
    assert_eq!(queue_capacity(0), 1);
    assert_eq!(queue_capacity(256), 256);
}
