use netband::bandwidth::connect::{
    ConnectEvent, ConnectVerdict, HandshakeReply, SocketAddress, Transport, choose_transport,
    classify_handshake_status, connect_step, host_header, local_address, pick_addresses,
};
use netband::bandwidth::download::{Connection, DownloadEvent, DownloadState, Pace};
use netband::bandwidth::report::ReportInput;
use netband::bandwidth::report::report_from_result;
use netband::bandwidth::run::{CandidateRun, RunStep, candidate_report};
use netband::bandwidth::upload::{UploadError, UploadEvent, UploadState, finish_upload};
use netband::bandwidth::{
    AdmissionReservation, DirectionMeasurement, DirectionResult, ReservationGate, TcpMetrics,
    UntrackedReservation, blocked_report,
};
use netband::config::direct::parse_ndt_url;
use netband::config::direct::parse_http_url;
use netband::model::{
    ErrorKind, EventKind, IpAddr, MeasurementEvent, Outcome, ProviderKind, RequestStage, RunId,
    Scalar, TriggerReason,
};
use netband::provider::{
    EndpointCandidate, FailureDisposition, LocateError, LocateResult, RequestFailure, RetryAfter,
    RetryHeader, locate_failure, locate_status_failure, parse_locate_candidates,
    parse_retry_after, retry_detail, stamp_resolution,
};
use netband::string_map::StringMap;
use netband::time::{Duration, Timestamp};

fn at(seconds: i128) -> Timestamp {
    Timestamp { nanos: seconds * 1_000_000_000 }
}

fn locate_url() -> netband::endpoint::Url {
    parse_http_url("mlab.locate_url", "https://locate.example.net/v2/nearest/ndt/ndt7").unwrap()
}

fn result(machine: &str, urls: &[(&str, &str)]) -> LocateResult {
    let mut map: StringMap<String> = StringMap::new();
    for (key, value) in urls {
        map.put((*key).to_owned(), (*value).to_owned());
    }
    LocateResult { machine: machine.to_owned(), urls: map }
}

const DOWNLOAD: &str = "wss:///ndt/v7/download";
const UPLOAD: &str = "wss:///ndt/v7/upload";

#[test]
fn located_servers_must_be_complete_and_secure() {
    let answer = Ok(vec![
        result(
            "mlab1",
            &[
                (DOWNLOAD, "wss://mlab1/ndt/v7/download?access_token=a"),
                (UPLOAD, "wss://mlab1/ndt/v7/upload?access_token=a"),
            ],
        ),
        result("mlab2", &[(DOWNLOAD, "wss://mlab2/ndt/v7/download")]),
        result(
            "mlab3",
            &[(DOWNLOAD, "ws://mlab3/ndt/v7/download"), (UPLOAD, "wss://mlab3/ndt/v7/upload")],
        ),
    ]);
    let resolution = parse_locate_candidates(&answer, "mlab", &locate_url(), at(5));
    assert_eq!(resolution.candidates.len(), 1);
    let candidate = &resolution.candidates[0];
    assert_eq!(candidate.logical_server, "mlab1");
    assert_eq!(candidate.provider_id, "mlab");
    assert_eq!(candidate.provider_kind, ProviderKind::Mlab);
    assert_eq!(candidate.download_url.scheme, "wss");
    assert_eq!(resolution.failures.len(), 2);
    assert!(resolution.terminal.is_none());
    let empty = parse_locate_candidates(&Ok(vec![]), "mlab", &locate_url(), at(5));
    assert!(empty.candidates.is_empty());
    assert!(empty.terminal.is_some());
    let unread =
        parse_locate_candidates(&Err("expected value".into()), "mlab", &locate_url(), at(5));
    assert_eq!(unread.terminal.unwrap().error_kind, ErrorKind::Protocol);
}

#[test]
fn statuses_of_locate_are_told_apart() {
    let url = locate_url();
    assert_eq!(locate_status_failure(200, false, None, at(1), &url), None);
    let retry = RetryAfter { delay: Duration::from_secs(60), deadline: at(61) };
    for (status, present, retry, outcome, message) in [
        (204, false, None, Outcome::NoCapacity, "Locate returned no capacity; Retry-After missing"),
        (429, true, Some(retry), Outcome::RateLimited, "Locate rate limit; Retry-After parsed"),
        (
            503,
            true,
            Some(retry),
            Outcome::RateLimited,
            "Locate service requested a retry delay; Retry-After parsed",
        ),
        (
            503,
            true,
            None,
            Outcome::Error,
            "Locate service unavailable; Retry-After malformed",
        ),
        (
            500,
            false,
            None,
            Outcome::Error,
            "Locate returned an unexpected status; Retry-After missing",
        ),
    ] {
        let failure = locate_status_failure(status, present, retry, at(1), &url).unwrap();
        assert_eq!(failure.outcome, outcome);
        assert_eq!(failure.message, message);
        assert_eq!(failure.http_status, Some(status));
        assert_eq!(failure.retry_after, retry);
        assert_eq!(failure.stage, RequestStage::Locate);
        assert_eq!(failure.error_kind, ErrorKind::HttpStatus);
        assert_eq!(failure.disposition, FailureDisposition::ProviderWide);
    }
    assert_eq!(retry_detail(false, true), "Retry-After missing");
}

#[test]
fn locate_errors_end_the_resolution() {
    let url = locate_url();
    for (error, kind, message) in [
        (LocateError::Bind("no".into()), ErrorKind::Connect, "no"),
        (
            LocateError::Client("no".into()),
            ErrorKind::Connect,
            "cannot configure Locate client: no",
        ),
        (
            LocateError::Send { timeout: true, message: "no".into() },
            ErrorKind::Connect,
            "Locate request failed: no",
        ),
        (
            LocateError::Send { timeout: false, message: "no".into() },
            ErrorKind::Io,
            "Locate request failed: no",
        ),
        (
            LocateError::Body("no".into()),
            ErrorKind::Protocol,
            "cannot read Locate response: no",
        ),
    ] {
        let resolution = stamp_resolution(locate_failure(error, &url, at(9)), at(7));
        let terminal = resolution.terminal.unwrap();
        assert_eq!(terminal.error_kind, kind);
        assert_eq!(terminal.message, message);
        assert_eq!(terminal.started_at_utc, at(7));
        assert_eq!(terminal.finished_at_utc, at(9));
        assert_eq!(terminal.attempt, 1);
    }
}

#[test]
fn retry_headers_are_read_where_they_are_texts() {
    let header = |text: Option<&str>| Some(RetryHeader { text: text.map(str::to_owned) });
    assert_eq!(parse_retry_after(&None, at(10)), None);
    assert_eq!(parse_retry_after(&header(None), at(10)), None);
    assert_eq!(
        parse_retry_after(&header(Some("30")), at(10)),
        Some(RetryAfter { delay: Duration::from_secs(30), deadline: at(40) })
    );
}

#[test]
fn handshake_answers_have_a_class() {
    let mlab = ProviderKind::Mlab;
    let direct = ProviderKind::Direct;
    assert_eq!(
        classify_handshake_status(mlab, Some(429)),
        (Outcome::RateLimited, FailureDisposition::ProviderWide)
    );
    assert_eq!(
        classify_handshake_status(mlab, Some(503)),
        (Outcome::NoCapacity, FailureDisposition::TryNextTarget)
    );
    assert_eq!(
        classify_handshake_status(direct, Some(503)),
        (Outcome::NoCapacity, FailureDisposition::Terminal)
    );
    assert_eq!(
        classify_handshake_status(direct, None),
        (Outcome::Error, FailureDisposition::Terminal)
    );
}

#[test]
fn addresses_are_tried_once_each() {
    let address = |ip: u32| SocketAddress { ip: IpAddr::V4(ip), port: 443 };
    let resolved = vec![address(1), address(2), address(1), address(3)];
    assert_eq!(pick_addresses(&resolved).unwrap(), [address(1), address(2), address(3)]);
    assert_eq!(
        pick_addresses(&vec![]),
        Err("DNS resolution returned no addresses".into())
    );
    let many: Vec<SocketAddress> = (0..20).map(address).collect();
    assert_eq!(pick_addresses(&many).unwrap().len(), 8);
    assert_eq!(local_address(None, IpAddr::V6(5)), IpAddr::V6(0));
    assert_eq!(local_address(None, IpAddr::V4(5)), IpAddr::V4(0));
    assert_eq!(local_address(Some(IpAddr::V4(9)), IpAddr::V4(5)), IpAddr::V4(9));
    assert_eq!(host_header("name", Some(443)), "name");
    assert_eq!(host_header("name", Some(8443)), "name:8443");
    assert_eq!(host_header("name", None), "name");
}

#[test]
fn plain_connections_need_permission() {
    let secure = parse_ndt_url("url", "wss://host/ndt/v7/download", false).unwrap();
    let plain = parse_ndt_url("url", "ws://host/ndt/v7/download", true).unwrap();
    assert!(matches!(
        choose_transport(&secure, false, &None),
        Ok(Transport::Tls { server_name }) if server_name == "host"
    ));
    assert!(matches!(
        choose_transport(&secure, false, &Some("other".into())),
        Ok(Transport::Tls { server_name }) if server_name == "other"
    ));
    assert!(matches!(choose_transport(&plain, true, &None), Ok(Transport::Plain)));
    assert!(matches!(
        choose_transport(&plain, false, &None),
        Err(message) if message == "unsupported WebSocket scheme: ws"
    ));
}

#[test]
fn ways_to_a_server_end_or_go_on() {
    let url = parse_ndt_url("url", "wss://host/ndt/v7/download", false).unwrap();
    let kind = ProviderKind::Mlab;
    let remote_ip = IpAddr::V4(1);
    let local_ip = IpAddr::V4(2);
    let step = connect_step(kind, &url, 1, at(1), ConnectEvent::NoHost);
    assert_eq!(step.verdict, ConnectVerdict::GiveUp);
    assert_eq!(step.failure.unwrap().message, "NDT7 URL has no host");
    let step = connect_step(
        kind,
        &url,
        2,
        at(1),
        ConnectEvent::Unreachable {
            remote_ip,
            message: "refused".into(),
            os_error_code: Some(111),
        },
    );
    assert_eq!(step.verdict, ConnectVerdict::TryNextAddress);
    let failure = step.failure.unwrap();
    assert_eq!(failure.message, "TCP connect failed: refused");
    assert_eq!(failure.os_error_code, Some(111));
    assert_eq!(failure.remote_ip, Some(remote_ip));
    assert_eq!(failure.attempt, 2);
    let accepted = |protocol: Option<&str>| ConnectEvent::Handshake {
        remote_ip,
        local_ip,
        reply: HandshakeReply::Accepted { protocol: protocol.map(str::to_owned) },
    };
    let step = connect_step(kind, &url, 1, at(1), accepted(Some("net.measurementlab.ndt.v7")));
    assert_eq!(step.verdict, ConnectVerdict::Connected);
    assert!(step.failure.is_none());
    let step = connect_step(kind, &url, 1, at(1), accepted(None));
    assert_eq!(step.verdict, ConnectVerdict::GiveUp);
    assert_eq!(
        step.failure.unwrap().message,
        "server did not select the NDT7 WebSocket subprotocol"
    );
    let step = connect_step(
        kind,
        &url,
        1,
        at(1),
        ConnectEvent::Handshake {
            remote_ip,
            local_ip,
            reply: HandshakeReply::Refused {
                status: 429,
                header: Some(RetryHeader { text: Some("60".into()) }),
            },
        },
    );
    assert_eq!(step.verdict, ConnectVerdict::GiveUp);
    let failure = step.failure.unwrap();
    assert_eq!(
        failure.message,
        "WebSocket handshake returned HTTP 429; Retry-After parsed"
    );
    assert_eq!(failure.outcome, Outcome::RateLimited);
    assert_eq!(failure.retry_after.unwrap().deadline, at(61));
    let step = connect_step(
        kind,
        &url,
        1,
        at(1),
        ConnectEvent::Handshake {
            remote_ip,
            local_ip,
            reply: HandshakeReply::Failed { message: "reset".into() },
        },
    );
    assert_eq!(step.verdict, ConnectVerdict::TryNextAddress);
    let step = connect_step(
        kind,
        &url,
        1,
        at(1),
        ConnectEvent::TlsFailed { remote_ip, local_ip, message: "bad certificate".into() },
    );
    assert_eq!(step.verdict, ConnectVerdict::TryNextAddress);
    assert_eq!(step.failure.unwrap().error_kind, ErrorKind::Tls);
}

fn connection() -> Connection {
    Connection {
        logical_server: "server".into(),
        remote_ip: IpAddr::V4(1),
        local_ip: IpAddr::V4(2),
    }
}

fn pace() -> Pace {
    Pace {
        elapsed: Duration::from_secs(10),
        elapsed_ms: Scalar { key: 10 },
        mbps: Some(Scalar { key: 94 }),
    }
}

#[test]
fn downloads_are_measured_or_explained() {
    let mut state = DownloadState::new(vec![]);
    assert!(state.receive(&connection(), at(1), DownloadEvent::Binary { len: 100 }));
    assert!(state.receive(
        &connection(),
        at(1),
        DownloadEvent::Text {
            told: Some(TcpMetrics {
                min_rtt_ms: None,
                rtt_ms: None,
                retransmissions: Some(3),
            })
        }
    ));
    assert!(state.receive(&connection(), at(1), DownloadEvent::Other));
    assert!(!state.receive(&connection(), at(1), DownloadEvent::Closed));
    let result = state.finish(&connection(), at(2), pace());
    assert!(result.failures.is_empty());
    let measured = result.measurement.unwrap();
    assert_eq!(measured.bytes, 100);
    assert_eq!(measured.metrics.retransmissions, Some(3));
    assert_eq!(measured.local_ip, IpAddr::V4(2));
    let empty = DownloadState::new(vec![]).finish(&connection(), at(2), pace());
    assert!(empty.measurement.is_none());
    assert_eq!(empty.failures[0].message, "download ended without measurement bytes");
    let mut broken = DownloadState::new(vec![]);
    broken.receive(&connection(), at(1), DownloadEvent::Binary { len: 1 });
    broken.receive(&connection(), at(1), DownloadEvent::Ended);
    let result = broken.finish(&connection(), at(2), pace());
    assert_eq!(
        result.failures[0].message,
        "download connection ended without a close frame"
    );
}

#[test]
fn uploads_that_break_off_are_explained() {
    let mut state = UploadState::new();
    state.advance(Duration::from_secs(0), UploadEvent::Accepted);
    let result = finish_upload(
        &state,
        Some(UploadError::Transport { message: "reset".into(), os_error_code: Some(104) }),
        vec![],
        &connection(),
        at(2),
        pace(),
    );
    assert!(result.measurement.is_some());
    assert_eq!(result.failures.len(), 1);
    assert_eq!(result.failures[0].os_error_code, Some(104));
    assert_eq!(result.failures[0].stage, RequestStage::Upload);
}

fn candidate(name: &str) -> EndpointCandidate {
    EndpointCandidate {
        download_url: parse_ndt_url("url", "wss://host/ndt/v7/download", false).unwrap(),
        upload_url: parse_ndt_url("url", "wss://host/ndt/v7/upload", false).unwrap(),
        logical_server: name.to_owned(),
        provider_id: "mlab".into(),
        provider_kind: ProviderKind::Mlab,
        tls_server_name: None,
        ca_cert: None,
        allow_insecure: false,
    }
}

fn failure(disposition: FailureDisposition, outcome: Outcome) -> RequestFailure {
    let mut failure = RequestFailure::simple(
        RequestStage::WebsocketHandshake,
        ErrorKind::WebsocketHandshake,
        "refused".into(),
        None,
        1,
        at(1),
    );
    failure.disposition = disposition;
    failure.outcome = outcome;
    failure
}

fn measurement() -> DirectionMeasurement {
    DirectionMeasurement {
        bytes: 5,
        elapsed: Duration::from_secs(10),
        elapsed_ms: Scalar { key: 10 },
        mbps: Some(Scalar { key: 94 }),
        remote_ip: IpAddr::V4(1),
        local_ip: IpAddr::V4(2),
        metrics: TcpMetrics { min_rtt_ms: None, rtt_ms: None, retransmissions: None },
    }
}

#[test]
fn full_servers_are_passed_over_until_none_is_left() {
    let servers = vec![candidate("a"), candidate("b")];
    let full = || DirectionResult {
        measurement: None,
        failures: vec![failure(FailureDisposition::TryNextTarget, Outcome::NoCapacity)],
    };
    let mut run = CandidateRun::new();
    assert!(matches!(run.downloaded(&servers, full()), RunStep::Download));
    assert_eq!(run.at, 1);
    let RunStep::Finished(result) = run.downloaded(&servers, full()) else {
        panic!("no server is left");
    };
    assert_eq!(result.terminal_outcome, Some(Outcome::NoCapacity));
    assert_eq!(result.failures.len(), 2);
    assert_eq!(result.server, "a");
}

#[test]
fn a_refusal_of_the_provider_ends_the_test() {
    let servers = vec![candidate("a"), candidate("b")];
    let mut run = CandidateRun::new();
    let refused = DirectionResult {
        measurement: None,
        failures: vec![failure(FailureDisposition::ProviderWide, Outcome::RateLimited)],
    };
    let RunStep::Finished(result) = run.downloaded(&servers, refused) else {
        panic!("the provider refused");
    };
    assert_eq!(result.terminal_outcome, Some(Outcome::RateLimited));
}

#[test]
fn both_directions_make_a_success() {
    let servers = vec![candidate("a")];
    for (upload, outcome) in [(Some(measurement()), Outcome::Success), (None, Outcome::Partial)] {
        let mut run = CandidateRun::new();
        let download = DirectionResult { measurement: Some(measurement()), failures: vec![] };
        assert!(matches!(run.downloaded(&servers, download), RunStep::Upload));
        let result = run.uploaded(
            &servers,
            DirectionResult { measurement: upload, failures: vec![] },
        );
        let report = candidate_report(
            RunId { value: 1 },
            &Some("eth0".into()),
            result,
            vec![],
            AdmissionReservation::Reserved { daily_runs_used: 2 },
            Scalar { key: 20 },
            at(100),
        );
        assert_eq!(report.outcome, outcome);
        assert!(report.reserved);
        let event = report.events.last().unwrap();
        assert_eq!(event.event_kind, EventKind::Bandwidth);
        assert_eq!(event.provider_daily_starts, Some(2));
        assert_eq!(event.server_name.as_deref(), Some("a"));
        assert_eq!(event.interface.as_deref(), Some("eth0"));
        assert_eq!(event.download_bytes, Some(5));
        assert_eq!(event.upload_bytes, upload.map(|_| 5));
        assert_eq!(event.started_at_utc, Some(at(90)));
        assert_eq!(event.trigger_reason, Some(TriggerReason::Manual));
        assert_eq!(report.exit_code(), if outcome == Outcome::Success { 0 } else { 1 });
    }
}

#[test]
fn reports_tell_failures_before_the_result() {
    let report = report_from_result(&ReportInput {
        run_id: RunId { value: 1 },
        interface: None,
        provider_id: "mlab".into(),
        provider_kind: ProviderKind::Mlab,
        server: None,
        failures: vec![failure(FailureDisposition::Terminal, Outcome::Error)],
        download: None,
        upload: None,
        total_ms: Scalar { key: 0 },
        outcome: Outcome::Error,
        now: at(100),
    });
    assert_eq!(report.events.len(), 2);
    assert_eq!(report.events[0].event_kind, EventKind::RequestFailure);
    assert_eq!(report.events[0].message.as_deref(), Some("refused"));
    assert_eq!(report.events[1].event_kind, EventKind::Bandwidth);
    assert_eq!(report.events[1].message.as_deref(), Some("refused"));
    assert_eq!(report.events[1].error_kind, Some(ErrorKind::WebsocketHandshake));
    assert!(!report.reserved);
    let blocked = blocked_report(MeasurementEvent::new(
        RunId { value: 1 },
        EventKind::Scheduler,
        Outcome::Suppressed,
        at(1),
    ));
    assert_eq!(blocked.outcome, Outcome::Suppressed);
    assert_eq!(blocked.events.len(), 1);
    assert_eq!(
        UntrackedReservation.reserve(at(1)),
        Ok(AdmissionReservation::Untracked)
    );
}
