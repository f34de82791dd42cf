use netband::bandwidth::connect::{
    ConnectEvent, ConnectNext, Connecting, HandshakeReply, SocketAddress, connect_target,
    source_on,
};
use netband::bandwidth::measure::{BandwidthTest, MeasureStep, Stage, phase_of};
use netband::bandwidth::run::Interruption;
use netband::bandwidth::{
    AdmissionReservation, DirectionMeasurement, DirectionResult, ReservationGate, TcpMetrics,
    UntrackedReservation,
};
use netband::cli::{Cli, Commands, ConfigCommand, Options};
use netband::config::direct::{parse_http_url, parse_ndt_url};
use netband::config::resolve::resolve;
use netband::config::{BandwidthConfig, FileConfig, ResolveContext};
use netband::endpoint::Url;
use netband::interfaces::InterfaceAddress;
use netband::model::{
    ErrorKind, EventKind, IpAddr, LoadPhase, Outcome, ProviderKind, RequestStage, RunId, Scalar,
};
use netband::provider::{
    EndpointCandidate, EndpointResolution, FailureDisposition, LocateError, LocateReply,
    LocateResult, RequestFailure, RetryHeader, resolve_mlab,
};
use netband::string_map::StringMap;
use netband::time::{Duration, Timestamp};

const ZERO: Scalar = Scalar { key: 0 };

fn at(seconds: i128) -> Timestamp {
    Timestamp { nanos: seconds * 1_000_000_000 }
}

fn config() -> BandwidthConfig {
    let cli = Cli {
        options: Options { accept_mlab_policy: true, ..Options::default() },
        command: Commands::Config { command: ConfigCommand::Check },
    };
    let context = ResolveContext {
        stdout_is_terminal: false,
        current_dir: "/work".into(),
        state_dir: "/state".into(),
        data_dir: "/data".into(),
    };
    resolve(&cli, &FileConfig::default(), &context).ok().unwrap().bandwidth
}

fn url() -> Url {
    parse_ndt_url("url", "wss://host/ndt/v7/download", false).ok().unwrap()
}

fn locate_url() -> Url {
    parse_http_url("url", "https://locate.example/v2/nearest").ok().unwrap()
}

fn candidate(server: &str) -> EndpointCandidate {
    EndpointCandidate {
        download_url: url(),
        upload_url: url(),
        logical_server: server.into(),
        provider_id: "mlab".into(),
        provider_kind: ProviderKind::Mlab,
        tls_server_name: None,
        ca_cert: None,
        allow_insecure: false,
    }
}

fn failure(disposition: FailureDisposition, outcome: Outcome) -> RequestFailure {
    let mut failure = RequestFailure::simple(
        RequestStage::WebsocketHandshake,
        ErrorKind::WebsocketHandshake,
        "refused".into(),
        None,
        1,
        at(1),
    );
    failure.disposition = disposition;
    failure.outcome = outcome;
    failure
}

fn found(servers: &[&str]) -> EndpointResolution {
    EndpointResolution {
        candidates: servers.iter().map(|server| candidate(server)).collect(),
        failures: vec![],
        terminal: None,
    }
}

fn measured(bytes: u64) -> DirectionResult {
    DirectionResult {
        measurement: Some(DirectionMeasurement {
            bytes,
            elapsed: Duration::from_secs(10),
            elapsed_ms: Scalar { key: 10 },
            mbps: Some(Scalar { key: 94 }),
            remote_ip: IpAddr::V4(1),
            local_ip: IpAddr::V4(2),
            metrics: TcpMetrics { min_rtt_ms: None, rtt_ms: None, retransmissions: None },
        }),
        failures: vec![],
    }
}

fn full() -> DirectionResult {
    DirectionResult {
        measurement: None,
        failures: vec![failure(FailureDisposition::TryNextTarget, Outcome::NoCapacity)],
    }
}

/// Counts how often it is asked.
struct Counted {
    asked: u32,
    refuses: bool,
    at: Vec<Timestamp>,
}

impl ReservationGate for Counted {
    fn reserve(&mut self, started_at: Timestamp) -> Result<AdmissionReservation, String> {
        self.asked += 1;
        self.at.push(started_at);
        if self.refuses {
            Err("disk full".into())
        } else {
            Ok(AdmissionReservation::Reserved { daily_runs_used: self.asked })
        }
    }
}

#[test]
fn a_test_is_admitted_once_and_before_any_transfer() {
    let mut gate = Counted { asked: 0, refuses: false, at: vec![] };
    let mut test = BandwidthTest::new(RunId { value: 1 }, Some("eth0".into()));
    assert_eq!(test.stage, Stage::Resolving);
    let step = test.resolved(&config(), found(&["a", "b"]), &mut gate, ZERO, at(100));
    assert!(matches!(step, MeasureStep::Download(0)));
    assert_eq!(gate.asked, 1);
    assert_eq!(gate.at, [at(100)]);
    assert_eq!(
        test.admission,
        Some(AdmissionReservation::Reserved { daily_runs_used: 1 })
    );
    assert!(matches!(test.downloaded(full(), ZERO, at(101)), MeasureStep::Download(1)));
    assert!(matches!(test.downloaded(measured(7), ZERO, at(111)), MeasureStep::Upload(1)));
    assert_eq!(test.stage, Stage::Uploading);
    let report = test.uploaded(measured(3), Scalar { key: 20 }, at(121));
    assert_eq!(test.stage, Stage::Over);
    assert_eq!(gate.asked, 1);
    assert_eq!(report.outcome, Outcome::Success);
    assert!(report.reserved);
    assert_eq!(report.events.len(), 2);
    assert_eq!(report.events[0].request_attempt, Some(1));
    let event = report.events.last().unwrap();
    assert_eq!(event.event_kind, EventKind::Bandwidth);
    assert_eq!(event.request_attempt, None);
    assert_eq!(event.server_name.as_deref(), Some("b"));
    assert_eq!(event.download_bytes, Some(7));
    assert_eq!(event.upload_bytes, Some(3));
    assert_eq!(event.elapsed_ms, Some(Scalar { key: 20 }));
}

#[test]
fn only_a_connected_direction_puts_load_on_the_line() {
    assert_eq!(phase_of(&MeasureStep::Download(0), true), LoadPhase::Download);
    assert_eq!(phase_of(&MeasureStep::Upload(3), true), LoadPhase::Upload);
    assert_eq!(phase_of(&MeasureStep::Download(0), false), LoadPhase::Setup);
    assert_eq!(phase_of(&MeasureStep::Upload(3), false), LoadPhase::Setup);
    let mut test = BandwidthTest::new(RunId { value: 1 }, None);
    let report = test.interrupted(&config(), Interruption::Cancelled, ZERO, at(100));
    assert_eq!(phase_of(&MeasureStep::Over(report), true), LoadPhase::Setup);
}

#[test]
fn no_server_leaves_the_account_alone() {
    let mut gate = Counted { asked: 0, refuses: false, at: vec![] };
    let mut test = BandwidthTest::new(RunId { value: 1 }, None);
    let resolution = EndpointResolution {
        candidates: vec![],
        failures: vec![],
        terminal: Some(failure(FailureDisposition::ProviderWide, Outcome::RateLimited)),
    };
    let MeasureStep::Over(report) =
        test.resolved(&config(), resolution, &mut gate, ZERO, at(100))
    else {
        panic!("there is no server");
    };
    assert_eq!(gate.asked, 0);
    assert_eq!(report.outcome, Outcome::RateLimited);
    assert!(!report.reserved);
    assert!(test.admission.is_none());
}

#[test]
fn a_refused_start_ends_the_test() {
    let mut gate = Counted { asked: 0, refuses: true, at: vec![] };
    let mut test = BandwidthTest::new(RunId { value: 1 }, None);
    let MeasureStep::Over(report) =
        test.resolved(&config(), found(&["a"]), &mut gate, ZERO, at(100))
    else {
        panic!("the start is refused");
    };
    assert_eq!(report.reservation_error.as_deref(), Some("disk full"));
    assert!(!report.reserved);
    assert_eq!(
        report.events[0].message.as_deref(),
        Some("cannot persist bandwidth reservation: disk full")
    );
}

#[test]
fn servers_that_are_all_full_end_the_test() {
    let mut gate = UntrackedReservation;
    let mut test = BandwidthTest::new(RunId { value: 1 }, None);
    test.resolved(&config(), found(&["a", "b"]), &mut gate, ZERO, at(100));
    assert!(matches!(test.downloaded(full(), ZERO, at(101)), MeasureStep::Download(1)));
    let MeasureStep::Over(report) = test.downloaded(full(), ZERO, at(102)) else {
        panic!("no server is left");
    };
    assert_eq!(report.outcome, Outcome::NoCapacity);
    assert_eq!(report.events.len(), 3);
    assert!(!report.reserved);
}

#[test]
fn a_test_that_is_given_up_stays_on_the_account() {
    for (interruption, outcome, message) in [
        (
            Interruption::TimedOut,
            Outcome::Timeout,
            "NDT7 test timed out after 1m",
        ),
        (Interruption::Cancelled, Outcome::Cancelled, "NDT7 test was cancelled"),
    ] {
        let mut early = BandwidthTest::new(RunId { value: 1 }, None);
        let mut config = config();
        config.whole_test_timeout = Duration::from_secs(60);
        let report = early.interrupted(&config, interruption, ZERO, at(100));
        assert_eq!(report.outcome, outcome);
        assert!(!report.reserved);
        assert_eq!(report.events[0].message.as_deref(), Some(message));

        let mut gate = Counted { asked: 0, refuses: false, at: vec![] };
        let mut late = BandwidthTest::new(RunId { value: 1 }, None);
        late.resolved(&config, found(&["a"]), &mut gate, ZERO, at(100));
        let report = late.interrupted(&config, interruption, ZERO, at(101));
        assert_eq!(report.outcome, outcome);
        assert!(report.reserved);
        assert_eq!(report.events[0].provider_daily_starts, Some(1));
    }
}

fn socket(number: u32) -> SocketAddress {
    SocketAddress { ip: IpAddr::V4(number), port: 443 }
}

fn unreachable(number: u32) -> ConnectEvent {
    ConnectEvent::Unreachable {
        remote_ip: IpAddr::V4(number),
        message: "refused".into(),
        os_error_code: Some(111),
    }
}

fn handshake(number: u32, reply: HandshakeReply) -> ConnectEvent {
    ConnectEvent::Handshake {
        remote_ip: IpAddr::V4(number),
        local_ip: IpAddr::V4(9),
        reply,
    }
}

#[test]
fn addresses_are_tried_in_order_until_one_answers() {
    let kind = ProviderKind::Mlab;
    let (mut connecting, next) = Connecting::begin(vec![socket(1), socket(2), socket(3)]);
    assert_eq!(next, ConnectNext::Try(socket(1)));
    let next = connecting.tried(kind, &url(), at(1), unreachable(1));
    assert_eq!(next, ConnectNext::Try(socket(2)));
    let accepted = HandshakeReply::Accepted {
        protocol: Some("net.measurementlab.ndt.v7".into()),
    };
    let next = connecting.tried(kind, &url(), at(2), handshake(2, accepted));
    assert_eq!(next, ConnectNext::Connected);
    assert_eq!(connecting.failures.len(), 1);
    assert_eq!(connecting.failures[0].attempt, 1);
}

#[test]
fn a_way_to_a_server_ends_with_its_addresses_or_with_an_answer() {
    let kind = ProviderKind::Mlab;
    let (mut connecting, _) = Connecting::begin(vec![socket(1), socket(2)]);
    connecting.tried(kind, &url(), at(1), unreachable(1));
    let next = connecting.tried(kind, &url(), at(2), unreachable(2));
    assert_eq!(next, ConnectNext::Failed);
    let attempts: Vec<u32> =
        connecting.failures.iter().map(|failure| failure.attempt).collect();
    assert_eq!(attempts, [1, 2]);

    let (mut connecting, _) = Connecting::begin(vec![socket(1), socket(2)]);
    let refused = HandshakeReply::Refused { status: 503, header: None };
    let next = connecting.tried(kind, &url(), at(1), handshake(1, refused));
    assert_eq!(next, ConnectNext::Failed);
    assert_eq!(
        connecting.failures[0].disposition,
        FailureDisposition::TryNextTarget
    );

    let (connecting, next) = Connecting::begin(vec![]);
    assert_eq!(next, ConnectNext::Failed);
    assert!(connecting.failures.is_empty());
}

#[test]
fn urls_lead_to_a_host_and_a_port() {
    assert_eq!(connect_target(&url()), Some(("host", 443)));
    let other = parse_ndt_url("url", "wss://host:4443/ndt/v7/download", false).ok().unwrap();
    assert_eq!(connect_target(&other), Some(("host", 4443)));
}

fn named(machine: &str) -> LocateResult {
    let mut urls = StringMap::new();
    urls.put(
        "wss:///ndt/v7/download".into(),
        format!("wss://{machine}/ndt/v7/download"),
    );
    urls.put("wss:///ndt/v7/upload".into(), format!("wss://{machine}/ndt/v7/upload"));
    LocateResult { machine: machine.into(), urls }
}

fn reply(status: u16, header: Option<&str>) -> Result<LocateReply, LocateError> {
    Ok(LocateReply {
        status,
        header: header.map(|text| RetryHeader { text: Some(text.into()) }),
        received_at: at(10),
        answer: Ok(vec![named("ndt.example.net")]),
    })
}

#[test]
fn servers_are_found_or_it_is_said_why_not() {
    let found = resolve_mlab(reply(200, None), "mlab", &locate_url(), at(5), at(11));
    assert_eq!(found.candidates.len(), 1);
    assert_eq!(found.candidates[0].logical_server, "ndt.example.net");
    assert!(found.terminal.is_none());

    for (status, header, outcome, message) in [
        (
            204,
            None,
            Outcome::NoCapacity,
            "Locate returned no capacity; Retry-After missing",
        ),
        (
            429,
            Some("60"),
            Outcome::RateLimited,
            "Locate rate limit; Retry-After parsed",
        ),
        (
            503,
            Some("soon"),
            Outcome::Error,
            "Locate service unavailable; Retry-After malformed",
        ),
    ] {
        let missed = resolve_mlab(reply(status, header), "mlab", &locate_url(), at(5), at(11));
        assert!(missed.candidates.is_empty());
        let terminal = missed.terminal.unwrap();
        assert_eq!(terminal.outcome, outcome);
        assert_eq!(terminal.message, message);
        assert_eq!(terminal.http_status, Some(status));
        assert_eq!(terminal.started_at_utc, at(5));
        assert_eq!(terminal.finished_at_utc, at(10));
        assert_eq!(
            terminal.retry_after.map(|retry| retry.deadline),
            (header == Some("60")).then_some(at(70))
        );
    }

    let unread = resolve_mlab(
        Err(LocateError::Send { timeout: true, message: "late".into() }),
        "mlab",
        &locate_url(),
        at(5),
        at(11),
    );
    let terminal = unread.terminal.unwrap();
    assert_eq!(terminal.error_kind, ErrorKind::Connect);
    assert_eq!(terminal.message, "Locate request failed: late");
    assert_eq!(terminal.started_at_utc, at(5));
}

#[test]
fn a_connection_comes_from_the_first_address_of_the_family() {
    let entry = |name: &str, address: IpAddr| InterfaceAddress {
        name: name.into(),
        up: true,
        address,
    };
    let entries = vec![
        entry("eth1", IpAddr::V4(1)),
        entry("eth0", IpAddr::V6(2)),
        entry("eth0", IpAddr::V4(3)),
        entry("eth0", IpAddr::V4(4)),
    ];
    assert_eq!(source_on(&entries, "eth0", IpAddr::V4(9)), Ok(IpAddr::V4(3)));
    assert_eq!(source_on(&entries, "eth0", IpAddr::V6(9)), Ok(IpAddr::V6(2)));
    assert_eq!(
        source_on(&entries, "eth1", IpAddr::V6(9)),
        Err("interface eth1 has no matching source address".into())
    );
}
