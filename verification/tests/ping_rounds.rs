use netband::config::Address;
use netband::model::{ErrorKind, EventKind, IpAddr, LoadPhase, Outcome, RunId, RunKind, Scalar};
use netband::ping::source::{
    SourceChoice, SourceEntry, SourceSelection, TransportFailure, is_link_local,
    map_transport_failure, probe_scope, resolve_source, source_rank, unconfigured_probe,
};
use netband::ping::{
    PingExitStatus, PingRoundError, PingRoundRequest, ProbeAttemptResult, ProbeBinding, ProbeEnd,
    ProbeFailure, ProbeReply, ProbeRequest, ProbeTiming, finish_round, probe_identifier,
    probe_sequence, round_probes, validate_reply, validate_round_request,
};
use netband::time::{Duration, Timestamp};

fn v4(a: u8, b: u8, c: u8, d: u8) -> Address {
    Address {
        ip: IpAddr::V4(u32::from_be_bytes([a, b, c, d])),
        text: format!("{a}.{b}.{c}.{d}"),
    }
}

fn v6(value: u128, text: &str) -> Address {
    Address { ip: IpAddr::V6(value), text: text.to_owned() }
}

fn round(targets: Vec<Address>) -> PingRoundRequest {
    PingRoundRequest {
        run_id: RunId::new(),
        round_number: 3,
        targets,
        timeout: Duration::from_millis(1500),
        scheduled_at_utc: Timestamp { nanos: 1_000 },
        identifier: 77,
        load_phase: None,
        load_run_id: None,
    }
}

fn timing() -> ProbeTiming {
    ProbeTiming {
        started_at: Timestamp { nanos: 2_000 },
        finished_at: Timestamp { nanos: 3_000 },
        elapsed_ms: Scalar { key: 5 },
    }
}

fn reply_to(probe: &ProbeRequest) -> ProbeReply {
    ProbeReply {
        target: probe.target.clone(),
        identifier: Some(probe.identifier),
        sequence: probe.sequence,
        rtt_ms: Scalar { key: 9 },
        icmp_type: match probe.target.ip {
            IpAddr::V4(_) => 0,
            IpAddr::V6(_) => 129,
        },
        icmp_code: 0,
    }
}

fn attempt(result: Result<ProbeReply, ProbeFailure>) -> ProbeEnd {
    ProbeEnd::Attempted {
        timing: timing(),
        attempt: ProbeAttemptResult {
            binding: ProbeBinding {
                interface: Some("eth0".into()),
                source_ip: Some(IpAddr::V4(7)),
            },
            sent: true,
            result,
        },
    }
}

#[test]
fn rounds_need_targets_that_are_all_different() {
    assert_eq!(validate_round_request(&round(vec![])), Err(PingRoundError::NoTargets));
    assert_eq!(
        validate_round_request(&round(vec![v4(1, 1, 1, 1), v4(8, 8, 8, 8), v4(1, 1, 1, 1)])),
        Err(PingRoundError::DuplicateTarget(v4(1, 1, 1, 1)))
    );
    assert_eq!(validate_round_request(&round(vec![v4(1, 1, 1, 1), v6(1, "::1")])), Ok(()));
    assert_eq!(
        PingRoundError::DuplicateTarget(v4(1, 1, 1, 1)).message(),
        "duplicate ping target: 1.1.1.1"
    );
    assert_eq!(
        PingRoundError::NoTargets.message(),
        "a ping round requires at least one target"
    );
}

#[test]
fn rounds_take_as_many_targets_as_sequence_numbers_tell_apart() {
    let mut targets: Vec<Address> = Vec::new();
    for ip in 0..100u32 {
        targets.push(Address { ip: IpAddr::V4(ip), text: ip.to_string() });
    }
    assert_eq!(validate_round_request(&round(targets)), Ok(()));
    let mut many: Vec<Address> = Vec::new();
    for ip in 0..65_537u32 {
        many.push(Address { ip: IpAddr::V4(ip), text: String::new() });
    }
    assert_eq!(validate_round_request(&round(many)), Err(PingRoundError::TooManyTargets));
    assert_eq!(
        PingRoundError::TooManyTargets.message(),
        "a ping round supports at most 65536 targets"
    );
}

#[test]
fn sequence_numbers_count_through_the_rounds_and_wrap() {
    assert_eq!(probe_sequence(0, 3, 2), 2);
    assert_eq!(probe_sequence(1, 3, 0), 3);
    assert_eq!(probe_sequence(21_845, 3, 0), 65_535);
    assert_eq!(probe_sequence(21_845, 3, 1), 0);
    assert_eq!(probe_sequence(u64::MAX, 3, 2), u64::MAX.wrapping_mul(3).wrapping_add(2) as u16);
    assert_eq!(probe_identifier(0x1_2345, 0xff), (0x1_2345u64 ^ 0xff) as u16);
    let probes = round_probes(&round(vec![v4(1, 1, 1, 1), v4(8, 8, 8, 8)]));
    assert_eq!(probes.len(), 2);
    assert_eq!(probes[0].sequence, 6);
    assert_eq!(probes[1].sequence, 7);
    assert_eq!(probes[1].identifier, 77);
    assert_eq!(probes[1].target, v4(8, 8, 8, 8));
}

#[test]
fn replies_must_answer_the_probe() {
    let probe = ProbeRequest {
        target: v4(1, 1, 1, 1),
        identifier: 7,
        sequence: 9,
        timeout: Duration::from_secs(1),
    };
    assert_eq!(validate_reply(&probe, reply_to(&probe)), Ok(reply_to(&probe)));
    let mut hidden = reply_to(&probe);
    hidden.identifier = None;
    assert!(validate_reply(&probe, hidden).is_ok());
    let mut other = reply_to(&probe);
    other.target = v4(8, 8, 8, 8);
    assert_eq!(
        validate_reply(&probe, other),
        Err(ProbeFailure::Protocol {
            message: "reply target mismatch: expected 1.1.1.1, received 8.8.8.8".into()
        })
    );
    let mut other = reply_to(&probe);
    other.identifier = Some(8);
    assert_eq!(
        validate_reply(&probe, other),
        Err(ProbeFailure::Protocol {
            message: "reply identifier mismatch: expected 7, received 8".into()
        })
    );
    let mut other = reply_to(&probe);
    other.sequence = 10;
    assert_eq!(
        validate_reply(&probe, other),
        Err(ProbeFailure::Protocol {
            message: "reply sequence mismatch: expected 9, received 10".into()
        })
    );
    let mut other = reply_to(&probe);
    other.icmp_type = 3;
    other.icmp_code = 1;
    assert_eq!(
        validate_reply(&probe, other),
        Err(ProbeFailure::Unreachable {
            icmp_type: 3,
            icmp_code: 1,
            message: "ICMP error reply type 3 code 1".into()
        })
    );
    let six = ProbeRequest {
        target: v6(1, "::1"),
        identifier: 7,
        sequence: 9,
        timeout: Duration::from_secs(1),
    };
    assert!(validate_reply(&six, reply_to(&six)).is_ok());
}

#[test]
fn a_round_reports_every_target_in_order() {
    let request = round(vec![v4(1, 1, 1, 1), v4(8, 8, 8, 8), v4(9, 9, 9, 9)]);
    let probes = round_probes(&request);
    let ends = vec![
        attempt(Ok(reply_to(&probes[0]))),
        attempt(Err(ProbeFailure::Timeout)),
        ProbeEnd::Broken { now: Timestamp { nanos: 4_000 }, reason: "panicked".into() },
    ];
    let report = finish_round(&request, &probes, ends);
    assert_eq!(report.successful_targets, 1);
    assert_eq!(report.failed_targets, 2);
    assert_eq!(report.exit_status(), PingExitStatus::PartialFailure);
    let good = &report.events[0];
    assert_eq!(good.event_kind, EventKind::PingProbe);
    assert_eq!(good.run_kind, RunKind::PingRound);
    assert_eq!(good.outcome, Outcome::Success);
    assert_eq!(good.ping_target_ip.as_deref(), Some("1.1.1.1"));
    assert_eq!(good.ping_sequence, Some(9));
    assert_eq!(good.ping_rtt_ms, Some(Scalar { key: 9 }));
    assert_eq!(good.ping_icmp_type, Some(0));
    assert_eq!(good.ping_packets_sent, Some(1));
    assert_eq!(good.ping_packets_received, Some(1));
    assert_eq!(good.interface.as_deref(), Some("eth0"));
    assert_eq!(good.ping_local_ip, Some(IpAddr::V4(7)));
    assert_eq!(good.scheduled_at_utc, Some(Timestamp { nanos: 1_000 }));
    assert_eq!(good.started_at_utc, Some(Timestamp { nanos: 2_000 }));
    assert_eq!(good.finished_at_utc, Some(Timestamp { nanos: 3_000 }));
    assert_eq!(good.elapsed_ms, Some(Scalar { key: 5 }));
    assert_eq!(good.error_kind, None);
    assert_eq!(good.message, None);
    let late = &report.events[1];
    assert_eq!(late.outcome, Outcome::Timeout);
    assert_eq!(late.error_kind, Some(ErrorKind::IcmpTimeout));
    assert_eq!(late.message.as_deref(), Some("ping timed out after 1s 500ms"));
    assert_eq!(late.ping_packets_sent, Some(1));
    assert_eq!(late.ping_packets_received, Some(0));
    assert_eq!(late.ping_rtt_ms, None);
    let broken = &report.events[2];
    assert_eq!(broken.outcome, Outcome::Error);
    assert_eq!(broken.error_kind, Some(ErrorKind::Protocol));
    assert_eq!(broken.message.as_deref(), Some("ping task failed: panicked"));
    assert_eq!(broken.ping_packets_sent, Some(0));
    assert_eq!(broken.interface, None);
    assert_eq!(broken.started_at_utc, Some(Timestamp { nanos: 4_000 }));
}

#[test]
fn a_round_under_load_names_the_load() {
    let mut request = round(vec![v4(1, 1, 1, 1)]);
    let load = RunId::new();
    request.load_phase = Some(LoadPhase::Upload);
    request.load_run_id = Some(load);
    let probes = round_probes(&request);
    let report = finish_round(&request, &probes, vec![attempt(Ok(reply_to(&probes[0])))]);
    assert_eq!(report.events[0].load_phase, Some(LoadPhase::Upload));
    assert_eq!(report.events[0].load_run_id, Some(load));
    assert_eq!(report.exit_status(), PingExitStatus::Success);
}

#[test]
fn every_failure_has_its_class() {
    for (failure, outcome, kind, message) in [
        (
            ProbeFailure::Unreachable { icmp_type: 3, icmp_code: 1, message: "no route".into() },
            Outcome::Unreachable,
            ErrorKind::IcmpUnreachable,
            "no route".to_owned(),
        ),
        (
            ProbeFailure::PermissionDenied { os_error_code: Some(1), message: "denied".into() },
            Outcome::PermissionDenied,
            ErrorKind::PermissionDenied,
            "denied; on Linux, allow this service user's group in net.ipv4.ping_group_range, or grant only cap_net_raw when datagram ICMP is unavailable".to_owned(),
        ),
        (
            ProbeFailure::Cancelled,
            Outcome::Cancelled,
            ErrorKind::Cancelled,
            "ping was cancelled".to_owned(),
        ),
        (
            ProbeFailure::Io { os_error_code: Some(5), message: "broken".into() },
            Outcome::Error,
            ErrorKind::Io,
            "broken".to_owned(),
        ),
        (
            ProbeFailure::Protocol { message: "odd".into() },
            Outcome::Error,
            ErrorKind::Protocol,
            "odd".to_owned(),
        ),
    ] {
        let request = round(vec![v4(1, 1, 1, 1)]);
        let probes = round_probes(&request);
        let report = finish_round(&request, &probes, vec![attempt(Err(failure.clone()))]);
        let event = &report.events[0];
        assert_eq!(event.outcome, outcome);
        assert_eq!(event.error_kind, Some(kind));
        assert_eq!(event.message.as_deref(), Some(message.as_str()));
        match failure {
            ProbeFailure::Unreachable { .. } => {
                assert_eq!(event.ping_icmp_type, Some(3));
                assert_eq!(event.ping_icmp_code, Some(1));
            }
            ProbeFailure::PermissionDenied { .. } => assert_eq!(event.os_error_code, Some(1)),
            ProbeFailure::Io { .. } => assert_eq!(event.os_error_code, Some(5)),
            _ => assert_eq!(event.os_error_code, None),
        }
    }
}

const LINK_LOCAL: u128 = 0xfe80_0000_0000_0000_0000_0000_0000_0001;

fn entry(name: &str, up: bool, address: IpAddr, index: u32) -> SourceEntry {
    SourceEntry { name: name.to_owned(), up, address, index: Some(index) }
}

fn io(message: &str) -> ProbeFailure {
    ProbeFailure::Io { os_error_code: None, message: message.to_owned() }
}

fn chosen(choice: SourceChoice) -> Result<SourceSelection, ProbeFailure> {
    match choice {
        SourceChoice::Use(selection) => Ok(selection),
        SourceChoice::Fail(failure) => Err(failure),
        SourceChoice::AskRoute => panic!("an interface was named"),
    }
}

#[test]
fn sources_come_from_the_interface_and_have_the_reach_of_the_target() {
    let global = IpAddr::V6(0x2001_0db8_0000_0000_0000_0000_0000_0001);
    let entries = Ok(vec![
        entry("eth0", true, IpAddr::V6(LINK_LOCAL), 2),
        entry("eth0", true, global, 2),
        entry("eth0", false, v4(192, 0, 2, 1).ip, 2),
        entry("eth1", false, v4(192, 0, 2, 2).ip, 3),
    ]);
    let link = v6(LINK_LOCAL + 5, "fe80::6");
    assert_eq!(
        chosen(resolve_source(&link, Some("eth0"), &entries)),
        Ok(SourceSelection { address: IpAddr::V6(LINK_LOCAL), index: Some(2) })
    );
    let far = v6(0x2001_4860_4860_0000_0000_0000_0000_8888, "2001:4860:4860::8888");
    assert_eq!(
        chosen(resolve_source(&far, Some("eth0"), &entries)),
        Ok(SourceSelection { address: global, index: Some(2) })
    );
    assert_eq!(
        chosen(resolve_source(&v4(1, 1, 1, 1), Some("eth0"), &entries)),
        Ok(SourceSelection { address: v4(192, 0, 2, 1).ip, index: Some(2) })
    );
    assert_eq!(
        chosen(resolve_source(&v4(1, 1, 1, 1), Some("eth1"), &entries)),
        Err(io("network interface is not up: eth1"))
    );
    assert_eq!(
        chosen(resolve_source(&v4(1, 1, 1, 1), Some("eth2"), &entries)),
        Err(io("network interface does not exist: eth2"))
    );
    let only_four = Ok(vec![entry("eth0", true, v4(192, 0, 2, 1).ip, 2)]);
    assert_eq!(
        chosen(resolve_source(&link, Some("eth0"), &only_four)),
        Err(io("network interface eth0 has no address matching target fe80::6"))
    );
    let failed = Err(io("enumeration failed"));
    assert_eq!(
        chosen(resolve_source(&link, Some("eth0"), &failed)),
        Err(io("enumeration failed"))
    );
}

#[test]
fn without_an_interface_the_route_is_asked() {
    let none = Ok(vec![]);
    assert!(matches!(
        resolve_source(&v4(1, 1, 1, 1), None, &none),
        SourceChoice::AskRoute
    ));
    assert!(matches!(
        resolve_source(&v6(LINK_LOCAL, "fe80::1"), None, &none),
        SourceChoice::Fail(failure)
            if failure == io("an interface is required for an IPv6 link-local ping target")
    ));
}

#[test]
fn reach_is_judged_by_address_ranges() {
    assert!(is_link_local(IpAddr::V6(LINK_LOCAL)));
    assert!(is_link_local(IpAddr::V6(0xfebf_ffff_0000_0000_0000_0000_0000_0000)));
    assert!(!is_link_local(IpAddr::V6(0xfec0_0000_0000_0000_0000_0000_0000_0000)));
    assert!(!is_link_local(v4(169, 254, 0, 1).ip));
    assert_eq!(source_rank(v4(127, 0, 0, 1).ip, v4(127, 9, 9, 9).ip), 0);
    assert_eq!(source_rank(v4(127, 0, 0, 1).ip, v4(8, 8, 8, 8).ip), 1);
    assert_eq!(source_rank(v4(127, 0, 0, 1).ip, IpAddr::V6(1)), 1);
    assert_eq!(probe_scope(IpAddr::V6(LINK_LOCAL), Some(4)), Some(4));
    assert_eq!(probe_scope(IpAddr::V6(LINK_LOCAL), Some(0)), None);
    assert_eq!(probe_scope(IpAddr::V6(LINK_LOCAL), None), None);
    assert_eq!(probe_scope(IpAddr::V6(1), Some(4)), None);
}

#[test]
fn transport_failures_tell_whether_the_probe_was_sent() {
    assert_eq!(
        map_transport_failure(TransportFailure::Timeout),
        (ProbeFailure::Timeout, true)
    );
    assert_eq!(
        map_transport_failure(TransportFailure::Io {
            permission_denied: true,
            os_error_code: Some(1),
            message: "denied".into(),
        }),
        (
            ProbeFailure::PermissionDenied { os_error_code: Some(1), message: "denied".into() },
            false
        )
    );
    assert_eq!(
        map_transport_failure(TransportFailure::ReceiverStopped),
        (io("ICMP receive task stopped before a reply arrived"), true)
    );
    assert_eq!(
        map_transport_failure(TransportFailure::ClientDestroyed),
        (ProbeFailure::Cancelled, false)
    );
    assert_eq!(
        map_transport_failure(TransportFailure::Other { message: "odd".into() }),
        (ProbeFailure::Protocol { message: "odd".into() }, false)
    );
    let unknown = unconfigured_probe();
    assert!(!unknown.sent);
    assert_eq!(
        unknown.result,
        Err(ProbeFailure::Protocol {
            message: "target was not configured in the ICMP transport".into()
        })
    );
}
