//! What holds of probes and rounds, told by what was asked and what came back.
use super::{
    PingRoundReport, PingRoundRequest, ProbeAttemptResult, ProbeEnd, ProbeFailure, ProbeReply,
    ProbeRequest, ProbeTiming, TargetMeasurement, answered, build_measurement, end_success,
    finish_round, round_probes, tells_end, tells_probe, validate_reply,
};
use crate::model::{ErrorKind, MeasurementEvent};
use crate::text::dec;
use vstd::prelude::*;

verus! {

/// The reply is the echo of the probe: from its target, with its identifier as far as that is
/// known and its sequence number, and of the type that echo replies have for the target's family,
/// without a code.
pub open spec fn echoes(reply: ProbeReply, request: ProbeRequest) -> bool {
    &&& reply.target.ip == request.target.ip
    &&& reply.identifier matches Some(identifier) ==> identifier == request.identifier
    &&& reply.sequence == request.sequence
    &&& request.target.ip is V4 ==> reply.icmp_type == 0
    &&& request.target.ip is V6 ==> reply.icmp_type == 129
    &&& reply.icmp_code == 0
}

/// The reply answers the probe, be it with an echo or with an error.
pub open spec fn answers(reply: ProbeReply, request: ProbeRequest) -> bool {
    &&& reply.target.ip == request.target.ip
    &&& reply.identifier is None || reply.identifier == Some(request.identifier)
    &&& reply.sequence == request.sequence
}

/// A number in decimal digits.
pub open spec fn digits(number: u16) -> Seq<char> {
    dec(number as nat)
}

/// A number in decimal digits.
pub open spec fn byte_digits(number: u8) -> Seq<char> {
    dec(number as nat)
}

/// A reply is taken exactly if it is the echo of the probe, and then as it is. One that answers the
/// probe with another type or code says that the target is unreachable, with that type and code.
/// Any other breaks the protocol, and the first thing that differs is named.
pub proof fn law_only_the_echo_is_taken(
    request: ProbeRequest,
    reply: ProbeReply,
    result: Result<ProbeReply, ProbeFailure>,
)
    requires
        call_ensures(validate_reply, (&request, reply), result),
    ensures
        result is Ok <==> echoes(reply, request),
        result is Ok ==> result->Ok_0 == reply,
        answers(reply, request) && !echoes(reply, request) ==> {
            let failure = result->Err_0;
            &&& failure is Unreachable
            &&& failure->icmp_type == reply.icmp_type
            &&& failure->icmp_code == reply.icmp_code
            &&& failure->Unreachable_message@ == "ICMP error reply type "@ + byte_digits(
                reply.icmp_type,
            ) + " code "@ + byte_digits(reply.icmp_code)
        },
        !answers(reply, request) ==> {
            let failure = result->Err_0;
            &&& failure is Protocol
            &&& failure->Protocol_message@ == if reply.target.ip != request.target.ip {
                "reply target mismatch: expected "@ + request.target.text@ + ", received "@
                    + reply.target.text@
            } else if reply.sequence == request.sequence || (reply.identifier is Some
                && reply.identifier != Some(request.identifier)) {
                "reply identifier mismatch: expected "@ + digits(request.identifier)
                    + ", received "@ + digits(reply.identifier->0)
            } else {
                "reply sequence mismatch: expected "@ + digits(request.sequence)
                    + ", received "@ + digits(reply.sequence)
            }
        },
{
    assert(result is Ok ==> super::reply_fault(request, reply) is None);
}

/// The probe was answered by its echo.
pub open spec fn echoed(attempt: ProbeAttemptResult, request: ProbeRequest) -> bool {
    attempt.result is Ok && echoes(attempt.result->Ok_0, request)
}

/// The event of a probe says where it went and from where, when, and beside what load.
pub open spec fn places_probe(
    event: MeasurementEvent,
    round: PingRoundRequest,
    timing: ProbeTiming,
    request: ProbeRequest,
    attempt: ProbeAttemptResult,
) -> bool {
    &&& event.event_kind is PingProbe
    &&& event.run_id == round.run_id
    &&& event.root_run_id == round.run_id
    &&& event.parent_run_id is None
    &&& event.run_kind is PingRound
    &&& event.scheduled_at_utc == Some(round.scheduled_at_utc)
    &&& event.started_at_utc == Some(timing.started_at)
    &&& event.finished_at_utc == Some(timing.finished_at)
    &&& event.elapsed_ms == Some(timing.elapsed_ms)
    &&& event.interface == attempt.binding.interface
    &&& event.ping_local_ip == attempt.binding.source_ip
    &&& event.ping_target_ip == Some(request.target.text)
    &&& event.ping_sequence == Some(request.sequence)
    &&& event.load_phase == round.load_phase
    &&& event.load_run_id == round.load_run_id
    &&& event.ping_packets_sent == Some(
        if attempt.sent {
            1u32
        } else {
            0u32
        },
    )
}

/// What a failure counts as, and what is told of it.
pub open spec fn tells_why(
    event: MeasurementEvent,
    failure: ProbeFailure,
    request: ProbeRequest,
) -> bool {
    &&& event.message is Some
    &&& match failure {
        ProbeFailure::Timeout => {
            &&& event.outcome is Timeout && event.error_kind == Some(ErrorKind::IcmpTimeout)
            &&& event.message->0@ == "ping timed out after "@ + request.timeout.text_spec()
        },
        ProbeFailure::Unreachable { icmp_type, icmp_code, message } => {
            &&& event.outcome is Unreachable
            &&& event.error_kind == Some(ErrorKind::IcmpUnreachable)
            &&& event.message->0@ == message@
        },
        ProbeFailure::PermissionDenied { os_error_code, message } => {
            &&& event.outcome is PermissionDenied
            &&& event.error_kind == Some(ErrorKind::PermissionDenied)
            &&& message@.is_prefix_of(event.message->0@)
            &&& event.message->0@ == message@
                + "; on Linux, allow this service user's group in net.ipv4.ping_group_range, or grant only cap_net_raw when datagram ICMP is unavailable"@
        },
        ProbeFailure::Cancelled => {
            &&& event.outcome is Cancelled && event.error_kind == Some(ErrorKind::Cancelled)
            &&& event.message->0@ == "ping was cancelled"@
        },
        ProbeFailure::Io { os_error_code, message } => {
            &&& event.outcome is Error && event.error_kind == Some(ErrorKind::Io)
            &&& event.message->0@ == message@
        },
        ProbeFailure::Protocol { message } => {
            &&& event.outcome is Error && event.error_kind == Some(ErrorKind::Protocol)
            &&& event.message->0@ == message@
        },
    }
    &&& event.os_error_code == (match failure {
        ProbeFailure::PermissionDenied { os_error_code, .. } => os_error_code,
        ProbeFailure::Io { os_error_code, .. } => os_error_code,
        _ => None,
    })
    &&& event.ping_icmp_type == (match failure {
        ProbeFailure::Unreachable { icmp_type, .. } => Some(icmp_type),
        _ => None,
    })
    &&& event.ping_icmp_code == (match failure {
        ProbeFailure::Unreachable { icmp_code, .. } => Some(icmp_code),
        _ => None,
    })
}

proof fn lemma_prefix(a: Seq<char>, b: Seq<char>)
    ensures
        a.is_prefix_of(a + b),
{
    assert((a + b).subrange(0, a.len() as int) =~= a);
}

proof fn lemma_probe_is_told(
    event: MeasurementEvent,
    round: PingRoundRequest,
    timing: ProbeTiming,
    request: ProbeRequest,
    attempt: ProbeAttemptResult,
)
    requires
        tells_probe(event, round, timing, request, attempt),
    ensures
        places_probe(event, round, timing, request, attempt),
        event.outcome is Success <==> echoed(attempt, request),
        event.ping_packets_received == Some(
            if echoed(attempt, request) {
                1u32
            } else {
                0u32
            },
        ),
        echoed(attempt, request) ==> {
            let reply = attempt.result->Ok_0;
            &&& event.ping_rtt_ms == Some(reply.rtt_ms)
            &&& event.ping_icmp_type == Some(reply.icmp_type)
            &&& event.ping_icmp_code == Some(reply.icmp_code)
            &&& event.error_kind is None
            &&& event.os_error_code is None
            &&& event.message is None
        },
        !echoed(attempt, request) ==> {
            &&& event.ping_rtt_ms is None
            &&& event.error_kind is Some
            &&& event.message is Some
        },
        attempt.result is Err ==> tells_why(event, attempt.result->Err_0, request),
        attempt.result is Ok && answers(attempt.result->Ok_0, request) && !echoed(attempt, request)
            ==> {
            &&& event.outcome is Unreachable
            &&& event.error_kind == Some(ErrorKind::IcmpUnreachable)
            &&& event.ping_icmp_type == Some(attempt.result->Ok_0.icmp_type)
            &&& event.ping_icmp_code == Some(attempt.result->Ok_0.icmp_code)
        },
        attempt.result is Ok && !answers(attempt.result->Ok_0, request) ==> {
            &&& event.outcome is Error
            &&& event.error_kind == Some(ErrorKind::Protocol)
        },
{
    match attempt.result {
        Err(ProbeFailure::PermissionDenied { message, .. }) => {
            lemma_prefix(message@, super::PERMISSION_HINT@);
        },
        _ => {},
    }
}

/// A target has answered exactly if the echo of its probe came back. Its event then has the round
/// trip and one packet received; otherwise it has no round trip, no packet received, and the
/// reason. An error reply is told with its type and code.
pub proof fn law_target_answers_with_the_echo(
    round: PingRoundRequest,
    timing: ProbeTiming,
    request: ProbeRequest,
    attempt: ProbeAttemptResult,
    measurement: TargetMeasurement,
)
    requires
        call_ensures(build_measurement, (&round, timing, &request, attempt), measurement),
    ensures
        ({
            let event = measurement.event;
            let reply = attempt.result->Ok_0;
            &&& measurement.success <==> echoed(attempt, request)
            &&& event.outcome is Success <==> echoed(attempt, request)
            &&& places_probe(event, round, timing, request, attempt)
            &&& event.ping_packets_received == Some(
                if echoed(attempt, request) {
                    1u32
                } else {
                    0u32
                },
            )
            &&& event.ping_rtt_ms == if echoed(attempt, request) {
                Some(reply.rtt_ms)
            } else {
                None
            }
            &&& event.error_kind is None <==> echoed(attempt, request)
            &&& event.message is None <==> echoed(attempt, request)
            &&& attempt.result is Err ==> tells_why(event, attempt.result->Err_0, request)
            &&& attempt.result is Ok && answers(reply, request) ==> {
                &&& event.ping_icmp_type == Some(reply.icmp_type)
                &&& event.ping_icmp_code == Some(reply.icmp_code)
                &&& !echoes(reply, request) ==> event.outcome is Unreachable
            }
            &&& attempt.result is Ok && !answers(reply, request) ==> event.outcome is Error
        }),
{
    lemma_probe_is_told(measurement.event, round, timing, request, attempt);
}

/// The target of a probe answered before the work on it ended.
pub open spec fn target_answered(request: ProbeRequest, end: ProbeEnd) -> bool {
    end is Attempted && echoed(end->attempt, request)
}

/// How many of the first targets answered.
pub open spec fn targets_answered(probes: Seq<ProbeRequest>, ends: Seq<ProbeEnd>, n: int) -> nat
    decreases n,
{
    if n <= 0 {
        0
    } else {
        targets_answered(probes, ends, n - 1) + if target_answered(probes[n - 1], ends[n - 1]) {
            1nat
        } else {
            0
        }
    }
}

proof fn lemma_targets_answered(probes: Seq<ProbeRequest>, ends: Seq<ProbeEnd>, n: int)
    ensures
        answered(probes, ends, n) == targets_answered(probes, ends, n),
    decreases n,
{
    if n > 0 {
        lemma_targets_answered(probes, ends, n - 1);
        assert(end_success(probes[n - 1], ends[n - 1]) == target_answered(
            probes[n - 1],
            ends[n - 1],
        ));
    }
}

/// A round tells of every target once, in order: of those that answered, that they did, and of the
/// others why not. It counts as successful the targets whose echo came back, and as failed all
/// others.
pub proof fn law_round_tells_of_every_target(
    round: PingRoundRequest,
    probes: Vec<ProbeRequest>,
    ends: Vec<ProbeEnd>,
    report: PingRoundReport,
)
    requires
        call_ensures(finish_round, (&round, &probes, ends), report),
        probes@.len() == ends@.len(),
    ensures
        report.events@.len() == ends@.len(),
        report.successful_targets == targets_answered(probes@, ends@, ends@.len() as int),
        report.successful_targets + report.failed_targets == ends@.len(),
        forall|i: int|
            0 <= i < ends@.len() ==> {
                let event = #[trigger] report.events@[i];
                &&& event.outcome is Success <==> target_answered(probes@[i], ends@[i])
                &&& event.ping_target_ip == Some(probes@[i].target.text)
                &&& event.ping_sequence == Some(probes@[i].sequence)
                &&& event.event_kind is PingProbe
                &&& event.run_id == round.run_id
                &&& event.ping_rtt_ms is Some <==> target_answered(probes@[i], ends@[i])
                &&& event.ping_packets_received == Some(
                    if target_answered(probes@[i], ends@[i]) {
                        1u32
                    } else {
                        0u32
                    },
                )
                &&& ends@[i] is Attempted ==> places_probe(
                    event,
                    round,
                    ends@[i]->timing,
                    probes@[i],
                    ends@[i]->attempt,
                )
                &&& ends@[i] is Broken ==> {
                    &&& event.outcome is Error
                    &&& event.error_kind == Some(ErrorKind::Protocol)
                    &&& event.ping_packets_sent == Some(0u32)
                    &&& event.message is Some
                    &&& event.message->0@ == "ping task failed: "@ + ends@[i]->reason@
                }
            },
{
    lemma_targets_answered(probes@, ends@, ends@.len() as int);
    assert forall|i: int| 0 <= i < ends@.len() implies ({
        let event = #[trigger] report.events@[i];
        &&& event.outcome is Success <==> target_answered(probes@[i], ends@[i])
        &&& event.ping_target_ip == Some(probes@[i].target.text)
        &&& event.ping_sequence == Some(probes@[i].sequence)
        &&& event.event_kind is PingProbe
        &&& event.run_id == round.run_id
        &&& event.ping_rtt_ms is Some <==> target_answered(probes@[i], ends@[i])
        &&& event.ping_packets_received == Some(
            if target_answered(probes@[i], ends@[i]) {
                1u32
            } else {
                0u32
            },
        )
        &&& ends@[i] is Attempted ==> places_probe(
            event,
            round,
            ends@[i]->timing,
            probes@[i],
            ends@[i]->attempt,
        )
        &&& ends@[i] is Broken ==> {
            &&& event.outcome is Error
            &&& event.error_kind == Some(ErrorKind::Protocol)
            &&& event.ping_packets_sent == Some(0u32)
            &&& event.message is Some
            &&& event.message->0@ == "ping task failed: "@ + ends@[i]->reason@
        }
    }) by {
        let event = report.events@[i];
        assert(tells_end(event, round, probes@[i], ends@[i]));
        match ends@[i] {
            ProbeEnd::Attempted { timing, attempt } => {
                lemma_probe_is_told(event, round, timing, probes@[i], attempt);
            },
            ProbeEnd::Broken { now, reason } => {
                let timing = ProbeTiming {
                    started_at: now,
                    finished_at: now,
                    elapsed_ms: crate::scalar::Scalar { key: 0 },
                };
                let attempt = choose|attempt: ProbeAttemptResult|
                    {
                        &&& attempt.binding.interface is None
                        &&& attempt.binding.source_ip is None
                        &&& !attempt.sent
                        &&& attempt.result is Err
                        &&& attempt.result->Err_0@ == super::broken_fault(reason@)
                        &&& #[trigger] tells_probe(event, round, timing, probes@[i], attempt)
                    };
                lemma_probe_is_told(event, round, timing, probes@[i], attempt);
            },
        }
    }
}

/// A round asks every target once, in order, with its own sequence number: the targets of all
/// rounds are counted through, and the count starts again behind 65535.
pub proof fn law_round_asks_every_target(request: PingRoundRequest, probes: Vec<ProbeRequest>)
    requires
        call_ensures(round_probes, (&request,), probes),
        request.targets@.len() <= 65_536,
    ensures
        probes@.len() == request.targets@.len(),
        forall|i: int|
            0 <= i < probes@.len() ==> {
                let probe = #[trigger] probes@[i];
                &&& probe.target == request.targets@[i]
                &&& probe.identifier == request.identifier
                &&& probe.timeout == request.timeout
                &&& probe.sequence as int == (request.round_number * request.targets@.len() + i)
                    % 65_536
            },
        forall|i: int, j: int|
            0 <= i < j < probes@.len() ==> (#[trigger] probes@[i]).sequence != (
            #[trigger] probes@[j]).sequence,
{
    let count = request.targets@.len() as int;
    assert forall|i: int| 0 <= i < probes@.len() implies ({
        let probe = #[trigger] probes@[i];
        &&& probe.target == request.targets@[i]
        &&& probe.identifier == request.identifier
        &&& probe.timeout == request.timeout
        &&& probe.sequence as int == (request.round_number * count + i) % 65_536
    }) by {
        assert(super::asks(probes@[i], request, i));
    }
    assert forall|i: int, j: int| 0 <= i < j < probes@.len() implies (
    #[trigger] probes@[i]).sequence != (#[trigger] probes@[j]).sequence by {
        assert(super::asks(probes@[i], request, i));
        assert(super::asks(probes@[j], request, j));
        super::law_round_sequences_are_distinct(request.round_number, count, i, j);
    }
}

} // verus!
