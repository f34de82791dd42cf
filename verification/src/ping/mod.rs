//! Rounds of echo probes: what is asked, how a reply is judged, and what is written down.
pub mod laws;
pub mod number_laws;
pub mod source;
pub mod source_laws;

use crate::config::Address;
use crate::console::ConsoleStats;
use crate::journal::JournalError;
use crate::model::{
    ErrorKind, EventKind, IpAddr, LoadPhase, MeasurementEvent, Outcome, RunId, blank_event,
};
use crate::scalar::Scalar;
use crate::text::{clone_text, dec, decimal};
use crate::time::{Duration, Timestamp};
use vstd::arithmetic::div_mod::{lemma_fundamental_div_mod, lemma_mod_multiples_vanish};
use vstd::prelude::*;
use vstd::string::StringExecFns;

verus! {

/// The most targets that one round can tell apart by their sequence numbers.
pub const MAX_TARGETS: usize = 65_536;

/// What one probe asks.
#[derive(Debug, PartialEq, Eq)]
pub struct ProbeRequest {
    pub target: Address,
    pub identifier: u16,
    pub sequence: u16,
    pub timeout: Duration,
}

/// Where a probe left from.
#[derive(Debug, PartialEq, Eq)]
pub struct ProbeBinding {
    pub interface: Option<String>,
    pub source_ip: Option<IpAddr>,
}

impl Clone for ProbeBinding {
    fn clone(&self) -> (copy: Self)
        ensures
            copy == *self,
    {
        ProbeBinding { interface: clone_text(&self.interface), source_ip: self.source_ip }
    }
}

/// What came back. The identifier is missing where the system hides it.
#[derive(Debug, PartialEq, Eq)]
pub struct ProbeReply {
    pub target: Address,
    pub identifier: Option<u16>,
    pub sequence: u16,
    pub rtt_ms: Scalar,
    pub icmp_type: u8,
    pub icmp_code: u8,
}

/// Why no good reply came.
#[derive(Debug, PartialEq, Eq)]
pub enum ProbeFailure {
    Timeout,
    Unreachable { icmp_type: u8, icmp_code: u8, message: String },
    PermissionDenied { os_error_code: Option<i32>, message: String },
    Cancelled,
    Io { os_error_code: Option<i32>, message: String },
    Protocol { message: String },
}

impl Clone for ProbeFailure {
    fn clone(&self) -> (copy: Self)
        ensures
            copy == *self,
    {
        match self {
            ProbeFailure::Timeout => ProbeFailure::Timeout,
            ProbeFailure::Unreachable { icmp_type, icmp_code, message } => {
                ProbeFailure::Unreachable {
                    icmp_type: *icmp_type,
                    icmp_code: *icmp_code,
                    message: message.clone(),
                }
            },
            ProbeFailure::PermissionDenied { os_error_code, message } => {
                ProbeFailure::PermissionDenied {
                    os_error_code: *os_error_code,
                    message: message.clone(),
                }
            },
            ProbeFailure::Cancelled => ProbeFailure::Cancelled,
            ProbeFailure::Io { os_error_code, message } => {
                ProbeFailure::Io { os_error_code: *os_error_code, message: message.clone() }
            },
            ProbeFailure::Protocol { message } => {
                ProbeFailure::Protocol { message: message.clone() }
            },
        }
    }
}

/// What a failure says, with its text as characters.
pub enum FailureModel {
    Timeout,
    Unreachable { icmp_type: u8, icmp_code: u8, message: Seq<char> },
    PermissionDenied { os_error_code: Option<i32>, message: Seq<char> },
    Cancelled,
    Io { os_error_code: Option<i32>, message: Seq<char> },
    Protocol { message: Seq<char> },
}

impl View for ProbeFailure {
    type V = FailureModel;

    open spec fn view(&self) -> FailureModel {
        match *self {
            ProbeFailure::Timeout => FailureModel::Timeout,
            ProbeFailure::Unreachable { icmp_type, icmp_code, message } => {
                FailureModel::Unreachable { icmp_type, icmp_code, message: message@ }
            },
            ProbeFailure::PermissionDenied { os_error_code, message } => {
                FailureModel::PermissionDenied { os_error_code, message: message@ }
            },
            ProbeFailure::Cancelled => FailureModel::Cancelled,
            ProbeFailure::Io { os_error_code, message } => {
                FailureModel::Io { os_error_code, message: message@ }
            },
            ProbeFailure::Protocol { message } => FailureModel::Protocol { message: message@ },
        }
    }
}

/// One probe, from where it left to what came of it.
#[derive(Debug, PartialEq, Eq)]
pub struct ProbeAttemptResult {
    pub binding: ProbeBinding,
    pub sent: bool,
    pub result: Result<ProbeReply, ProbeFailure>,
}

/// A round: one probe for each target.
#[derive(Debug)]
pub struct PingRoundRequest {
    pub run_id: RunId,
    pub round_number: u64,
    pub targets: Vec<Address>,
    pub timeout: Duration,
    pub scheduled_at_utc: Timestamp,
    pub identifier: u16,
    pub load_phase: Option<LoadPhase>,
    pub load_run_id: Option<RunId>,
}

/// What a round came to.
#[derive(Debug)]
pub struct PingRoundReport {
    pub events: Vec<MeasurementEvent>,
    pub successful_targets: usize,
    pub failed_targets: usize,
}

#[derive(Clone, Copy, Debug, PartialEq, Eq, Structural)]
pub enum PingExitStatus {
    Success,
    PartialFailure,
}

impl PingExitStatus {
    pub fn code(self) -> (code: u8)
        ensures
            code == (match self {
                PingExitStatus::Success => 0u8,
                PingExitStatus::PartialFailure => 1u8,
            }),
    {
        match self {
            PingExitStatus::Success => 0,
            PingExitStatus::PartialFailure => 1,
        }
    }
}

impl PingRoundReport {
    /// A round succeeds if no target failed.
    pub fn exit_status(&self) -> (status: PingExitStatus)
        ensures
            status == (if self.failed_targets == 0 {
                PingExitStatus::Success
            } else {
                PingExitStatus::PartialFailure
            }),
    {
        if self.failed_targets == 0 {
            PingExitStatus::Success
        } else {
            PingExitStatus::PartialFailure
        }
    }
}

/// Why a round cannot be asked.
#[derive(Debug, PartialEq, Eq)]
pub enum PingRoundError {
    NoTargets,
    DuplicateTarget(Address),
    TooManyTargets,
}

impl PingRoundError {
    pub open spec fn text(self) -> Seq<char> {
        match self {
            PingRoundError::NoTargets => "a ping round requires at least one target"@,
            PingRoundError::DuplicateTarget(target) => "duplicate ping target: "@ + target.text@,
            PingRoundError::TooManyTargets => "a ping round supports at most 65536 targets"@,
        }
    }

    /// The error in words.
    pub fn message(&self) -> (text: String)
        ensures
            text@ == self.text(),
    {
        match self {
            PingRoundError::NoTargets => "a ping round requires at least one target".to_owned(),
            PingRoundError::DuplicateTarget(target) => {
                "duplicate ping target: ".to_owned().concat(&target.text)
            },
            PingRoundError::TooManyTargets => {
                "a ping round supports at most 65536 targets".to_owned()
            },
        }
    }
}

/// A round that was asked for on its own.
pub struct PingExecution {
    pub exit_status: PingExitStatus,
    pub output_path: String,
    pub console_stats: ConsoleStats,
}

/// Why a round that was asked for on its own could not be carried out.
pub enum PingCommandError {
    Journal(JournalError),
    Round(PingRoundError),
}

impl PingCommandError {
    pub open spec fn text(self) -> Seq<char> {
        match self {
            PingCommandError::Journal(error) => error.text(),
            PingCommandError::Round(error) => error.text(),
        }
    }

    /// The error in words.
    pub fn message(&self) -> (text: String)
        ensures
            text@ == self.text(),
    {
        match self {
            PingCommandError::Journal(error) => error.message(),
            PingCommandError::Round(error) => error.message(),
        }
    }
}

/// A target whose address was listed before.
pub open spec fn repeats(targets: Seq<Address>, i: int) -> bool {
    exists|k: int| 0 <= k < i && (#[trigger] targets[k]).ip == targets[i].ip
}

/// A list of targets that a round can ask.
pub open spec fn askable(targets: Seq<Address>) -> bool {
    &&& 0 < targets.len() <= MAX_TARGETS
    &&& forall|i: int| 0 <= i < targets.len() ==> !#[trigger] repeats(targets, i)
}

/// Checks the targets: there is one at least, not more than sequence numbers tell apart, and
/// none twice. The first repeated target is named.
pub fn validate_round_request(request: &PingRoundRequest) -> (result: Result<(), PingRoundError>)
    ensures
        result is Ok <==> askable(request.targets@),
        match result {
            Ok(()) => true,
            Err(PingRoundError::NoTargets) => request.targets@.len() == 0,
            Err(PingRoundError::TooManyTargets) => request.targets@.len() > MAX_TARGETS,
            Err(PingRoundError::DuplicateTarget(target)) => {
                &&& 0 < request.targets@.len() <= MAX_TARGETS
                &&& exists|i: int|
                    {
                        &&& 0 <= i < request.targets@.len()
                        &&& target == request.targets@[i]
                        &&& #[trigger] repeats(request.targets@, i)
                        &&& forall|j: int|
                            0 <= j < i ==> !#[trigger] repeats(request.targets@, j)
                    }
            },
        },
{
    let targets = &request.targets;
    if targets.len() == 0 {
        return Err(PingRoundError::NoTargets);
    }
    if targets.len() > MAX_TARGETS {
        return Err(PingRoundError::TooManyTargets);
    }
    let mut i: usize = 0;
    while i < targets.len()
        invariant
            targets@ == request.targets@,
            0 < targets@.len() <= MAX_TARGETS,
            i <= targets@.len(),
            forall|j: int| 0 <= j < i ==> !#[trigger] repeats(targets@, j),
        decreases targets@.len() - i,
    {
        let mut k: usize = 0;
        while k < i
            invariant
                targets@ == request.targets@,
                0 < targets@.len() <= MAX_TARGETS,
                k <= i < targets@.len(),
                forall|j: int| 0 <= j < i ==> !#[trigger] repeats(targets@, j),
                forall|j: int| 0 <= j < k ==> (#[trigger] targets@[j]).ip != targets@[i as int].ip,
            decreases i - k,
        {
            if targets[k].ip == targets[i].ip {
                proof {
                    assert(targets@[k as int].ip == targets@[i as int].ip);
                    assert(repeats(targets@, i as int));
                }
                return Err(PingRoundError::DuplicateTarget(targets[i].clone()));
            }
            k += 1;
        }
        i += 1;
    }
    Ok(())
}

/// The sequence number of a target's probe: probes are counted through all rounds, and the count
/// starts again where sixteen bits end.
pub open spec fn sequence_of(round_number: u64, targets: int, index: int) -> u16 {
    ((round_number * targets + index) % 65_536) as u16
}

/// The sequence number of a target's probe.
pub fn probe_sequence(round_number: u64, targets: usize, index: usize) -> (sequence: u16)
    requires
        targets <= MAX_TARGETS,
        index < targets,
    ensures
        sequence == sequence_of(round_number, targets as int, index as int),
{
    let within: u64 = round_number % 65_536;
    let count: u64 = targets as u64;
    proof {
        assert(0 <= within * count <= 65_536 * 65_536) by (nonlinear_arith)
            requires
                0 <= within < 65_536,
                0 <= count <= 65_536,
        ;
        let rounds = round_number as int / 65_536;
        lemma_fundamental_div_mod(round_number as int, 65_536);
        assert(round_number * count + index == (within * count + index) + 65_536 * (rounds
            * count)) by (nonlinear_arith)
            requires
                round_number == 65_536 * rounds + within,
        ;
        lemma_mod_multiples_vanish(rounds * count, within * count + index, 65_536);
    }
    ((within * count + index as u64) % 65_536) as u16
}

/// The probes of one round have sequence numbers of their own: a late reply cannot be taken for
/// that of another target.
pub proof fn law_round_sequences_are_distinct(round_number: u64, targets: int, i: int, j: int)
    requires
        0 <= i < targets <= MAX_TARGETS,
        0 <= j < targets,
    ensures
        sequence_of(round_number, targets, i) == sequence_of(round_number, targets, j) <==> i == j,
{
    let base = round_number * targets;
    assert(base >= 0) by (nonlinear_arith)
        requires
            base == round_number * targets,
            targets >= 0,
    ;
    assert((base + i) % 65_536 == (base + j) % 65_536 ==> i == j) by (nonlinear_arith)
        requires
            0 <= i < 65_536,
            0 <= j < 65_536,
            base >= 0,
    ;
}

/// The identifier that marks a process's probes: the low bits of the process and run numbers.
pub fn probe_identifier(process_id: u32, run_number: u64) -> (identifier: u16)
    ensures
        identifier == #[verifier::truncate] ((process_id as u64 ^ run_number) as u16),
{
    #[verifier::truncate]
    let identifier: u16 = (process_id as u64 ^ run_number) as u16;
    identifier
}

/// The probe that a round sends to a target.
pub open spec fn asks(probe: ProbeRequest, request: PingRoundRequest, index: int) -> bool {
    &&& probe.target == request.targets@[index]
    &&& probe.identifier == request.identifier
    &&& probe.sequence == sequence_of(
        request.round_number,
        request.targets@.len() as int,
        index,
    )
    &&& probe.timeout == request.timeout
}

/// The probes of a round, in the order of its targets.
pub fn round_probes(request: &PingRoundRequest) -> (probes: Vec<ProbeRequest>)
    requires
        request.targets@.len() <= MAX_TARGETS,
    ensures
        probes@.len() == request.targets@.len(),
        forall|i: int| 0 <= i < probes@.len() ==> asks(#[trigger] probes@[i], *request, i),
{
    let mut probes: Vec<ProbeRequest> = Vec::new();
    let count: usize = request.targets.len();
    let mut i: usize = 0;
    while i < count
        invariant
            i <= count,
            count == request.targets@.len(),
            count <= MAX_TARGETS,
            probes@.len() == i,
            forall|k: int| 0 <= k < i ==> asks(#[trigger] probes@[k], *request, k),
        decreases count - i,
    {
        probes.push(
            ProbeRequest {
                target: request.targets[i].clone(),
                identifier: request.identifier,
                sequence: probe_sequence(request.round_number, count, i),
                timeout: request.timeout,
            },
        );
        i += 1;
    }
    probes
}

/// The message type of an echo reply.
pub open spec fn echo_reply_type(target: IpAddr) -> u8 {
    match target {
        IpAddr::V4(_) => 0,
        IpAddr::V6(_) => 129,
    }
}

/// A number as it is written in a message.
pub open spec fn shown(number: u16) -> Seq<char> {
    dec(number as nat)
}

pub open spec fn shown_byte(number: u8) -> Seq<char> {
    dec(number as nat)
}

fn show(number: u16) -> (text: String)
    ensures
        text@ == shown(number),
{
    decimal(number as u128)
}

fn show_byte(number: u8) -> (text: String)
    ensures
        text@ == shown_byte(number),
{
    decimal(number as u128)
}

/// What is wrong with a reply, if anything is: it answers another probe, or it is not an echo
/// reply.
pub open spec fn reply_fault(request: ProbeRequest, reply: ProbeReply) -> Option<FailureModel> {
    if reply.target.ip != request.target.ip {
        Some(
            FailureModel::Protocol {
                message: "reply target mismatch: expected "@ + request.target.text@
                    + ", received "@ + reply.target.text@,
            },
        )
    } else if reply.identifier is Some && reply.identifier->0 != request.identifier {
        Some(
            FailureModel::Protocol {
                message: "reply identifier mismatch: expected "@ + shown(request.identifier)
                    + ", received "@ + shown(reply.identifier->0),
            },
        )
    } else if reply.sequence != request.sequence {
        Some(
            FailureModel::Protocol {
                message: "reply sequence mismatch: expected "@ + shown(request.sequence)
                    + ", received "@ + shown(reply.sequence),
            },
        )
    } else if reply.icmp_type != echo_reply_type(request.target.ip) || reply.icmp_code != 0 {
        Some(
            FailureModel::Unreachable {
                icmp_type: reply.icmp_type,
                icmp_code: reply.icmp_code,
                message: "ICMP error reply type "@ + shown_byte(reply.icmp_type) + " code "@
                    + shown_byte(reply.icmp_code),
            },
        )
    } else {
        None
    }
}

/// A message that names two things.
fn two_part(first: &str, a: &str, second: &str, b: &str) -> (message: String)
    ensures
        message@ == first@ + a@ + second@ + b@,
{
    first.to_owned().concat(a).concat(second).concat(b)
}

/// Takes a reply only if it answers the request.
pub fn validate_reply(request: &ProbeRequest, reply: ProbeReply) -> (result: Result<
    ProbeReply,
    ProbeFailure,
>)
    ensures
        match result {
            Ok(taken) => taken == reply && reply_fault(*request, reply) is None,
            Err(failure) => reply_fault(*request, reply) == Some(failure@),
        },
{
    if reply.target.ip != request.target.ip {
        return Err(
            ProbeFailure::Protocol {
                message: two_part(
                    "reply target mismatch: expected ",
                    &request.target.text,
                    ", received ",
                    &reply.target.text,
                ),
            },
        );
    }
    if let Some(identifier) = reply.identifier {
        if identifier != request.identifier {
            return Err(
                ProbeFailure::Protocol {
                    message: two_part(
                        "reply identifier mismatch: expected ",
                        &show(request.identifier),
                        ", received ",
                        &show(identifier),
                    ),
                },
            );
        }
    }
    if reply.sequence != request.sequence {
        return Err(
            ProbeFailure::Protocol {
                message: two_part(
                    "reply sequence mismatch: expected ",
                    &show(request.sequence),
                    ", received ",
                    &show(reply.sequence),
                ),
            },
        );
    }
    let expected: u8 = match request.target.ip {
        IpAddr::V4(_) => 0,
        IpAddr::V6(_) => 129,
    };
    if reply.icmp_type != expected || reply.icmp_code != 0 {
        return Err(
            ProbeFailure::Unreachable {
                icmp_type: reply.icmp_type,
                icmp_code: reply.icmp_code,
                message: two_part(
                    "ICMP error reply type ",
                    &show_byte(reply.icmp_type),
                    " code ",
                    &show_byte(reply.icmp_code),
                ),
            },
        );
    }
    Ok(reply)
}

/// What is written down of a failure.
pub struct FailureFields {
    pub outcome: Outcome,
    pub icmp_type: Option<u8>,
    pub icmp_code: Option<u8>,
    pub error_kind: ErrorKind,
    pub os_error_code: Option<i32>,
    pub message: String,
}

/// What to do about a missing permission.
pub const PERMISSION_HINT: &'static str =
    "; on Linux, allow this service user's group in net.ipv4.ping_group_range, or grant only cap_net_raw when datagram ICMP is unavailable";

/// How a failure is told.
pub open spec fn failure_message(failure: FailureModel, timeout: Duration) -> Seq<char> {
    match failure {
        FailureModel::Timeout => "ping timed out after "@ + timeout.text_spec(),
        FailureModel::Unreachable { message, .. } => message,
        FailureModel::PermissionDenied { message, .. } => message + PERMISSION_HINT@,
        FailureModel::Cancelled => "ping was cancelled"@,
        FailureModel::Io { message, .. } => message,
        FailureModel::Protocol { message } => message,
    }
}

/// What a failure counts as.
pub open spec fn failure_class(failure: FailureModel) -> (Outcome, ErrorKind) {
    match failure {
        FailureModel::Timeout => (Outcome::Timeout, ErrorKind::IcmpTimeout),
        FailureModel::Unreachable { .. } => (Outcome::Unreachable, ErrorKind::IcmpUnreachable),
        FailureModel::PermissionDenied { .. } => {
            (Outcome::PermissionDenied, ErrorKind::PermissionDenied)
        },
        FailureModel::Cancelled => (Outcome::Cancelled, ErrorKind::Cancelled),
        FailureModel::Io { .. } => (Outcome::Error, ErrorKind::Io),
        FailureModel::Protocol { .. } => (Outcome::Error, ErrorKind::Protocol),
    }
}

/// The message type and code that a failure carries.
pub open spec fn failure_icmp(failure: FailureModel) -> (Option<u8>, Option<u8>) {
    match failure {
        FailureModel::Unreachable { icmp_type, icmp_code, .. } => {
            (Some(icmp_type), Some(icmp_code))
        },
        _ => (None, None),
    }
}

/// The system's error number that a failure carries.
pub open spec fn failure_os_code(failure: FailureModel) -> Option<i32> {
    match failure {
        FailureModel::PermissionDenied { os_error_code, .. } => os_error_code,
        FailureModel::Io { os_error_code, .. } => os_error_code,
        _ => None,
    }
}

/// What is written down of a failure.
pub fn failure_fields(failure: &ProbeFailure, timeout: Duration) -> (fields: FailureFields)
    ensures
        (fields.outcome, fields.error_kind) == failure_class(failure@),
        (fields.icmp_type, fields.icmp_code) == failure_icmp(failure@),
        fields.os_error_code == failure_os_code(failure@),
        fields.message@ == failure_message(failure@, timeout),
{
    match failure {
        ProbeFailure::Timeout => FailureFields {
            outcome: Outcome::Timeout,
            icmp_type: None,
            icmp_code: None,
            error_kind: ErrorKind::IcmpTimeout,
            os_error_code: None,
            message: "ping timed out after ".to_owned().concat(&timeout.text()),
        },
        ProbeFailure::Unreachable { icmp_type, icmp_code, message } => FailureFields {
            outcome: Outcome::Unreachable,
            icmp_type: Some(*icmp_type),
            icmp_code: Some(*icmp_code),
            error_kind: ErrorKind::IcmpUnreachable,
            os_error_code: None,
            message: message.clone(),
        },
        ProbeFailure::PermissionDenied { os_error_code, message } => FailureFields {
            outcome: Outcome::PermissionDenied,
            icmp_type: None,
            icmp_code: None,
            error_kind: ErrorKind::PermissionDenied,
            os_error_code: *os_error_code,
            message: message.clone().concat(PERMISSION_HINT),
        },
        ProbeFailure::Cancelled => FailureFields {
            outcome: Outcome::Cancelled,
            icmp_type: None,
            icmp_code: None,
            error_kind: ErrorKind::Cancelled,
            os_error_code: None,
            message: "ping was cancelled".to_owned(),
        },
        ProbeFailure::Io { os_error_code, message } => FailureFields {
            outcome: Outcome::Error,
            icmp_type: None,
            icmp_code: None,
            error_kind: ErrorKind::Io,
            os_error_code: *os_error_code,
            message: message.clone(),
        },
        ProbeFailure::Protocol { message } => FailureFields {
            outcome: Outcome::Error,
            icmp_type: None,
            icmp_code: None,
            error_kind: ErrorKind::Protocol,
            os_error_code: None,
            message: message.clone(),
        },
    }
}

/// When a probe ran, and for how long.
#[derive(Clone, Copy)]
pub struct ProbeTiming {
    pub started_at: Timestamp,
    pub finished_at: Timestamp,
    pub elapsed_ms: Scalar,
}

/// The event of one target, and whether the target answered.
pub struct TargetMeasurement {
    pub event: MeasurementEvent,
    pub success: bool,
}

/// What came of a probe in the end.
pub open spec fn probe_fault(request: ProbeRequest, attempt: ProbeAttemptResult) -> Option<
    FailureModel,
> {
    match attempt.result {
        Ok(reply) => reply_fault(request, reply),
        Err(failure) => Some(failure@),
    }
}

/// The event that tells of a probe.
pub open spec fn tells_probe(
    event: MeasurementEvent,
    round: PingRoundRequest,
    timing: ProbeTiming,
    request: ProbeRequest,
    attempt: ProbeAttemptResult,
) -> bool {
    let fault = probe_fault(request, attempt);
    let reply = attempt.result->Ok_0;
    &&& event == (MeasurementEvent {
        scheduled_at_utc: Some(round.scheduled_at_utc),
        started_at_utc: Some(timing.started_at),
        elapsed_ms: Some(timing.elapsed_ms),
        message: event.message,
        interface: attempt.binding.interface,
        ping_target_ip: event.ping_target_ip,
        ping_local_ip: attempt.binding.source_ip,
        ping_sequence: Some(request.sequence),
        ping_packets_sent: Some(
            if attempt.sent {
                1
            } else {
                0
            },
        ),
        ping_packets_received: Some(
            if fault is None {
                1
            } else {
                0
            },
        ),
        ping_rtt_ms: if fault is None {
            Some(reply.rtt_ms)
        } else {
            None
        },
        ping_icmp_type: if fault is None {
            Some(reply.icmp_type)
        } else {
            failure_icmp(fault->0).0
        },
        ping_icmp_code: if fault is None {
            Some(reply.icmp_code)
        } else {
            failure_icmp(fault->0).1
        },
        load_run_id: round.load_run_id,
        load_phase: round.load_phase,
        error_kind: if fault is None {
            None
        } else {
            Some(failure_class(fault->0).1)
        },
        os_error_code: if fault is None {
            None
        } else {
            failure_os_code(fault->0)
        },
        ..blank_event(
            event.event_id,
            round.run_id,
            EventKind::PingProbe,
            if fault is None {
                Outcome::Success
            } else {
                failure_class(fault->0).0
            },
            timing.finished_at,
        )
    })
    &&& event.ping_target_ip == Some(request.target.text)
    &&& match fault {
        None => event.message is None,
        Some(failure) => {
            &&& event.message is Some
            &&& event.message->0@ == failure_message(failure, request.timeout)
        },
    }
}

/// Writes down what came of a probe.
pub fn build_measurement(
    round: &PingRoundRequest,
    timing: ProbeTiming,
    request: &ProbeRequest,
    attempt: ProbeAttemptResult,
) -> (measurement: TargetMeasurement)
    ensures
        tells_probe(measurement.event, *round, timing, *request, attempt),
        measurement.success == (probe_fault(*request, attempt) is None),
{
    let ProbeAttemptResult { binding, sent, result } = attempt;
    let validated = match result {
        Ok(reply) => validate_reply(request, reply),
        Err(failure) => Err(failure),
    };
    let mut event = MeasurementEvent::new(
        round.run_id,
        EventKind::PingProbe,
        Outcome::Success,
        timing.finished_at,
    );
    event.scheduled_at_utc = Some(round.scheduled_at_utc);
    event.started_at_utc = Some(timing.started_at);
    event.elapsed_ms = Some(timing.elapsed_ms);
    event.interface = binding.interface;
    event.ping_local_ip = binding.source_ip;
    event.load_phase = round.load_phase;
    event.load_run_id = round.load_run_id;
    event.ping_target_ip = Some(request.target.text.clone());
    event.ping_sequence = Some(request.sequence);
    event.ping_packets_sent = Some(
        if sent {
            1
        } else {
            0
        },
    );
    match validated {
        Ok(reply) => {
            event.ping_packets_received = Some(1);
            event.ping_rtt_ms = Some(reply.rtt_ms);
            event.ping_icmp_type = Some(reply.icmp_type);
            event.ping_icmp_code = Some(reply.icmp_code);
            TargetMeasurement { event, success: true }
        },
        Err(failure) => {
            let fields = failure_fields(&failure, request.timeout);
            event.outcome = fields.outcome;
            event.ping_packets_received = Some(0);
            event.ping_icmp_type = fields.icmp_type;
            event.ping_icmp_code = fields.icmp_code;
            event.error_kind = Some(fields.error_kind);
            event.os_error_code = fields.os_error_code;
            event.message = Some(fields.message);
            TargetMeasurement { event, success: false }
        },
    }
}

/// How the work on one target ended: with an attempt, or without one because the task that was
/// to make it broke down.
pub enum ProbeEnd {
    Attempted { timing: ProbeTiming, attempt: ProbeAttemptResult },
    Broken { now: Timestamp, reason: String },
}

/// What is reported of a probe whose task broke down.
pub open spec fn broken_fault(reason: Seq<char>) -> FailureModel {
    FailureModel::Protocol { message: "ping task failed: "@ + reason }
}

/// The event that tells how the work on one target ended.
pub open spec fn tells_end(
    event: MeasurementEvent,
    round: PingRoundRequest,
    request: ProbeRequest,
    end: ProbeEnd,
) -> bool {
    match end {
        ProbeEnd::Attempted { timing, attempt } => {
            tells_probe(event, round, timing, request, attempt)
        },
        ProbeEnd::Broken { now, reason } => exists|attempt: ProbeAttemptResult|
            {
                &&& attempt.binding.interface is None
                &&& attempt.binding.source_ip is None
                &&& !attempt.sent
                &&& attempt.result is Err
                &&& attempt.result->Err_0@ == broken_fault(reason@)
                &&& #[trigger] tells_probe(
                    event,
                    round,
                    (ProbeTiming {
                        started_at: now,
                        finished_at: now,
                        elapsed_ms: Scalar { key: 0 },
                    }),
                    request,
                    attempt,
                )
            },
    }
}

/// Whether the target answered.
pub open spec fn end_success(request: ProbeRequest, end: ProbeEnd) -> bool {
    match end {
        ProbeEnd::Attempted { attempt, .. } => probe_fault(request, attempt) is None,
        ProbeEnd::Broken { .. } => false,
    }
}

/// Writes down a target whose task broke down.
pub fn internal_failure(
    round: &PingRoundRequest,
    request: &ProbeRequest,
    now: Timestamp,
    reason: &str,
) -> (measurement: TargetMeasurement)
    ensures
        forall|owned: String|
            owned@ == reason@ ==> #[trigger] tells_end(
                measurement.event,
                *round,
                *request,
                (ProbeEnd::Broken { now, reason: owned }),
            ),
        !measurement.success,
{
    let attempt = ProbeAttemptResult {
        binding: ProbeBinding { interface: None, source_ip: None },
        sent: false,
        result: Err(
            ProbeFailure::Protocol { message: "ping task failed: ".to_owned().concat(reason) },
        ),
    };
    let ghost made = attempt;
    let timing = ProbeTiming {
        started_at: now,
        finished_at: now,
        elapsed_ms: Scalar { key: 0 },
    };
    let measurement = build_measurement(round, timing, request, attempt);
    proof {
        assert forall|owned: String| owned@ == reason@ implies #[trigger] tells_end(
            measurement.event,
            *round,
            *request,
            (ProbeEnd::Broken { now, reason: owned }),
        ) by {
            assert(made.result->Err_0@ == broken_fault(owned@));
            assert(tells_probe(measurement.event, *round, timing, *request, made));
        }
    }
    measurement
}

/// How many of the first targets answered.
pub open spec fn answered(probes: Seq<ProbeRequest>, ends: Seq<ProbeEnd>, n: int) -> nat
    decreases n,
{
    if n <= 0 {
        0
    } else {
        answered(probes, ends, n - 1) + if end_success(probes[n - 1], ends[n - 1]) {
            1nat
        } else {
            0nat
        }
    }
}

/// The report of a round: an event for each target, in order, and how many answered.
pub open spec fn reports_round(
    report: PingRoundReport,
    round: PingRoundRequest,
    probes: Seq<ProbeRequest>,
    ends: Seq<ProbeEnd>,
) -> bool {
    &&& report.events@.len() == ends.len()
    &&& forall|i: int|
        0 <= i < ends.len() ==> tells_end(#[trigger] report.events@[i], round, probes[i], ends[i])
    &&& report.successful_targets == answered(probes, ends, ends.len() as int)
    &&& report.successful_targets + report.failed_targets == ends.len()
}

/// Writes down a round from how the work on each target ended.
pub fn finish_round(
    round: &PingRoundRequest,
    probes: &Vec<ProbeRequest>,
    ends: Vec<ProbeEnd>,
) -> (report: PingRoundReport)
    requires
        probes@.len() == ends@.len(),
    ensures
        reports_round(report, *round, probes@, ends@),
{
    let ghost all = ends@;
    let count: usize = ends.len();
    let mut ends = ends;
    let mut events: Vec<MeasurementEvent> = Vec::new();
    let mut successful: usize = 0;
    let mut i: usize = 0;
    while i < count
        invariant
            count == all.len(),
            count == probes@.len(),
            i <= count,
            ends@ == all.skip(i as int),
            events@.len() == i,
            forall|k: int|
                0 <= k < i ==> tells_end(#[trigger] events@[k], *round, probes@[k], all[k]),
            successful == answered(probes@, all, i as int),
            successful <= i,
        decreases count - i,
    {
        let end = ends.remove(0);
        proof {
            assert(end == all[i as int]);
            assert(all.skip(i as int).remove(0) == all.skip(i + 1));
        }
        let measurement = match end {
            ProbeEnd::Attempted { timing, attempt } => {
                build_measurement(round, timing, &probes[i], attempt)
            },
            ProbeEnd::Broken { now, reason } => {
                let made = internal_failure(round, &probes[i], now, &reason);
                proof {
                    assert(tells_end(
                        made.event,
                        *round,
                        probes@[i as int],
                        (ProbeEnd::Broken { now, reason }),
                    ));
                }
                made
            },
        };
        if measurement.success {
            successful += 1;
        }
        events.push(measurement.event);
        i += 1;
    }
    PingRoundReport {
        events,
        successful_targets: successful,
        failed_targets: count - successful,
    }
}

/// A round of which every target answered, and no other, ends in success.
pub proof fn law_round_succeeds_if_every_target_answers(
    report: PingRoundReport,
    round: PingRoundRequest,
    probes: Seq<ProbeRequest>,
    ends: Seq<ProbeEnd>,
)
    requires
        probes.len() == ends.len(),
        reports_round(report, round, probes, ends),
    ensures
        report.failed_targets == 0 <==> forall|i: int|
            0 <= i < ends.len() ==> #[trigger] end_success(probes[i], ends[i]),
{
    lemma_answered(probes, ends, ends.len() as int);
}

proof fn lemma_answered(probes: Seq<ProbeRequest>, ends: Seq<ProbeEnd>, n: int)
    requires
        0 <= n <= ends.len(),
        probes.len() == ends.len(),
    ensures
        answered(probes, ends, n) <= n,
        answered(probes, ends, n) == n <==> forall|i: int|
            0 <= i < n ==> #[trigger] end_success(probes[i], ends[i]),
    decreases n,
{
    if n > 0 {
        lemma_answered(probes, ends, n - 1);
        if answered(probes, ends, n) == n {
            assert forall|i: int| 0 <= i < n implies #[trigger] end_success(probes[i], ends[i]) by {
                if i < n - 1 {
                    assert(end_success(probes[i], ends[i]));
                }
            }
        }
    }
}

} // verus!
