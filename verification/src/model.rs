//! The event record that every measurement and decision is written down in.
use crate::endpoint::parsed_url;
use crate::sanitize::{sanitized, sanitized_endpoint};
use crate::text::{clone_text, text_view};
use crate::time::{Timestamp, UtcDate};
use vstd::prelude::*;

pub use crate::scalar::Scalar;
pub use crate::sanitize::{sanitize_endpoint, sanitize_message};
pub use crate::time::timestamp_text;

verus! {

pub const SCHEMA_VERSION: u8 = 1;

/// An internet address.
#[derive(Clone, Copy, Debug, PartialEq, Eq, PartialOrd, Ord, Hash, Structural)]
pub enum IpAddr {
    V4(u32),
    V6(u128),
}

/// An identifier that is marked as random: version four of the standard variant.
pub open spec fn marked_random(id: u128) -> bool {
    (id >> 76u128) & 0xf == 4 && (id >> 62u128) & 0x3 == 2
}

/// `uuid::Uuid::new_v4`: a random identifier, marked as such. Nothing else is claimed of its
/// value.
#[verifier::external_body]
fn random_id() -> (id: u128)
    ensures
        marked_random(id),
{
    uuid::Uuid::new_v4().as_u128()
}

/// What `uuid` writes an identifier as.
pub uninterp spec fn id_text(id: u128) -> Seq<char>;

/// What identifier `uuid` reads in a text.
pub uninterp spec fn parsed_id(text: Seq<char>) -> Option<u128>;

/// `uuid::Uuid::to_string`: the hyphenated text of the identifier, which `uuid::Uuid::parse_str`
/// reads back as the same identifier.
#[verifier::external_body]
fn render_id(id: u128) -> (text: String)
    ensures
        text@ == id_text(id),
        parsed_id(text@) == Some(id),
{
    uuid::Uuid::from_u128(id).to_string()
}

/// `uuid::Uuid::parse_str`: the identifier a text names, if it names one.
#[verifier::external_body]
fn read_id(text: &str) -> (id: Option<u128>)
    ensures
        id == parsed_id(text@),
{
    uuid::Uuid::parse_str(text).ok().map(|id| id.as_u128())
}

/// Identifies a run.
#[derive(Clone, Copy, Debug, PartialEq, Eq, PartialOrd, Ord, Hash, Structural)]
pub struct RunId {
    pub value: u128,
}

impl RunId {
    /// A fresh random identifier.
    pub fn new() -> (id: Self)
        ensures
            marked_random(id.value),
    {
        RunId { value: random_id() }
    }

    /// The identifier in its hyphenated form. Reading the text gives the identifier back.
    pub fn text(&self) -> (text: String)
        ensures
            text@ == id_text(self.value),
            parsed_id(text@) == Some(self.value),
    {
        render_id(self.value)
    }

    pub fn parse(text: &str) -> (id: Option<RunId>)
        ensures
            id == (match parsed_id(text@) {
                Some(value) => Some(RunId { value }),
                None => None,
            }),
    {
        match read_id(text) {
            Some(value) => Some(RunId { value }),
            None => None,
        }
    }
}

/// Identifies an event.
#[derive(Clone, Copy, Debug, PartialEq, Eq, PartialOrd, Ord, Hash, Structural)]
pub struct EventId {
    pub value: u128,
}

impl EventId {
    /// A fresh random identifier.
    pub fn new() -> (id: Self)
        ensures
            marked_random(id.value),
    {
        EventId { value: random_id() }
    }

    /// The identifier in its hyphenated form. Reading the text gives the identifier back.
    pub fn text(&self) -> (text: String)
        ensures
            text@ == id_text(self.value),
            parsed_id(text@) == Some(self.value),
    {
        render_id(self.value)
    }

    pub fn parse(text: &str) -> (id: Option<EventId>)
        ensures
            id == (match parsed_id(text@) {
                Some(value) => Some(EventId { value }),
                None => None,
            }),
    {
        match read_id(text) {
            Some(value) => Some(EventId { value }),
            None => None,
        }
    }
}

/// Identifies a request.
#[derive(Clone, Copy, Debug, PartialEq, Eq, PartialOrd, Ord, Hash, Structural)]
pub struct RequestId {
    pub value: u128,
}

impl RequestId {
    /// A fresh random identifier.
    pub fn new() -> (id: Self)
        ensures
            marked_random(id.value),
    {
        RequestId { value: random_id() }
    }

    /// The identifier in its hyphenated form. Reading the text gives the identifier back.
    pub fn text(&self) -> (text: String)
        ensures
            text@ == id_text(self.value),
            parsed_id(text@) == Some(self.value),
    {
        render_id(self.value)
    }

    pub fn parse(text: &str) -> (id: Option<RequestId>)
        ensures
            id == (match parsed_id(text@) {
                Some(value) => Some(RequestId { value }),
                None => None,
            }),
    {
        match read_id(text) {
            Some(value) => Some(RequestId { value }),
            None => None,
        }
    }
}

/// What kind of run an event belongs to.
#[derive(Clone, Copy, Debug, PartialEq, Eq, Structural)]
pub enum RunKind {
    Session,
    PingRound,
    Bandwidth,
}

/// What the scheduler did.
#[derive(Clone, Copy, Debug, PartialEq, Eq, Structural)]
pub enum SchedulerAction {
    TriggerPending,
    TriggerMergedWithDeferred,
    TriggerCancelled,
    TriggerExpired,
    DeferredExpired,
    BandwidthStart,
    RateLimit,
    ClockRollback,
    Suppressed,
    Deferred,
    InterfaceRecovered,
    InterfaceRetry,
    BandwidthSuppressed,
    BandwidthInterfaceSkipped,
}

/// Why the scheduler did it.
#[derive(Clone, Copy, Debug, PartialEq, Eq, Structural)]
pub enum SchedulerReason {
    HealthDegraded,
    HealthRecovered,
    TriggerTtlExpired,
    DayLimit,
    AttemptLimit,
    OpportunityReady,
    ProviderRateLimit,
    ClockRollback,
    DailyCap,
    ProviderCooldown,
    MinimumSpacing,
    InterfaceAvailable,
    InterfaceUnavailable,
    TriggerInterfaceMissing,
    TriggerInterfaceBackoff,
    TriggerInterfaceUnavailable,
    NoHealthyInterface,
}

/// What an event records.
#[derive(Clone, Copy, Debug, PartialEq, Eq, Structural)]
pub enum EventKind {
    RunStarted,
    RunFinished,
    PingProbe,
    Bandwidth,
    RequestFailure,
    Scheduler,
}

/// How the recorded work ended.
#[derive(Clone, Copy, Debug, PartialEq, Eq, Structural)]
pub enum Outcome {
    Started,
    Success,
    Partial,
    Timeout,
    Unreachable,
    PermissionDenied,
    Cancelled,
    Error,
    NoCapacity,
    RateLimited,
    Scheduled,
    Rescheduled,
    Deferred,
    Suppressed,
    Expired,
}

/// Why a bandwidth test was asked for.
#[derive(Clone, Copy, Debug, PartialEq, Eq, Structural)]
pub enum TriggerReason {
    Scheduled,
    PingLoss,
    PingRtt,
    Manual,
}

/// The bandwidth phase that was active.
#[derive(Clone, Copy, Debug, PartialEq, Eq, Structural)]
pub enum LoadPhase {
    Setup,
    Download,
    Upload,
}

/// The kind of bandwidth provider.
#[derive(Clone, Copy, Debug, PartialEq, Eq, Structural)]
pub enum ProviderKind {
    Mlab,
    Direct,
}

/// Which way a request moves data.
#[derive(Clone, Copy, Debug, PartialEq, Eq, Structural)]
pub enum RequestDirection {
    Download,
    Upload,
}

/// How far a request had come.
#[derive(Clone, Copy, Debug, PartialEq, Eq, Structural)]
pub enum RequestStage {
    Locate,
    Dns,
    Connect,
    Tls,
    WebsocketHandshake,
    Download,
    Upload,
}

/// The class of a failure.
#[derive(Clone, Copy, Debug, PartialEq, Eq, Structural)]
pub enum ErrorKind {
    IcmpTimeout,
    IcmpUnreachable,
    PermissionDenied,
    Dns,
    Connect,
    Tls,
    HttpStatus,
    WebsocketHandshake,
    DownloadFailed,
    UploadFailed,
    ProviderCooldown,
    DailyCap,
    Cancelled,
    Timeout,
    Io,
    Protocol,
    Internal,
}

/// One line of the journal.
#[derive(Debug, PartialEq)]
pub struct MeasurementEvent {
    // Event and run identity.
    pub schema_version: u8,
    pub event_id: EventId,
    pub event_kind: EventKind,
    pub event_sequence: Option<u64>,
    pub run_id: RunId,
    pub parent_run_id: Option<RunId>,
    pub root_run_id: RunId,
    pub run_kind: RunKind,
    // Timing.
    pub scheduled_at_utc: Option<Timestamp>,
    pub requested_at_utc: Option<Timestamp>,
    pub started_at_utc: Option<Timestamp>,
    pub finished_at_utc: Option<Timestamp>,
    pub elapsed_ms: Option<Scalar>,
    // Result and explanation.
    pub outcome: Outcome,
    pub message: Option<String>,
    // Session provenance.
    pub command: Option<String>,
    pub netband_version: Option<String>,
    pub process_id: Option<u32>,
    // Shared network context.
    pub interface: Option<String>,
    pub connection_details: Option<String>,
    // Provider context.
    pub provider_id: Option<String>,
    pub provider_kind: Option<ProviderKind>,
    pub server_name: Option<String>,
    // Scheduling and accounting.
    pub scheduler_action: Option<SchedulerAction>,
    pub scheduler_reason: Option<SchedulerReason>,
    pub trigger_reason: Option<TriggerReason>,
    pub scheduler_not_before_utc: Option<Timestamp>,
    pub provider_accounting_date: Option<UtcDate>,
    pub provider_daily_starts: Option<u32>,
    pub bandwidth_start_reserved: Option<bool>,
    // Ping.
    pub ping_target_ip: Option<String>,
    pub ping_local_ip: Option<IpAddr>,
    pub ping_sequence: Option<u16>,
    pub ping_packets_sent: Option<u32>,
    pub ping_packets_received: Option<u32>,
    pub ping_rtt_ms: Option<Scalar>,
    pub ping_icmp_type: Option<u8>,
    pub ping_icmp_code: Option<u8>,
    // Concurrent load.
    pub load_run_id: Option<RunId>,
    pub load_phase: Option<LoadPhase>,
    // Request.
    pub request_id: Option<RequestId>,
    pub request_direction: Option<RequestDirection>,
    pub request_stage: Option<RequestStage>,
    /// The how many of its kind a request was.
    pub request_attempt: Option<u32>,
    pub request_url: Option<String>,
    pub request_local_ip: Option<IpAddr>,
    pub request_remote_ip: Option<IpAddr>,
    pub request_http_status: Option<u16>,
    pub request_retry_after_ms: Option<u64>,
    pub request_retry_at_utc: Option<Timestamp>,
    // Download.
    pub download_request_id: Option<RequestId>,
    pub download_local_ip: Option<IpAddr>,
    pub download_remote_ip: Option<IpAddr>,
    pub download_bytes: Option<u64>,
    pub download_measurement_duration_ms: Option<Scalar>,
    pub download_mbps: Option<Scalar>,
    pub download_server_tcp_min_rtt_ms: Option<Scalar>,
    pub download_server_tcp_rtt_ms: Option<Scalar>,
    pub download_server_tcp_retransmitted_bytes: Option<u64>,
    // Upload.
    pub upload_request_id: Option<RequestId>,
    pub upload_local_ip: Option<IpAddr>,
    pub upload_remote_ip: Option<IpAddr>,
    pub upload_bytes: Option<u64>,
    pub upload_measurement_duration_ms: Option<Scalar>,
    pub upload_mbps: Option<Scalar>,
    pub upload_server_tcp_min_rtt_ms: Option<Scalar>,
    pub upload_server_tcp_rtt_ms: Option<Scalar>,
    pub upload_server_tcp_retransmitted_bytes: Option<u64>,
    // Error details.
    pub error_kind: Option<ErrorKind>,
    pub os_error_code: Option<i32>,
}

/// The kind of run that events of a kind belong to.
pub open spec fn run_kind_of(event_kind: EventKind) -> RunKind {
    match event_kind {
        EventKind::PingProbe => RunKind::PingRound,
        EventKind::Bandwidth | EventKind::RequestFailure => RunKind::Bandwidth,
        _ => RunKind::Session,
    }
}

/// A new event: its identity, kind, outcome and finishing time are set and nothing else is.
pub open spec fn blank_event(
    event_id: EventId,
    run_id: RunId,
    event_kind: EventKind,
    outcome: Outcome,
    finished_at_utc: Timestamp,
) -> MeasurementEvent {
    MeasurementEvent {
        schema_version: SCHEMA_VERSION,
        event_id,
        event_kind,
        event_sequence: None,
        run_id,
        parent_run_id: None,
        root_run_id: run_id,
        run_kind: run_kind_of(event_kind),
        scheduled_at_utc: None,
        requested_at_utc: None,
        started_at_utc: None,
        finished_at_utc: Some(finished_at_utc),
        elapsed_ms: None,
        outcome,
        message: None,
        command: None,
        netband_version: None,
        process_id: None,
        interface: None,
        connection_details: None,
        provider_id: None,
        provider_kind: None,
        server_name: None,
        scheduler_action: None,
        scheduler_reason: None,
        trigger_reason: None,
        scheduler_not_before_utc: None,
        provider_accounting_date: None,
        provider_daily_starts: None,
        bandwidth_start_reserved: None,
        ping_target_ip: None,
        ping_local_ip: None,
        ping_sequence: None,
        ping_packets_sent: None,
        ping_packets_received: None,
        ping_rtt_ms: None,
        ping_icmp_type: None,
        ping_icmp_code: None,
        load_run_id: None,
        load_phase: None,
        request_id: None,
        request_direction: None,
        request_stage: None,
        request_attempt: None,
        request_url: None,
        request_local_ip: None,
        request_remote_ip: None,
        request_http_status: None,
        request_retry_after_ms: None,
        request_retry_at_utc: None,
        download_request_id: None,
        download_local_ip: None,
        download_remote_ip: None,
        download_bytes: None,
        download_measurement_duration_ms: None,
        download_mbps: None,
        download_server_tcp_min_rtt_ms: None,
        download_server_tcp_rtt_ms: None,
        download_server_tcp_retransmitted_bytes: None,
        upload_request_id: None,
        upload_local_ip: None,
        upload_remote_ip: None,
        upload_bytes: None,
        upload_measurement_duration_ms: None,
        upload_mbps: None,
        upload_server_tcp_min_rtt_ms: None,
        upload_server_tcp_rtt_ms: None,
        upload_server_tcp_retransmitted_bytes: None,
        error_kind: None,
        os_error_code: None,
    }
}

impl MeasurementEvent {
    pub fn new(
        run_id: RunId,
        event_kind: EventKind,
        outcome: Outcome,
        finished_at_utc: Timestamp,
    ) -> (event: Self)
        ensures
            event == blank_event(event.event_id, run_id, event_kind, outcome, finished_at_utc),
    {
        let run_kind = match event_kind {
            EventKind::PingProbe => RunKind::PingRound,
            EventKind::Bandwidth | EventKind::RequestFailure => RunKind::Bandwidth,
            _ => RunKind::Session,
        };
        MeasurementEvent {
            schema_version: SCHEMA_VERSION,
            event_id: EventId::new(),
            event_kind,
            event_sequence: None,
            run_id,
            parent_run_id: None,
            root_run_id: run_id,
            run_kind,
            scheduled_at_utc: None,
            requested_at_utc: None,
            started_at_utc: None,
            finished_at_utc: Some(finished_at_utc),
            elapsed_ms: None,
            outcome,
            message: None,
            command: None,
            netband_version: None,
            process_id: None,
            interface: None,
            connection_details: None,
            provider_id: None,
            provider_kind: None,
            server_name: None,
            scheduler_action: None,
            scheduler_reason: None,
            trigger_reason: None,
            scheduler_not_before_utc: None,
            provider_accounting_date: None,
            provider_daily_starts: None,
            bandwidth_start_reserved: None,
            ping_target_ip: None,
            ping_local_ip: None,
            ping_sequence: None,
            ping_packets_sent: None,
            ping_packets_received: None,
            ping_rtt_ms: None,
            ping_icmp_type: None,
            ping_icmp_code: None,
            load_run_id: None,
            load_phase: None,
            request_id: None,
            request_direction: None,
            request_stage: None,
            request_attempt: None,
            request_url: None,
            request_local_ip: None,
            request_remote_ip: None,
            request_http_status: None,
            request_retry_after_ms: None,
            request_retry_at_utc: None,
            download_request_id: None,
            download_local_ip: None,
            download_remote_ip: None,
            download_bytes: None,
            download_measurement_duration_ms: None,
            download_mbps: None,
            download_server_tcp_min_rtt_ms: None,
            download_server_tcp_rtt_ms: None,
            download_server_tcp_retransmitted_bytes: None,
            upload_request_id: None,
            upload_local_ip: None,
            upload_remote_ip: None,
            upload_bytes: None,
            upload_measurement_duration_ms: None,
            upload_mbps: None,
            upload_server_tcp_min_rtt_ms: None,
            upload_server_tcp_rtt_ms: None,
            upload_server_tcp_retransmitted_bytes: None,
            error_kind: None,
            os_error_code: None,
        }
    }
}

/// What may be written down of an event.
pub open spec fn sanitized_copy(event: MeasurementEvent, copy: MeasurementEvent) -> bool {
    &&& copy == (MeasurementEvent {
        server_name: copy.server_name,
        request_url: copy.request_url,
        message: copy.message,
        ..event
    })
    &&& text_view(copy.server_name) == (match event.server_name {
        Some(name) => Some(sanitized(name@)),
        None => None,
    })
    &&& text_view(copy.request_url) == (match event.request_url {
        Some(url) => Some(sanitized_endpoint(url@, parsed_url(url@))),
        None => None,
    })
    &&& text_view(copy.message) == (match event.message {
        Some(message) => Some(sanitized(message@)),
        None => None,
    })
}

impl MeasurementEvent {
    /// The event without secrets.
    pub fn sanitized(&self) -> (copy: Self)
        ensures
            sanitized_copy(*self, copy),
    {
        let mut event = self.clone();
        event.server_name = match &self.server_name {
            Some(name) => Some(sanitize_message(name)),
            None => None,
        };
        event.request_url = match &self.request_url {
            Some(url) => Some(sanitize_endpoint(url)),
            None => None,
        };
        event.message = match &self.message {
            Some(message) => Some(sanitize_message(message)),
            None => None,
        };
        event
    }
}

impl Clone for MeasurementEvent {
    fn clone(&self) -> (copy: Self)
        ensures
            copy == *self,
    {
        MeasurementEvent {
            schema_version: self.schema_version,
            event_id: self.event_id,
            event_kind: self.event_kind,
            event_sequence: self.event_sequence,
            run_id: self.run_id,
            parent_run_id: self.parent_run_id,
            root_run_id: self.root_run_id,
            run_kind: self.run_kind,
            scheduled_at_utc: self.scheduled_at_utc,
            requested_at_utc: self.requested_at_utc,
            started_at_utc: self.started_at_utc,
            finished_at_utc: self.finished_at_utc,
            elapsed_ms: self.elapsed_ms,
            outcome: self.outcome,
            message: clone_text(&self.message),
            command: clone_text(&self.command),
            netband_version: clone_text(&self.netband_version),
            process_id: self.process_id,
            interface: clone_text(&self.interface),
            connection_details: clone_text(&self.connection_details),
            provider_id: clone_text(&self.provider_id),
            provider_kind: self.provider_kind,
            server_name: clone_text(&self.server_name),
            scheduler_action: self.scheduler_action,
            scheduler_reason: self.scheduler_reason,
            trigger_reason: self.trigger_reason,
            scheduler_not_before_utc: self.scheduler_not_before_utc,
            provider_accounting_date: self.provider_accounting_date,
            provider_daily_starts: self.provider_daily_starts,
            bandwidth_start_reserved: self.bandwidth_start_reserved,
            ping_target_ip: clone_text(&self.ping_target_ip),
            ping_local_ip: self.ping_local_ip,
            ping_sequence: self.ping_sequence,
            ping_packets_sent: self.ping_packets_sent,
            ping_packets_received: self.ping_packets_received,
            ping_rtt_ms: self.ping_rtt_ms,
            ping_icmp_type: self.ping_icmp_type,
            ping_icmp_code: self.ping_icmp_code,
            load_run_id: self.load_run_id,
            load_phase: self.load_phase,
            request_id: self.request_id,
            request_direction: self.request_direction,
            request_stage: self.request_stage,
            request_attempt: self.request_attempt,
            request_url: clone_text(&self.request_url),
            request_local_ip: self.request_local_ip,
            request_remote_ip: self.request_remote_ip,
            request_http_status: self.request_http_status,
            request_retry_after_ms: self.request_retry_after_ms,
            request_retry_at_utc: self.request_retry_at_utc,
            download_request_id: self.download_request_id,
            download_local_ip: self.download_local_ip,
            download_remote_ip: self.download_remote_ip,
            download_bytes: self.download_bytes,
            download_measurement_duration_ms: self.download_measurement_duration_ms,
            download_mbps: self.download_mbps,
            download_server_tcp_min_rtt_ms: self.download_server_tcp_min_rtt_ms,
            download_server_tcp_rtt_ms: self.download_server_tcp_rtt_ms,
            download_server_tcp_retransmitted_bytes: self.download_server_tcp_retransmitted_bytes,
            upload_request_id: self.upload_request_id,
            upload_local_ip: self.upload_local_ip,
            upload_remote_ip: self.upload_remote_ip,
            upload_bytes: self.upload_bytes,
            upload_measurement_duration_ms: self.upload_measurement_duration_ms,
            upload_mbps: self.upload_mbps,
            upload_server_tcp_min_rtt_ms: self.upload_server_tcp_min_rtt_ms,
            upload_server_tcp_rtt_ms: self.upload_server_tcp_rtt_ms,
            upload_server_tcp_retransmitted_bytes: self.upload_server_tcp_retransmitted_bytes,
            error_kind: self.error_kind,
            os_error_code: self.os_error_code,
        }
    }
}

} // verus!
