//! What a new event says, and what is left of one without secrets.
use crate::model::{EventKind, MeasurementEvent, Outcome, RunId, RunKind};
use crate::sanitize::sanitized;
use crate::time::Timestamp;
use vstd::prelude::*;

verus! {

/// Nothing was measured, asked for or gone wrong yet.
pub open spec fn says_no_more(event: MeasurementEvent) -> bool {
    &&& event.event_sequence is None
    &&& event.parent_run_id is None
    &&& event.scheduled_at_utc is None
    &&& event.requested_at_utc is None
    &&& event.started_at_utc is None
    &&& event.elapsed_ms is None
    &&& event.message is None
    &&& event.command is None
    &&& event.netband_version is None
    &&& event.process_id is None
    &&& event.interface is None
    &&& event.connection_details is None
    &&& event.provider_id is None
    &&& event.provider_kind is None
    &&& event.server_name is None
    &&& event.scheduler_action is None
    &&& event.scheduler_reason is None
    &&& event.trigger_reason is None
    &&& event.scheduler_not_before_utc is None
    &&& event.provider_accounting_date is None
    &&& event.provider_daily_starts is None
    &&& event.bandwidth_start_reserved is None
    &&& event.ping_target_ip is None
    &&& event.ping_local_ip is None
    &&& event.ping_sequence is None
    &&& event.ping_packets_sent is None
    &&& event.ping_packets_received is None
    &&& event.ping_rtt_ms is None
    &&& event.ping_icmp_type is None
    &&& event.ping_icmp_code is None
    &&& event.load_run_id is None
    &&& event.load_phase is None
    &&& event.request_id is None
    &&& event.request_direction is None
    &&& event.request_stage is None
    &&& event.request_attempt is None
    &&& event.request_url is None
    &&& event.request_local_ip is None
    &&& event.request_remote_ip is None
    &&& event.request_http_status is None
    &&& event.request_retry_after_ms is None
    &&& event.request_retry_at_utc is None
    &&& event.download_request_id is None
    &&& event.download_local_ip is None
    &&& event.download_remote_ip is None
    &&& event.download_bytes is None
    &&& event.download_measurement_duration_ms is None
    &&& event.download_mbps is None
    &&& event.download_server_tcp_min_rtt_ms is None
    &&& event.download_server_tcp_rtt_ms is None
    &&& event.download_server_tcp_retransmitted_bytes is None
    &&& event.upload_request_id is None
    &&& event.upload_local_ip is None
    &&& event.upload_remote_ip is None
    &&& event.upload_bytes is None
    &&& event.upload_measurement_duration_ms is None
    &&& event.upload_mbps is None
    &&& event.upload_server_tcp_min_rtt_ms is None
    &&& event.upload_server_tcp_rtt_ms is None
    &&& event.upload_server_tcp_retransmitted_bytes is None
    &&& event.error_kind is None
    &&& event.os_error_code is None
}

/// A new event says which run it is of, what it records, how that ended and when, and nothing
/// more. Its run is its own root, and is a round of probes, a bandwidth test or a session as what
/// it records is part of one.
pub proof fn law_new_event_says_no_more(
    run_id: RunId,
    event_kind: EventKind,
    outcome: Outcome,
    finished_at_utc: Timestamp,
    event: MeasurementEvent,
)
    requires
        call_ensures(MeasurementEvent::new, (run_id, event_kind, outcome, finished_at_utc), event),
    ensures
        event.schema_version == 1,
        event.run_id == run_id,
        event.root_run_id == run_id,
        event.event_kind == event_kind,
        event.outcome == outcome,
        event.finished_at_utc == Some(finished_at_utc),
        event.run_kind == RunKind::PingRound <==> event_kind == EventKind::PingProbe,
        event.run_kind == RunKind::Bandwidth <==> event_kind == EventKind::Bandwidth || event_kind
            == EventKind::RequestFailure,
        event.run_kind == RunKind::Session <==> event_kind == EventKind::RunStarted || event_kind
            == EventKind::RunFinished || event_kind == EventKind::Scheduler,
        says_no_more(event),
{
}

/// Everything but the texts that can hold a secret is the same.
pub open spec fn same_but_for_texts(one: MeasurementEvent, other: MeasurementEvent) -> bool {
    &&& one.schema_version == other.schema_version
    &&& one.event_id == other.event_id
    &&& one.event_kind == other.event_kind
    &&& one.event_sequence == other.event_sequence
    &&& one.run_id == other.run_id
    &&& one.parent_run_id == other.parent_run_id
    &&& one.root_run_id == other.root_run_id
    &&& one.run_kind == other.run_kind
    &&& one.scheduled_at_utc == other.scheduled_at_utc
    &&& one.requested_at_utc == other.requested_at_utc
    &&& one.started_at_utc == other.started_at_utc
    &&& one.finished_at_utc == other.finished_at_utc
    &&& one.elapsed_ms == other.elapsed_ms
    &&& one.outcome == other.outcome
    &&& one.command == other.command
    &&& one.netband_version == other.netband_version
    &&& one.process_id == other.process_id
    &&& one.interface == other.interface
    &&& one.connection_details == other.connection_details
    &&& one.provider_id == other.provider_id
    &&& one.provider_kind == other.provider_kind
    &&& one.scheduler_action == other.scheduler_action
    &&& one.scheduler_reason == other.scheduler_reason
    &&& one.trigger_reason == other.trigger_reason
    &&& one.scheduler_not_before_utc == other.scheduler_not_before_utc
    &&& one.provider_accounting_date == other.provider_accounting_date
    &&& one.provider_daily_starts == other.provider_daily_starts
    &&& one.bandwidth_start_reserved == other.bandwidth_start_reserved
    &&& one.ping_target_ip == other.ping_target_ip
    &&& one.ping_local_ip == other.ping_local_ip
    &&& one.ping_sequence == other.ping_sequence
    &&& one.ping_packets_sent == other.ping_packets_sent
    &&& one.ping_packets_received == other.ping_packets_received
    &&& one.ping_rtt_ms == other.ping_rtt_ms
    &&& one.ping_icmp_type == other.ping_icmp_type
    &&& one.ping_icmp_code == other.ping_icmp_code
    &&& one.load_run_id == other.load_run_id
    &&& one.load_phase == other.load_phase
    &&& one.request_id == other.request_id
    &&& one.request_direction == other.request_direction
    &&& one.request_stage == other.request_stage
    &&& one.request_attempt == other.request_attempt
    &&& one.request_local_ip == other.request_local_ip
    &&& one.request_remote_ip == other.request_remote_ip
    &&& one.request_http_status == other.request_http_status
    &&& one.request_retry_after_ms == other.request_retry_after_ms
    &&& one.request_retry_at_utc == other.request_retry_at_utc
    &&& one.download_request_id == other.download_request_id
    &&& one.download_local_ip == other.download_local_ip
    &&& one.download_remote_ip == other.download_remote_ip
    &&& one.download_bytes == other.download_bytes
    &&& one.download_measurement_duration_ms == other.download_measurement_duration_ms
    &&& one.download_mbps == other.download_mbps
    &&& one.download_server_tcp_min_rtt_ms == other.download_server_tcp_min_rtt_ms
    &&& one.download_server_tcp_rtt_ms == other.download_server_tcp_rtt_ms
    &&& one.download_server_tcp_retransmitted_bytes == other.download_server_tcp_retransmitted_bytes
    &&& one.upload_request_id == other.upload_request_id
    &&& one.upload_local_ip == other.upload_local_ip
    &&& one.upload_remote_ip == other.upload_remote_ip
    &&& one.upload_bytes == other.upload_bytes
    &&& one.upload_measurement_duration_ms == other.upload_measurement_duration_ms
    &&& one.upload_mbps == other.upload_mbps
    &&& one.upload_server_tcp_min_rtt_ms == other.upload_server_tcp_min_rtt_ms
    &&& one.upload_server_tcp_rtt_ms == other.upload_server_tcp_rtt_ms
    &&& one.upload_server_tcp_retransmitted_bytes == other.upload_server_tcp_retransmitted_bytes
    &&& one.error_kind == other.error_kind
    &&& one.os_error_code == other.os_error_code
}

/// An event without secrets has its message, its server and its URL made safe, and nothing else
/// of it is changed.
pub proof fn law_only_texts_are_made_safe(event: MeasurementEvent, copy: MeasurementEvent)
    requires
        call_ensures(MeasurementEvent::sanitized, (&event,), copy),
    ensures
        same_but_for_texts(copy, event),
        copy.message is Some <==> event.message is Some,
        copy.message is Some ==> copy.message->0@ == sanitized(event.message->0@),
        copy.server_name is Some <==> event.server_name is Some,
        copy.server_name is Some ==> copy.server_name->0@ == sanitized(event.server_name->0@),
        copy.request_url is Some <==> event.request_url is Some,
{
}

} // verus!
