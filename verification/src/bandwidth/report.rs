//! What is written down of a bandwidth test.
use super::{AdmissionReservation, BandwidthReport, DirectionMeasurement, TcpMetrics, no_metrics};
use crate::config::{BandwidthConfig, ProviderConfig};
use crate::endpoint::parsed_url;
use crate::model::{
    ErrorKind, EventKind, MeasurementEvent, Outcome, ProviderKind, RequestStage, RunId,
    TriggerReason, blank_event,
};
use crate::provider::{FailureView, RequestFailure, RetryAfter, failure_views, plain_failure};
use crate::sanitize::{sanitized, sanitized_endpoint};
use crate::scalar::Scalar;
use crate::text::{clone_text, text_view};
use crate::time::{Timestamp, MIN_UTC_NANOS};
use vstd::prelude::*;

verus! {

/// What a test came to, before it is written down. `total_ms` is the time that both directions
/// took.
pub struct ReportInput {
    pub run_id: RunId,
    pub interface: Option<String>,
    pub provider_id: String,
    pub provider_kind: ProviderKind,
    pub server: Option<String>,
    pub failures: Vec<RequestFailure>,
    pub download: Option<DirectionMeasurement>,
    pub upload: Option<DirectionMeasurement>,
    pub total_ms: Scalar,
    pub outcome: Outcome,
    pub now: Timestamp,
}

/// The delay that a server asked for, in milliseconds.
pub open spec fn delay_millis(retry: Option<RetryAfter>) -> Option<u64> {
    match retry {
        Some(retry) => if retry.delay.nanos / 1_000_000 <= u64::MAX {
            Some((retry.delay.nanos / 1_000_000) as u64)
        } else {
            None
        },
        None => None,
    }
}

/// When a server wants to be asked again.
pub open spec fn retry_deadline(retry: Option<RetryAfter>) -> Option<Timestamp> {
    match retry {
        Some(retry) => Some(retry.deadline),
        None => None,
    }
}

/// The event that tells of a failure. Secrets are masked in it.
pub open spec fn tells_failure(
    event: MeasurementEvent,
    run_id: RunId,
    interface: Option<Seq<char>>,
    provider_id: Seq<char>,
    provider_kind: ProviderKind,
    failure: FailureView,
) -> bool {
    &&& event == (MeasurementEvent {
        started_at_utc: Some(failure.started_at_utc),
        message: event.message,
        interface: event.interface,
        provider_id: event.provider_id,
        provider_kind: Some(provider_kind),
        server_name: event.server_name,
        request_stage: Some(failure.stage),
        request_attempt: Some(failure.attempt),
        request_url: event.request_url,
        request_local_ip: failure.local_ip,
        request_remote_ip: failure.remote_ip,
        request_http_status: failure.http_status,
        request_retry_after_ms: delay_millis(failure.retry_after),
        request_retry_at_utc: retry_deadline(failure.retry_after),
        error_kind: Some(failure.error_kind),
        os_error_code: failure.os_error_code,
        ..blank_event(
            event.event_id,
            run_id,
            EventKind::RequestFailure,
            failure.outcome,
            failure.finished_at_utc,
        )
    })
    &&& text_view(event.interface) == interface
    &&& text_view(event.provider_id) == Some(provider_id)
    &&& text_view(event.server_name) == (match failure.server_name {
        Some(name) => Some(sanitized(name)),
        None => None,
    })
    &&& text_view(event.request_url) == (match failure.request_url {
        Some(url) => Some(sanitized_endpoint(url, parsed_url(url))),
        None => None,
    })
    &&& text_view(event.message) == Some(sanitized(failure.message))
}

/// Tells of a failure.
pub fn failure_event(
    run_id: RunId,
    interface: &Option<String>,
    provider_id: &str,
    provider_kind: ProviderKind,
    failure: &RequestFailure,
) -> (event: MeasurementEvent)
    ensures
        tells_failure(
            event,
            run_id,
            text_view(*interface),
            provider_id@,
            provider_kind,
            failure@,
        ),
{
    let mut event = MeasurementEvent::new(
        run_id,
        EventKind::RequestFailure,
        failure.outcome,
        failure.finished_at_utc,
    );
    event.started_at_utc = Some(failure.started_at_utc);
    event.interface = clone_text(interface);
    event.provider_id = Some(provider_id.to_owned());
    event.provider_kind = Some(provider_kind);
    event.server_name = clone_text(&failure.server_name);
    event.request_url = clone_text(&failure.request_url);
    event.request_local_ip = failure.local_ip;
    event.request_remote_ip = failure.remote_ip;
    event.request_stage = Some(failure.stage);
    event.request_attempt = Some(failure.attempt);
    event.request_http_status = failure.http_status;
    match failure.retry_after {
        Some(retry) => {
            let millis: u128 = retry.delay.nanos / 1_000_000;
            if millis <= u64::MAX as u128 {
                event.request_retry_after_ms = Some(millis as u64);
            }
            event.request_retry_at_utc = Some(retry.deadline);
        },
        None => {},
    }
    event.error_kind = Some(failure.error_kind);
    event.os_error_code = failure.os_error_code;
    event.message = Some(failure.message.clone());
    event.sanitized()
}

/// The measurement that was taken first.
pub open spec fn first_measurement(
    download: Option<DirectionMeasurement>,
    upload: Option<DirectionMeasurement>,
) -> Option<DirectionMeasurement> {
    match download {
        Some(measurement) => Some(measurement),
        None => upload,
    }
}

/// When the test began to measure.
pub open spec fn measuring_since(input: ReportInput) -> Option<Timestamp> {
    match first_measurement(input.download, input.upload) {
        Some(measurement) => Some(
            Timestamp { nanos: (input.now.nanos - measurement.elapsed.nanos) as i128 },
        ),
        None => None,
    }
}

/// A test that began when there were dates.
pub open spec fn datable(input: ReportInput) -> bool {
    &&& input.now.valid()
    &&& match first_measurement(input.download, input.upload) {
        Some(measurement) => input.now.nanos - measurement.elapsed.nanos >= MIN_UTC_NANOS,
        None => true,
    }
}

/// What one direction tells, if it was measured.
pub open spec fn metrics_of(direction: Option<DirectionMeasurement>) -> TcpMetrics {
    match direction {
        Some(measurement) => measurement.metrics,
        None => no_metrics(),
    }
}

/// The event that tells what a test came to.
pub open spec fn tells_result(event: MeasurementEvent, input: ReportInput) -> bool {
    let down = input.download;
    let up = input.upload;
    let last = input.failures@.last();
    let failed = input.outcome != Outcome::Success && input.failures@.len() > 0;
    &&& event == (MeasurementEvent {
        started_at_utc: measuring_since(input),
        elapsed_ms: Some(input.total_ms),
        message: event.message,
        interface: event.interface,
        provider_id: event.provider_id,
        provider_kind: Some(input.provider_kind),
        server_name: event.server_name,
        trigger_reason: Some(TriggerReason::Manual),
        download_local_ip: if down is Some {
            Some(down->0.local_ip)
        } else {
            None
        },
        download_remote_ip: if down is Some {
            Some(down->0.remote_ip)
        } else {
            None
        },
        download_bytes: if down is Some {
            Some(down->0.bytes)
        } else {
            None
        },
        download_measurement_duration_ms: if down is Some {
            Some(down->0.elapsed_ms)
        } else {
            None
        },
        download_mbps: if down is Some {
            down->0.mbps
        } else {
            None
        },
        download_server_tcp_min_rtt_ms: metrics_of(down).min_rtt_ms,
        download_server_tcp_rtt_ms: metrics_of(down).rtt_ms,
        download_server_tcp_retransmitted_bytes: metrics_of(down).retransmissions,
        upload_local_ip: if up is Some {
            Some(up->0.local_ip)
        } else {
            None
        },
        upload_remote_ip: if up is Some {
            Some(up->0.remote_ip)
        } else {
            None
        },
        upload_bytes: if up is Some {
            Some(up->0.bytes)
        } else {
            None
        },
        upload_measurement_duration_ms: if up is Some {
            Some(up->0.elapsed_ms)
        } else {
            None
        },
        upload_mbps: if up is Some {
            up->0.mbps
        } else {
            None
        },
        upload_server_tcp_min_rtt_ms: metrics_of(up).min_rtt_ms,
        upload_server_tcp_rtt_ms: metrics_of(up).rtt_ms,
        upload_server_tcp_retransmitted_bytes: metrics_of(up).retransmissions,
        error_kind: if failed {
            Some(last.error_kind)
        } else {
            None
        },
        ..blank_event(event.event_id, input.run_id, EventKind::Bandwidth, input.outcome, input.now)
    })
    &&& text_view(event.interface) == text_view(input.interface)
    &&& text_view(event.provider_id) == Some(input.provider_id@)
    &&& text_view(event.server_name) == (match input.server {
        Some(name) => Some(sanitized(name@)),
        None => None,
    })
    &&& text_view(event.message) == (if failed {
        Some(sanitized(last.message@))
    } else {
        None
    })
}

fn result_event(input: &ReportInput) -> (event: MeasurementEvent)
    requires
        datable(*input),
    ensures
        tells_result(event, *input),
{
    let mut event = MeasurementEvent::new(
        input.run_id,
        EventKind::Bandwidth,
        input.outcome,
        input.now,
    );
    let first = match &input.download {
        Some(measurement) => Some(*measurement),
        None => input.upload,
    };
    if let Some(measurement) = first {
        event.started_at_utc = Some(
            Timestamp { nanos: input.now.nanos - measurement.elapsed.nanos as i128 },
        );
    }
    event.interface = clone_text(&input.interface);
    event.trigger_reason = Some(TriggerReason::Manual);
    event.provider_id = Some(input.provider_id.clone());
    event.provider_kind = Some(input.provider_kind);
    event.server_name = clone_text(&input.server);
    event.elapsed_ms = Some(input.total_ms);
    if let Some(down) = input.download {
        event.download_local_ip = Some(down.local_ip);
        event.download_remote_ip = Some(down.remote_ip);
        event.download_bytes = Some(down.bytes);
        event.download_measurement_duration_ms = Some(down.elapsed_ms);
        event.download_mbps = down.mbps;
        event.download_server_tcp_min_rtt_ms = down.metrics.min_rtt_ms;
        event.download_server_tcp_rtt_ms = down.metrics.rtt_ms;
        event.download_server_tcp_retransmitted_bytes = down.metrics.retransmissions;
    }
    if let Some(up) = input.upload {
        event.upload_local_ip = Some(up.local_ip);
        event.upload_remote_ip = Some(up.remote_ip);
        event.upload_bytes = Some(up.bytes);
        event.upload_measurement_duration_ms = Some(up.elapsed_ms);
        event.upload_mbps = up.mbps;
        event.upload_server_tcp_min_rtt_ms = up.metrics.min_rtt_ms;
        event.upload_server_tcp_rtt_ms = up.metrics.rtt_ms;
        event.upload_server_tcp_retransmitted_bytes = up.metrics.retransmissions;
    }
    if input.outcome != Outcome::Success && input.failures.len() > 0 {
        let last = &input.failures[input.failures.len() - 1];
        event.error_kind = Some(last.error_kind);
        event.message = Some(last.message.clone());
    }
    event.sanitized()
}

/// The report of a test: its failures in order, and what it came to.
pub open spec fn reports_result(report: BandwidthReport, input: ReportInput) -> bool {
    &&& report.events@.len() == input.failures@.len() + 1
    &&& forall|i: int|
        0 <= i < input.failures@.len() ==> tells_failure(
            #[trigger] report.events@[i],
            input.run_id,
            text_view(input.interface),
            input.provider_id@,
            input.provider_kind,
            input.failures@[i]@,
        )
    &&& tells_result(report.events@.last(), input)
    &&& report.outcome == input.outcome
    &&& !report.reserved
    &&& report.reservation_error is None
}

/// Writes down what a test came to.
pub fn report_from_result(input: &ReportInput) -> (report: BandwidthReport)
    requires
        datable(*input),
    ensures
        reports_result(report, *input),
{
    let mut events: Vec<MeasurementEvent> = Vec::new();
    let mut i: usize = 0;
    while i < input.failures.len()
        invariant
            i <= input.failures@.len(),
            events@.len() == i,
            forall|k: int|
                0 <= k < i ==> tells_failure(
                    #[trigger] events@[k],
                    input.run_id,
                    text_view(input.interface),
                    input.provider_id@,
                    input.provider_kind,
                    input.failures@[k]@,
                ),
        decreases input.failures@.len() - i,
    {
        events.push(
            failure_event(
                input.run_id,
                &input.interface,
                &input.provider_id,
                input.provider_kind,
                &input.failures[i],
            ),
        );
        i += 1;
    }
    events.push(result_event(input));
    BandwidthReport {
        events,
        outcome: input.outcome,
        reserved: false,
        reservation_error: None,
    }
}

/// The kind of a provider.
pub open spec fn kind_of(config: BandwidthConfig) -> ProviderKind {
    match config.provider {
        ProviderConfig::Mlab(_) => ProviderKind::Mlab,
        ProviderConfig::Direct(_) => ProviderKind::Direct,
    }
}

pub fn provider_kind(config: &BandwidthConfig) -> (kind: ProviderKind)
    ensures
        kind == kind_of(*config),
{
    match &config.provider {
        ProviderConfig::Mlab(_) => ProviderKind::Mlab,
        ProviderConfig::Direct(_) => ProviderKind::Direct,
    }
}

/// What a test came to that ended before it measured.
pub open spec fn ended_early(
    config: BandwidthConfig,
    run_id: RunId,
    interface: Option<String>,
    failure: FailureView,
    zero_ms: Scalar,
    now: Timestamp,
    input: ReportInput,
) -> bool {
    &&& input.run_id == run_id
    &&& text_view(input.interface) == text_view(interface)
    &&& input.provider_id@ == config.provider_id@
    &&& input.provider_kind == kind_of(config)
    &&& input.server is None
    &&& failure_views(input.failures@) == seq![failure]
    &&& input.download is None
    &&& input.upload is None
    &&& input.total_ms == zero_ms
    &&& input.outcome == failure.outcome
    &&& input.now == now
}

/// The failure of a test that could not go on.
pub open spec fn command_failure(
    outcome: Outcome,
    error_kind: ErrorKind,
    message: Seq<char>,
    now: Timestamp,
) -> FailureView {
    FailureView {
        outcome,
        ..plain_failure(RequestStage::Connect, error_kind, message, None, 1, now)
    }
}

/// Writes down that a test could not go on. `zero_ms` is a time of nothing.
pub fn command_failure_report(
    config: &BandwidthConfig,
    run_id: RunId,
    interface: &Option<String>,
    outcome: Outcome,
    error_kind: ErrorKind,
    message: String,
    zero_ms: Scalar,
    now: Timestamp,
) -> (report: BandwidthReport)
    requires
        now.valid(),
    ensures
        exists|input: ReportInput|
            ended_early(
                *config,
                run_id,
                *interface,
                command_failure(outcome, error_kind, message@, now),
                zero_ms,
                now,
                input,
            ) && #[trigger] reports_result(report, input),
{
    let mut failure = RequestFailure::simple(
        RequestStage::Connect,
        error_kind,
        message,
        None,
        1,
        now,
    );
    failure.outcome = outcome;
    let mut failures: Vec<RequestFailure> = Vec::new();
    failures.push(failure);
    let input = ReportInput {
        run_id,
        interface: clone_text(interface),
        provider_id: config.provider_id.clone(),
        provider_kind: provider_kind(config),
        server: None,
        failures,
        download: None,
        upload: None,
        total_ms: zero_ms,
        outcome,
        now,
    };
    let report = report_from_result(&input);
    proof {
        assert(failure_views(input.failures@) =~= seq![
            command_failure(outcome, error_kind, message@, now),
        ]);
        assert(reports_result(report, input));
    }
    report
}

/// The report of a test whose start was admitted.
pub open spec fn admitted(
    report: BandwidthReport,
    reservation: AdmissionReservation,
    result: BandwidthReport,
) -> bool {
    match reservation {
        AdmissionReservation::Untracked => result == report,
        AdmissionReservation::Reserved { daily_runs_used } => {
            &&& result.reserved
            &&& result.outcome == report.outcome
            &&& result.reservation_error == report.reservation_error
            &&& result.events@ == report.events@.map_values(
                |event: MeasurementEvent|
                    MeasurementEvent { provider_daily_starts: Some(daily_runs_used), ..event },
            )
        },
    }
}

/// Notes in a report that its start was admitted.
pub fn apply_admission(report: BandwidthReport, reservation: AdmissionReservation) -> (result:
    BandwidthReport)
    ensures
        admitted(report, reservation, result),
{
    let mut result = report;
    if let AdmissionReservation::Reserved { daily_runs_used } = reservation {
        result.reserved = true;
        let ghost before = result.events@;
        let mut i: usize = 0;
        while i < result.events.len()
            invariant
                i <= before.len(),
                result.events@.len() == before.len(),
                result.reserved,
                result.outcome == report.outcome,
                result.reservation_error == report.reservation_error,
                forall|k: int|
                    0 <= k < i ==> #[trigger] result.events@[k] == (MeasurementEvent {
                        provider_daily_starts: Some(daily_runs_used),
                        ..before[k]
                    }),
                forall|k: int| i <= k < before.len() ==> #[trigger] result.events@[k] == before[k],
            decreases before.len() - i,
        {
            let mut event = result.events[i].clone();
            event.provider_daily_starts = Some(daily_runs_used);
            result.events.set(i, event);
            i += 1;
        }
        proof {
            assert(result.events@ =~= report.events@.map_values(
                |event: MeasurementEvent|
                    MeasurementEvent { provider_daily_starts: Some(daily_runs_used), ..event },
            ));
        }
    }
    result
}

} // verus!
