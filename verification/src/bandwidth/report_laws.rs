//! What holds of the report of a test, told by what was measured and what failed.
use super::report::{
    ReportInput, admitted, failure_event, report_from_result, reports_result, tells_failure,
};
use super::run::{
    AfterDownload, CandidateResult, Interruption, after_download_of, failed_on, tells_interruption,
    tells_nothing_found, tells_refused_start, tested_on, told,
};
use super::{AdmissionReservation, BandwidthReport, DirectionMeasurement, DirectionResult};
use crate::config::BandwidthConfig;
use crate::endpoint::parsed_url;
use crate::model::{ErrorKind, MeasurementEvent, Outcome, ProviderKind, RunId, TriggerReason};
use crate::provider::{EndpointCandidate, FailureView, RequestFailure, failure_views};
use crate::sanitize::{sanitized, sanitized_endpoint};
use crate::scalar::Scalar;
use crate::text::text_view;
use crate::time::Timestamp;
use vstd::prelude::*;

verus! {

/// The event tells a download as it was measured, or nothing of one.
pub open spec fn tells_download(
    event: MeasurementEvent,
    measurement: Option<DirectionMeasurement>,
) -> bool {
    match measurement {
        Some(m) => {
            &&& event.download_bytes == Some(m.bytes)
            &&& event.download_mbps == m.mbps
            &&& event.download_measurement_duration_ms == Some(m.elapsed_ms)
            &&& event.download_local_ip == Some(m.local_ip)
            &&& event.download_remote_ip == Some(m.remote_ip)
            &&& event.download_server_tcp_min_rtt_ms == m.metrics.min_rtt_ms
            &&& event.download_server_tcp_rtt_ms == m.metrics.rtt_ms
            &&& event.download_server_tcp_retransmitted_bytes == m.metrics.retransmissions
        },
        None => {
            &&& event.download_bytes is None
            &&& event.download_mbps is None
            &&& event.download_measurement_duration_ms is None
            &&& event.download_local_ip is None
            &&& event.download_remote_ip is None
            &&& event.download_server_tcp_min_rtt_ms is None
            &&& event.download_server_tcp_rtt_ms is None
            &&& event.download_server_tcp_retransmitted_bytes is None
        },
    }
}

/// The event tells an upload as it was measured, or nothing of one.
pub open spec fn tells_upload(
    event: MeasurementEvent,
    measurement: Option<DirectionMeasurement>,
) -> bool {
    match measurement {
        Some(m) => {
            &&& event.upload_bytes == Some(m.bytes)
            &&& event.upload_mbps == m.mbps
            &&& event.upload_measurement_duration_ms == Some(m.elapsed_ms)
            &&& event.upload_local_ip == Some(m.local_ip)
            &&& event.upload_remote_ip == Some(m.remote_ip)
            &&& event.upload_server_tcp_min_rtt_ms == m.metrics.min_rtt_ms
            &&& event.upload_server_tcp_rtt_ms == m.metrics.rtt_ms
            &&& event.upload_server_tcp_retransmitted_bytes == m.metrics.retransmissions
        },
        None => {
            &&& event.upload_bytes is None
            &&& event.upload_mbps is None
            &&& event.upload_measurement_duration_ms is None
            &&& event.upload_local_ip is None
            &&& event.upload_remote_ip is None
            &&& event.upload_server_tcp_min_rtt_ms is None
            &&& event.upload_server_tcp_rtt_ms is None
            &&& event.upload_server_tcp_retransmitted_bytes is None
        },
    }
}

/// The event tells of a failure: where, when, how far the request had come, what went wrong and
/// what the server asked for. Names, addresses and reasons are told without secrets.
pub open spec fn tells_request(
    event: MeasurementEvent,
    run_id: RunId,
    interface: Option<Seq<char>>,
    provider_id: Seq<char>,
    provider_kind: ProviderKind,
    failure: FailureView,
) -> bool {
    &&& event.event_kind is RequestFailure
    &&& event.run_kind is Bandwidth
    &&& event.run_id == run_id
    &&& event.root_run_id == run_id
    &&& event.outcome == failure.outcome
    &&& event.started_at_utc == Some(failure.started_at_utc)
    &&& event.finished_at_utc == Some(failure.finished_at_utc)
    &&& text_view(event.interface) == interface
    &&& text_view(event.provider_id) == Some(provider_id)
    &&& event.provider_kind == Some(provider_kind)
    &&& event.request_stage == Some(failure.stage)
    &&& event.request_attempt == Some(failure.attempt)
    &&& event.request_local_ip == failure.local_ip
    &&& event.request_remote_ip == failure.remote_ip
    &&& event.request_http_status == failure.http_status
    &&& event.error_kind == Some(failure.error_kind)
    &&& event.os_error_code == failure.os_error_code
    &&& text_view(event.message) == Some(sanitized(failure.message))
    &&& failure.server_name matches Some(name) ==> text_view(event.server_name) == Some(
        sanitized(name),
    )
    &&& failure.server_name is None ==> event.server_name is None
    &&& failure.request_url matches Some(url) ==> text_view(event.request_url) == Some(
        sanitized_endpoint(url, parsed_url(url)),
    )
    &&& failure.request_url is None ==> event.request_url is None
    &&& match failure.retry_after {
        Some(retry) => {
            &&& event.request_retry_at_utc == Some(retry.deadline)
            &&& event.request_retry_after_ms matches Some(millis) ==> millis * 1_000_000
                <= retry.delay.nanos < (millis + 1) * 1_000_000
            &&& event.request_retry_after_ms is None ==> retry.delay.nanos >= (u64::MAX + 1)
                * 1_000_000
        },
        None => event.request_retry_at_utc is None && event.request_retry_after_ms is None,
    }
    &&& tells_download(event, None)
    &&& tells_upload(event, None)
}

/// The event of a failure tells the failure as it was.
pub proof fn law_failure_is_told(
    run_id: RunId,
    interface: Option<String>,
    provider_id: &str,
    provider_kind: ProviderKind,
    failure: RequestFailure,
    event: MeasurementEvent,
)
    requires
        call_ensures(
            failure_event,
            (run_id, &interface, provider_id, provider_kind, &failure),
            event,
        ),
    ensures
        tells_request(
            event,
            run_id,
            text_view(interface),
            provider_id@,
            provider_kind,
            failure@,
        ),
{
    lemma_failure_is_told(
        event,
        run_id,
        text_view(interface),
        provider_id@,
        provider_kind,
        failure@,
    );
}

proof fn lemma_failure_is_told(
    event: MeasurementEvent,
    run_id: RunId,
    interface: Option<Seq<char>>,
    provider_id: Seq<char>,
    provider_kind: ProviderKind,
    failure: FailureView,
)
    requires
        tells_failure(event, run_id, interface, provider_id, provider_kind, failure),
    ensures
        tells_request(event, run_id, interface, provider_id, provider_kind, failure),
{
}

/// The report tells a test: its failures in order, each as it was, and behind them one event with
/// what was measured in each direction and the test's outcome. The reason of a test without
/// success is its last failure.
pub open spec fn tells_test(report: BandwidthReport, input: ReportInput) -> bool {
    let last = report.events@.last();
    let count = input.failures@.len();
    let first = if input.download is Some {
        input.download
    } else {
        input.upload
    };
    &&& report.outcome == input.outcome
    &&& report.events@.len() == count + 1
    &&& forall|i: int|
        0 <= i < count ==> tells_request(
            #[trigger] report.events@[i],
            input.run_id,
            text_view(input.interface),
            input.provider_id@,
            input.provider_kind,
            input.failures@[i]@,
        )
    &&& last.event_kind is Bandwidth
    &&& last.run_kind is Bandwidth
    &&& last.run_id == input.run_id
    &&& last.root_run_id == input.run_id
    &&& last.outcome == input.outcome
    &&& last.finished_at_utc == Some(input.now)
    &&& last.elapsed_ms == Some(input.total_ms)
    &&& first matches Some(m) ==> last.started_at_utc == Some(
        Timestamp { nanos: (input.now.nanos - m.elapsed.nanos) as i128 },
    )
    &&& first is None ==> last.started_at_utc is None
    &&& text_view(last.interface) == text_view(input.interface)
    &&& text_view(last.provider_id) == Some(input.provider_id@)
    &&& last.provider_kind == Some(input.provider_kind)
    &&& last.trigger_reason == Some(TriggerReason::Manual)
    &&& input.server matches Some(name) ==> text_view(last.server_name) == Some(sanitized(name@))
    &&& input.server is None ==> last.server_name is None
    &&& tells_download(last, input.download)
    &&& tells_upload(last, input.upload)
    &&& last.request_stage is None
    &&& last.request_attempt is None
    &&& if input.outcome is Success || count == 0 {
        last.error_kind is None && last.message is None
    } else {
        &&& last.error_kind == Some(input.failures@[count - 1].error_kind)
        &&& text_view(last.message) == Some(sanitized(input.failures@[count - 1].message@))
    }
}

/// The report of a test tells it.
pub proof fn law_test_is_told(input: ReportInput, report: BandwidthReport)
    requires
        call_ensures(report_from_result, (&input,), report),
    ensures
        tells_test(report, input),
        !report.reserved,
        report.reservation_error is None,
{
    lemma_test_is_told(report, input);
}

proof fn lemma_test_is_told(report: BandwidthReport, input: ReportInput)
    requires
        reports_result(report, input),
    ensures
        tells_test(report, input),
        !report.reserved,
        report.reservation_error is None,
{
    assert forall|i: int| 0 <= i < input.failures@.len() implies tells_request(
        #[trigger] report.events@[i],
        input.run_id,
        text_view(input.interface),
        input.provider_id@,
        input.provider_kind,
        input.failures@[i]@,
    ) by {
        lemma_failure_is_told(
            report.events@[i],
            input.run_id,
            text_view(input.interface),
            input.provider_id@,
            input.provider_kind,
            input.failures@[i]@,
        );
    }
}

/// The report on the account of a provider is the report without it, with the number of the day's
/// starts in every event, and is marked as such. On nobody's account nothing changes.
pub open spec fn on_account(
    report: BandwidthReport,
    reservation: AdmissionReservation,
    plain: BandwidthReport,
) -> bool {
    &&& report.outcome == plain.outcome
    &&& report.reservation_error == plain.reservation_error
    &&& report.events@.len() == plain.events@.len()
    &&& match reservation {
        AdmissionReservation::Untracked => {
            report.reserved == plain.reserved && report.events@ == plain.events@
        },
        AdmissionReservation::Reserved { daily_runs_used } => {
            &&& report.reserved
            &&& forall|i: int|
                0 <= i < plain.events@.len() ==> (#[trigger] report.events@[i])
                    == (MeasurementEvent {
                    provider_daily_starts: Some(daily_runs_used),
                    ..plain.events@[i]
                })
        },
    }
}

proof fn lemma_on_account(
    plain: BandwidthReport,
    reservation: AdmissionReservation,
    report: BandwidthReport,
)
    requires
        admitted(plain, reservation, report),
    ensures
        on_account(report, reservation, plain),
{
}

/// A test that ran against a server succeeds if both directions were measured, is partial if one
/// was, and failed if none was, unless the provider ended it. Its report tells all failures, those
/// of finding servers first, and both measurements, and is on the account that its start was put
/// on.
pub proof fn law_outcome_is_what_was_measured(
    report: BandwidthReport,
    run_id: RunId,
    interface: Option<String>,
    result: CandidateResult,
    earlier: Seq<RequestFailure>,
    reservation: AdmissionReservation,
    total_ms: Scalar,
    now: Timestamp,
) -> (found: (ReportInput, BandwidthReport))
    requires
        super::run::tells_result(
            report,
            run_id,
            interface,
            result,
            earlier,
            reservation,
            total_ms,
            now,
        ),
    ensures
        ({
            let (input, plain) = found;
            &&& tells_test(plain, input)
            &&& !plain.reserved && plain.reservation_error is None
            &&& on_account(report, reservation, plain)
            &&& input.run_id == run_id
            &&& text_view(input.interface) == text_view(interface)
            &&& input.provider_id@ == result.provider_id@
            &&& input.provider_kind == result.provider_kind
            &&& text_view(input.server) == Some(result.server@)
            &&& input.failures@ == earlier + result.failures@
            &&& input.download == result.download
            &&& input.upload == result.upload
            &&& input.total_ms == total_ms
            &&& input.now == now
            &&& result.terminal_outcome matches Some(outcome) ==> report.outcome == outcome
            &&& result.terminal_outcome is None ==> {
                &&& report.outcome is Success <==> result.download is Some && result.upload is Some
                &&& report.outcome is Partial <==> (result.download is Some) != (result.upload
                    is Some)
                &&& report.outcome is Error <==> result.download is None && result.upload is None
            }
        }),
{
    let (input, plain) = choose|input: ReportInput, plain: BandwidthReport|
        {
            &&& super::run::ran_to_end(run_id, interface, result, earlier, total_ms, now, input)
            &&& #[trigger] told(plain, input)
            &&& admitted(plain, reservation, report)
        };
    lemma_test_is_told(plain, input);
    lemma_on_account(plain, reservation, report);
    (input, plain)
}

/// After a download, the test stops for the whole provider exactly if the last failure reaches it,
/// goes on to another server exactly if nothing was measured and the last failure says that this
/// one cannot serve, and goes on to the upload otherwise.
pub proof fn law_download_leads_on(measured: bool, failures: Seq<FailureView>)
    ensures
        ({
            let wide = failures.len() > 0 && failures.last().disposition is ProviderWide;
            let full = failures.len() > 0 && failures.last().disposition is TryNextTarget;
            let next = after_download_of(measured, failures);
            &&& next is Stop <==> wide
            &&& next matches AfterDownload::Stop(outcome) ==> outcome == failures.last().outcome
            &&& next is NextCandidate <==> full && !measured
            &&& next is Upload <==> !wide && !(full && !measured)
        }),
{
}

/// The result of a server that was tested has its download and its upload, all failures in order,
/// and ends the test for the provider only if the last failure of the upload reaches it. One that
/// failed has neither.
pub proof fn law_server_is_credited_with_its_measurements(
    result: CandidateResult,
    candidate: EndpointCandidate,
    download: Option<DirectionMeasurement>,
    failures: Seq<RequestFailure>,
    upload: DirectionResult,
    outcome: Outcome,
)
    ensures
        tested_on(result, candidate, download, failures, upload) ==> {
            &&& result.download == download
            &&& result.upload == upload.measurement
            &&& result.failures@ == failures + upload.failures@
            &&& result.server@ == candidate.logical_server@
            &&& result.provider_id@ == candidate.provider_id@
            &&& result.provider_kind == candidate.provider_kind
            &&& result.terminal_outcome is Some <==> upload.failures@.len() > 0
                && upload.failures@.last().disposition is ProviderWide
            &&& result.terminal_outcome is Some ==> result.terminal_outcome == Some(
                upload.failures@.last().outcome,
            )
        },
        failed_on(result, candidate, failures, outcome) ==> {
            &&& result.download is None
            &&& result.upload is None
            &&& result.failures@ == failures
            &&& result.server@ == candidate.logical_server@
            &&& result.terminal_outcome == Some(outcome)
        },
{
    if upload.failures@.len() > 0 {
        assert(failure_views(upload.failures@).last() == upload.failures@.last()@);
    }
}

/// What a test came to that ended without a measurement, for one reason.
pub open spec fn ended_for(
    input: ReportInput,
    config: BandwidthConfig,
    run_id: RunId,
    interface: Option<String>,
    outcome: Outcome,
    kind: ErrorKind,
    message: Seq<char>,
    now: Timestamp,
) -> bool {
    &&& input.run_id == run_id
    &&& text_view(input.interface) == text_view(interface)
    &&& input.provider_id@ == config.provider_id@
    &&& input.provider_kind is Mlab <==> config.provider is Mlab
    &&& input.server is None
    &&& input.download is None
    &&& input.upload is None
    &&& input.outcome == outcome
    &&& input.now == now
    &&& input.failures@.len() == 1
    &&& input.failures@[0].outcome == outcome
    &&& input.failures@[0].error_kind == kind
    &&& input.failures@[0].message@ == message
    &&& input.failures@[0].stage is Connect
    &&& input.failures@[0].attempt == 1
    &&& input.failures@[0].finished_at_utc == now
}

/// A test that took too long or was cancelled has measured nothing, says which of the two it was,
/// and stays on the account that its start was put on.
pub proof fn law_interrupted_test_is_told(
    report: BandwidthReport,
    config: BandwidthConfig,
    run_id: RunId,
    interface: Option<String>,
    interruption: Interruption,
    reservation: AdmissionReservation,
    zero_ms: Scalar,
    now: Timestamp,
) -> (found: (ReportInput, BandwidthReport))
    requires
        tells_interruption(
            report,
            config,
            run_id,
            interface,
            interruption,
            reservation,
            zero_ms,
            now,
        ),
    ensures
        ({
            let (input, plain) = found;
            &&& tells_test(plain, input)
            &&& !plain.reserved && plain.reservation_error is None
            &&& on_account(report, reservation, plain)
            &&& input.total_ms == zero_ms
            &&& interruption is TimedOut ==> ended_for(
                input,
                config,
                run_id,
                interface,
                Outcome::Timeout,
                ErrorKind::Timeout,
                "NDT7 test timed out after "@ + config.whole_test_timeout.text_spec(),
                now,
            )
            &&& interruption is Cancelled ==> ended_for(
                input,
                config,
                run_id,
                interface,
                Outcome::Cancelled,
                ErrorKind::Cancelled,
                "NDT7 test was cancelled"@,
                now,
            )
        }),
{
    let (input, plain) = choose|input: ReportInput, plain: BandwidthReport|
        {
            &&& super::report::ended_early(
                config,
                run_id,
                interface,
                super::run::interruption_failure(config, interruption, now),
                zero_ms,
                now,
                input,
            )
            &&& #[trigger] told(plain, input)
            &&& admitted(plain, reservation, report)
        };
    lemma_test_is_told(plain, input);
    lemma_on_account(plain, reservation, report);
    assert(failure_views(input.failures@).len() == input.failures@.len());
    assert(failure_views(input.failures@)[0] == input.failures@[0]@);
    (input, plain)
}

/// A test whose start was not admitted has asked no server and says why, and is on no account.
pub proof fn law_refused_start_is_told(
    report: BandwidthReport,
    config: BandwidthConfig,
    run_id: RunId,
    interface: Option<String>,
    message: Seq<char>,
    zero_ms: Scalar,
    now: Timestamp,
) -> (input: ReportInput)
    requires
        tells_refused_start(report, config, run_id, interface, message, zero_ms, now),
    ensures
        tells_test(report, input),
        !report.reserved,
        text_view(report.reservation_error) == Some(message),
        ended_for(
            input,
            config,
            run_id,
            interface,
            Outcome::Error,
            ErrorKind::Internal,
            "cannot persist bandwidth reservation: "@ + message,
            now,
        ),
{
    let (input, plain) = choose|input: ReportInput, plain: BandwidthReport|
        {
            &&& super::report::ended_early(
                config,
                run_id,
                interface,
                super::report::command_failure(
                    Outcome::Error,
                    ErrorKind::Internal,
                    "cannot persist bandwidth reservation: "@ + message,
                    now,
                ),
                zero_ms,
                now,
                input,
            )
            &&& #[trigger] told(plain, input)
            &&& report == (BandwidthReport {
                reservation_error: report.reservation_error,
                ..plain
            })
        };
    lemma_test_is_told(plain, input);
    assert(failure_views(input.failures@).len() == input.failures@.len());
    assert(failure_views(input.failures@)[0] == input.failures@[0]@);
    input
}

/// A test that found no server has measured nothing, tells all that failed and last what ended it,
/// has the outcome of that, and is on no account.
pub proof fn law_missing_server_is_told(
    report: BandwidthReport,
    config: BandwidthConfig,
    run_id: RunId,
    interface: Option<String>,
    failures: Seq<RequestFailure>,
    terminal: RequestFailure,
    zero_ms: Scalar,
    now: Timestamp,
) -> (input: ReportInput)
    requires
        tells_nothing_found(
            report,
            config,
            run_id,
            interface,
            failures,
            terminal,
            zero_ms,
            now,
        ),
    ensures
        tells_test(report, input),
        !report.reserved,
        report.reservation_error is None,
        report.outcome == terminal.outcome,
        report.events@.len() == failures.len() + 2,
        input.failures@ == failures.push(terminal),
        input.download is None,
        input.upload is None,
        input.server is None,
        input.run_id == run_id,
        text_view(input.interface) == text_view(interface),
        input.provider_id@ == config.provider_id@,
        input.provider_kind is Mlab <==> config.provider is Mlab,
        input.now == now,
        input.total_ms == zero_ms,
{
    let input = choose|input: ReportInput|
        super::run::found_nothing(
            config,
            run_id,
            interface,
            failures,
            terminal,
            zero_ms,
            now,
            input,
        ) && #[trigger] told(report, input);
    lemma_test_is_told(report, input);
    input
}

} // verus!
