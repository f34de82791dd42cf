//! A bandwidth test from its servers to its report.
use super::report::{
    ReportInput, admitted, apply_admission, command_failure, command_failure_report, ended_early,
    kind_of, provider_kind, report_from_result, reports_result,
};
use super::{
    AdmissionReservation, BandwidthReport, DirectionMeasurement, DirectionResult, ReservationGate,
};
use crate::config::BandwidthConfig;
use crate::model::{ErrorKind, Outcome, ProviderKind, RunId};
use crate::provider::{
    EndpointCandidate, EndpointResolution, FailureDisposition, FailureView, RequestFailure,
    failure_views,
};
use crate::scalar::Scalar;
use crate::text::{clone_text, text_view};
use crate::time::Timestamp;
use vstd::prelude::*;
use vstd::string::StringExecFns;

verus! {

/// What came of the servers that were tried.
pub struct CandidateResult {
    pub download: Option<DirectionMeasurement>,
    pub upload: Option<DirectionMeasurement>,
    pub failures: Vec<RequestFailure>,
    pub server: String,
    pub provider_id: String,
    pub provider_kind: ProviderKind,
    pub terminal_outcome: Option<Outcome>,
}

/// How to go on after a download.
#[derive(Clone, Copy, Debug, PartialEq, Eq, Structural)]
pub enum AfterDownload {
    /// The provider wants nothing more to be asked.
    Stop(Outcome),
    /// Another server is tried.
    NextCandidate,
    /// The upload follows.
    Upload,
}

/// The outcome that ends a test, if the failure reaches the whole provider.
pub open spec fn provider_stop(failures: Seq<FailureView>) -> Option<Outcome> {
    if failures.len() > 0 && failures.last().disposition == FailureDisposition::ProviderWide {
        Some(failures.last().outcome)
    } else {
        None
    }
}

/// How to go on after a download.
pub open spec fn after_download_of(measured: bool, failures: Seq<FailureView>) -> AfterDownload {
    match provider_stop(failures) {
        Some(outcome) => AfterDownload::Stop(outcome),
        None => if !measured && failures.len() > 0 && failures.last().disposition
            == FailureDisposition::TryNextTarget {
            AfterDownload::NextCandidate
        } else {
            AfterDownload::Upload
        },
    }
}

fn provider_stop_outcome(failures: &Vec<RequestFailure>) -> (outcome: Option<Outcome>)
    ensures
        outcome == provider_stop(failure_views(failures@)),
{
    if failures.len() == 0 {
        return None;
    }
    let last = &failures[failures.len() - 1];
    proof {
        assert(failure_views(failures@).last() == last@);
    }
    if last.disposition == FailureDisposition::ProviderWide {
        Some(last.outcome)
    } else {
        None
    }
}

/// Decides how to go on after a download.
pub fn after_download(download: &DirectionResult) -> (next: AfterDownload)
    ensures
        next == after_download_of(
            download.measurement is Some,
            failure_views(download.failures@),
        ),
{
    if let Some(outcome) = provider_stop_outcome(&download.failures) {
        return AfterDownload::Stop(outcome);
    }
    if download.measurement.is_none() && download.failures.len() > 0 {
        let last = &download.failures[download.failures.len() - 1];
        proof {
            assert(failure_views(download.failures@).last() == last@);
        }
        if last.disposition == FailureDisposition::TryNextTarget {
            return AfterDownload::NextCandidate;
        }
    }
    AfterDownload::Upload
}

/// What came of a server that gave no measurement.
fn failed_candidate(
    candidate: &EndpointCandidate,
    failures: Vec<RequestFailure>,
    outcome: Outcome,
) -> (result: CandidateResult)
    ensures
        result.download is None,
        result.upload is None,
        result.failures == failures,
        result.server@ == candidate.logical_server@,
        result.provider_id@ == candidate.provider_id@,
        result.provider_kind == candidate.provider_kind,
        result.terminal_outcome == Some(outcome),
{
    CandidateResult {
        download: None,
        upload: None,
        failures,
        server: candidate.logical_server.clone(),
        provider_id: candidate.provider_id.clone(),
        provider_kind: candidate.provider_kind,
        terminal_outcome: Some(outcome),
    }
}

/// Adds failures behind others.
fn extend_failures(all: &mut Vec<RequestFailure>, more: Vec<RequestFailure>)
    ensures
        final(all)@ == old(all)@ + more@,
{
    let mut more = more;
    all.append(&mut more);
}

/// What came of a server that a test ran against. `failures` are those of servers before it and
/// of the download.
fn tested_candidate(
    candidate: &EndpointCandidate,
    download: Option<DirectionMeasurement>,
    failures: Vec<RequestFailure>,
    upload: DirectionResult,
) -> (result: CandidateResult)
    ensures
        tested_on(result, *candidate, download, failures@, upload),
{
    let terminal_outcome = provider_stop_outcome(&upload.failures);
    let mut all = failures;
    extend_failures(&mut all, upload.failures);
    CandidateResult {
        download,
        upload: upload.measurement,
        failures: all,
        server: candidate.logical_server.clone(),
        provider_id: candidate.provider_id.clone(),
        provider_kind: candidate.provider_kind,
        terminal_outcome,
    }
}

/// How far the servers of a test have been tried: which one it is, what failed so far, and what
/// was measured of its download.
pub struct CandidateRun {
    pub at: usize,
    pub failures: Vec<RequestFailure>,
    pub download: Option<DirectionMeasurement>,
}

/// What the trial of servers does next.
pub enum RunStep {
    /// The download of the server that it is now.
    Download,
    /// The upload of the same server.
    Upload,
    Finished(CandidateResult),
}

/// The result of a server that gave no measurement.
pub open spec fn failed_on(
    result: CandidateResult,
    candidate: EndpointCandidate,
    failures: Seq<RequestFailure>,
    outcome: Outcome,
) -> bool {
    &&& result.download is None
    &&& result.upload is None
    &&& result.failures@ == failures
    &&& result.server@ == candidate.logical_server@
    &&& result.provider_id@ == candidate.provider_id@
    &&& result.provider_kind == candidate.provider_kind
    &&& result.terminal_outcome == Some(outcome)
}

impl CandidateRun {
    /// Begins with the first server.
    pub fn new() -> (run: Self)
        ensures
            run.at == 0,
            run.failures@.len() == 0,
            run.download is None,
    {
        CandidateRun { at: 0, failures: Vec::new(), download: None }
    }

    /// Takes in a download. Where the server is full another is tried; where none is left the
    /// test ends for lack of capacity.
    pub fn downloaded(
        &mut self,
        candidates: &Vec<EndpointCandidate>,
        download: DirectionResult,
    ) -> (step: RunStep)
        requires
            old(self).at < candidates@.len(),
        ensures
            final(self).failures@ == old(self).failures@ + download.failures@ || step is Finished,
            match (
                after_download_of(
                    download.measurement is Some,
                    failure_views(download.failures@),
                ),
                step,
            ) {
                (AfterDownload::Stop(outcome), RunStep::Finished(result)) => failed_on(
                    result,
                    candidates@[old(self).at as int],
                    old(self).failures@ + download.failures@,
                    outcome,
                ),
                (AfterDownload::NextCandidate, RunStep::Finished(result)) => {
                    &&& old(self).at + 1 == candidates@.len()
                    &&& failed_on(
                        result,
                        candidates@[0],
                        old(self).failures@ + download.failures@,
                        Outcome::NoCapacity,
                    )
                },
                (AfterDownload::NextCandidate, RunStep::Download) => {
                    &&& old(self).at + 1 < candidates@.len()
                    &&& final(self).at == old(self).at + 1
                    &&& final(self).download == old(self).download
                },
                (AfterDownload::Upload, RunStep::Upload) => {
                    &&& final(self).at == old(self).at
                    &&& final(self).download == download.measurement
                },
                _ => false,
            },
    {
        let next = after_download(&download);
        extend_failures(&mut self.failures, download.failures);
        match next {
            AfterDownload::Stop(outcome) => {
                let mut failures: Vec<RequestFailure> = Vec::new();
                std::mem::swap(&mut failures, &mut self.failures);
                RunStep::Finished(failed_candidate(&candidates[self.at], failures, outcome))
            },
            AfterDownload::NextCandidate => {
                let count: usize = candidates.len();
                if self.at + 1 < count {
                    self.at = self.at + 1;
                    RunStep::Download
                } else {
                    let mut failures: Vec<RequestFailure> = Vec::new();
                    std::mem::swap(&mut failures, &mut self.failures);
                    RunStep::Finished(
                        failed_candidate(&candidates[0], failures, Outcome::NoCapacity),
                    )
                }
            },
            AfterDownload::Upload => {
                self.download = download.measurement;
                RunStep::Upload
            },
        }
    }

    /// Takes in the upload of the server whose download went before.
    pub fn uploaded(self, candidates: &Vec<EndpointCandidate>, upload: DirectionResult) -> (result:
        CandidateResult)
        requires
            self.at < candidates@.len(),
        ensures
            tested_on(
                result,
                candidates@[self.at as int],
                self.download,
                self.failures@,
                upload,
            ),
    {
        tested_candidate(&candidates[self.at], self.download, self.failures, upload)
    }
}

/// The outcome of a test: what ended it, or how many directions were measured.
pub open spec fn outcome_of(
    terminal: Option<Outcome>,
    downloaded: bool,
    uploaded: bool,
) -> Outcome {
    match terminal {
        Some(outcome) => outcome,
        None => if downloaded && uploaded {
            Outcome::Success
        } else if downloaded || uploaded {
            Outcome::Partial
        } else {
            Outcome::Error
        },
    }
}

/// What a test came to that ran to its end.
pub open spec fn ran_to_end(
    run_id: RunId,
    interface: Option<String>,
    candidate: CandidateResult,
    earlier: Seq<RequestFailure>,
    total_ms: Scalar,
    now: Timestamp,
    input: ReportInput,
) -> bool {
    &&& input.run_id == run_id
    &&& text_view(input.interface) == text_view(interface)
    &&& input.provider_id@ == candidate.provider_id@
    &&& input.provider_kind == candidate.provider_kind
    &&& text_view(input.server) == Some(candidate.server@)
    &&& input.failures@ == earlier + candidate.failures@
    &&& input.download == candidate.download
    &&& input.upload == candidate.upload
    &&& input.total_ms == total_ms
    &&& input.outcome == outcome_of(
        candidate.terminal_outcome,
        candidate.download is Some,
        candidate.upload is Some,
    )
    &&& input.now == now
}

/// Some test input that a predicate holds of is what the report tells.
pub open spec fn told(report: BandwidthReport, input: ReportInput) -> bool {
    reports_result(report, input)
}

/// The report of a test that ran to its end.
pub open spec fn tells_result(
    report: BandwidthReport,
    run_id: RunId,
    interface: Option<String>,
    candidate: CandidateResult,
    earlier: Seq<RequestFailure>,
    reservation: AdmissionReservation,
    total_ms: Scalar,
    now: Timestamp,
) -> bool {
    exists|input: ReportInput, plain: BandwidthReport|
        {
            &&& ran_to_end(run_id, interface, candidate, earlier, total_ms, now, input)
            &&& #[trigger] told(plain, input)
            &&& admitted(plain, reservation, report)
        }
}

/// An instant from which a measured span can be counted back.
pub open spec fn follows(now: Timestamp, measured: Option<DirectionMeasurement>) -> bool {
    measured is Some ==> now.nanos - measured->0.elapsed.nanos >= crate::time::MIN_UTC_NANOS
}

/// Writes down a test that ran to its end. `earlier` are the failures of finding servers.
pub fn candidate_report(
    run_id: RunId,
    interface: &Option<String>,
    candidate: CandidateResult,
    earlier: Vec<RequestFailure>,
    reservation: AdmissionReservation,
    total_ms: Scalar,
    now: Timestamp,
) -> (report: BandwidthReport)
    requires
        now.valid(),
        follows(now, candidate.download),
        follows(now, candidate.upload),
    ensures
        tells_result(
            report,
            run_id,
            *interface,
            candidate,
            earlier@,
            reservation,
            total_ms,
            now,
        ),
{
    let outcome = match candidate.terminal_outcome {
        Some(outcome) => outcome,
        None => match (candidate.download.is_some(), candidate.upload.is_some()) {
            (true, true) => Outcome::Success,
            (true, false) | (false, true) => Outcome::Partial,
            (false, false) => Outcome::Error,
        },
    };
    let mut failures = earlier;
    extend_failures(&mut failures, candidate.failures);
    let input = ReportInput {
        run_id,
        interface: clone_text(interface),
        provider_id: candidate.provider_id,
        provider_kind: candidate.provider_kind,
        server: Some(candidate.server),
        failures,
        download: candidate.download,
        upload: candidate.upload,
        total_ms,
        outcome,
        now,
    };
    let plain = report_from_result(&input);
    proof {
        assert(ran_to_end(run_id, *interface, candidate, earlier@, total_ms, now, input));
        assert(told(plain, input));
    }
    apply_admission(plain, reservation)
}

/// The result of a server that a test ran against.
pub open spec fn tested_on(
    result: CandidateResult,
    candidate: EndpointCandidate,
    download: Option<DirectionMeasurement>,
    failures: Seq<RequestFailure>,
    upload: DirectionResult,
) -> bool {
    &&& result.download == download
    &&& result.upload == upload.measurement
    &&& result.failures@ == failures + upload.failures@
    &&& result.server@ == candidate.logical_server@
    &&& result.provider_id@ == candidate.provider_id@
    &&& result.provider_kind == candidate.provider_kind
    &&& result.terminal_outcome == provider_stop(failure_views(upload.failures@))
}

/// What a test came to that found no server.
pub open spec fn found_nothing(
    config: BandwidthConfig,
    run_id: RunId,
    interface: Option<String>,
    failures: Seq<RequestFailure>,
    terminal: RequestFailure,
    zero_ms: Scalar,
    now: Timestamp,
    input: ReportInput,
) -> bool {
    &&& input.run_id == run_id
    &&& text_view(input.interface) == text_view(interface)
    &&& input.provider_id@ == config.provider_id@
    &&& input.provider_kind == kind_of(config)
    &&& input.server is None
    &&& input.failures@ == failures.push(terminal)
    &&& input.download is None
    &&& input.upload is None
    &&& input.total_ms == zero_ms
    &&& input.outcome == terminal.outcome
    &&& input.now == now
}

/// The report of a test that found no server.
pub open spec fn tells_nothing_found(
    report: BandwidthReport,
    config: BandwidthConfig,
    run_id: RunId,
    interface: Option<String>,
    failures: Seq<RequestFailure>,
    terminal: RequestFailure,
    zero_ms: Scalar,
    now: Timestamp,
) -> bool {
    exists|input: ReportInput|
        found_nothing(config, run_id, interface, failures, terminal, zero_ms, now, input)
            && #[trigger] told(report, input)
}

/// Writes down a test that found no server. It is not on the provider's account.
fn resolution_report(
    config: &BandwidthConfig,
    run_id: RunId,
    interface: &Option<String>,
    failures: Vec<RequestFailure>,
    terminal: RequestFailure,
    zero_ms: Scalar,
    now: Timestamp,
) -> (report: BandwidthReport)
    requires
        now.valid(),
    ensures
        tells_nothing_found(
            report,
            *config,
            run_id,
            *interface,
            failures@,
            terminal,
            zero_ms,
            now,
        ),
{
    let outcome = terminal.outcome;
    let mut all = failures;
    all.push(terminal);
    let input = ReportInput {
        run_id,
        interface: clone_text(interface),
        provider_id: config.provider_id.clone(),
        provider_kind: provider_kind(config),
        server: None,
        failures: all,
        download: None,
        upload: None,
        total_ms: zero_ms,
        outcome,
        now,
    };
    let report = report_from_result(&input);
    proof {
        assert(told(report, input));
    }
    report
}

/// Writes down a test that took too long.
fn timeout_report(
    config: &BandwidthConfig,
    run_id: RunId,
    interface: &Option<String>,
    reservation: AdmissionReservation,
    zero_ms: Scalar,
    now: Timestamp,
) -> (report: BandwidthReport)
    requires
        now.valid(),
    ensures
        exists|input: ReportInput, plain: BandwidthReport|
            {
                &&& ended_early(
                    *config,
                    run_id,
                    *interface,
                    command_failure(
                        Outcome::Timeout,
                        ErrorKind::Timeout,
                        "NDT7 test timed out after "@ + config.whole_test_timeout.text_spec(),
                        now,
                    ),
                    zero_ms,
                    now,
                    input,
                )
                &&& #[trigger] told(plain, input)
                &&& admitted(plain, reservation, report)
            },
{
    let message = "NDT7 test timed out after ".to_owned().concat(
        &config.whole_test_timeout.text(),
    );
    let plain = command_failure_report(
        config,
        run_id,
        interface,
        Outcome::Timeout,
        ErrorKind::Timeout,
        message,
        zero_ms,
        now,
    );
    proof {
        let input = choose|input: ReportInput|
            ended_early(
                *config,
                run_id,
                *interface,
                command_failure(Outcome::Timeout, ErrorKind::Timeout, message@, now),
                zero_ms,
                now,
                input,
            ) && #[trigger] reports_result(plain, input);
        assert(told(plain, input));
    }
    apply_admission(plain, reservation)
}

/// Writes down a test that was cancelled.
fn cancelled_report(
    config: &BandwidthConfig,
    run_id: RunId,
    interface: &Option<String>,
    reservation: AdmissionReservation,
    zero_ms: Scalar,
    now: Timestamp,
) -> (report: BandwidthReport)
    requires
        now.valid(),
    ensures
        exists|input: ReportInput, plain: BandwidthReport|
            {
                &&& ended_early(
                    *config,
                    run_id,
                    *interface,
                    command_failure(
                        Outcome::Cancelled,
                        ErrorKind::Cancelled,
                        "NDT7 test was cancelled"@,
                        now,
                    ),
                    zero_ms,
                    now,
                    input,
                )
                &&& #[trigger] told(plain, input)
                &&& admitted(plain, reservation, report)
            },
{
    let message = "NDT7 test was cancelled".to_owned();
    let plain = command_failure_report(
        config,
        run_id,
        interface,
        Outcome::Cancelled,
        ErrorKind::Cancelled,
        message,
        zero_ms,
        now,
    );
    proof {
        let input = choose|input: ReportInput|
            ended_early(
                *config,
                run_id,
                *interface,
                command_failure(Outcome::Cancelled, ErrorKind::Cancelled, message@, now),
                zero_ms,
                now,
                input,
            ) && #[trigger] reports_result(plain, input);
        assert(told(plain, input));
    }
    apply_admission(plain, reservation)
}

/// Writes down a test whose start could not be admitted.
fn reservation_failed_report(
    config: &BandwidthConfig,
    run_id: RunId,
    interface: &Option<String>,
    message: String,
    zero_ms: Scalar,
    now: Timestamp,
) -> (report: BandwidthReport)
    requires
        now.valid(),
    ensures
        report.reservation_error == Some(message),
        exists|input: ReportInput, plain: BandwidthReport|
            {
                &&& ended_early(
                    *config,
                    run_id,
                    *interface,
                    command_failure(
                        Outcome::Error,
                        ErrorKind::Internal,
                        "cannot persist bandwidth reservation: "@ + message@,
                        now,
                    ),
                    zero_ms,
                    now,
                    input,
                )
                &&& #[trigger] told(plain, input)
                &&& report == (BandwidthReport {
                    reservation_error: report.reservation_error,
                    ..plain
                })
            },
{
    let text = "cannot persist bandwidth reservation: ".to_owned().concat(&message);
    let plain = command_failure_report(
        config,
        run_id,
        interface,
        Outcome::Error,
        ErrorKind::Internal,
        text,
        zero_ms,
        now,
    );
    proof {
        let input = choose|input: ReportInput|
            ended_early(
                *config,
                run_id,
                *interface,
                command_failure(Outcome::Error, ErrorKind::Internal, text@, now),
                zero_ms,
                now,
                input,
            ) && #[trigger] reports_result(plain, input);
        assert(told(plain, input));
    }
    let mut report = plain;
    report.reservation_error = Some(message);
    report
}

/// Why a test ended before it was done.
#[derive(Clone, Copy, Debug, PartialEq, Eq, Structural)]
pub enum Interruption {
    TimedOut,
    Cancelled,
}

/// What is said of a test that ended before it was done.
pub open spec fn interruption_failure(
    config: BandwidthConfig,
    interruption: Interruption,
    now: Timestamp,
) -> FailureView {
    match interruption {
        Interruption::TimedOut => command_failure(
            Outcome::Timeout,
            ErrorKind::Timeout,
            "NDT7 test timed out after "@ + config.whole_test_timeout.text_spec(),
            now,
        ),
        Interruption::Cancelled => command_failure(
            Outcome::Cancelled,
            ErrorKind::Cancelled,
            "NDT7 test was cancelled"@,
            now,
        ),
    }
}

/// The report of a test that ended before it was done. It stays on the provider's account if its
/// start was.
pub open spec fn tells_interruption(
    report: BandwidthReport,
    config: BandwidthConfig,
    run_id: RunId,
    interface: Option<String>,
    interruption: Interruption,
    reservation: AdmissionReservation,
    zero_ms: Scalar,
    now: Timestamp,
) -> bool {
    exists|input: ReportInput, plain: BandwidthReport|
        {
            &&& ended_early(
                config,
                run_id,
                interface,
                interruption_failure(config, interruption, now),
                zero_ms,
                now,
                input,
            )
            &&& #[trigger] told(plain, input)
            &&& admitted(plain, reservation, report)
        }
}

/// Writes down a test that ended before it was done.
pub fn interrupted_report(
    config: &BandwidthConfig,
    run_id: RunId,
    interface: &Option<String>,
    interruption: Interruption,
    reservation: AdmissionReservation,
    zero_ms: Scalar,
    now: Timestamp,
) -> (report: BandwidthReport)
    requires
        now.valid(),
    ensures
        tells_interruption(
            report,
            *config,
            run_id,
            *interface,
            interruption,
            reservation,
            zero_ms,
            now,
        ),
{
    match interruption {
        Interruption::TimedOut => {
            timeout_report(config, run_id, interface, reservation, zero_ms, now)
        },
        Interruption::Cancelled => {
            cancelled_report(config, run_id, interface, reservation, zero_ms, now)
        },
    }
}

/// The servers that a test runs against, or its report if it does not run.
pub enum TestStart {
    Run {
        candidates: Vec<EndpointCandidate>,
        failures: Vec<RequestFailure>,
        reservation: AdmissionReservation,
    },
    Over(BandwidthReport),
}

/// The report of a test whose start could not be admitted.
pub open spec fn tells_refused_start(
    report: BandwidthReport,
    config: BandwidthConfig,
    run_id: RunId,
    interface: Option<String>,
    message: Seq<char>,
    zero_ms: Scalar,
    now: Timestamp,
) -> bool {
    &&& text_view(report.reservation_error) == Some(message)
    &&& exists|input: ReportInput, plain: BandwidthReport|
        {
            &&& ended_early(
                config,
                run_id,
                interface,
                command_failure(
                    Outcome::Error,
                    ErrorKind::Internal,
                    "cannot persist bandwidth reservation: "@ + message,
                    now,
                ),
                zero_ms,
                now,
                input,
            )
            &&& #[trigger] told(plain, input)
            &&& report == (BandwidthReport {
                reservation_error: report.reservation_error,
                ..plain
            })
        }
}

/// Goes on after a start was admitted or refused.
pub fn admitted_start(
    config: &BandwidthConfig,
    run_id: RunId,
    interface: &Option<String>,
    candidates: Vec<EndpointCandidate>,
    failures: Vec<RequestFailure>,
    admission: Result<AdmissionReservation, String>,
    zero_ms: Scalar,
    now: Timestamp,
) -> (start: TestStart)
    requires
        now.valid(),
    ensures
        match (admission, start) {
            (
                Ok(reservation),
                TestStart::Run { candidates: c, failures: f, reservation: r },
            ) => c == candidates && f == failures && r == reservation,
            (Err(message), TestStart::Over(report)) => {
                &&& report.reservation_error == Some(message)
                &&& tells_refused_start(
                    report,
                    *config,
                    run_id,
                    *interface,
                    message@,
                    zero_ms,
                    now,
                )
            },
            _ => false,
        },
{
    match admission {
        Ok(reservation) => TestStart::Run { candidates, failures, reservation },
        Err(message) => TestStart::Over(
            reservation_failed_report(config, run_id, interface, message, zero_ms, now),
        ),
    }
}

/// Begins a test once its servers are known: the start is put on the provider's account before
/// any server is asked, at the instant at which it begins. Where no server was found, the account
/// is left alone.
pub fn begin_test<G: ReservationGate>(
    config: &BandwidthConfig,
    run_id: RunId,
    interface: &Option<String>,
    resolution: EndpointResolution,
    gate: &mut G,
    zero_ms: Scalar,
    now: Timestamp,
) -> (start: TestStart)
    requires
        now.schedulable(),
        now.valid(),
    ensures
        match resolution.terminal {
            Some(terminal) => {
                &&& *final(gate) == *old(gate)
                &&& start is Over
                &&& tells_nothing_found(
                    start->Over_0,
                    *config,
                    run_id,
                    *interface,
                    resolution.failures@,
                    terminal,
                    zero_ms,
                    now,
                )
            },
            None => match start {
                TestStart::Run { candidates, failures, reservation } => {
                    &&& candidates == resolution.candidates
                    &&& failures == resolution.failures
                    &&& old(gate).admits(now, Ok(reservation), final(gate))
                },
                TestStart::Over(report) => {
                    &&& report.reservation_error is Some
                    &&& old(gate).admits(
                        now,
                        Err(report.reservation_error->0),
                        final(gate),
                    )
                    &&& tells_refused_start(
                        report,
                        *config,
                        run_id,
                        *interface,
                        report.reservation_error->0@,
                        zero_ms,
                        now,
                    )
                },
            },
        },
{
    let EndpointResolution { candidates, failures, terminal } = resolution;
    match terminal {
        Some(terminal) => TestStart::Over(
            resolution_report(config, run_id, interface, failures, terminal, zero_ms, now),
        ),
        None => {
            let admission = gate.reserve(now);
            admitted_start(
                config,
                run_id,
                interface,
                candidates,
                failures,
                admission,
                zero_ms,
                now,
            )
        },
    }
}

} // verus!
