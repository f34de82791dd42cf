//! The course of a bandwidth test: servers are found, the start is admitted, and servers are tried
//! until the test is over.
use super::run::{
    AfterDownload, CandidateResult, CandidateRun, Interruption, RunStep, TestStart,
    after_download_of, begin_test, candidate_report, failed_on, follows, interrupted_report,
    tells_interruption, tells_nothing_found, tells_refused_start, tells_result, tested_on,
};
use super::{AdmissionReservation, BandwidthReport, DirectionResult, ReservationGate};
use crate::config::BandwidthConfig;
use crate::model::{LoadPhase, Outcome, RunId};
use crate::provider::{EndpointCandidate, EndpointResolution, RequestFailure, failure_views};
use crate::scalar::Scalar;
use crate::time::Timestamp;
use vstd::prelude::*;

verus! {

/// How far a test has come.
#[derive(Clone, Copy, Debug, PartialEq, Eq, Structural)]
pub enum Stage {
    /// Servers are looked for.
    Resolving,
    /// A server's download is on.
    Downloading,
    /// The upload of the same server is on.
    Uploading,
    Over,
}

/// What a test does next.
pub enum MeasureStep {
    /// The download of the server with this number.
    Download(usize),
    /// The upload of the server with this number.
    Upload(usize),
    Over(BandwidthReport),
}

/// The phase of the load that a step stands for. A direction puts load on the line only while it is
/// connected; everything else is setup.
pub fn phase_of(step: &MeasureStep, connected: bool) -> (phase: LoadPhase)
    ensures
        phase == (match step {
            MeasureStep::Download(_) if connected => LoadPhase::Download,
            MeasureStep::Upload(_) if connected => LoadPhase::Upload,
            _ => LoadPhase::Setup,
        }),
{
    match step {
        MeasureStep::Download(_) if connected => LoadPhase::Download,
        MeasureStep::Upload(_) if connected => LoadPhase::Upload,
        _ => LoadPhase::Setup,
    }
}

/// A bandwidth test. `admission` is how its start was admitted, if it was.
pub struct BandwidthTest {
    pub run_id: RunId,
    pub interface: Option<String>,
    pub stage: Stage,
    pub candidates: Vec<EndpointCandidate>,
    pub earlier: Vec<RequestFailure>,
    pub admission: Option<AdmissionReservation>,
    pub run: CandidateRun,
}

/// On whose account a test is: on nobody's before its start was admitted.
pub open spec fn account(admission: Option<AdmissionReservation>) -> AdmissionReservation {
    match admission {
        Some(reservation) => reservation,
        None => AdmissionReservation::Untracked,
    }
}

impl BandwidthTest {
    /// Servers are tried only after the start was admitted, and only servers that were found.
    pub open spec fn well_formed(&self) -> bool {
        &&& self.stage == Stage::Resolving ==> self.admission is None
        &&& self.stage == Stage::Downloading || self.stage == Stage::Uploading ==> {
            &&& self.admission is Some
            &&& self.run.at < self.candidates@.len()
        }
    }

    /// The same test, with the same servers and the same admission.
    pub open spec fn same_test(&self, other: &Self) -> bool {
        &&& self.run_id == other.run_id
        &&& self.interface == other.interface
        &&& self.candidates == other.candidates
        &&& self.earlier == other.earlier
        &&& self.admission == other.admission
    }

    /// Begins to look for servers.
    pub fn new(run_id: RunId, interface: Option<String>) -> (test: Self)
        ensures
            test.well_formed(),
            test.run_id == run_id,
            test.interface == interface,
            test.stage == Stage::Resolving,
            test.candidates@.len() == 0,
            test.earlier@.len() == 0,
            test.admission is None,
            test.run.at == 0,
            test.run.failures@.len() == 0,
            test.run.download is None,
    {
        BandwidthTest {
            run_id,
            interface,
            stage: Stage::Resolving,
            candidates: Vec::new(),
            earlier: Vec::new(),
            admission: None,
            run: CandidateRun::new(),
        }
    }

    /// Takes in the servers that were found. The start is put on the provider's account before any
    /// of them is asked; where none was found, or the start is not admitted, the test is over.
    pub fn resolved<G: ReservationGate>(
        &mut self,
        config: &BandwidthConfig,
        resolution: EndpointResolution,
        gate: &mut G,
        zero_ms: Scalar,
        now: Timestamp,
    ) -> (step: MeasureStep)
        requires
            old(self).stage == Stage::Resolving,
            old(self).well_formed(),
            old(self).run.at == 0,
            resolution.terminal is None ==> resolution.candidates@.len() > 0,
            now.schedulable(),
        ensures
            final(self).well_formed(),
            final(self).run_id == old(self).run_id,
            final(self).interface == old(self).interface,
            match (resolution.terminal, step) {
                (Some(terminal), MeasureStep::Over(report)) => {
                    &&& final(self).stage == Stage::Over
                    &&& final(self).admission is None
                    &&& *final(gate) == *old(gate)
                    &&& tells_nothing_found(
                        report,
                        *config,
                        old(self).run_id,
                        old(self).interface,
                        resolution.failures@,
                        terminal,
                        zero_ms,
                        now,
                    )
                },
                (None, MeasureStep::Over(report)) => {
                    &&& final(self).stage == Stage::Over
                    &&& final(self).admission is None
                    &&& report.reservation_error is Some
                    &&& old(gate).admits(
                        now,
                        Err(report.reservation_error->0),
                        final(gate),
                    )
                    &&& tells_refused_start(
                        report,
                        *config,
                        old(self).run_id,
                        old(self).interface,
                        report.reservation_error->0@,
                        zero_ms,
                        now,
                    )
                },
                (None, MeasureStep::Download(number)) => {
                    &&& number == 0
                    &&& final(self).stage == Stage::Downloading
                    &&& final(self).admission is Some
                    &&& old(gate).admits(now, Ok(final(self).admission->0), final(gate))
                    &&& final(self).candidates == resolution.candidates
                    &&& final(self).earlier == resolution.failures
                    &&& final(self).run == old(self).run
                },
                _ => false,
            },
    {
        match begin_test(config, self.run_id, &self.interface, resolution, gate, zero_ms, now) {
            TestStart::Run { candidates, failures, reservation } => {
                self.candidates = candidates;
                self.earlier = failures;
                self.admission = Some(reservation);
                self.stage = Stage::Downloading;
                MeasureStep::Download(0)
            },
            TestStart::Over(report) => {
                self.stage = Stage::Over;
                MeasureStep::Over(report)
            },
        }
    }

    /// Ends the test with what came of its servers.
    fn end(&mut self, result: CandidateResult, total_ms: Scalar, now: Timestamp) -> (report:
        BandwidthReport)
        requires
            now.valid(),
            follows(now, result.download),
            follows(now, result.upload),
        ensures
            final(self).stage == Stage::Over,
            final(self).run_id == old(self).run_id,
            final(self).interface == old(self).interface,
            final(self).admission == old(self).admission,
            tells_result(
                report,
                old(self).run_id,
                old(self).interface,
                result,
                old(self).earlier@,
                account(old(self).admission),
                total_ms,
                now,
            ),
    {
        self.stage = Stage::Over;
        let reservation = match self.admission {
            Some(reservation) => reservation,
            None => AdmissionReservation::Untracked,
        };
        let mut earlier: Vec<RequestFailure> = Vec::new();
        std::mem::swap(&mut earlier, &mut self.earlier);
        candidate_report(
            self.run_id,
            &self.interface,
            result,
            earlier,
            reservation,
            total_ms,
            now,
        )
    }

    /// Takes in a download: the upload follows, or another server is tried, or the test is over.
    pub fn downloaded(&mut self, download: DirectionResult, total_ms: Scalar, now: Timestamp) -> (
        step: MeasureStep)
        requires
            old(self).stage == Stage::Downloading,
            old(self).well_formed(),
            now.valid(),
        ensures
            final(self).well_formed(),
            final(self).run_id == old(self).run_id,
            final(self).interface == old(self).interface,
            final(self).admission == old(self).admission,
            match (
                after_download_of(
                    download.measurement is Some,
                    failure_views(download.failures@),
                ),
                step,
            ) {
                (AfterDownload::Stop(outcome), MeasureStep::Over(report)) => {
                    &&& final(self).stage == Stage::Over
                    &&& exists|result: CandidateResult|
                        failed_on(
                            result,
                            old(self).candidates@[old(self).run.at as int],
                            old(self).run.failures@ + download.failures@,
                            outcome,
                        ) && #[trigger] tells_result(
                            report,
                            old(self).run_id,
                            old(self).interface,
                            result,
                            old(self).earlier@,
                            account(old(self).admission),
                            total_ms,
                            now,
                        )
                },
                (AfterDownload::NextCandidate, MeasureStep::Over(report)) => {
                    &&& final(self).stage == Stage::Over
                    &&& old(self).run.at + 1 == old(self).candidates@.len()
                    &&& exists|result: CandidateResult|
                        failed_on(
                            result,
                            old(self).candidates@[0],
                            old(self).run.failures@ + download.failures@,
                            Outcome::NoCapacity,
                        ) && #[trigger] tells_result(
                            report,
                            old(self).run_id,
                            old(self).interface,
                            result,
                            old(self).earlier@,
                            account(old(self).admission),
                            total_ms,
                            now,
                        )
                },
                (AfterDownload::NextCandidate, MeasureStep::Download(number)) => {
                    &&& final(self).stage == Stage::Downloading
                    &&& final(self).same_test(old(self))
                    &&& number == old(self).run.at + 1
                    &&& final(self).run.at == number
                    &&& final(self).run.download == old(self).run.download
                    &&& final(self).run.failures@ == old(self).run.failures@ + download.failures@
                },
                (AfterDownload::Upload, MeasureStep::Upload(number)) => {
                    &&& final(self).stage == Stage::Uploading
                    &&& final(self).same_test(old(self))
                    &&& number == old(self).run.at
                    &&& final(self).run.at == number
                    &&& final(self).run.download == download.measurement
                    &&& final(self).run.failures@ == old(self).run.failures@ + download.failures@
                },
                _ => false,
            },
    {
        match self.run.downloaded(&self.candidates, download) {
            RunStep::Download => MeasureStep::Download(self.run.at),
            RunStep::Upload => {
                self.stage = Stage::Uploading;
                MeasureStep::Upload(self.run.at)
            },
            RunStep::Finished(result) => MeasureStep::Over(self.end(result, total_ms, now)),
        }
    }

    /// Takes in the upload, with which the test is over.
    pub fn uploaded(&mut self, upload: DirectionResult, total_ms: Scalar, now: Timestamp) -> (report:
        BandwidthReport)
        requires
            old(self).stage == Stage::Uploading,
            old(self).well_formed(),
            now.valid(),
            follows(now, old(self).run.download),
            follows(now, upload.measurement),
        ensures
            final(self).well_formed(),
            final(self).stage == Stage::Over,
            final(self).run_id == old(self).run_id,
            final(self).interface == old(self).interface,
            final(self).admission == old(self).admission,
            exists|result: CandidateResult|
                tested_on(
                    result,
                    old(self).candidates@[old(self).run.at as int],
                    old(self).run.download,
                    old(self).run.failures@,
                    upload,
                ) && #[trigger] tells_result(
                    report,
                    old(self).run_id,
                    old(self).interface,
                    result,
                    old(self).earlier@,
                    account(old(self).admission),
                    total_ms,
                    now,
                ),
    {
        let mut run = CandidateRun::new();
        std::mem::swap(&mut run, &mut self.run);
        let result = run.uploaded(&self.candidates, upload);
        self.end(result, total_ms, now)
    }

    /// Ends the test before it is done. It stays on the provider's account if its start was
    /// admitted.
    pub fn interrupted(
        &mut self,
        config: &BandwidthConfig,
        interruption: Interruption,
        zero_ms: Scalar,
        now: Timestamp,
    ) -> (report: BandwidthReport)
        requires
            now.valid(),
        ensures
            final(self).well_formed(),
            final(self).stage == Stage::Over,
            final(self).same_test(old(self)),
            tells_interruption(
                report,
                *config,
                old(self).run_id,
                old(self).interface,
                interruption,
                account(old(self).admission),
                zero_ms,
                now,
            ),
    {
        self.stage = Stage::Over;
        let reservation = match self.admission {
            Some(reservation) => reservation,
            None => AdmissionReservation::Untracked,
        };
        interrupted_report(
            config,
            self.run_id,
            &self.interface,
            interruption,
            reservation,
            zero_ms,
            now,
        )
    }
}

} // verus!
