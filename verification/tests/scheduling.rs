use netband::bandwidth::{AdmissionReservation, BandwidthReport, ReservationGate};
use netband::cli::{Cli, Commands, ConfigCommand, Options};
use netband::config::resolve::resolve;
use netband::config::{BandwidthConfig, FileConfig, ResolveContext};
use netband::health::{DegradationReason, HealthDecision, HealthSnapshot};
use netband::model::{
    ErrorKind, EventKind, MeasurementEvent, Outcome, RequestStage, RunId, Scalar, TriggerReason,
};
use netband::monitor::finish_test;
use netband::scheduler::persistence::{
    FileKind, Header, MarkerFile, ParsedRecord, Persistence, Record, Recovered, Recovery,
    RecoveryFiles, check_state_name, commit_plan, installation_header, new_installation, read_log,
    recover, split_log,
};
use netband::scheduler::reservations::{gather_entries, list_lines};
use netband::scheduler::state::ProviderState;
use netband::scheduler::store::{Checkpoint, SchedulerStore, same_accounting};
use netband::scheduler::{
    BandwidthOpportunity, ManualDecision, ReservationLedgerEntry, Scheduler, SchedulerError,
    SchedulerPolicy,
    manual_opportunity,
};
use netband::string_map::StringMap;
use netband::time::Timestamp;
use std::cell::RefCell;
use std::rc::Rc;

const SECOND: i128 = 1_000_000_000;
const HOUR: i128 = 3_600 * SECOND;
const DAY: i128 = 24 * HOUR;

/// Noon on the eighth of September 2026.
fn now() -> Timestamp {
    Timestamp { nanos: 20_704 * DAY + 12 * HOUR }
}

fn later(nanos: i128) -> Timestamp {
    Timestamp { nanos: now().nanos + nanos }
}

fn run_id() -> RunId {
    RunId { value: 7 }
}

fn config() -> BandwidthConfig {
    let cli = Cli {
        options: Options { accept_mlab_policy: true, ..Options::default() },
        command: Commands::Config { command: ConfigCommand::Check },
    };
    let context = ResolveContext {
        stdout_is_terminal: false,
        current_dir: "/work".into(),
        state_dir: "/state".into(),
        data_dir: "/data".into(),
    };
    resolve(&cli, &FileConfig::default(), &context).ok().unwrap().bandwidth
}

/// What has been written down so far, by the bytes that stand for it.
#[derive(Default)]
struct Codec {
    stores: Vec<(Vec<u8>, SchedulerStore)>,
    checkpoints: Vec<(Vec<u8>, Checkpoint)>,
    headers: Vec<(Vec<u8>, (u8, String))>,
    records: Vec<(Vec<u8>, (u64, String, SchedulerStore, String))>,
}

fn state_text(state: &ProviderState) -> String {
    let mut text = format!(
        "{:?} {:?} {:?} {:?} {:?} {} {:?} {} {} {} {} {:?}",
        state.day_utc,
        state.slots,
        state.runs,
        state.last_started_at_utc,
        state.cooldown_until_utc,
        state.backoff_step,
        state.deferred,
        state.policy_daily_max,
        state.policy_min_spacing_ms,
        state.policy_slot_jitter_pct,
        state.rng_state,
        state.last_observed_utc,
    );
    for i in 0..state.interface_triggers.len() {
        text.push_str(&format!(
            " {} {:?}",
            state.interface_triggers.key_at(i),
            state.interface_triggers.value_at(i)
        ));
    }
    text
}

fn store_text(store: &SchedulerStore) -> String {
    let mut text = format!("store {} {:?}", store.schema_version, store.checkpoint);
    for i in 0..store.providers.len() {
        text.push_str(&format!(
            " [{} {}]",
            store.providers.key_at(i),
            state_text(store.providers.value_at(i))
        ));
    }
    text
}

fn payload(sequence: u64, previous_digest: &str, state: &SchedulerStore) -> Vec<u8> {
    format!("({sequence},{previous_digest},{})", store_text(state)).into_bytes()
}

impl Codec {
    fn store(&mut self, store: &SchedulerStore) -> Vec<u8> {
        let bytes = store_text(store).into_bytes();
        self.stores.push((bytes.clone(), store.clone()));
        bytes
    }

    fn checkpoint(&mut self, checkpoint: &Checkpoint) -> Vec<u8> {
        let bytes = format!("{checkpoint:?}").into_bytes();
        self.checkpoints.push((bytes.clone(), checkpoint.clone()));
        bytes
    }

    fn header(&mut self, header: &Header) -> Vec<u8> {
        let bytes = format!("{header:?}").into_bytes();
        self.headers.push((bytes.clone(), (header.version, header.installation.clone())));
        bytes
    }

    fn record(&mut self, record: &Record) -> Vec<u8> {
        let mut bytes = b"record ".to_vec();
        bytes.extend(payload(record.sequence, &record.previous_digest, &record.state));
        bytes.extend(record.digest.as_bytes());
        self.records.push((
            bytes.clone(),
            (
                record.sequence,
                record.previous_digest.clone(),
                record.state.clone(),
                record.digest.clone(),
            ),
        ));
        bytes
    }

    fn read_store(&self, bytes: &[u8]) -> Result<SchedulerStore, String> {
        self.stores
            .iter()
            .find(|(known, _)| known == bytes)
            .map(|(_, store)| store.clone())
            .ok_or_else(|| "no snapshot".to_owned())
    }

    fn read_checkpoint(&self, bytes: &[u8]) -> Result<Checkpoint, String> {
        self.checkpoints
            .iter()
            .find(|(known, _)| known == bytes)
            .map(|(_, checkpoint)| checkpoint.clone())
            .ok_or_else(|| "no checkpoint".to_owned())
    }

    fn read_header(&self, bytes: &[u8]) -> Result<Header, String> {
        self.headers
            .iter()
            .find(|(known, _)| known == bytes)
            .map(|(_, (version, installation))| Header {
                version: *version,
                installation: installation.clone(),
            })
            .ok_or_else(|| "no header".to_owned())
    }

    fn read_record(&self, bytes: &[u8]) -> Result<ParsedRecord, String> {
        self.records
            .iter()
            .find(|(known, _)| known == bytes)
            .map(|(_, (sequence, previous_digest, state, digest))| ParsedRecord {
                record: Record {
                    sequence: *sequence,
                    previous_digest: previous_digest.clone(),
                    state: state.clone(),
                    digest: digest.clone(),
                },
                payload: payload(*sequence, previous_digest, state),
            })
            .ok_or_else(|| "no record".to_owned())
    }
}

#[derive(Clone, Copy, Debug, PartialEq, Eq)]
enum Step {
    Write,
    PartialWrite,
    Sync,
    Rename,
    DirectorySync,
}

const STEPS: [Step; 5] = [
    Step::Write,
    Step::PartialWrite,
    Step::Sync,
    Step::Rename,
    Step::DirectorySync,
];

/// The files of a scheduler on a disk that is only in memory, and the write that is to fail.
#[derive(Clone)]
struct Disk {
    codec: Rc<RefCell<Codec>>,
    snapshot: Option<Vec<u8>>,
    backup: Option<Vec<u8>>,
    marker: Option<Vec<u8>>,
    ledger: Option<Vec<u8>>,
    fault: Option<(FileKind, Step, usize)>,
}

type Contents = (Option<Vec<u8>>, Option<Vec<u8>>, Option<Vec<u8>>, Option<Vec<u8>>);

const PATH: &str = "/state/scheduler.json";
const MARKER: &str = "/state/scheduler.initialized";
const LEDGER: &str = "/state/scheduler.accounting.jsonl";

fn injected() -> SchedulerError {
    SchedulerError::Io {
        path: PATH.into(),
        permission_denied: false,
        message: "injected persistence failure".into(),
    }
}

impl Disk {
    fn new() -> Disk {
        Disk {
            codec: Rc::new(RefCell::new(Codec::default())),
            snapshot: None,
            backup: None,
            marker: None,
            ledger: None,
            fault: None,
        }
    }

    /// Another disk whose files can be read here too.
    fn beside(&self) -> Disk {
        let mut other = Disk::new();
        other.codec = Rc::clone(&self.codec);
        other
    }

    fn contents(&self) -> Contents {
        (
            self.snapshot.clone(),
            self.backup.clone(),
            self.marker.clone(),
            self.ledger.clone(),
        )
    }

    fn fails(&mut self, kind: FileKind, step: Step) -> bool {
        match self.fault {
            Some((expected, at, skip)) if (expected, at) == (kind, step) => {
                self.fault = if skip == 0 { None } else { Some((kind, step, skip - 1)) };
                skip == 0
            }
            _ => false,
        }
    }

    fn file(&mut self, kind: FileKind) -> &mut Option<Vec<u8>> {
        match kind {
            FileKind::Ledger => &mut self.ledger,
            FileKind::Checkpoint => &mut self.marker,
            FileKind::Backup => &mut self.backup,
            FileKind::Snapshot => &mut self.snapshot,
        }
    }

    fn replace(&mut self, kind: FileKind, bytes: Vec<u8>) -> Result<(), SchedulerError> {
        for step in [Step::Write, Step::PartialWrite, Step::Sync, Step::Rename] {
            if self.fails(kind, step) {
                return Err(injected());
            }
        }
        *self.file(kind) = Some(bytes);
        if self.fails(kind, Step::DirectorySync) {
            return Err(injected());
        }
        Ok(())
    }

    fn append(&mut self, bytes: &[u8]) -> Result<(), SchedulerError> {
        let kind = FileKind::Ledger;
        if self.fails(kind, Step::Write) {
            return Err(injected());
        }
        let half = self.fails(kind, Step::PartialWrite);
        let ledger = self.ledger.as_mut().ok_or_else(injected)?;
        if half {
            ledger.extend_from_slice(&bytes[..bytes.len() / 2]);
            return Err(injected());
        }
        ledger.extend_from_slice(bytes);
        if self.fails(kind, Step::Sync) {
            return Err(injected());
        }
        Ok(())
    }

    fn files(&self) -> RecoveryFiles {
        let codec = self.codec.borrow();
        RecoveryFiles {
            path: PATH.into(),
            marker_path: MARKER.into(),
            ledger_path: LEDGER.into(),
            primary: self.snapshot.as_ref().map(|bytes| codec.read_store(bytes)),
            marker: self.marker.as_ref().map(|bytes| MarkerFile {
                empty: bytes.is_empty(),
                checkpoint: codec.read_checkpoint(bytes),
            }),
            ledger: self.ledger.as_ref().map(|bytes| {
                let mut lines = split_log(LEDGER, bytes)?;
                let first = lines.remove(0);
                let records = lines.iter().map(|line| codec.read_record(line)).collect();
                read_log(LEDGER, &first, codec.read_header(&first), records)
            }),
            backup: self.backup.is_some(),
        }
    }
}

/// A scheduler with its files.
struct Machine {
    disk: Disk,
    scheduler: Scheduler,
    persistence: Persistence,
}

fn start(
    disk: &mut Disk,
    config: &BandwidthConfig,
    at: Timestamp,
) -> Result<Machine, SchedulerError> {
    check_state_name(PATH, true, Some("json"))?;
    let ready: Recovered = match recover(disk.files())? {
        Recovery::Ready(ready) => ready,
        Recovery::NeedsLog => {
            let header = new_installation(PATH)?;
            let mut line = disk.codec.borrow_mut().header(&header);
            line.push(b'\n');
            disk.replace(FileKind::Ledger, line)?;
            match recover(disk.files())? {
                Recovery::Ready(ready) => ready,
                Recovery::NeedsLog => panic!("the log was just written"),
            }
        }
    };
    let marker = disk.codec.borrow_mut().checkpoint(&ready.checkpoint);
    if disk.marker.as_ref() != Some(&marker) {
        disk.replace(FileKind::Checkpoint, marker)?;
    }
    let persistence = Persistence::new(
        PATH.into(),
        ready.checkpoint,
        ready.committed,
        disk.snapshot.as_ref(),
        disk.ledger.as_ref().unwrap().len() as u64,
    );
    let scheduler = Scheduler::open_seeded(
        ready.store,
        &vec![],
        SchedulerPolicy::of(config),
        at,
        7,
        disk.snapshot.is_some(),
    )?;
    let changed = scheduler.unsaved || ready.replayed;
    let mut machine = Machine { disk: disk.clone(), scheduler, persistence };
    if changed {
        let saved = machine.persist();
        *disk = machine.disk.clone();
        saved?;
    }
    Ok(machine)
}

fn open(disk: &mut Disk) -> Result<Machine, SchedulerError> {
    start(disk, &config(), now())
}

impl Machine {
    fn new(at: Timestamp) -> Machine {
        start(&mut Disk::new(), &config(), at).unwrap()
    }

    fn persist(&mut self) -> Result<(), SchedulerError> {
        let mut store = self.scheduler.to_store();
        self.persistence.begin(&store)?;
        let previous = self.disk.snapshot.clone();
        let corrupt = |message: String| SchedulerError::Corrupt { path: MARKER.into(), message };
        let marker = self
            .disk
            .marker
            .as_ref()
            .ok_or_else(|| corrupt("required recovery file is missing".into()))?;
        let checkpoint =
            self.disk.codec.borrow().read_checkpoint(marker).map_err(corrupt)?;
        let length = self.disk.ledger.as_ref().ok_or_else(injected)?.len() as u64;
        self.persistence.check_files(previous.as_ref(), &checkpoint, length)?;
        let sequence = self.persistence.next_sequence(&store)?;
        for kind in commit_plan(sequence.is_some(), previous.is_some()) {
            match kind {
                FileKind::Ledger => {
                    let state = self.persistence.record_state(&store);
                    let bytes = payload(
                        sequence.unwrap(),
                        &self.persistence.checkpoint.digest,
                        &state,
                    );
                    let record = self.persistence.seal(state, &bytes);
                    let mut line = self.disk.codec.borrow_mut().record(&record);
                    line.push(b'\n');
                    self.disk.append(&line)?;
                    self.persistence.recorded(record, line.len() as u64);
                }
                FileKind::Checkpoint => {
                    let bytes =
                        self.disk.codec.borrow_mut().checkpoint(&self.persistence.checkpoint);
                    self.disk.replace(kind, bytes)?;
                }
                FileKind::Backup => self.disk.replace(kind, previous.clone().unwrap())?,
                FileKind::Snapshot => {
                    store.checkpoint = Some(self.persistence.checkpoint.clone());
                    let bytes = self.disk.codec.borrow_mut().store(&store);
                    self.disk.replace(kind, bytes.clone())?;
                    self.persistence.saved(&bytes);
                    self.scheduler.unsaved = false;
                }
            }
        }
        Ok(())
    }

    fn reserve_run(&mut self, at: Timestamp) -> Result<u32, SchedulerError> {
        let reservation = self.scheduler.reserve_run(at)?;
        self.persist()?;
        Ok(reservation.daily_runs_used)
    }

    fn flush(&mut self) -> Result<(), SchedulerError> {
        if self.scheduler.unsaved {
            self.persist()?;
        }
        Ok(())
    }

    fn runs(&self) -> Vec<Timestamp> {
        self.scheduler.snapshot().runs
    }

    fn blocked(&mut self, at: Timestamp) -> bool {
        matches!(self.scheduler.preflight_manual(run_id(), at), ManualDecision::Blocked(_))
    }
}

fn assert_rejected_unchanged(disk: &mut Disk) {
    let before = disk.contents();
    assert!(open(disk).is_err());
    assert_eq!(disk.contents(), before);
}

#[test]
fn reservation_commit_failures_never_return_admission_or_refund_written_records() {
    for kind in [
        FileKind::Ledger,
        FileKind::Checkpoint,
        FileKind::Backup,
        FileKind::Snapshot,
    ] {
        for step in STEPS {
            if kind == FileKind::Ledger && matches!(step, Step::Rename | Step::DirectorySync) {
                continue;
            }
            let mut machine = Machine::new(now());
            machine.disk.fault = Some((kind, step, 0));
            assert!(machine.reserve_run(now()).is_err(), "{kind:?}/{step:?}");
            machine.disk.fault = None;
            let failed = machine.disk.contents();
            assert!(machine.reserve_run(later(HOUR)).is_err());
            assert!(machine.flush().is_err());
            assert_eq!(
                machine.disk.contents(),
                failed,
                "poisoned scheduler wrote more data"
            );
            let mut disk = machine.disk;
            if kind == FileKind::Ledger && step == Step::PartialWrite {
                assert_rejected_unchanged(&mut disk);
            } else {
                let recovered = open(&mut disk).unwrap();
                let expected = usize::from(!(kind == FileKind::Ledger && step == Step::Write));
                assert_eq!(recovered.runs().len(), expected, "{kind:?}/{step:?}");
            }
        }
    }
}

#[test]
fn ordinary_ping_state_flushes_do_not_append_accounting_records() {
    let mut machine = Machine::new(now());
    let before = machine.disk.ledger.clone();
    machine.scheduler.preflight_manual(run_id(), later(60 * SECOND));
    machine.flush().unwrap();
    assert_eq!(machine.disk.ledger, before);
}

#[test]
fn missing_ledger_during_reservation_is_fatal_and_not_recreated() {
    let mut machine = Machine::new(now());
    machine.disk.ledger = None;
    assert!(machine.reserve_run(now()).is_err());
    assert!(machine.disk.ledger.is_none());
    assert!(machine.flush().is_err());
}

#[test]
fn failed_cooldown_commit_replays_complete_evidence_or_refuses_recovery() {
    for kind in [
        FileKind::Ledger,
        FileKind::Checkpoint,
        FileKind::Backup,
        FileKind::Snapshot,
    ] {
        for step in STEPS {
            if kind == FileKind::Ledger
                && matches!(step, Step::Write | Step::Rename | Step::DirectorySync)
            {
                continue;
            }
            let mut machine = Machine::new(now());
            let deadline = later(2 * DAY);
            machine.scheduler.state.cooldown_until_utc = Some(deadline);
            machine.scheduler.state.backoff_step = 1;
            machine.disk.fault = Some((kind, step, 0));
            assert!(machine.persist().is_err());
            machine.disk.fault = None;
            let mut disk = machine.disk;
            if kind == FileKind::Ledger && step == Step::PartialWrite {
                assert_rejected_unchanged(&mut disk);
            } else {
                let mut recovered = open(&mut disk).unwrap();
                assert_eq!(
                    recovered.scheduler.snapshot().cooldown_until_utc,
                    Some(deadline)
                );
                assert!(recovered.blocked(now()));
            }
        }
    }
}

#[test]
fn failed_recovery_checkpoint_update_is_retryable_without_refunding() {
    for step in STEPS {
        let mut machine = Machine::new(now());
        let checkpoint = machine.disk.marker.clone();
        machine.reserve_run(now()).unwrap();
        let mut disk = machine.disk;
        disk.marker = checkpoint;
        disk.snapshot = disk.backup.clone();
        disk.fault = Some((FileKind::Checkpoint, step, 0));
        assert!(open(&mut disk).is_err());
        disk.fault = None;
        assert_eq!(open(&mut disk).unwrap().runs(), vec![now()]);
    }
}

#[test]
fn live_file_replacement_and_truncation_fail_before_appending_a_reservation() {
    for kind in [FileKind::Snapshot, FileKind::Checkpoint, FileKind::Ledger] {
        let mut machine = Machine::new(now());
        *machine.disk.file(kind) = Some(b"changed".to_vec());
        let before = machine.disk.contents();
        assert!(machine.reserve_run(now()).is_err());
        assert_eq!(machine.disk.contents(), before);
    }
}

#[test]
fn invalid_in_memory_state_and_sequence_overflow_do_not_write() {
    for overflow in [false, true] {
        let mut machine = Machine::new(now());
        if overflow {
            machine.persistence.checkpoint.sequence = u64::MAX;
            let bytes =
                machine.disk.codec.borrow_mut().checkpoint(&machine.persistence.checkpoint);
            machine.disk.marker = Some(bytes);
        } else {
            machine.scheduler.state.policy_min_spacing_ms = 0;
        }
        let before = machine.disk.contents();
        assert!(machine.reserve_run(now()).is_err());
        assert_eq!(machine.disk.contents(), before);
    }
}

#[test]
fn new_state_has_a_checkpoint_and_empty_accounting_before_first_start() {
    let mut machine = Machine::new(now());
    let marker = machine.disk.marker.clone().unwrap();
    let checkpoint = machine.disk.codec.borrow().read_checkpoint(&marker).unwrap();
    assert_eq!(checkpoint.sequence, 1);
    assert!(machine.runs().is_empty());
    let ledger = machine.disk.ledger.clone().unwrap();
    let lines = split_log(LEDGER, &ledger).unwrap();
    assert_eq!(lines.len(), 2);
    let record = machine.disk.codec.borrow().read_record(&lines[1]).unwrap().record;
    assert!(record.state.providers.get("mlab").unwrap().runs.is_empty());
    machine.flush().unwrap();
    let mut disk = machine.disk;
    let mut machine = open(&mut disk).unwrap();
    assert_eq!(machine.reserve_run(now()).unwrap(), 1);
    let mut disk = machine.disk;
    assert_eq!(open(&mut disk).unwrap().runs(), vec![now()]);
}

#[test]
fn interrupted_initialization_resumes_or_rejects_an_incomplete_log() {
    for kind in [FileKind::Ledger, FileKind::Checkpoint, FileKind::Snapshot] {
        for step in STEPS {
            for skip in 0..=usize::from(kind != FileKind::Snapshot) {
                if kind == FileKind::Ledger
                    && skip == 1
                    && matches!(step, Step::Rename | Step::DirectorySync)
                {
                    continue;
                }
                let mut disk = Disk::new();
                disk.fault = Some((kind, step, skip));
                assert!(open(&mut disk).is_err(), "{kind:?}/{step:?}/{skip}");
                disk.fault = None;
                if kind == FileKind::Ledger && step == Step::PartialWrite && skip == 1 {
                    assert_rejected_unchanged(&mut disk);
                } else {
                    let mut machine = match open(&mut disk) {
                        Ok(machine) => machine,
                        Err(error) => {
                            panic!("{kind:?}/{step:?}/{skip}: {}", error.message())
                        }
                    };
                    assert_eq!(machine.reserve_run(now()).unwrap(), 1);
                }
            }
        }
    }
}

#[test]
fn orphan_artifacts_are_not_treated_as_a_new_installation() {
    for kind in [FileKind::Backup, FileKind::Checkpoint, FileKind::Ledger] {
        let mut disk = Disk::new();
        *disk.file(kind) = Some(b"broken".to_vec());
        assert_rejected_unchanged(&mut disk);
    }
}

#[test]
fn conflicting_state_filenames_are_rejected_before_creating_files() {
    for extension in ["lock", "bak", "initialized"] {
        let path = format!("/state/scheduler.{extension}");
        assert_eq!(
            check_state_name(&path, true, Some(extension)),
            Err(SchedulerError::Corrupt {
                path: path.clone(),
                message:
                    "state path conflicts with a recovery file; use a name such as scheduler.json"
                        .into(),
            })
        );
    }
    assert_eq!(check_state_name("/state/scheduler.json", true, Some("json")), Ok(()));
    assert_eq!(check_state_name("/state/scheduler", true, None), Ok(()));
    assert!(check_state_name("/", false, None).is_err());
}

#[test]
fn stale_backup_replays_reservations_and_spacing_idempotently() {
    let mut machine = Machine::new(now());
    machine.reserve_run(now()).unwrap();
    let mut disk = machine.disk;
    disk.snapshot = disk.backup.clone();
    for _ in 0..2 {
        let mut recovered = open(&mut disk).unwrap();
        assert_eq!(recovered.runs(), vec![now()]);
        assert_eq!(recovered.scheduler.snapshot().last_started_at_utc, Some(now()));
        assert!(recovered.blocked(now()));
    }
}

#[test]
fn missing_empty_truncated_and_corrupt_evidence_fail_without_mutation() {
    for kind in [FileKind::Checkpoint, FileKind::Ledger] {
        for damage in ["missing", "empty", "partial", "invalid", "suffix"] {
            let mut machine = Machine::new(now());
            machine.reserve_run(now()).unwrap();
            let mut disk = machine.disk;
            disk.snapshot = disk.backup.clone();
            let bytes = disk.file(kind).clone().unwrap();
            *disk.file(kind) = match damage {
                "missing" => None,
                "empty" => Some(Vec::new()),
                "partial" => Some(bytes[..bytes.len() / 2].to_vec()),
                "invalid" => Some(b"invalid\n".to_vec()),
                _ if kind == FileKind::Ledger => {
                    let end = bytes[..bytes.len() - 1]
                        .iter()
                        .rposition(|byte| *byte == b'\n')
                        .unwrap();
                    Some(bytes[..=end].to_vec())
                }
                _ => Some(b"{}\n".to_vec()),
            };
            assert_rejected_unchanged(&mut disk);
        }
    }
}

#[test]
fn mismatched_installations_and_snapshot_accounting_are_rejected() {
    for kind in [FileKind::Checkpoint, FileKind::Ledger, FileKind::Snapshot] {
        let mut root = Disk::new();
        let mut other = root.beside();
        open(&mut root).unwrap();
        open(&mut other).unwrap();
        *root.file(kind) = other.file(kind).clone();
        assert_rejected_unchanged(&mut root);
    }
    let mut root = Disk::new();
    open(&mut root).unwrap();
    let bytes = root.snapshot.clone().unwrap();
    let mut store = root.codec.borrow().read_store(&bytes).unwrap();
    let mut state = store.providers.get("mlab").unwrap().clone();
    state.cooldown_until_utc = Some(now());
    store.providers.put("mlab".into(), state);
    let changed = root.codec.borrow_mut().store(&store);
    root.snapshot = Some(changed);
    assert_rejected_unchanged(&mut root);
}

#[test]
fn malformed_or_missing_primary_requires_explicit_backup_restoration() {
    for missing in [false, true] {
        let mut machine = Machine::new(now());
        machine.reserve_run(now()).unwrap();
        let mut disk = machine.disk;
        disk.snapshot = if missing { None } else { Some(b"not json".to_vec()) };
        assert_rejected_unchanged(&mut disk);
        disk.snapshot = disk.backup.clone();
        assert_eq!(open(&mut disk).unwrap().runs().len(), 1);
    }
}

fn refusal(at: Timestamp, seconds: Option<u64>) -> BandwidthReport {
    let mut event = MeasurementEvent::new(
        run_id(),
        EventKind::RequestFailure,
        Outcome::RateLimited,
        at,
    );
    event.request_stage = Some(RequestStage::Locate);
    event.request_http_status = Some(429);
    event.request_retry_after_ms = seconds.map(|seconds| seconds * 1000);
    event.request_retry_at_utc =
        seconds.map(|seconds| Timestamp { nanos: at.nanos + seconds as i128 * SECOND });
    BandwidthReport {
        events: vec![event],
        outcome: Outcome::RateLimited,
        reserved: false,
        reservation_error: None,
    }
}

fn record_cooldown(machine: &mut Machine, at: Timestamp, seconds: Option<u64>) {
    let opportunity = BandwidthOpportunity {
        reason: TriggerReason::Scheduled,
        scheduled_at_utc: at,
        interface: None,
    };
    let mut report = refusal(at, seconds);
    machine.scheduler.finish_attempt(run_id(), at, &opportunity, &mut report);
    machine.persist().unwrap();
}

#[test]
fn stale_backup_preserves_provider_cooldown_across_midnight_and_restart() {
    for retry in [Some(300), Some(2 * 86400), None] {
        let before_midnight = Timestamp { nanos: 20_704 * DAY + DAY - SECOND };
        let mut machine = Machine::new(before_midnight);
        let backup = machine.disk.snapshot.clone();
        record_cooldown(&mut machine, before_midnight, retry);
        let deadline = machine.scheduler.snapshot().cooldown_until_utc.unwrap();
        if let Some(seconds) = retry {
            assert_eq!(
                deadline.nanos,
                before_midnight.nanos + seconds as i128 * SECOND
            );
        }
        assert!(deadline.nanos > before_midnight.nanos + SECOND);
        let mut disk = machine.disk;
        disk.snapshot = backup;
        for nanos in [before_midnight.nanos + 2 * SECOND, deadline.nanos - SECOND] {
            let at = Timestamp { nanos };
            let mut recovered = start(&mut disk, &config(), at).unwrap();
            assert_eq!(
                recovered.scheduler.snapshot().cooldown_until_utc,
                Some(deadline)
            );
            assert!(recovered.blocked(at));
        }
        let mut recovered = start(&mut disk, &config(), deadline).unwrap();
        assert!(!recovered.blocked(deadline));
    }
}

#[test]
fn replay_restores_all_providers_and_preserves_duplicate_start_timestamps() {
    let mut first_config = config();
    first_config.force_limits = true;
    let mut disk = Disk::new();
    let mut first = start(&mut disk, &first_config, now()).unwrap();
    let backup = first.disk.snapshot.clone();
    for expected in 1..=4 {
        assert_eq!(first.reserve_run(now()).unwrap(), expected);
    }
    let mut disk = first.disk;
    let mut second_config = config();
    second_config.force_limits = true;
    second_config.provider_id = "other".to_owned();
    let mut second = start(&mut disk, &second_config, now()).unwrap();
    second.reserve_run(now()).unwrap();
    let mut disk = second.disk;
    disk.snapshot = backup;
    let mut first = start(&mut disk, &first_config, now()).unwrap();
    assert_eq!(first.runs().len(), 4);
    assert!(first.reserve_run(now()).is_err());
    let second = start(&mut disk, &second_config, now()).unwrap();
    assert_eq!(second.runs(), vec![now()]);
}

#[test]
fn ledger_record_corruption_is_detected_even_beyond_the_checkpoint() {
    for uncheckpointed in [false, true] {
        for damage in [
            "digest",
            "sequence",
            "chain",
            "state",
            "duplicate",
            "blank",
            "schema",
        ] {
            let mut machine = Machine::new(now());
            let checkpoint = machine.disk.marker.clone();
            let snapshot = machine.disk.snapshot.clone();
            machine.reserve_run(now()).unwrap();
            let mut disk = machine.disk;
            if uncheckpointed {
                disk.marker = checkpoint;
                disk.snapshot = snapshot;
            }
            let mut lines = split_log(LEDGER, disk.ledger.as_ref().unwrap()).unwrap();
            let last = lines.pop().unwrap();
            let mut record = disk.codec.borrow().read_record(&last).unwrap().record;
            match damage {
                "digest" => record.digest = "0".repeat(64),
                "sequence" => record.sequence += 1,
                "chain" => record.previous_digest = "0".repeat(64),
                "state" => {
                    let mut state = record.state.providers.get("mlab").unwrap().clone();
                    state.runs.clear();
                    record.state.providers.put("mlab".into(), state);
                }
                "schema" => record.state.schema_version = 99,
                _ => {}
            }
            let line = disk.codec.borrow_mut().record(&record);
            lines.push(line.clone());
            if damage == "duplicate" {
                lines.push(line);
            }
            if damage == "blank" {
                lines.push(Vec::new());
            }
            let mut ledger = lines.join(&b'\n');
            ledger.push(b'\n');
            disk.ledger = Some(ledger);
            assert_rejected_unchanged(&mut disk);
        }
    }
}

#[test]
fn unsupported_schemas_and_checkpoint_variants_fail_closed() {
    for target in ["snapshot", "checkpoint", "header"] {
        for field in ["version", "identity", "sequence", "digest"] {
            let mut disk = Disk::new();
            open(&mut disk).unwrap();
            if target == "snapshot" {
                let bytes = disk.snapshot.clone().unwrap();
                let mut store = disk.codec.borrow().read_store(&bytes).unwrap();
                match field {
                    "version" => store.schema_version = 99,
                    "identity" => store.checkpoint = None,
                    "sequence" => store.checkpoint.as_mut().unwrap().sequence = u64::MAX,
                    _ => {
                        let mut state = store.providers.get("mlab").unwrap().clone();
                        state.backoff_step = 99;
                        store.providers.put("mlab".into(), state);
                    }
                }
                let changed = disk.codec.borrow_mut().store(&store);
                disk.snapshot = Some(changed);
            } else if target == "checkpoint" {
                let bytes = disk.marker.clone().unwrap();
                let mut checkpoint = disk.codec.borrow().read_checkpoint(&bytes).unwrap();
                match field {
                    "version" => checkpoint.version = 99,
                    "identity" => checkpoint.installation = "0".repeat(32),
                    "sequence" => checkpoint.sequence = u64::MAX,
                    _ => checkpoint.digest = "0".repeat(64),
                }
                let changed = disk.codec.borrow_mut().checkpoint(&checkpoint);
                disk.marker = Some(changed);
            } else {
                let mut lines = split_log(LEDGER, disk.ledger.as_ref().unwrap()).unwrap();
                let mut header = disk.codec.borrow().read_header(&lines[0]).unwrap();
                if field == "version" {
                    header.version = 99;
                } else {
                    header.installation = "invalid".to_owned();
                }
                lines[0] = disk.codec.borrow_mut().header(&header);
                let mut ledger = lines.join(&b'\n');
                ledger.push(b'\n');
                disk.ledger = Some(ledger);
            }
            assert_rejected_unchanged(&mut disk);
        }
    }
}

#[test]
fn retry_exhaustion_survives_replay_when_deadline_and_backoff_are_unchanged() {
    let mut machine = Machine::new(now());
    for _ in 0..4 {
        record_cooldown(&mut machine, now(), Some(0));
    }
    assert_eq!(machine.scheduler.snapshot().deferred_attempts, Some(4));
    let backup = machine.disk.snapshot.clone();
    let before = machine.scheduler.snapshot();
    record_cooldown(&mut machine, now(), Some(0));
    let after = machine.scheduler.snapshot();
    assert_eq!(after.cooldown_until_utc, before.cooldown_until_utc);
    assert_eq!(after.backoff_step, before.backoff_step);
    assert!(after.deferred_attempts.is_none());
    let mut disk = machine.disk;
    disk.snapshot = backup;
    assert!(open(&mut disk).unwrap().scheduler.snapshot().deferred_attempts.is_none());
}

#[test]
fn rotation_and_restart_preserve_scheduler_admission_evidence() {
    let mut machine = Machine::new(now());
    machine.reserve_run(now()).unwrap();
    let snapshot = machine.scheduler.snapshot();
    let mut disk = machine.disk;
    let mut restarted = open(&mut disk).unwrap();
    assert_eq!(restarted.scheduler.snapshot().runs, snapshot.runs);
    assert!(restarted.blocked(now()));
}

fn ready(disk: &Disk) -> Recovered {
    match recover(disk.files()).unwrap() {
        Recovery::Ready(ready) => ready,
        Recovery::NeedsLog => panic!("there is a log"),
    }
}

#[test]
fn what_was_committed_is_what_the_next_opening_gives_back() {
    let mut machine = Machine::new(now());
    machine.reserve_run(now()).unwrap();
    let held = ready(&machine.disk);
    assert!(!held.replayed);
    assert!(same_accounting(&held.store, &machine.scheduler.to_store()));
    assert!(same_accounting(&held.store, &held.committed));
    assert_eq!(held.checkpoint, machine.persistence.checkpoint);
    assert_eq!(held.store.checkpoint, Some(machine.persistence.checkpoint.clone()));
}

#[test]
fn a_commit_that_stopped_behind_its_record_is_completed_and_accepted_again() {
    let mut machine = Machine::new(now());
    let before = ready(&machine.disk);
    machine.disk.fault = Some((FileKind::Checkpoint, Step::Write, 0));
    assert!(machine.reserve_run(now()).is_err());
    let mut held = ready(&machine.disk);
    assert!(held.replayed);
    assert!(same_accounting(&held.store, &machine.scheduler.to_store()));
    assert!(!same_accounting(&held.store, &before.store));

    let mut disk = machine.disk.clone();
    held.store.checkpoint = Some(held.checkpoint.clone());
    disk.snapshot = Some(disk.codec.borrow_mut().store(&held.store));
    disk.marker = Some(disk.codec.borrow_mut().checkpoint(&held.checkpoint));
    let again = ready(&disk);
    assert!(!again.replayed);
    assert_eq!(store_text(&again.store), store_text(&held.store));
}

#[test]
fn commits_write_the_log_first_and_the_snapshot_last() {
    assert_eq!(commit_plan(false, false), [FileKind::Snapshot]);
    assert_eq!(commit_plan(false, true), [FileKind::Backup, FileKind::Snapshot]);
    assert_eq!(
        commit_plan(true, true),
        [
            FileKind::Ledger,
            FileKind::Checkpoint,
            FileKind::Backup,
            FileKind::Snapshot
        ]
    );
    let header = installation_header(&vec![0xab; 16]);
    assert_eq!(header.installation, "ab".repeat(16));
    let first = new_installation(PATH).unwrap();
    let second = new_installation(PATH).unwrap();
    assert_ne!(first.installation, second.installation);
}

fn scheduler() -> Scheduler {
    let store =
        SchedulerStore { schema_version: 1, providers: StringMap::new(), checkpoint: None };
    Scheduler::open_seeded(store, &vec![], SchedulerPolicy::of(&config()), now(), 7, false)
        .unwrap()
}

#[test]
fn four_starts_a_day_with_room_between_them() {
    let mut scheduler = scheduler();
    for run in 0..4u32 {
        let at = later(run as i128 * HOUR);
        assert_eq!(
            scheduler.preflight_manual(run_id(), at),
            ManualDecision::Allowed
        );
        assert_eq!(
            scheduler.reserve(at),
            Ok(AdmissionReservation::Reserved { daily_runs_used: run + 1 })
        );
        assert!(scheduler.reserve(later(run as i128 * HOUR + 35 * 60 * SECOND)).is_err());
    }
    let ManualDecision::Blocked(event) = scheduler.preflight_manual(run_id(), later(5 * HOUR))
    else {
        panic!("the day's starts are used up");
    };
    assert_eq!(event.error_kind, Some(ErrorKind::DailyCap));
    assert_eq!(event.outcome, Outcome::Suppressed);
    assert_eq!(event.provider_daily_starts, Some(4));
    assert_eq!(
        scheduler.preflight_manual(run_id(), later(DAY)),
        ManualDecision::Allowed
    );
}

#[test]
fn unknown_schemas_are_refused() {
    let store =
        SchedulerStore { schema_version: 9, providers: StringMap::new(), checkpoint: None };
    assert_eq!(
        Scheduler::open_seeded(store, &vec![], SchedulerPolicy::of(&config()), now(), 7, false)
            .err(),
        Some(SchedulerError::UnsupportedSchema(9))
    );
}

#[test]
fn slots_lie_within_the_day_and_apart() {
    let scheduler = scheduler();
    let slots = scheduler.snapshot().slots;
    assert!(!slots.is_empty());
    for slot in &slots {
        assert!(slot.nanos > now().nanos && slot.nanos < 20_705 * DAY);
    }
    for pair in slots.windows(2) {
        assert!(pair[1].nanos - pair[0].nanos >= 36 * 60 * SECOND);
    }
}

#[test]
fn due_slots_become_opportunities_where_probes_answer() {
    let mut scheduler = scheduler();
    let slot = scheduler.snapshot().slots[0];
    let quiet = scheduler.poll(run_id(), now(), true);
    assert!(quiet.opportunity.is_none());
    let action = scheduler.poll(run_id(), slot, true);
    let opportunity = action.opportunity.unwrap();
    assert_eq!(opportunity.reason, TriggerReason::Scheduled);
    assert_eq!(opportunity.scheduled_at_utc, slot);
    assert!(scheduler.snapshot().slots.iter().all(|left| left.nanos > slot.nanos));
}

fn degraded() -> HealthDecision {
    HealthDecision::Degraded {
        snapshot: HealthSnapshot {
            attempted: 10,
            successful: 5,
            loss_pct: Scalar { key: 1 },
            p95_rtt_ms: None,
            sufficient_samples: true,
        },
        reason: DegradationReason::Loss,
    }
}

#[test]
fn a_degraded_connection_triggers_one_test() {
    let mut scheduler = scheduler();
    let events = scheduler.observe_health(run_id(), now(), degraded(), "50", None);
    assert_eq!(events.len(), 1);
    assert_eq!(scheduler.snapshot().pending_trigger, Some(TriggerReason::PingLoss));
    assert!(scheduler.snapshot().trigger_latched);
    assert!(scheduler.observe_health(run_id(), now(), degraded(), "50", None).is_empty());
    let action = scheduler.poll(run_id(), later(SECOND), true);
    let opportunity = action.opportunity.unwrap();
    assert_eq!(opportunity.reason, TriggerReason::PingLoss);
    scheduler.reserve_run(later(SECOND)).unwrap();
    let mut report = BandwidthReport {
        events: vec![],
        outcome: Outcome::Success,
        reserved: true,
        reservation_error: None,
    };
    assert_eq!(
        finish_test(&mut scheduler, run_id(), later(2 * SECOND), &opportunity, &mut report),
        None
    );
    assert_eq!(scheduler.snapshot().pending_trigger, None);
}

#[test]
fn a_start_that_could_not_be_written_down_ends_the_monitor() {
    let mut scheduler = scheduler();
    let opportunity = manual_opportunity(now(), &vec!["eth0".to_owned()]);
    assert_eq!(opportunity.interface.as_deref(), Some("eth0"));
    assert_eq!(opportunity.reason, TriggerReason::Manual);
    let mut report = refusal(now(), None);
    report.reservation_error = Some("disk full".into());
    assert_eq!(
        finish_test(&mut scheduler, run_id(), now(), &opportunity, &mut report),
        Some(SchedulerError::Admission("disk full".into()))
    );
    assert_eq!(report.events.len(), 1);
}

#[test]
fn refusals_double_the_cooldown_up_to_its_maximum() {
    let mut machine = Machine::new(now());
    let mut at = now();
    let mut delays = Vec::new();
    for _ in 0..6 {
        record_cooldown(&mut machine, at, None);
        let deadline = machine.scheduler.snapshot().cooldown_until_utc.unwrap();
        delays.push((deadline.nanos - at.nanos) / SECOND);
        at = deadline;
    }
    for (delay, base) in delays.iter().zip([60, 120, 240, 480, 960, 960]) {
        assert!(*delay >= base * 8 / 10 && *delay <= base * 12 / 10, "{delay} {base}");
    }
}

#[test]
fn lists_of_starts_are_read_line_by_line() {
    let lines = list_lines("first\r\n\n \u{a0}\t\nfourth\r\r\nlast\r");
    let read: Vec<(usize, &str)> =
        lines.iter().map(|line| (line.index, line.text.as_str())).collect();
    assert_eq!(read, [(0, "first"), (3, "fourth\r"), (4, "last\r")]);
    assert!(list_lines("").is_empty());
    assert!(list_lines("\n\r\n").is_empty());
    let entry = |seconds: i128| ReservationLedgerEntry {
        provider_id: "mlab".into(),
        started_at_utc: later(seconds * SECOND),
    };
    let entries = gather_entries(
        "/state/list",
        &lines,
        vec![Ok(entry(1)), Ok(entry(2)), Ok(entry(3))],
    );
    let starts: Vec<Timestamp> =
        entries.ok().unwrap().iter().map(|entry| entry.started_at_utc).collect();
    assert_eq!(starts, [later(SECOND), later(2 * SECOND), later(3 * SECOND)]);
    let refused = gather_entries(
        "/state/list",
        &lines,
        vec![Ok(entry(1)), Err("odd".into()), Err("even".into())],
    );
    let Err(SchedulerError::Corrupt { path, message }) = refused else {
        panic!("the list is corrupt");
    };
    assert_eq!(path, "/state/list");
    assert_eq!(message, "reservation ledger line 4: odd");
}
