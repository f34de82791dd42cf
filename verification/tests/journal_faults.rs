use netband::config::OutputTarget;
use netband::journal::columns::csv_header_line;
use netband::journal::recovery::{
    Repair, recorded_segment, recover_trailing_record, validate_header,
};
use netband::journal::segments::{
    ACTIVE, AppendPlan, LOCK, MARKER_TEMP, OpenStep, PENDING, PathKind, SegmentStep, check_target,
    contextual, open_plan, parent_directory, regular_or_missing, segment_name, segment_plan,
};
use netband::journal::{Journal, JournalError, JournalWriter};
use netband::model::{EventId, EventKind, IpAddr, MeasurementEvent, Outcome, RunId, Scalar};
use netband::time::Timestamp;
use std::cell::RefCell;
use std::collections::{BTreeMap, BTreeSet};
use std::rc::Rc;

/// 23:59:59 on the tenth of September 2026.
fn now() -> Timestamp {
    Timestamp { nanos: (20_706 * 86_400 + 86_399) * 1_000_000_000 }
}

fn event(id: u128) -> MeasurementEvent {
    let mut event = MeasurementEvent::new(
        RunId { value: 1 },
        EventKind::PingProbe,
        Outcome::Success,
        now(),
    );
    event.event_id = EventId { value: id };
    event
}

const ACKNOWLEDGED: u128 = 1;
const UNCERTAIN: u128 = 2;
const RETRY: u128 = 3;
const RESTARTED: u128 = 4;

/// What can be made to fail.
#[derive(Clone, Debug, PartialEq, Eq)]
enum Point {
    OldSync,
    Segment(SegmentStep),
    BatchWrite,
    BatchSync,
    Directory(String),
}

#[derive(Clone, Debug, PartialEq, Eq)]
enum Sync {
    Data,
    Directory(String),
}

/// A disk that is only in memory: names, files that may have several of them, locks and links.
#[derive(Default)]
struct Disk {
    names: BTreeMap<String, usize>,
    files: Vec<Vec<u8>>,
    locked: BTreeSet<usize>,
    links: BTreeSet<String>,
    fault: Option<Point>,
    synced: Vec<Sync>,
}

type Shared = Rc<RefCell<Disk>>;

/// A lock, until it is dropped.
struct Held {
    disk: Shared,
    file: usize,
}

impl Drop for Held {
    fn drop(&mut self) {
        self.disk.borrow_mut().locked.remove(&self.file);
    }
}

fn failed(message: &str) -> JournalError {
    JournalError::write(false, message.into())
}

impl Disk {
    fn reach(&mut self, point: Point) -> Result<(), JournalError> {
        if self.fault.as_ref() == Some(&point) {
            self.fault = None;
            return Err(failed("injected"));
        }
        Ok(())
    }

    fn kind(&self, name: &str) -> PathKind {
        if self.links.contains(name) {
            PathKind::Other
        } else if self.names.contains_key(name) {
            PathKind::File
        } else {
            PathKind::Missing
        }
    }

    fn is_there(&self, name: &str) -> Result<bool, JournalError> {
        regular_or_missing(self.kind(name), name)
    }

    fn create(&mut self, name: &str, bytes: Vec<u8>) -> usize {
        self.files.push(bytes);
        self.names.insert(name.into(), self.files.len() - 1);
        self.files.len() - 1
    }

    fn open_or_create(&mut self, name: &str) -> usize {
        match self.names.get(name) {
            Some(file) => *file,
            None => self.create(name, Vec::new()),
        }
    }

    fn read(&self, name: &str) -> Option<Vec<u8>> {
        self.names.get(name).map(|file| self.files[*file].clone())
    }

    fn sync_data(&mut self) {
        self.synced.push(Sync::Data);
    }

    fn sync_directory(&mut self, name: &str) -> Result<(), JournalError> {
        self.synced.push(Sync::Directory(name.into()));
        self.reach(Point::Directory(name.into()))
            .map_err(|_| failed("injected directory sync failure"))
    }
}

fn lock(disk: &Shared, file: usize, name: &str) -> Result<Held, JournalError> {
    if disk.borrow_mut().locked.insert(file) {
        Ok(Held { disk: Rc::clone(disk), file })
    } else {
        Err(JournalError::Locked(name.into()))
    }
}

fn ancestors(directory: &str) -> Vec<String> {
    let mut all = vec![directory.to_owned()];
    let mut rest = directory;
    while let Some(at) = rest.rfind('/') {
        rest = &rest[..at];
        all.push(if rest.is_empty() { "/".into() } else { rest.to_owned() });
    }
    all
}

fn parent(path: &str) -> Option<&str> {
    path.rfind('/').map(|at| &path[..at])
}

fn mend(disk: &Shared, file: usize, name: &str) -> Result<(), JournalError> {
    let bytes = disk.borrow().files[file].clone();
    validate_header(&bytes, name)?;
    match recover_trailing_record(&bytes, name)? {
        Repair::Keep => {}
        Repair::EndHeader => disk.borrow_mut().files[file].extend_from_slice(b"\r\n"),
        Repair::CutTo(length) => disk.borrow_mut().files[file].truncate(length),
    }
    Ok(())
}

fn show(value: Scalar) -> String {
    format!("{}", value.key)
}

fn address(value: IpAddr) -> String {
    format!("{value:?}")
}

/// A journal on such a disk.
struct Output {
    disk: Shared,
    journal: Journal,
    directory: Option<String>,
    file: usize,
    _held: Vec<Held>,
}

impl Output {
    fn open(
        disk: &Shared,
        target: &OutputTarget,
        max_bytes: Option<u64>,
    ) -> Result<Output, JournalError> {
        check_target(target, max_bytes)?;
        let path = match target {
            OutputTarget::File(path)
            | OutputTarget::Directory(path)
            | OutputTarget::AutomaticFile(path)
            | OutputTarget::AutomaticDirectory(path) => path.clone(),
        };
        let mut held = Vec::new();
        let mut opened: Option<(usize, String)> = None;
        let mut directory = None;
        for step in open_plan(target) {
            match step {
                OpenStep::CreateDirectories => {
                    for one in ancestors(&path) {
                        disk.borrow_mut().sync_directory(&one)?;
                    }
                }
                OpenStep::OpenFile => {
                    let file = disk.borrow_mut().open_or_create(&path);
                    held.push(lock(disk, file, &path)?);
                    if disk.borrow().files[file].is_empty() {
                        disk.borrow_mut().files[file] = csv_header_line().into_bytes();
                    } else {
                        mend(disk, file, &path)?;
                    }
                    opened = Some((file, path.clone()));
                }
                OpenStep::CreateFile => {
                    let mut sequence = 0;
                    let mut name = format!("{path}/{}", segment_name(now(), sequence));
                    while disk.borrow().names.contains_key(&name) {
                        sequence += 1;
                        name = format!("{path}/{}", segment_name(now(), sequence));
                    }
                    let file = disk.borrow_mut().create(&name, csv_header_line().into_bytes());
                    held.push(lock(disk, file, &name)?);
                    opened = Some((file, name));
                }
                OpenStep::SyncData => disk.borrow_mut().sync_data(),
                OpenStep::SyncParent => {
                    let name = opened.as_ref().unwrap().1.clone();
                    disk.borrow_mut().sync_directory(parent_directory(parent(&name)))?;
                }
                OpenStep::LockDirectory => {
                    let name = format!("{path}/{LOCK}");
                    disk.borrow().is_there(&name)?;
                    let file = disk.borrow_mut().open_or_create(&name);
                    held.push(lock(disk, file, &name)?);
                    directory = Some(path.clone());
                }
                OpenStep::RecoverSegment => recover_segment(disk, &path)?,
                OpenStep::BeginSegment => {
                    let (file, name, own) = begin_segment(disk, &path)?;
                    held.push(own);
                    opened = Some((file, name));
                }
            }
        }
        let (file, name) = opened.unwrap();
        let bytes = disk.borrow().files[file].len() as u64;
        Ok(Output {
            disk: Rc::clone(disk),
            journal: Journal::opened(target, max_bytes, now(), name, bytes),
            directory,
            file,
            _held: held,
        })
    }

    fn path(&self) -> String {
        self.journal.path().to_owned()
    }

    fn append(&mut self, id: u128) -> Result<(), JournalError> {
        let mut writer = JournalWriter::without_header();
        writer.append_batch(&vec![event(id)], &show, &address);
        let batch = writer.into_inner();
        let plan = self.journal.plan_append(1, batch.len() as u64, now())?;
        match self.write(plan, &batch) {
            Ok(()) => {
                self.journal.appended(batch.len() as u64);
                Ok(())
            }
            Err(error) => Err(self.journal.failed("append/rotate", error)),
        }
    }

    fn write(&mut self, plan: AppendPlan, batch: &[u8]) -> Result<(), JournalError> {
        if plan == AppendPlan::Rotate {
            self.disk.borrow_mut().reach(Point::OldSync)?;
            let directory = self.directory.clone().unwrap();
            let (file, name, own) = begin_segment(&self.disk, &directory)?;
            self.file = file;
            self._held.push(own);
            let bytes = self.disk.borrow().files[file].len() as u64;
            self.journal.rotated(name, bytes, now());
        }
        let mut disk = self.disk.borrow_mut();
        disk.reach(Point::BatchWrite)?;
        disk.files[self.file].extend_from_slice(batch);
        disk.reach(Point::BatchSync)?;
        disk.sync_data();
        Ok(())
    }

    fn flush(&self) -> Result<(), JournalError> {
        self.journal.check_healthy()
    }
}

fn recover_segment(disk: &Shared, directory: &str) -> Result<(), JournalError> {
    let marker = format!("{directory}/{ACTIVE}");
    if !disk.borrow().is_there(&marker)? {
        return Ok(());
    }
    let note = String::from_utf8(disk.borrow().read(&marker).unwrap()).unwrap();
    let name = format!("{directory}/{}", recorded_segment(&note, &marker)?);
    if !disk.borrow().is_there(&name)? {
        return Err(JournalError::Corrupt(name));
    }
    let file = disk.borrow().names[&name];
    let _own = lock(disk, file, &name)?;
    mend(disk, file, &name)
}

fn begin_segment(
    disk: &Shared,
    directory: &str,
) -> Result<(usize, String, Held), JournalError> {
    create_segment(disk, directory).map_err(|error| contextual(directory, "create segment", error))
}

fn create_segment(
    disk: &Shared,
    directory: &str,
) -> Result<(usize, String, Held), JournalError> {
    let pending = format!("{directory}/{PENDING}");
    let temporary = format!("{directory}/{MARKER_TEMP}");
    let mut file = 0;
    let mut name = String::new();
    let mut own = None;
    let mut marker = 0;
    let mut marker_own = None;
    for step in segment_plan() {
        disk.borrow_mut().reach(Point::Segment(step))?;
        match step {
            SegmentStep::DiscardStale => {
                if disk.borrow().is_there(&pending)? {
                    let stale = disk.borrow().names[&pending];
                    let _stale = lock(disk, stale, &pending)?;
                    disk.borrow_mut().names.remove(&pending);
                }
            }
            SegmentStep::CreatePending => file = disk.borrow_mut().create(&pending, Vec::new()),
            SegmentStep::LockPending => own = Some(lock(disk, file, &pending)?),
            SegmentStep::WriteHeader => {
                disk.borrow_mut().files[file] = csv_header_line().into_bytes();
            }
            SegmentStep::SyncHeader | SegmentStep::SyncMarker => disk.borrow_mut().sync_data(),
            SegmentStep::Publish => {
                let mut sequence = 0;
                name = format!("{directory}/{}", segment_name(now(), sequence));
                while disk.borrow().names.contains_key(&name) {
                    sequence += 1;
                    name = format!("{directory}/{}", segment_name(now(), sequence));
                }
                disk.borrow_mut().names.insert(name.clone(), file);
            }
            SegmentStep::Unlink => {
                disk.borrow_mut().names.remove(&pending);
            }
            SegmentStep::SyncSegmentEntry | SegmentStep::SyncMarkerEntry => {
                disk.borrow_mut().sync_directory(directory)?;
            }
            SegmentStep::LockMarker => {
                disk.borrow().is_there(&temporary)?;
                marker = disk.borrow_mut().open_or_create(&temporary);
                marker_own = Some(lock(disk, marker, &temporary)?);
            }
            SegmentStep::WriteMarker => {
                let own_name = &name[directory.len() + 1..];
                disk.borrow_mut().files[marker] = format!("{own_name}\n").into_bytes();
            }
            SegmentStep::RenameMarker => {
                let mut disk = disk.borrow_mut();
                disk.names.remove(&temporary);
                disk.names.insert(format!("{directory}/{ACTIVE}"), marker);
            }
        }
    }
    drop(marker_own);
    Ok((file, name, own.unwrap()))
}

fn ids(bytes: &[u8]) -> Vec<u128> {
    assert!(bytes.starts_with(csv_header_line().as_bytes()));
    csv::Reader::from_reader(bytes)
        .records()
        .map(|record| EventId::parse(record.unwrap().get(2).unwrap()).unwrap().value)
        .collect()
}

fn segments(disk: &Shared) -> Vec<Vec<u8>> {
    let disk = disk.borrow();
    disk.names
        .iter()
        .filter(|(name, _)| name.ends_with(".csv"))
        .map(|(_, file)| disk.files[*file].clone())
        .collect()
}

fn new_disk() -> Shared {
    Rc::new(RefCell::new(Disk::default()))
}

fn directory() -> OutputTarget {
    OutputTarget::Directory("/out".into())
}

fn bytes_of(disk: &Shared, name: &str) -> Vec<u8> {
    disk.borrow().read(name).unwrap()
}

const BEGINNING: [SegmentStep; 10] = [
    SegmentStep::LockPending,
    SegmentStep::WriteHeader,
    SegmentStep::SyncHeader,
    SegmentStep::Publish,
    SegmentStep::Unlink,
    SegmentStep::SyncSegmentEntry,
    SegmentStep::WriteMarker,
    SegmentStep::SyncMarker,
    SegmentStep::RenameMarker,
    SegmentStep::SyncMarkerEntry,
];

#[test]
fn directory_and_segment_locks_reject_competitors_without_changing_bytes() {
    let disk = new_disk();
    let output = Output::open(&disk, &directory(), None).ok().unwrap();
    let path = output.path();
    let before = bytes_of(&disk, &path);
    assert!(matches!(
        Output::open(&disk, &directory(), None),
        Err(JournalError::Locked(_))
    ));
    let same = OutputTarget::File(path.clone());
    assert!(matches!(
        Output::open(&disk, &same, None),
        Err(JournalError::Locked(_))
    ));
    assert_eq!(bytes_of(&disk, &path), before);
    drop(output);
    let explicit = Output::open(&disk, &same, None).ok().unwrap();
    assert!(matches!(
        Output::open(&disk, &directory(), None),
        Err(JournalError::Locked(_))
    ));
    drop(explicit);
    assert!(Output::open(&disk, &directory(), None).is_ok());
}

#[test]
fn transition_faults_preserve_acknowledged_rows_and_poison_the_writer() {
    let mut points = vec![Point::OldSync, Point::BatchWrite, Point::BatchSync];
    points.extend(BEGINNING.map(Point::Segment));
    for point in points {
        let disk = new_disk();
        let mut output = Output::open(&disk, &directory(), Some(1)).ok().unwrap();
        output.append(ACKNOWLEDGED).unwrap();
        let acknowledged = output.path();
        let before = bytes_of(&disk, &acknowledged);
        disk.borrow_mut().fault = Some(point.clone());
        assert!(output.append(UNCERTAIN).is_err(), "{point:?}");
        assert!(output.append(RETRY).is_err());
        assert!(output.flush().is_err());
        assert_eq!(bytes_of(&disk, &acknowledged), before);
        drop(output);
        let mut restarted = Output::open(&disk, &directory(), None).ok().unwrap();
        restarted.append(RESTARTED).unwrap();
        let all: Vec<u128> = segments(&disk).iter().flat_map(|bytes| ids(bytes)).collect();
        let count = |id: u128| all.iter().filter(|one| **one == id).count();
        assert_eq!(count(ACKNOWLEDGED), 1, "{point:?}");
        assert_eq!(count(RESTARTED), 1);
        assert_eq!(count(RETRY), 0);
    }
}

#[test]
fn stale_linked_staging_file_is_unlinked_without_truncating_its_segment() {
    let disk = new_disk();
    let output = Output::open(&disk, &directory(), None).ok().unwrap();
    let path = output.path();
    drop(output);
    let file = disk.borrow().names[&path];
    disk.borrow_mut().names.insert(format!("/out/{PENDING}"), file);
    let before = bytes_of(&disk, &path);
    assert!(Output::open(&disk, &directory(), None).is_ok());
    assert_eq!(bytes_of(&disk, &path), before);
}

#[test]
fn recovery_and_temporary_files_reject_symlinks() {
    for name in [LOCK, ACTIVE, PENDING, MARKER_TEMP, "netband-linked.csv"] {
        let disk = new_disk();
        disk.borrow_mut().links.insert(format!("/out/{name}"));
        if name.ends_with(".csv") {
            let note = format!("{name}\n").into_bytes();
            disk.borrow_mut().create(&format!("/out/{ACTIVE}"), note);
        }
        assert_eq!(
            Output::open(&disk, &directory(), None).err(),
            Some(JournalError::Corrupt(format!("/out/{name}")))
        );
    }
}

#[test]
fn initialization_faults_leave_only_parseable_csvs_and_can_restart() {
    for step in BEGINNING {
        let disk = new_disk();
        disk.borrow_mut().fault = Some(Point::Segment(step));
        assert!(Output::open(&disk, &directory(), None).is_err(), "{step:?}");
        for bytes in segments(&disk) {
            assert!(ids(&bytes).is_empty());
        }
        let mut output = Output::open(&disk, &directory(), None).ok().unwrap();
        output.append(RESTARTED).unwrap();
        assert_eq!(ids(&bytes_of(&disk, &output.path())), [RESTARTED]);
    }
}

#[test]
fn incomplete_staged_header_never_becomes_an_archive() {
    let disk = new_disk();
    disk.borrow_mut().create(&format!("/out/{PENDING}"), b"schema_ver".to_vec());
    disk.borrow_mut().create(&format!("/out/{MARKER_TEMP}"), b"netband-incom".to_vec());
    let output = Output::open(&disk, &directory(), None).ok().unwrap();
    assert_eq!(segments(&disk).len(), 1);
    assert!(ids(&bytes_of(&disk, &output.path())).is_empty());
    assert!(disk.borrow().read(&format!("/out/{PENDING}")).is_none());
    assert!(disk.borrow().read(&format!("/out/{MARKER_TEMP}")).is_none());
}

#[test]
fn marker_staging_preserves_a_locked_explicit_journal() {
    let disk = new_disk();
    let path = format!("/out/{MARKER_TEMP}");
    let mut fixed = Output::open(&disk, &OutputTarget::File(path.clone()), None).ok().unwrap();
    fixed.append(ACKNOWLEDGED).unwrap();
    let before = bytes_of(&disk, &path);
    let result = Output::open(&disk, &directory(), None);
    assert_eq!(
        bytes_of(&disk, &path),
        before,
        "directory initialization must not truncate or rename a locked explicit journal"
    );
    assert!(
        result.is_err(),
        "a locked marker staging path must reject directory initialization"
    );
    assert!(disk.borrow().read(&format!("/out/{ACTIVE}")).is_none());
    fixed.append(RETRY).unwrap();
    assert_eq!(ids(&bytes_of(&disk, &path)), [ACKNOWLEDGED, RETRY]);
}

#[test]
fn marker_collision_during_rotation_preserves_both_journals() {
    let disk = new_disk();
    let mut journal = Output::open(&disk, &directory(), Some(1)).ok().unwrap();
    journal.append(ACKNOWLEDGED).unwrap();
    let active = journal.path();
    let before = bytes_of(&disk, &active);
    let note = format!("/out/{ACTIVE}");
    let marker = bytes_of(&disk, &note);
    let temporary = format!("/out/{MARKER_TEMP}");
    let mut fixed =
        Output::open(&disk, &OutputTarget::File(temporary.clone()), None).ok().unwrap();
    fixed.append(5).unwrap();
    let fixed_before = bytes_of(&disk, &temporary);
    assert_eq!(
        journal.append(UNCERTAIN),
        Err(JournalError::Locked(temporary.clone()))
    );
    assert_eq!(bytes_of(&disk, &active), before);
    assert_eq!(bytes_of(&disk, &note), marker);
    assert_eq!(bytes_of(&disk, &temporary), fixed_before);
    assert!(journal.flush().is_err());
    assert!(journal.append(RETRY).is_err());
    fixed.append(6).unwrap();
    assert_eq!(ids(&bytes_of(&disk, &temporary)), [5, 6]);
}

fn synced(disk: &Shared) -> Vec<Sync> {
    std::mem::take(&mut disk.borrow_mut().synced)
}

#[test]
fn fixed_csv_syncs_its_entry_after_data_and_not_on_each_batch() {
    let disk = new_disk();
    let target = OutputTarget::File("/root/results.csv".into());
    for round in 0..2 {
        let mut journal = Output::open(&disk, &target, None).ok().unwrap();
        assert_eq!(synced(&disk), [Sync::Data, Sync::Directory("/root".into())]);
        journal.append(round).unwrap();
        assert_eq!(synced(&disk), [Sync::Data]);
    }
}

#[test]
fn one_shot_syncs_new_csv_entry_after_data_and_keeps_prior_results() {
    let disk = new_disk();
    let directory = "/root/data/journals/once";
    let target = OutputTarget::AutomaticFile(directory.into());
    let mut paths = Vec::new();
    for round in 0..2 {
        let mut journal = Output::open(&disk, &target, None).ok().unwrap();
        let trace = synced(&disk);
        assert!(
            trace.ends_with(&[Sync::Data, Sync::Directory(directory.into())]),
            "{trace:?}"
        );
        for ancestor in ancestors(directory) {
            assert!(trace.contains(&Sync::Directory(ancestor)), "{trace:?}");
        }
        paths.push(journal.path());
        journal.append(round).unwrap();
        assert_eq!(synced(&disk), [Sync::Data]);
    }
    assert_ne!(paths[0], paths[1]);
    for path in paths {
        assert_eq!(ids(&bytes_of(&disk, &path)).len(), 1);
    }
}

#[test]
fn directory_sync_failure_rejects_fixed_output_and_retry_preserves_rows() {
    let disk = new_disk();
    let path = "/root/results.csv";
    let target = OutputTarget::File(path.into());
    let mut journal = Output::open(&disk, &target, None).ok().unwrap();
    journal.append(1).unwrap();
    drop(journal);
    let before = bytes_of(&disk, path);
    disk.borrow_mut().fault = Some(Point::Directory("/root".into()));
    let error = Output::open(&disk, &target, None).err().unwrap();
    assert!(error.message().contains("injected directory sync failure"));
    assert_eq!(bytes_of(&disk, path), before);
    synced(&disk);
    let mut journal = Output::open(&disk, &target, None).ok().unwrap();
    assert!(synced(&disk).contains(&Sync::Directory("/root".into())));
    journal.append(2).unwrap();
    assert_eq!(ids(&bytes_of(&disk, path)), [1, 2]);
}

#[test]
fn automatic_directory_sync_failures_block_creation_and_retry_syncs_existing_ancestors() {
    for component in ["/root/data", "/root/data/journals", "/root/data/journals/output"] {
        for rotating in [false, true] {
            let disk = new_disk();
            let directory = "/root/data/journals/output";
            let target = if rotating {
                OutputTarget::AutomaticDirectory(directory.into())
            } else {
                OutputTarget::AutomaticFile(directory.into())
            };
            disk.borrow_mut().fault = Some(Point::Directory(component.into()));
            let error = Output::open(&disk, &target, None).err().unwrap();
            assert!(error.message().contains("injected directory sync failure"));
            assert!(disk.borrow().names.is_empty());
            synced(&disk);
            let mut journal = Output::open(&disk, &target, None).ok().unwrap();
            let trace = synced(&disk);
            for ancestor in ancestors(directory) {
                assert!(trace.contains(&Sync::Directory(ancestor)), "{trace:?}");
            }
            journal.append(1).unwrap();
            assert_eq!(synced(&disk), [Sync::Data]);
        }
    }
}
