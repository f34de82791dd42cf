use netband::config::OutputTarget;
use netband::console::{ConsoleOff, ConsoleSink};
use netband::journal::columns::{COLUMNS, csv_fields, csv_header_line};
use netband::journal::recovery::{Repair, recorded_segment, recover_trailing_record, validate_header};
use netband::journal::segments::{
    ACTIVE, AppendPlan, OpenStep, PathKind, SegmentStep, check_target, contextual, open_plan,
    parent_directory, regular_or_missing, segment_name, segment_plan,
};
use netband::journal::{
    Journal, JournalError, JournalSink, JournalWriter, OutputCoordinator, csv_header,
};
use netband::model::{
    ErrorKind, EventId, EventKind, IpAddr, MeasurementEvent, Outcome, ProviderKind, RunId, Scalar,
};
use netband::time::Timestamp;

const SECOND: i128 = 1_000_000_000;
const DAY: i128 = 86_400 * SECOND;

/// 23:59:59 on the tenth of September 2026.
fn now() -> Timestamp {
    Timestamp { nanos: 20_706 * DAY + (86_400 - 1) * SECOND }
}

fn after(nanos: i128) -> Timestamp {
    Timestamp { nanos: now().nanos + nanos }
}

fn event(id: u128) -> MeasurementEvent {
    let mut event = MeasurementEvent::new(
        RunId { value: 1 },
        EventKind::PingProbe,
        Outcome::Success,
        now(),
    );
    event.event_id = EventId { value: id };
    event
}

fn show(value: Scalar) -> String {
    format!("{}", value.key)
}

fn address(value: IpAddr) -> String {
    match value {
        IpAddr::V4(number) => {
            let [a, b, c, d] = number.to_be_bytes();
            format!("{a}.{b}.{c}.{d}")
        }
        IpAddr::V6(number) => format!("v6-{number}"),
    }
}

fn encode(events: &Vec<MeasurementEvent>) -> Vec<u8> {
    let mut writer = JournalWriter::without_header();
    writer.append_batch(events, &show, &address);
    writer.into_inner()
}

fn rows(bytes: &[u8]) -> Vec<Vec<String>> {
    csv::Reader::from_reader(bytes)
        .records()
        .map(|record| record.unwrap().iter().map(str::to_owned).collect())
        .collect()
}

fn ids(bytes: &[u8]) -> Vec<u128> {
    rows(bytes)
        .iter()
        .map(|row| EventId::parse(&row[2]).unwrap().value)
        .collect()
}

/// A journal on a disk that is only in memory.
struct Disk {
    journal: Journal,
    segments: Vec<(String, Vec<u8>)>,
}

impl Disk {
    fn open(target: &OutputTarget, max_bytes: Option<u64>, at: Timestamp) -> Disk {
        check_target(target, max_bytes).unwrap();
        let header = JournalWriter::from_writer().into_inner();
        let path = segment_name(at, 0);
        let journal = Journal::opened(target, max_bytes, at, path.clone(), header.len() as u64);
        Disk { journal, segments: vec![(path, header)] }
    }

    fn append(&mut self, events: &Vec<MeasurementEvent>, at: Timestamp) -> Result<(), JournalError> {
        let batch = encode(events);
        match self.journal.plan_append(events.len(), batch.len() as u64, at)? {
            AppendPlan::Nothing => return Ok(()),
            AppendPlan::Write => {}
            AppendPlan::Rotate => {
                let mut sequence = 0;
                let mut path = segment_name(at, sequence);
                while self.segments.iter().any(|(name, _)| *name == path) {
                    sequence += 1;
                    path = segment_name(at, sequence);
                }
                let header = JournalWriter::from_writer().into_inner();
                self.journal.rotated(path.clone(), header.len() as u64, at);
                self.segments.push((path, header));
            }
        }
        self.segments.last_mut().unwrap().1.extend_from_slice(&batch);
        self.journal.appended(batch.len() as u64);
        Ok(())
    }
}

fn directory() -> OutputTarget {
    OutputTarget::Directory("journals".into())
}

#[test]
fn utc_rotation_uses_write_time_and_handles_idle_and_backward_clocks() {
    let mut output = Disk::open(&directory(), None, now());
    let first = output.journal.path().to_owned();
    output.append(&vec![event(1)], now()).unwrap();
    let next_day = after(SECOND);
    output.append(&vec![], after(SECOND + 9 * DAY)).unwrap();
    assert_eq!(output.journal.path(), first);
    output.append(&vec![event(2)], next_day).unwrap();
    let second = output.journal.path().to_owned();
    assert_ne!(first, second);
    output.append(&vec![event(3)], after(-3 * DAY)).unwrap();
    output.append(&vec![event(4)], next_day).unwrap();
    assert_eq!(output.journal.path(), second);
    output.append(&vec![event(5)], after(SECOND + 9 * DAY)).unwrap();
    assert_eq!(output.segments.len(), 3);
    assert_eq!(ids(&output.segments[0].1), [1]);
    assert_eq!(ids(&output.segments[1].1), [2, 3, 4]);
    assert_eq!(ids(&output.segments[2].1), [5]);
}

#[test]
fn size_limits_count_encoded_bytes_and_keep_batches_intact() {
    let mut special = event(1);
    special.message = Some("Unicode é, quoted \"value\"\nand newline".into());
    let batch = vec![special.clone(), event(2)];
    let mut expected = JournalWriter::from_writer();
    expected.append_batch(&batch, &show, &address);
    let expected = expected.into_inner();
    for limit in [
        1,
        csv_header().len() as u64,
        expected.len() as u64 - 1,
        expected.len() as u64,
    ] {
        let mut output = Disk::open(&directory(), Some(limit), now());
        let first = output.journal.path().to_owned();
        output.append(&batch, now()).unwrap();
        assert_eq!(output.journal.path(), first, "no empty size-triggered segment");
        assert_eq!(output.segments[0].1, expected);
        output.append(&vec![event(3)], now()).unwrap();
        assert_ne!(output.journal.path(), first);
        assert_eq!(output.segments.len(), 2);
        assert_eq!(ids(&output.segments[0].1), [1, 2]);
        assert_eq!(ids(&output.segments[1].1), [3]);
    }
}

#[test]
fn exact_size_boundary_fits_and_combined_triggers_create_one_segment() {
    let row = encode(&vec![event(1)]).len();
    let limit = (csv_header().len() + 2 + 2 * row) as u64;
    let mut output = Disk::open(&directory(), Some(limit), now());
    let first = output.journal.path().to_owned();
    output.append(&vec![event(1)], now()).unwrap();
    output.append(&vec![event(2)], now()).unwrap();
    assert_eq!(output.segments[0].1.len() as u64, limit);
    assert_eq!(output.journal.path(), first);
    output.append(&vec![event(3)], after(SECOND)).unwrap();
    assert_eq!(output.segments.len(), 2);
    assert_eq!(ids(&output.segments[0].1), [1, 2]);
}

#[test]
fn size_rotation_during_clock_rollback_preserves_date_high_water_mark() {
    let mut output = Disk::open(&directory(), Some(1), now());
    output.append(&vec![event(1)], now()).unwrap();
    output.append(&vec![event(2)], after(-DAY)).unwrap();
    assert_eq!(output.journal.rotation.unwrap().date, now().date());
    output.journal.rotation.as_mut().unwrap().max_bytes = None;
    let path = output.journal.path().to_owned();
    output.append(&vec![event(3)], now()).unwrap();
    assert_eq!(output.journal.path(), path);
}

#[test]
fn fixed_mode_preserves_bytes_recovery_and_single_file_across_midnight() {
    let target = OutputTarget::File("fixed.csv".into());
    let mut output = Disk::open(&target, None, now());
    output.append(&vec![event(1)], now()).unwrap();
    output.append(&vec![], after(DAY)).unwrap();
    let mut left = output.segments[0].1.clone();
    left.extend_from_slice(b"partial,row");
    validate_header(&left, "fixed.csv").unwrap();
    let Ok(Repair::CutTo(length)) = recover_trailing_record(&left, "fixed.csv") else {
        panic!("the partial row is taken away");
    };
    left.truncate(length);
    assert_eq!(left, output.segments[0].1);
    output.append(&vec![event(2)], after(3 * DAY)).unwrap();
    let mut expected = JournalWriter::from_writer();
    expected.append_batch(&vec![event(1), event(2)], &show, &address);
    assert_eq!(output.segments.len(), 1);
    assert_eq!(output.segments[0].1, expected.into_inner());
    assert!(check_target(&target, Some(1)).is_err());
    assert!(check_target(&OutputTarget::AutomaticFile("once".into()), Some(1)).is_err());
    assert!(check_target(&directory(), Some(0)).is_err());
    assert_eq!(
        check_target(&directory(), Some(0)).unwrap_err().message(),
        "journal I/O failed: positive rotate_max_bytes requires directory output"
    );
    assert!(check_target(&directory(), Some(1)).is_ok());
    assert!(check_target(&target, None).is_ok());
}

#[test]
fn restart_recovers_only_recorded_segment_and_collision_never_overwrites() {
    let mut output = Disk::open(&directory(), Some(1), now());
    let first = output.journal.path().to_owned();
    assert_eq!(first, "netband-20260910T235959.000Z.csv");
    assert_eq!(recorded_segment(&format!("{first}\n"), ACTIVE), Ok(first.clone()));
    output.append(&vec![event(1)], now()).unwrap();
    output.append(&vec![event(2)], now()).unwrap();
    assert_eq!(output.journal.path(), "netband-20260910T235959.000Z-1.csv");
    output.append(&vec![event(3)], now()).unwrap();
    assert_eq!(output.journal.path(), "netband-20260910T235959.000Z-2.csv");
    assert_eq!(ids(&output.segments[0].1), [1]);
    assert_eq!(ids(&output.segments[1].1), [2]);
}

#[test]
fn damaged_recovery_evidence_fails_closed() {
    let corrupt = Err(JournalError::Corrupt(ACTIVE.into()));
    assert_eq!(recorded_segment("", ACTIVE), corrupt);
    assert_eq!(recorded_segment("netband-../../other.csv\n", ACTIVE), corrupt);
    assert_eq!(recorded_segment("netband-a.txt", ACTIVE), corrupt);
    assert_eq!(recorded_segment("other-a.csv", ACTIVE), corrupt);
    assert_eq!(recorded_segment("netband-a b.csv", ACTIVE), corrupt);
    let partial = b"partial header".to_vec();
    assert_eq!(
        validate_header(&partial, "a.csv"),
        Err(JournalError::Header("a.csv".into()))
    );
    assert_eq!(
        validate_header(&Vec::new(), "a.csv"),
        Err(JournalError::Header("a.csv".into()))
    );
    let bad = format!("{}\r\nbad,row\r\n", csv_header()).into_bytes();
    assert_eq!(validate_header(&bad, "a.csv"), Ok(()));
    assert_eq!(
        recover_trailing_record(&bad, "a.csv"),
        Err(JournalError::Corrupt("a.csv".into()))
    );
}

#[test]
fn whole_journals_are_kept_and_only_a_cut_off_row_is_taken_away() {
    let mut special = event(1);
    special.message = Some("a, \"b\"\r\nc".into());
    let mut writer = JournalWriter::from_writer();
    writer.append_batch(&vec![special, event(2)], &show, &address);
    let whole = writer.into_inner();
    assert_eq!(recover_trailing_record(&whole, "a.csv"), Ok(Repair::Keep));
    let row = encode(&vec![event(3)]);
    for length in 1..row.len() - 1 {
        let mut cut = whole.clone();
        cut.extend_from_slice(&row[..length]);
        assert_eq!(
            recover_trailing_record(&cut, "a.csv"),
            Ok(Repair::CutTo(whole.len())),
            "{length}"
        );
    }
    let header = csv_header().into_bytes();
    assert_eq!(recover_trailing_record(&header, "a.csv"), Ok(Repair::EndHeader));
    let line = csv_header_line().into_bytes();
    assert_eq!(recover_trailing_record(&line, "a.csv"), Ok(Repair::Keep));
    let mut invalid = line.clone();
    invalid.extend(vec![b','; COLUMNS - 1]);
    invalid.extend_from_slice(b"\xff\r\n");
    assert_eq!(
        recover_trailing_record(&invalid, "a.csv"),
        Err(JournalError::Corrupt("a.csv".into()))
    );
}

#[test]
fn a_failed_journal_takes_nothing_more() {
    let mut output = Disk::open(&directory(), Some(1), now());
    output.append(&vec![event(1)], now()).unwrap();
    let path = output.journal.path().to_owned();
    let told = output.journal.failed(
        "append/rotate",
        JournalError::Io { permission_denied: true, message: "disk full".into() },
    );
    assert_eq!(
        told,
        JournalError::Io {
            permission_denied: true,
            message: format!("append/rotate {path}: disk full"),
        }
    );
    assert!(told.is_permission_denied());
    let refused = output.append(&vec![event(2)], now()).unwrap_err();
    assert_eq!(
        refused,
        JournalError::Io {
            permission_denied: false,
            message: "journal failed; reopen and recover before writing again".into(),
        }
    );
    assert!(output.journal.check_healthy().is_err());
    assert_eq!(
        contextual("dir", "create segment", JournalError::Locked("x".into())),
        JournalError::Locked("x".into())
    );
}

#[test]
fn rows_hold_a_cell_for_every_column() {
    let fields = csv_fields();
    assert_eq!(fields.len(), COLUMNS);
    assert_eq!(csv_header(), fields.join(","));
    assert_eq!(csv_header_line(), format!("{}\r\n", csv_header()));
    let mut full = event(9);
    full.scheduled_at_utc = Some(Timestamp { nanos: 0 });
    full.interface = Some("eth0".into());
    full.ping_local_ip = Some(IpAddr::V4(0x7f00_0001));
    full.ping_sequence = Some(12);
    full.ping_rtt_ms = Some(Scalar { key: 5 });
    full.ping_packets_sent = Some(1);
    full.ping_packets_received = Some(0);
    full.provider_kind = Some(ProviderKind::Direct);
    full.request_retry_at_utc = Some(Timestamp { nanos: 1_500_000_000 });
    full.os_error_code = Some(-2147483648);
    full.error_kind = Some(ErrorKind::IcmpTimeout);
    full.message = Some("timed out; token=abc".into());
    let mut writer = JournalWriter::from_writer();
    writer.append_batch(&vec![full], &show, &address);
    let bytes = writer.into_inner();
    let row = rows(&bytes).remove(0);
    let cell = |name: &str| {
        row[fields.iter().position(|field| field == name).unwrap()].as_str()
    };
    assert_eq!(cell("schema_version"), "1");
    assert_eq!(cell("run_id"), "00000000-0000-0000-0000-000000000001");
    assert_eq!(cell("event_id"), "00000000-0000-0000-0000-000000000009");
    assert_eq!(cell("scheduled_at_utc"), "1970-01-01T00:00:00.000Z");
    assert_eq!(cell("started_at_utc"), "");
    assert_eq!(cell("finished_at_utc"), "2026-09-10T23:59:59.000Z");
    assert_eq!(cell("interface"), "eth0");
    assert_eq!(cell("local_ip"), "127.0.0.1");
    assert_eq!(cell("event_kind"), "ping_probe");
    assert_eq!(cell("sequence"), "12");
    assert_eq!(cell("outcome"), "success");
    assert_eq!(cell("rtt_ms"), "5");
    assert_eq!(cell("packets_sent"), "1");
    assert_eq!(cell("packet_loss_pct"), "100.0");
    assert_eq!(cell("provider_kind"), "direct");
    assert_eq!(cell("rate_limit_until_utc"), "1970-01-01T00:00:01.500Z");
    assert_eq!(cell("os_error_code"), "-2147483648");
    assert_eq!(cell("error_kind"), "icmp_timeout");
    assert_eq!(cell("error_message"), "timed out; token=[redacted]");
}

#[test]
fn addresses_and_attempts_stand_in_their_columns() {
    let fields = csv_fields();
    let mut result = event(1);
    result.download_local_ip = Some(IpAddr::V4(1));
    result.download_remote_ip = Some(IpAddr::V4(2));
    let mut both = event(2);
    both.download_local_ip = Some(IpAddr::V4(1));
    both.download_remote_ip = Some(IpAddr::V4(2));
    both.upload_local_ip = Some(IpAddr::V4(3));
    both.upload_remote_ip = Some(IpAddr::V4(4));
    let mut failed = event(3);
    failed.request_attempt = Some(2);
    failed.request_local_ip = Some(IpAddr::V4(5));
    failed.request_remote_ip = Some(IpAddr::V4(6));
    failed.upload_remote_ip = Some(IpAddr::V4(4));
    let mut writer = JournalWriter::from_writer();
    writer.append_batch(&vec![result, both, failed, event(4)], &show, &address);
    let rows = rows(&writer.into_inner());
    let cell = |row: usize, name: &str| {
        rows[row][fields.iter().position(|field| field == name).unwrap()].as_str()
    };
    assert_eq!(cell(0, "local_ip"), "0.0.0.1");
    assert_eq!(cell(0, "remote_ip"), "0.0.0.2");
    assert_eq!(cell(0, "request_attempt"), "");
    assert_eq!(cell(1, "local_ip"), "0.0.0.3");
    assert_eq!(cell(1, "remote_ip"), "0.0.0.4");
    assert_eq!(cell(2, "local_ip"), "0.0.0.5");
    assert_eq!(cell(2, "remote_ip"), "0.0.0.6");
    assert_eq!(cell(2, "request_attempt"), "2");
    assert_eq!(cell(3, "local_ip"), "");
    assert_eq!(cell(3, "remote_ip"), "");
}

#[test]
fn segments_are_begun_and_journals_opened_in_a_safe_order() {
    let plan = segment_plan();
    let place = |step: SegmentStep| plan.iter().position(|one| *one == step).unwrap();
    assert!(place(SegmentStep::SyncHeader) < place(SegmentStep::Publish));
    assert!(place(SegmentStep::Publish) < place(SegmentStep::Unlink));
    assert!(place(SegmentStep::SyncSegmentEntry) < place(SegmentStep::RenameMarker));
    assert!(place(SegmentStep::LockMarker) < place(SegmentStep::WriteMarker));
    assert_eq!(plan.len(), 13);
    assert_eq!(
        open_plan(&OutputTarget::File("a.csv".into())),
        [OpenStep::OpenFile, OpenStep::SyncData, OpenStep::SyncParent]
    );
    assert_eq!(
        open_plan(&OutputTarget::AutomaticFile("once".into())),
        [
            OpenStep::CreateDirectories,
            OpenStep::CreateFile,
            OpenStep::SyncData,
            OpenStep::SyncParent
        ]
    );
    assert_eq!(
        open_plan(&OutputTarget::AutomaticDirectory("run".into())),
        [
            OpenStep::CreateDirectories,
            OpenStep::LockDirectory,
            OpenStep::RecoverSegment,
            OpenStep::BeginSegment
        ]
    );
    assert_eq!(
        open_plan(&directory()),
        [OpenStep::LockDirectory, OpenStep::RecoverSegment, OpenStep::BeginSegment]
    );
    assert_eq!(parent_directory(Some("/var/log")), "/var/log");
    assert_eq!(parent_directory(Some("")), ".");
    assert_eq!(parent_directory(None), ".");
    assert_eq!(regular_or_missing(PathKind::File, "a"), Ok(true));
    assert_eq!(regular_or_missing(PathKind::Missing, "a"), Ok(false));
    assert_eq!(
        regular_or_missing(PathKind::Other, "a"),
        Err(JournalError::Corrupt("a".into()))
    );
}

/// A sink that keeps events, or refuses them.
struct Kept {
    events: Vec<u128>,
    refuses: bool,
}

impl JournalSink for Kept {
    fn append_batch(&mut self, events: &Vec<MeasurementEvent>) -> Result<(), JournalError> {
        if self.refuses {
            return Err(JournalError::write(false, "refused".into()));
        }
        self.events.extend(events.iter().map(|event| event.event_id.value));
        Ok(())
    }

    fn flush(&mut self) -> Result<(), JournalError> {
        if self.refuses {
            return Err(JournalError::write(true, "not flushed".into()));
        }
        Ok(())
    }
}

struct Shown {
    events: Vec<u128>,
}

impl ConsoleSink for Shown {
    fn offer(&mut self, event: &MeasurementEvent) {
        self.events.push(event.event_id.value);
    }
}

#[test]
fn events_are_shown_only_once_they_are_kept() {
    let mut output = OutputCoordinator::new(
        Kept { events: vec![], refuses: false },
        Shown { events: vec![] },
    );
    output.publish_batch(&vec![event(1), event(2)]).unwrap();
    output.flush().unwrap();
    let (kept, shown) = output.into_parts();
    assert_eq!(kept.events, [1, 2]);
    assert_eq!(shown.events, [1, 2]);
    let mut output = OutputCoordinator::new(
        Kept { events: vec![], refuses: true },
        Shown { events: vec![] },
    );
    assert_eq!(
        output.publish_batch(&vec![event(1)]),
        Err(JournalError::Io { permission_denied: false, message: "refused".into() })
    );
    assert_eq!(
        output.flush(),
        Err(JournalError::Io { permission_denied: true, message: "not flushed".into() })
    );
    let (kept, shown) = output.into_parts();
    assert!(kept.events.is_empty());
    assert!(shown.events.is_empty());
    let mut quiet =
        OutputCoordinator::new(Kept { events: vec![], refuses: false }, ConsoleOff::new());
    quiet.publish_batch(&vec![event(1)]).unwrap();
    assert_eq!(quiet.into_parts().0.events, [1]);
}
