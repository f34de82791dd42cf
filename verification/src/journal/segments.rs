//! A journal in one file, or in segments that follow one another by day and by size.
use super::JournalError;
use super::recovery::{name_char, segment_name_ok};
use crate::config::OutputTarget;
use crate::text::{dec, decimal, lemma_dec_is_faithful};
use crate::time::{Timestamp, UtcDate, stamp_char};
use vstd::prelude::*;
use vstd::string::StringExecFns;

verus! {

/// The file whose lock makes a directory one journal's own.
pub const LOCK: &'static str = ".netband-output.lock";

/// The note that names the segment that is written.
pub const ACTIVE: &'static str = ".netband-active";

/// The segment that is being prepared.
pub const PENDING: &'static str = ".netband-header.tmp";

/// The note that is being prepared.
pub const MARKER_TEMP: &'static str = ".netband-active.tmp";

/// When a journal's segments follow one another.
#[derive(Clone, Copy, Debug, PartialEq, Eq, Structural)]
pub struct Rotation {
    /// The latest day that a segment was begun on.
    pub date: UtcDate,
    /// The size that a segment is not to exceed.
    pub max_bytes: Option<u64>,
}

/// What is known of the journal that is written.
pub struct Journal {
    pub path: String,
    pub rotation: Option<Rotation>,
    pub bytes: u64,
    pub has_events: bool,
    pub poisoned: bool,
}

/// What is done with a batch of events.
#[derive(Clone, Copy, Debug, PartialEq, Eq, Structural)]
pub enum AppendPlan {
    /// There is nothing to write.
    Nothing,
    /// The batch is written behind the others.
    Write,
    /// A new segment is begun, and the batch is written there.
    Rotate,
}

/// The output is a directory of segments.
pub open spec fn rotates(target: OutputTarget) -> bool {
    target is Directory || target is AutomaticDirectory
}

/// Checks that segments are limited in size only where there are segments, and to one byte at
/// least.
pub fn check_target(target: &OutputTarget, max_bytes: Option<u64>) -> (result: Result<
    (),
    JournalError,
>)
    ensures
        result is Err <==> max_bytes == Some(0u64) || (max_bytes is Some && !rotates(*target)),
        result matches Err(error) ==> error.text() == "journal I/O failed: "@
            + "positive rotate_max_bytes requires directory output"@
            && !(error->permission_denied),
{
    let segmented: bool = match target {
        OutputTarget::Directory(_) | OutputTarget::AutomaticDirectory(_) => true,
        OutputTarget::File(_) | OutputTarget::AutomaticFile(_) => false,
    };
    let wrong: bool = match max_bytes {
        Some(limit) => limit == 0 || !segmented,
        None => false,
    };
    if wrong {
        return Err(
            JournalError::Io {
                permission_denied: false,
                message: "positive rotate_max_bytes requires directory output".to_owned(),
            },
        );
    }
    Ok(())
}

/// Whether a segment with a batch more is too large.
pub open spec fn oversized(bytes: u64, batch: u64, max_bytes: Option<u64>) -> bool {
    max_bytes is Some && bytes + batch > max_bytes->0
}

/// What is done with a batch.
pub open spec fn plan_of(journal: Journal, events: nat, batch: u64, now: Timestamp) -> AppendPlan {
    if events == 0 {
        AppendPlan::Nothing
    } else {
        match journal.rotation {
            None => AppendPlan::Write,
            Some(rotation) => if now.day_number() > rotation.date.day || (journal.has_events
                && oversized(journal.bytes, batch, rotation.max_bytes)) {
                AppendPlan::Rotate
            } else {
                AppendPlan::Write
            },
        }
    }
}

/// What is said of a journal that failed before.
pub const POISONED: &'static str = "journal failed; reopen and recover before writing again";

/// The error with what was being done, if it is an error of the system.
pub open spec fn in_context(
    error: JournalError,
    told: JournalError,
    operation: Seq<char>,
    path: Seq<char>,
) -> bool {
    match error {
        JournalError::Io { permission_denied, message } => {
            &&& told matches JournalError::Io { permission_denied: denied, message: text }
            &&& denied == permission_denied
            &&& text@ == operation + " "@ + path + ": "@ + message@
        },
        _ => told == error,
    }
}

/// Tells what was being done when the system failed.
pub fn contextual(path: &str, operation: &str, error: JournalError) -> (told: JournalError)
    ensures
        in_context(error, told, operation@, path@),
{
    match error {
        JournalError::Io { permission_denied, message } => JournalError::Io {
            permission_denied,
            message: operation.to_owned().concat(" ").concat(path).concat(": ").concat(&message),
        },
        other => other,
    }
}

impl Journal {
    /// A journal that was just opened. `bytes` is the size of the file at `path`.
    pub fn opened(
        target: &OutputTarget,
        max_bytes: Option<u64>,
        now: Timestamp,
        path: String,
        bytes: u64,
    ) -> (journal: Self)
        ensures
            journal.path == path,
            journal.bytes == bytes,
            !journal.has_events,
            !journal.poisoned,
            rotates(*target) ==> {
                &&& journal.rotation is Some
                &&& journal.rotation->0.date.day == now.day_number()
                &&& journal.rotation->0.max_bytes == max_bytes
            },
            !rotates(*target) ==> journal.rotation is None,
    {
        let rotation = match target {
            OutputTarget::Directory(_) | OutputTarget::AutomaticDirectory(_) => Some(
                Rotation { date: now.date(), max_bytes },
            ),
            OutputTarget::File(_) | OutputTarget::AutomaticFile(_) => None,
        };
        Journal { path, rotation, bytes, has_events: false, poisoned: false }
    }

    /// The file that is written, which may change with each batch.
    pub fn path(&self) -> (path: &str)
        ensures
            path@ == self.path@,
    {
        &self.path
    }

    /// Refuses a journal that failed before.
    pub fn check_healthy(&self) -> (result: Result<(), JournalError>)
        ensures
            result is Err <==> self.poisoned,
            result matches Err(error) ==> {
                &&& error matches JournalError::Io { permission_denied, message }
                &&& !permission_denied
                &&& message@ == POISONED@
            },
    {
        if self.poisoned {
            return Err(
                JournalError::Io { permission_denied: false, message: POISONED.to_owned() },
            );
        }
        Ok(())
    }

    /// Decides what is done with a batch of so many events that takes so many bytes.
    pub fn plan_append(&self, events: usize, batch: u64, now: Timestamp) -> (plan: Result<
        AppendPlan,
        JournalError,
    >)
        ensures
            plan is Err <==> self.poisoned,
            plan matches Err(error) ==> {
                &&& error matches JournalError::Io { permission_denied, message }
                &&& !permission_denied
                &&& message@ == POISONED@
            },
            plan matches Ok(plan) ==> plan == plan_of(*self, events as nat, batch, now),
    {
        match self.check_healthy() {
            Ok(()) => {},
            Err(error) => {
                return Err(error);
            },
        }
        if events == 0 {
            return Ok(AppendPlan::Nothing);
        }
        let rotation = match self.rotation {
            None => {
                return Ok(AppendPlan::Write);
            },
            Some(rotation) => rotation,
        };
        let later_date: bool = now.date().day > rotation.date.day;
        let oversized: bool = self.has_events && match rotation.max_bytes {
            Some(limit) => self.bytes > limit || batch > limit - self.bytes,
            None => false,
        };
        if later_date || oversized {
            Ok(AppendPlan::Rotate)
        } else {
            Ok(AppendPlan::Write)
        }
    }

    /// The journal after a new segment was begun.
    pub open spec fn in_segment(self, path: String, bytes: u64, now: Timestamp) -> Journal {
        Journal {
            path,
            rotation: match self.rotation {
                Some(rotation) => Some(
                    Rotation {
                        date: UtcDate {
                            day: if now.day_number() > rotation.date.day {
                                now.day_number() as i128
                            } else {
                                rotation.date.day
                            },
                        },
                        ..rotation
                    },
                ),
                None => None,
            },
            bytes,
            has_events: false,
            ..self
        }
    }

    /// Takes in that a new segment was begun. The latest day never goes back.
    pub fn rotated(&mut self, path: String, bytes: u64, now: Timestamp)
        ensures
            *final(self) == old(self).in_segment(path, bytes, now),
    {
        self.path = path;
        match self.rotation {
            Some(rotation) => {
                let today = now.date();
                let date = if today.day > rotation.date.day {
                    today
                } else {
                    rotation.date
                };
                self.rotation = Some(Rotation { date, max_bytes: rotation.max_bytes });
            },
            None => {},
        }
        self.bytes = bytes;
        self.has_events = false;
    }

    /// The journal after a batch was written.
    pub open spec fn with_batch(self, batch: u64) -> Journal {
        Journal {
            bytes: if self.bytes + batch <= u64::MAX {
                (self.bytes + batch) as u64
            } else {
                u64::MAX
            },
            has_events: true,
            ..self
        }
    }

    /// Takes in that a batch was written and stays.
    pub fn appended(&mut self, batch: u64)
        ensures
            *final(self) == old(self).with_batch(batch),
    {
        self.bytes = self.bytes.saturating_add(batch);
        self.has_events = true;
    }

    /// Takes in that writing failed: nothing more is written.
    pub fn failed(&mut self, operation: &str, error: JournalError) -> (told: JournalError)
        ensures
            *final(self) == (Journal { poisoned: true, ..*old(self) }),
            in_context(error, told, operation@, old(self).path@),
    {
        self.poisoned = true;
        contextual(&self.path, operation, error)
    }
}

/// The name of a segment. If it is taken, the next sequence number is tried.
pub open spec fn segment_text(now: Timestamp, sequence: u64) -> Seq<char> {
    "netband-"@ + now.stamp_spec() + (if sequence == 0 {
        Seq::empty()
    } else {
        "-"@ + dec(sequence as nat)
    }) + ".csv"@
}

proof fn lemma_dec_is_plain(n: nat)
    ensures
        forall|i: int| 0 <= i < dec(n).len() ==> name_char(#[trigger] dec(n)[i]),
    decreases n,
{
    if n >= 10 {
        lemma_dec_is_plain(n / 10);
        assert forall|i: int| 0 <= i < dec(n).len() implies name_char(#[trigger] dec(n)[i]) by {
            if i < dec(n / 10).len() {
                assert(dec(n)[i] == dec(n / 10)[i]);
            }
        }
    }
}

/// The name of a segment. From year 0 to year 9999 it is one that is taken up again.
pub fn segment_name(now: Timestamp, sequence: u64) -> (name: String)
    ensures
        name@ == segment_text(now, sequence),
        now.has_plain_year() ==> segment_name_ok(name@),
{
    let stamp = now.stamp_text();
    let ghost written = stamp@;
    let mut name = "netband-".to_owned().concat(&stamp);
    if sequence > 0 {
        name = name.concat("-").concat(&decimal(sequence as u128));
    }
    let name = name.concat(".csv");
    proof {
        let tail = if sequence == 0 {
            Seq::empty()
        } else {
            "-"@ + dec(sequence as nat)
        };
        assert(name@ =~= "netband-"@ + written + tail + ".csv"@);
        reveal_strlit("netband-");
        reveal_strlit(".csv");
        reveal_strlit("-");
        assert(name@.take("netband-"@.len() as int) =~= "netband-"@);
        assert(name@.skip(name@.len() - ".csv"@.len()) =~= ".csv"@);
        if now.has_plain_year() {
            lemma_dec_is_plain(sequence as nat);
            assert forall|i: int| 0 <= i < name@.len() implies name_char(#[trigger] name@[i]) by {
                let a = "netband-"@.len() as int;
                let b = a + written.len();
                let c = b + tail.len();
                if i < a {
                    assert(name@[i] == "netband-"@[i]);
                } else if i < b {
                    assert(name@[i] == written[i - a]);
                    assert(stamp_char(written[i - a]));
                } else if i < c {
                    assert(name@[i] == tail[i - b]);
                    if i > b {
                        assert(tail[i - b] == dec(sequence as nat)[i - b - 1]);
                    }
                } else {
                    assert(name@[i] == ".csv"@[i - c]);
                }
            }
        }
    }
    name
}

/// Trying the next sequence number always gives another name, so a segment that is there is never
/// written over.
pub proof fn law_sequence_numbers_give_new_names(now: Timestamp, a: u64, b: u64)
    requires
        a != b,
    ensures
        segment_text(now, a) != segment_text(now, b),
{
    if segment_text(now, a) == segment_text(now, b) {
        let start = "netband-"@ + now.stamp_spec();
        let end = ".csv"@;
        reveal_strlit("-");
        let x = if a == 0 {
            Seq::empty()
        } else {
            "-"@ + dec(a as nat)
        };
        let y = if b == 0 {
            Seq::empty()
        } else {
            "-"@ + dec(b as nat)
        };
        let left = segment_text(now, a);
        let right = segment_text(now, b);
        assert(left == start + x + end);
        assert(right == start + y + end);
        assert(left.len() == start.len() + x.len() + end.len());
        assert(right.len() == start.len() + y.len() + end.len());
        assert(x.len() == y.len());
        assert(left.subrange(start.len() as int, (start.len() + x.len()) as int) =~= x);
        assert(right.subrange(start.len() as int, (start.len() + y.len()) as int) =~= y);
        assert(x == y);
        if a > 0 && b > 0 {
            assert(x.skip(1) =~= dec(a as nat));
            assert(y.skip(1) =~= dec(b as nat));
            lemma_dec_is_faithful(a as nat, b as nat);
        }
    }
}

/// A batch is never split: it goes to one segment. A batch that is too large for any segment does
/// not leave an empty one behind.
pub proof fn law_no_empty_segment_is_left(
    journal: Journal,
    events: nat,
    batch: u64,
    now: Timestamp,
)
    requires
        plan_of(journal, events, batch, now) == AppendPlan::Rotate,
    ensures
        journal.has_events || now.day_number() > journal.rotation->0.date.day,
        forall|path: String, bytes: u64|
            plan_of(#[trigger] journal.in_segment(path, bytes, now), events, batch, now)
                == AppendPlan::Write,
{
}

/// The latest day never goes back, so a clock that is set back begins no new segment: until the
/// latest day is over, batches go on in the segment that is there as long as they fit.
pub proof fn law_days_never_go_back(
    journal: Journal,
    path: String,
    bytes: u64,
    now: Timestamp,
    later: Timestamp,
    events: nat,
    batch: u64,
)
    requires
        journal.rotation is Some,
        -0x4000_0000_0000_0000 <= now.day_number() <= 0x4000_0000_0000_0000,
    ensures
        ({
            let after = journal.in_segment(path, bytes, now);
            &&& after.rotation is Some
            &&& after.rotation->0.date.day >= journal.rotation->0.date.day
            &&& after.rotation->0.date.day >= now.day_number()
            &&& later.day_number() <= after.rotation->0.date.day && after.rotation->0.max_bytes
                is None ==> plan_of(after, events, batch, later) != AppendPlan::Rotate
        }),
{
}

/// A journal that failed takes nothing more in.
pub proof fn law_failed_journal_stays_failed(
    journal: Journal,
    path: String,
    bytes: u64,
    now: Timestamp,
    batch: u64,
)
    requires
        journal.poisoned,
    ensures
        journal.in_segment(path, bytes, now).poisoned,
        journal.with_batch(batch).poisoned,
{
}

/// What is done to begin a segment.
#[derive(Clone, Copy, Debug, PartialEq, Eq, Structural)]
pub enum SegmentStep {
    /// What an earlier attempt left is locked and taken away.
    DiscardStale,
    /// The file is made under its first name, where it is no journal yet.
    CreatePending,
    LockPending,
    WriteHeader,
    SyncHeader,
    /// The file gets its name as a segment, unless that is taken.
    Publish,
    /// The file's first name is taken away.
    Unlink,
    SyncSegmentEntry,
    /// The note is opened and locked before anything is written to it.
    LockMarker,
    WriteMarker,
    SyncMarker,
    RenameMarker,
    SyncMarkerEntry,
}

/// What is done to begin a segment, in order.
pub open spec fn segment_order() -> Seq<SegmentStep> {
    seq![
        SegmentStep::DiscardStale,
        SegmentStep::CreatePending,
        SegmentStep::LockPending,
        SegmentStep::WriteHeader,
        SegmentStep::SyncHeader,
        SegmentStep::Publish,
        SegmentStep::Unlink,
        SegmentStep::SyncSegmentEntry,
        SegmentStep::LockMarker,
        SegmentStep::WriteMarker,
        SegmentStep::SyncMarker,
        SegmentStep::RenameMarker,
        SegmentStep::SyncMarkerEntry,
    ]
}

/// What is done to begin a segment, in order.
pub fn segment_plan() -> (plan: Vec<SegmentStep>)
    ensures
        plan@ == segment_order(),
{
    let plan: Vec<SegmentStep> = vec![
        SegmentStep::DiscardStale,
        SegmentStep::CreatePending,
        SegmentStep::LockPending,
        SegmentStep::WriteHeader,
        SegmentStep::SyncHeader,
        SegmentStep::Publish,
        SegmentStep::Unlink,
        SegmentStep::SyncSegmentEntry,
        SegmentStep::LockMarker,
        SegmentStep::WriteMarker,
        SegmentStep::SyncMarker,
        SegmentStep::RenameMarker,
        SegmentStep::SyncMarkerEntry,
    ];
    proof {
        assert(plan@ =~= segment_order());
    }
    plan
}

/// One step is done before another.
pub open spec fn done_before(a: SegmentStep, b: SegmentStep) -> bool {
    exists|i: int, j: int|
        0 <= i < j < segment_order().len() && #[trigger] segment_order()[i] == a
            && #[trigger] segment_order()[j] == b
}

/// A file becomes a segment only with its whole header safely written; its first name is gone
/// before it holds events; and it is safely in the directory before the note names it, which is
/// locked before it is written and safely written before it takes effect.
pub proof fn law_segments_are_begun_safely()
    ensures
        done_before(SegmentStep::LockPending, SegmentStep::WriteHeader),
        done_before(SegmentStep::SyncHeader, SegmentStep::Publish),
        done_before(SegmentStep::Publish, SegmentStep::Unlink),
        done_before(SegmentStep::Unlink, SegmentStep::SyncSegmentEntry),
        done_before(SegmentStep::SyncSegmentEntry, SegmentStep::RenameMarker),
        done_before(SegmentStep::LockMarker, SegmentStep::WriteMarker),
        done_before(SegmentStep::SyncMarker, SegmentStep::RenameMarker),
        segment_order().last() == SegmentStep::SyncMarkerEntry,
        forall|i: int, j: int|
            0 <= i < j < segment_order().len() ==> segment_order()[i] != segment_order()[j],
{
    let order = segment_order();
    assert(order[2] == SegmentStep::LockPending && order[3] == SegmentStep::WriteHeader);
    assert(order[4] == SegmentStep::SyncHeader && order[5] == SegmentStep::Publish);
    assert(order[6] == SegmentStep::Unlink && order[7] == SegmentStep::SyncSegmentEntry);
    assert(order[8] == SegmentStep::LockMarker && order[9] == SegmentStep::WriteMarker);
    assert(order[10] == SegmentStep::SyncMarker && order[11] == SegmentStep::RenameMarker);
}

/// What is done to open a journal.
#[derive(Clone, Copy, Debug, PartialEq, Eq, Structural)]
pub enum OpenStep {
    /// The directories are made, and all of them are made to stay.
    CreateDirectories,
    /// The file is opened and locked, and mended if it holds rows.
    OpenFile,
    /// A file with a name of its own is made and locked, and gets its header.
    CreateFile,
    SyncData,
    /// The directory that holds the file is made to stay.
    SyncParent,
    /// The directory is made the journal's own.
    LockDirectory,
    /// The segment that the note names is mended.
    RecoverSegment,
    BeginSegment,
}

/// What is done to open a journal, in order.
pub open spec fn open_order(target: OutputTarget) -> Seq<OpenStep> {
    match target {
        OutputTarget::File(_) => {
            seq![OpenStep::OpenFile, OpenStep::SyncData, OpenStep::SyncParent]
        },
        OutputTarget::AutomaticFile(_) => {
            seq![
                OpenStep::CreateDirectories,
                OpenStep::CreateFile,
                OpenStep::SyncData,
                OpenStep::SyncParent,
            ]
        },
        OutputTarget::Directory(_) => {
            seq![OpenStep::LockDirectory, OpenStep::RecoverSegment, OpenStep::BeginSegment]
        },
        OutputTarget::AutomaticDirectory(_) => {
            seq![
                OpenStep::CreateDirectories,
                OpenStep::LockDirectory,
                OpenStep::RecoverSegment,
                OpenStep::BeginSegment,
            ]
        },
    }
}

/// What is done to open a journal, in order.
pub fn open_plan(target: &OutputTarget) -> (plan: Vec<OpenStep>)
    ensures
        plan@ == open_order(*target),
{
    let plan: Vec<OpenStep> = match target {
        OutputTarget::File(_) => {
            vec![OpenStep::OpenFile, OpenStep::SyncData, OpenStep::SyncParent]
        },
        OutputTarget::AutomaticFile(_) => {
            vec![
                OpenStep::CreateDirectories,
                OpenStep::CreateFile,
                OpenStep::SyncData,
                OpenStep::SyncParent,
            ]
        },
        OutputTarget::Directory(_) => {
            vec![OpenStep::LockDirectory, OpenStep::RecoverSegment, OpenStep::BeginSegment]
        },
        OutputTarget::AutomaticDirectory(_) => {
            vec![
                OpenStep::CreateDirectories,
                OpenStep::LockDirectory,
                OpenStep::RecoverSegment,
                OpenStep::BeginSegment,
            ]
        },
    };
    proof {
        assert(plan@ =~= open_order(*target));
    }
    plan
}

/// The directory that holds a file: where its path names none, the one that the program runs in.
pub fn parent_directory(parent: Option<&str>) -> (directory: &str)
    ensures
        directory@ == (match parent {
            Some(path) => if path@.len() > 0 {
                path@
            } else {
                "."@
            },
            None => "."@,
        }),
{
    match parent {
        Some(path) => if crate::text::chars_of(path).len() > 0 {
            path
        } else {
            "."
        },
        None => ".",
    }
}

/// What stands at a path.
#[derive(Clone, Copy, Debug, PartialEq, Eq, Structural)]
pub enum PathKind {
    File,
    Missing,
    Other,
}

/// Whether a file is there. Anything but a plain file in its place, such as a link, is refused.
pub fn regular_or_missing(kind: PathKind, path: &str) -> (there: Result<bool, JournalError>)
    ensures
        match (kind, there) {
            (PathKind::File, Ok(there)) => there,
            (PathKind::Missing, Ok(there)) => !there,
            (PathKind::Other, Err(error)) => error is Corrupt && error->Corrupt_0@ == path@,
            _ => false,
        },
{
    match kind {
        PathKind::File => Ok(true),
        PathKind::Missing => Ok(false),
        PathKind::Other => Err(JournalError::Corrupt(path.to_owned())),
    }
}

} // verus!
