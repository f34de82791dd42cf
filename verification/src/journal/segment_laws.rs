//! When a segment is left for a new one, and what is done to begin it.
use super::JournalError;
use super::segments::{
    AppendPlan, Journal, OpenStep, PathKind, SegmentStep, check_target, contextual, open_plan,
    parent_directory, regular_or_missing, segment_name, segment_plan,
};
use crate::config::OutputTarget;
use crate::time::{Timestamp, stamp};
use vstd::prelude::*;

verus! {

/// The instant lies behind the day.
pub open spec fn past_day(now: Timestamp, day: int) -> bool {
    now.nanos >= (day + 1) * 86_400_000_000_000
}

/// The system failed for this reason, and whether it refused access.
pub open spec fn system_says(error: JournalError, denied: bool, why: Seq<char>) -> bool {
    match error {
        JournalError::Io { permission_denied, message } => {
            permission_denied == denied && message@ == why
        },
        _ => false,
    }
}

/// A new segment is begun when the day of the last one is over, or when the batch would make a
/// segment that holds events larger than it may be, and then only. A journal without segments
/// begins none, a batch without events changes nothing, and a journal that failed takes nothing.
pub proof fn law_segment_is_left_when_full_or_old(
    journal: Journal,
    events: usize,
    batch: u64,
    now: Timestamp,
    result: Result<AppendPlan, JournalError>,
)
    requires
        call_ensures(Journal::plan_append, (&journal, events, batch, now), result),
    ensures
        result is Err <==> journal.poisoned,
        result is Err ==> system_says(
            result->Err_0,
            false,
            "journal failed; reopen and recover before writing again"@,
        ),
        result is Ok ==> {
            &&& result->Ok_0 == AppendPlan::Nothing <==> events == 0
            &&& result->Ok_0 == AppendPlan::Rotate <==> events > 0 && journal.rotation is Some && (
            past_day(now, journal.rotation->0.date.day as int) || (journal.has_events
                && journal.rotation->0.max_bytes is Some && journal.bytes + batch
                > journal.rotation->0.max_bytes->0))
        },
{
    if journal.rotation is Some {
        let day = journal.rotation->0.date.day as int;
        let at = now.nanos as int;
        assert(at / 86_400_000_000_000 > day <==> at >= (day + 1) * 86_400_000_000_000);
    }
}

/// A new segment holds no events yet, and its day is that of the clock unless a later one was
/// begun before.
pub proof fn law_new_segment_begins_without_events(
    journal: Journal,
    path: String,
    bytes: u64,
    now: Timestamp,
)
    ensures
        ({
            let after = journal.in_segment(path, bytes, now);
            &&& after.path == path
            &&& after.bytes == bytes
            &&& !after.has_events
            &&& after.poisoned == journal.poisoned
            &&& after.rotation is Some <==> journal.rotation is Some
            &&& journal.rotation is Some ==> {
                let day = journal.rotation->0.date.day;
                &&& after.rotation->0.max_bytes == journal.rotation->0.max_bytes
                &&& !past_day(now, day as int) ==> after.rotation->0.date.day == day
                &&& past_day(now, day as int) ==> after.rotation->0.date.day
                    * 86_400_000_000_000 <= now.nanos < (after.rotation->0.date.day + 1)
                    * 86_400_000_000_000
            }
        }),
{
    if journal.rotation is Some {
        let day = journal.rotation->0.date.day as int;
        let at = now.nanos as int;
        assert(at / 86_400_000_000_000 > day <==> at >= (day + 1) * 86_400_000_000_000);
    }
}

/// A batch adds its bytes to the segment, which holds events from then on.
pub proof fn law_batch_adds_its_bytes(journal: Journal, batch: u64)
    requires
        journal.bytes + batch <= u64::MAX,
    ensures
        ({
            let after = journal.with_batch(batch);
            &&& after.bytes == journal.bytes + batch
            &&& after.has_events
            &&& after.path == journal.path
            &&& after.rotation == journal.rotation
            &&& after.poisoned == journal.poisoned
        }),
{
}

/// A journal that was just opened holds no events of its own and has not failed. It has segments
/// where the output is a directory, with the day of the clock and the limit that was given.
pub proof fn law_opened_journal_is_healthy(
    target: OutputTarget,
    max_bytes: Option<u64>,
    now: Timestamp,
    path: String,
    bytes: u64,
    journal: Journal,
)
    requires
        call_ensures(Journal::opened, (&target, max_bytes, now, path, bytes), journal),
    ensures
        journal.path == path,
        journal.bytes == bytes,
        !journal.has_events && !journal.poisoned,
        journal.rotation is Some <==> target is Directory || target is AutomaticDirectory,
        journal.rotation is Some ==> journal.rotation->0.max_bytes == max_bytes
            && journal.rotation->0.date.day * 86_400_000_000_000 <= now.nanos < (
        journal.rotation->0.date.day + 1) * 86_400_000_000_000,
{
}

/// A limit on size is taken for a directory only, and only if a byte fits into it.
pub proof fn law_limit_needs_segments(
    target: OutputTarget,
    max_bytes: Option<u64>,
    result: Result<(), JournalError>,
)
    requires
        call_ensures(check_target, (&target, max_bytes), result),
    ensures
        result is Ok <==> (max_bytes is None || (max_bytes->0 >= 1 && (target is Directory
            || target is AutomaticDirectory))),
{
}

/// A failure of the system is told with what was being done and where; any other is told as it is.
pub proof fn law_failure_is_told_with_its_place(
    path: &str,
    operation: &str,
    error: JournalError,
    told: JournalError,
)
    requires
        call_ensures(contextual, (path, operation, error), told),
    ensures
        forall|denied: bool, why: Seq<char>|
            #[trigger] system_says(error, denied, why) ==> system_says(
                told,
                denied,
                operation@ + " "@ + path@ + ": "@ + why,
            ),
        !(error is Io) ==> told == error,
{
}

/// A segment is named after the time that it was begun at, with a number where that name is taken.
pub proof fn law_segment_is_named_after_its_time(now: Timestamp, sequence: u64, name: String)
    requires
        call_ensures(segment_name, (now, sequence), name),
        now.valid(),
    ensures
        ({
            let begun = "netband-"@ + stamp(
                (now.nanos as int / 1_000_000_000) as i64,
                (now.nanos as int % 1_000_000_000) as u32,
            );
            &&& name@.len() >= begun.len() + 4
            &&& name@.take(begun.len() as int) == begun
            &&& name@.skip(name@.len() - 4) == ".csv"@
            &&& sequence == 0 ==> name@.len() == begun.len() + 4
            &&& sequence > 0 ==> name@.len() > begun.len() + 5 && name@[begun.len() as int] == '-'
        }),
{
    reveal_strlit(".csv");
    reveal_strlit("-");
    let begun = "netband-"@ + stamp(
        (now.nanos as int / 1_000_000_000) as i64,
        (now.nanos as int % 1_000_000_000) as u32,
    );
    let tail = if sequence == 0 {
        Seq::empty()
    } else {
        "-"@ + crate::text::dec(sequence as nat)
    };
    crate::text::lemma_dec_starts_with_a_digit(sequence as nat);
    assert(name@ =~= begun + tail + ".csv"@);
    assert(name@.take(begun.len() as int) =~= begun);
    assert(name@.skip(name@.len() - 4) =~= ".csv"@);
}

/// Which of the steps to a segment this is.
pub open spec fn stage(step: SegmentStep) -> int {
    match step {
        SegmentStep::DiscardStale => 0,
        SegmentStep::CreatePending => 1,
        SegmentStep::LockPending => 2,
        SegmentStep::WriteHeader => 3,
        SegmentStep::SyncHeader => 4,
        SegmentStep::Publish => 5,
        SegmentStep::Unlink => 6,
        SegmentStep::SyncSegmentEntry => 7,
        SegmentStep::LockMarker => 8,
        SegmentStep::WriteMarker => 9,
        SegmentStep::SyncMarker => 10,
        SegmentStep::RenameMarker => 11,
        SegmentStep::SyncMarkerEntry => 12,
    }
}

/// Every step to a segment is taken, each once and in its place: what is left over goes first, a
/// file is locked, written and made to stay before it is a segment, and the note is locked,
/// written and made to stay before it takes effect.
pub proof fn law_every_step_to_a_segment_is_taken(plan: Vec<SegmentStep>)
    requires
        call_ensures(segment_plan, (), plan),
    ensures
        plan@.len() == 13,
        forall|i: int| 0 <= i < 13 ==> stage(#[trigger] plan@[i]) == i,
{
}

/// The directories are made where the place is made, and before anything else. A directory is
/// locked, then the segment that was written last is mended, then a new one is begun. A file is
/// opened or made, its data are made to stay, and last the directory that holds it.
pub proof fn law_journal_is_opened_in_order(target: OutputTarget, plan: Vec<OpenStep>)
    requires
        call_ensures(open_plan, (&target,), plan),
    ensures
        ({
            let made = if target is AutomaticFile || target is AutomaticDirectory {
                1int
            } else {
                0
            };
            &&& plan@.len() == made + 3
            &&& made == 1 ==> plan@[0] == OpenStep::CreateDirectories
            &&& target is Directory || target is AutomaticDirectory ==> {
                &&& plan@[made] == OpenStep::LockDirectory
                &&& plan@[made + 1] == OpenStep::RecoverSegment
                &&& plan@[made + 2] == OpenStep::BeginSegment
            }
            &&& target is File || target is AutomaticFile ==> {
                &&& target is File ==> plan@[made] == OpenStep::OpenFile
                &&& target is AutomaticFile ==> plan@[made] == OpenStep::CreateFile
                &&& plan@[made + 1] == OpenStep::SyncData
                &&& plan@[made + 2] == OpenStep::SyncParent
            }
        }),
{
}

/// A file that is in no named directory is in the one that the program runs in.
pub proof fn law_every_file_is_in_a_directory(parent: Option<&str>, directory: &str)
    requires
        call_ensures(parent_directory, (parent,), directory),
    ensures
        directory@.len() > 0,
        parent is Some && parent->0@.len() > 0 ==> directory@ == parent->0@,
        parent is None || parent->0@.len() == 0 ==> directory@ == "."@,
{
    reveal_strlit(".");
}

/// A plain file is there, and nothing is not; anything else is refused by its path.
pub proof fn law_only_plain_files_are_taken(
    kind: PathKind,
    path: &str,
    there: Result<bool, JournalError>,
)
    requires
        call_ensures(regular_or_missing, (kind, path), there),
    ensures
        there == Ok::<bool, JournalError>(true) <==> kind == PathKind::File,
        there == Ok::<bool, JournalError>(false) <==> kind == PathKind::Missing,
        there is Err <==> kind == PathKind::Other,
        there is Err ==> there->Err_0 is Corrupt && there->Err_0->Corrupt_0@ == path@,
{
}

} // verus!
