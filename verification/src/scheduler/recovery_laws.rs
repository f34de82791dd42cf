//! What the scheduler may go on with, and what is written down of its accounting.
use super::persistence::{
    FileKind, Header, Log, ParsedRecord, Persistence, Record, Recovered, Recovery, RecoveryFiles,
    check_state_name, checkpoint_after, commit_plan, first_checkpoint, has_begun, has_recorded,
    has_saved, read_log, record_fault, records_fault, recover, replayed,
};
use super::state::StateView;
use super::store::{
    Checkpoint, CheckpointView, SchedulerStore, StoreView, accounting, accounting_of,
    is_sound_store, providers_view,
    same_accounting, sound_state,
};
use super::{Scheduler, SchedulerError};
use crate::digest::{hex_of, sha256_of};
use crate::string_map::{ascending, lemma_stored, lookup};
use vstd::prelude::*;

verus! {

/// A state that a provider can have come to.
pub open spec fn sane(id: Seq<char>, state: StateView) -> bool {
    &&& id.len() > 0
    &&& state.rng_state != 0
    &&& state.policy_slot_jitter_pct <= 100
    &&& state.policy_min_spacing_ms > 0
    &&& state.backoff_step <= 4
    &&& forall|i: int, j: int|
        0 <= i < j < state.runs.len() ==> (#[trigger] state.runs[i]).nanos <= (
        #[trigger] state.runs[j]).nanos
    &&& state.runs.len() > 0 ==> state.last_started_at_utc is Some
        && state.last_started_at_utc->0.nanos >= state.runs[state.runs.len() - 1].nanos
}

/// Every provider has a state that it can have come to.
pub open spec fn all_sane(store: StoreView) -> bool {
    forall|i: int|
        0 <= i < store.providers.len() ==> sane(
            (#[trigger] store.providers[i]).0,
            store.providers[i].1,
        )
}

proof fn lemma_sane(id: Seq<char>, state: StateView)
    ensures
        sane(id, state) == sound_state(id, state),
{
    if sane(id, state) {
        assert(sound_state(id, state));
    }
}

proof fn lemma_all_sane(store: StoreView)
    ensures
        all_sane(store) == super::store::sound_store(store),
{
    assert forall|i: int| 0 <= i < store.providers.len() implies sane(
        (#[trigger] store.providers[i]).0,
        store.providers[i].1,
    ) == sound_state(store.providers[i].0, store.providers[i].1) by {
        lemma_sane(store.providers[i].0, store.providers[i].1);
    }
    if all_sane(store) {
        assert forall|i: int| 0 <= i < store.providers.len() implies sound_state(
            (#[trigger] store.providers[i]).0,
            store.providers[i].1,
        ) by {
            assert(sane(store.providers[i].0, store.providers[i].1));
        }
    } else {
        let i = choose|i: int|
            0 <= i < store.providers.len() && !sane(
                (#[trigger] store.providers[i]).0,
                store.providers[i].1,
            );
        assert(!sound_state(store.providers[i].0, store.providers[i].1));
    }
}

/// A store is sound if every provider has a name, a working random state, a policy that can be
/// kept, a backoff of four steps at most, and starts in order with the last of them on record.
pub proof fn law_store_is_sound_with_sane_states(store: SchedulerStore, sound: bool)
    requires
        call_ensures(is_sound_store, (&store,), sound),
    ensures
        sound <==> all_sane(store@),
{
    lemma_all_sane(store@);
}

/// Two states with the same accounting: the day and its starts, the last start, how long starts
/// are put off, and the test that waits.
pub open spec fn same_account(one: StateView, other: StateView) -> bool {
    &&& one.day_utc == other.day_utc
    &&& one.runs == other.runs
    &&& one.last_started_at_utc == other.last_started_at_utc
    &&& one.cooldown_until_utc == other.cooldown_until_utc
    &&& one.backoff_step == other.backoff_step
    &&& one.deferred == other.deferred
}

/// Two stores with the same providers and, of each, the same accounting.
pub open spec fn same_accounts(one: StoreView, other: StoreView) -> bool {
    &&& one.providers.len() == other.providers.len()
    &&& forall|i: int|
        0 <= i < one.providers.len() ==> (#[trigger] one.providers[i]).0 == other.providers[i].0
            && same_account(one.providers[i].1, other.providers[i].1)
}

proof fn lemma_same_accounts(one: StoreView, other: StoreView)
    ensures
        same_accounts(one, other) == (accounting(one) == accounting(other)),
{
    if same_accounts(one, other) {
        assert forall|i: int| 0 <= i < one.providers.len() implies accounting(one)[i]
            == accounting(other)[i] by {
            assert(same_account(one.providers[i].1, other.providers[i].1));
        }
        assert(accounting(one) =~= accounting(other));
    } else if accounting(one) == accounting(other) {
        assert(accounting(one).len() == one.providers.len());
        assert(accounting(other).len() == other.providers.len());
        assert forall|i: int| 0 <= i < one.providers.len() implies (
        #[trigger] one.providers[i]).0 == other.providers[i].0 && same_account(
            one.providers[i].1,
            other.providers[i].1,
        ) by {
            assert(accounting(one)[i] == (one.providers[i].0, accounting_of(one.providers[i].1)));
            assert(accounting(other)[i] == (
                other.providers[i].0,
                accounting_of(other.providers[i].1),
            ));
        }
    }
}

/// Stores are told apart by anything that decides whether a test may start.
pub proof fn law_accounting_is_compared_in_full(
    one: SchedulerStore,
    other: SchedulerStore,
    same: bool,
)
    requires
        call_ensures(same_accounting, (&one, &other), same),
    ensures
        same <==> same_accounts(one@, other@),
{
    lemma_same_accounts(one@, other@);
}

/// A replay takes over the accounting on record, and the triggers; the plan, the policy and the
/// random state stay. The latest time that was seen is kept.
pub proof fn law_replay_takes_over_the_account(state: StateView, recorded: StateView)
    ensures
        ({
            let after = replayed(state, recorded);
            &&& same_account(after, recorded)
            &&& after.interface_triggers == recorded.interface_triggers
            &&& after.slots == state.slots
            &&& after.policy_daily_max == state.policy_daily_max
            &&& after.policy_min_spacing_ms == state.policy_min_spacing_ms
            &&& after.policy_slot_jitter_pct == state.policy_slot_jitter_pct
            &&& after.rng_state == state.rng_state
            &&& after.last_observed_utc.nanos >= state.last_observed_utc.nanos
            &&& after.last_observed_utc.nanos >= recorded.last_observed_utc.nanos
            &&& after.last_observed_utc == state.last_observed_utc || after.last_observed_utc
                == recorded.last_observed_utc
        }),
{
}

/// The bytes' digest is written so.
pub open spec fn written_digest(bytes: Seq<u8>) -> Seq<char> {
    hex_of(sha256_of(bytes))
}

/// A hexadecimal digit.
pub open spec fn hex_digit(c: char) -> bool {
    ('0' <= c && c <= '9') || ('a' <= c && c <= 'f') || ('A' <= c && c <= 'F')
}

/// A header that a log can begin with.
pub open spec fn sound_header(header: Result<Header, String>) -> bool {
    &&& header is Ok
    &&& header->Ok_0.version == 1
    &&& header->Ok_0.installation@.len() == 32
    &&& forall|i: int| 0 <= i < 32 ==> hex_digit(#[trigger] header->Ok_0.installation@[i])
}

/// The record stands in its place: it is numbered from one, names the digest of the line before
/// it, has the digest of its own bytes, and holds sound states without a checkpoint.
pub open spec fn in_place(
    first: Seq<u8>,
    records: Seq<Result<ParsedRecord, String>>,
    i: int,
) -> bool {
    &&& records[i] is Ok
    &&& records[i]->Ok_0.record.sequence == i + 1
    &&& i == 0 ==> records[i]->Ok_0.record.previous_digest@ == written_digest(first)
    &&& i > 0 ==> records[i - 1] is Ok && records[i]->Ok_0.record.previous_digest@
        == records[i - 1]->Ok_0.record.digest@
    &&& records[i]->Ok_0.record.digest@ == written_digest(records[i]->Ok_0.payload@)
    &&& records[i]->Ok_0.record.state.schema_version == 1
    &&& records[i]->Ok_0.record.state.checkpoint is None
    &&& all_sane(records[i]->Ok_0.record.state@)
}

proof fn lemma_chain(
    path: Seq<char>,
    first: Seq<u8>,
    header: Header,
    records: Seq<Result<ParsedRecord, String>>,
    n: nat,
)
    requires
        n <= records.len(),
        records.len() < u64::MAX,
    ensures
        records_fault(path, first_checkpoint(header, first), records, n) is None <==> forall|i: int|
            0 <= i < n ==> #[trigger] in_place(first, records, i),
        records_fault(path, first_checkpoint(header, first), records, n) is None ==> {
            let behind = checkpoint_after(first_checkpoint(header, first), records, n);
            &&& behind.sequence == n
            &&& behind.version == header.version
            &&& behind.installation == header.installation@
            &&& n == 0 ==> behind.digest == written_digest(first)
            &&& n > 0 ==> behind.digest == records[n - 1]->Ok_0.record.digest@
        },
    decreases n,
{
    if n > 0 {
        let start = first_checkpoint(header, first);
        lemma_chain(path, first, header, records, (n - 1) as nat);
        if records[n - 1] is Ok {
            lemma_all_sane(records[n - 1]->Ok_0.record.state@);
        }
        if records_fault(path, start, records, (n - 1) as nat) is None {
            assert(n - 1 > 0 ==> in_place(first, records, n - 2));
            assert(records_fault(path, start, records, n) == record_fault(
                path,
                checkpoint_after(start, records, (n - 1) as nat),
                records[n - 1],
            ));
            assert(record_fault(
                path,
                checkpoint_after(start, records, (n - 1) as nat),
                records[n - 1],
            ) is None <==> in_place(first, records, n - 1));
        }
    }
}

/// A log is read if and only if its header is sound and every record stands in its place. It then
/// holds every recorded state, and behind each line the number and the digest of that line.
pub proof fn law_log_is_read_if_its_chain_holds(
    path: &str,
    first: Vec<u8>,
    header: Result<Header, String>,
    records: Vec<Result<ParsedRecord, String>>,
    log: Result<Log, SchedulerError>,
)
    requires
        call_ensures(read_log, (path, &first, header, records), log),
        records@.len() < u64::MAX,
    ensures
        log is Ok <==> sound_header(header) && forall|i: int|
            0 <= i < records@.len() ==> #[trigger] in_place(first@, records@, i),
        log is Ok ==> {
            &&& log->Ok_0.states().len() == records@.len()
            &&& log->Ok_0.checkpoints().len() == records@.len() + 1
            &&& log->Ok_0.checkpoints()[0].digest == written_digest(first@)
            &&& forall|i: int|
                0 <= i < records@.len() ==> #[trigger] log->Ok_0.states()[i]
                    == records@[i]->Ok_0.record.state@
            &&& forall|i: int|
                0 <= i <= records@.len() ==> {
                    let held = #[trigger] log->Ok_0.checkpoints()[i];
                    &&& held.sequence == i
                    &&& held.version == 1
                    &&& held.installation == header->Ok_0.installation@
                    &&& i > 0 ==> held.digest == records@[i - 1]->Ok_0.record.digest@
                }
        },
{
    if header is Ok {
        lemma_chain(path@, first@, header->Ok_0, records@, records@.len());
        if log is Ok {
            assert forall|i: int| 0 <= i <= records@.len() implies {
                let held = #[trigger] log->Ok_0.checkpoints()[i];
                &&& held.sequence == i
                &&& held.version == 1
                &&& held.installation == header->Ok_0.installation@
                &&& i == 0 ==> held.digest == written_digest(first@)
                &&& i > 0 ==> held.digest == records@[i - 1]->Ok_0.record.digest@
            } by {
                lemma_chain(path@, first@, header->Ok_0, records@, i as nat);
            }
        }
    }
}

/// The log has come by this checkpoint.
pub open spec fn came_by(log: Log, checkpoint: CheckpointView) -> bool {
    checkpoint.sequence < log.checkpoints().len() && log.checkpoints()[checkpoint.sequence as int]
        == checkpoint
}

/// No test was ever started.
pub open spec fn never_started(store: StoreView) -> bool {
    forall|i: int|
        0 <= i < store.providers.len() ==> {
            let state = (#[trigger] store.providers[i]).1;
            &&& state.runs.len() == 0
            &&& state.last_started_at_utc is None
            &&& state.cooldown_until_utc is None
            &&& state.backoff_step == 0
        }
}

/// The checkpoint file names a place that the log has come by.
pub open spec fn marker_agrees(files: RecoveryFiles, log: Log) -> bool {
    &&& files.marker is Some
    &&& !files.marker->0.empty
    &&& files.marker->0.checkpoint is Ok
    &&& came_by(log, files.marker->0.checkpoint->Ok_0@)
}

/// The snapshot can be read, is sound, and has the accounting of the record that its checkpoint
/// names.
pub open spec fn snapshot_agrees(files: RecoveryFiles, log: Log) -> bool {
    let snapshot = files.primary->0;
    &&& snapshot is Ok
    &&& snapshot->Ok_0@.schema_version == 1
    &&& all_sane(snapshot->Ok_0@)
    &&& snapshot->Ok_0@.checkpoint is Some
    &&& came_by(log, snapshot->Ok_0@.checkpoint->0)
    &&& snapshot->Ok_0@.checkpoint->0.sequence >= 1
    &&& same_accounts(
        snapshot->Ok_0@,
        log.states()[snapshot->Ok_0@.checkpoint->0.sequence - 1],
    )
}

/// The scheduler goes on exactly where its files agree. With a snapshot, both it and the
/// checkpoint file have to agree with the log. Without one, either nothing shows that it ever ran,
/// or it was interrupted before its first test: the log holds one record at most, without a start,
/// and there is no backup.
pub proof fn law_scheduler_goes_on_where_its_files_agree(
    files: RecoveryFiles,
    recovery: Result<Recovery, SchedulerError>,
)
    requires
        call_ensures(recover, (files,), recovery),
    ensures
        recovery is Ok && recovery->Ok_0 is NeedsLog <==> files.primary is None && files.marker
            is None && !files.backup && files.ledger is None,
        recovery is Ok && recovery->Ok_0 is Ready <==> {
            let log = files.ledger->0->Ok_0;
            &&& files.ledger is Some
            &&& files.ledger->0 is Ok
            &&& files.primary is Some ==> snapshot_agrees(files, log) && marker_agrees(files, log)
            &&& files.primary is None && files.marker is None && !files.backup
                ==> log.states().len() == 0
            &&& files.primary is None && (files.marker is Some || files.backup) ==> {
                &&& marker_agrees(files, log)
                &&& !files.backup
                &&& log.states().len() <= 1
                &&& log.states().len() == 1 ==> never_started(log.states()[0])
            }
        },
{
    if files.primary is Some && files.primary->0 is Ok {
        let snapshot = files.primary->0->Ok_0@;
        lemma_all_sane(snapshot);
        if files.ledger is Some && files.ledger->0 is Ok && snapshot.checkpoint is Some {
            lemma_same_accounts(
                snapshot,
                files.ledger->0->Ok_0.states()[snapshot.checkpoint->0.sequence - 1],
            );
            lemma_same_accounts(
                files.ledger->0->Ok_0.states()[snapshot.checkpoint->0.sequence - 1],
                snapshot,
            );
        }
    }
}

/// What the scheduler goes on with stands at the end of the log. The snapshot is taken as it is
/// where it stands there too, and otherwise the last record is replayed over it.
pub proof fn law_scheduler_goes_on_from_the_end_of_its_log(
    files: RecoveryFiles,
    ready: Recovered,
)
    requires
        call_ensures(recover, (files,), Ok::<Recovery, SchedulerError>(Recovery::Ready(ready))),
    ensures
        ({
            let log = files.ledger->0->Ok_0;
            &&& ready.checkpoint@ == log.checkpoints().last()
            &&& ready.store@.checkpoint == Some(ready.checkpoint@)
            &&& log.states().len() > 0 ==> ready.committed@ == log.states().last()
            &&& log.states().len() == 0 ==> ready.committed@.providers.len() == 0
            &&& files.primary is Some ==> {
                let snapshot = files.primary->0->Ok_0@;
                &&& ready.replayed <==> log.states().len() > 0 && snapshot.checkpoint->0
                    != log.checkpoints().last()
                &&& !ready.replayed ==> ready.store@.providers == snapshot.providers
                &&& ready.replayed ==> ready.store@.providers
                    == super::persistence::replayed_all(
                    snapshot.providers,
                    log.states().last().providers,
                )
            }
            &&& files.primary is None && log.states().len() == 0
                ==> ready.store@.providers.len() == 0
        }),
{
}

/// The files when a commit begins: a commit that was not finished, and a store that is not sound,
/// are refused, and until the commit is finished no other may begin.
pub proof fn law_unfinished_commit_stops_the_next(
    before: Persistence,
    store: StoreView,
    begun: Result<(), SchedulerError>,
    after: Persistence,
)
    requires
        has_begun(before, store, begun, after),
    ensures
        begun is Ok <==> !before.poisoned && all_sane(store),
        after.poisoned,
        after.path == before.path,
        after.checkpoint == before.checkpoint,
        after.committed == before.committed,
        after.snapshot_digest == before.snapshot_digest,
        after.ledger_len == before.ledger_len,
{
    lemma_all_sane(store);
}

/// A record that was written is the end of the log from then on.
pub proof fn law_written_record_is_the_end_of_the_log(
    before: Persistence,
    record: Record,
    line_len: u64,
    after: Persistence,
)
    requires
        has_recorded(before, record, line_len, after),
    ensures
        after.checkpoint.sequence == record.sequence,
        after.checkpoint.digest@ == record.digest@,
        after.checkpoint.version == before.checkpoint.version,
        after.checkpoint.installation@ == before.checkpoint.installation@,
        after.committed == record.state,
        after.ledger_len == before.ledger_len + line_len,
        after.poisoned == before.poisoned,
        after.snapshot_digest == before.snapshot_digest,
{
    assert(after.checkpoint@.sequence == record.sequence);
    assert(after.checkpoint@.digest == record.digest@);
    assert(after.checkpoint@.version == before.checkpoint@.version);
    assert(after.checkpoint@.installation == before.checkpoint@.installation);
}

/// A snapshot that was written ends the commit, and is the one that is expected from then on.
pub proof fn law_written_snapshot_ends_the_commit(
    before: Persistence,
    encoded: Seq<u8>,
    after: Persistence,
)
    requires
        has_saved(before, encoded, after),
    ensures
        !after.poisoned,
        after.snapshot_digest is Some,
        after.snapshot_digest->0@ == written_digest(encoded),
        after.checkpoint == before.checkpoint,
        after.committed == before.committed,
        after.ledger_len == before.ledger_len,
        after.path == before.path,
{
}

/// Files that are no longer as they were left are refused: the snapshot, the checkpoint and the
/// length of the log.
pub proof fn law_changed_files_are_refused(
    held: Persistence,
    snapshot: Option<&Vec<u8>>,
    marker: Checkpoint,
    ledger_len: u64,
    checked: Result<(), SchedulerError>,
)
    requires
        call_ensures(Persistence::check_files, (&held, snapshot, &marker, ledger_len), checked),
    ensures
        checked is Ok <==> {
            &&& snapshot is None <==> held.snapshot_digest is None
            &&& snapshot is Some && held.snapshot_digest is Some ==> written_digest(snapshot->0@)
                == held.snapshot_digest->0@
            &&& marker.version == held.checkpoint.version
            &&& marker.installation@ == held.checkpoint.installation@
            &&& marker.sequence == held.checkpoint.sequence
            &&& marker.digest@ == held.checkpoint.digest@
            &&& ledger_len == held.ledger_len
        },
{
    if marker.version == held.checkpoint.version && marker.installation@
        == held.checkpoint.installation@ && marker.sequence == held.checkpoint.sequence
        && marker.digest@ == held.checkpoint.digest@ {
        assert(marker@ == held.checkpoint@);
    } else {
        assert(marker@ != held.checkpoint@);
    }
}

/// A record is written exactly where the accounting differs from what the log holds, and its
/// number follows the last one.
pub proof fn law_changed_accounting_is_recorded(
    held: Persistence,
    store: SchedulerStore,
    sequence: Result<Option<u64>, SchedulerError>,
)
    requires
        call_ensures(Persistence::next_sequence, (&held, &store), sequence),
    ensures
        sequence is Ok && sequence->Ok_0 is None <==> same_accounts(store@, held.committed@),
        sequence is Ok && sequence->Ok_0 is Some ==> sequence->Ok_0->0 == held.checkpoint.sequence
            + 1,
        sequence is Err ==> held.checkpoint.sequence == u64::MAX,
{
    lemma_same_accounts(store@, held.committed@);
}

/// A record follows the last one: it has the next number, names its digest, and has the digest of
/// its own bytes. The state in it is the one that was given.
pub proof fn law_record_follows_the_last(
    held: Persistence,
    state: SchedulerStore,
    payload: Vec<u8>,
    record: Record,
)
    requires
        held.checkpoint.sequence < u64::MAX,
        call_ensures(Persistence::seal, (&held, state, &payload), record),
    ensures
        record.sequence == held.checkpoint.sequence + 1,
        record.previous_digest@ == held.checkpoint.digest@,
        record.digest@ == written_digest(payload@),
        record.state == state,
{
}

/// A snapshot is written where the one that is there is another, or where there is none.
pub proof fn law_snapshot_is_written_where_it_differs(
    held: Persistence,
    encoded: Vec<u8>,
    needed: bool,
)
    requires
        call_ensures(Persistence::needs_snapshot, (&held, &encoded), needed),
    ensures
        !needed <==> held.snapshot_digest is Some && held.snapshot_digest->0@ == written_digest(
            encoded@,
        ),
{
}

/// A record holds the states without a checkpoint.
pub proof fn law_record_holds_the_states(
    held: Persistence,
    store: SchedulerStore,
    state: SchedulerStore,
)
    requires
        call_ensures(Persistence::record_state, (&held, &store), state),
    ensures
        state.checkpoint is None,
        state.schema_version == store.schema_version,
        state@.providers == store@.providers,
{
    assert(state@.providers == store@.providers);
    assert(state@.schema_version == store@.schema_version);
}

/// The log is written first where there is a record, with its checkpoint behind it; then the
/// backup where there is something to keep; last the snapshot, which is always written.
pub proof fn law_commit_writes_in_order(record: bool, backup: bool, plan: Vec<FileKind>)
    requires
        call_ensures(commit_plan, (record, backup), plan),
    ensures
        plan@.len() == 1 + (if record {
            2int
        } else {
            0
        }) + (if backup {
            1int
        } else {
            0
        }),
        record ==> plan@[0] == FileKind::Ledger && plan@[1] == FileKind::Checkpoint,
        backup ==> plan@[plan@.len() - 2] == FileKind::Backup,
        plan@[plan@.len() - 1] == FileKind::Snapshot,
{
}

/// A state file is refused where it has no name, or the ending of one of the files beside it.
pub proof fn law_state_file_has_a_name_of_its_own(
    path: &str,
    named: bool,
    extension: Option<&str>,
    checked: Result<(), SchedulerError>,
)
    requires
        call_ensures(check_state_name, (path, named, extension), checked),
    ensures
        checked is Ok <==> named && (extension is Some ==> extension->0@ != "lock"@
            && extension->0@ != "bak"@ && extension->0@ != "initialized"@),
{
}

/// What a scheduler leaves holds its own state under its provider's name, and those of all other
/// providers as they were.
pub proof fn law_store_holds_every_provider(
    scheduler: Scheduler,
    store: SchedulerStore,
    id: Seq<char>,
)
    requires
        call_ensures(Scheduler::to_store, (&scheduler,), store),
        ascending(providers_view(scheduler.others)),
    ensures
        store.schema_version == 1,
        store@.checkpoint is None,
        lookup(store@.providers, scheduler.policy.provider_id@) == Some(scheduler.state@),
        id != scheduler.policy.provider_id@ ==> lookup(store@.providers, id) == lookup(
            providers_view(scheduler.others),
            id,
        ),
{
    lemma_stored(
        providers_view(scheduler.others),
        scheduler.policy.provider_id@,
        scheduler.state@,
    );
    assert(store@.schema_version == store.schema_version);
}

} // verus!
