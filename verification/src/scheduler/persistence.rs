//! Accounting is written to a log before a snapshot is replaced and before a start is admitted.
//! A checkpoint anchors the log apart from the snapshot. Complete records beyond the snapshot are
//! replayed; an incomplete one is refused.
use super::STATE_SCHEMA_VERSION;
use super::error::SchedulerError;
use super::state::{ProviderState, StateView, clone_deferred, clone_times};
use super::store::{
    Accounting, Checkpoint, CheckpointView, SchedulerStore, StoreView, accounting, accounting_of,
    clone_providers, is_sound_store, providers_view, same_accounting, same_checkpoint, sound_state,
    sound_store,
};
use crate::digest::{digest, digest_of, hex, hex_of, random_bytes};
use crate::string_map::{StringMap, ascending, lemma_stored, lookup, place, stored};
use crate::text::{chars_of, same_text};
use vstd::prelude::*;
use vstd::string::StringExecFns;

verus! {

/// What a refusal to use the stored state says.
pub enum Fault {
    Corrupt { path: Seq<char>, message: Seq<char> },
    Schema(u8),
    Other(SchedulerError),
}

pub open spec fn shows(error: SchedulerError, fault: Fault) -> bool {
    match fault {
        Fault::Corrupt { path, message } => {
            error matches SchedulerError::Corrupt { path: p, message: m } && p@ == path && m@
                == message
        },
        Fault::Schema(version) => error == SchedulerError::UnsupportedSchema(version),
        Fault::Other(other) => error == other,
    }
}

fn corrupt(path: &str, message: &str) -> (error: SchedulerError)
    ensures
        shows(error, (Fault::Corrupt { path: path@, message: message@ })),
{
    SchedulerError::Corrupt { path: path.to_owned(), message: message.to_owned() }
}

/// The state file may not have the name of one of the files beside it.
pub open spec fn reserved_extension(extension: Option<&str>) -> bool {
    extension is Some && (extension->0@ == "lock"@ || extension->0@ == "bak"@ || extension->0@
        == "initialized"@)
}

/// Refuses a state file that has the name of one of the files beside it. `named` says whether the
/// path ends with the name of a file: where it does not, no file beside it has another name.
pub fn check_state_name(path: &str, named: bool, extension: Option<&str>) -> (checked: Result<
    (),
    SchedulerError,
>)
    ensures
        checked is Ok <==> named && !reserved_extension(extension),
        checked is Err ==> shows(
            checked->Err_0,
            (Fault::Corrupt {
                path: path@,
                message:
                    "state path conflicts with a recovery file; use a name such as scheduler.json"@,
            }),
        ),
{
    let reserved: bool = match extension {
        Some(extension) => same_text(extension, "lock") || same_text(extension, "bak")
            || same_text(extension, "initialized"),
        None => false,
    };
    if !named || reserved {
        return Err(
            corrupt(
                path,
                "state path conflicts with a recovery file; use a name such as scheduler.json",
            ),
        );
    }
    Ok(())
}

/// Lines joined again, each with the newline behind it.
pub open spec fn joined(lines: Seq<Seq<u8>>) -> Seq<u8>
    decreases lines.len(),
{
    if lines.len() == 0 {
        Seq::empty()
    } else {
        joined(lines.drop_last()) + lines.last().push(10)
    }
}

pub open spec fn line_views(lines: Seq<Vec<u8>>) -> Seq<Seq<u8>> {
    lines.map_values(|line: Vec<u8>| line@)
}

/// Splits the accounting log into its lines. A log that does not end in a newline has an
/// incomplete record and is refused.
pub fn split_log(path: &str, bytes: &Vec<u8>) -> (lines: Result<Vec<Vec<u8>>, SchedulerError>)
    ensures
        match lines {
            Ok(lines) => {
                &&& lines@.len() > 0
                &&& joined(line_views(lines@)) == bytes@
                &&& forall|i: int| 0 <= i < lines@.len() ==> !(#[trigger] lines@[i])@.contains(10)
            },
            Err(error) => {
                &&& bytes@.len() == 0 || bytes@.last() != 10
                &&& shows(
                    error,
                    (Fault::Corrupt {
                        path: path@,
                        message: "accounting log has an incomplete final record"@,
                    }),
                )
            },
        },
{
    if bytes.len() == 0 || bytes[bytes.len() - 1] != 10 {
        return Err(corrupt(path, "accounting log has an incomplete final record"));
    }
    let mut lines: Vec<Vec<u8>> = Vec::new();
    let mut line: Vec<u8> = Vec::new();
    let mut i: usize = 0;
    proof {
        assert(bytes@.take(0) =~= joined(line_views(lines@)) + line@);
    }
    while i < bytes.len()
        invariant
            i <= bytes@.len(),
            bytes@.len() > 0,
            bytes@.last() == 10,
            bytes@.take(i as int) == joined(line_views(lines@)) + line@,
            !line@.contains(10),
            i == bytes@.len() ==> line@.len() == 0 && lines@.len() > 0,
            forall|k: int| 0 <= k < lines@.len() ==> !(#[trigger] lines@[k])@.contains(10),
        decreases bytes@.len() - i,
    {
        let byte: u8 = bytes[i];
        proof {
            assert(bytes@.take(i + 1) == bytes@.take(i as int).push(byte));
        }
        if byte == 10 {
            let ghost before = lines@;
            let ghost ended = line@;
            lines.push(line);
            line = Vec::new();
            proof {
                assert(line_views(lines@).drop_last() =~= line_views(before));
                assert(line_views(lines@).last() == ended);
                assert(bytes@.take(i + 1) =~= joined(line_views(lines@)) + line@);
            }
        } else {
            let ghost ended = line@;
            line.push(byte);
            proof {
                assert(bytes@.take(i + 1) =~= joined(line_views(lines@)) + line@);
                assert forall|k: int| 0 <= k < line@.len() implies line@[k] != 10 by {
                    if k < ended.len() {
                        assert(ended.contains(ended[k]));
                    }
                }
            }
        }
        i += 1;
    }
    proof {
        assert(bytes@.take(bytes@.len() as int) =~= bytes@);
        assert(joined(line_views(lines@)) + line@ =~= joined(line_views(lines@)));
    }
    Ok(lines)
}

/// The first line of the accounting log.
#[derive(Debug, PartialEq, Eq)]
pub struct Header {
    pub version: u8,
    pub installation: String,
}

/// A line of the accounting log behind the first.
pub struct Record {
    pub sequence: u64,
    pub previous_digest: String,
    pub state: SchedulerStore,
    pub digest: String,
}

/// A record as it was read, with the bytes that its digest is taken of: its sequence, the digest
/// before it and its state.
pub struct ParsedRecord {
    pub record: Record,
    pub payload: Vec<u8>,
}

pub open spec fn is_hex(c: char) -> bool {
    ('0' <= c && c <= '9') || ('a' <= c && c <= 'f') || ('A' <= c && c <= 'F')
}

/// An installation is named by thirty-two hexadecimal digits.
pub open spec fn names_installation(text: Seq<char>) -> bool {
    text.len() == 32 && forall|i: int| 0 <= i < text.len() ==> is_hex(#[trigger] text[i])
}

fn is_installation(text: &str) -> (valid: bool)
    ensures
        valid == names_installation(text@),
{
    let chars = chars_of(text);
    if chars.len() != 32 {
        return false;
    }
    let mut i: usize = 0;
    while i < chars.len()
        invariant
            chars@ == text@,
            i <= chars@.len(),
            forall|k: int| 0 <= k < i ==> is_hex(#[trigger] chars@[k]),
        decreases chars@.len() - i,
    {
        let c: char = chars[i];
        if !(('0' <= c && c <= '9') || ('a' <= c && c <= 'f') || ('A' <= c && c <= 'F')) {
            return false;
        }
        i += 1;
    }
    true
}

/// The record follows the checkpoint: it is the next one, names the digest before it, has the
/// digest that its bytes have, and holds sound states.
pub open spec fn follows(previous: CheckpointView, parsed: ParsedRecord) -> bool {
    let record = parsed.record;
    &&& record.sequence == previous.sequence + 1
    &&& record.previous_digest@ == previous.digest
    &&& record.state.schema_version == STATE_SCHEMA_VERSION
    &&& record.state.checkpoint is None
    &&& record.digest@ == digest_of(parsed.payload@)
}

/// The accounting log: the checkpoint that each line stands for, and the states on record.
pub struct Log {
    checkpoints: Vec<Checkpoint>,
    states: Vec<SchedulerStore>,
}

impl Log {
    /// The checkpoint before any record, and one for each record.
    pub closed spec fn checkpoints(&self) -> Seq<CheckpointView> {
        self.checkpoints@.map_values(|c: Checkpoint| c@)
    }

    /// The states on record.
    pub closed spec fn states(&self) -> Seq<StoreView> {
        self.states@.map_values(|s: SchedulerStore| s@)
    }

    #[verifier::type_invariant]
    spec fn type_inv(self) -> bool {
        self.checkpoints@.len() == self.states@.len() + 1
    }

    pub fn record_count(&self) -> (count: usize)
        ensures
            count == self.states().len(),
    {
        self.states.len()
    }

    pub fn state(&self, index: usize) -> (state: &SchedulerStore)
        requires
            index < self.states().len(),
        ensures
            state@ == self.states()[index as int],
    {
        &self.states[index]
    }

    /// The checkpoint that the whole log stands for.
    pub fn last_checkpoint(&self) -> (checkpoint: Checkpoint)
        ensures
            self.checkpoints().len() == self.states().len() + 1,
            checkpoint@ == self.checkpoints().last(),
    {
        proof {
            use_type_invariant(self);
        }
        self.checkpoints[self.checkpoints.len() - 1].clone()
    }

    /// The states that were recorded last; none are where nothing was recorded.
    pub fn last_state(&self) -> (state: SchedulerStore)
        ensures
            state@ == last_on_record(self.states()),
    {
        if self.states.len() == 0 {
            empty_store()
        } else {
            self.states[self.states.len() - 1].clone()
        }
    }
}

/// A store without providers.
pub open spec fn blank_store() -> StoreView {
    StoreView { schema_version: STATE_SCHEMA_VERSION, providers: Seq::empty(), checkpoint: None }
}

/// A store without providers.
pub fn empty_store() -> (store: SchedulerStore)
    ensures
        store@ == blank_store(),
{
    let providers: StringMap<ProviderState> = StringMap::new();
    proof {
        assert(providers_view(providers) =~= Seq::empty());
    }
    SchedulerStore { schema_version: STATE_SCHEMA_VERSION, providers, checkpoint: None }
}

pub open spec fn last_on_record(states: Seq<StoreView>) -> StoreView {
    if states.len() == 0 {
        blank_store()
    } else {
        states.last()
    }
}

/// The checkpoint that a log without records stands for.
pub open spec fn first_checkpoint(header: Header, first: Seq<u8>) -> CheckpointView {
    CheckpointView {
        version: header.version,
        installation: header.installation@,
        sequence: 0,
        digest: digest_of(first),
    }
}

/// The checkpoint that a record stands for.
pub open spec fn record_checkpoint(previous: CheckpointView, record: Record) -> CheckpointView {
    CheckpointView { sequence: record.sequence, digest: record.digest@, ..previous }
}

/// The checkpoint behind the first `n` records.
pub open spec fn checkpoint_after(
    first: CheckpointView,
    records: Seq<Result<ParsedRecord, String>>,
    n: nat,
) -> CheckpointView
    decreases n,
{
    if n == 0 {
        first
    } else {
        let before = checkpoint_after(first, records, (n - 1) as nat);
        match records[n - 1] {
            Ok(parsed) => record_checkpoint(before, parsed.record),
            Err(_) => before,
        }
    }
}

/// What is wrong with a record, given the checkpoint before it.
pub open spec fn record_fault(
    path: Seq<char>,
    previous: CheckpointView,
    record: Result<ParsedRecord, String>,
) -> Option<Fault> {
    match record {
        Err(message) => Some(Fault::Corrupt { path, message: message@ }),
        Ok(parsed) => if !follows(previous, parsed) {
            Some(
                Fault::Corrupt {
                    path,
                    message: "accounting sequence, digest chain, or record schema is invalid"@,
                },
            )
        } else if !sound_store(parsed.record.state@) {
            Some(
                Fault::Corrupt {
                    path,
                    message: "invalid provider accounting or scheduling state"@,
                },
            )
        } else {
            None
        },
    }
}

/// The first thing that is wrong with the first `n` records.
pub open spec fn records_fault(
    path: Seq<char>,
    first: CheckpointView,
    records: Seq<Result<ParsedRecord, String>>,
    n: nat,
) -> Option<Fault>
    decreases n,
{
    if n == 0 {
        None
    } else {
        let before = records_fault(path, first, records, (n - 1) as nat);
        if before is Some {
            before
        } else {
            record_fault(
                path,
                checkpoint_after(first, records, (n - 1) as nat),
                records[n - 1],
            )
        }
    }
}

/// The first thing that is wrong with an accounting log.
pub open spec fn log_fault(
    path: Seq<char>,
    first: Seq<u8>,
    header: Result<Header, String>,
    records: Seq<Result<ParsedRecord, String>>,
) -> Option<Fault> {
    match header {
        Err(message) => Some(Fault::Corrupt { path, message: message@ }),
        Ok(header) => if header.version != STATE_SCHEMA_VERSION || !names_installation(
            header.installation@,
        ) {
            Some(
                Fault::Corrupt {
                    path,
                    message: "unsupported accounting header or invalid installation identity"@,
                },
            )
        } else {
            records_fault(path, first_checkpoint(header, first), records, records.len())
        },
    }
}

/// The log holds what its lines say: the checkpoint behind each of them and every recorded state.
pub open spec fn holds_lines(
    log: Log,
    first: Seq<u8>,
    header: Header,
    records: Seq<Result<ParsedRecord, String>>,
) -> bool {
    &&& log.states().len() == records.len()
    &&& log.checkpoints().len() == records.len() + 1
    &&& forall|i: int|
        0 <= i <= records.len() ==> #[trigger] log.checkpoints()[i] == checkpoint_after(
            first_checkpoint(header, first),
            records,
            i as nat,
        )
    &&& forall|i: int| 0 <= i < records.len() ==> (#[trigger] records[i]) is Ok
    &&& forall|i: int|
        0 <= i < records.len() ==> #[trigger] log.states()[i] == (
        records[i]->Ok_0).record.state@
}

proof fn lemma_fault_persists(
    path: Seq<char>,
    first: CheckpointView,
    records: Seq<Result<ParsedRecord, String>>,
    n: nat,
    m: nat,
)
    requires
        n <= m,
        records_fault(path, first, records, n) is Some,
    ensures
        records_fault(path, first, records, m) == records_fault(path, first, records, n),
    decreases m,
{
    if n < m {
        lemma_fault_persists(path, first, records, n, (m - 1) as nat);
    }
}

/// Checks the lines of the accounting log, which were split and parsed, from the first to the
/// last. `first` is the first line as it stands in the log.
pub fn read_log(
    path: &str,
    first: &Vec<u8>,
    header: Result<Header, String>,
    records: Vec<Result<ParsedRecord, String>>,
) -> (log: Result<Log, SchedulerError>)
    ensures
        match (log, log_fault(path@, first@, header, records@)) {
            (Ok(log), fault) => {
                &&& fault is None
                &&& holds_lines(log, first@, header->Ok_0, records@)
            },
            (Err(error), fault) => fault is Some && shows(error, fault->0),
        },
{
    let ghost given = header;
    let head = match header {
        Ok(head) => head,
        Err(message) => {
            return Err(corrupt(path, &message));
        },
    };
    if head.version != STATE_SCHEMA_VERSION || !is_installation(&head.installation) {
        return Err(
            corrupt(path, "unsupported accounting header or invalid installation identity"),
        );
    }
    let ghost start = first_checkpoint(given->Ok_0, first@);
    let mut checkpoints: Vec<Checkpoint> = Vec::new();
    let mut states: Vec<SchedulerStore> = Vec::new();
    checkpoints.push(
        Checkpoint {
            version: head.version,
            installation: head.installation,
            sequence: 0,
            digest: digest(first),
        },
    );
    let mut i: usize = 0;
    while i < records.len()
        invariant
            i <= records@.len(),
            given == header,
            given is Ok,
            start == first_checkpoint(given->Ok_0, first@),
            states@.len() == i,
            checkpoints@.len() == i + 1,
            records_fault(path@, start, records@, i as nat) is None,
            forall|k: int|
                0 <= k <= i ==> (#[trigger] checkpoints@[k])@ == checkpoint_after(
                    start,
                    records@,
                    k as nat,
                ),
            forall|k: int| 0 <= k < i ==> (#[trigger] records@[k]) is Ok,
            forall|k: int|
                0 <= k < i ==> (#[trigger] states@[k])@ == (records@[k]->Ok_0).record.state@,
            log_fault(path@, first@, given, records@) == records_fault(
                path@,
                start,
                records@,
                records@.len(),
            ),
        decreases records@.len() - i,
    {
        let previous = &checkpoints[i];
        let ghost fault = records_fault(path@, start, records@, (i + 1) as nat);
        proof {
            if fault is Some {
                lemma_fault_persists(path@, start, records@, (i + 1) as nat, records@.len());
            }
        }
        match &records[i] {
            Err(message) => {
                return Err(corrupt(path, message));
            },
            Ok(parsed) => {
                let record = &parsed.record;
                let next: bool = previous.sequence < u64::MAX && record.sequence
                    == previous.sequence + 1;
                if !next || !same_text(&record.previous_digest, &previous.digest)
                    || record.state.schema_version != STATE_SCHEMA_VERSION
                    || record.state.checkpoint.is_some() || !same_text(
                    &record.digest,
                    &digest(&parsed.payload),
                ) {
                    return Err(
                        corrupt(
                            path,
                            "accounting sequence, digest chain, or record schema is invalid",
                        ),
                    );
                }
                if !is_sound_store(&record.state) {
                    return Err(corrupt(path, "invalid provider accounting or scheduling state"));
                }
                let checkpoint = Checkpoint {
                    version: previous.version,
                    installation: previous.installation.clone(),
                    sequence: record.sequence,
                    digest: record.digest.clone(),
                };
                checkpoints.push(checkpoint);
                states.push(record.state.clone());
            },
        }
        i += 1;
    }
    let log = Log { checkpoints, states };
    proof {
        assert forall|k: int| 0 <= k <= records@.len() implies #[trigger] log.checkpoints()[k]
            == checkpoint_after(start, records@, k as nat) by {
            assert(log.checkpoints()[k] == checkpoints@[k]@);
        }
        assert forall|k: int| 0 <= k < records@.len() implies #[trigger] log.states()[k]
            == (records@[k]->Ok_0).record.state@ by {
            assert(log.states()[k] == states@[k]@);
        }
    }
    Ok(log)
}

/// The record of a provider with the states of another one: everything that decides whether a
/// test may start is taken from the record.
pub open spec fn replayed(state: StateView, recorded: StateView) -> StateView {
    StateView {
        day_utc: recorded.day_utc,
        runs: recorded.runs,
        last_started_at_utc: recorded.last_started_at_utc,
        cooldown_until_utc: recorded.cooldown_until_utc,
        backoff_step: recorded.backoff_step,
        last_observed_utc: if state.last_observed_utc.nanos >= recorded.last_observed_utc.nanos {
            state.last_observed_utc
        } else {
            recorded.last_observed_utc
        },
        deferred: recorded.deferred,
        interface_triggers: recorded.interface_triggers,
        ..state
    }
}

fn replay_accounting(state: &mut ProviderState, recorded: &ProviderState)
    ensures
        final(state)@ == replayed(old(state)@, recorded@),
{
    state.day_utc = recorded.day_utc;
    state.runs = clone_times(&recorded.runs);
    state.last_started_at_utc = recorded.last_started_at_utc;
    state.cooldown_until_utc = recorded.cooldown_until_utc;
    state.backoff_step = recorded.backoff_step;
    if state.last_observed_utc.nanos < recorded.last_observed_utc.nanos {
        state.last_observed_utc = recorded.last_observed_utc;
    }
    state.deferred = clone_deferred(&recorded.deferred);
    state.interface_triggers = recorded.interface_triggers.copied();
}

/// The states of providers after those on record were replayed over them.
pub open spec fn replayed_all(
    providers: Seq<(Seq<char>, StateView)>,
    recorded: Seq<(Seq<char>, StateView)>,
) -> Seq<(Seq<char>, StateView)>
    decreases recorded.len(),
{
    if recorded.len() == 0 {
        providers
    } else {
        let before = replayed_all(providers, recorded.drop_last());
        let (id, record) = recorded.last();
        stored(
            before,
            id,
            match lookup(before, id) {
                Some(state) => replayed(state, record),
                None => record,
            },
        )
    }
}

proof fn lemma_place_of_views(entries: Seq<(Seq<char>, ProviderState)>, key: Seq<char>)
    ensures
        place(
            entries.map_values(|entry: (Seq<char>, ProviderState)| (entry.0, entry.1@)),
            key,
        ) == place(entries, key),
    decreases entries.len(),
{
    let f = |entry: (Seq<char>, ProviderState)| (entry.0, entry.1@);
    let views = entries.map_values(f);
    if entries.len() > 0 {
        assert(views[0].0 == entries[0].0);
        assert(views.drop_first() =~= entries.drop_first().map_values(f));
        lemma_place_of_views(entries.drop_first(), key);
    }
}

pub proof fn lemma_stored_views(
    entries: Seq<(Seq<char>, ProviderState)>,
    key: Seq<char>,
    value: ProviderState,
)
    ensures
        ({
            let f = |entry: (Seq<char>, ProviderState)| (entry.0, entry.1@);
            let views = entries.map_values(f);
            &&& stored(entries, key, value).map_values(f) == stored(views, key, value@)
            &&& (lookup(entries, key) is Some) == (lookup(views, key) is Some)
            &&& lookup(entries, key) is Some ==> lookup(views, key) == Some(
                lookup(entries, key)->0@,
            )
        }),
{
    let f = |entry: (Seq<char>, ProviderState)| (entry.0, entry.1@);
    let views = entries.map_values(f);
    lemma_place_of_views(entries, key);
    crate::string_map::lemma_place(entries, key);
    let at = place(entries, key) as int;
    if at < entries.len() {
        assert(views[at] == (entries[at].0, entries[at].1@));
    }
    assert(stored(entries, key, value).map_values(f) =~= stored(views, key, value@));
}

fn replay_store(providers: &mut StringMap<ProviderState>, recorded: &StringMap<ProviderState>)
    ensures
        providers_view(*final(providers)) == replayed_all(
            providers_view(*old(providers)),
            providers_view(*recorded),
        ),
{
    let ghost start = providers_view(*providers);
    let ghost records = providers_view(*recorded);
    let count: usize = recorded.len();
    let mut i: usize = 0;
    while i < count
        invariant
            count == recorded.entries().len(),
            records == providers_view(*recorded),
            i <= count,
            providers_view(*providers) == replayed_all(start, records.take(i as int)),
        decreases count - i,
    {
        let id = recorded.key_at(i);
        let record = recorded.value_at(i);
        let ghost before = providers.entries();
        proof {
            assert(records.take(i + 1).drop_last() =~= records.take(i as int));
            assert(records.take(i + 1).last() == (id@, record@));
        }
        let next = match providers.get(id) {
            Some(state) => {
                let mut state = state.clone();
                replay_accounting(&mut state, record);
                state
            },
            None => record.clone(),
        };
        proof {
            lemma_stored_views(before, id@, next);
        }
        providers.put(id.clone(), next);
        i += 1;
    }
    proof {
        assert(records.take(records.len() as int) =~= records);
    }
}

/// The checkpoint is one that the log has come by.
pub open spec fn on_log(checkpoint: CheckpointView, log: Log) -> bool {
    checkpoint.sequence < log.checkpoints().len() && log.checkpoints()[checkpoint.sequence as int]
        == checkpoint
}

fn is_on_log(checkpoint: &Checkpoint, log: &Log) -> (known: bool)
    ensures
        known == on_log(checkpoint@, *log),
{
    if checkpoint.sequence as u128 >= log.checkpoints.len() as u128 {
        return false;
    }
    let index: usize = checkpoint.sequence as usize;
    proof {
        assert(log.checkpoints()[index as int] == log.checkpoints@[index as int]@);
    }
    same_checkpoint(&log.checkpoints[index], checkpoint)
}

/// The checkpoint file as it was read.
pub struct MarkerFile {
    pub empty: bool,
    pub checkpoint: Result<Checkpoint, String>,
}

/// The files that hold the state of the scheduler, as they were read and parsed. `backup` says
/// whether there is a backup of the snapshot.
pub struct RecoveryFiles {
    pub path: String,
    pub marker_path: String,
    pub ledger_path: String,
    pub primary: Option<Result<SchedulerStore, String>>,
    pub marker: Option<MarkerFile>,
    pub ledger: Option<Result<Log, SchedulerError>>,
    pub backup: bool,
}

/// What the scheduler goes on with.
pub struct Recovered {
    pub store: SchedulerStore,
    pub checkpoint: Checkpoint,
    pub committed: SchedulerStore,
    pub replayed: bool,
}

pub enum Recovery {
    /// A new installation has no log yet: one is to be written first.
    NeedsLog,
    Ready(Recovered),
}

/// A state on record from before the first test.
pub open spec fn untouched(store: StoreView) -> bool {
    forall|i: int|
        0 <= i < store.providers.len() ==> {
            let state = (#[trigger] store.providers[i]).1;
            &&& state.runs.len() == 0
            &&& state.last_started_at_utc is None
            &&& state.cooldown_until_utc is None
            &&& state.backoff_step == 0
        }
}

fn is_untouched(store: &SchedulerStore) -> (clean: bool)
    ensures
        clean == untouched(store@),
{
    let mut i: usize = 0;
    while i < store.providers.len()
        invariant
            i <= store.providers.entries().len(),
            forall|k: int|
                0 <= k < i ==> {
                    let state = (#[trigger] store@.providers[k]).1;
                    &&& state.runs.len() == 0
                    &&& state.last_started_at_utc is None
                    &&& state.cooldown_until_utc is None
                    &&& state.backoff_step == 0
                },
        decreases store.providers.entries().len() - i,
    {
        proof {
            let entry = store.providers.entries()[i as int];
            assert(store@.providers[i as int] == (entry.0, entry.1@));
        }
        let state = store.providers.value_at(i);
        if !(state.runs.len() == 0 && state.last_started_at_utc.is_none()
            && state.cooldown_until_utc.is_none() && state.backoff_step == 0) {
            return false;
        }
        i += 1;
    }
    true
}

impl RecoveryFiles {
    /// Nothing shows that the scheduler ever ran here.
    pub open spec fn fresh(self) -> bool {
        self.primary is None && self.marker is None && !self.backup
    }

    /// The snapshot is missing although the scheduler has run.
    pub open spec fn resuming(self) -> bool {
        self.primary is None && !self.fresh()
    }

    pub open spec fn mismatch(path: Seq<char>) -> Fault {
        Fault::Corrupt { path, message: "accounting log does not match the committed checkpoint"@ }
    }

    pub open spec fn missing_state(self) -> Fault {
        Fault::Corrupt {
            path: self.path@,
            message:
                "initialized state is missing; preserve the recovery set and restore a verified snapshot"@,
        }
    }

    /// What forbids to go on without a snapshot. Only an initialization that was interrupted
    /// before the first test may be resumed.
    pub open spec fn resume_fault(self) -> Option<Fault> {
        if self.ledger is None {
            Some(
                Fault::Corrupt {
                    path: self.path@,
                    message: "initialized state and accounting log are missing"@,
                },
            )
        } else if self.ledger->0 is Err {
            Some(Fault::Other(self.ledger->0->Err_0))
        } else if self.marker is None {
            Some(Fault::Corrupt { path: self.path@, message: "initialized state is missing"@ })
        } else if self.marker->0.checkpoint is Err {
            Some(
                Fault::Corrupt {
                    path: self.marker_path@,
                    message: self.marker->0.checkpoint->Err_0@,
                },
            )
        } else {
            let log = self.ledger->0->Ok_0;
            if !on_log(self.marker->0.checkpoint->Ok_0@, log) {
                Some(Self::mismatch(self.marker_path@))
            } else if log.states().len() > 1 || self.backup || !(log.states().len() == 0
                || untouched(log.states()[0])) {
                Some(self.missing_state())
            } else {
                None
            }
        }
    }

    /// What is wrong with the snapshot alone.
    pub open spec fn snapshot_fault(self) -> Option<Fault> {
        match self.primary {
            None => None,
            Some(Err(message)) => Some(Fault::Corrupt { path: self.path@, message: message@ }),
            Some(Ok(store)) => if store.schema_version != STATE_SCHEMA_VERSION {
                Some(Fault::Schema(store.schema_version))
            } else if !sound_store(store@) {
                Some(
                    Fault::Corrupt {
                        path: self.path@,
                        message: "invalid provider accounting or scheduling state"@,
                    },
                )
            } else {
                None
            },
        }
    }

    /// What is wrong between the snapshot and the log.
    pub open spec fn baseline_fault(self, store: StoreView, log: Log) -> Option<Fault> {
        if store.checkpoint is None {
            Some(
                Fault::Corrupt {
                    path: self.path@,
                    message: "snapshot has no accounting checkpoint"@,
                },
            )
        } else if !on_log(store.checkpoint->0, log) {
            Some(Self::mismatch(self.path@))
        } else if store.checkpoint->0.sequence == 0 || accounting(
            log.states()[store.checkpoint->0.sequence - 1],
        ) != accounting(store) {
            Some(
                Fault::Corrupt {
                    path: self.path@,
                    message: "snapshot accounting differs from its log record"@,
                },
            )
        } else {
            None
        }
    }

    /// What is wrong with the checkpoint file.
    pub open spec fn marker_fault(self, log: Log) -> Option<Fault> {
        match self.marker->0.checkpoint {
            Err(message) => Some(
                Fault::Corrupt { path: self.marker_path@, message: message@ },
            ),
            Ok(checkpoint) => if on_log(checkpoint@, log) {
                None
            } else {
                Some(Self::mismatch(self.marker_path@))
            },
        }
    }

    /// The first thing that forbids to use the files.
    pub open spec fn fault(self) -> Option<Fault> {
        if self.resuming() && self.resume_fault() is Some {
            self.resume_fault()
        } else if self.snapshot_fault() is Some {
            self.snapshot_fault()
        } else if !self.fresh() && (self.marker is None || self.marker->0.empty) {
            Some(
                Fault::Corrupt {
                    path: self.marker_path@,
                    message: "accounting checkpoint is missing or empty"@,
                },
            )
        } else {
            match self.ledger {
                None => if self.fresh() {
                    None
                } else {
                    Some(
                        Fault::Corrupt {
                            path: self.ledger_path@,
                            message: "required accounting log is missing"@,
                        },
                    )
                },
                Some(Err(error)) => Some(Fault::Other(error)),
                Some(Ok(log)) => if self.fresh() {
                    if log.states().len() > 0 {
                        Some(
                            Fault::Corrupt {
                                path: self.ledger_path@,
                                message: "orphan accounting records are not a new installation"@,
                            },
                        )
                    } else {
                        None
                    }
                } else if !self.resuming() && self.baseline_fault(
                    self.primary->0->Ok_0@,
                    log,
                ) is Some {
                    self.baseline_fault(self.primary->0->Ok_0@, log)
                } else {
                    self.marker_fault(log)
                },
            }
        }
    }

    /// The states to start from, before records are replayed.
    pub open spec fn base(self, log: Log) -> StoreView {
        match self.primary {
            Some(Ok(store)) => store@,
            _ => last_on_record(log.states()),
        }
    }

    /// Records lie beyond the snapshot.
    pub open spec fn replays(self, log: Log) -> bool {
        !self.fresh() && log.states().len() > 0 && self.base(log).checkpoint != Some(
            log.checkpoints().last(),
        )
    }

    /// The states to go on with.
    pub open spec fn result(self, log: Log) -> StoreView {
        let base = self.base(log);
        StoreView {
            providers: if self.replays(log) {
                replayed_all(base.providers, last_on_record(log.states()).providers)
            } else {
                base.providers
            },
            checkpoint: Some(log.checkpoints().last()),
            ..base
        }
    }
}

fn check_marker(files: &RecoveryFiles, log: &Log) -> (checked: Result<(), SchedulerError>)
    requires
        files.marker is Some,
    ensures
        checked is Ok <==> files.marker_fault(*log) is None,
        checked is Err ==> shows(checked->Err_0, files.marker_fault(*log)->0),
{
    if let Some(marker) = &files.marker {
        match &marker.checkpoint {
            Err(message) => {
                return Err(corrupt(&files.marker_path, message));
            },
            Ok(checkpoint) => {
                if !is_on_log(checkpoint, log) {
                    return Err(
                        corrupt(
                            &files.marker_path,
                            "accounting log does not match the committed checkpoint",
                        ),
                    );
                }
            },
        }
    }
    Ok(())
}

fn check_resume(files: &RecoveryFiles) -> (checked: Result<(), SchedulerError>)
    ensures
        checked is Ok <==> files.resume_fault() is None,
        checked is Err ==> shows(checked->Err_0, files.resume_fault()->0),
{
    let log = match &files.ledger {
        None => {
            return Err(
                corrupt(&files.path, "initialized state and accounting log are missing"),
            );
        },
        Some(Err(error)) => {
            return Err(error.clone());
        },
        Some(Ok(log)) => log,
    };
    if files.marker.is_none() {
        return Err(corrupt(&files.path, "initialized state is missing"));
    }
    match check_marker(files, log) {
        Err(error) => {
            return Err(error);
        },
        Ok(()) => {},
    }
    let clean: bool = log.record_count() == 0 || (log.record_count() == 1 && is_untouched(
        log.state(0),
    ));
    if files.backup || !clean {
        return Err(
            corrupt(
                &files.path,
                "initialized state is missing; preserve the recovery set and restore a verified snapshot",
            ),
        );
    }
    Ok(())
}

fn check_snapshot(files: &RecoveryFiles) -> (checked: Result<(), SchedulerError>)
    ensures
        checked is Ok <==> files.snapshot_fault() is None,
        checked is Err ==> shows(checked->Err_0, files.snapshot_fault()->0),
{
    match &files.primary {
        None => Ok(()),
        Some(Err(message)) => Err(corrupt(&files.path, message)),
        Some(Ok(store)) => {
            if store.schema_version != STATE_SCHEMA_VERSION {
                Err(SchedulerError::UnsupportedSchema(store.schema_version))
            } else if !is_sound_store(store) {
                Err(corrupt(&files.path, "invalid provider accounting or scheduling state"))
            } else {
                Ok(())
            }
        },
    }
}

fn check_baseline(files: &RecoveryFiles, store: &SchedulerStore, log: &Log) -> (checked: Result<
    (),
    SchedulerError,
>)
    ensures
        checked is Ok <==> files.baseline_fault(store@, *log) is None,
        checked is Err ==> shows(checked->Err_0, files.baseline_fault(store@, *log)->0),
{
    proof {
        use_type_invariant(log);
    }
    let checkpoint = match &store.checkpoint {
        None => {
            return Err(corrupt(&files.path, "snapshot has no accounting checkpoint"));
        },
        Some(checkpoint) => checkpoint,
    };
    if !is_on_log(checkpoint, log) {
        return Err(
            corrupt(&files.path, "accounting log does not match the committed checkpoint"),
        );
    }
    if checkpoint.sequence > 0 {
        let known: usize = log.checkpoints.len();
        proof {
            assert(checkpoint.sequence < known);
        }
        let index: usize = checkpoint.sequence as usize - 1;
        proof {
            assert(log.states()[index as int] == log.states@[index as int]@);
        }
        if same_accounting(log.state(index), store) {
            return Ok(());
        }
    }
    Err(corrupt(&files.path, "snapshot accounting differs from its log record"))
}

/// Decides from the files what the scheduler goes on with, or why it must not. Nothing is
/// written before all of them were found to agree.
pub fn recover(files: RecoveryFiles) -> (recovery: Result<Recovery, SchedulerError>)
    ensures
        match recovery {
            Err(error) => files.fault() is Some && shows(error, files.fault()->0),
            Ok(Recovery::NeedsLog) => files.fault() is None && files.fresh() && files.ledger
                is None,
            Ok(Recovery::Ready(ready)) => {
                &&& files.fault() is None
                &&& files.ledger is Some && files.ledger->0 is Ok
                &&& ({
                    let log = files.ledger->0->Ok_0;
                    &&& ready.store@ == files.result(log)
                    &&& ready.checkpoint@ == log.checkpoints().last()
                    &&& ready.committed@ == last_on_record(log.states())
                    &&& ready.replayed == files.replays(log)
                })
            },
        },
{
    let fresh: bool = files.primary.is_none() && files.marker.is_none() && !files.backup;
    let resuming: bool = files.primary.is_none() && !fresh;
    if resuming {
        match check_resume(&files) {
            Err(error) => {
                return Err(error);
            },
            Ok(()) => {},
        }
    }
    match check_snapshot(&files) {
        Err(error) => {
            return Err(error);
        },
        Ok(()) => {},
    }
    if !fresh {
        let usable: bool = match &files.marker {
            Some(marker) => !marker.empty,
            None => false,
        };
        if !usable {
            return Err(
                corrupt(&files.marker_path, "accounting checkpoint is missing or empty"),
            );
        }
    }
    let log = match &files.ledger {
        None => {
            if fresh {
                return Ok(Recovery::NeedsLog);
            }
            return Err(corrupt(&files.ledger_path, "required accounting log is missing"));
        },
        Some(Err(error)) => {
            return Err(error.clone());
        },
        Some(Ok(log)) => log,
    };
    let last = log.last_checkpoint();
    if fresh {
        if log.record_count() > 0 {
            return Err(
                corrupt(
                    &files.ledger_path,
                    "orphan accounting records are not a new installation",
                ),
            );
        }
    } else {
        if let Some(Ok(store)) = &files.primary {
            match check_baseline(&files, store, log) {
                Err(error) => {
                    return Err(error);
                },
                Ok(()) => {},
            }
        }
        match check_marker(&files, log) {
            Err(error) => {
                return Err(error);
            },
            Ok(()) => {},
        }
    }
    let committed = log.last_state();
    let mut store = match &files.primary {
        Some(Ok(store)) => store.clone(),
        _ => log.last_state(),
    };
    let current: bool = match &store.checkpoint {
        Some(checkpoint) => same_checkpoint(checkpoint, &last),
        None => false,
    };
    let replays: bool = !fresh && log.record_count() > 0 && !current;
    if replays {
        replay_store(&mut store.providers, &committed.providers);
    }
    store.checkpoint = Some(last.clone());
    Ok(Recovery::Ready(Recovered { store, checkpoint: last, committed, replayed: replays }))
}

proof fn lemma_hex_digits(bytes: Seq<u8>)
    ensures
        hex_of(bytes).len() == 2 * bytes.len(),
        forall|i: int| 0 <= i < hex_of(bytes).len() ==> is_hex(#[trigger] hex_of(bytes)[i]),
    decreases bytes.len(),
{
    if bytes.len() > 0 {
        lemma_hex_digits(bytes.drop_last());
    }
}

/// The header of a new installation that is named by random bytes.
pub fn installation_header(random: &Vec<u8>) -> (header: Header)
    requires
        random@.len() == 16,
    ensures
        header.version == STATE_SCHEMA_VERSION,
        header.installation@ == hex_of(random@),
        names_installation(header.installation@),
{
    proof {
        lemma_hex_digits(random@);
    }
    Header { version: STATE_SCHEMA_VERSION, installation: hex(random) }
}

/// The header of a new installation, or that no name could be made for it.
pub fn new_installation(path: &str) -> (header: Result<Header, SchedulerError>)
    ensures
        match header {
            Ok(header) => header.version == STATE_SCHEMA_VERSION && names_installation(
                header.installation@,
            ),
            Err(error) => error matches SchedulerError::Corrupt { path: p, message: m } && p@
                == path@ && "cannot create accounting identity: "@.is_prefix_of(m@),
        },
{
    match random_bytes(16) {
        Ok(bytes) => Ok(installation_header(&bytes)),
        Err(reason) => Err(
            SchedulerError::Corrupt {
                path: path.to_owned(),
                message: "cannot create accounting identity: ".to_owned().concat(&reason),
            },
        ),
    }
}

/// A file that a commit writes.
#[derive(Clone, Copy, Debug, PartialEq, Eq, Structural)]
pub enum FileKind {
    Ledger,
    Checkpoint,
    Backup,
    Snapshot,
}

/// What a commit writes, in order: the record and its checkpoint where the accounting changed,
/// a backup where there was a snapshot, and the snapshot.
pub open spec fn commit_order(record: bool, backup: bool) -> Seq<FileKind> {
    (if record {
        seq![FileKind::Ledger, FileKind::Checkpoint]
    } else {
        Seq::empty()
    }) + (if backup {
        seq![FileKind::Backup]
    } else {
        Seq::empty()
    }) + seq![FileKind::Snapshot]
}

/// What a commit writes, in order.
pub fn commit_plan(record: bool, backup: bool) -> (plan: Vec<FileKind>)
    ensures
        plan@ == commit_order(record, backup),
{
    let mut plan: Vec<FileKind> = Vec::new();
    if record {
        plan.push(FileKind::Ledger);
        plan.push(FileKind::Checkpoint);
    }
    if backup {
        plan.push(FileKind::Backup);
    }
    plan.push(FileKind::Snapshot);
    proof {
        assert(plan@ =~= commit_order(record, backup));
    }
    plan
}

/// A changed accounting is in the log before any other file is written, and the snapshot is
/// written last.
pub proof fn law_log_is_written_first(record: bool, backup: bool)
    ensures
        commit_order(record, backup).last() == FileKind::Snapshot,
        record ==> commit_order(record, backup)[0] == FileKind::Ledger && commit_order(
            record,
            backup,
        )[1] == FileKind::Checkpoint,
        forall|i: int, j: int|
            0 <= i < j < commit_order(record, backup).len() ==> commit_order(record, backup)[i]
                != commit_order(record, backup)[j],
{
}

/// The log and the snapshot as they were last written. A poisoned one has failed to write and
/// refuses to go on: the files have to be read again.
pub struct Persistence {
    pub path: String,
    pub checkpoint: Checkpoint,
    pub committed: SchedulerStore,
    pub snapshot_digest: Option<String>,
    pub ledger_len: u64,
    pub poisoned: bool,
}

/// The digest of a file that may be missing.
pub open spec fn file_digest(bytes: Option<&Vec<u8>>) -> Option<Seq<char>> {
    match bytes {
        Some(b) => Some(digest_of(b@)),
        None => None,
    }
}

fn optional_digest(bytes: Option<&Vec<u8>>) -> (text: Option<String>)
    ensures
        crate::text::text_view(text) == file_digest(bytes),
{
    match bytes {
        Some(b) => Some(digest(b)),
        None => None,
    }
}

/// The files when a commit of a store begins, and whether it may go on.
pub open spec fn has_begun(
    before: Persistence,
    store: StoreView,
    begun: Result<(), SchedulerError>,
    after: Persistence,
) -> bool {
    &&& after == (Persistence { poisoned: true, ..before })
    &&& begun is Ok <==> !before.poisoned && sound_store(store)
    &&& begun is Err ==> shows(
        begun->Err_0,
        (Fault::Corrupt {
            path: before.path@,
            message: if before.poisoned {
                "previous persistence failure; reopen the scheduler before admitting traffic"@
            } else {
                "invalid provider accounting or scheduling state"@
            },
        }),
    )
}

/// The files after a record and its checkpoint were written.
pub open spec fn has_recorded(
    before: Persistence,
    record: Record,
    line_len: u64,
    after: Persistence,
) -> bool {
    &&& after.checkpoint@ == record_checkpoint(before.checkpoint@, record)
    &&& after.committed == record.state
    &&& after.ledger_len == before.ledger_len + line_len
    &&& after.path == before.path
    &&& after.snapshot_digest == before.snapshot_digest
    &&& after.poisoned == before.poisoned
}

/// The files after the snapshot was written.
pub open spec fn has_saved(
    before: Persistence,
    encoded: Seq<u8>,
    after: Persistence,
) -> bool {
    &&& after.path == before.path
    &&& after.checkpoint == before.checkpoint
    &&& after.committed == before.committed
    &&& after.ledger_len == before.ledger_len
    &&& crate::text::text_view(after.snapshot_digest) == Some(digest_of(encoded))
    &&& !after.poisoned
}

impl Persistence {
    /// The files as they are after they were read.
    pub fn new(
        path: String,
        checkpoint: Checkpoint,
        committed: SchedulerStore,
        snapshot: Option<&Vec<u8>>,
        ledger_len: u64,
    ) -> (persistence: Self)
        ensures
            persistence.path == path,
            persistence.checkpoint == checkpoint,
            persistence.committed == committed,
            crate::text::text_view(persistence.snapshot_digest) == file_digest(snapshot),
            persistence.ledger_len == ledger_len,
            !persistence.poisoned,
    {
        Persistence {
            path,
            checkpoint,
            committed,
            snapshot_digest: optional_digest(snapshot),
            ledger_len,
            poisoned: false,
        }
    }

    /// Whether the snapshot differs from the given encoding of the store.
    pub fn needs_snapshot(&self, encoded: &Vec<u8>) -> (needed: bool)
        ensures
            needed == (crate::text::text_view(self.snapshot_digest) != Some(digest_of(encoded@))),
    {
        match &self.snapshot_digest {
            Some(held) => !same_text(held, &digest(encoded)),
            None => true,
        }
    }

    /// Begins a commit. Until it has come to its end the files are poisoned: a commit that fails
    /// leaves them so, and the next one is refused.
    pub fn begin(&mut self, store: &SchedulerStore) -> (begun: Result<(), SchedulerError>)
        ensures
            has_begun(*old(self), store@, begun, *final(self)),
    {
        if self.poisoned {
            return Err(
                corrupt(
                    &self.path,
                    "previous persistence failure; reopen the scheduler before admitting traffic",
                ),
            );
        }
        self.poisoned = true;
        if !is_sound_store(store) {
            return Err(corrupt(&self.path, "invalid provider accounting or scheduling state"));
        }
        Ok(())
    }

    /// The files are still as they were last written.
    pub open spec fn unchanged(
        self,
        snapshot: Option<&Vec<u8>>,
        marker: CheckpointView,
        ledger_len: u64,
    ) -> bool {
        &&& file_digest(snapshot) == crate::text::text_view(self.snapshot_digest)
        &&& marker == self.checkpoint@
        &&& ledger_len == self.ledger_len
    }

    /// Refuses to go on where another process has changed the files.
    pub fn check_files(
        &self,
        snapshot: Option<&Vec<u8>>,
        marker: &Checkpoint,
        ledger_len: u64,
    ) -> (checked: Result<(), SchedulerError>)
        ensures
            checked is Ok <==> self.unchanged(snapshot, marker@, ledger_len),
            checked is Err ==> shows(
                checked->Err_0,
                (Fault::Corrupt {
                    path: self.path@,
                    message: "recovery files changed while the scheduler was running"@,
                }),
            ),
    {
        let held = optional_digest(snapshot);
        if !crate::text::same_name(&held, &self.snapshot_digest) || !same_checkpoint(
            marker,
            &self.checkpoint,
        ) || ledger_len != self.ledger_len {
            return Err(
                corrupt(&self.path, "recovery files changed while the scheduler was running"),
            );
        }
        Ok(())
    }

    /// The sequence of the record that a commit has to write: none where the accounting is what
    /// the log already holds.
    pub fn next_sequence(&self, store: &SchedulerStore) -> (sequence: Result<
        Option<u64>,
        SchedulerError,
    >)
        ensures
            match sequence {
                Ok(None) => accounting(store@) == accounting(self.committed@),
                Ok(Some(next)) => accounting(store@) != accounting(self.committed@) && next
                    == self.checkpoint.sequence + 1,
                Err(error) => {
                    &&& accounting(store@) != accounting(self.committed@)
                    &&& self.checkpoint.sequence == u64::MAX
                    &&& shows(
                        error,
                        (Fault::Corrupt {
                            path: self.path@,
                            message: "accounting sequence exhausted"@,
                        }),
                    )
                },
            },
    {
        if same_accounting(store, &self.committed) {
            return Ok(None);
        }
        if self.checkpoint.sequence == u64::MAX {
            return Err(corrupt(&self.path, "accounting sequence exhausted"));
        }
        Ok(Some(self.checkpoint.sequence + 1))
    }

    /// The states as a record holds them: without the checkpoint.
    pub fn record_state(&self, store: &SchedulerStore) -> (state: SchedulerStore)
        ensures
            state@ == (StoreView { checkpoint: None, ..store@ }),
            state.checkpoint is None,
    {
        SchedulerStore {
            schema_version: store.schema_version,
            providers: clone_providers(&store.providers),
            checkpoint: None,
        }
    }

    /// Makes the next record. `payload` encodes the sequence, the digest before it and the state.
    pub fn seal(&self, state: SchedulerStore, payload: &Vec<u8>) -> (record: Record)
        requires
            self.checkpoint.sequence < u64::MAX,
        ensures
            record.sequence == self.checkpoint.sequence + 1,
            record.previous_digest@ == self.checkpoint.digest@,
            record.state == state,
            record.digest@ == digest_of(payload@),
    {
        Record {
            sequence: self.checkpoint.sequence + 1,
            previous_digest: self.checkpoint.digest.clone(),
            state,
            digest: digest(payload),
        }
    }

    /// The checkpoint that a record stands for.
    pub fn checkpoint_of(&self, record: &Record) -> (checkpoint: Checkpoint)
        ensures
            checkpoint@ == record_checkpoint(self.checkpoint@, *record),
    {
        Checkpoint {
            version: self.checkpoint.version,
            installation: self.checkpoint.installation.clone(),
            sequence: record.sequence,
            digest: record.digest.clone(),
        }
    }

    /// The record and its checkpoint have been written.
    pub fn recorded(&mut self, record: Record, line_len: u64)
        requires
            old(self).ledger_len + line_len <= u64::MAX,
        ensures
            has_recorded(*old(self), record, line_len, *final(self)),
    {
        self.checkpoint = self.checkpoint_of(&record);
        self.ledger_len = self.ledger_len + line_len;
        self.committed = record.state;
    }

    /// The snapshot has been written: the commit is complete.
    pub fn saved(&mut self, encoded: &Vec<u8>)
        ensures
            has_saved(*old(self), encoded@, *final(self)),
    {
        self.snapshot_digest = Some(digest(encoded));
        self.poisoned = false;
    }
}

/// A record that was sealed follows the checkpoint that it was sealed on, so a log that ends in
/// that checkpoint may be read with the record behind it.
pub proof fn law_sealed_record_follows(
    persistence: Persistence,
    record: Record,
    payload: Vec<u8>,
)
    requires
        record.sequence == persistence.checkpoint.sequence + 1,
        record.previous_digest@ == persistence.checkpoint.digest@,
        record.digest@ == digest_of(payload@),
        record.state.schema_version == STATE_SCHEMA_VERSION,
        record.state.checkpoint is None,
    ensures
        follows(persistence.checkpoint@, ParsedRecord { record, payload }),
{
}

/// A log can be taken apart in one way only.
pub proof fn law_log_framing_is_unambiguous(a: Seq<Seq<u8>>, b: Seq<Seq<u8>>)
    requires
        joined(a) == joined(b),
        forall|i: int| 0 <= i < a.len() ==> !(#[trigger] a[i]).contains(10),
        forall|i: int| 0 <= i < b.len() ==> !(#[trigger] b[i]).contains(10),
    ensures
        a == b,
    decreases a.len(),
{
    if a.len() == 0 {
        if b.len() > 0 {
            assert(joined(b).len() > 0);
        }
        assert(a == b);
    } else if b.len() == 0 {
        assert(joined(a).len() > 0);
    } else {
        let x = a.last();
        let y = b.last();
        let p = joined(a.drop_last());
        let q = joined(b.drop_last());
        let whole = joined(a);
        assert(whole == p + x.push(10));
        assert(whole == q + y.push(10));
        lemma_joined_end(a.drop_last());
        lemma_joined_end(b.drop_last());
        if x.len() < y.len() {
            // The newline before `x` would stand inside `y`.
            let at = p.len() - 1;
            assert(at >= 0);
            assert(whole[at] == p[at]);
            assert(whole[at] == y[at - q.len()]);
            assert(y.contains(10));
            assert(b[b.len() - 1].contains(10));
        } else if y.len() < x.len() {
            let at = q.len() - 1;
            assert(at >= 0);
            assert(whole[at] == q[at]);
            assert(whole[at] == x[at - p.len()]);
            assert(x.contains(10));
            assert(a[a.len() - 1].contains(10));
        } else {
            assert(p =~= whole.take(p.len() as int));
            assert(q =~= whole.take(q.len() as int));
            assert(x =~= whole.subrange(p.len() as int, whole.len() - 1));
            assert(y =~= whole.subrange(q.len() as int, whole.len() - 1));
            assert forall|i: int| 0 <= i < a.drop_last().len() implies !(
            #[trigger] a.drop_last()[i]).contains(10) by {
                assert(a.drop_last()[i] == a[i]);
            }
            assert forall|i: int| 0 <= i < b.drop_last().len() implies !(
            #[trigger] b.drop_last()[i]).contains(10) by {
                assert(b.drop_last()[i] == b[i]);
            }
            law_log_framing_is_unambiguous(a.drop_last(), b.drop_last());
            assert(a =~= a.drop_last().push(x));
            assert(b =~= b.drop_last().push(y));
        }
    }
}

proof fn lemma_joined_end(lines: Seq<Seq<u8>>)
    ensures
        joined(lines).len() > 0 ==> joined(lines).last() == 10,
        joined(lines).len() >= lines.len(),
{
    if lines.len() > 0 {
        lemma_joined_end_len(lines);
        assert((joined(lines.drop_last()) + lines.last().push(10)).last() == 10);
    }
}

proof fn lemma_joined_end_len(lines: Seq<Seq<u8>>)
    ensures
        joined(lines).len() >= lines.len(),
    decreases lines.len(),
{
    if lines.len() > 0 {
        lemma_joined_end_len(lines.drop_last());
    }
}

/// Replaying a record twice is replaying it once.
pub proof fn law_replay_is_idempotent(state: StateView, recorded: StateView)
    ensures
        replayed(replayed(state, recorded), recorded) == replayed(state, recorded),
{
}

/// After a replay every provider on record has the accounting on record: no start is forgotten,
/// no cooldown is lifted and no retry is given back.
pub proof fn law_replay_restores_accounting(
    providers: Seq<(Seq<char>, StateView)>,
    recorded: Seq<(Seq<char>, StateView)>,
)
    requires
        ascending(providers),
        ascending(recorded),
    ensures
        ascending(replayed_all(providers, recorded)),
        forall|i: int|
            0 <= i < recorded.len() ==> {
                let held = lookup(
                    replayed_all(providers, recorded),
                    (#[trigger] recorded[i]).0,
                );
                held is Some && accounting_of(held->0) == accounting_of(recorded[i].1)
            },
        forall|id: Seq<char>|
            (forall|i: int| 0 <= i < recorded.len() ==> (#[trigger] recorded[i]).0 != id)
                ==> #[trigger] lookup(replayed_all(providers, recorded), id) == lookup(
                providers,
                id,
            ),
    decreases recorded.len(),
{
    if recorded.len() > 0 {
        let rest = recorded.drop_last();
        let before = replayed_all(providers, rest);
        let (id, record) = recorded.last();
        assert(ascending(rest)) by {
            assert forall|i: int, j: int| 0 <= i < j < rest.len() implies crate::text::text_before(
                #[trigger] rest[i].0,
                #[trigger] rest[j].0,
            ) by {
                assert(rest[i] == recorded[i] && rest[j] == recorded[j]);
            }
        }
        law_replay_restores_accounting(providers, rest);
        let next = match lookup(before, id) {
            Some(state) => replayed(state, record),
            None => record,
        };
        lemma_stored(before, id, next);
        let after = replayed_all(providers, recorded);
        assert(after == stored(before, id, next));
        assert forall|i: int| 0 <= i < recorded.len() implies ({
            let held = lookup(after, (#[trigger] recorded[i]).0);
            held is Some && accounting_of(held->0) == accounting_of(recorded[i].1)
        }) by {
            if i < rest.len() {
                assert(rest[i] == recorded[i]);
                assert(crate::text::text_before(recorded[i].0, recorded[recorded.len() - 1].0));
                crate::text::lemma_text_before_irreflexive(id);
                assert(recorded[i].0 != id);
            }
        }
        assert forall|other: Seq<char>|
            (forall|i: int| 0 <= i < recorded.len() ==> (#[trigger] recorded[i]).0
                != other) implies #[trigger] lookup(after, other) == lookup(providers, other) by {
            assert(recorded[recorded.len() - 1].0 != other);
            assert forall|i: int| 0 <= i < rest.len() implies (#[trigger] rest[i]).0 != other by {
                assert(rest[i] == recorded[i]);
            }
        }
    }
}

/// In a log without fault the records follow one another from the first on, and each holds sound
/// states.
proof fn lemma_faultless(
    path: Seq<char>,
    first: CheckpointView,
    records: Seq<Result<ParsedRecord, String>>,
    n: nat,
)
    requires
        n <= records.len(),
        first.sequence == 0,
        records_fault(path, first, records, n) is None,
    ensures
        checkpoint_after(first, records, n).sequence == n,
        forall|i: int|
            0 <= i < n ==> {
                let record = #[trigger] records[i];
                &&& record is Ok
                &&& record->Ok_0.record.state@.schema_version == STATE_SCHEMA_VERSION
                &&& record->Ok_0.record.state@.checkpoint is None
                &&& sound_store(record->Ok_0.record.state@)
            },
    decreases n,
{
    if n > 0 {
        lemma_faultless(path, first, records, (n - 1) as nat);
    }
}

/// What lies behind the first `n` records says nothing of them.
proof fn lemma_longer_log(
    path: Seq<char>,
    first: CheckpointView,
    records: Seq<Result<ParsedRecord, String>>,
    next: Result<ParsedRecord, String>,
    n: nat,
)
    requires
        n <= records.len(),
    ensures
        checkpoint_after(first, records.push(next), n) == checkpoint_after(first, records, n),
        records_fault(path, first, records.push(next), n) == records_fault(
            path,
            first,
            records,
            n,
        ),
    decreases n,
{
    if n > 0 {
        lemma_longer_log(path, first, records, next, (n - 1) as nat);
        assert(records.push(next)[n - 1] == records[n - 1]);
    }
}

/// A sound state that was sealed is read back: a log without fault that ends in the checkpoint
/// that the record was sealed on has no fault with the record behind it. It then ends in the
/// checkpoint of the record, and the state of the record is the last one that it holds.
pub proof fn law_sealed_record_is_read_back(
    path: Seq<char>,
    first: Seq<u8>,
    header: Header,
    records: Seq<Result<ParsedRecord, String>>,
    persistence: Persistence,
    record: Record,
    payload: Vec<u8>,
    log: Log,
)
    requires
        log_fault(path, first, Ok(header), records) is None,
        persistence.checkpoint@ == checkpoint_after(
            first_checkpoint(header, first),
            records,
            records.len(),
        ),
        record.sequence == persistence.checkpoint.sequence + 1,
        record.previous_digest@ == persistence.checkpoint.digest@,
        record.digest@ == digest_of(payload@),
        record.state.schema_version == STATE_SCHEMA_VERSION,
        record.state.checkpoint is None,
        sound_store(record.state@),
        holds_lines(log, first, header, records.push(Ok(ParsedRecord { record, payload }))),
    ensures
        log_fault(
            path,
            first,
            Ok(header),
            records.push(Ok(ParsedRecord { record, payload })),
        ) is None,
        log.checkpoints().last() == record_checkpoint(persistence.checkpoint@, record),
        last_on_record(log.states()) == record.state@,
{
    let start = first_checkpoint(header, first);
    let parsed = ParsedRecord { record, payload };
    let longer = records.push(Ok(parsed));
    lemma_longer_log(path, start, records, Ok(parsed), records.len());
    law_sealed_record_follows(persistence, record, payload);
    assert(longer[longer.len() - 1] == Ok::<ParsedRecord, String>(parsed));
    assert(longer.len() - 1 == records.len());
    assert(log.checkpoints()[longer.len() as int] == checkpoint_after(start, longer, longer.len()));
    assert(log.states()[longer.len() - 1] == record.state@);
}

/// The files as a commit that came to its end leaves them: the checkpoint file names the end of
/// the log, and the snapshot has been taken there and has the accounting on record.
pub open spec fn committed_at(files: RecoveryFiles, log: Log) -> bool {
    &&& files.ledger == Some(Ok::<Log, SchedulerError>(log))
    &&& files.marker is Some
    &&& !files.marker->0.empty
    &&& files.marker->0.checkpoint is Ok
    &&& files.marker->0.checkpoint->Ok_0@ == log.checkpoints().last()
    &&& files.primary is Some
    &&& files.primary->0 is Ok
    &&& ({
        let store = files.primary->0->Ok_0@;
        &&& store.schema_version == STATE_SCHEMA_VERSION
        &&& sound_store(store)
        &&& store.checkpoint == Some(log.checkpoints().last())
        &&& accounting(store) == accounting(last_on_record(log.states()))
    })
}

/// What was committed is what the next opening gives back: nothing is wrong with the files,
/// nothing has to be replayed, and the store is the one of the snapshot, with the accounting that
/// was recorded last.
pub proof fn law_commit_is_recovered(
    files: RecoveryFiles,
    log: Log,
    first: Seq<u8>,
    header: Header,
    records: Seq<Result<ParsedRecord, String>>,
)
    requires
        log_fault(files.ledger_path@, first, Ok(header), records) is None,
        holds_lines(log, first, header, records),
        records.len() > 0,
        committed_at(files, log),
    ensures
        files.fault() is None,
        !files.fresh(),
        !files.replays(log),
        files.result(log) == files.primary->0->Ok_0@,
        accounting(files.result(log)) == accounting(last_on_record(log.states())),
{
    let start = first_checkpoint(header, first);
    lemma_faultless(files.ledger_path@, start, records, records.len());
    assert(log.checkpoints()[records.len() as int] == checkpoint_after(
        start,
        records,
        records.len(),
    ));
    assert(on_log(log.checkpoints().last(), log));
}

/// A commit that was cut off behind its record is completed by the next opening. The record has
/// been appended to the log; the checkpoint file and the snapshot are as they were. Then the files
/// are still accepted, the record is replayed, and every provider on record has the accounting
/// that the commit was to give it.
pub proof fn law_interrupted_commit_is_recovered(
    files: RecoveryFiles,
    before: Log,
    after: Log,
    first: Seq<u8>,
    header: Header,
    records: Seq<Result<ParsedRecord, String>>,
    record: Record,
    payload: Vec<u8>,
)
    requires
        log_fault(
            files.ledger_path@,
            first,
            Ok(header),
            records.push(Ok(ParsedRecord { record, payload })),
        ) is None,
        holds_lines(before, first, header, records),
        holds_lines(after, first, header, records.push(Ok(ParsedRecord { record, payload }))),
        files.primary is Some,
        files.ledger == Some(Ok::<Log, SchedulerError>(before)),
        files.fault() is None,
        ascending(files.base(before).providers),
        ascending(record.state@.providers),
    ensures
        ({
            let left = RecoveryFiles { ledger: Some(Ok(after)), ..files };
            &&& left.fault() is None
            &&& !left.fresh()
            &&& left.replays(after)
            &&& left.result(after).checkpoint == Some(after.checkpoints().last())
            &&& forall|i: int|
                0 <= i < record.state@.providers.len() ==> {
                    let held = lookup(
                        left.result(after).providers,
                        (#[trigger] record.state@.providers[i]).0,
                    );
                    held is Some && accounting_of(held->0) == accounting_of(
                        record.state@.providers[i].1,
                    )
                }
        }),
{
    let start = first_checkpoint(header, first);
    let parsed: Result<ParsedRecord, String> = Ok(ParsedRecord { record, payload });
    let longer = records.push(parsed);
    let left = RecoveryFiles { ledger: Some(Ok(after)), ..files };
    let store = files.primary->0->Ok_0@;
    lemma_faultless(files.ledger_path@, start, longer, longer.len());
    assert forall|i: int| 0 <= i <= records.len() implies #[trigger] before.checkpoints()[i]
        == after.checkpoints()[i] by {
        lemma_longer_log(files.ledger_path@, start, records, parsed, i as nat);
    }
    assert forall|i: int| 0 <= i < records.len() implies #[trigger] before.states()[i]
        == after.states()[i] by {
        assert(longer[i] == records[i]);
    }
    assert(longer[records.len() as int] == parsed);
    assert(after.states()[records.len() as int] == record.state@);
    assert(last_on_record(after.states()) == record.state@);
    assert(on_log(store.checkpoint->0, before));
    assert(on_log(store.checkpoint->0, after));
    assert(on_log(files.marker->0.checkpoint->Ok_0@, before));
    assert(after.checkpoints()[longer.len() as int] == checkpoint_after(
        start,
        longer,
        longer.len(),
    ));
    assert(after.checkpoints().last().sequence == longer.len());
    law_replay_restores_accounting(store.providers, record.state@.providers);
}

/// A replay of sound states over sound states leaves sound states.
proof fn lemma_replay_is_sound(
    providers: Seq<(Seq<char>, StateView)>,
    recorded: Seq<(Seq<char>, StateView)>,
)
    requires
        forall|i: int|
            0 <= i < providers.len() ==> sound_state(
                (#[trigger] providers[i]).0,
                providers[i].1,
            ),
        forall|i: int|
            0 <= i < recorded.len() ==> sound_state((#[trigger] recorded[i]).0, recorded[i].1),
    ensures
        forall|i: int|
            0 <= i < replayed_all(providers, recorded).len() ==> sound_state(
                (#[trigger] replayed_all(providers, recorded)[i]).0,
                replayed_all(providers, recorded)[i].1,
            ),
    decreases recorded.len(),
{
    if recorded.len() > 0 {
        let rest = recorded.drop_last();
        let before = replayed_all(providers, rest);
        let (id, record) = recorded.last();
        assert forall|i: int| 0 <= i < rest.len() implies sound_state(
            (#[trigger] rest[i]).0,
            rest[i].1,
        ) by {
            assert(rest[i] == recorded[i]);
        }
        lemma_replay_is_sound(providers, rest);
        assert(sound_state(recorded[recorded.len() - 1].0, recorded[recorded.len() - 1].1));
        let next = match lookup(before, id) {
            Some(state) => replayed(state, record),
            None => record,
        };
        crate::string_map::lemma_place(before, id);
        let at = place(before, id) as int;
        if lookup(before, id) is Some {
            assert(sound_state(before[at].0, before[at].1));
        }
        assert(sound_state(id, next));
        let after = stored(before, id, next);
        assert forall|i: int| 0 <= i < after.len() implies sound_state(
            (#[trigger] after[i]).0,
            after[i].1,
        ) by {
            if i == at {
                assert(after[i] == (id, next));
            } else if lookup(before, id) is Some || i < at {
                assert(after[i] == before[i]);
            } else {
                assert(after[i] == before[i - 1]);
            }
        }
    }
}

/// Where every provider is on record, a replay gives the accounting on record and nothing else.
pub proof fn law_replay_is_the_recorded_accounting(base: StoreView, recorded: StoreView)
    requires
        ascending(base.providers),
        ascending(recorded.providers),
        forall|i: int|
            0 <= i < base.providers.len() ==> lookup(
                recorded.providers,
                (#[trigger] base.providers[i]).0,
            ) is Some,
    ensures
        ({
            let providers = replayed_all(base.providers, recorded.providers);
            accounting(StoreView { providers, ..base }) == accounting(recorded)
        }),
{
    let providers = replayed_all(base.providers, recorded.providers);
    let result = StoreView { providers, ..base };
    law_replay_restores_accounting(base.providers, recorded.providers);
    let a = accounting(result);
    let b = accounting(recorded);
    assert(ascending(a) && ascending(b)) by {
        assert forall|i: int, j: int| 0 <= i < j < a.len() implies crate::text::text_before(
            #[trigger] a[i].0,
            #[trigger] a[j].0,
        ) by {
            assert(a[i].0 == providers[i].0 && a[j].0 == providers[j].0);
        }
        assert forall|i: int, j: int| 0 <= i < j < b.len() implies crate::text::text_before(
            #[trigger] b[i].0,
            #[trigger] b[j].0,
        ) by {
            assert(b[i].0 == recorded.providers[i].0 && b[j].0 == recorded.providers[j].0);
        }
    }
    assert forall|j: int| 0 <= j < b.len() implies a.contains(#[trigger] b[j]) by {
        let id = recorded.providers[j].0;
        let at = place(providers, id) as int;
        crate::string_map::lemma_place(providers, id);
        assert(lookup(providers, id) is Some);
        assert(a[at] == b[j]);
    }
    assert forall|i: int| 0 <= i < a.len() implies b.contains(#[trigger] a[i]) by {
        let id = providers[i].0;
        crate::string_map::lemma_lookup_at(providers, i);
        if forall|j: int| 0 <= j < recorded.providers.len() ==> (
        #[trigger] recorded.providers[j]).0 != id {
            assert(lookup(providers, id) == lookup(base.providers, id));
            let at = place(base.providers, id) as int;
            assert(base.providers[at].0 == id);
            let there = place(recorded.providers, id) as int;
            assert(lookup(recorded.providers, id) is Some);
            assert(recorded.providers[there].0 == id);
        }
        let j = choose|j: int|
            0 <= j < recorded.providers.len() && (#[trigger] recorded.providers[j]).0 == id;
        assert(b[j] == a[i]);
    }
    crate::string_map::lemma_same_entries(a, b);
}

/// A recovered store is accepted again. Once the store that an opening gave has been written as
/// the snapshot, and the checkpoint file names the end of the log, the next opening gives the same
/// store and replays nothing; its accounting is the one on record.
pub proof fn law_recovered_store_is_accepted(
    files: RecoveryFiles,
    again: RecoveryFiles,
    log: Log,
    first: Seq<u8>,
    header: Header,
    records: Seq<Result<ParsedRecord, String>>,
)
    requires
        log_fault(files.ledger_path@, first, Ok(header), records) is None,
        holds_lines(log, first, header, records),
        records.len() > 0,
        files.ledger == Some(Ok::<Log, SchedulerError>(log)),
        files.fault() is None,
        again.ledger_path == files.ledger_path,
        again.ledger == files.ledger,
        again.marker is Some,
        !again.marker->0.empty,
        again.marker->0.checkpoint is Ok,
        again.marker->0.checkpoint->Ok_0@ == log.checkpoints().last(),
        again.primary is Some,
        again.primary->0 is Ok,
        again.primary->0->Ok_0@ == files.result(log),
        ascending(files.base(log).providers),
        ascending(last_on_record(log.states()).providers),
        forall|i: int|
            0 <= i < files.base(log).providers.len() ==> lookup(
                last_on_record(log.states()).providers,
                (#[trigger] files.base(log).providers[i]).0,
            ) is Some,
    ensures
        again.fault() is None,
        !again.replays(log),
        again.result(log) == files.result(log),
        accounting(again.result(log)) == accounting(last_on_record(log.states())),
{
    let start = first_checkpoint(header, first);
    let base = files.base(log);
    let last = last_on_record(log.states());
    lemma_faultless(files.ledger_path@, start, records, records.len());
    assert(log.states()[records.len() - 1] == (records[records.len() - 1]->Ok_0).record.state@);
    assert(sound_store(base) && base.schema_version == STATE_SCHEMA_VERSION);
    if files.replays(log) {
        law_replay_is_the_recorded_accounting(base, last);
        lemma_replay_is_sound(base.providers, last.providers);
    } else {
        assert(base.checkpoint == Some(log.checkpoints().last()));
        assert(log.checkpoints()[records.len() as int] == checkpoint_after(
            start,
            records,
            records.len(),
        ));
    }
    assert(accounting(files.result(log)) =~= accounting(StoreView {
        providers: files.result(log).providers,
        ..base
    }));
    assert(committed_at(again, log));
    law_commit_is_recovered(again, log, first, header, records);
}

} // verus!
