//! The durable journal: comma-separated rows, in one file or in segments.
pub mod batches;
pub mod columns;
pub mod encode;
pub mod layout_laws;
pub mod recovery;
pub mod recovery_laws;
pub mod segment_laws;
pub mod segments;

pub use self::segments::Journal;

use self::columns::{column_names, csv_header_line, encode_batch, header_line, lays_out_all};
use crate::console::{ConsoleSink, may_hold};
use crate::model::{IpAddr, MeasurementEvent};
use crate::scalar::Scalar;
use vstd::prelude::*;
use vstd::string::{StrSliceExecFns, StringExecFns};

verus! {

/// Why the journal cannot go on.
#[derive(Debug, PartialEq, Eq)]
pub enum JournalError {
    Io { permission_denied: bool, message: String },
    Csv { message: String },
    Header(String),
    Corrupt(String),
    Locked(String),
}

impl JournalError {
    pub open spec fn text(self) -> Seq<char> {
        match self {
            JournalError::Io { message, .. } => "journal I/O failed: "@ + message@,
            JournalError::Csv { message } => "journal CSV serialization failed: "@ + message@,
            JournalError::Header(path) => {
                "existing output has an incompatible CSV header: "@ + path@
            },
            JournalError::Corrupt(path) => {
                "existing output contains a malformed CSV record: "@ + path@
            },
            JournalError::Locked(path) => {
                "output file is already locked by another Netband process: "@ + path@
            },
        }
    }

    /// The error in words.
    pub fn message(&self) -> (text: String)
        ensures
            text@ == self.text(),
    {
        match self {
            JournalError::Io { message, .. } => "journal I/O failed: ".to_owned().concat(message),
            JournalError::Csv { message } => {
                "journal CSV serialization failed: ".to_owned().concat(message)
            },
            JournalError::Header(path) => {
                "existing output has an incompatible CSV header: ".to_owned().concat(path)
            },
            JournalError::Corrupt(path) => {
                "existing output contains a malformed CSV record: ".to_owned().concat(path)
            },
            JournalError::Locked(path) => {
                "output file is already locked by another Netband process: ".to_owned().concat(path)
            },
        }
    }

    /// An error of the system.
    pub fn write(permission_denied: bool, message: String) -> (error: Self)
        ensures
            error == (JournalError::Io { permission_denied, message }),
    {
        JournalError::Io { permission_denied, message }
    }

    /// Whether the system refused access.
    pub fn is_permission_denied(&self) -> (denied: bool)
        ensures
            denied == (*self matches JournalError::Io { permission_denied, .. }
                && permission_denied),
    {
        match self {
            JournalError::Io { permission_denied, .. } => *permission_denied,
            _ => false,
        }
    }
}

/// A place where events are kept.
pub trait JournalSink {
    /// The events that were taken, in order. A place that does not say which is held to nothing
    /// but that they depend on it alone.
    open spec fn taken(&self) -> Seq<MeasurementEvent> {
        choose|events: Seq<MeasurementEvent>| may_hold(self, events)
    }

    /// The place answers an attempt to keep events with this result, and is then as `after`. A
    /// place that does not say more may refuse any events, and keeps all that it does not refuse.
    open spec fn answers(
        &self,
        after: &Self,
        events: Seq<MeasurementEvent>,
        result: Result<(), JournalError>,
    ) -> bool {
        result is Ok ==> after.taken() == self.taken() + events
    }

    /// Takes events in. On success all of them are kept.
    fn append_batch(&mut self, events: &Vec<MeasurementEvent>) -> (result: Result<
        (),
        JournalError,
    >)
        ensures
            result is Ok ==> final(self).taken() == old(self).taken() + events@,
            old(self).answers(final(self), events@, result),
    ;

    /// The place answers the wish that what was taken stays with this result, and is then as
    /// `after`. A place that does not say more may answer as it likes, and gives nothing up.
    open spec fn settles(&self, after: &Self, result: Result<(), JournalError>) -> bool {
        after.taken() == self.taken()
    }

    /// Makes sure that what was taken stays.
    fn flush(&mut self) -> (result: Result<(), JournalError>)
        ensures
            old(self).settles(final(self), result),
            final(self).taken() == old(self).taken(),
    ;
}

/// Lays rows out in memory.
pub struct JournalWriter {
    pub text: String,
}

/// The first row of a journal without its line break.
pub open spec fn header_text() -> Seq<char> {
    encode::csv_cells(column_names())
}

/// The first row of a journal without its line break.
pub fn csv_header() -> (text: String)
    ensures
        text@ == header_text(),
{
    let line = crate::text::chars_of(&csv_header_line());
    let mut text = String::new();
    let count: usize = line.len();
    proof {
        assert(header_line() == header_text() + seq!['\r', '\n']);
        assert(header_line().take(header_line().len() - 2) == header_text());
    }
    let mut i: usize = 0;
    while i < count - 2
        invariant
            count == line@.len(),
            count >= 2,
            line@ == header_line(),
            i <= count - 2,
            text@ == line@.take(i as int),
        decreases count - i,
    {
        text.push(line[i]);
        i += 1;
        proof {
            assert(line@.take(i as int) == line@.take(i - 1).push(line@[i - 1]));
        }
    }
    text
}

impl JournalWriter {
    /// A journal that begins with the names of the columns.
    pub fn from_writer() -> (writer: Self)
        ensures
            writer.text@ == header_line(),
    {
        JournalWriter { text: csv_header_line() }
    }

    /// Rows that are put behind others.
    pub fn without_header() -> (writer: Self)
        ensures
            writer.text@.len() == 0,
    {
        JournalWriter { text: String::new() }
    }

    /// Puts the rows of events behind what is there. `show` writes a number and `address` an
    /// address.
    pub fn append_batch<F: Fn(Scalar) -> String, G: Fn(IpAddr) -> String>(
        &mut self,
        events: &Vec<MeasurementEvent>,
        show: &F,
        address: &G,
    )
        requires
            forall|v: Scalar| #[trigger] call_requires(*show, (v,)),
            forall|v: IpAddr| #[trigger] call_requires(*address, (v,)),
        ensures
            exists|rows: Seq<char>|
                #[trigger] lays_out_all(rows, events@, *show, *address) && final(self).text@
                    == old(self).text@ + rows,
    {
        let rows = encode_batch(events, show, address);
        self.text.append(&rows);
        proof {
            assert(lays_out_all(rows@, events@, *show, *address));
        }
    }

    /// The bytes of what was laid out.
    pub fn into_inner(self) -> (bytes: Vec<u8>)
        ensures
            bytes@ == vstd::utf8::encode_utf8(self.text@),
    {
        self.text.as_str().as_bytes_vec()
    }
}

/// Keeps events in a journal and shows them on a console.
pub struct OutputCoordinator<J, C> {
    journal: J,
    console: C,
}

impl<J: JournalSink, C: ConsoleSink> OutputCoordinator<J, C> {
    pub closed spec fn journal(&self) -> J {
        self.journal
    }

    pub closed spec fn console(&self) -> C {
        self.console
    }

    pub fn new(journal: J, console: C) -> (coordinator: Self)
        ensures
            coordinator.journal() == journal,
            coordinator.console() == console,
    {
        OutputCoordinator { journal, console }
    }

    /// Keeps events, and shows them once they are kept. The result is the journal's answer to
    /// them. Events that were not kept are not shown.
    pub fn publish_batch(&mut self, events: &Vec<MeasurementEvent>) -> (result: Result<
        (),
        JournalError,
    >)
        ensures
            old(self).journal().answers(&final(self).journal(), events@, result),
            result is Ok ==> {
                &&& final(self).journal().taken() == old(self).journal().taken() + events@
                &&& final(self).console().offered() == old(self).console().offered() + events@
            },
            result is Err ==> final(self).console() == old(self).console(),
    {
        let answer = self.journal.append_batch(events);
        if answer.is_err() {
            return answer;
        }
        let ghost before = self.console.offered();
        let ghost kept = self.journal;
        let mut i: usize = 0;
        while i < events.len()
            invariant
                i <= events@.len(),
                self.journal == kept,
                self.console.offered() == before + events@.take(i as int),
            decreases events@.len() - i,
        {
            self.console.offer(&events[i]);
            i += 1;
            proof {
                assert(events@.take(i as int) == events@.take(i - 1).push(events@[i - 1]));
            }
        }
        proof {
            assert(events@.take(events@.len() as int) == events@);
        }
        answer
    }

    /// Makes sure that what was kept stays. The result is the journal's answer.
    pub fn flush(&mut self) -> (result: Result<(), JournalError>)
        ensures
            old(self).journal().settles(&final(self).journal(), result),
            final(self).journal().taken() == old(self).journal().taken(),
            final(self).console() == old(self).console(),
    {
        self.journal.flush()
    }

    pub fn into_parts(self) -> (parts: (J, C))
        ensures
            parts.0 == self.journal(),
            parts.1 == self.console(),
    {
        (self.journal, self.console)
    }
}

} // verus!
