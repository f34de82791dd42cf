//! What is taken for a journal, and what is refused.
use super::JournalError;
use super::encode::csv_record;
use super::header_text;
use super::recovery::{
    Repair, first_line, found_from, is_terminated, recorded_segment, recover_trailing_record,
    validate_header, without_breaks, without_feeds,
};
use vstd::prelude::*;
use vstd::utf8::{encode_utf8, valid_utf8};

verus! {

proof fn lemma_line_begins(bytes: Seq<u8>)
    ensures
        first_line(bytes).len() <= bytes.len(),
        first_line(bytes) == bytes.take(first_line(bytes).len() as int),
        first_line(bytes).len() < bytes.len() ==> bytes[first_line(bytes).len() as int] == 10,
    decreases bytes.len(),
{
    if bytes.len() > 0 && bytes[0] != 10 {
        let rest = bytes.drop_first();
        lemma_line_begins(rest);
        let line = first_line(bytes);
        assert(line =~= seq![bytes[0]] + first_line(rest));
        assert(line =~= bytes.take(line.len() as int));
        if line.len() < bytes.len() {
            assert(rest[first_line(rest).len() as int] == bytes[line.len() as int]);
        }
    } else {
        assert(first_line(bytes) =~= bytes.take(0));
    }
}

proof fn lemma_breaks_end(bytes: Seq<u8>)
    ensures
        without_breaks(bytes).len() <= bytes.len(),
        without_breaks(bytes) == bytes.take(without_breaks(bytes).len() as int),
        without_breaks(bytes).len() < bytes.len() ==> {
            let next = bytes[without_breaks(bytes).len() as int];
            next == 10 || next == 13
        },
    decreases bytes.len(),
{
    if bytes.len() > 0 && (bytes.last() == 10 || bytes.last() == 13) {
        let fewer = bytes.drop_last();
        lemma_breaks_end(fewer);
        assert(without_breaks(bytes) =~= bytes.take(without_breaks(bytes).len() as int));
    } else {
        assert(without_breaks(bytes) =~= bytes.take(bytes.len() as int));
    }
}

/// A journal that is taken up begins with the names of the columns, and nothing but a line break
/// or its end follows them. One that is not is refused by its path.
pub proof fn law_journal_begins_with_its_columns(
    bytes: Vec<u8>,
    path: &str,
    result: Result<(), JournalError>,
)
    requires
        call_ensures(validate_header, (&bytes, path), result),
    ensures
        result is Ok ==> {
            let header = encode_utf8(header_text());
            &&& bytes@.len() >= header.len()
            &&& bytes@.take(header.len() as int) == header
            &&& bytes@.len() > header.len() ==> bytes@[header.len() as int] == 10
                || bytes@[header.len() as int] == 13
        },
        result is Err ==> result->Err_0 is Header && result->Err_0->Header_0@ == path@,
{
    let line = first_line(bytes@);
    lemma_line_begins(bytes@);
    lemma_breaks_end(line);
    if result is Ok {
        let header = encode_utf8(header_text());
        assert(bytes@.take(header.len() as int) =~= header);
    }
}

/// The places where the rows of a journal begin, from its first byte on.
pub open spec fn row_places(bytes: Seq<u8>, places: Seq<int>) -> bool {
    &&& places.len() > 0
    &&& places[0] == 0
    &&& forall|k: int|
        0 <= k < places.len() ==> 0 <= #[trigger] places[k] <= bytes.len() && csv_record(
            bytes.skip(places[k]),
        ) is Some && 0 < (csv_record(bytes.skip(places[k]))->0).0 <= bytes.len() - places[k]
    &&& forall|k: int|
        0 < k < places.len() ==> #[trigger] places[k] == places[k - 1] + (csv_record(
            bytes.skip(places[k - 1]),
        )->0).0
}

proof fn lemma_rows_are_passed(bytes: Seq<u8>, places: Seq<int>, k: int)
    requires
        row_places(bytes, places),
        0 <= k < places.len(),
        found_from(bytes, is_terminated(bytes), 0, true) is Whole,
    ensures
        found_from(bytes, is_terminated(bytes), places[k], k == 0) is Whole,
    decreases k,
{
    if k > 0 {
        lemma_rows_are_passed(bytes, places, k - 1);
        assert(places[k] == places[k - 1] + (csv_record(bytes.skip(places[k - 1]))->0).0);
    }
}

/// A journal that is kept as it is holds fifty-two cells of text in every row behind its first,
/// and no last row of it lacks its end.
pub proof fn law_kept_journal_holds_whole_rows(
    bytes: Vec<u8>,
    path: &str,
    places: Seq<int>,
    k: int,
)
    requires
        call_ensures(
            recover_trailing_record,
            (&bytes, path),
            Ok::<Repair, JournalError>(Repair::Keep),
        ),
        row_places(bytes@, places),
        0 < k < places.len(),
    ensures
        ({
            let (used, cells) = csv_record(bytes@.skip(places[k]))->0;
            &&& cells.len() == 52
            &&& forall|i: int| 0 <= i < cells.len() ==> valid_utf8(#[trigger] cells[i])
            &&& places[k] + used == bytes@.len() ==> bytes@.last() == 10 || bytes@.last() == 13
        }),
{
    lemma_rows_are_passed(bytes@, places, k);
    let (used, cells) = csv_record(bytes@.skip(places[k]))->0;
    assert(0 <= places[k] <= bytes@.len());
}

/// A note that stands for a segment: its name, and line feeds behind it.
pub open spec fn notes_name(note: Seq<char>, name: Seq<char>) -> bool {
    &&& name.len() <= note.len()
    &&& note.take(name.len() as int) == name
    &&& forall|i: int| name.len() <= i < note.len() ==> #[trigger] note[i] == '\n'
    &&& name.len() > 0 ==> name.last() != '\n'
}

proof fn lemma_feeds_end(text: Seq<char>)
    ensures
        notes_name(text, without_feeds(text)),
    decreases text.len(),
{
    if text.len() > 0 && text.last() == '\n' {
        let fewer = text.drop_last();
        lemma_feeds_end(fewer);
        let name = without_feeds(text);
        assert(text.take(name.len() as int) =~= fewer.take(name.len() as int));
        assert forall|i: int| name.len() <= i < text.len() implies #[trigger] text[i] == '\n' by {
            if i < fewer.len() {
                assert(fewer[i] == '\n');
            }
        }
    } else {
        assert(text.take(text.len() as int) =~= text);
    }
}

/// A name that a segment can have: plain characters, from `netband-` to `.csv`.
pub open spec fn plain_name(name: Seq<char>) -> bool {
    &&& name.len() >= 8
    &&& name.take(8) == "netband-"@
    &&& name.skip(name.len() - 4) == ".csv"@
    &&& forall|i: int|
        0 <= i < name.len() ==> {
            let c = #[trigger] name[i];
            ('a' <= c && c <= 'z') || ('A' <= c && c <= 'Z') || ('0' <= c && c <= '9') || c == '-'
                || c == '.' || c == '_'
        }
}

/// The segment that a note names is what stands before the line feeds at its end, if a segment can
/// have that name; any other note is refused by its path.
pub proof fn law_note_names_its_segment(
    note: &str,
    path: &str,
    name: Seq<char>,
    result: Result<String, JournalError>,
)
    requires
        call_ensures(recorded_segment, (note, path), result),
        notes_name(note@, name),
    ensures
        result is Ok <==> plain_name(name),
        result is Ok ==> result->Ok_0@ == name,
        result is Err ==> result->Err_0 is Corrupt && result->Err_0->Corrupt_0@ == path@,
{
    reveal_strlit("netband-");
    reveal_strlit(".csv");
    lemma_feeds_end(note@);
    let told = without_feeds(note@);
    assert(told.len() == name.len()) by {
        if told.len() < name.len() {
            assert(name.last() == note@[name.len() - 1]);
        } else if told.len() > name.len() {
            assert(told.last() == note@[told.len() - 1]);
        }
    }
    assert(told == name);
    assert("netband-"@.len() == 8 && ".csv"@.len() == 4);
}

} // verus!
