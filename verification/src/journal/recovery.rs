//! Taking up a journal again: its header, a row that was cut off, and the note of which segment
//! was written last.
use super::JournalError;
use super::columns::{COLUMNS, column_names};
use super::encode::{
    csv_record, csv_row, encoded, lemma_row_ends, reads_back,
};
use super::{csv_header, header_text};
use crate::text::{begins_with, chars_of, ends_with, has_end, has_start, string_of};
use vstd::prelude::*;
use vstd::string::StrSliceExecFns;
use vstd::utf8::{encode_utf8, encode_utf8_valid_utf8, valid_utf8};

verus! {

/// How many bytes the first row takes.
pub open spec fn taken_bytes(bytes: Seq<u8>) -> nat {
    match csv_record(bytes) {
        Some((used, _)) => used,
        None => 0,
    }
}

/// A row, and the place behind it.
pub struct Record {
    pub end: usize,
    pub cells: Vec<Vec<u8>>,
}

/// The bytes of cells.
pub open spec fn cell_bytes(cells: Seq<Vec<u8>>) -> Seq<Seq<u8>> {
    cells.map_values(|cell: Vec<u8>| cell@)
}

/// `csv::Reader::read_byte_record`, for rows of any number of cells and without a header: the
/// first row from a place on is a function of the bytes from there on. A row takes one byte at
/// least.
#[verifier::external_body]
fn read_record(bytes: &Vec<u8>, from: usize) -> (record: Option<Record>)
    requires
        from <= bytes@.len(),
    ensures
        match record {
            None => csv_record(bytes@.skip(from as int)) is None,
            Some(record) => {
                &&& from < record.end <= bytes@.len()
                &&& csv_record(bytes@.skip(from as int)) == Some(
                    ((record.end - from) as nat, cell_bytes(record.cells@)),
                )
            },
        },
{
    let mut builder = csv::ReaderBuilder::new();
    let mut reader = builder.has_headers(false).flexible(true).from_reader(&bytes[from..]);
    let mut record = csv::ByteRecord::new();
    if !reader.read_byte_record(&mut record).expect("reading from memory") {
        return None;
    }
    let end = from + reader.position().byte() as usize;
    Some(Record { end, cells: record.iter().map(|cell| cell.to_vec()).collect() })
}

#[verifier::external_type_specification]
#[verifier::external_body]
pub struct ExUtf8Error(std::str::Utf8Error);

/// `std::str::from_utf8`: bytes are a text exactly if they are valid UTF-8.
pub assume_specification[ std::str::from_utf8 ](bytes: &[u8]) -> (text: Result<
    &str,
    std::str::Utf8Error,
>)
    ensures
        text is Ok <==> valid_utf8(bytes@),
;

/// A row of the journal: as many cells as there are columns, each of them a text.
pub open spec fn sound_row(cells: Seq<Seq<u8>>) -> bool {
    &&& cells.len() == COLUMNS
    &&& forall|i: int| 0 <= i < cells.len() ==> valid_utf8(#[trigger] cells[i])
}

fn is_sound_row(cells: &Vec<Vec<u8>>) -> (sound: bool)
    ensures
        sound == sound_row(cell_bytes(cells@)),
{
    if cells.len() != COLUMNS {
        return false;
    }
    let mut i: usize = 0;
    while i < cells.len()
        invariant
            cells@.len() == COLUMNS,
            i <= cells@.len(),
            forall|k: int| 0 <= k < i ==> valid_utf8(#[trigger] cell_bytes(cells@)[k]),
        decreases cells@.len() - i,
    {
        if std::str::from_utf8(cells[i].as_slice()).is_err() {
            proof {
                assert(!valid_utf8(cell_bytes(cells@)[i as int]));
            }
            return false;
        }
        i += 1;
    }
    true
}

/// A byte that ends a line.
pub open spec fn breaks_line(byte: u8) -> bool {
    byte == 10 || byte == 13
}

/// The bytes up to the first line feed.
pub open spec fn first_line(bytes: Seq<u8>) -> Seq<u8>
    decreases bytes.len(),
{
    if bytes.len() == 0 {
        Seq::empty()
    } else if bytes[0] == 10 {
        Seq::empty()
    } else {
        seq![bytes[0]] + first_line(bytes.drop_first())
    }
}

/// The bytes without the line breaks at their end.
pub open spec fn without_breaks(bytes: Seq<u8>) -> Seq<u8>
    decreases bytes.len(),
{
    if bytes.len() > 0 && breaks_line(bytes.last()) {
        without_breaks(bytes.drop_last())
    } else {
        bytes
    }
}

/// A journal whose first line names the columns.
pub open spec fn has_header(bytes: Seq<u8>) -> bool {
    without_breaks(first_line(bytes)) == encode_utf8(header_text())
}

proof fn lemma_first_line(bytes: Seq<u8>, end: int)
    requires
        0 <= end <= bytes.len(),
        forall|k: int| 0 <= k < end ==> #[trigger] bytes[k] != 10,
        end < bytes.len() ==> bytes[end] == 10,
    ensures
        first_line(bytes) == bytes.take(end),
    decreases bytes.len(),
{
    if bytes.len() > 0 && end > 0 {
        let rest = bytes.drop_first();
        assert forall|k: int| 0 <= k < end - 1 implies #[trigger] rest[k] != 10 by {
            assert(rest[k] == bytes[k + 1]);
        }
        if end < bytes.len() {
            assert(rest[end - 1] == bytes[end]);
        }
        lemma_first_line(rest, end - 1);
        assert(bytes.take(end) =~= seq![bytes[0]] + rest.take(end - 1));
    } else {
        assert(bytes.take(end) =~= Seq::<u8>::empty());
    }
}

/// Checks that a journal's first line names the columns.
pub fn validate_header(bytes: &Vec<u8>, path: &str) -> (result: Result<(), JournalError>)
    ensures
        result is Ok <==> has_header(bytes@),
        result matches Err(error) ==> {
            &&& error is Header
            &&& error->Header_0@ == path@
        },
{
    let mut end: usize = 0;
    while end < bytes.len() && bytes[end] != 10
        invariant
            end <= bytes@.len(),
            forall|k: int| 0 <= k < end ==> #[trigger] bytes@[k] != 10,
        decreases bytes@.len() - end,
    {
        end += 1;
    }
    proof {
        lemma_first_line(bytes@, end as int);
    }
    let ghost line = bytes@.take(end as int);
    while end > 0 && (bytes[end - 1] == 10 || bytes[end - 1] == 13)
        invariant
            end <= bytes@.len(),
            without_breaks(line) == without_breaks(bytes@.take(end as int)),
        decreases end,
    {
        proof {
            assert(bytes@.take(end as int).drop_last() == bytes@.take(end - 1));
            assert(bytes@.take(end as int).last() == bytes@[end - 1]);
        }
        end -= 1;
    }
    proof {
        if end > 0 {
            assert(bytes@.take(end as int).last() == bytes@[end - 1]);
        }
        assert(without_breaks(bytes@.take(end as int)) == bytes@.take(end as int));
    }
    let wanted = csv_header().as_str().as_bytes_vec();
    if end != wanted.len() {
        proof {
            assert(bytes@.take(end as int).len() != wanted@.len());
        }
        return Err(JournalError::Header(path.to_owned()));
    }
    let mut i: usize = 0;
    while i < end
        invariant
            i <= end,
            end <= bytes@.len(),
            end == wanted@.len(),
            wanted@ == encode_utf8(header_text()),
            without_breaks(first_line(bytes@)) == bytes@.take(end as int),
            forall|k: int| 0 <= k < i ==> #[trigger] bytes@[k] == wanted@[k],
        decreases end - i,
    {
        if bytes[i] != wanted[i] {
            proof {
                assert(bytes@.take(end as int)[i as int] != wanted@[i as int]);
            }
            return Err(JournalError::Header(path.to_owned()));
        }
        i += 1;
    }
    proof {
        assert(bytes@.take(end as int) =~= wanted@);
    }
    Ok(())
}

/// How a journal is mended.
#[derive(Clone, Copy, Debug, PartialEq, Eq, Structural)]
pub enum Repair {
    /// It is whole.
    Keep,
    /// The line break behind its header is missing and is written.
    EndHeader,
    /// Its last row was cut off and is taken away: so many bytes stay.
    CutTo(usize),
}

/// What is found in the rows of a journal.
pub enum Finding {
    Whole,
    CutOff(int),
    Malformed,
}

/// What is found in the rows from a place on. A row that reaches the end without a line break was
/// cut off. Any other row that is not sound, but for the header, is malformed.
pub open spec fn found_from(bytes: Seq<u8>, terminated: bool, at: int, header: bool) -> Finding
    decreases bytes.len() - at,
{
    match csv_record(bytes.skip(at)) {
        None => Finding::Whole,
        Some((used, cells)) => {
            let end = at + used;
            if used == 0 || end > bytes.len() {
                Finding::Whole
            } else if !header && !terminated && end == bytes.len() {
                Finding::CutOff(at)
            } else if !header && !sound_row(cells) {
                Finding::Malformed
            } else {
                found_from(bytes, terminated, end, false)
            }
        },
    }
}

/// Whether the last line is ended.
pub open spec fn is_terminated(bytes: Seq<u8>) -> bool {
    bytes.len() > 0 && breaks_line(bytes.last())
}

/// How a journal with a header is mended. `None` means that it holds a malformed row.
pub open spec fn repair_of(bytes: Seq<u8>) -> Option<Repair> {
    if bytes.len() == encode_utf8(header_text()).len() {
        Some(Repair::EndHeader)
    } else {
        match found_from(bytes, is_terminated(bytes), 0, true) {
            Finding::Whole => Some(Repair::Keep),
            Finding::CutOff(at) => Some(
                Repair::CutTo(
                    if at < bytes.len() && bytes[at] == 10 {
                        (at + 1) as usize
                    } else {
                        at as usize
                    },
                ),
            ),
            Finding::Malformed => None,
        }
    }
}

/// Decides how a journal with a header is mended after it was left. Only a last row without a
/// line break is taken away; a malformed row anywhere else is an error.
pub fn recover_trailing_record(bytes: &Vec<u8>, path: &str) -> (repair: Result<
    Repair,
    JournalError,
>)
    ensures
        match repair {
            Ok(repair) => repair_of(bytes@) == Some(repair),
            Err(error) => {
                &&& repair_of(bytes@) is None
                &&& error is Corrupt
                &&& error->Corrupt_0@ == path@
            },
        },
{
    let length: usize = bytes.len();
    let header = csv_header().as_str().as_bytes_vec();
    if length == header.len() {
        return Ok(Repair::EndHeader);
    }
    let terminated: bool = length > 0 && (bytes[length - 1] == 10 || bytes[length - 1] == 13);
    let mut at: usize = 0;
    let mut first: bool = true;
    loop
        invariant
            length == bytes@.len(),
            length != encode_utf8(header_text()).len(),
            terminated == is_terminated(bytes@),
            at <= length,
            found_from(bytes@, terminated, 0, true) == found_from(
                bytes@,
                terminated,
                at as int,
                first,
            ),
        decreases length - at,
    {
        let record = match read_record(bytes, at) {
            None => {
                return Ok(Repair::Keep);
            },
            Some(record) => record,
        };
        if !first && !terminated && record.end == length {
            let cut: usize = if bytes[at] == 10 {
                at + 1
            } else {
                at
            };
            return Ok(Repair::CutTo(cut));
        }
        if !first && !is_sound_row(&record.cells) {
            return Err(JournalError::Corrupt(path.to_owned()));
        }
        at = record.end;
        first = false;
    }
}

/// What is kept of a journal that was mended.
pub open spec fn kept_bytes(bytes: Seq<u8>, repair: Repair) -> Seq<u8> {
    match repair {
        Repair::Keep => bytes,
        Repair::EndHeader => bytes + seq![13u8, 10u8],
        Repair::CutTo(at) => bytes.take(at as int),
    }
}

proof fn lemma_cut_is_within(bytes: Seq<u8>, terminated: bool, at: int, header: bool)
    requires
        0 <= at <= bytes.len(),
    ensures
        found_from(bytes, terminated, at, header) matches Finding::CutOff(place) ==> {
            &&& !terminated
            &&& at <= place < bytes.len()
            &&& csv_record(bytes.skip(place)) is Some
            &&& place + taken_bytes(bytes.skip(place)) == bytes.len()
        },
    decreases bytes.len() - at,
{
    match csv_record(bytes.skip(at)) {
        None => {},
        Some((used, cells)) => {
            let end = at + used;
            if used > 0 && end <= bytes.len() {
                if !header && !terminated && end == bytes.len() {
                } else if !header && !sound_row(cells) {
                } else {
                    lemma_cut_is_within(bytes, terminated, end, false);
                }
            }
        },
    }
}

/// Mending a journal takes nothing away whose last line is ended. What it takes away of another
/// is one row, the last, which has no line break behind it.
pub proof fn law_only_a_row_without_its_end_is_taken_away(bytes: Seq<u8>, repair: Repair)
    requires
        bytes.len() <= usize::MAX,
        repair_of(bytes) == Some(repair),
    ensures
        is_terminated(bytes) ==> !(repair is CutTo),
        repair matches Repair::CutTo(at) ==> {
            &&& !is_terminated(bytes)
            &&& 0 <= at <= bytes.len()
            &&& exists|start: int|
                {
                    &&& 0 <= start <= at
                    &&& at <= start + 1
                    &&& #[trigger] csv_record(bytes.skip(start)) is Some
                    &&& start + taken_bytes(bytes.skip(start)) == bytes.len()
                }
        },
        !(repair is CutTo) ==> kept_bytes(bytes, repair).take(bytes.len() as int) == bytes,
{
    lemma_cut_is_within(bytes, is_terminated(bytes), 0, true);
    if repair is Keep {
        assert(bytes.take(bytes.len() as int) == bytes);
    }
    if repair is EndHeader {
        assert(kept_bytes(bytes, repair).take(bytes.len() as int) == bytes);
    }
    if bytes.len() != encode_utf8(header_text()).len() {
        match found_from(bytes, is_terminated(bytes), 0, true) {
            Finding::CutOff(at) => {
                assert(csv_record(bytes.skip(at)) is Some);
            },
            _ => {},
        }
    }
}

/// The bytes of rows, one behind the other.
pub open spec fn rows_bytes(rows: Seq<Seq<Seq<char>>>) -> Seq<u8>
    decreases rows.len(),
{
    if rows.len() == 0 {
        Seq::empty()
    } else {
        rows_bytes(rows.drop_last()) + encode_utf8(csv_row(rows.last()))
    }
}

/// Rows that are read back as they were written, each with a cell for every column but for the
/// first, which names the columns.
pub open spec fn whole_rows(rows: Seq<Seq<Seq<char>>>) -> bool {
    &&& rows.len() > 0
    &&& rows[0] == column_names()
    &&& forall|i: int|
        0 <= i < rows.len() ==> {
            &&& (#[trigger] rows[i]).len() == COLUMNS
            &&& reads_back(csv_row(rows[i]), rows[i])
        }
}

proof fn lemma_rows_split(rows: Seq<Seq<Seq<char>>>, k: int)
    requires
        0 <= k <= rows.len(),
    ensures
        rows_bytes(rows).len() >= rows_bytes(rows.take(k)).len(),
        rows_bytes(rows).take(rows_bytes(rows.take(k)).len() as int) == rows_bytes(rows.take(k)),
        k < rows.len() ==> exists|rest: Seq<u8>|
            #[trigger] (encode_utf8(csv_row(rows[k])) + rest) == rows_bytes(rows).skip(
                rows_bytes(rows.take(k)).len() as int,
            ),
    decreases rows.len() - k,
{
    let all = rows_bytes(rows);
    let before = rows_bytes(rows.take(k));
    if k == rows.len() {
        assert(rows.take(k) =~= rows);
        assert(all.take(all.len() as int) =~= all);
    } else {
        lemma_rows_split(rows, k + 1);
        let with = rows_bytes(rows.take(k + 1));
        let row = encode_utf8(csv_row(rows[k]));
        assert(rows.take(k + 1).drop_last() =~= rows.take(k));
        assert(rows.take(k + 1).last() == rows[k]);
        assert(with == before + row);
        assert(all.take(with.len() as int) == with);
        assert(all.take(before.len() as int) =~= with.take(before.len() as int));
        assert(with.take(before.len() as int) =~= before);
        let rest = all.skip(with.len() as int);
        assert forall|i: int| 0 <= i < row.len() implies all[before.len() + i] == row[i] by {
            assert(with[before.len() + i] == row[i]);
            assert(all.take(with.len() as int)[before.len() + i] == with[before.len() + i]);
        }
        assert(row + rest =~= all.skip(before.len() as int));
    }
}

proof fn lemma_sound_cells(cells: Seq<Seq<char>>)
    requires
        cells.len() == COLUMNS,
    ensures
        sound_row(encoded(cells)),
{
    assert forall|i: int| 0 <= i < encoded(cells).len() implies valid_utf8(
        #[trigger] encoded(cells)[i],
    ) by {
        encode_utf8_valid_utf8(cells[i]);
    }
}

/// Where reading stands before a row: at the line feed of the row before it.
spec fn reading_place(rows: Seq<Seq<Seq<char>>>, k: int) -> int {
    if k == 0 {
        0
    } else {
        rows_bytes(rows.take(k)).len() - 1
    }
}

/// Whole rows are passed over, whatever follows them.
proof fn lemma_passes_over(rows: Seq<Seq<Seq<char>>>, tail: Seq<u8>, terminated: bool, k: int)
    requires
        whole_rows(rows),
        terminated || tail.len() > 0,
        0 <= k <= rows.len(),
    ensures
        found_from(rows_bytes(rows) + tail, terminated, reading_place(rows, k), k == 0)
            == found_from(
            rows_bytes(rows) + tail,
            terminated,
            reading_place(rows, rows.len() as int),
            false,
        ),
    decreases rows.len() - k,
{
    if k < rows.len() {
        let all = rows_bytes(rows);
        let bytes = all + tail;
        let at = reading_place(rows, k);
        let before = rows_bytes(rows.take(k));
        let row = encode_utf8(csv_row(rows[k]));
        lemma_rows_split(rows, k);
        let rest = choose|rest: Seq<u8>|
            #[trigger] (row + rest) == all.skip(before.len() as int);
        let whole = before + (row + rest);
        assert(all =~= all.take(before.len() as int) + all.skip(before.len() as int));
        assert(all == whole);
        lemma_row_ends(rows[k]);
        lemma_sound_cells(rows[k]);
        assert(reads_back(csv_row(rows[k]), rows[k]));
        assert(rows.take(k + 1).drop_last() =~= rows.take(k));
        assert(rows.take(k + 1).last() == rows[k]);
        assert(rows_bytes(rows.take(k + 1)) == before + row);
        lemma_rows_split(rows, k + 1);
        if k == 0 {
            assert(rows.take(0) =~= Seq::<Seq<Seq<char>>>::empty());
            assert(before =~= Seq::<u8>::empty());
            assert(bytes.skip(0) =~= row + (rest + tail));
            assert(csv_record(row + (rest + tail)) == Some(
                ((row.len() - 1) as nat, encoded(rows[k])),
            ));
        } else {
            lemma_place_is_a_feed(rows, k);
            let told = seq![10u8] + row + (rest + tail);
            assert forall|i: int| 0 <= i < told.len() implies bytes.skip(at)[i] == told[i] by {
                if 0 < i <= row.len() + rest.len() {
                    assert(told[i] == (row + rest)[i - 1]);
                    assert(whole[at + i] == (row + rest)[i - 1]);
                }
            }
            assert(bytes.skip(at) =~= told);
            assert(csv_record(told) == Some((row.len(), encoded(rows[k]))));
        }
        lemma_passes_over(rows, tail, terminated, k + 1);
    }
}

proof fn lemma_place_is_a_feed(rows: Seq<Seq<Seq<char>>>, k: int)
    requires
        0 < k <= rows.len(),
    ensures
        0 <= reading_place(rows, k) < rows_bytes(rows).len(),
        rows_bytes(rows)[reading_place(rows, k)] == 10u8,
{
    let before = rows_bytes(rows.take(k));
    lemma_row_ends(rows[k - 1]);
    assert(rows.take(k).drop_last() =~= rows.take(k - 1));
    assert(rows.take(k).last() == rows[k - 1]);
    assert(before.last() == 10u8);
    lemma_rows_split(rows, k);
    assert(rows_bytes(rows).take(before.len() as int).last() == 10u8);
}

proof fn lemma_longer_than_header(rows: Seq<Seq<Seq<char>>>)
    requires
        whole_rows(rows),
    ensures
        rows_bytes(rows).len() > encode_utf8(header_text()).len(),
{
    lemma_row_ends(rows[0]);
    lemma_rows_split(rows, 1);
    assert(rows.take(1).drop_last() =~= Seq::<Seq<Seq<char>>>::empty());
    assert(rows.take(1).last() == rows[0]);
    assert(rows_bytes(Seq::<Seq<Seq<char>>>::empty()) =~= Seq::<u8>::empty());
    assert(rows_bytes(rows.take(1)) =~= encode_utf8(csv_row(rows[0])));
}

/// A journal of whole rows is taken up again as it is: nothing of it is lost or refused.
pub proof fn law_whole_journal_is_kept(rows: Seq<Seq<Seq<char>>>)
    requires
        whole_rows(rows),
    ensures
        repair_of(rows_bytes(rows)) == Some(Repair::Keep),
{
    let all = rows_bytes(rows);
    let count = rows.len() as int;
    let last = encode_utf8(csv_row(rows[count - 1]));
    assert(all + Seq::<u8>::empty() =~= all);
    lemma_passes_over(rows, Seq::empty(), true, 0);
    lemma_place_is_a_feed(rows, count);
    lemma_row_ends(rows[count - 1]);
    lemma_longer_than_header(rows);
    assert(rows.take(count) =~= rows);
    assert(rows.last() == rows[count - 1]);
    assert(all == rows_bytes(rows.drop_last()) + last);
    assert(all.skip(reading_place(rows, count)) =~= last.skip(last.len() - 1));
    assert(reads_back(csv_row(rows[count - 1]), rows[count - 1]));
    assert(reading_place(rows, 0) == 0);
}

/// Where a row behind whole rows was cut off, it is all that is lost: every whole row stays.
pub proof fn law_cut_off_row_is_all_that_is_lost(rows: Seq<Seq<Seq<char>>>, part: Seq<u8>)
    requires
        whole_rows(rows),
        part.len() > 0,
        !breaks_line(part.last()),
        rows_bytes(rows).len() + part.len() <= usize::MAX,
        csv_record(seq![10u8] + part) is Some,
        taken_bytes(seq![10u8] + part) == 1 + part.len(),
    ensures
        ({
            let bytes = rows_bytes(rows) + part;
            &&& repair_of(bytes) == Some(Repair::CutTo(rows_bytes(rows).len() as usize))
            &&& kept_bytes(bytes, repair_of(bytes)->0) == rows_bytes(rows)
        }),
{
    let all = rows_bytes(rows);
    let bytes = all + part;
    let count = rows.len() as int;
    lemma_passes_over(rows, part, false, 0);
    lemma_place_is_a_feed(rows, count);
    lemma_longer_than_header(rows);
    assert(rows.take(count) =~= rows);
    let at = reading_place(rows, count);
    assert(bytes.skip(at) =~= seq![10u8] + part);
    assert(bytes.last() == part.last());
    assert(reading_place(rows, 0) == 0);
    assert(found_from(bytes, false, at, false) == Finding::CutOff(at));
    assert(bytes.take(all.len() as int) =~= all);
}

/// A character that the name of a segment may hold.
pub open spec fn name_char(c: char) -> bool {
    'a' <= c <= 'z' || 'A' <= c <= 'Z' || '0' <= c <= '9' || c == '-' || c == '.' || c == '_'
}

/// The name of a segment: it cannot lead out of its directory.
pub open spec fn segment_name_ok(name: Seq<char>) -> bool {
    &&& begins_with(name, "netband-"@)
    &&& ends_with(name, ".csv"@)
    &&& forall|i: int| 0 <= i < name.len() ==> name_char(#[trigger] name[i])
}

/// A text without the line feeds at its end.
pub open spec fn without_feeds(text: Seq<char>) -> Seq<char>
    decreases text.len(),
{
    if text.len() > 0 && text.last() == '\n' {
        without_feeds(text.drop_last())
    } else {
        text
    }
}

/// The segment that the note names. A note that names none is corrupt.
pub fn recorded_segment(note: &str, path: &str) -> (name: Result<String, JournalError>)
    ensures
        match name {
            Ok(name) => name@ == without_feeds(note@) && segment_name_ok(name@),
            Err(error) => {
                &&& !segment_name_ok(without_feeds(note@))
                &&& error is Corrupt
                &&& error->Corrupt_0@ == path@
            },
        },
{
    let mut chars = chars_of(note);
    loop
        invariant
            without_feeds(note@) == without_feeds(chars@),
        ensures
            without_feeds(note@) == chars@,
        decreases chars@.len(),
    {
        let count: usize = chars.len();
        if count == 0 {
            break;
        }
        let last: char = chars[count - 1];
        if last != '\n' {
            break;
        }
        let ghost before = chars@;
        let _ = chars.pop();
        proof {
            assert(chars@ == before.drop_last());
        }
    }
    let name = string_of(&chars);
    if !has_start(&name, "netband-") || !has_end(&name, ".csv") {
        return Err(JournalError::Corrupt(path.to_owned()));
    }
    let mut i: usize = 0;
    while i < chars.len()
        invariant
            i <= chars@.len(),
            name@ == chars@,
            without_feeds(note@) == chars@,
            forall|k: int| 0 <= k < i ==> name_char(#[trigger] chars@[k]),
        decreases chars@.len() - i,
    {
        let c: char = chars[i];
        let plain: bool = ('a' <= c && c <= 'z') || ('A' <= c && c <= 'Z') || ('0' <= c && c
            <= '9') || c == '-' || c == '.' || c == '_';
        if !plain {
            proof {
                assert(!name_char(chars@[i as int]));
            }
            return Err(JournalError::Corrupt(path.to_owned()));
        }
        i += 1;
    }
    Ok(name)
}

/// A segment's name holds no separator of paths: what is taken up again lies in the journal's own
/// directory.
pub proof fn law_recorded_segment_stays_in_its_directory(name: Seq<char>)
    requires
        segment_name_ok(name),
    ensures
        !name.contains('/'),
        !name.contains('\\'),
        name.len() > 0,
{
    reveal_strlit("netband-");
    if name.contains('/') {
        let i = choose|i: int| 0 <= i < name.len() && name[i] == '/';
        assert(name_char(name[i]));
    }
    if name.contains('\\') {
        let i = choose|i: int| 0 <= i < name.len() && name[i] == '\\';
        assert(name_char(name[i]));
    }
}

} // verus!
