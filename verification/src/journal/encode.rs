//! Comma-separated rows.
use super::columns::views;
use vstd::prelude::*;
use vstd::utf8::{encode_utf8, is_ascii_chars_encode_utf8};

verus! {

/// A character for which a cell is put between quotation marks.
pub open spec fn needs_marks(c: char) -> bool {
    c == ',' || c == '"' || c == '\r' || c == '\n'
}

/// A cell with its quotation marks doubled.
pub open spec fn doubled_marks(cell: Seq<char>) -> Seq<char>
    decreases cell.len(),
{
    if cell.len() == 0 {
        Seq::empty()
    } else if cell.last() == '"' {
        doubled_marks(cell.drop_last()).push('"').push('"')
    } else {
        doubled_marks(cell.drop_last()).push(cell.last())
    }
}

/// A cell as it stands in a row.
pub open spec fn csv_cell(cell: Seq<char>) -> Seq<char> {
    if exists|i: int| 0 <= i < cell.len() && needs_marks(#[trigger] cell[i]) {
        seq!['"'] + doubled_marks(cell) + seq!['"']
    } else {
        cell
    }
}

/// Cells with commas between them.
pub open spec fn csv_cells(cells: Seq<Seq<char>>) -> Seq<char>
    decreases cells.len(),
{
    if cells.len() == 0 {
        Seq::empty()
    } else if cells.len() == 1 {
        csv_cell(cells[0])
    } else {
        csv_cells(cells.drop_last()) + seq![','] + csv_cell(cells.last())
    }
}

/// A row: its cells with commas between them, and a carriage return and a line feed at its end.
pub open spec fn csv_row(cells: Seq<Seq<char>>) -> Seq<char> {
    csv_cells(cells) + seq!['\r', '\n']
}

/// What `csv` reads as the first row of some bytes: how many bytes it takes, and its cells.
pub uninterp spec fn csv_record(bytes: Seq<u8>) -> Option<(nat, Seq<Seq<u8>>)>;

/// The bytes of cells.
pub open spec fn encoded(cells: Seq<Seq<char>>) -> Seq<Seq<u8>> {
    cells.map_values(|cell: Seq<char>| encode_utf8(cell))
}

/// A row is read as its cells, whatever follows it and whether or not a line feed goes before it.
/// Reading stops before the row's own line feed, and that alone is no row.
pub open spec fn reads_back(row: Seq<char>, cells: Seq<Seq<char>>) -> bool {
    let bytes = encode_utf8(row);
    &&& forall|rest: Seq<u8>|
        #[trigger] csv_record(bytes + rest) == Some(((bytes.len() - 1) as nat, encoded(cells)))
    &&& forall|rest: Seq<u8>|
        #[trigger] csv_record(seq![10u8] + bytes + rest) == Some((bytes.len(), encoded(cells)))
    &&& csv_record(bytes.skip(bytes.len() - 1)) is None
}

/// Cells that do not begin with a byte order mark.
pub open spec fn unmarked(cells: Seq<Seq<char>>) -> bool {
    cells.len() > 0 && (cells[0].len() > 0 ==> cells[0][0] != '\u{feff}')
}

/// `csv::Writer::write_record`, with a carriage return and a line feed as terminator: the cells
/// stand with commas between them, and those that hold a comma, a quotation mark or a line break
/// stand between quotation marks, with the marks in them doubled. `csv::Reader` reads the row
/// back as the same cells, unless it begins with a byte order mark. Of a row with a single cell
/// nothing is claimed.
#[verifier::external_body]
pub(crate) fn encode_row(cells: &Vec<String>) -> (row: String)
    requires
        cells@.len() >= 2,
    ensures
        row@ == csv_row(views(cells@)),
        unmarked(views(cells@)) ==> reads_back(row@, views(cells@)),
{
    let mut writer = csv::WriterBuilder::new()
        .has_headers(false)
        .terminator(csv::Terminator::CRLF)
        .from_writer(Vec::new());
    writer.write_record(cells).expect("writing to memory");
    let bytes = writer.into_inner().expect("writing to memory");
    String::from_utf8(bytes).expect("cells are texts")
}

/// Texts one behind the other are encoded one behind the other.
pub proof fn lemma_encode_joined(a: Seq<char>, b: Seq<char>)
    ensures
        encode_utf8(a + b) == encode_utf8(a) + encode_utf8(b),
    decreases a.len(),
{
    if a.len() == 0 {
        assert(a + b =~= b);
        assert(encode_utf8(a) + encode_utf8(b) =~= encode_utf8(b));
    } else {
        lemma_encode_joined(a.drop_first(), b);
        assert((a + b).drop_first() =~= a.drop_first() + b);
        assert((a + b)[0] == a[0]);
    }
}

/// The bytes of a row end with a carriage return and a line feed.
pub proof fn lemma_row_ends(cells: Seq<Seq<char>>)
    ensures
        encode_utf8(csv_row(cells)) == encode_utf8(csv_cells(cells)) + seq![13u8, 10u8],
{
    lemma_encode_joined(csv_cells(cells), seq!['\r', '\n']);
    let end = seq!['\r', '\n'];
    is_ascii_chars_encode_utf8(end);
    assert(encode_utf8(end) =~= seq![13u8, 10u8]);
}

} // verus!
