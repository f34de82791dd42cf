//! The list of starts that was kept apart from the state: one entry to a line.
use super::ReservationLedgerEntry;
use super::error::SchedulerError;
use super::persistence::{Fault, shows};
use crate::sanitize::{is_whitespace, whitespace};
use crate::text::{chars_of, dec, decimal, string_of};
use vstd::prelude::*;
use vstd::string::StringExecFns;

verus! {

/// A line of the list, counted from zero.
#[derive(Debug, PartialEq, Eq)]
pub struct ListLine {
    pub index: usize,
    pub text: String,
}

/// A line without the carriage return before its end.
pub open spec fn bare(line: Seq<char>) -> Seq<char> {
    if line.len() > 0 && line.last() == '\r' {
        line.drop_last()
    } else {
        line
    }
}

/// The lines of a text. The last one has no line break behind it.
pub open spec fn split_lines(text: Seq<char>) -> Seq<Seq<char>>
    decreases text.len(),
{
    if text.len() == 0 {
        seq![Seq::empty()]
    } else {
        let before = split_lines(text.drop_last());
        if text.last() == '\n' {
            before.drop_last().push(bare(before.last())).push(Seq::empty())
        } else {
            before.drop_last().push(before.last().push(text.last()))
        }
    }
}

pub open spec fn blank(line: Seq<char>) -> bool {
    forall|i: int| 0 <= i < line.len() ==> whitespace(#[trigger] line[i])
}

/// The lines that are not blank, with the number of lines before each of them.
pub open spec fn filled_lines(lines: Seq<Seq<char>>) -> Seq<(nat, Seq<char>)>
    decreases lines.len(),
{
    if lines.len() == 0 {
        Seq::empty()
    } else {
        let before = filled_lines(lines.drop_last());
        if blank(lines.last()) {
            before
        } else {
            before.push(((lines.len() - 1) as nat, lines.last()))
        }
    }
}

pub open spec fn list_views(lines: Seq<ListLine>) -> Seq<(nat, Seq<char>)> {
    lines.map_values(|line: ListLine| (line.index as nat, line.text@))
}

fn is_blank(line: &Vec<char>) -> (yes: bool)
    ensures
        yes == blank(line@),
{
    let mut i: usize = 0;
    while i < line.len()
        invariant
            i <= line@.len(),
            forall|k: int| 0 <= k < i ==> whitespace(#[trigger] line@[k]),
        decreases line@.len() - i,
    {
        if !is_whitespace(line[i]) {
            return false;
        }
        i += 1;
    }
    true
}

fn note_line(lines: &mut Vec<ListLine>, index: usize, line: &Vec<char>)
    ensures
        list_views(final(lines)@) == if blank(line@) {
            list_views(old(lines)@)
        } else {
            list_views(old(lines)@).push((index as nat, line@))
        },
{
    if !is_blank(line) {
        lines.push(ListLine { index, text: string_of(line) });
    }
    proof {
        assert(list_views(lines@) =~= if blank(line@) {
            list_views(old(lines)@)
        } else {
            list_views(old(lines)@).push((index as nat, line@))
        });
    }
}

/// The lines of the list that hold an entry.
pub fn list_lines(text: &str) -> (lines: Vec<ListLine>)
    ensures
        list_views(lines@) == filled_lines(split_lines(text@)),
{
    let chars = chars_of(text);
    let mut lines: Vec<ListLine> = Vec::new();
    let mut line: Vec<char> = Vec::new();
    let mut index: usize = 0;
    let mut i: usize = 0;
    proof {
        assert(chars@.take(0) =~= Seq::empty());
        assert(split_lines(chars@.take(0)).drop_last() =~= Seq::empty());
        assert(list_views(lines@) =~= Seq::empty());
        assert(line@ =~= Seq::empty());
    }
    while i < chars.len()
        invariant
            i <= chars@.len(),
            index <= i,
            split_lines(chars@.take(i as int)).len() == index + 1,
            split_lines(chars@.take(i as int)).last() == line@,
            list_views(lines@) == filled_lines(split_lines(chars@.take(i as int)).drop_last()),
        decreases chars@.len() - i,
    {
        let ghost before = split_lines(chars@.take(i as int));
        let ghost after = split_lines(chars@.take(i + 1));
        proof {
            assert(chars@.take(i + 1).drop_last() =~= chars@.take(i as int));
        }
        if chars[i] == '\n' {
            if line.len() > 0 && line[line.len() - 1] == '\r' {
                let _ = line.pop();
            }
            proof {
                assert(line@ =~= bare(before.last()));
                let ended = before.drop_last().push(line@);
                assert(after.drop_last() =~= ended);
                assert(ended.drop_last() =~= before.drop_last());
            }
            note_line(&mut lines, index, &line);
            line = Vec::new();
            index += 1;
            proof {
                assert(line@ =~= Seq::empty());
            }
        } else {
            line.push(chars[i]);
            proof {
                assert(after.drop_last() =~= before.drop_last());
            }
        }
        i += 1;
    }
    note_line(&mut lines, index, &line);
    proof {
        assert(chars@.take(chars@.len() as int) =~= text@);
    }
    lines
}

/// Why a line of the list could not be read.
pub open spec fn line_fault(index: nat, error: Seq<char>) -> Seq<char> {
    "reservation ledger line "@ + dec(index + 1) + ": "@ + error
}

/// Gathers the entries of the list. The first line that could not be read makes it corrupt.
pub fn gather_entries(
    path: &str,
    lines: &Vec<ListLine>,
    parsed: Vec<Result<ReservationLedgerEntry, String>>,
) -> (entries: Result<Vec<ReservationLedgerEntry>, SchedulerError>)
    requires
        lines@.len() == parsed@.len(),
    ensures
        match entries {
            Ok(entries) => {
                &&& entries@.len() == parsed@.len()
                &&& forall|i: int|
                    0 <= i < parsed@.len() ==> #[trigger] parsed@[i] == Ok::<_, String>(entries@[i])
            },
            Err(error) => exists|at: int|
                {
                    &&& 0 <= at < parsed@.len()
                    &&& (#[trigger] parsed@[at]) is Err
                    &&& forall|i: int| 0 <= i < at ==> (#[trigger] parsed@[i]) is Ok
                    &&& shows(
                        error,
                        (Fault::Corrupt {
                            path: path@,
                            message: line_fault(lines@[at].index as nat, parsed@[at]->Err_0@),
                        }),
                    )
                },
        },
{
    let mut rest = parsed;
    let mut entries: Vec<ReservationLedgerEntry> = Vec::new();
    let mut i: usize = 0;
    while i < lines.len()
        invariant
            lines@.len() == parsed@.len(),
            i <= lines@.len(),
            rest@ == parsed@.skip(i as int),
            entries@.len() == i,
            forall|k: int| 0 <= k < i ==> #[trigger] parsed@[k] == Ok::<_, String>(entries@[k]),
        decreases lines@.len() - i,
    {
        let first = rest.remove(0);
        proof {
            assert(first == parsed@[i as int]);
            assert(rest@ =~= parsed@.skip(i + 1));
        }
        match first {
            Ok(entry) => {
                entries.push(entry);
            },
            Err(error) => {
                let number = decimal(lines[i].index as u128 + 1);
                let message = "reservation ledger line ".to_owned().concat(&number).concat(
                    ": ",
                ).concat(&error);
                proof {
                    assert(parsed@[i as int] is Err);
                    assert(message@ == line_fault(lines@[i as int].index as nat, error@));
                }
                return Err(SchedulerError::Corrupt { path: path.to_owned(), message });
            },
        }
        i += 1;
    }
    Ok(entries)
}

} // verus!
