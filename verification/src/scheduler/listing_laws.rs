//! How the list of starts is read.
use super::ReservationLedgerEntry;
use super::error::SchedulerError;
use super::reservations::{
    ListLine, bare, blank, filled_lines, gather_entries, list_lines, list_views, split_lines,
};
use crate::text::dec;
use vstd::prelude::*;

verus! {

/// Lines with a line break between any two.
pub open spec fn broken_text(lines: Seq<Seq<char>>) -> Seq<char>
    decreases lines.len(),
{
    if lines.len() == 0 {
        Seq::empty()
    } else if lines.len() == 1 {
        lines[0]
    } else {
        broken_text(lines.drop_last()).push('\n') + lines.last()
    }
}

/// A line as it is read: a carriage return before its break is not part of it.
pub open spec fn read_line(lines: Seq<Seq<char>>, k: int) -> Seq<char> {
    let line = lines[k];
    if k < lines.len() - 1 && line.len() > 0 && line[line.len() - 1] == '\r' {
        line.take(line.len() - 1)
    } else {
        line
    }
}

proof fn lemma_longer_line(text: Seq<char>, part: Seq<char>)
    requires
        !part.contains('\n'),
    ensures
        split_lines(text).len() > 0,
        split_lines(text + part) == split_lines(text).drop_last().push(
            split_lines(text).last() + part,
        ),
    decreases part.len(),
{
    lemma_some_line(text);
    if part.len() == 0 {
        assert(text + part =~= text);
        assert(split_lines(text).last() + part =~= split_lines(text).last());
        assert(split_lines(text) =~= split_lines(text).drop_last().push(split_lines(text).last()));
    } else {
        let fewer = part.drop_last();
        assert(!fewer.contains('\n')) by {
            if fewer.contains('\n') {
                let i = choose|i: int| 0 <= i < fewer.len() && fewer[i] == '\n';
                assert(part[i] == '\n');
            }
        }
        lemma_longer_line(text, fewer);
        assert((text + part).drop_last() =~= text + fewer);
        assert((text + part).last() == part.last());
        assert(part.last() != '\n') by {
            assert(part.contains(part[part.len() - 1]));
        }
        assert(split_lines(text).last() + part =~= (split_lines(text).last() + fewer).push(
            part.last(),
        ));
        assert(split_lines(text + fewer).drop_last() =~= split_lines(text).drop_last());
    }
}

proof fn lemma_some_line(text: Seq<char>)
    ensures
        split_lines(text).len() > 0,
    decreases text.len(),
{
    if text.len() > 0 {
        lemma_some_line(text.drop_last());
    }
}

proof fn lemma_lines_are_split(lines: Seq<Seq<char>>)
    requires
        lines.len() > 0,
        forall|k: int| 0 <= k < lines.len() ==> !(#[trigger] lines[k]).contains('\n'),
    ensures
        split_lines(broken_text(lines)).len() == lines.len(),
        forall|k: int|
            0 <= k < lines.len() ==> #[trigger] split_lines(broken_text(lines))[k] == read_line(
                lines,
                k,
            ),
    decreases lines.len(),
{
    let text = broken_text(lines);
    if lines.len() == 1 {
        lemma_longer_line(Seq::empty(), lines[0]);
        assert(Seq::<char>::empty() + lines[0] =~= lines[0]);
        assert(split_lines(Seq::<char>::empty()).last() + lines[0] =~= lines[0]);
    } else {
        let fewer = lines.drop_last();
        assert forall|k: int| 0 <= k < fewer.len() implies !(#[trigger] fewer[k]).contains(
            '\n',
        ) by {
            assert(!lines[k].contains('\n'));
        }
        lemma_lines_are_split(fewer);
        let before = broken_text(fewer);
        let ended = before.push('\n');
        assert(ended.drop_last() =~= before);
        let split = split_lines(before);
        assert(split_lines(ended) == split.drop_last().push(bare(split.last())).push(Seq::empty()));
        lemma_longer_line(ended, lines.last());
        assert(split_lines(text).last() =~= lines.last());
        assert forall|k: int| 0 <= k < lines.len() implies #[trigger] split_lines(text)[k]
            == read_line(lines, k) by {
            if k < lines.len() - 2 {
                assert(split_lines(text)[k] == split[k]);
                assert(split[k] == read_line(fewer, k));
            } else if k == lines.len() - 2 {
                assert(split[k] == read_line(fewer, k));
                assert(split[k] == lines[k]);
                assert(bare(lines[k]) =~= read_line(lines, k));
            }
        }
    }
}

proof fn lemma_filled(lines: Seq<Seq<char>>)
    ensures
        forall|n: int|
            0 <= n < filled_lines(lines).len() ==> {
                let (k, line) = #[trigger] filled_lines(lines)[n];
                k < lines.len() && line == lines[k as int] && !blank(line)
            },
        forall|m: int, n: int|
            0 <= m < n < filled_lines(lines).len() ==> (#[trigger] filled_lines(lines)[m]).0 < (
            #[trigger] filled_lines(lines)[n]).0,
        forall|k: int|
            0 <= k < lines.len() && !blank(#[trigger] lines[k]) ==> filled_lines(lines).contains(
                (k as nat, lines[k]),
            ),
    decreases lines.len(),
{
    if lines.len() > 0 {
        let fewer = lines.drop_last();
        lemma_filled(fewer);
        let before = filled_lines(fewer);
        let all = filled_lines(lines);
        assert forall|k: int| 0 <= k < lines.len() && !blank(#[trigger] lines[k]) implies
            all.contains((k as nat, lines[k])) by {
            if k < fewer.len() {
                assert(fewer[k] == lines[k]);
                assert(before.contains((k as nat, fewer[k])));
                let n = choose|n: int| 0 <= n < before.len() && before[n] == (k as nat, fewer[k]);
                assert(all[n] == before[n]);
            } else {
                assert(all[all.len() - 1] == (k as nat, lines[k]));
            }
        }
        assert forall|n: int| 0 <= n < all.len() implies {
            let (k, line) = #[trigger] all[n];
            k < lines.len() && line == lines[k as int] && !blank(line)
        } by {
            if n < before.len() {
                assert(all[n] == before[n]);
            }
        }
        assert forall|m: int, n: int| 0 <= m < n < all.len() implies (#[trigger] all[m]).0 < (
        #[trigger] all[n]).0 by {
            assert(all[m] == before[m]);
            if n < before.len() {
                assert(all[n] == before[n]);
            }
        }
    }
}

/// The list gives every line that is not blank, in order, with the number of lines before it, and
/// no other.
pub proof fn law_list_gives_its_lines(
    text: &str,
    written: Seq<Seq<char>>,
    lines: Vec<ListLine>,
)
    requires
        call_ensures(list_lines, (text,), lines),
        written.len() > 0,
        forall|k: int| 0 <= k < written.len() ==> !(#[trigger] written[k]).contains('\n'),
        text@ == broken_text(written),
    ensures
        forall|n: int|
            0 <= n < lines@.len() ==> {
                let line = #[trigger] lines@[n];
                &&& line.index < written.len()
                &&& line.text@ == read_line(written, line.index as int)
                &&& !blank(line.text@)
            },
        forall|m: int, n: int|
            0 <= m < n < lines@.len() ==> (#[trigger] lines@[m]).index < (
            #[trigger] lines@[n]).index,
        forall|k: int|
            0 <= k < written.len() && !blank(#[trigger] read_line(written, k)) ==> exists|n: int|
                0 <= n < lines@.len() && (#[trigger] lines@[n]).index == k,
{
    lemma_lines_are_split(written);
    let split = split_lines(text@);
    lemma_filled(split);
    let views = list_views(lines@);
    assert forall|n: int| 0 <= n < lines@.len() implies {
        let line = #[trigger] lines@[n];
        &&& line.index < written.len()
        &&& line.text@ == read_line(written, line.index as int)
        &&& !blank(line.text@)
    } by {
        assert(views[n] == (lines@[n].index as nat, lines@[n].text@));
        assert(split[lines@[n].index as int] == read_line(written, lines@[n].index as int));
    }
    assert forall|m: int, n: int| 0 <= m < n < lines@.len() implies (#[trigger] lines@[m]).index < (
    #[trigger] lines@[n]).index by {
        assert(views[m].0 < views[n].0);
    }
    assert forall|k: int|
        0 <= k < written.len() && !blank(#[trigger] read_line(written, k)) implies exists|n: int|
        0 <= n < lines@.len() && (#[trigger] lines@[n]).index == k by {
        assert(split[k] == read_line(written, k));
        assert(views.contains((k as nat, split[k])));
        let n = choose|n: int| 0 <= n < views.len() && views[n] == (k as nat, split[k]);
        assert(lines@[n].index == k);
    }
}

/// The entries of a list are all that were read, in order; the first line that could not be read
/// makes the list corrupt, and is told of by its number, counted from one.
pub proof fn law_list_is_read_whole_or_not_at_all(
    path: &str,
    lines: Vec<ListLine>,
    parsed: Vec<Result<ReservationLedgerEntry, String>>,
    entries: Result<Vec<ReservationLedgerEntry>, SchedulerError>,
)
    requires
        lines@.len() == parsed@.len(),
        call_ensures(gather_entries, (path, &lines, parsed), entries),
    ensures
        entries is Ok <==> forall|i: int| 0 <= i < parsed@.len() ==> (#[trigger] parsed@[i]) is Ok,
        entries is Ok ==> entries->Ok_0@.len() == parsed@.len() && forall|i: int|
            0 <= i < parsed@.len() ==> (#[trigger] parsed@[i])->Ok_0 == entries->Ok_0@[i],
        entries is Err ==> exists|at: int|
            {
                &&& 0 <= at < parsed@.len()
                &&& (#[trigger] parsed@[at]) is Err
                &&& forall|i: int| 0 <= i < at ==> (#[trigger] parsed@[i]) is Ok
                &&& entries->Err_0 is Corrupt
                &&& entries->Err_0->Corrupt_path@ == path@
                &&& entries->Err_0->Corrupt_message@ == "reservation ledger line "@ + dec(
                    (lines@[at].index + 1) as nat,
                ) + ": "@ + parsed@[at]->Err_0@
            },
{
    if entries is Ok {
        assert forall|i: int| 0 <= i < parsed@.len() implies (#[trigger] parsed@[i])->Ok_0
            == entries->Ok_0@[i] && parsed@[i] is Ok by {
            assert(parsed@[i] == Ok::<ReservationLedgerEntry, String>(entries->Ok_0@[i]));
        }
    }
}

} // verus!
