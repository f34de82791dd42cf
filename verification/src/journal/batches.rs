//! What the segments of a journal hold after batches were written to it.
use super::segments::{AppendPlan, Journal, oversized, plan_of};
use crate::time::Timestamp;
use vstd::prelude::*;

verus! {

/// A segment: when it was begun, the batches that were written to it and acknowledged, and what a
/// write that failed left behind them.
pub struct Segment {
    pub path: Seq<char>,
    pub day: int,
    pub batches: Seq<Seq<u8>>,
    pub torn: Seq<u8>,
}

/// A journal with its segments. `header` is the size of the row that each of them begins with.
pub struct Volume {
    pub journal: Journal,
    pub segments: Seq<Segment>,
    pub header: u64,
}

/// What came of writing a batch.
pub enum WriteEnd {
    /// All of it was written and stays.
    Written,
    /// No new segment could be begun.
    NotBegun,
    /// The write failed, and these bytes are there.
    Torn(Seq<u8>),
}

/// A batch that is to be written. `path` is the name that a new segment gets if one is begun.
pub struct Attempt {
    pub events: nat,
    pub batch: Seq<u8>,
    pub now: Timestamp,
    pub path: String,
    pub end: WriteEnd,
}

/// The bytes of batches.
pub open spec fn flat(batches: Seq<Seq<u8>>) -> Seq<u8>
    decreases batches.len(),
{
    if batches.len() == 0 {
        Seq::empty()
    } else {
        flat(batches.drop_last()) + batches.last()
    }
}

/// The batches of segments, in order.
pub open spec fn all_batches(segments: Seq<Segment>) -> Seq<Seq<u8>>
    decreases segments.len(),
{
    if segments.len() == 0 {
        Seq::empty()
    } else {
        all_batches(segments.drop_last()) + segments.last().batches
    }
}

/// A size, at most what 64 bits hold.
pub open spec fn capped(size: int) -> u64 {
    if size <= u64::MAX {
        size as u64
    } else {
        u64::MAX
    }
}

impl Segment {
    /// What stands in the file.
    pub open spec fn contents(self, header: Seq<u8>) -> Seq<u8> {
        header + flat(self.batches) + self.torn
    }

    pub open spec fn with_batch(self, batch: Seq<u8>) -> Segment {
        Segment { batches: self.batches.push(batch), ..self }
    }

    pub open spec fn with_rest(self, rest: Seq<u8>) -> Segment {
        Segment { torn: rest, ..self }
    }
}

impl Volume {
    /// What is known of the journal agrees with its segments.
    pub open spec fn sound(self) -> bool {
        let last = self.segments.last();
        &&& self.journal.rotation is Some
        &&& self.segments.len() > 0
        &&& last.path == self.journal.path@
        &&& self.journal.has_events <==> last.batches.len() > 0
        &&& self.journal.bytes == capped(self.header + flat(last.batches).len())
        &&& forall|i: int|
            0 <= i < self.segments.len() ==> (#[trigger] self.segments[i]).day
                <= self.journal.rotation->0.date.day
        &&& exists|i: int|
            0 <= i < self.segments.len() && (#[trigger] self.segments[i]).day
                == self.journal.rotation->0.date.day
        &&& forall|i: int|
            0 <= i < self.segments.len() - 1 ==> (#[trigger] self.segments[i]).torn.len() == 0
        &&& !self.journal.poisoned ==> last.torn.len() == 0
    }

    /// The volume whose journal failed.
    pub open spec fn failed(self) -> Volume {
        Volume { journal: Journal { poisoned: true, ..self.journal }, ..self }
    }

    /// The volume with a segment more.
    pub open spec fn with_segment(self, path: String, now: Timestamp) -> Volume {
        Volume {
            journal: self.journal.in_segment(path, self.header, now),
            segments: self.segments.push(
                Segment {
                    path: path@,
                    day: now.day_number(),
                    batches: Seq::empty(),
                    torn: Seq::empty(),
                },
            ),
            ..self
        }
    }

    pub open spec fn with_last(self, segment: Segment) -> Volume {
        Volume { segments: self.segments.update(self.segments.len() - 1, segment), ..self }
    }

    /// The volume after the write of a batch behind the others, and whether it succeeded.
    pub open spec fn written(self, attempt: Attempt) -> (Volume, bool) {
        let last = self.segments.last();
        match attempt.end {
            WriteEnd::Written => (
                Volume {
                    journal: self.journal.with_batch(attempt.batch.len() as u64),
                    ..self.with_last(last.with_batch(attempt.batch))
                },
                true,
            ),
            WriteEnd::NotBegun => (self.failed(), false),
            WriteEnd::Torn(rest) => (self.with_last(last.with_rest(rest)).failed(), false),
        }
    }

    /// The volume after a batch was to be written, and whether that succeeded.
    pub open spec fn attempted(self, attempt: Attempt) -> (Volume, bool) {
        if self.journal.poisoned {
            (self, false)
        } else {
            match plan_of(
                self.journal,
                attempt.events,
                attempt.batch.len() as u64,
                attempt.now,
            ) {
                AppendPlan::Nothing => (self, true),
                AppendPlan::Write => self.written(attempt),
                AppendPlan::Rotate => if attempt.end is NotBegun {
                    (self.failed(), false)
                } else {
                    self.with_segment(attempt.path, attempt.now).written(attempt)
                },
            }
        }
    }
}

/// An attempt that can be made: the batch has a size that can be told, the clock tells a day that
/// can be told, and a new segment gets a new name.
pub open spec fn possible(volume: Volume, attempt: Attempt) -> bool {
    &&& attempt.batch.len() <= u64::MAX
    &&& i128::MIN <= attempt.now.day_number() <= i128::MAX
    &&& forall|i: int|
        0 <= i < volume.segments.len() ==> (#[trigger] volume.segments[i]).path
            != attempt.path@
}

proof fn lemma_flat_push(batches: Seq<Seq<u8>>, batch: Seq<u8>)
    ensures
        flat(batches.push(batch)) == flat(batches) + batch,
{
    assert(batches.push(batch).drop_last() =~= batches);
}

proof fn lemma_all_batches_update(segments: Seq<Segment>, segment: Segment)
    requires
        segments.len() > 0,
    ensures
        all_batches(segments.update(segments.len() - 1, segment)) == all_batches(
            segments.drop_last(),
        ) + segment.batches,
{
    assert(segments.update(segments.len() - 1, segment).drop_last() =~= segments.drop_last());
}

proof fn lemma_with_segment(volume: Volume, path: String, now: Timestamp)
    requires
        volume.sound(),
        !volume.journal.poisoned,
        i128::MIN <= now.day_number() <= i128::MAX,
    ensures
        volume.with_segment(path, now).sound(),
        !volume.with_segment(path, now).journal.poisoned,
        all_batches(volume.with_segment(path, now).segments) == all_batches(volume.segments),
{
    let after = volume.with_segment(path, now);
    assert(after.segments.drop_last() =~= volume.segments);
    assert(all_batches(after.segments) =~= all_batches(volume.segments));
    let old_day = volume.journal.rotation->0.date.day;
    let at = choose|i: int|
        0 <= i < volume.segments.len() && (#[trigger] volume.segments[i]).day == old_day;
    assert(after.segments[at] == volume.segments[at]);
    assert(after.segments[volume.segments.len() as int].day == now.day_number());
    assert forall|i: int| 0 <= i < after.segments.len() implies (#[trigger] after.segments[i]).day
        <= after.journal.rotation->0.date.day by {
        if i < volume.segments.len() {
            assert(after.segments[i] == volume.segments[i]);
        }
    }
    assert forall|i: int| 0 <= i < after.segments.len() - 1 implies (
    #[trigger] after.segments[i]).torn.len() == 0 by {
        assert(after.segments[i] == volume.segments[i]);
    }
    assert(flat(Seq::<Seq<u8>>::empty()).len() == 0);
}

proof fn lemma_with_last(volume: Volume, segment: Segment)
    requires
        volume.sound(),
        segment.path == volume.segments.last().path,
        segment.day == volume.segments.last().day,
    ensures
        ({
            let after = volume.with_last(segment);
            &&& after.segments.last() == segment
            &&& forall|i: int|
                0 <= i < after.segments.len() ==> (#[trigger] after.segments[i]).day
                    <= volume.journal.rotation->0.date.day
            &&& exists|i: int|
                0 <= i < after.segments.len() && (#[trigger] after.segments[i]).day
                    == volume.journal.rotation->0.date.day
            &&& forall|i: int|
                0 <= i < after.segments.len() - 1 ==> #[trigger] after.segments[i]
                    == volume.segments[i]
        }),
{
    let after = volume.with_last(segment);
    let at = choose|i: int|
        0 <= i < volume.segments.len() && (#[trigger] volume.segments[i]).day
            == volume.journal.rotation->0.date.day;
    assert(after.segments[at].day == volume.segments[at].day);
    assert forall|i: int| 0 <= i < after.segments.len() implies (#[trigger] after.segments[i]).day
        <= volume.journal.rotation->0.date.day by {
        assert(after.segments[i].day == volume.segments[i].day);
    }
}

proof fn lemma_written(volume: Volume, attempt: Attempt)
    requires
        volume.sound(),
        !volume.journal.poisoned,
        attempt.batch.len() <= u64::MAX,
    ensures
        ({
            let (after, done) = volume.written(attempt);
            &&& after.sound()
            &&& after.segments.len() == volume.segments.len()
            &&& forall|i: int|
                0 <= i < volume.segments.len() - 1 ==> #[trigger] after.segments[i]
                    == volume.segments[i]
            &&& after.segments.last().path == volume.segments.last().path
            &&& after.segments.last().day == volume.segments.last().day
            &&& after.journal.path == volume.journal.path
            &&& done ==> {
                &&& after.segments.last() == volume.segments.last().with_batch(attempt.batch)
                &&& all_batches(after.segments) == all_batches(volume.segments).push(
                    attempt.batch,
                )
                &&& !after.journal.poisoned
            }
            &&& !done ==> {
                &&& after.segments.last().batches == volume.segments.last().batches
                &&& all_batches(after.segments) == all_batches(volume.segments)
                &&& after.journal.poisoned
            }
        }),
{
    let last = volume.segments.last();
    let (after, done) = volume.written(attempt);
    match attempt.end {
        WriteEnd::Written => {
            lemma_with_last(volume, last.with_batch(attempt.batch));
            lemma_flat_push(last.batches, attempt.batch);
            lemma_all_batches_update(volume.segments, last.with_batch(attempt.batch));
            assert(all_batches(after.segments) =~= all_batches(volume.segments).push(
                attempt.batch,
            ));
        },
        WriteEnd::NotBegun => {},
        WriteEnd::Torn(rest) => {
            lemma_with_last(volume, last.with_rest(rest));
            lemma_all_batches_update(volume.segments, last.with_rest(rest));
        },
    }
}

/// A batch that is acknowledged is in the journal, whole and behind all others, in the segment
/// that the journal then names; an empty one changes nothing. The journal names another segment
/// exactly when the day is later than that of every segment, or when the segment holds a batch
/// already and would become too large. What other segments hold stays as it is.
pub proof fn law_acknowledged_batch_is_kept(volume: Volume, attempt: Attempt, header: Seq<u8>)
    requires
        volume.sound(),
        possible(volume, attempt),
        volume.attempted(attempt).1,
    ensures
        ({
            let after = volume.attempted(attempt).0;
            let last = volume.segments.last();
            let size = attempt.batch.len() as u64;
            &&& after.sound()
            &&& attempt.events == 0 ==> after == volume
            &&& attempt.events > 0 ==> {
                &&& after.journal.path@ != volume.journal.path@ <==> {
                    ||| forall|i: int|
                        0 <= i < volume.segments.len() ==> attempt.now.day_number() > (
                        #[trigger] volume.segments[i]).day
                    ||| last.batches.len() > 0 && oversized(
                        volume.journal.bytes,
                        size,
                        volume.journal.rotation->0.max_bytes,
                    )
                }
                &&& after.segments.last().path == after.journal.path@
                &&& all_batches(after.segments) == all_batches(volume.segments).push(
                    attempt.batch,
                )
                &&& if after.journal.path@ == volume.journal.path@ {
                    &&& after.segments.len() == volume.segments.len()
                    &&& after.segments.last().contents(header) == last.contents(header)
                        + attempt.batch
                    &&& forall|i: int|
                        0 <= i < volume.segments.len() - 1 ==> #[trigger] after.segments[i]
                            == volume.segments[i]
                } else {
                    &&& after.segments.len() == volume.segments.len() + 1
                    &&& after.segments.last().contents(header) == header + attempt.batch
                    &&& forall|i: int|
                        0 <= i < volume.segments.len() ==> #[trigger] after.segments[i]
                            == volume.segments[i]
                }
            }
        }),
{
    let after = volume.attempted(attempt).0;
    let last = volume.segments.last();
    let size = attempt.batch.len() as u64;
    if attempt.events > 0 {
        let plan = plan_of(volume.journal, attempt.events, size, attempt.now);
        let newest = choose|i: int|
            0 <= i < volume.segments.len() && (#[trigger] volume.segments[i]).day
                == volume.journal.rotation->0.date.day;
        assert(volume.segments[newest].day == volume.journal.rotation->0.date.day);
        assert(volume.segments[volume.segments.len() - 1].path != attempt.path@);
        if plan == AppendPlan::Write {
            lemma_written(volume, attempt);
            lemma_flat_push(last.batches, attempt.batch);
            assert(after.segments.last().contents(header) =~= last.contents(header)
                + attempt.batch);
        } else {
            let begun = volume.with_segment(attempt.path, attempt.now);
            lemma_with_segment(volume, attempt.path, attempt.now);
            lemma_written(begun, attempt);
            lemma_flat_push(Seq::empty(), attempt.batch);
            assert(flat(Seq::<Seq<u8>>::empty()) =~= Seq::empty());
            assert(after.segments.last().contents(header) =~= header + attempt.batch);
            assert forall|i: int| 0 <= i < volume.segments.len() implies #[trigger] after.segments[i]
                == volume.segments[i] by {
                assert(begun.segments[i] == volume.segments[i]);
            }
        }
    }
}

/// Batches are written one after the other: `volumes` are the volumes before each of them and
/// after the last.
pub open spec fn batches_attempted(volumes: Seq<Volume>, attempts: Seq<Attempt>) -> bool {
    &&& volumes.len() == attempts.len() + 1
    &&& volumes[0].sound()
    &&& forall|j: int|
        0 <= j < attempts.len() ==> {
            &&& possible(volumes[j], #[trigger] attempts[j])
            &&& volumes[j + 1] == volumes[j].attempted(attempts[j]).0
        }
}

/// The batches with events that were acknowledged among the first attempts, in order.
pub open spec fn acknowledged(volumes: Seq<Volume>, attempts: Seq<Attempt>, first: int) -> Seq<
    Seq<u8>,
>
    decreases first,
{
    if first <= 0 {
        Seq::empty()
    } else {
        let before = acknowledged(volumes, attempts, first - 1);
        let attempt = attempts[first - 1];
        if attempt.events > 0 && volumes[first - 1].attempted(attempt).1 {
            before.push(attempt.batch)
        } else {
            before
        }
    }
}

proof fn lemma_attempt(volume: Volume, attempt: Attempt)
    requires
        volume.sound(),
        possible(volume, attempt),
    ensures
        ({
            let (after, done) = volume.attempted(attempt);
            &&& after.sound()
            &&& !done ==> after.journal.poisoned
            &&& all_batches(after.segments) == if done && attempt.events > 0 {
                all_batches(volume.segments).push(attempt.batch)
            } else {
                all_batches(volume.segments)
            }
            &&& volume.segments.len() <= after.segments.len()
            &&& forall|s: int|
                0 <= s < volume.segments.len() ==> (#[trigger] volume.segments[s].batches).is_prefix_of(
                    after.segments[s].batches,
                ) && volume.segments[s].path == after.segments[s].path
        }),
{
    let (after, done) = volume.attempted(attempt);
    if !volume.journal.poisoned && attempt.events > 0 {
        let size = attempt.batch.len() as u64;
        let plan = plan_of(volume.journal, attempt.events, size, attempt.now);
        if plan == AppendPlan::Write {
            lemma_written(volume, attempt);
            assert forall|s: int| 0 <= s < volume.segments.len() implies (
            #[trigger] volume.segments[s].batches).is_prefix_of(after.segments[s].batches)
                && volume.segments[s].path == after.segments[s].path by {
                if s < volume.segments.len() - 1 {
                    assert(after.segments[s] == volume.segments[s]);
                } else {
                    assert(after.segments[s] == after.segments.last());
                }
            }
        } else if !(attempt.end is NotBegun) {
            let begun = volume.with_segment(attempt.path, attempt.now);
            lemma_with_segment(volume, attempt.path, attempt.now);
            lemma_written(begun, attempt);
            assert forall|s: int| 0 <= s < volume.segments.len() implies (
            #[trigger] volume.segments[s].batches).is_prefix_of(after.segments[s].batches)
                && volume.segments[s].path == after.segments[s].path by {
                assert(begun.segments[s] == volume.segments[s]);
                assert(after.segments[s] == begun.segments[s]);
            }
        }
    }
}

proof fn lemma_attempts(volumes: Seq<Volume>, attempts: Seq<Attempt>, i: int, k: int)
    requires
        batches_attempted(volumes, attempts),
        0 <= i <= k <= attempts.len(),
    ensures
        volumes[k].sound(),
        all_batches(volumes[k].segments) == all_batches(volumes[0].segments) + acknowledged(
            volumes,
            attempts,
            k,
        ),
        volumes[i].journal.poisoned ==> volumes[k] == volumes[i],
        volumes[i].segments.len() <= volumes[k].segments.len(),
        forall|s: int|
            0 <= s < volumes[i].segments.len() ==> (
            #[trigger] volumes[i].segments[s].batches).is_prefix_of(
                volumes[k].segments[s].batches,
            ) && volumes[i].segments[s].path == volumes[k].segments[s].path,
    decreases k,
{
    if k == 0 {
        assert(all_batches(volumes[0].segments) + acknowledged(volumes, attempts, 0)
            =~= all_batches(volumes[0].segments));
    } else {
        let j = k - 1;
        if i <= j {
            lemma_attempts(volumes, attempts, i, j);
        } else {
            lemma_attempts(volumes, attempts, j, j);
        }
        assert(possible(volumes[j], attempts[j]));
        lemma_attempt(volumes[j], attempts[j]);
        assert(all_batches(volumes[k].segments) =~= all_batches(volumes[0].segments)
            + acknowledged(volumes, attempts, k));
        if i <= j {
            assert forall|s: int| 0 <= s < volumes[i].segments.len() implies (
            #[trigger] volumes[i].segments[s].batches).is_prefix_of(
                volumes[k].segments[s].batches,
            ) && volumes[i].segments[s].path == volumes[k].segments[s].path by {
                assert(volumes[j].segments[s].batches.is_prefix_of(
                    volumes[k].segments[s].batches,
                ));
            }
        }
    }
}

/// After any number of batches, the segments hold those that were acknowledged, each once and in
/// order, and none has left its segment. Once a batch failed, every later one is refused, also an
/// empty one, and nothing more is written.
pub proof fn law_failed_journal_refuses_and_keeps(
    volumes: Seq<Volume>,
    attempts: Seq<Attempt>,
    i: int,
    k: int,
)
    requires
        batches_attempted(volumes, attempts),
        0 <= i < k <= attempts.len(),
    ensures
        all_batches(volumes[k].segments) == all_batches(volumes[0].segments) + acknowledged(
            volumes,
            attempts,
            k,
        ),
        volumes[i].segments.len() <= volumes[k].segments.len(),
        forall|s: int|
            0 <= s < volumes[i].segments.len() ==> (
            #[trigger] volumes[i].segments[s].batches).is_prefix_of(
                volumes[k].segments[s].batches,
            ) && volumes[i].segments[s].path == volumes[k].segments[s].path,
        !volumes[i].attempted(attempts[i]).1 ==> {
            &&& volumes[k].journal.poisoned
            &&& volumes[k] == volumes[i + 1]
            &&& k < attempts.len() ==> !volumes[k].attempted(attempts[k]).1
                && volumes[k + 1] == volumes[k]
        },
{
    lemma_attempts(volumes, attempts, i, k);
    lemma_attempts(volumes, attempts, i + 1, k);
    assert(possible(volumes[i], attempts[i]));
    lemma_attempts(volumes, attempts, i, i);
    lemma_attempt(volumes[i], attempts[i]);
    if k < attempts.len() {
        assert(possible(volumes[k], attempts[k]));
    }
}

} // verus!
