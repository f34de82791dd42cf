//! What holds of a plan: which instants it takes, and that it leaves none out without need.
use super::plan::{
    PlanInput, earliest_start, half, jitter_width, lemma_sampled_bounds, plan, stratum, xorshift,
};
use crate::time::{Duration, Timestamp, MAX_UTC_NANOS, NANOS_PER_DAY};
use vstd::prelude::*;

verus! {

/// The instant from which on tests may be planned: the latest of the start of the time, the end of
/// a cooldown and the end of the spacing behind the last start.
pub open spec fn opens_at(
    earliest: Timestamp,
    last_started: Option<Timestamp>,
    cooldown: Option<Timestamp>,
    spacing: Duration,
    start: Timestamp,
) -> bool {
    &&& earliest.nanos >= start.nanos
    &&& cooldown is Some ==> earliest.nanos >= cooldown->0.nanos
    &&& last_started is Some ==> earliest.nanos >= last_started->0.nanos + spacing.nanos
    &&& {
        ||| earliest.nanos == start.nanos
        ||| cooldown is Some && earliest.nanos == cooldown->0.nanos
        ||| last_started is Some && earliest.nanos == last_started->0.nanos + spacing.nanos
    }
}

/// Milliseconds from one instant to another, one at least.
pub open spec fn millis_between(from: Timestamp, to: Timestamp) -> int {
    if to.nanos - from.nanos >= 2_000_000 {
        (to.nanos - from.nanos) / 1_000_000
    } else {
        1
    }
}

/// The instant of one of `count` equal parts of `total` milliseconds behind `earliest`: the middle
/// of the part, moved at random by no more than `jitter_pct` percent of the part in all. `before`
/// and `draw` are the random numbers before it and after it; a part that cannot be moved takes
/// none.
pub open spec fn stands_in_part(
    at: int,
    before: u64,
    draw: u64,
    earliest: Timestamp,
    total: int,
    count: int,
    i: int,
    jitter_pct: u8,
) -> bool {
    let from = total * i / count;
    let to = total * (i + 1) / count;
    let width = if to > from {
        to - from
    } else {
        1
    };
    let free = width * jitter_pct / 100;
    let middle = earliest.nanos + (from + (width - free) / 2) * 1_000_000;
    if free == 0 {
        draw == before && at == middle
    } else {
        draw == xorshift(before) && at == middle + (draw as int % free) * 1_000_000
    }
}

/// One instant for each of `count` equal parts of the time between `earliest` and `end`, and the
/// random numbers after each of them.
pub open spec fn one_in_each_part(
    at: Seq<int>,
    draws: Seq<u64>,
    rng: u64,
    earliest: Timestamp,
    end: Timestamp,
    jitter_pct: u8,
    count: u32,
) -> bool {
    &&& at.len() == count
    &&& draws.len() == count
    &&& forall|i: int|
        0 <= i < count ==> stands_in_part(
            #[trigger] at[i],
            if i == 0 {
                rng
            } else {
                draws[i - 1]
            },
            draws[i],
            earliest,
            millis_between(earliest, end),
            count as int,
            i,
            jitter_pct,
        )
}

/// The instant is in the plan, or it may not be: it is not before the end, or it is in the spacing
/// behind one that is in the plan.
pub open spec fn taken_or_crowded(
    slots: Seq<Timestamp>,
    at: int,
    spacing: Duration,
    end: Timestamp,
) -> bool {
    ||| at >= end.nanos
    ||| exists|k: int| 0 <= k < slots.len() && (#[trigger] slots[k]).nanos == at
    ||| exists|k: int|
        0 <= k < slots.len() && (#[trigger] slots[k]).nanos <= at < slots[k].nanos + spacing.nanos
}

/// The plan takes an instant exactly where it may: before the end, and not in the spacing behind
/// one that was taken before it. Nothing else is in the plan, and it is in order.
pub open spec fn takes_what_fits(
    slots: Seq<Timestamp>,
    at: Seq<int>,
    spacing: Duration,
    end: Timestamp,
) -> bool {
    &&& forall|k: int| 0 <= k < slots.len() ==> at.contains((#[trigger] slots[k]).nanos as int)
    &&& forall|k: int|
        0 <= k < slots.len() - 1 ==> (#[trigger] slots[k]).nanos + spacing.nanos <= slots[k
            + 1].nanos
    &&& forall|i: int|
        0 <= i < at.len() ==> taken_or_crowded(slots, #[trigger] at[i], spacing, end)
}

proof fn lemma_opens_at(
    earliest: Timestamp,
    last_started: Option<Timestamp>,
    cooldown: Option<Timestamp>,
    spacing: Duration,
    start: Timestamp,
)
    requires
        opens_at(earliest, last_started, cooldown, spacing, start),
        earliest.nanos <= MAX_UTC_NANOS,
    ensures
        earliest_start(last_started, cooldown, spacing, start) == earliest,
{
}

/// The time as an input of the plan can be used: it is not empty and at most a day.
spec fn usable(input: PlanInput) -> bool {
    &&& input.earliest.valid()
    &&& input.end.valid()
    &&& input.earliest.nanos < input.end.nanos
    &&& input.end.nanos - input.earliest.nanos <= NANOS_PER_DAY
    &&& input.jitter_pct <= 100
    &&& input.count > 0
}

spec fn instants(input: PlanInput, rng: u64) -> Seq<int> {
    Seq::new(
        input.count as nat,
        |i: int| input.candidate(i, input.planned(rng, (i + 1) as nat).1),
    )
}

spec fn drawn(input: PlanInput, rng: u64) -> Seq<u64> {
    Seq::new(input.count as nat, |i: int| input.planned(rng, (i + 1) as nat).1)
}

proof fn lemma_one_in_each_part(input: PlanInput, rng: u64)
    requires
        usable(input),
    ensures
        one_in_each_part(
            instants(input, rng),
            drawn(input, rng),
            rng,
            input.earliest,
            input.end,
            input.jitter_pct,
            input.count,
        ),
{
    let total = millis_between(input.earliest, input.end);
    let count = input.count as int;
    let at = instants(input, rng);
    let draws = drawn(input, rng);
    assert(total == input.total());
    assert forall|i: int| 0 <= i < count implies stands_in_part(
        #[trigger] at[i],
        if i == 0 {
            rng
        } else {
            draws[i - 1]
        },
        draws[i],
        input.earliest,
        total,
        count,
        i,
        input.jitter_pct,
    ) by {
        let from = total * i / count;
        let to = total * (i + 1) / count;
        let width = if to > from {
            to - from
        } else {
            1
        };
        let pct = input.jitter_pct as int;
        assert(0 <= width * pct <= width * 100) by (nonlinear_arith)
            requires
                0 <= pct <= 100,
                width >= 1,
        ;
        assert(stratum(total, count, i) == (from, width));
        let before = input.planned(rng, i as nat).1;
        assert(i > 0 ==> draws[i - 1] == before);
        assert(draws[i] == input.planned(rng, (i + 1) as nat).1);
    }
}

/// The instants of two parts are in order, whatever is drawn.
proof fn lemma_parts_ascend(input: PlanInput, rng: u64, i: int)
    requires
        usable(input),
        0 <= i,
        i + 1 < input.count,
    ensures
        instants(input, rng)[i] <= instants(input, rng)[i + 1],
{
    let total = input.total();
    let count = input.count as int;
    let here = input.planned(rng, (i + 1) as nat).1;
    let next = input.planned(rng, (i + 2) as nat).1;
    lemma_sampled_bounds(input, i, here);
    lemma_sampled_bounds(input, i + 1, next);
    let pct = input.jitter_pct as int;
    let (start, width) = stratum(total, count, i);
    assert(start <= total * (i + 1) / count) by (nonlinear_arith)
        requires
            start == total * i / count,
            total >= 1,
            count > 0,
    ;
    assert(instants(input, rng)[i] == input.candidate(i, here));
    assert(instants(input, rng)[i + 1] == input.candidate(i + 1, next));
}

proof fn lemma_stays_taken(
    before: Seq<Timestamp>,
    after: Seq<Timestamp>,
    at: int,
    spacing: Duration,
    end: Timestamp,
)
    requires
        taken_or_crowded(before, at, spacing, end),
        before.len() <= after.len(),
        forall|k: int| 0 <= k < before.len() ==> #[trigger] after[k] == before[k],
    ensures
        taken_or_crowded(after, at, spacing, end),
{
    if at < end.nanos {
        if exists|k: int| 0 <= k < before.len() && (#[trigger] before[k]).nanos == at {
            let k = choose|k: int| 0 <= k < before.len() && (#[trigger] before[k]).nanos == at;
            assert(after[k] == before[k]);
        } else {
            let k = choose|k: int|
                0 <= k < before.len() && (#[trigger] before[k]).nanos <= at < before[k].nanos
                    + spacing.nanos;
            assert(after[k] == before[k]);
        }
    }
}

#[verifier::spinoff_prover]
#[verifier::rlimit(40)]
proof fn lemma_takes_what_fits(input: PlanInput, rng: u64, n: nat)
    requires
        usable(input),
        n <= input.count,
    ensures
        takes_what_fits(
            input.planned(rng, n).0,
            instants(input, rng).take(n as int),
            input.spacing,
            input.end,
        ),
        forall|k: int|
            0 <= k < input.planned(rng, n).0.len() ==> (
            #[trigger] input.planned(rng, n).0[k]).nanos < input.end.nanos,
        n == 0 ==> input.planned(rng, n).0.len() == 0,
        input.planned(rng, n).0.len() > 0 ==> input.planned(rng, n).0.last().nanos <= instants(
            input,
            rng,
        )[n - 1],
    decreases n,
{
    let all = instants(input, rng);
    if n > 0 {
        let m = (n - 1) as nat;
        lemma_takes_what_fits(input, rng, m);
        let before = input.planned(rng, m).0;
        let after = input.planned(rng, n).0;
        let held = all.take(m as int);
        let at = all.take(n as int);
        let here = all[m as int];
        if m > 0 {
            lemma_parts_ascend(input, rng, m - 1);
        }
        lemma_sampled_bounds(input, m as int, input.planned(rng, n).1);
        assert(at =~= held.push(here));
        assert(here == input.candidate(m as int, input.planned(rng, n).1));
        assert forall|k: int| 0 <= k < before.len() implies #[trigger] after[k] == before[k] by {}
        assert forall|k: int| 0 <= k < after.len() implies at.contains(
            (#[trigger] after[k]).nanos as int,
        ) by {
            if k < before.len() {
                assert(after[k] == before[k]);
                assert(held.contains(before[k].nanos as int));
                let j = choose|j: int| 0 <= j < held.len() && held[j] == before[k].nanos as int;
                assert(at[j] == after[k].nanos as int);
            } else {
                assert(at[m as int] == after[k].nanos as int);
            }
        }
        assert forall|k: int| 0 <= k < after.len() - 1 implies (#[trigger] after[k]).nanos
            + input.spacing.nanos <= after[k + 1].nanos by {
            assert(after[k] == before[k]);
            if k + 1 < before.len() {
                assert(after[k + 1] == before[k + 1]);
            }
        }
        assert forall|i: int| 0 <= i < at.len() implies taken_or_crowded(
            after,
            #[trigger] at[i],
            input.spacing,
            input.end,
        ) by {
            if i < m {
                assert(at[i] == held[i]);
                lemma_stays_taken(before, after, at[i], input.spacing, input.end);
            } else if at[i] < input.end.nanos {
                if after.len() > before.len() {
                    assert(after[after.len() - 1].nanos == at[i]);
                } else {
                    assert(before.last().nanos <= here);
                    assert(after[after.len() - 1] == before.last());
                }
            }
        }
    }
}

/// A plan has a test wherever one fits. The time that is left is cut into as many parts as tests
/// are wanted; each part has one instant, its middle, moved at random within the given share of
/// the part. Every such instant before the end is in the plan unless a test that was planned
/// before it is less than the minimum spacing away, and nothing else is in the plan.
pub proof fn law_plan_takes_what_fits(
    rng: u64,
    last_started: Option<Timestamp>,
    cooldown: Option<Timestamp>,
    spacing: Duration,
    jitter_pct: u8,
    start: Timestamp,
    end: Timestamp,
    count: u32,
    earliest: Timestamp,
) -> (found: (Seq<int>, Seq<u64>))
    requires
        start.valid(),
        end.valid(),
        end.nanos - start.nanos <= NANOS_PER_DAY,
        jitter_pct <= 100,
        count > 0,
        opens_at(earliest, last_started, cooldown, spacing, start),
        earliest.nanos < end.nanos,
    ensures
        ({
            let (slots, next) = plan(
                rng,
                last_started,
                cooldown,
                spacing,
                jitter_pct,
                start,
                end,
                count,
            );
            let (at, draws) = found;
            &&& one_in_each_part(at, draws, rng, earliest, end, jitter_pct, count)
            &&& takes_what_fits(slots, at, spacing, end)
            &&& next == draws.last()
            &&& forall|k: int|
                0 <= k < slots.len() ==> earliest.nanos <= (#[trigger] slots[k]).nanos < end.nanos
        }),
{
    let input = PlanInput { earliest, end, count, jitter_pct, spacing };
    lemma_opens_at(earliest, last_started, cooldown, spacing, start);
    lemma_one_in_each_part(input, rng);
    lemma_takes_what_fits(input, rng, count as nat);
    let at = instants(input, rng);
    assert(at.take(count as int) =~= at);
    super::plan::law_planned_slots(
        rng,
        last_started,
        cooldown,
        spacing,
        jitter_pct,
        start,
        end,
        count,
    );
    (at, drawn(input, rng))
}

/// Where no test may start before the time is over, or none is wanted, nothing is planned.
pub proof fn law_nothing_is_planned_without_time(
    rng: u64,
    last_started: Option<Timestamp>,
    cooldown: Option<Timestamp>,
    spacing: Duration,
    jitter_pct: u8,
    start: Timestamp,
    end: Timestamp,
    count: u32,
)
    requires
        end.valid(),
        count == 0 || start.nanos >= end.nanos || (cooldown is Some && cooldown->0.nanos
            >= end.nanos) || (last_started is Some && last_started->0.nanos + spacing.nanos
            >= end.nanos),
    ensures
        ({
            let (slots, next) = plan(
                rng,
                last_started,
                cooldown,
                spacing,
                jitter_pct,
                start,
                end,
                count,
            );
            slots.len() == 0 && next == rng
        }),
{
}

/// A part of equal parts is as wide as the others, give or take a millisecond.
proof fn lemma_part_width(total: int, count: int, i: int)
    requires
        total >= 0,
        count > 0,
        0 <= i < count,
    ensures
        total / count <= total * (i + 1) / count - total * i / count <= total / count + 1,
{
    let q = total / count;
    let r = total % count;
    vstd::arithmetic::div_mod::lemma_fundamental_div_mod(total, count);
    assert(total * i == count * (q * i) + r * i) by (nonlinear_arith)
        requires
            total == count * q + r,
    ;
    assert(total * (i + 1) == count * (q * (i + 1)) + r * (i + 1)) by (nonlinear_arith)
        requires
            total == count * q + r,
    ;
    vstd::arithmetic::div_mod::lemma_hoist_over_denominator(r * i, q * i, count as nat);
    vstd::arithmetic::div_mod::lemma_hoist_over_denominator(
        r * (i + 1),
        q * (i + 1),
        count as nat,
    );
    assert(q * (i + 1) == q * i + q) by (nonlinear_arith);
    assert(r * (i + 1) == r * i + r) by (nonlinear_arith);
    let a = r * i;
    let b = r * i + r;
    assert(a / count <= b / count <= a / count + 1) by (nonlinear_arith)
        requires
            count > 0,
            0 <= r < count,
            b == a + r,
    ;
    assert(count * (q * i) == (q * i) * count) by (nonlinear_arith);
    assert(count * (q * (i + 1)) == (q * (i + 1)) * count) by (nonlinear_arith);
}

/// What of a part is left when it may be moved in a share of it grows with the part.
proof fn lemma_share(width: int, pct: int)
    requires
        width >= 1,
        0 <= pct <= 100,
    ensures
        0 <= width * pct / 100 <= width,
        width * pct / 100 <= (width + 1) * pct / 100 <= width * pct / 100 + 1,
{
    assert((width + 1) * pct == width * pct + pct) by (nonlinear_arith);
    assert(0 <= width * pct <= width * 100) by (nonlinear_arith)
        requires
            width >= 1,
            0 <= pct <= 100,
    ;
}

/// The whole plan stands where the spacing fits between two parts whatever is drawn.
spec fn roomy(input: PlanInput) -> bool {
    let width = input.total() / (input.count as int);
    &&& usable(input)
    &&& input.end.nanos - input.earliest.nanos >= 1_000_000
    &&& width >= 1
    &&& input.spacing.nanos <= (width - width * input.jitter_pct / 100 - 1) * 1_000_000
}

proof fn lemma_parts_are_apart(input: PlanInput, rng: u64, i: int)
    requires
        roomy(input),
        0 <= i,
        i + 1 < input.count,
    ensures
        instants(input, rng)[i] + input.spacing.nanos <= instants(input, rng)[i + 1],
{
    let total = input.total();
    let count = input.count as int;
    let pct = input.jitter_pct as int;
    let least = total / count;
    lemma_part_width(total, count, i);
    lemma_part_width(total, count, i + 1);
    lemma_share(least, pct);
    lemma_share(least + 1, pct);
    let (start, width) = stratum(total, count, i);
    let (after, wide) = stratum(total, count, i + 1);
    assert(after == start + width);
    let here = input.planned(rng, (i + 1) as nat).1;
    let next = input.planned(rng, (i + 2) as nat).1;
    let free = jitter_width(width, pct);
    let spare = jitter_width(wide, pct);
    assert(width == least || width == least + 1);
    assert(wide == least || wide == least + 1);
    assert(width - free >= least - least * pct / 100);
    assert(wide - spare >= width - free - 1);
    assert(half(wide - spare) >= half(width - free) - 1);
    if free != 0 {
        assert(0 <= here as int % free < free);
    }
    if spare != 0 {
        assert(0 <= next as int % spare < spare);
    }
    assert(instants(input, rng)[i] == input.candidate(i, here));
    assert(instants(input, rng)[i + 1] == input.candidate(i + 1, next));
}

proof fn lemma_every_part_is_taken(input: PlanInput, rng: u64, n: nat)
    requires
        roomy(input),
        n <= input.count,
    ensures
        input.planned(rng, n).0.len() == n,
        forall|k: int|
            0 <= k < n ==> (#[trigger] input.planned(rng, n).0[k]).nanos == instants(
                input,
                rng,
            )[k],
    decreases n,
{
    if n > 0 {
        let m = (n - 1) as nat;
        lemma_every_part_is_taken(input, rng, m);
        let draw = input.planned(rng, n).1;
        let before = input.planned(rng, m).0;
        lemma_sampled_bounds(input, m as int, draw);
        lemma_in_part(input, m as int, draw);
        assert(instants(input, rng)[m as int] == input.candidate(m as int, draw));
        if m > 0 {
            lemma_parts_are_apart(input, rng, m - 1);
            assert(before.last() == before[m - 1]);
        }
    }
}

/// An instant lies in its part, and so before the end.
proof fn lemma_in_part(input: PlanInput, i: int, draw: u64)
    requires
        roomy(input),
        0 <= i < input.count,
    ensures
        ({
            let total = input.total();
            let count = input.count as int;
            let at = input.candidate(i, draw);
            &&& input.earliest.nanos + total * i / count * 1_000_000 <= at
            &&& at < input.earliest.nanos + total * (i + 1) / count * 1_000_000
            &&& at < input.end.nanos
        }),
{
    let total = input.total();
    let count = input.count as int;
    lemma_sampled_bounds(input, i, draw);
    lemma_part_width(total, count, i);
    assert(total * (i + 1) / count <= total) by (nonlinear_arith)
        requires
            total >= 1,
            0 <= i < count,
    ;
}

/// Where the spacing fits between two parts whatever is drawn, a plan has as many tests as were
/// asked for, one in each part of the time in order. Without jitter each stands in the middle of
/// its part.
pub proof fn law_plan_has_a_test_in_every_part(
    rng: u64,
    last_started: Option<Timestamp>,
    cooldown: Option<Timestamp>,
    spacing: Duration,
    jitter_pct: u8,
    start: Timestamp,
    end: Timestamp,
    count: u32,
    earliest: Timestamp,
)
    requires
        start.valid(),
        end.valid(),
        end.nanos - start.nanos <= NANOS_PER_DAY,
        jitter_pct <= 100,
        count > 0,
        opens_at(earliest, last_started, cooldown, spacing, start),
        earliest.nanos + 1_000_000 <= end.nanos,
        ({
            let width = (end.nanos - earliest.nanos) / 1_000_000 / (count as int);
            &&& width >= 1
            &&& spacing.nanos <= (width - width * jitter_pct / 100 - 1) * 1_000_000
        }),
    ensures
        ({
            let slots = plan(
                rng,
                last_started,
                cooldown,
                spacing,
                jitter_pct,
                start,
                end,
                count,
            ).0;
            let total = (end.nanos - earliest.nanos) / 1_000_000;
            &&& slots.len() == count
            &&& forall|i: int|
                0 <= i < count ==> {
                    let from = total * i / (count as int);
                    let to = total * (i + 1) / (count as int);
                    let at = (#[trigger] slots[i]).nanos - earliest.nanos;
                    &&& from * 1_000_000 <= at < to * 1_000_000
                    &&& jitter_pct == 0 ==> at == (from + (to - from) / 2) * 1_000_000
                }
        }),
{
    let input = PlanInput { earliest, end, count, jitter_pct, spacing };
    let total = (end.nanos - earliest.nanos) / 1_000_000;
    let slots = input.planned(rng, count as nat).0;
    lemma_opens_at(earliest, last_started, cooldown, spacing, start);
    assert(input.total() == total);
    lemma_every_part_is_taken(input, rng, count as nat);
    lemma_one_in_each_part(input, rng);
    let at = instants(input, rng);
    assert forall|i: int| 0 <= i < count implies ({
        let from = total * i / (count as int);
        let to = total * (i + 1) / (count as int);
        let at = (#[trigger] slots[i]).nanos - earliest.nanos;
        &&& from * 1_000_000 <= at < to * 1_000_000
        &&& jitter_pct == 0 ==> at == (from + (to - from) / 2) * 1_000_000
    }) by {
        lemma_in_part(input, i, input.planned(rng, (i + 1) as nat).1);
        lemma_part_width(total, count as int, i);
        assert(slots[i].nanos == at[i]);
    }
}

} // verus!
