//! Where in the day bandwidth tests are placed.
use crate::digest::random_bytes;
use crate::time::{
    Duration, Timestamp, UtcDate, MAX_UTC_NANOS, MIN_UTC_NANOS, NANOS_PER_DAY,
    NANOS_PER_MILLISECOND, add_duration, duration_millis, later,
};
use vstd::prelude::*;
use vstd::seq_lib::lemma_sorted_unique;

verus! {

/// The number after a number in the pseudo-random sequence.
pub open spec fn xorshift(state: u64) -> u64 {
    let a: u64 = if state == 0 {
        1
    } else {
        state
    };
    let b: u64 = a ^ (a << 13u64);
    let c: u64 = b ^ (b >> 7u64);
    c ^ (c << 17u64)
}

/// Advances the pseudo-random sequence and returns the number it has come to.
pub fn next_random(rng: &mut u64) -> (value: u64)
    ensures
        value == xorshift(*old(rng)),
        *final(rng) == value,
{
    let mut value: u64 = if *rng == 0 {
        1
    } else {
        *rng
    };
    value = value ^ (value << 13u64);
    value = value ^ (value >> 7u64);
    value = value ^ (value << 17u64);
    *rng = value;
    value
}

/// The number that bytes stand for, the lowest first.
pub open spec fn little_endian(bytes: Seq<u8>) -> nat
    decreases bytes.len(),
{
    if bytes.len() == 0 {
        0
    } else {
        bytes[0] as nat + 256 * little_endian(bytes.drop_first())
    }
}

/// A number that the pseudo-random sequence can begin with.
pub open spec fn seed_from(number: u64) -> u64 {
    if number == 0 {
        1
    } else {
        number
    }
}

/// The beginning of the pseudo-random sequence: what eight random bytes stand for, or the
/// fallback where there are none. It is never zero.
pub fn seed_of(bytes: Option<Vec<u8>>, fallback: u64) -> (seed: u64)
    ensures
        seed != 0,
        match bytes {
            Some(bytes) => bytes@.len() == 8 ==> seed == seed_from(little_endian(bytes@) as u64),
            None => seed == seed_from(fallback),
        },
{
    let number: u64 = match bytes {
        None => fallback,
        Some(bytes) => {
            if bytes.len() != 8 {
                fallback
            } else {
                let mut value: u64 = 0;
                let mut i: usize = 8;
                proof {
                    assert(bytes@.skip(8) =~= Seq::<u8>::empty());
                }
                while i > 0
                    invariant
                        i <= 8,
                        bytes@.len() == 8,
                        value == little_endian(bytes@.skip(i as int)),
                        i == 8 ==> value == 0,
                        i == 7 ==> value < 0x100,
                        i == 6 ==> value < 0x1_0000,
                        i == 5 ==> value < 0x100_0000,
                        i == 4 ==> value < 0x1_0000_0000,
                        i == 3 ==> value < 0x100_0000_0000,
                        i == 2 ==> value < 0x1_0000_0000_0000,
                        i == 1 ==> value < 0x100_0000_0000_0000,
                    decreases i,
                {
                    i -= 1;
                    proof {
                        assert(bytes@.skip(i as int).drop_first() =~= bytes@.skip(i + 1));
                    }
                    value = value * 256 + bytes[i] as u64;
                }
                proof {
                    assert(bytes@.skip(0) =~= bytes@);
                }
                value
            }
        },
    };
    if number == 0 {
        1
    } else {
        number
    }
}

/// A beginning of the pseudo-random sequence by chance. The fallback is made of the time and the
/// number of the process, for where the system has no random bytes.
pub fn random_seed(now_nanos: u64, process_id: u32) -> (seed: u64)
    ensures
        seed != 0,
{
    let bytes = match random_bytes(8) {
        Ok(bytes) => Some(bytes),
        Err(_) => None,
    };
    seed_of(bytes, now_nanos ^ process_id as u64)
}

/// The sequence never reaches zero, on which it would stand still.
pub proof fn law_random_state_stays_nonzero(state: u64)
    ensures
        xorshift(state) != 0,
{
    let a: u64 = if state == 0 {
        1
    } else {
        state
    };
    let b: u64 = a ^ (a << 13u64);
    let c: u64 = b ^ (b >> 7u64);
    let d: u64 = c ^ (c << 17u64);
    assert(b != 0) by (bit_vector)
        requires
            a != 0,
            b == a ^ (a << 13u64),
    ;
    assert(c != 0) by (bit_vector)
        requires
            b != 0,
            c == b ^ (b >> 7u64),
    ;
    assert(d != 0) by (bit_vector)
        requires
            c != 0,
            d == c ^ (c << 17u64),
    ;
}

/// How many of the instants fall on a day.
pub open spec fn count_on_day(runs: Seq<Timestamp>, day: int) -> nat
    decreases runs.len(),
{
    if runs.len() == 0 {
        0
    } else {
        count_on_day(runs.drop_last(), day) + if runs.last().day_number() == day {
            1nat
        } else {
            0nat
        }
    }
}

/// How many of the runs fall on a day, at most what 32 bits hold.
pub open spec fn used_on_day(runs: Seq<Timestamp>, day: int) -> u32 {
    if count_on_day(runs, day) <= u32::MAX {
        count_on_day(runs, day) as u32
    } else {
        u32::MAX
    }
}

pub fn runs_on_day(runs: &Vec<Timestamp>, day: UtcDate) -> (used: u32)
    ensures
        used == used_on_day(runs@, day.day as int),
{
    let mut used: u64 = 0;
    let mut i: usize = 0;
    while i < runs.len()
        invariant
            i <= runs@.len(),
            used == count_on_day(runs@.take(i as int), day.day as int),
            used <= i,
        decreases runs@.len() - i,
    {
        proof {
            assert(runs@.take(i + 1).drop_last() == runs@.take(i as int));
        }
        if runs[i].date().day == day.day {
            used += 1;
        }
        i += 1;
    }
    proof {
        assert(runs@.take(runs@.len() as int) == runs@);
    }
    if used <= u32::MAX as u64 {
        used as u32
    } else {
        u32::MAX
    }
}

/// Half of a number, rounded towards zero.
pub open spec fn half(value: int) -> int {
    if value >= 0 {
        value / 2
    } else {
        -((-value) / 2)
    }
}

/// The part of the remaining time, in milliseconds, that belongs to one of the tests.
pub open spec fn stratum(total: int, count: int, index: int) -> (int, int) {
    let start = total * index / count;
    let end = total * (index + 1) / count;
    (
        start,
        if end - start > 1 {
            end - start
        } else {
            1
        },
    )
}

/// How much of its part a test may move in.
pub open spec fn jitter_width(width: int, jitter_pct: int) -> int {
    width * jitter_pct / 100
}

/// The offset of a test in the remaining time: in the middle of its part, moved by the draw.
pub open spec fn sampled(total: int, count: int, index: int, jitter_pct: int, draw: int) -> int {
    let (start, width) = stratum(total, count, index);
    let jitter = jitter_width(width, jitter_pct);
    start + half(width - jitter) + if jitter == 0 {
        0
    } else {
        draw % jitter
    }
}

/// What a plan is made from.
pub struct PlanInput {
    pub earliest: Timestamp,
    pub end: Timestamp,
    pub count: u32,
    pub jitter_pct: u8,
    pub spacing: Duration,
}

impl PlanInput {
    /// The time there is for tests, in milliseconds.
    pub open spec fn total(self) -> int {
        let millis = (self.end.nanos - self.earliest.nanos) / NANOS_PER_MILLISECOND as int;
        if millis > 1 {
            millis
        } else {
            1
        }
    }

    pub open spec fn jitter(self, index: int) -> int {
        jitter_width(stratum(self.total(), self.count as int, index).1, self.jitter_pct as int)
    }

    /// Where the test with this index would go.
    pub open spec fn candidate(self, index: int, draw: u64) -> int {
        self.earliest.nanos + sampled(
            self.total(),
            self.count as int,
            index,
            self.jitter_pct as int,
            draw as int,
        ) * NANOS_PER_MILLISECOND
    }

    /// The plan after the first `n` tests were considered, and the state of the pseudo-random
    /// sequence. A test that comes too close to the one before it, or too late, is left out.
    pub open spec fn planned(self, rng: u64, n: nat) -> (Seq<Timestamp>, u64)
        decreases n,
    {
        if n == 0 {
            (Seq::empty(), rng)
        } else {
            let (slots, before) = self.planned(rng, (n - 1) as nat);
            let after = if self.jitter(n - 1) == 0 {
                before
            } else {
                xorshift(before)
            };
            let at = self.candidate(n - 1, after);
            if (slots.len() == 0 || at >= later(slots.last(), self.spacing).nanos) && at
                < self.end.nanos {
                (slots.push(Timestamp { nanos: at as i128 }), after)
            } else {
                (slots, after)
            }
        }
    }
}

/// The first instant at which another test may start.
pub open spec fn earliest_start(
    last_started: Option<Timestamp>,
    cooldown: Option<Timestamp>,
    spacing: Duration,
    start: Timestamp,
) -> Timestamp {
    let spaced = match last_started {
        Some(last) => later(last, spacing),
        None => start,
    };
    let cooled = match cooldown {
        Some(deadline) => deadline,
        None => start,
    };
    if spaced.nanos >= cooled.nanos && spaced.nanos >= start.nanos {
        spaced
    } else if cooled.nanos >= start.nanos {
        cooled
    } else {
        start
    }
}

/// The tests planned from `start` to `end`, and the state of the pseudo-random sequence.
pub open spec fn plan(
    rng: u64,
    last_started: Option<Timestamp>,
    cooldown: Option<Timestamp>,
    spacing: Duration,
    jitter_pct: u8,
    start: Timestamp,
    end: Timestamp,
    count: u32,
) -> (Seq<Timestamp>, u64) {
    let earliest = earliest_start(last_started, cooldown, spacing, start);
    if count == 0 || start.nanos >= end.nanos || earliest.nanos >= end.nanos {
        (Seq::empty(), rng)
    } else {
        (PlanInput { earliest, end, count, jitter_pct, spacing }).planned(rng, count as nat)
    }
}

proof fn lemma_stratum_bounds(total: int, count: int, index: int)
    requires
        1 <= total <= 86_400_000,
        0 <= index < count <= u32::MAX,
    ensures
        0 <= total * index / count <= total * (index + 1) / count <= total,
        0 <= total * index <= 86_400_000 * 4_294_967_296,
        0 <= total * (index + 1) <= 86_400_000 * 4_294_967_296,
{
    assert(0 <= total * index <= total * (index + 1) <= total * count) by (nonlinear_arith)
        requires
            1 <= total,
            0 <= index < count,
    ;
    assert(total * count <= 86_400_000 * 4_294_967_296) by (nonlinear_arith)
        requires
            1 <= total <= 86_400_000,
            0 <= count <= u32::MAX,
    ;
    let a = total * index;
    let b = total * (index + 1);
    let c = total * count;
    assert(0 <= a / count <= b / count <= c / count) by (nonlinear_arith)
        requires
            0 <= a <= b <= c,
            count > 0,
    ;
    assert(c / count == total) by (nonlinear_arith)
        requires
            c == total * count,
            count > 0,
    ;
}

/// Places the test with the given index and says where it would go.
fn place_candidate(input: &PlanInput, rng: &mut u64, index: u32) -> (at: i128)
    requires
        MIN_UTC_NANOS <= input.earliest.nanos < input.end.nanos <= MAX_UTC_NANOS,
        input.end.nanos - input.earliest.nanos <= NANOS_PER_DAY,
        index < input.count,
    ensures
        *final(rng) == (if input.jitter(index as int) == 0 {
            *old(rng)
        } else {
            xorshift(*old(rng))
        }),
        at == input.candidate(index as int, *final(rng)),
{
    let gap: i128 = input.end.nanos - input.earliest.nanos;
    let millis: i128 = (gap as u128 / 1_000_000) as i128;
    let total: i128 = if millis > 1 {
        millis
    } else {
        1
    };
    let count: i128 = input.count as i128;
    proof {
        assert(total == input.total());
        lemma_stratum_bounds(total as int, count as int, index as int);
    }
    let start: i128 = ((total * index as i128) as u128 / count as u128) as i128;
    let end: i128 = ((total * (index as i128 + 1)) as u128 / count as u128) as i128;
    let width: i128 = if end - start > 1 {
        end - start
    } else {
        1
    };
    proof {
        let pct = input.jitter_pct as int;
        assert(0 <= width * pct <= width * 255) by (nonlinear_arith)
            requires
                1 <= width,
                0 <= pct <= 255,
        ;
    }
    let jitter: i128 = ((width * input.jitter_pct as i128) as u128 / 100) as i128;
    let margin: i128 = width - jitter;
    let lead: i128 = if margin >= 0 {
        (margin as u128 / 2) as i128
    } else {
        -(((-margin) as u128 / 2) as i128)
    };
    let offset: i128 = if jitter == 0 {
        start + lead
    } else {
        let draw: u64 = next_random(rng);
        let shift: u64 = draw % jitter as u64;
        proof {
            assert(0 <= shift < jitter);
        }
        start + lead + shift as i128
    };
    input.earliest.nanos + offset * NANOS_PER_MILLISECOND
}

/// Plans up to `count` tests between two instants at most a day apart.
pub fn plan_interval(
    rng: &mut u64,
    last_started: Option<Timestamp>,
    cooldown: Option<Timestamp>,
    spacing: Duration,
    jitter_pct: u8,
    start: Timestamp,
    end: Timestamp,
    count: u32,
) -> (slots: Vec<Timestamp>)
    requires
        start.valid(),
        end.valid(),
        end.nanos - start.nanos <= NANOS_PER_DAY,
    ensures
        (slots@, *final(rng)) == plan(
            *old(rng),
            last_started,
            cooldown,
            spacing,
            jitter_pct,
            start,
            end,
            count,
        ),
{
    let mut slots: Vec<Timestamp> = Vec::new();
    if count == 0 || start.nanos >= end.nanos {
        return slots;
    }
    let spaced = match last_started {
        Some(last) => add_duration(last, spacing),
        None => start,
    };
    let cooled = match cooldown {
        Some(deadline) => deadline,
        None => start,
    };
    let earliest = if spaced.nanos >= cooled.nanos && spaced.nanos >= start.nanos {
        spaced
    } else if cooled.nanos >= start.nanos {
        cooled
    } else {
        start
    };
    if earliest.nanos >= end.nanos {
        return slots;
    }
    let input = PlanInput { earliest, end, count, jitter_pct, spacing };
    let ghost seed = *rng;
    let mut index: u32 = 0;
    while index < count
        invariant
            index <= count,
            count == input.count,
            end == input.end,
            spacing == input.spacing,
            MIN_UTC_NANOS <= input.earliest.nanos < input.end.nanos <= MAX_UTC_NANOS,
            input.end.nanos - input.earliest.nanos <= NANOS_PER_DAY,
            (slots@, *rng) == input.planned(seed, index as nat),
        decreases count - index,
    {
        let at: i128 = place_candidate(&input, rng, index);
        let free: bool = match slots.last() {
            None => true,
            Some(previous) => at >= add_duration(*previous, spacing).nanos,
        };
        if free && at < end.nanos {
            slots.push(Timestamp { nanos: at });
        }
        index += 1;
    }
    slots
}

pub(crate) proof fn lemma_sampled_bounds(input: PlanInput, index: int, draw: u64)
    requires
        input.earliest.nanos < input.end.nanos,
        input.end.nanos - input.earliest.nanos <= NANOS_PER_DAY,
        0 <= index < input.count,
        input.jitter_pct <= 100,
    ensures
        ({
            let (start, width) = stratum(input.total(), input.count as int, index);
            let offset = sampled(
                input.total(),
                input.count as int,
                index,
                input.jitter_pct as int,
                draw as int,
            );
            0 <= start <= offset < start + width
        }),
{
    let total = input.total();
    lemma_stratum_bounds(total, input.count as int, index);
    let (start, width) = stratum(total, input.count as int, index);
    let pct = input.jitter_pct as int;
    let jitter = jitter_width(width, pct);
    assert(0 <= width * pct <= width * 100) by (nonlinear_arith)
        requires
            0 <= pct <= 100,
            width >= 1,
    ;
    if jitter != 0 {
        let d = draw as int;
        assert(0 <= d % jitter < jitter);
    }
}

/// Every test of a plan starts no earlier than allowed and before the end, any two are at least
/// the minimum spacing apart, and there are no more of them than were asked for.
pub proof fn law_planned_slots(
    rng: u64,
    last_started: Option<Timestamp>,
    cooldown: Option<Timestamp>,
    spacing: Duration,
    jitter_pct: u8,
    start: Timestamp,
    end: Timestamp,
    count: u32,
)
    requires
        start.valid(),
        end.valid(),
        end.nanos - start.nanos <= NANOS_PER_DAY,
        jitter_pct <= 100,
    ensures
        ({
            let slots = plan(rng, last_started, cooldown, spacing, jitter_pct, start, end, count).0;
            let earliest = earliest_start(last_started, cooldown, spacing, start);
            &&& slots.len() <= count
            &&& forall|i: int|
                0 <= i < slots.len() ==> start.nanos <= earliest.nanos <= (
                #[trigger] slots[i]).nanos < end.nanos
            &&& forall|i: int, j: int|
                0 <= i < j < slots.len() ==> (#[trigger] slots[j]).nanos >= later(
                    #[trigger] slots[i],
                    spacing,
                ).nanos
        }),
{
    let earliest = earliest_start(last_started, cooldown, spacing, start);
    if !(count == 0 || start.nanos >= end.nanos || earliest.nanos >= end.nanos) {
        lemma_planned(
            PlanInput { earliest, end, count, jitter_pct, spacing },
            rng,
            count as nat,
        );
    }
}

proof fn lemma_planned(input: PlanInput, rng: u64, n: nat)
    requires
        input.earliest.valid(),
        input.end.valid(),
        input.earliest.nanos < input.end.nanos,
        input.end.nanos - input.earliest.nanos <= NANOS_PER_DAY,
        input.jitter_pct <= 100,
        n <= input.count,
    ensures
        ({
            let slots = input.planned(rng, n).0;
            &&& slots.len() <= n
            &&& forall|i: int|
                0 <= i < slots.len() ==> input.earliest.nanos <= (#[trigger] slots[i]).nanos
                    < input.end.nanos
            &&& forall|i: int, j: int|
                0 <= i < j < slots.len() ==> (#[trigger] slots[j]).nanos >= later(
                    #[trigger] slots[i],
                    input.spacing,
                ).nanos
        }),
    decreases n,
{
    if n > 0 {
        lemma_planned(input, rng, (n - 1) as nat);
        let (before, state) = input.planned(rng, (n - 1) as nat);
        let (after, draw) = input.planned(rng, n);
        lemma_sampled_bounds(input, n - 1, draw);
        assert forall|i: int, j: int| 0 <= i < j < after.len() implies (
        #[trigger] after[j]).nanos >= later(#[trigger] after[i], input.spacing).nanos by {
            if j < before.len() {
                assert(before[i] == after[i] && before[j] == after[j]);
            } else if i < before.len() - 1 {
                assert(before[i] == after[i]);
                assert(before.last() == before[before.len() - 1]);
                assert(before[before.len() - 1].nanos >= later(before[i], input.spacing).nanos);
            } else {
                assert(before.last() == after[i]);
            }
        }
    }
}

/// The delay after a rate limit: the base moved by up to a fifth of it either way.
pub open spec fn jittered(base: Duration, draw: u64) -> Duration {
    let millis = base.millis_capped() as int;
    let spread = millis / 5;
    if spread == 0 {
        base
    } else {
        let offset = draw as int % (2 * spread + 1);
        let moved = millis - spread + offset;
        if moved <= u64::MAX {
            Duration { nanos: (moved * 1_000_000) as u128 }
        } else {
            Duration { nanos: (u64::MAX * 1_000_000) as u128 }
        }
    }
}

/// Moves a delay by up to a fifth of it either way.
pub fn jitter_duration(rng: &mut u64, base: Duration) -> (delay: Duration)
    ensures
        base.millis_capped() / 5 == 0 ==> *final(rng) == *old(rng),
        base.millis_capped() / 5 != 0 ==> *final(rng) == xorshift(*old(rng)),
        delay == jittered(base, *final(rng)),
{
    let millis: u64 = duration_millis(base);
    let spread: u64 = millis / 5;
    if spread == 0 {
        return base;
    }
    let offset: u64 = next_random(rng) % (spread * 2 + 1);
    Duration::from_millis((millis - spread).saturating_add(offset))
}

/// A jittered delay stays within a fifth of its base.
pub proof fn law_jitter_stays_within_a_fifth(base: Duration, draw: u64)
    requires
        base.nanos / 1_000_000 <= u64::MAX / 2,
    ensures
        ({
            let millis = base.nanos as int / 1_000_000;
            let moved = jittered(base, draw).nanos as int / 1_000_000;
            millis - millis / 5 <= moved <= millis + millis / 5
        }),
{
    let spread = base.millis_capped() as int / 5;
    if spread != 0 {
        assert(0 <= draw as int % (2 * spread + 1) < 2 * spread + 1);
    }
}

/// Instants in order of time.
pub open spec fn by_time() -> spec_fn(Timestamp, Timestamp) -> bool {
    |a: Timestamp, b: Timestamp| a.nanos <= b.nanos
}

/// Puts instants in order of time.
pub fn sort_times(times: &mut Vec<Timestamp>)
    ensures
        final(times)@ == old(times)@.sort_by(by_time()),
        final(times)@.len() == old(times)@.len(),
{
    let ghost start = times@;
    let mut sorted: Vec<Timestamp> = Vec::new();
    let mut i: usize = 0;
    proof {
        start.take(0).to_multiset_ensures();
        assert(start.take(0) == sorted@);
    }
    while i < times.len()
        invariant
            times@ == start,
            i <= times@.len(),
            sorted@.len() == i,
            sorted@.to_multiset() == start.take(i as int).to_multiset(),
            forall|a: int, b: int| 0 <= a <= b < sorted@.len() ==> sorted@[a].nanos <= sorted@[b].nanos,
        decreases times@.len() - i,
    {
        let item = times[i];
        let mut at: usize = sorted.len();
        while at > 0 && sorted[at - 1].nanos > item.nanos
            invariant
                at <= sorted@.len(),
                forall|k: int| at <= k < sorted@.len() ==> sorted@[k].nanos > item.nanos,
            decreases at,
        {
            at -= 1;
        }
        let ghost before = sorted@;
        sorted.insert(at, item);
        proof {
            broadcast use vstd::seq_lib::group_to_multiset_ensures;

            assert(sorted@ == before.insert(at as int, item));
            assert(sorted@.to_multiset() == before.to_multiset().insert(item));
            assert(start.take(i + 1) == start.take(i as int).push(item));
            assert(start.take(i + 1).to_multiset() == start.take(i as int).to_multiset().insert(
                item,
            ));
        }
        i += 1;
    }
    proof {
        assert(start.take(start.len() as int) == start);
        start.lemma_sort_by_ensures(by_time());
        lemma_sorted_unique(sorted@, start.sort_by(by_time()), by_time());
    }
    *times = sorted;
}

/// Keeps the instants after the given one.
pub fn retain_after(times: &Vec<Timestamp>, limit: Timestamp) -> (kept: Vec<Timestamp>)
    ensures
        kept@ == times@.filter(|t: Timestamp| t.nanos > limit.nanos),
{
    let mut kept: Vec<Timestamp> = Vec::new();
    let ghost test = |t: Timestamp| t.nanos > limit.nanos;
    let mut i: usize = 0;
    proof {
        reveal(Seq::filter);
        assert(times@.take(0).filter(test) == Seq::<Timestamp>::empty());
    }
    while i < times.len()
        invariant
            test == (|t: Timestamp| t.nanos > limit.nanos),
            i <= times@.len(),
            kept@ == times@.take(i as int).filter(test),
        decreases times@.len() - i,
    {
        proof {
            reveal(Seq::filter);
            assert(times@.take(i + 1).drop_last() == times@.take(i as int));
        }
        if times[i].nanos > limit.nanos {
            kept.push(times[i]);
        }
        i += 1;
    }
    proof {
        assert(times@.take(times@.len() as int) == times@);
    }
    kept
}

/// Keeps the instants on the given day or after it.
pub fn retain_from_day(times: &Vec<Timestamp>, day: UtcDate) -> (kept: Vec<Timestamp>)
    ensures
        kept@ == times@.filter(|t: Timestamp| t.day_number() >= day.day),
{
    let mut kept: Vec<Timestamp> = Vec::new();
    let ghost test = |t: Timestamp| t.day_number() >= day.day;
    let mut i: usize = 0;
    proof {
        reveal(Seq::filter);
        assert(times@.take(0).filter(test) == Seq::<Timestamp>::empty());
    }
    while i < times.len()
        invariant
            test == (|t: Timestamp| t.day_number() >= day.day),
            i <= times@.len(),
            kept@ == times@.take(i as int).filter(test),
        decreases times@.len() - i,
    {
        proof {
            reveal(Seq::filter);
            assert(times@.take(i + 1).drop_last() == times@.take(i as int));
        }
        if times[i].date().day >= day.day {
            kept.push(times[i]);
        }
        i += 1;
    }
    proof {
        assert(times@.take(times@.len() as int) == times@);
    }
    kept
}

/// Keeps the instants at the given one or after it.
pub fn retain_from(times: &Vec<Timestamp>, limit: Timestamp) -> (kept: Vec<Timestamp>)
    ensures
        kept@ == times@.filter(|t: Timestamp| t.nanos >= limit.nanos),
{
    let mut kept: Vec<Timestamp> = Vec::new();
    let ghost test = |t: Timestamp| t.nanos >= limit.nanos;
    let mut i: usize = 0;
    proof {
        reveal(Seq::filter);
        assert(times@.take(0).filter(test) == Seq::<Timestamp>::empty());
    }
    while i < times.len()
        invariant
            test == (|t: Timestamp| t.nanos >= limit.nanos),
            i <= times@.len(),
            kept@ == times@.take(i as int).filter(test),
        decreases times@.len() - i,
    {
        proof {
            reveal(Seq::filter);
            assert(times@.take(i + 1).drop_last() == times@.take(i as int));
        }
        if times[i].nanos >= limit.nanos {
            kept.push(times[i]);
        }
        i += 1;
    }
    proof {
        assert(times@.take(times@.len() as int) == times@);
    }
    kept
}

/// Keeps the instants at the given one or before it.
pub fn retain_until(times: &Vec<Timestamp>, limit: Timestamp) -> (kept: Vec<Timestamp>)
    ensures
        kept@ == times@.filter(|t: Timestamp| t.nanos <= limit.nanos),
{
    let mut kept: Vec<Timestamp> = Vec::new();
    let ghost test = |t: Timestamp| t.nanos <= limit.nanos;
    let mut i: usize = 0;
    proof {
        reveal(Seq::filter);
        assert(times@.take(0).filter(test) == Seq::<Timestamp>::empty());
    }
    while i < times.len()
        invariant
            test == (|t: Timestamp| t.nanos <= limit.nanos),
            i <= times@.len(),
            kept@ == times@.take(i as int).filter(test),
        decreases times@.len() - i,
    {
        proof {
            reveal(Seq::filter);
            assert(times@.take(i + 1).drop_last() == times@.take(i as int));
        }
        if times[i].nanos <= limit.nanos {
            kept.push(times[i]);
        }
        i += 1;
    }
    proof {
        assert(times@.take(times@.len() as int) == times@);
    }
    kept
}

/// Keeps the instants other than the given one.
pub fn retain_others(times: &Vec<Timestamp>, taken: Timestamp) -> (kept: Vec<Timestamp>)
    ensures
        kept@ == times@.filter(|t: Timestamp| t != taken),
{
    let mut kept: Vec<Timestamp> = Vec::new();
    let ghost test = |t: Timestamp| t != taken;
    let mut i: usize = 0;
    proof {
        reveal(Seq::filter);
        assert(times@.take(0).filter(test) == Seq::<Timestamp>::empty());
    }
    while i < times.len()
        invariant
            test == (|t: Timestamp| t != taken),
            i <= times@.len(),
            kept@ == times@.take(i as int).filter(test),
        decreases times@.len() - i,
    {
        proof {
            reveal(Seq::filter);
            assert(times@.take(i + 1).drop_last() == times@.take(i as int));
        }
        if times[i] != taken {
            kept.push(times[i]);
        }
        i += 1;
    }
    proof {
        assert(times@.take(times@.len() as int) == times@);
    }
    kept
}

} // verus!
