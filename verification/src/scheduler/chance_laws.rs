//! The pseudo-random sequence, and what is drawn from it.
use super::plan::{count_on_day, jittered, runs_on_day, seed_of, xorshift};
use crate::time::{Duration, Timestamp, UtcDate};
use vstd::prelude::*;

verus! {

/// The number from which the sequence came to this one.
pub open spec fn stepped_back(value: u64) -> u64 {
    let c = value ^ (value << 17u64) ^ (value << 34u64) ^ (value << 51u64);
    let b = c ^ (c >> 7u64) ^ (c >> 14u64) ^ (c >> 21u64) ^ (c >> 28u64) ^ (c >> 35u64) ^ (c
        >> 42u64) ^ (c >> 49u64) ^ (c >> 56u64) ^ (c >> 63u64);
    b ^ (b << 13u64) ^ (b << 26u64) ^ (b << 39u64) ^ (b << 52u64)
}

/// A step of the sequence can be taken back, so no two numbers lead to the same one, and none but
/// zero is passed over for another.
pub proof fn law_sequence_can_be_taken_back(state: u64, other: u64)
    ensures
        state != 0 ==> stepped_back(xorshift(state)) == state,
        xorshift(0) == xorshift(1),
        state != 0 && other != 0 && xorshift(state) == xorshift(other) ==> state == other,
{
    lemma_taken_back(state);
    lemma_taken_back(other);
}

proof fn lemma_taken_back(a: u64)
    ensures
        a != 0 ==> stepped_back(xorshift(a)) == a,
{
    let b: u64 = a ^ (a << 13u64);
    let c: u64 = b ^ (b >> 7u64);
    let d: u64 = c ^ (c << 17u64);
    assert(d ^ (d << 17u64) ^ (d << 34u64) ^ (d << 51u64) == c) by (bit_vector)
        requires
            d == c ^ (c << 17u64),
    ;
    assert(c ^ (c >> 7u64) ^ (c >> 14u64) ^ (c >> 21u64) ^ (c >> 28u64) ^ (c >> 35u64) ^ (c
        >> 42u64) ^ (c >> 49u64) ^ (c >> 56u64) ^ (c >> 63u64) == b) by (bit_vector)
        requires
            c == b ^ (b >> 7u64),
    ;
    assert(b ^ (b << 13u64) ^ (b << 26u64) ^ (b << 39u64) ^ (b << 52u64) == a) by (bit_vector)
        requires
            b == a ^ (a << 13u64),
    ;
}

/// A delay of whole milliseconds is moved by a number of them between minus a fifth and plus a
/// fifth, which the draw decides evenly.
pub proof fn law_draw_decides_the_delay(base: Duration, draw: u64)
    requires
        base.nanos < 0x8000_0000_0000_0000 * 1_000_000,
    ensures
        ({
            let millis = base.nanos as int / 1_000_000;
            let fifth = millis / 5;
            let delay = jittered(base, draw);
            &&& fifth == 0 ==> delay == base
            &&& fifth > 0 ==> {
                let offset = delay.nanos as int / 1_000_000 - (millis - fifth);
                &&& delay.nanos as int % 1_000_000 == 0
                &&& 0 <= offset <= 2 * fifth
                &&& (draw - offset) % (2 * fifth + 1) == 0
            }
        }),
{
    let millis = base.nanos as int / 1_000_000;
    let fifth = millis / 5;
    if fifth > 0 {
        let span = 2 * fifth + 1;
        let offset = draw as int % span;
        assert(0 <= offset < span);
        assert((draw - offset) % span == 0) by {
            vstd::arithmetic::div_mod::lemma_fundamental_div_mod(draw as int, span);
            vstd::arithmetic::div_mod::lemma_mod_multiples_basic(draw as int / span, span);
            assert(draw - offset == (draw as int / span) * span) by (nonlinear_arith)
                requires
                    draw as int == span * (draw as int / span) + offset,
            ;
        }
        let moved = millis - fifth + offset;
        assert(jittered(base, draw).nanos == moved * 1_000_000);
        assert((moved * 1_000_000) / 1_000_000 == moved);
        assert((moved * 1_000_000) % 1_000_000 == 0);
    }
}

/// The sequence never begins with zero. It begins with the number that eight random bytes stand
/// for, the first of them the lowest, or with the fallback where there are none.
pub proof fn law_sequence_begins_with_its_seed(bytes: Option<Vec<u8>>, fallback: u64, seed: u64)
    requires
        call_ensures(seed_of, (bytes, fallback), seed),
    ensures
        seed != 0,
        bytes is None && fallback != 0 ==> seed == fallback,
        bytes is None && fallback == 0 ==> seed == 1,
        bytes is Some && bytes->0@.len() == 8 ==> {
            let b = bytes->0@;
            let number = b[0] + 0x100 * b[1] + 0x1_0000 * b[2] + 0x100_0000 * b[3]
                + 0x1_0000_0000 * b[4] + 0x100_0000_0000 * b[5] + 0x1_0000_0000_0000 * b[6]
                + 0x100_0000_0000_0000 * b[7];
            seed == (if number == 0 {
                1
            } else {
                number
            })
        },
{
    if bytes is Some && bytes->0@.len() == 8 {
        reveal_with_fuel(super::plan::little_endian, 9);
        let b = bytes->0@;
        let b1 = b.drop_first();
        let b2 = b1.drop_first();
        let b3 = b2.drop_first();
        let b4 = b3.drop_first();
        let b5 = b4.drop_first();
        let b6 = b5.drop_first();
        let b7 = b6.drop_first();
        assert(b1[0] == b[1] && b2[0] == b[2] && b3[0] == b[3] && b4[0] == b[4]);
        assert(b5[0] == b[5] && b6[0] == b[6] && b7[0] == b[7]);
        assert(b7.drop_first().len() == 0);
    }
}

/// The runs of a day are all that lie between its midnights, and no other.
pub proof fn law_runs_of_a_day_are_counted(runs: Vec<Timestamp>, day: UtcDate, used: u32)
    requires
        call_ensures(runs_on_day, (&runs, day), used),
        runs@.len() <= u32::MAX,
    ensures
        used == runs@.filter(
            |run: Timestamp|
                day.day * 86_400_000_000_000 <= run.nanos < (day.day + 1) * 86_400_000_000_000,
        ).len(),
{
    lemma_counted(runs@, day);
}

proof fn lemma_counted(runs: Seq<Timestamp>, day: UtcDate)
    ensures
        count_on_day(runs, day.day as int) == runs.filter(
            |run: Timestamp|
                day.day * 86_400_000_000_000 <= run.nanos < (day.day + 1) * 86_400_000_000_000,
        ).len(),
        count_on_day(runs, day.day as int) <= runs.len(),
    decreases runs.len(),
{
    reveal(Seq::filter);
    if runs.len() > 0 {
        lemma_counted(runs.drop_last(), day);
        let at = runs.last().nanos as int;
        let on = day.day as int;
        assert(at / 86_400_000_000_000 == on <==> on * 86_400_000_000_000 <= at < (on + 1)
            * 86_400_000_000_000);
    }
}

} // verus!
