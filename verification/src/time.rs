//! Instants, calendar days and spans of time.
use crate::sanitize::{is_whitespace, whitespace};
use vstd::prelude::*;

verus! {

pub const NANOS_PER_MILLISECOND: i128 = 1_000_000;
pub const NANOS_PER_SECOND: i128 = 1_000_000_000;
pub const NANOS_PER_DAY: i128 = 86_400_000_000_000;
/// Nanoseconds from the epoch to the earliest instant a calendar date exists for.
pub const MIN_UTC_NANOS: i128 = -8_334_601_228_800_000_000_000;
/// Nanoseconds from the epoch to the latest instant a calendar date exists for.
pub const MAX_UTC_NANOS: i128 = 8_210_266_876_799_999_999_999;

/// An instant in UTC, counted in nanoseconds from 1970-01-01T00:00:00Z.
#[derive(Clone, Copy, Debug, PartialEq, Eq, PartialOrd, Ord, Hash, Structural)]
pub struct Timestamp {
    pub nanos: i128,
}

/// A span of time.
#[derive(Clone, Copy, Debug, PartialEq, Eq, PartialOrd, Ord, Hash, Structural)]
pub struct Duration {
    pub nanos: u128,
}

/// A calendar day in UTC, counted from 1970-01-01.
#[derive(Clone, Copy, Debug, PartialEq, Eq, PartialOrd, Ord, Hash, Structural)]
pub struct UtcDate {
    pub day: i128,
}

/// The longest span: what the largest count of seconds and the largest fraction make.
pub const MAX_DURATION_NANOS: u128 = 18_446_744_073_709_551_615_999_999_999;

impl Duration {
    pub fn from_secs(secs: u64) -> (span: Duration)
        ensures
            span.nanos == secs * 1_000_000_000,
    {
        Duration { nanos: secs as u128 * 1_000_000_000 }
    }

    pub fn from_millis(millis: u64) -> (span: Duration)
        ensures
            span.nanos == millis * 1_000_000,
    {
        Duration { nanos: millis as u128 * 1_000_000 }
    }

    /// Whole milliseconds, at most what 64 bits hold.
    pub open spec fn millis_capped(self) -> u64 {
        if self.nanos / 1_000_000 <= u64::MAX {
            (self.nanos / 1_000_000) as u64
        } else {
            u64::MAX
        }
    }
}

/// Whole milliseconds of a span, at most what 64 bits hold.
pub fn duration_millis(duration: Duration) -> (millis: u64)
    ensures
        millis == duration.millis_capped(),
{
    let millis: u128 = duration.nanos / 1_000_000;
    if millis <= u64::MAX as u128 {
        millis as u64
    } else {
        u64::MAX
    }
}

impl Timestamp {
    /// The instant lies in the range that calendar dates cover.
    pub open spec fn valid(self) -> bool {
        MIN_UTC_NANOS <= self.nanos <= MAX_UTC_NANOS
    }

    /// The day the instant falls on.
    pub open spec fn day_number(self) -> int {
        self.nanos as int / NANOS_PER_DAY as int
    }

    /// The instant is valid and so is the midnight that follows it.
    pub open spec fn schedulable(self) -> bool {
        self.valid() && (self.day_number() + 1) * NANOS_PER_DAY <= MAX_UTC_NANOS
    }

    pub fn is_schedulable(self) -> (yes: bool)
        ensures
            yes == self.schedulable(),
    {
        MIN_UTC_NANOS <= self.nanos && self.nanos <= MAX_UTC_NANOS && (floor_div(
            self.nanos,
            NANOS_PER_DAY,
        ) + 1) * NANOS_PER_DAY <= MAX_UTC_NANOS
    }

    /// The UTC day the instant falls on.
    pub fn date(self) -> (date: UtcDate)
        ensures
            date.day == self.day_number(),
    {
        UtcDate { day: floor_div(self.nanos, NANOS_PER_DAY) }
    }

    /// The instant moved into the range that calendar dates cover.
    pub open spec fn clamped(self) -> int {
        if self.nanos < MIN_UTC_NANOS {
            MIN_UTC_NANOS as int
        } else if self.nanos > MAX_UTC_NANOS {
            MAX_UTC_NANOS as int
        } else {
            self.nanos as int
        }
    }
}

/// The number of whole seconds at or before an instant, and the nanoseconds after them.
pub open spec fn split_seconds(nanos: int) -> (i64, u32) {
    (
        (nanos / NANOS_PER_SECOND as int) as i64,
        (nanos % NANOS_PER_SECOND as int) as u32,
    )
}

/// Midnight at the start of a day.
pub open spec fn day_start_of(day: int) -> int {
    day * NANOS_PER_DAY
}

/// Midnight at the end of a day.
pub open spec fn day_end_of(day: int) -> int {
    (day + 1) * NANOS_PER_DAY
}

/// The instant some time later, at most the last one that calendar dates cover.
pub open spec fn later(value: Timestamp, by: Duration) -> Timestamp {
    if value.nanos + by.nanos <= MAX_UTC_NANOS {
        Timestamp { nanos: (value.nanos + by.nanos) as i128 }
    } else {
        Timestamp { nanos: MAX_UTC_NANOS }
    }
}

/// Division that rounds towards negative infinity.
pub fn floor_div(value: i128, by: i128) -> (quotient: i128)
    requires
        by > 0,
    ensures
        quotient == value as int / by as int,
{
    if value >= 0 {
        ((value as u128) / (by as u128)) as i128
    } else {
        let away: u128 = (-(value + 1)) as u128;
        let q: u128 = away / (by as u128);
        proof {
            let v = value as int;
            let b = by as int;
            let w = -(v + 1);
            assert(v / b == -(w / b) - 1) by (nonlinear_arith)
                requires
                    b > 0,
                    v < 0,
                    w == -(v + 1),
            {
                let qq = w / b;
                let rr = w % b;
                assert(w == b * qq + rr && 0 <= rr < b);
                assert(v == b * (-qq - 1) + (b - 1 - rr));
            }
            assert(0 <= w / b <= w) by (nonlinear_arith)
                requires
                    b > 0,
                    w >= 0,
            ;
        }
        -(q as i128) - 1
    }
}

pub fn day_start(at: Timestamp) -> (start: Timestamp)
    requires
        at.schedulable(),
    ensures
        start.nanos == day_start_of(at.day_number()),
{
    Timestamp { nanos: floor_div(at.nanos, NANOS_PER_DAY) * NANOS_PER_DAY }
}

pub fn day_end(at: Timestamp) -> (end: Timestamp)
    requires
        at.schedulable(),
    ensures
        end.nanos == day_end_of(at.day_number()),
{
    Timestamp { nanos: (floor_div(at.nanos, NANOS_PER_DAY) + 1) * NANOS_PER_DAY }
}

pub fn add_duration(value: Timestamp, duration: Duration) -> (sum: Timestamp)
    ensures
        sum == later(value, duration),
{
    let by: u128 = duration.nanos;
    if value.nanos >= MAX_UTC_NANOS {
        if by == 0 && value.nanos == MAX_UTC_NANOS {
            value
        } else {
            Timestamp { nanos: MAX_UTC_NANOS }
        }
    } else if value.nanos >= 0 {
        let room: u128 = (MAX_UTC_NANOS - value.nanos) as u128;
        if by > room {
            Timestamp { nanos: MAX_UTC_NANOS }
        } else {
            Timestamp { nanos: value.nanos + by as i128 }
        }
    } else {
        let below: u128 = (-(value.nanos + 1)) as u128 + 1;
        if by >= below {
            if by - below > MAX_UTC_NANOS as u128 {
                Timestamp { nanos: MAX_UTC_NANOS }
            } else {
                Timestamp { nanos: (by - below) as i128 }
            }
        } else {
            Timestamp { nanos: -((below - by - 1) as i128) - 1 }
        }
    }
}

/// What `chrono` writes an instant as in RFC 3339 form.
pub uninterp spec fn rfc3339(secs: i64, nanos: u32) -> Seq<char>;

/// What `chrono` writes an instant as in RFC 3339 form with milliseconds and a `Z`.
pub uninterp spec fn rfc3339_millis(secs: i64, nanos: u32) -> Seq<char>;

/// What `chrono` writes an instant as for the name of a file.
pub uninterp spec fn stamp(secs: i64, nanos: u32) -> Seq<char>;

/// A character of a file name's stamp: a digit, a letter between date and time or behind them, or
/// the point before the milliseconds.
pub open spec fn stamp_char(c: char) -> bool {
    '0' <= c <= '9' || c == 'T' || c == 'Z' || c == '.'
}

/// A count of seconds and nanoseconds that `chrono` has a date for.
pub open spec fn has_date(secs: i64, nanos: u32) -> bool {
    -8_334_601_228_800 <= secs <= 8_210_266_876_799 && nanos < 1_000_000_000
}

/// `chrono::DateTime::to_rfc3339`: the text is a function of the instant.
#[verifier::external_body]
fn render_rfc3339(secs: i64, nanos: u32) -> (text: String)
    requires
        has_date(secs, nanos),
    ensures
        text@ == rfc3339(secs, nanos),
{
    chrono::DateTime::<chrono::Utc>::from_timestamp(secs, nanos).unwrap().to_rfc3339()
}

/// `chrono::DateTime::to_rfc3339_opts` with milliseconds and `Z`: the text is a function of the
/// instant.
#[verifier::external_body]
fn render_rfc3339_millis(secs: i64, nanos: u32) -> (text: String)
    requires
        has_date(secs, nanos),
    ensures
        text@ == rfc3339_millis(secs, nanos),
{
    chrono::DateTime::<chrono::Utc>::from_timestamp(secs, nanos).unwrap().to_rfc3339_opts(
        chrono::SecondsFormat::Millis,
        true,
    )
}

/// `chrono::DateTime::format` with `%Y%m%dT%H%M%S%.3fZ`: the text is a function of the instant.
/// From year 0 to year 9999 it holds digits, `T`, `.` and `Z` only.
#[verifier::external_body]
fn render_stamp(secs: i64, nanos: u32) -> (text: String)
    requires
        has_date(secs, nanos),
    ensures
        text@ == stamp(secs, nanos),
        -62_167_219_200 <= secs <= 253_402_300_799 ==> forall|i: int|
            0 <= i < text@.len() ==> stamp_char(#[trigger] text@[i]),
{
    let at = chrono::DateTime::<chrono::Utc>::from_timestamp(secs, nanos).unwrap();
    at.format("%Y%m%dT%H%M%S%.3fZ").to_string()
}

impl Timestamp {
    /// An instant from year 0 to year 9999.
    pub open spec fn has_plain_year(self) -> bool {
        -62_167_219_200_000_000_000 <= self.nanos < 253_402_300_800_000_000_000
    }

    pub open spec fn stamp_spec(self) -> Seq<char> {
        let (secs, nanos) = split_seconds(self.clamped());
        stamp(secs, nanos)
    }

    /// The instant as it stands in the name of a file.
    pub fn stamp_text(self) -> (text: String)
        ensures
            text@ == self.stamp_spec(),
            self.has_plain_year() ==> forall|i: int|
                0 <= i < text@.len() ==> stamp_char(#[trigger] text@[i]),
    {
        let (secs, nanos) = self.parts();
        render_stamp(secs, nanos)
    }

    pub open spec fn rfc3339_spec(self) -> Seq<char> {
        let (secs, nanos) = split_seconds(self.clamped());
        rfc3339(secs, nanos)
    }

    pub open spec fn text_spec(self) -> Seq<char> {
        let (secs, nanos) = split_seconds(self.clamped());
        rfc3339_millis(secs, nanos)
    }

    fn parts(self) -> (parts: (i64, u32))
        ensures
            parts == split_seconds(self.clamped()),
            has_date(parts.0, parts.1),
    {
        let nanos: i128 = if self.nanos < MIN_UTC_NANOS {
            MIN_UTC_NANOS
        } else if self.nanos > MAX_UTC_NANOS {
            MAX_UTC_NANOS
        } else {
            self.nanos
        };
        let secs: i128 = floor_div(nanos, NANOS_PER_SECOND);
        let rest: i128 = nanos - secs * NANOS_PER_SECOND;
        (secs as i64, rest as u32)
    }

    /// The instant in RFC 3339 form with as many fractional digits as it needs.
    pub fn rfc3339_text(self) -> (text: String)
        ensures
            text@ == self.rfc3339_spec(),
    {
        let (secs, nanos) = self.parts();
        render_rfc3339(secs, nanos)
    }
}

/// The instant in RFC 3339 form with milliseconds.
pub fn timestamp_text(timestamp: Timestamp) -> (text: String)
    ensures
        text@ == timestamp.text_spec(),
{
    let (secs, nanos) = timestamp.parts();
    render_rfc3339_millis(secs, nanos)
}

/// What `humantime` reads in a text: seconds and nanoseconds, or why it is no span of time.
pub uninterp spec fn human_duration(text: Seq<char>) -> Result<(u64, u32), Seq<char>>;

/// What `humantime` writes a span of time as.
pub uninterp spec fn human_text(secs: u64, nanos: u32) -> Seq<char>;

/// What the numbers of a text come to so far: the nanoseconds of those whose unit is known, the
/// number that is being read with the digits behind its point (`whole` is their power of ten, or
/// zero before a point), and how many letters of a unit that is not told apart yet were read.
#[derive(Clone, Copy)]
pub struct SpanCount {
    pub sum: u128,
    pub number: u128,
    pub part: u128,
    pub whole: u128,
    pub letters: u8,
}

/// The largest number that is told apart from larger ones: no number beyond it is read.
pub const NUMBER_CAP: u128 = 18_446_744_073_709_551_616;

/// The nanoseconds from which on a span is not counted in seconds that fit in 64 bits.
pub const SPAN_LIMIT: u128 = 18_446_744_073_709_551_616_000_000_000;

/// The nanoseconds in a minute.
pub const MINUTE_NANOS: u128 = 60_000_000_000;

/// A number with a digit behind it.
pub open spec fn grown(number: u128, digit: u128) -> u128 {
    if number * 10 + digit <= NUMBER_CAP {
        (number * 10 + digit) as u128
    } else {
        NUMBER_CAP
    }
}

fn grow(number: u128, digit: u128) -> (larger: u128)
    requires
        number <= NUMBER_CAP,
        digit <= 9,
    ensures
        larger == grown(number, digit),
        larger <= NUMBER_CAP,
{
    let larger: u128 = number * 10 + digit;
    if larger <= NUMBER_CAP {
        larger
    } else {
        NUMBER_CAP
    }
}

/// The nanoseconds in the unit that a first letter tells. A letter that begins no unit has none.
pub open spec fn unit_nanos(c: char) -> u128 {
    if c == 'n' {
        1
    } else if c == 'u' || c == '\u{b5}' {
        1_000
    } else if c == 's' {
        1_000_000_000
    } else if c == 'h' {
        3_600_000_000_000
    } else if c == 'd' {
        86_400_000_000_000
    } else if c == 'w' {
        604_800_000_000_000
    } else if c == 'M' {
        2_630_016_000_000_000
    } else if c == 'y' {
        31_557_600_000_000_000
    } else {
        0
    }
}

fn nanos_of_unit(c: char) -> (nanos: u128)
    ensures
        nanos == unit_nanos(c),
        nanos <= 31_557_600_000_000_000,
{
    if c == 'n' {
        1
    } else if c == 'u' || c == '\u{b5}' {
        1_000
    } else if c == 's' {
        1_000_000_000
    } else if c == 'h' {
        3_600_000_000_000
    } else if c == 'd' {
        86_400_000_000_000
    } else if c == 'w' {
        604_800_000_000_000
    } else if c == 'M' {
        2_630_016_000_000_000
    } else if c == 'y' {
        31_557_600_000_000_000
    } else {
        0
    }
}

/// The nanoseconds in a unit that begins with an `m` and goes on with a character.
pub open spec fn m_unit_nanos(c: char) -> u128 {
    if c == 's' || c == 'l' {
        1_000_000
    } else if c == 'o' {
        2_630_016_000_000_000
    } else {
        MINUTE_NANOS
    }
}

fn nanos_of_m_unit(c: char) -> (nanos: u128)
    ensures
        nanos == m_unit_nanos(c),
        nanos <= 31_557_600_000_000_000,
{
    if c == 's' || c == 'l' {
        1_000_000
    } else if c == 'o' {
        2_630_016_000_000_000
    } else {
        MINUTE_NANOS
    }
}

/// The nanoseconds of a number in a unit.
pub open spec fn counted(count: SpanCount, unit: u128) -> int {
    count.number * unit + if count.whole > 0 {
        (count.part * unit) / (count.whole as int)
    } else {
        0
    }
}

/// The count when the unit of a number is known.
pub open spec fn settled(count: SpanCount, unit: u128) -> SpanCount {
    SpanCount {
        sum: if count.sum + counted(count, unit) <= SPAN_LIMIT {
            (count.sum + counted(count, unit)) as u128
        } else {
            SPAN_LIMIT
        },
        number: 0,
        part: 0,
        whole: 0,
        letters: 0,
    }
}

/// The count after a character.
pub open spec fn counted_on(count: SpanCount, c: char) -> SpanCount {
    if count.letters == 1 && c == 'i' {
        SpanCount { letters: 2, ..count }
    } else if '0' <= c && c <= '9' {
        let digit = (c as u128 - '0' as u128) as u128;
        if count.letters > 0 {
            SpanCount { number: digit, ..settled(count, MINUTE_NANOS) }
        } else if count.whole > 0 {
            SpanCount {
                part: grown(count.part, digit),
                whole: grown(count.whole, 0),
                ..count
            }
        } else {
            SpanCount { number: grown(count.number, digit), ..count }
        }
    } else if count.letters > 0 {
        settled(count, m_unit_nanos(c))
    } else if whitespace(c) {
        count
    } else if c == '.' {
        SpanCount { whole: 1, ..count }
    } else if c == 'm' {
        SpanCount { letters: 1, ..count }
    } else {
        settled(count, unit_nanos(c))
    }
}

/// What the numbers of a text come to.
pub open spec fn span_count(text: Seq<char>) -> SpanCount
    decreases text.len(),
{
    if text.len() == 0 {
        SpanCount { sum: 0, number: 0, part: 0, whole: 0, letters: 0 }
    } else {
        counted_on(span_count(text.drop_last()), text.last())
    }
}

/// A text whose numbers come to a span that can be counted in seconds of 64 bits. No other text is
/// read as a span, and on some others `humantime` panics.
pub open spec fn countable(text: Seq<char>) -> bool {
    let count = span_count(text);
    if count.letters > 0 {
        settled(count, MINUTE_NANOS).sum < SPAN_LIMIT
    } else {
        count.sum < SPAN_LIMIT
    }
}

impl SpanCount {
    /// The numbers are no larger than those that are told apart.
    pub open spec fn bounded(self) -> bool {
        &&& self.sum <= SPAN_LIMIT
        &&& self.number <= NUMBER_CAP
        &&& self.part <= NUMBER_CAP
        &&& self.whole <= NUMBER_CAP
    }
}

fn settle(count: SpanCount, unit: u128) -> (next: SpanCount)
    requires
        count.bounded(),
        unit <= 31_557_600_000_000_000,
    ensures
        next == settled(count, unit),
        next.bounded(),
{
    proof {
        let cap: int = 18_446_744_073_709_551_616;
        let most: int = 31_557_600_000_000_000;
        assert(0 <= count.number * unit <= cap * most) by (nonlinear_arith)
            requires
                0 <= count.number <= cap,
                0 <= unit <= most,
        ;
        assert(0 <= count.part * unit <= cap * most) by (nonlinear_arith)
            requires
                0 <= count.part <= cap,
                0 <= unit <= most,
        ;
        assert(cap * most + cap * most + SPAN_LIMIT <= u128::MAX);
    }
    let mut nanos: u128 = count.number * unit;
    if count.whole > 0 {
        let part: u128 = count.part * unit;
        proof {
            assert(0 <= part as int / count.whole as int <= part) by (nonlinear_arith)
                requires
                    part >= 0,
                    count.whole > 0,
            ;
        }
        nanos = nanos + part / count.whole;
    }
    let sum: u128 = count.sum + nanos;
    SpanCount {
        sum: if sum <= SPAN_LIMIT {
            sum
        } else {
            SPAN_LIMIT
        },
        number: 0,
        part: 0,
        whole: 0,
        letters: 0,
    }
}

fn count_on(count: SpanCount, c: char) -> (next: SpanCount)
    requires
        count.bounded(),
    ensures
        next == counted_on(count, c),
        next.bounded(),
{
    if count.letters == 1 && c == 'i' {
        SpanCount { letters: 2, ..count }
    } else if '0' <= c && c <= '9' {
        let digit: u128 = c as u128 - '0' as u128;
        if count.letters > 0 {
            SpanCount { number: digit, ..settle(count, MINUTE_NANOS) }
        } else if count.whole > 0 {
            SpanCount { part: grow(count.part, digit), whole: grow(count.whole, 0), ..count }
        } else {
            SpanCount { number: grow(count.number, digit), ..count }
        }
    } else if count.letters > 0 {
        settle(count, nanos_of_m_unit(c))
    } else if is_whitespace(c) {
        count
    } else if c == '.' {
        SpanCount { whole: 1, ..count }
    } else if c == 'm' {
        SpanCount { letters: 1, ..count }
    } else {
        settle(count, nanos_of_unit(c))
    }
}

/// Whether the numbers of a text come to a span that can be counted.
pub fn is_countable(text: &str) -> (yes: bool)
    ensures
        yes == countable(text@),
{
    let chars = crate::text::chars_of(text);
    let mut count = SpanCount { sum: 0, number: 0, part: 0, whole: 0, letters: 0 };
    let mut i: usize = 0;
    while i < chars.len()
        invariant
            i <= chars@.len(),
            count == span_count(chars@.take(i as int)),
            count.bounded(),
        decreases chars@.len() - i,
    {
        proof {
            assert(chars@.take(i + 1).drop_last() == chars@.take(i as int));
        }
        count = count_on(count, chars[i]);
        i += 1;
    }
    proof {
        assert(chars@.take(chars@.len() as int) == chars@);
    }
    if count.letters > 0 {
        count = settle(count, MINUTE_NANOS);
    }
    count.sum < SPAN_LIMIT
}

/// What is said of a text whose numbers are too large.
pub const TOO_LARGE: &'static str =
    "number is too large or cannot be represented without a lack of precision (values below 1ns are not supported)";

pub open spec fn read_view(read: Result<(u64, u32), String>) -> Result<(u64, u32), Seq<char>> {
    match read {
        Ok(parts) => Ok(parts),
        Err(reason) => Err(reason@),
    }
}

/// `humantime::parse_duration`: the span that a text names, or why it names none, is a function
/// of the text. The call panics on a text that comes to exactly one second more than 64 bits hold,
/// made up of parts of a second.
#[verifier::external_body]
fn read_duration(text: &str) -> (read: Result<(u64, u32), String>)
    requires
        countable(text@),
    ensures
        read_view(read) == human_duration(text@),
        read is Ok ==> (read->Ok_0).1 < 1_000_000_000,
{
    match humantime::parse_duration(text) {
        Ok(span) => Ok((span.as_secs(), span.subsec_nanos())),
        Err(error) => Err(error.to_string()),
    }
}

/// `humantime::format_duration`: the text is a function of the span.
#[verifier::external_body]
fn render_duration(secs: u64, nanos: u32) -> (text: String)
    requires
        nanos < 1_000_000_000,
    ensures
        text@ == human_text(secs, nanos),
{
    humantime::format_duration(std::time::Duration::new(secs, nanos)).to_string()
}

impl Duration {
    /// Whole seconds, at most what 64 bits hold.
    pub open spec fn secs_capped(self) -> u64 {
        if self.nanos / 1_000_000_000 <= u64::MAX {
            (self.nanos / 1_000_000_000) as u64
        } else {
            u64::MAX
        }
    }

    pub fn as_secs(self) -> (secs: u64)
        ensures
            secs == self.secs_capped(),
    {
        let secs: u128 = self.nanos / 1_000_000_000;
        if secs <= u64::MAX as u128 {
            secs as u64
        } else {
            u64::MAX
        }
    }

    /// The span as it is written for people.
    pub open spec fn text_spec(self) -> Seq<char> {
        human_text(self.secs_capped(), (self.nanos % 1_000_000_000) as u32)
    }

    pub fn text(self) -> (text: String)
        ensures
            text@ == self.text_spec(),
    {
        render_duration(self.as_secs(), (self.nanos % 1_000_000_000) as u32)
    }

    /// What a text names as a span.
    pub open spec fn named(text: Seq<char>) -> Result<Duration, Seq<char>> {
        if !countable(text) {
            Err(TOO_LARGE@)
        } else {
            match human_duration(text) {
                Ok((secs, nanos)) => Ok(
                    Duration { nanos: (secs * 1_000_000_000 + nanos) as u128 },
                ),
                Err(reason) => Err(reason),
            }
        }
    }

    pub fn parse(text: &str) -> (span: Result<Duration, String>)
        ensures
            (match span {
                Ok(d) => Ok::<Duration, Seq<char>>(d),
                Err(reason) => Err(reason@),
            }) == Duration::named(text@),
            span is Ok ==> span->Ok_0.nanos <= MAX_DURATION_NANOS,
    {
        if !is_countable(text) {
            return Err(TOO_LARGE.to_owned());
        }
        match read_duration(text) {
            Ok((secs, nanos)) => Ok(
                Duration { nanos: secs as u128 * 1_000_000_000 + nanos as u128 },
            ),
            Err(reason) => Err(reason),
        }
    }
}

} // verus!
