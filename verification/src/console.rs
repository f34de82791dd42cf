//! The live view: a line for people, and what becomes of events that cannot be shown.
use crate::cli::ConsoleMode;
use crate::endpoint::parsed_url;
use crate::model::{EventKind, MeasurementEvent, sanitized_copy};
use crate::names::{outcome_name, outcome_text, provider_name, provider_text};
use crate::sanitize::{sanitize_endpoint, sanitize_message, sanitized, sanitized_endpoint};
use crate::scalar::Scalar;
use crate::text::chars_of;
use crate::time::{Timestamp, timestamp_text};
use vstd::arithmetic::power2::{lemma_pow2_strictly_increases, lemma_pow2_unfold, lemma2_to64, pow2};
use vstd::prelude::*;
use vstd::string::StringExecFns;

verus! {

/// What is said about the console itself.
#[derive(Clone, Copy, Debug, PartialEq, Eq, Structural)]
pub enum ConsoleDiagnostic {
    QueueFull { dropped_events: u64 },
    WriterDisabled { reason: ConsoleFailure },
}

/// Why the console was switched off.
#[derive(Clone, Copy, Debug, PartialEq, Eq, Structural)]
pub enum ConsoleFailure {
    Serialization,
    BrokenPipe,
    Write,
    Flush,
    ShutdownTimeout,
}

#[derive(Clone, Copy, Debug, PartialEq, Eq, Structural)]
pub struct ConsoleStats {
    pub dropped_events: u64,
    pub disabled: bool,
}

/// Any events may be held by a place: what it holds depends on the place alone.
pub open spec fn may_hold<T: ?Sized>(place: &T, events: Seq<MeasurementEvent>) -> bool {
    true
}

/// A place where events are shown.
pub trait ConsoleSink {
    /// The events that were offered, in order. A place that does not say which is held to
    /// nothing but that they depend on it alone.
    open spec fn offered(&self) -> Seq<MeasurementEvent> {
        choose|events: Seq<MeasurementEvent>| may_hold(self, events)
    }

    /// Offers an event. Whether it is shown is left to the console.
    fn offer(&mut self, event: &MeasurementEvent)
        ensures
            final(self).offered() == old(self).offered().push(*event),
    ;
}

/// A console that shows nothing.
pub struct ConsoleOff {
    offered: Ghost<Seq<MeasurementEvent>>,
}

impl ConsoleOff {
    pub fn new() -> (console: Self)
        ensures
            console.offered() == Seq::<MeasurementEvent>::empty(),
    {
        ConsoleOff { offered: Ghost(Seq::empty()) }
    }
}

impl ConsoleSink for ConsoleOff {
    closed spec fn offered(&self) -> Seq<MeasurementEvent> {
        self.offered@
    }

    fn offer(&mut self, event: &MeasurementEvent) {
        self.offered = Ghost(self.offered@.push(*event));
    }
}

/// How events are shown, once it is settled that they are.
#[derive(Clone, Copy, Debug, PartialEq, Eq, Structural)]
pub enum ConsoleForm {
    Human,
    Jsonl,
}

/// How events are shown in a mode: not at all, one object a line, or for people.
pub fn console_form(mode: ConsoleMode) -> (form: Option<ConsoleForm>)
    ensures
        form == (match mode {
            ConsoleMode::Off => None,
            ConsoleMode::Jsonl => Some(ConsoleForm::Jsonl),
            ConsoleMode::Human | ConsoleMode::Auto => Some(ConsoleForm::Human),
        }),
{
    match mode {
        ConsoleMode::Off => None,
        ConsoleMode::Jsonl => Some(ConsoleForm::Jsonl),
        ConsoleMode::Human | ConsoleMode::Auto => Some(ConsoleForm::Human),
    }
}

/// How many events can wait to be shown: one at least.
pub fn queue_capacity(capacity: usize) -> (effective: usize)
    ensures
        effective == (if capacity == 0 {
            1
        } else {
            capacity
        }),
{
    if capacity == 0 {
        1
    } else {
        capacity
    }
}

/// What became of an event that was handed to the writer.
#[derive(Clone, Copy, Debug, PartialEq, Eq, Structural)]
pub enum Handover {
    Queued,
    Full,
    Closed,
}

/// What is known of the console's writer.
#[derive(Clone, Copy, Debug, PartialEq, Eq, Structural)]
pub struct ConsoleState {
    pub dropped_events: u64,
    pub disabled: bool,
    pub failure_reported: bool,
}

/// A power of two.
pub open spec fn power_of_two(number: nat) -> bool {
    exists|k: nat| number == #[trigger] pow2(k)
}

fn is_power_of_two(number: u64) -> (yes: bool)
    ensures
        yes == power_of_two(number as nat),
{
    let mut power: u128 = 1;
    let ghost mut k: nat = 0;
    proof {
        lemma2_to64();
    }
    while power < number as u128
        invariant
            power == pow2(k),
            1 <= power <= 2 * 0x1_0000_0000_0000_0000u128,
            k == 0 || pow2((k - 1) as nat) < number,
        decreases 0x2_0000_0000_0000_0000u128 - power,
    {
        proof {
            lemma_pow2_unfold(k + 1);
            k = k + 1;
        }
        power = power * 2;
    }
    proof {
        if power != number && power_of_two(number as nat) {
            let j = choose|j: nat| number as nat == #[trigger] pow2(j);
            if j < k {
                if k > 0 && j < k - 1 {
                    lemma_pow2_strictly_increases(j, (k - 1) as nat);
                }
            } else if j > k {
                lemma_pow2_strictly_increases(k, j);
            }
        }
    }
    power == number as u128
}

/// The console after an event was handed to its writer, and what is said of it.
pub open spec fn has_handed_over(
    before: ConsoleState,
    handover: Handover,
    diagnostic: Option<ConsoleDiagnostic>,
    after: ConsoleState,
) -> bool {
    match handover {
        Handover::Queued => after == before && diagnostic is None,
        Handover::Full => {
            &&& after == before.dropping()
            &&& diagnostic == (if power_of_two(after.dropped_events as nat) {
                Some(
                    ConsoleDiagnostic::QueueFull {
                        dropped_events: after.dropped_events,
                    },
                )
            } else {
                None
            })
        },
        Handover::Closed => {
            &&& after == before.dropping().disabling()
            &&& diagnostic == before.disabling_says(ConsoleFailure::Write)
        },
    }
}

impl ConsoleState {
    pub fn new() -> (state: Self)
        ensures
            state == (ConsoleState {
                dropped_events: 0,
                disabled: false,
                failure_reported: false,
            }),
    {
        ConsoleState { dropped_events: 0, disabled: false, failure_reported: false }
    }

    pub fn stats(&self) -> (stats: ConsoleStats)
        ensures
            stats == (ConsoleStats {
                dropped_events: self.dropped_events,
                disabled: self.disabled,
            }),
    {
        ConsoleStats { dropped_events: self.dropped_events, disabled: self.disabled }
    }

    /// The state after an event was dropped.
    pub open spec fn dropping(self) -> ConsoleState {
        ConsoleState { dropped_events: self.dropped_events.wrapping_add(1), ..self }
    }

    /// The state after the writer was switched off.
    pub open spec fn disabling(self) -> ConsoleState {
        ConsoleState { disabled: true, failure_reported: true, ..self }
    }

    /// What is said when the writer is switched off: only the first reason.
    pub open spec fn disabling_says(self, reason: ConsoleFailure) -> Option<ConsoleDiagnostic> {
        if self.failure_reported {
            None
        } else {
            Some(ConsoleDiagnostic::WriterDisabled { reason })
        }
    }

    /// Switches the writer off. Only the first reason is told.
    pub fn disable(&mut self, reason: ConsoleFailure) -> (diagnostic: Option<ConsoleDiagnostic>)
        ensures
            *final(self) == old(self).disabling(),
            diagnostic == old(self).disabling_says(reason),
    {
        let told: bool = self.failure_reported;
        self.disabled = true;
        self.failure_reported = true;
        if told {
            None
        } else {
            Some(ConsoleDiagnostic::WriterDisabled { reason })
        }
    }

    /// Drops an event that comes while the writer is off. Nothing is said of it.
    pub fn drop_silently(&mut self)
        ensures
            *final(self) == old(self).dropping(),
    {
        self.dropped_events = self.dropped_events.wrapping_add(1);
    }

    /// Takes in what became of an event. A full queue is told of when the number of dropped
    /// events is a power of two; a closed one switches the writer off.
    pub fn handed_over(&mut self, handover: Handover) -> (diagnostic: Option<ConsoleDiagnostic>)
        ensures
            has_handed_over(*old(self), handover, diagnostic, *final(self)),
    {
        match handover {
            Handover::Queued => None,
            Handover::Full => {
                self.drop_silently();
                let dropped_events: u64 = self.dropped_events;
                if is_power_of_two(dropped_events) {
                    Some(ConsoleDiagnostic::QueueFull { dropped_events })
                } else {
                    None
                }
            },
            Handover::Closed => {
                self.drop_silently();
                self.disable(ConsoleFailure::Write)
            },
        }
    }
}

/// The first event that is dropped is told of.
pub proof fn law_first_drop_is_told()
    ensures
        power_of_two(1),
        !power_of_two(0),
{
    lemma2_to64();
    assert(power_of_two(1)) by {
        assert(pow2(0) == 1);
    }
    assert forall|k: nat| #[trigger] pow2(k) > 0 by {
        vstd::arithmetic::power2::lemma_pow2_pos(k);
    }
}

/// Why writing failed.
pub fn write_failure(broken_pipe: bool) -> (failure: ConsoleFailure)
    ensures
        failure == (if broken_pipe {
            ConsoleFailure::BrokenPipe
        } else {
            ConsoleFailure::Write
        }),
{
    if broken_pipe {
        ConsoleFailure::BrokenPipe
    } else {
        ConsoleFailure::Write
    }
}

/// A message between quotation marks: on one line, with the marks in it escaped.
pub open spec fn escaped(text: Seq<char>) -> Seq<char>
    decreases text.len(),
{
    if text.len() == 0 {
        Seq::empty()
    } else {
        let before = escaped(text.drop_last());
        let c = text.last();
        if c == '\r' || c == '\n' {
            before.push(' ')
        } else if c == '"' {
            before.push('\\').push('"')
        } else {
            before.push(c)
        }
    }
}

fn escape(text: &str) -> (quoted: String)
    ensures
        quoted@ == escaped(text@),
{
    let chars = chars_of(text);
    let mut quoted = String::new();
    let mut i: usize = 0;
    while i < chars.len()
        invariant
            chars@ == text@,
            i <= chars@.len(),
            quoted@ == escaped(chars@.take(i as int)),
        decreases chars@.len() - i,
    {
        proof {
            assert(chars@.take(i + 1).drop_last() == chars@.take(i as int));
        }
        let c: char = chars[i];
        if c == '\r' || c == '\n' {
            quoted.push(' ');
        } else if c == '"' {
            quoted.push('\\');
            quoted.push('"');
        } else {
            quoted.push(c);
        }
        i += 1;
    }
    proof {
        assert(chars@.take(chars@.len() as int) == chars@);
    }
    quoted
}

/// A message as people are shown it: without secrets, on one line.
pub fn quote_human(value: &str) -> (quoted: String)
    ensures
        quoted@ == escaped(sanitized(value@)),
{
    escape(&sanitize_message(value))
}

/// What follows an event's line: the reason, if there is one.
pub open spec fn reason_text(message: Option<String>) -> Seq<char> {
    match message {
        Some(message) => " reason=\""@ + escaped(sanitized(message@)) + "\""@,
        None => Seq::empty(),
    }
}

fn reason(message: &Option<String>) -> (text: String)
    ensures
        text@ == reason_text(*message),
{
    match message {
        Some(message) => " reason=\"".to_owned().concat(&quote_human(message)).concat("\""),
        None => String::new(),
    }
}

/// A text, or a dash where there is none.
pub open spec fn or_dash(text: Option<String>) -> Seq<char> {
    match text {
        Some(text) => text@,
        None => "-"@,
    }
}

fn text_or_dash(text: &Option<String>) -> (shown: String)
    ensures
        shown@ == or_dash(*text),
{
    match text {
        Some(text) => text.clone(),
        None => "-".to_owned(),
    }
}

/// A number as it is shown: by the given function, or as a dash where there is none.
pub open spec fn shows_number<F: Fn(Scalar) -> String>(
    show: F,
    value: Option<Scalar>,
    text: Seq<char>,
) -> bool {
    match value {
        Some(value) => exists|shown: String|
            #[trigger] call_ensures(show, (value,), shown) && shown@ == text,
        None => text == "-"@,
    }
}

fn number_or_dash<F: Fn(Scalar) -> String>(show: &F, value: Option<Scalar>) -> (text: String)
    requires
        forall|v: Scalar| #[trigger] call_requires(*show, (v,)),
    ensures
        shows_number(*show, value, text@),
{
    match value {
        Some(value) => show(value),
        None => "-".to_owned(),
    }
}

/// A rate as it is shown.
pub open spec fn shows_rate<F: Fn(Scalar) -> String>(
    show: F,
    value: Option<Scalar>,
    text: Seq<char>,
) -> bool {
    match value {
        Some(_) => exists|number: Seq<char>|
            #[trigger] shows_number(show, value, number) && text == number + " Mbps"@,
        None => text == "-"@,
    }
}

fn rate_or_dash<F: Fn(Scalar) -> String>(show: &F, value: Option<Scalar>) -> (text: String)
    requires
        forall|v: Scalar| #[trigger] call_requires(*show, (v,)),
    ensures
        shows_rate(*show, value, text@),
{
    match value {
        Some(_) => {
            let number = number_or_dash(show, value);
            let ghost digits = number@;
            let text = number.concat(" Mbps");
            proof {
                assert(shows_number(*show, value, digits));
            }
            text
        },
        None => "-".to_owned(),
    }
}

/// The share of a probe's packets that were lost, in percent: all, or none.
pub open spec fn loss_text(received: Option<u32>) -> Seq<char> {
    match received {
        Some(count) => if count > 0 {
            "0"@
        } else {
            "100"@
        },
        None => "-"@,
    }
}

fn loss_name(received: Option<u32>) -> (text: &'static str)
    ensures
        text@ == loss_text(received),
{
    match received {
        Some(count) => if count > 0 {
            "0"
        } else {
            "100"
        },
        None => "-",
    }
}

/// Where the event's line begins: when, what, and on which interface.
pub open spec fn line_start(at: Timestamp, what: Seq<char>, interface: Option<String>) -> Seq<char> {
    at.text_spec() + what + match interface {
        Some(name) => name@,
        None => "default-route"@,
    }
}

/// The server's name as it is shown.
pub open spec fn server_text(name: Option<String>) -> Seq<char> {
    match name {
        Some(name) => sanitized_endpoint(name@, parsed_url(name@)),
        None => "-"@,
    }
}

/// The line of a probe.
pub open spec fn ping_line(
    event: MeasurementEvent,
    at: Timestamp,
    rtt: Seq<char>,
) -> Seq<char> {
    line_start(at, " ping interface="@, event.interface) + " target="@ + or_dash(
        event.ping_target_ip,
    ) + " outcome="@ + outcome_text(event.outcome) + " rtt_ms="@ + rtt + " loss_pct="@ + loss_text(
        event.ping_packets_received,
    ) + reason_text(event.message) + "\n"@
}

/// The line of a bandwidth test.
pub open spec fn bandwidth_line(
    event: MeasurementEvent,
    at: Timestamp,
    download: Seq<char>,
    upload: Seq<char>,
) -> Seq<char> {
    line_start(at, " bandwidth interface="@, event.interface) + " provider="@ + (
    match event.provider_kind {
        Some(kind) => provider_text(kind),
        None => "-"@,
    }) + " server_name="@ + server_text(event.server_name) + " outcome="@ + outcome_text(
        event.outcome,
    ) + " download="@ + download + " upload="@ + upload + reason_text(event.message) + "\n"@
}

/// What people are shown of an event without secrets: a line for each probe and each bandwidth
/// test that is over, and nothing else.
pub open spec fn shows_event<F: Fn(Scalar) -> String>(
    show: F,
    event: MeasurementEvent,
    line: Option<Seq<char>>,
) -> bool {
    match (event.finished_at_utc, event.event_kind) {
        (Some(at), EventKind::PingProbe) => {
            &&& line is Some
            &&& exists|rtt: Seq<char>|
                #[trigger] shows_number(show, event.ping_rtt_ms, rtt) && line->0 == ping_line(
                    event,
                    at,
                    rtt,
                )
        },
        (Some(at), EventKind::Bandwidth) => {
            &&& line is Some
            &&& exists|download: Seq<char>, upload: Seq<char>|
                {
                    &&& #[trigger] shows_rate(show, event.download_mbps, download)
                    &&& #[trigger] shows_rate(show, event.upload_mbps, upload)
                    &&& line->0 == bandwidth_line(event, at, download, upload)
                }
        },
        _ => line is None,
    }
}

/// What a line says.
pub open spec fn line_view(line: Option<String>) -> Option<Seq<char>> {
    match line {
        Some(line) => Some(line@),
        None => None,
    }
}

fn start_line(at: Timestamp, what: &str, interface: &Option<String>) -> (line: String)
    ensures
        line@ == line_start(at, what@, *interface),
{
    let start = timestamp_text(at).concat(what);
    match interface {
        Some(name) => start.concat(name),
        None => start.concat("default-route"),
    }
}

/// The line that people are shown of an event. `show` writes a number.
pub fn human_line<F: Fn(Scalar) -> String>(event: &MeasurementEvent, show: F) -> (line: Option<
    String,
>)
    requires
        forall|v: Scalar| #[trigger] call_requires(show, (v,)),
    ensures
        exists|clean: MeasurementEvent|
            #[trigger] sanitized_copy(*event, clean) && shows_event(show, clean, line_view(line)),
{
    let clean = event.sanitized();
    let at = match clean.finished_at_utc {
        Some(at) => at,
        None => {
            return None;
        },
    };
    match clean.event_kind {
        EventKind::PingProbe => {
            let rtt = number_or_dash(&show, clean.ping_rtt_ms);
            let line = start_line(at, " ping interface=", &clean.interface).concat(
                " target=",
            ).concat(&text_or_dash(&clean.ping_target_ip)).concat(" outcome=").concat(
                outcome_name(clean.outcome),
            ).concat(" rtt_ms=").concat(&rtt).concat(" loss_pct=").concat(
                loss_name(clean.ping_packets_received),
            ).concat(&reason(&clean.message)).concat("\n");
            proof {
                assert(shows_number(show, clean.ping_rtt_ms, rtt@));
                assert(line@ == ping_line(clean, at, rtt@));
            }
            Some(line)
        },
        EventKind::Bandwidth => {
            let provider = match clean.provider_kind {
                Some(kind) => provider_name(kind),
                None => "-",
            };
            let server = match &clean.server_name {
                Some(name) => sanitize_endpoint(name),
                None => "-".to_owned(),
            };
            let download = rate_or_dash(&show, clean.download_mbps);
            let upload = rate_or_dash(&show, clean.upload_mbps);
            let line = start_line(at, " bandwidth interface=", &clean.interface).concat(
                " provider=",
            ).concat(provider).concat(" server_name=").concat(&server).concat(" outcome=").concat(
                outcome_name(clean.outcome),
            ).concat(" download=").concat(&download).concat(" upload=").concat(&upload).concat(
                &reason(&clean.message),
            ).concat("\n");
            proof {
                assert(shows_rate(show, clean.download_mbps, download@));
                assert(shows_rate(show, clean.upload_mbps, upload@));
                assert(line@ == bandwidth_line(clean, at, download@, upload@));
            }
            Some(line)
        },
        _ => None,
    }
}

proof fn lemma_escaped_has_no_breaks(text: Seq<char>)
    ensures
        !escaped(text).contains('\n'),
        !escaped(text).contains('\r'),
    decreases text.len(),
{
    if text.len() > 0 {
        lemma_escaped_has_no_breaks(text.drop_last());
        let before = escaped(text.drop_last());
        let after = escaped(text);
        assert forall|i: int| 0 <= i < after.len() implies after[i] != '\n' && after[i] != '\r' by {
            if i < before.len() {
                assert(after[i] == before[i]);
                assert(before.contains(before[i]));
            }
        }
    }
}

/// A message never breaks the line that it is shown on.
pub proof fn law_messages_stay_on_one_line(message: Seq<char>)
    ensures
        !escaped(sanitized(message)).contains('\n'),
        !escaped(sanitized(message)).contains('\r'),
{
    lemma_escaped_has_no_breaks(sanitized(message));
}

} // verus!
