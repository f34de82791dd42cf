//! What people are shown, and what is said of what they are not shown.
use crate::cli::ConsoleMode;
use crate::console::{
    ConsoleDiagnostic, ConsoleFailure, ConsoleForm, ConsoleState, Handover, console_form, escaped,
    has_handed_over, human_line, loss_text, power_of_two, queue_capacity, quote_human, reason_text,
    server_text, shows_number, shows_rate, write_failure,
};
use crate::endpoint::parsed_url;
use crate::model::{EventKind, MeasurementEvent, sanitized_copy};
use crate::names::{outcome_text, provider_text};
use crate::sanitize::{sanitized, sanitized_endpoint};
use crate::scalar::Scalar;
use crate::time::{Timestamp, rfc3339_millis};
use vstd::arithmetic::power2::{lemma_pow2_strictly_increases, lemma_pow2_unfold, pow2};
use vstd::prelude::*;

verus! {

/// A full queue costs the event that came, and is told of as the count doubles; a closed one
/// switches the console off, which is told of once; and an event that is queued changes nothing.
pub proof fn law_dropped_events_are_counted(
    before: ConsoleState,
    handover: Handover,
    diagnostic: Option<ConsoleDiagnostic>,
    after: ConsoleState,
)
    requires
        has_handed_over(before, handover, diagnostic, after),
        before.dropped_events < u64::MAX,
    ensures
        handover == Handover::Queued ==> after == before && diagnostic is None,
        handover != Handover::Queued ==> after.dropped_events == before.dropped_events + 1,
        handover == Handover::Full ==> after.disabled == before.disabled && after.failure_reported
            == before.failure_reported,
        handover == Handover::Full && diagnostic is Some ==> diagnostic->0
            == (ConsoleDiagnostic::QueueFull {
            dropped_events: (before.dropped_events + 1) as u64,
        }),
        handover == Handover::Closed ==> after.disabled && after.failure_reported,
        handover == Handover::Closed && before.failure_reported ==> diagnostic is None,
        handover == Handover::Closed && !before.failure_reported ==> diagnostic == Some(
            ConsoleDiagnostic::WriterDisabled { reason: ConsoleFailure::Write },
        ),
{
}

/// A full queue is told of for the first event that is lost, and then whenever twice as many were
/// lost as the last time; never in between.
pub proof fn law_losses_are_told_as_they_double(
    before: ConsoleState,
    diagnostic: Option<ConsoleDiagnostic>,
    after: ConsoleState,
    told: u64,
    doublings: nat,
)
    requires
        has_handed_over(before, Handover::Full, diagnostic, after),
        before.dropped_events < u64::MAX,
        told == pow2(doublings),
    ensures
        after.dropped_events == told ==> diagnostic is Some,
        told < after.dropped_events < 2 * told ==> diagnostic is None,
        after.dropped_events == 2 * told ==> diagnostic is Some,
{
    lemma_pow2_unfold(doublings + 1);
    let count = after.dropped_events as nat;
    if count == told {
        assert(power_of_two(count));
    }
    if count == 2 * told {
        assert(count == pow2(doublings + 1));
        assert(power_of_two(count));
    }
    if told < count < 2 * told && power_of_two(count) {
        let k = choose|k: nat| count == #[trigger] pow2(k);
        if k < doublings {
            lemma_pow2_strictly_increases(k, doublings);
        } else if k > doublings + 1 {
            lemma_pow2_strictly_increases(doublings + 1, k);
        }
    }
}

/// Switching the console off is told of the first time only.
pub proof fn law_console_is_switched_off_once(before: ConsoleState, reason: ConsoleFailure)
    ensures
        before.disabling().disabled,
        before.disabling().failure_reported,
        before.disabling().dropped_events == before.dropped_events,
        !before.failure_reported ==> before.disabling_says(reason) == Some(
            ConsoleDiagnostic::WriterDisabled { reason },
        ),
        before.failure_reported ==> before.disabling_says(reason) is None,
        before.disabling().disabling_says(reason) is None,
        before.dropped_events < u64::MAX ==> before.dropping().dropped_events
            == before.dropped_events + 1,
        before.dropping().disabled == before.disabled,
        before.dropping().failure_reported == before.failure_reported,
{
}

/// Events are shown for people unless they are wanted as objects or not at all. One can always
/// wait, and a reader that is gone is told from one that fails.
pub proof fn law_modes_have_their_forms(
    mode: ConsoleMode,
    form: Option<ConsoleForm>,
    capacity: usize,
    effective: usize,
    broken_pipe: bool,
    failure: ConsoleFailure,
)
    requires
        call_ensures(console_form, (mode,), form),
        call_ensures(queue_capacity, (capacity,), effective),
        call_ensures(write_failure, (broken_pipe,), failure),
    ensures
        form is None <==> mode == ConsoleMode::Off,
        form == Some(ConsoleForm::Jsonl) <==> mode == ConsoleMode::Jsonl,
        effective >= 1,
        capacity >= 1 ==> effective == capacity,
        capacity == 0 ==> effective == 1,
        failure == ConsoleFailure::BrokenPipe <==> broken_pipe,
        failure == ConsoleFailure::Write <==> !broken_pipe,
{
}

/// What a character becomes between quotation marks.
pub open spec fn spelled(c: char) -> Seq<char> {
    if c == '"' {
        seq!['\\', '"']
    } else if c == '\n' || c == '\r' {
        seq![' ']
    } else {
        seq![c]
    }
}

proof fn lemma_escaped_grows(text: Seq<char>, c: char)
    ensures
        escaped(text.push(c)) == escaped(text) + spelled(c),
{
    assert(text.push(c).drop_last() =~= text);
    assert(escaped(text.push(c)) =~= escaped(text) + spelled(c));
}

/// A message is spelled out character by character: a quotation mark with a backslash before it, a
/// line break as a space, and anything else as it is.
pub proof fn law_message_is_spelled_out(value: &str, quoted: String, text: Seq<char>, c: char)
    requires
        call_ensures(quote_human, (value,), quoted),
        sanitized(value@) == text.push(c),
    ensures
        quoted@ == escaped(text) + spelled(c),
        escaped(Seq::empty()) == Seq::<char>::empty(),
{
    lemma_escaped_grows(text, c);
}

/// The time as a line begins with it.
pub open spec fn clock_text(at: Timestamp) -> Seq<char> {
    rfc3339_millis((at.nanos as int / 1_000_000_000) as i64, (at.nanos as int % 1_000_000_000) as u32)
}

/// The interface as a line names it.
pub open spec fn interface_words(interface: Option<String>) -> Seq<char> {
    if interface is Some {
        interface->0@
    } else {
        "default-route"@
    }
}

/// The reason as a line ends with it.
pub open spec fn reason_words(message: Option<String>) -> Seq<char> {
    if message is Some {
        " reason=\""@ + escaped(sanitized(message->0@)) + "\""@
    } else {
        Seq::empty()
    }
}

/// A line tells of a probe.
pub open spec fn tells_probe(event: MeasurementEvent, rtt: Seq<char>, line: Seq<char>) -> bool {
    let loss = if event.ping_packets_received is None {
        "-"@
    } else if event.ping_packets_received->0 == 0 {
        "100"@
    } else {
        "0"@
    };
    let target = if event.ping_target_ip is Some {
        event.ping_target_ip->0@
    } else {
        "-"@
    };
    line == clock_text(event.finished_at_utc->0) + " ping interface="@ + interface_words(
        event.interface,
    ) + " target="@ + target + " outcome="@ + outcome_text(event.outcome) + " rtt_ms="@ + rtt
        + " loss_pct="@ + loss + reason_words(event.message) + "\n"@
}

/// A line tells of a bandwidth test.
pub open spec fn tells_transfer(
    event: MeasurementEvent,
    download: Seq<char>,
    upload: Seq<char>,
    line: Seq<char>,
) -> bool {
    let provider = if event.provider_kind is Some {
        provider_text(event.provider_kind->0)
    } else {
        "-"@
    };
    let server = if event.server_name is Some {
        sanitized_endpoint(event.server_name->0@, parsed_url(event.server_name->0@))
    } else {
        "-"@
    };
    line == clock_text(event.finished_at_utc->0) + " bandwidth interface="@ + interface_words(
        event.interface,
    ) + " provider="@ + provider + " server_name="@ + server + " outcome="@ + outcome_text(
        event.outcome,
    ) + " download="@ + download + " upload="@ + upload + reason_words(event.message) + "\n"@
}

/// The number is written by the given function, or is a dash.
pub open spec fn number_words<F: Fn(Scalar) -> String>(
    show: F,
    value: Option<Scalar>,
    text: Seq<char>,
) -> bool {
    &&& value is None ==> text == "-"@
    &&& value is Some ==> exists|shown: String|
        #[trigger] call_ensures(show, (value->0,), shown) && shown@ == text
}

/// The rate is written by the given function and its unit, or is a dash.
pub open spec fn rate_words<F: Fn(Scalar) -> String>(
    show: F,
    value: Option<Scalar>,
    text: Seq<char>,
) -> bool {
    &&& value is None ==> text == "-"@
    &&& value is Some ==> exists|shown: String|
        #[trigger] call_ensures(show, (value->0,), shown) && text == shown@ + " Mbps"@
}

/// People are shown a line for each probe and each bandwidth test that is over, with its own
/// readings each behind its own name, and no line for anything else.
pub proof fn law_line_tells_the_measurement<F: Fn(Scalar) -> String>(
    event: MeasurementEvent,
    show: F,
    line: Option<String>,
) -> (told: (MeasurementEvent, Seq<char>, Seq<char>))
    requires
        call_ensures(human_line::<F>, (&event, show), line),
        event.finished_at_utc is Some ==> event.finished_at_utc->0.valid(),
    ensures
        sanitized_copy(event, told.0),
        line is Some <==> event.finished_at_utc is Some && (event.event_kind == EventKind::PingProbe
            || event.event_kind == EventKind::Bandwidth),
        line is Some && event.event_kind == EventKind::PingProbe ==> number_words(
            show,
            event.ping_rtt_ms,
            told.1,
        ) && tells_probe(told.0, told.1, line->0@),
        line is Some && event.event_kind == EventKind::Bandwidth ==> rate_words(
            show,
            event.download_mbps,
            told.1,
        ) && rate_words(show, event.upload_mbps, told.2) && tells_transfer(
            told.0,
            told.1,
            told.2,
            line->0@,
        ),
{
    let clean = choose|clean: MeasurementEvent|
        #[trigger] sanitized_copy(event, clean) && crate::console::shows_event(
            show,
            clean,
            crate::console::line_view(line),
        );
    assert(clean.message is Some ==> reason_text(clean.message) == reason_words(clean.message));
    if clean.finished_at_utc is Some && clean.event_kind == EventKind::PingProbe {
        let at = clean.finished_at_utc->0;
        let rtt = choose|rtt: Seq<char>|
            #[trigger] shows_number(show, clean.ping_rtt_ms, rtt) && line->0@
                == crate::console::ping_line(clean, at, rtt);
        assert(number_words(show, clean.ping_rtt_ms, rtt));
        assert(at.text_spec() == clock_text(at));
        assert(loss_text(clean.ping_packets_received) == (if clean.ping_packets_received is None {
            "-"@
        } else if clean.ping_packets_received->0 == 0 {
            "100"@
        } else {
            "0"@
        }));
        assert(tells_probe(clean, rtt, line->0@)) by {
            lemma_joined(
                at.text_spec(),
                " ping interface="@,
                interface_words(clean.interface),
            );
        }
        (clean, rtt, Seq::empty())
    } else if clean.finished_at_utc is Some && clean.event_kind == EventKind::Bandwidth {
        let at = clean.finished_at_utc->0;
        let (download, upload) = choose|download: Seq<char>, upload: Seq<char>|
            {
                &&& #[trigger] shows_rate(show, clean.download_mbps, download)
                &&& #[trigger] shows_rate(show, clean.upload_mbps, upload)
                &&& line->0@ == crate::console::bandwidth_line(clean, at, download, upload)
            };
        lemma_rate_words(show, clean.download_mbps, download);
        lemma_rate_words(show, clean.upload_mbps, upload);
        assert(at.text_spec() == clock_text(at));
        assert(clean.server_name is Some ==> server_text(clean.server_name) == sanitized_endpoint(
            clean.server_name->0@,
            parsed_url(clean.server_name->0@),
        ));
        assert(tells_transfer(clean, download, upload, line->0@)) by {
            lemma_joined(
                at.text_spec(),
                " bandwidth interface="@,
                interface_words(clean.interface),
            );
        }
        (clean, download, upload)
    } else {
        (clean, Seq::empty(), Seq::empty())
    }
}

proof fn lemma_joined(a: Seq<char>, b: Seq<char>, c: Seq<char>)
    ensures
        a + b + c == a + (b + c),
{
    assert(a + b + c =~= a + (b + c));
}

proof fn lemma_rate_words<F: Fn(Scalar) -> String>(
    show: F,
    value: Option<Scalar>,
    text: Seq<char>,
)
    requires
        shows_rate(show, value, text),
    ensures
        rate_words(show, value, text),
{
    if value is Some {
        let number = choose|number: Seq<char>|
            #[trigger] shows_number(show, value, number) && text == number + " Mbps"@;
        let shown = choose|shown: String|
            #[trigger] call_ensures(show, (value->0,), shown) && shown@ == number;
        assert(call_ensures(show, (value->0,), shown) && text == shown@ + " Mbps"@);
    }
}

} // verus!
