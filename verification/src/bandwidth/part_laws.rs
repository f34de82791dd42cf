//! What a test leads to, loads, sends and ends with.
use super::connect::connect_target;
use super::measure::{MeasureStep, phase_of};
use super::upload::{
    next_upload_message_size, payload_state, upload_payload, upload_payload_with_size,
};
use super::{BandwidthReport, blocked_report};
use crate::endpoint::Url;
use crate::model::{LoadPhase, MeasurementEvent, Outcome};
use crate::scheduler::chance_laws::stepped_back;
use vstd::prelude::*;

verus! {

/// A URL leads to its host, at the port that it names or its scheme has, or else at 443. One
/// without a host leads nowhere.
pub proof fn law_url_leads_to_its_host(url: Url, target: Option<(&str, u16)>)
    requires
        call_ensures(connect_target, (&url,), target),
    ensures
        target is Some <==> url.host is Some,
        target is Some ==> {
            &&& (target->0).0@ == url.host->0@
            &&& url.known_port is Some ==> (target->0).1 == url.known_port->0
            &&& url.known_port is None ==> (target->0).1 == 443
        },
{
}

/// A direction loads the line only while it is connected.
pub proof fn law_load_needs_a_connection(step: MeasureStep, connected: bool, phase: LoadPhase)
    requires
        call_ensures(phase_of, (&step, connected), phase),
    ensures
        phase == LoadPhase::Download <==> connected && step is Download,
        phase == LoadPhase::Upload <==> connected && step is Upload,
        phase == LoadPhase::Setup <==> !connected || step is Over,
{
}

/// A test ends with zero where it succeeded in full, and with one otherwise. A test that is held
/// back tells why and has started nothing.
pub proof fn law_only_full_success_is_zero(
    report: BandwidthReport,
    code: u8,
    event: MeasurementEvent,
    held_back: BandwidthReport,
)
    requires
        call_ensures(BandwidthReport::exit_code, (&report,), code),
        call_ensures(blocked_report, (event,), held_back),
    ensures
        code == 0 <==> report.outcome == Outcome::Success,
        code == 1 <==> report.outcome != Outcome::Success,
        held_back.events@.len() == 1,
        held_back.events@[0] == event,
        held_back.outcome == Outcome::Suppressed,
        !held_back.reserved,
        held_back.reservation_error is None,
{
}

/// A message grows to twice its size once sixteen times its size was sent and more, up to a
/// mebibyte; otherwise it stays.
pub proof fn law_messages_grow_with_what_was_sent(current: usize, total: u64, size: usize)
    requires
        call_ensures(next_upload_message_size, (current, total), size),
        8_192 <= current <= 1_048_576,
    ensures
        size == current <==> current == 1_048_576 || total < 16 * (current + 1),
        size != current && current <= 524_288 ==> size == 2 * current,
        size != current && current > 524_288 ==> size == 1_048_576,
{
}

/// A message has the size that is asked for, and the first one 8192 bytes. The numbers whose low
/// bytes it is made of follow one another in the pseudo-random sequence from the seed on, whose
/// lowest bit is set.
pub proof fn law_message_follows_from_its_seed(size: usize, seed: u64, bytes: Vec<u8>, i: int)
    requires
        call_ensures(upload_payload_with_size, (size, seed), bytes) || (size == 8_192
            && call_ensures(upload_payload, (seed,), bytes)),
        0 <= i < size,
    ensures
        bytes@.len() == size,
        bytes@[i] == payload_state(seed, (i + 1) as nat) % 256,
        payload_state(seed, 0) % 2 == 1,
        payload_state(seed, 0) / 2 == seed / 2,
        stepped_back(payload_state(seed, (i + 1) as nat)) == payload_state(seed, i as nat),
{
    let state = payload_state(seed, (i + 1) as nat);
    assert((state & 0xff) == state % 256) by (bit_vector);
    assert((seed | 1) % 2 == 1 && (seed | 1) / 2 == seed / 2) by (bit_vector);
    lemma_never_zero(seed, i as nat);
    crate::scheduler::chance_laws::law_sequence_can_be_taken_back(
        payload_state(seed, i as nat),
        1,
    );
}

proof fn lemma_never_zero(seed: u64, n: nat)
    ensures
        payload_state(seed, n) != 0,
    decreases n,
{
    if n == 0 {
        assert(seed | 1 != 0) by (bit_vector);
    } else {
        lemma_never_zero(seed, (n - 1) as nat);
        crate::scheduler::plan::law_random_state_stays_nonzero(
            payload_state(seed, (n - 1) as nat),
        );
    }
}

} // verus!
