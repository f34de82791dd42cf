//! The numbers that tell probes apart, and the rounds that can be asked.
use super::{
    PingExitStatus, PingRoundError, PingRoundReport, PingRoundRequest, probe_identifier,
    probe_sequence, validate_round_request,
};
use crate::config::Address;
use vstd::prelude::*;

verus! {

/// Probes are numbered one after the other, through the targets of a round and on through the
/// rounds; behind the largest number comes zero.
pub proof fn law_probes_are_numbered_in_order(
    round_number: u64,
    targets: usize,
    index: usize,
    one: u16,
    next: u16,
)
    requires
        0 < targets <= 65_536,
        index < targets,
        round_number < u64::MAX,
        call_ensures(probe_sequence, (round_number, targets, index), one),
        index + 1 < targets ==> call_ensures(
            probe_sequence,
            (round_number, targets, (index + 1) as usize),
            next,
        ),
        index + 1 == targets ==> call_ensures(
            probe_sequence,
            ((round_number + 1) as u64, targets, 0usize),
            next,
        ),
    ensures
        one < 65_535 ==> next == one + 1,
        one == 65_535 ==> next == 0,
        round_number == 0 ==> one == index,
{
    let count = targets as int;
    let at = round_number * count + index;
    assert((round_number + 1) * count == round_number * count + count) by (nonlinear_arith);
    assert(round_number * count >= 0) by (nonlinear_arith)
        requires
            count >= 0,
            round_number >= 0,
    ;
    assert(next == (at + 1) % 65_536);
    assert(round_number == 0 ==> at == index) by (nonlinear_arith)
        requires
            at == round_number * count + index,
    ;
}

/// Two runs of one process that are not a multiple of 65536 apart are told apart, and so are two
/// processes in the same run. Run zero has the low half of the process's own number.
pub proof fn law_runs_have_their_identifiers(
    process_id: u32,
    other_process: u32,
    run: u64,
    other_run: u64,
    one: u16,
    by_run: u16,
    by_process: u16,
)
    requires
        call_ensures(probe_identifier, (process_id, run), one),
        call_ensures(probe_identifier, (process_id, other_run), by_run),
        call_ensures(probe_identifier, (other_process, run), by_process),
    ensures
        one == by_run <==> run % 65_536 == other_run % 65_536,
        one == by_process <==> process_id % 65_536 == other_process % 65_536,
        run == 0 ==> one == process_id % 65_536,
{
    let p = process_id as u64;
    let q = other_process as u64;
    assert((#[verifier::truncate] ((p ^ run) as u16) == #[verifier::truncate] ((p
        ^ other_run) as u16)) == (run % 65_536 == other_run % 65_536)) by (bit_vector);
    assert((#[verifier::truncate] ((p ^ run) as u16) == #[verifier::truncate] ((q ^ run) as u16))
        == (p % 65_536 == q % 65_536)) by (bit_vector);
    assert(#[verifier::truncate] ((p ^ 0) as u16) == p % 65_536) by (bit_vector);
}

/// The address stands at two places.
pub open spec fn twice(targets: Seq<Address>) -> bool {
    exists|i: int, k: int|
        0 <= k < i < targets.len() && (#[trigger] targets[k]).ip == (#[trigger] targets[i]).ip
}

/// A round needs a target, takes 65536 at most, and each of them once.
pub proof fn law_round_needs_different_targets(
    request: PingRoundRequest,
    result: Result<(), PingRoundError>,
)
    requires
        call_ensures(validate_round_request, (&request,), result),
    ensures
        result is Ok <==> 1 <= request.targets@.len() <= 65_536 && !twice(request.targets@),
        result is Err && result->Err_0 is NoTargets <==> request.targets@.len() == 0,
        result is Err && result->Err_0 is TooManyTargets <==> request.targets@.len() > 65_536,
{
    let targets = request.targets@;
    if twice(targets) {
        let (i, k) = choose|i: int, k: int|
            0 <= k < i < targets.len() && (#[trigger] targets[k]).ip == (#[trigger] targets[i]).ip;
        assert(super::repeats(targets, i));
    } else {
        assert forall|i: int| 0 <= i < targets.len() implies !#[trigger] super::repeats(
            targets,
            i,
        ) by {
            if super::repeats(targets, i) {
                let k = choose|k: int| 0 <= k < i && (#[trigger] targets[k]).ip == targets[i].ip;
                assert(targets[k].ip == targets[i].ip);
            }
        }
    }
}

/// A round succeeds where no target failed.
pub proof fn law_failed_target_shows(report: PingRoundReport, status: PingExitStatus)
    requires
        call_ensures(PingRoundReport::exit_status, (&report,), status),
    ensures
        status == PingExitStatus::Success <==> report.failed_targets == 0,
        status == PingExitStatus::PartialFailure <==> report.failed_targets > 0,
{
}

} // verus!
