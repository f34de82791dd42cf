//! What holds of judging a connection, told by its probes.
use crate::health::{
    DegradationReason, HealthConfig, HealthDecision, HealthSample, HealthWindow, all_samples,
    by_key, good_round, law_recovery_takes_good_rounds_in_a_row, p95, p95_rank, round_snapshot,
    round_views, rounds_observed, rtts_of, samples_of, successes,
};
use crate::model::MeasurementEvent;
use crate::scalar::Scalar;
use vstd::multiset::Multiset;
use vstd::prelude::*;

verus! {

/// How many probes were answered.
pub open spec fn answered(samples: Seq<HealthSample>) -> nat {
    samples.filter(|s: HealthSample| s.successful).len()
}

/// The probe was answered and its round trip was timed.
pub open spec fn timed(sample: HealthSample) -> bool {
    sample.successful && sample.rtt_ms is Some
}

/// How many round trips were timed.
pub open spec fn timings(samples: Seq<HealthSample>) -> nat
    decreases samples.len(),
{
    if samples.len() == 0 {
        0
    } else {
        timings(samples.drop_last()) + if timed(samples.last()) {
            1nat
        } else {
            0
        }
    }
}

/// How many round trips took no longer than a reading whose key is given.
pub open spec fn timings_within(samples: Seq<HealthSample>, key: int) -> nat
    decreases samples.len(),
{
    if samples.len() == 0 {
        0
    } else {
        timings_within(samples.drop_last(), key) + if timed(samples.last())
            && samples.last().rtt_ms->0.key <= key {
            1nat
        } else {
            0
        }
    }
}

/// The 95th percentile of round trips: one of them, that at least nineteen in twenty do not exceed
/// and that fewer than nineteen in twenty are below.
pub open spec fn is_p95(samples: Seq<HealthSample>, reading: Scalar) -> bool {
    &&& exists|i: int|
        0 <= i < samples.len() && timed(#[trigger] samples[i]) && samples[i].rtt_ms == Some(reading)
    &&& 20 * timings_within(samples, reading.key as int) >= 19 * timings(samples)
    &&& 20 * timings_within(samples, reading.key - 1) < 19 * timings(samples)
}

spec fn within(key: int) -> spec_fn(Scalar) -> bool {
    |s: Scalar| s.key <= key
}

spec fn readings_within(readings: Seq<Scalar>, key: int) -> nat
    decreases readings.len(),
{
    if readings.len() == 0 {
        0
    } else {
        readings_within(readings.drop_last(), key) + if readings.last().key <= key {
            1nat
        } else {
            0
        }
    }
}

proof fn lemma_readings_of_samples(samples: Seq<HealthSample>, key: int)
    ensures
        rtts_of(samples).len() == timings(samples),
        readings_within(rtts_of(samples), key) == timings_within(samples, key),
        forall|k: int|
            0 <= k < rtts_of(samples).len() ==> exists|i: int|
                0 <= i < samples.len() && timed(#[trigger] samples[i]) && samples[i].rtt_ms == Some(
                    #[trigger] rtts_of(samples)[k],
                ),
    decreases samples.len(),
{
    if samples.len() > 0 {
        let rest = samples.drop_last();
        lemma_readings_of_samples(rest, key);
        let before = rtts_of(rest);
        let readings = rtts_of(samples);
        if timed(samples.last()) {
            assert(readings.drop_last() =~= before);
        }
        assert forall|k: int| 0 <= k < readings.len() implies exists|i: int|
            0 <= i < samples.len() && timed(#[trigger] samples[i]) && samples[i].rtt_ms == Some(
                #[trigger] readings[k],
            ) by {
            if k < before.len() {
                assert(readings[k] == before[k]);
                let i = choose|i: int|
                    0 <= i < rest.len() && timed(#[trigger] rest[i]) && rest[i].rtt_ms == Some(
                        before[k],
                    );
                assert(samples[i] == rest[i]);
            } else {
                assert(timed(samples[samples.len() - 1]));
            }
        }
    }
}

proof fn lemma_readings_of_multiset(readings: Seq<Scalar>, key: int)
    ensures
        readings_within(readings, key) == readings.to_multiset().filter(within(key)).len(),
    decreases readings.len(),
{
    broadcast use vstd::multiset::group_multiset_axioms;
    broadcast use vstd::seq_lib::group_to_multiset_ensures;

    if readings.len() == 0 {
        assert(readings.to_multiset() =~= Multiset::empty());
        assert(readings.to_multiset().filter(within(key)) =~= Multiset::empty());
    } else {
        let rest = readings.drop_last();
        lemma_readings_of_multiset(rest, key);
        assert(readings =~= rest.push(readings.last()));
        assert(readings.to_multiset() =~= rest.to_multiset().insert(readings.last()));
        if within(key)(readings.last()) {
            assert(readings.to_multiset().filter(within(key)) =~= rest.to_multiset().filter(
                within(key),
            ).insert(readings.last()));
        } else {
            assert(readings.to_multiset().filter(within(key)) =~= rest.to_multiset().filter(
                within(key),
            ));
        }
    }
}

proof fn lemma_at_least_so_many(readings: Seq<Scalar>, key: int, k: int)
    requires
        0 <= k <= readings.len(),
        forall|i: int| 0 <= i < k ==> (#[trigger] readings[i]).key <= key,
    ensures
        readings_within(readings, key) >= k,
    decreases readings.len(),
{
    if readings.len() > 0 {
        let rest = readings.drop_last();
        if k == readings.len() {
            assert(readings[k - 1].key <= key);
            assert forall|i: int| 0 <= i < k - 1 implies (#[trigger] rest[i]).key <= key by {
                assert(rest[i] == readings[i]);
            }
            lemma_at_least_so_many(rest, key, k - 1);
        } else {
            assert forall|i: int| 0 <= i < k implies (#[trigger] rest[i]).key <= key by {
                assert(rest[i] == readings[i]);
            }
            lemma_at_least_so_many(rest, key, k);
        }
    }
}

proof fn lemma_at_most_so_many(readings: Seq<Scalar>, key: int, k: int)
    requires
        0 <= k,
        forall|i: int| k <= i < readings.len() ==> (#[trigger] readings[i]).key > key,
    ensures
        readings_within(readings, key) <= k,
        readings_within(readings, key) <= readings.len(),
    decreases readings.len(),
{
    if readings.len() > 0 {
        let rest = readings.drop_last();
        assert forall|i: int| k <= i < rest.len() implies (#[trigger] rest[i]).key > key by {
            assert(rest[i] == readings[i]);
        }
        lemma_at_most_so_many(rest, key, k);
        if k < readings.len() {
            assert(readings[readings.len() - 1].key > key);
        }
    }
}

/// What is shown as the 95th percentile of some probes is that of their round trips, and nothing
/// is shown exactly where none was timed.
pub proof fn law_p95_is_of_the_probes(samples: Seq<HealthSample>)
    ensures
        p95(rtts_of(samples)) is None <==> timings(samples) == 0,
        p95(rtts_of(samples)) matches Some(reading) ==> is_p95(samples, reading),
{
    let readings = rtts_of(samples);
    lemma_readings_of_samples(samples, 0);
    if readings.len() > 0 {
        let sorted = readings.sort_by(by_key());
        readings.lemma_sort_by_ensures(by_key());
        readings.to_multiset_ensures();
        sorted.to_multiset_ensures();
        let rank = p95_rank(readings.len() as int);
        let found = sorted[rank - 1];
        assert(sorted.len() == readings.len());
        let key = found.key as int;
        lemma_readings_of_samples(samples, key);
        lemma_readings_of_samples(samples, key - 1);
        lemma_readings_of_multiset(readings, key);
        lemma_readings_of_multiset(sorted, key);
        lemma_readings_of_multiset(readings, key - 1);
        lemma_readings_of_multiset(sorted, key - 1);
        assert forall|i: int| 0 <= i < rank implies (#[trigger] sorted[i]).key <= key by {
            if i < rank - 1 {
                assert(by_key()(sorted[i], sorted[rank - 1]));
            }
        }
        lemma_at_least_so_many(sorted, key, rank);
        assert forall|i: int| rank - 1 <= i < sorted.len() implies (#[trigger] sorted[i]).key
            > key - 1 by {
            if i > rank - 1 {
                assert(by_key()(sorted[rank - 1], sorted[i]));
            }
        }
        lemma_at_most_so_many(sorted, key - 1, rank - 1);
        assert(sorted.to_multiset().contains(found));
        assert(readings.to_multiset().contains(found));
        assert(readings.contains(found));
        let k = choose|k: int| 0 <= k < readings.len() && readings[k] == found;
        assert(readings[k] == found);
    }
}

/// The probes that are counted as answered are those that were, and the probes of some rounds are
/// those of each, one round behind the other.
pub proof fn law_every_probe_counts(samples: Seq<HealthSample>, rounds: Seq<Seq<HealthSample>>)
    ensures
        successes(samples) == answered(samples),
        answered(samples) <= samples.len(),
        all_samples(rounds) == rounds.flatten(),
{
    lemma_answered(samples);
    lemma_all_samples(rounds);
    rounds.lemma_flatten_and_flatten_alt_are_equivalent();
}

proof fn lemma_answered(samples: Seq<HealthSample>)
    ensures
        successes(samples) == answered(samples),
        answered(samples) <= samples.len(),
    decreases samples.len(),
{
    reveal(Seq::filter);
    if samples.len() > 0 {
        lemma_answered(samples.drop_last());
    }
}

proof fn lemma_all_samples(rounds: Seq<Seq<HealthSample>>)
    ensures
        all_samples(rounds) == rounds.flatten_alt(),
    decreases rounds.len(),
{
    if rounds.len() > 0 {
        lemma_all_samples(rounds.drop_last());
    }
}

/// The probes that events tell of are those of the ping events, in order: answered where the
/// outcome is success, and only then timed.
pub proof fn law_events_tell_their_probes(events: Seq<MeasurementEvent>)
    ensures
        samples_of(events) == events.filter(
            |e: MeasurementEvent| e.event_kind is PingProbe,
        ).map_values(
            |e: MeasurementEvent|
                if e.outcome is Success {
                    HealthSample { successful: true, rtt_ms: e.ping_rtt_ms }
                } else {
                    HealthSample { successful: false, rtt_ms: None }
                },
        ),
    decreases events.len(),
{
    reveal(Seq::filter);
    let test = |e: MeasurementEvent| e.event_kind is PingProbe;
    let tell = |e: MeasurementEvent|
        if e.outcome is Success {
            HealthSample { successful: true, rtt_ms: e.ping_rtt_ms }
        } else {
            HealthSample { successful: false, rtt_ms: None }
        };
    if events.len() > 0 {
        law_events_tell_their_probes(events.drop_last());
        let before = events.drop_last().filter(test);
        if test(events.last()) {
            assert(before.push(events.last()).map_values(tell) =~= before.map_values(tell).push(
                tell(events.last()),
            ));
        }
    }
    assert(samples_of(events) =~= events.filter(test).map_values(tell));
}

/// Both readings are numbers, and the first is no less than the second.
pub open spec fn reaches(reading: Scalar, limit: Scalar) -> bool {
    &&& -0x7ff0_0000_0000_0001 <= reading.key <= 0x7ff0_0000_0000_0000
    &&& -0x7ff0_0000_0000_0001 <= limit.key <= 0x7ff0_0000_0000_0000
    &&& reading.key >= limit.key || (reading.key == -1 && limit.key == 0)
}

/// Both readings are numbers, and the first is less than the second.
pub open spec fn stays_under(reading: Scalar, limit: Scalar) -> bool {
    &&& -0x7ff0_0000_0000_0001 <= reading.key <= 0x7ff0_0000_0000_0000
    &&& -0x7ff0_0000_0000_0001 <= limit.key <= 0x7ff0_0000_0000_0000
    &&& reading.key < limit.key && !(reading.key == -1 && limit.key == 0)
}

/// A round that counts towards recovery: probes were sent, the share of lost ones does not reach
/// the limit for recovery, and where round trips have a limit, they were timed and their 95th
/// percentile is below it.
pub open spec fn calm_round(samples: Seq<HealthSample>, loss_pct: Scalar, config: HealthConfig)
    -> bool {
    &&& samples.len() > 0
    &&& !reaches(loss_pct, config.recovery_loss_pct)
    &&& config.rtt_threshold_ms matches Some(limit) ==> exists|reading: Scalar| #[trigger]
        is_p95(samples, reading) && stays_under(reading, limit)
}

proof fn lemma_one_p95(samples: Seq<HealthSample>, a: Scalar, b: Scalar)
    requires
        is_p95(samples, a),
        is_p95(samples, b),
    ensures
        a == b,
{
    if a.key < b.key {
        lemma_within_grows(samples, a.key as int, b.key - 1);
    } else if b.key < a.key {
        lemma_within_grows(samples, b.key as int, a.key - 1);
    }
}

proof fn lemma_within_grows(samples: Seq<HealthSample>, a: int, b: int)
    requires
        a <= b,
    ensures
        timings_within(samples, a) <= timings_within(samples, b),
    decreases samples.len(),
{
    if samples.len() > 0 {
        lemma_within_grows(samples.drop_last(), a, b);
    }
}

proof fn lemma_good_round_is_calm(
    rounds: Seq<Seq<HealthSample>>,
    losses: Seq<(Scalar, Scalar)>,
    config: HealthConfig,
    j: int,
)
    requires
        0 <= j < rounds.len(),
        rounds[j].len() <= u32::MAX,
    ensures
        good_round(rounds, losses, config, j) == calm_round(rounds[j], losses[j].0, config),
{
    let samples = rounds[j];
    let shown = round_snapshot(samples, losses[j].0);
    law_p95_is_of_the_probes(samples);
    assert(shown.attempted == samples.len());
    if config.rtt_threshold_ms is Some {
        let limit = config.rtt_threshold_ms->0;
        if exists|reading: Scalar| #[trigger] is_p95(samples, reading) && stays_under(
            reading,
            limit,
        ) {
            let reading = choose|reading: Scalar| #[trigger]
                is_p95(samples, reading) && stays_under(reading, limit);
            lemma_timed_somewhere(samples, reading);
            lemma_one_p95(samples, reading, shown.p95_rtt_ms->0);
        }
    }
}

proof fn lemma_timed_somewhere(samples: Seq<HealthSample>, reading: Scalar)
    requires
        is_p95(samples, reading),
    ensures
        timings(samples) > 0,
{
}

/// A connection that degraded recovers with a round exactly if that round and the ones just before
/// it, as many as are configured and all behind the one that degraded it, were calm: in each of
/// them probes were sent, the share of lost ones stayed below the limit for recovery, and the 95th
/// percentile of its round trips stayed below their limit where there is one.
pub proof fn law_recovery_takes_calm_rounds<F: Fn(usize, usize) -> Scalar>(
    windows: Seq<HealthWindow>,
    rounds: Seq<Seq<HealthSample>>,
    losses: Seq<(Scalar, Scalar)>,
    decisions: Seq<HealthDecision>,
    loss_pct: F,
    reason: DegradationReason,
)
    requires
        rounds_observed(windows, rounds, losses, decisions, loss_pct),
        rounds.len() >= 2,
        forall|j: int| 0 <= j < rounds.len() ==> (#[trigger] rounds[j]).len() <= u32::MAX,
        windows[0].condition.degraded is None,
        decisions[0] is Degraded,
        decisions[0]->reason == reason,
        forall|j: int| 1 <= j < rounds.len() - 1 ==> !(#[trigger] decisions[j] is Recovered),
        windows[0].config.recovery_rounds > 0,
    ensures
        ({
            let config = windows[0].config;
            let wanted = config.recovery_rounds as int;
            let last = rounds.len() - 1;
            &&& decisions[last] is Recovered <==> {
                &&& wanted <= last
                &&& forall|j: int|
                    last - wanted < j <= last ==> calm_round(
                        #[trigger] rounds[j],
                        losses[j].0,
                        config,
                    )
            }
            &&& forall|j: int|
                0 <= j <= last ==> call_ensures(
                    loss_pct,
                    ((#[trigger] rounds[j]).len() as usize, answered(rounds[j]) as usize),
                    losses[j].0,
                )
        }),
{
    law_recovery_takes_good_rounds_in_a_row(windows, rounds, losses, decisions, loss_pct, reason);
    let config = windows[0].config;
    let wanted = config.recovery_rounds as int;
    let last = rounds.len() - 1;
    if decisions[last] is Recovered {
        assert forall|j: int| last - wanted < j <= last implies calm_round(
            #[trigger] rounds[j],
            losses[j].0,
            config,
        ) by {
            assert(good_round(rounds, losses, config, j));
            lemma_good_round_is_calm(rounds, losses, config, j);
        }
    }
    if wanted <= last && forall|j: int|
        last - wanted < j <= last ==> calm_round(#[trigger] rounds[j], losses[j].0, config) {
        assert forall|j: int| last - wanted < j <= last implies #[trigger] good_round(
            rounds,
            losses,
            config,
            j,
        ) by {
            assert(calm_round(rounds[j], losses[j].0, config));
            lemma_good_round_is_calm(rounds, losses, config, j);
        }
    }
    assert forall|j: int| 0 <= j <= last implies call_ensures(
        loss_pct,
        ((#[trigger] rounds[j]).len() as usize, answered(rounds[j]) as usize),
        losses[j].0,
    ) by {
        assert(HealthWindow::observes(
            windows[j],
            windows[j + 1],
            rounds[j],
            loss_pct,
            decisions[j],
            losses[j],
        ));
        lemma_answered(rounds[j]);
    }
}

/// The last rounds, no more than `count`.
pub open spec fn newest(rounds: Seq<Seq<HealthSample>>, count: int) -> Seq<Seq<HealthSample>> {
    if rounds.len() > count {
        rounds.subrange(rounds.len() - count, rounds.len() as int)
    } else {
        rounds
    }
}

/// A round joins the window and the oldest ones leave it. What is told shows the probes of the
/// window: how many were sent and answered, the share of lost ones that was found for these, and
/// the 95th percentile of their round trips. A healthy connection degrades exactly if there are
/// enough probes and the share of lost ones, or that percentile, reaches its limit; the reason says
/// which.
pub proof fn law_degradation_is_shown_by_the_window<F: Fn(usize, usize) -> Scalar>(
    before: HealthWindow,
    after: HealthWindow,
    samples: Seq<HealthSample>,
    loss_pct: F,
    decision: HealthDecision,
    losses: (Scalar, Scalar),
)
    requires
        HealthWindow::observes(before, after, samples, loss_pct, decision, losses),
        newest(
            round_views(before.rounds@).push(samples),
            before.config.window_rounds as int,
        ).flatten().len() <= u32::MAX,
    ensures
        ({
            let config = before.config;
            let kept = newest(
                round_views(before.rounds@).push(samples),
                config.window_rounds as int,
            );
            let window = kept.flatten();
            let shown = match decision {
                HealthDecision::Healthy(snapshot) => snapshot,
                HealthDecision::Recovered(snapshot) => snapshot,
                HealthDecision::Degraded { snapshot, .. } => snapshot,
            };
            let enough = window.len() >= config.min_samples;
            let lossy = reaches(losses.1, config.loss_threshold_pct);
            let slow = config.rtt_threshold_ms is Some && shown.p95_rtt_ms is Some && reaches(
                shown.p95_rtt_ms->0,
                config.rtt_threshold_ms->0,
            );
            &&& after.config == config
            &&& round_views(after.rounds@) == kept
            &&& call_ensures(
                loss_pct,
                (window.len() as usize, answered(window) as usize),
                losses.1,
            )
            &&& shown.attempted == window.len()
            &&& shown.successful == answered(window)
            &&& shown.loss_pct == losses.1
            &&& shown.sufficient_samples == enough
            &&& shown.p95_rtt_ms is None <==> timings(window) == 0
            &&& shown.p95_rtt_ms matches Some(reading) ==> is_p95(window, reading)
            &&& after.condition.degraded is Some <==> decision is Degraded
            &&& before.condition.degraded is None ==> {
                &&& decision is Degraded <==> enough && (lossy || slow)
                &&& decision is Healthy <==> !(enough && (lossy || slow))
                &&& decision is Degraded ==> decision->reason == if lossy && slow {
                    DegradationReason::LossAndRtt
                } else if lossy {
                    DegradationReason::Loss
                } else {
                    DegradationReason::Rtt
                }
            }
            &&& before.condition.degraded is Some ==> !(decision is Healthy)
            &&& before.condition.degraded is Some && decision is Degraded
                ==> before.condition.degraded == Some(decision->reason)
        }),
{
    let all = round_views(before.rounds@).push(samples);
    let kept = newest(all, before.config.window_rounds as int);
    assert(kept =~= crate::health::last_rounds(all, before.config.window_rounds as nat));
    let window = kept.flatten();
    law_every_probe_counts(window, kept);
    law_p95_is_of_the_probes(window);
}

} // verus!
