//! Whether a connection is healthy.
use crate::config::TriggerConfig;
use crate::model::{EventKind, MeasurementEvent, Outcome};
use crate::scalar::Scalar;
use vstd::prelude::*;
use vstd::seq_lib::lemma_sorted_unique;

verus! {

/// What came of a probe.
#[derive(Clone, Copy, Debug, PartialEq, Eq, Structural)]
pub struct HealthSample {
    pub successful: bool,
    pub rtt_ms: Option<Scalar>,
}

/// What a window of probes shows.
#[derive(Clone, Copy, Debug, PartialEq, Eq, Structural)]
pub struct HealthSnapshot {
    pub attempted: usize,
    pub successful: usize,
    pub loss_pct: Scalar,
    pub p95_rtt_ms: Option<Scalar>,
    pub sufficient_samples: bool,
}

#[derive(Clone, Copy, Debug, PartialEq, Eq, Structural)]
pub enum DegradationReason {
    Loss,
    Rtt,
    LossAndRtt,
}

#[derive(Clone, Copy, Debug, PartialEq, Eq, Structural)]
pub enum HealthDecision {
    Healthy(HealthSnapshot),
    Degraded { snapshot: HealthSnapshot, reason: DegradationReason },
    Recovered(HealthSnapshot),
}

impl HealthDecision {
    pub open spec fn snapshot_spec(self) -> HealthSnapshot {
        match self {
            HealthDecision::Healthy(snapshot) => snapshot,
            HealthDecision::Recovered(snapshot) => snapshot,
            HealthDecision::Degraded { snapshot, .. } => snapshot,
        }
    }

    pub fn snapshot(self) -> (snapshot: HealthSnapshot)
        ensures
            snapshot == self.snapshot_spec(),
    {
        match self {
            HealthDecision::Healthy(snapshot) => snapshot,
            HealthDecision::Recovered(snapshot) => snapshot,
            HealthDecision::Degraded { snapshot, .. } => snapshot,
        }
    }
}

/// When a connection counts as degraded, and when as recovered.
#[derive(Clone, Copy, Debug, PartialEq, Eq, Structural)]
pub struct HealthConfig {
    pub window_rounds: usize,
    pub min_samples: usize,
    pub loss_threshold_pct: Scalar,
    pub rtt_threshold_ms: Option<Scalar>,
    pub recovery_loss_pct: Scalar,
    pub recovery_rounds: u32,
}

impl HealthConfig {
    /// The thresholds of a configuration.
    pub fn of(config: &TriggerConfig) -> (health: HealthConfig)
        ensures
            health == (HealthConfig {
                window_rounds: config.window_rounds as usize,
                min_samples: config.min_samples as usize,
                loss_threshold_pct: config.loss_threshold_pct,
                rtt_threshold_ms: config.rtt_threshold_ms,
                recovery_loss_pct: config.recovery_loss_pct,
                recovery_rounds: config.recovery_rounds,
            }),
    {
        HealthConfig {
            window_rounds: config.window_rounds as usize,
            min_samples: config.min_samples as usize,
            loss_threshold_pct: config.loss_threshold_pct,
            rtt_threshold_ms: config.rtt_threshold_ms,
            recovery_loss_pct: config.recovery_loss_pct,
            recovery_rounds: config.recovery_rounds,
        }
    }
}

/// Readings in order.
pub open spec fn by_key() -> spec_fn(Scalar, Scalar) -> bool {
    |a: Scalar, b: Scalar| a.key <= b.key
}

/// The round-trip times of the probes that succeeded.
pub open spec fn rtts_of(samples: Seq<HealthSample>) -> Seq<Scalar>
    decreases samples.len(),
{
    if samples.len() == 0 {
        Seq::empty()
    } else {
        let before = rtts_of(samples.drop_last());
        let last = samples.last();
        if last.successful && last.rtt_ms is Some {
            before.push(last.rtt_ms->0)
        } else {
            before
        }
    }
}

pub open spec fn successes(samples: Seq<HealthSample>) -> nat
    decreases samples.len(),
{
    if samples.len() == 0 {
        0
    } else {
        successes(samples.drop_last()) + if samples.last().successful {
            1nat
        } else {
            0nat
        }
    }
}

/// The place of the reading that nineteen in twenty do not exceed, counted from one.
pub open spec fn p95_rank(count: int) -> int {
    (count * 19 + 19) / 20
}

/// The reading that nineteen in twenty do not exceed.
pub open spec fn p95(readings: Seq<Scalar>) -> Option<Scalar> {
    if readings.len() == 0 {
        None
    } else {
        Some(readings.sort_by(by_key())[p95_rank(readings.len() as int) - 1])
    }
}

/// What probes were counted, before the share of lost ones is known.
#[derive(Clone, Copy, Debug, PartialEq, Eq, Structural)]
pub struct SampleCount {
    pub attempted: usize,
    pub successful: usize,
    pub p95_rtt_ms: Option<Scalar>,
}

/// What there is to count of probes.
pub open spec fn counts(samples: Seq<HealthSample>, count: SampleCount) -> bool {
    &&& count.attempted == samples.len()
    &&& count.successful == successes(samples)
    &&& count.p95_rtt_ms == p95(rtts_of(samples))
}

fn sort_readings(readings: &mut Vec<Scalar>)
    ensures
        final(readings)@ == old(readings)@.sort_by(by_key()),
        final(readings)@.len() == old(readings)@.len(),
{
    let ghost start = readings@;
    let mut sorted: Vec<Scalar> = Vec::new();
    let mut i: usize = 0;
    proof {
        start.take(0).to_multiset_ensures();
        assert(start.take(0) == sorted@);
    }
    while i < readings.len()
        invariant
            readings@ == start,
            i <= readings@.len(),
            sorted@.len() == i,
            sorted@.to_multiset() == start.take(i as int).to_multiset(),
            forall|a: int, b: int| 0 <= a <= b < sorted@.len() ==> sorted@[a].key <= sorted@[b].key,
        decreases readings@.len() - i,
    {
        let item = readings[i];
        let mut at: usize = sorted.len();
        while at > 0 && sorted[at - 1].key > item.key
            invariant
                at <= sorted@.len(),
                forall|k: int| at <= k < sorted@.len() ==> sorted@[k].key > item.key,
            decreases at,
        {
            at -= 1;
        }
        let ghost before = sorted@;
        sorted.insert(at, item);
        proof {
            broadcast use vstd::seq_lib::group_to_multiset_ensures;

            assert(sorted@ == before.insert(at as int, item));
            assert(sorted@.to_multiset() == before.to_multiset().insert(item));
            assert(start.take(i + 1) == start.take(i as int).push(item));
            assert(start.take(i + 1).to_multiset() == start.take(i as int).to_multiset().insert(
                item,
            ));
        }
        i += 1;
    }
    proof {
        assert(start.take(start.len() as int) == start);
        start.lemma_sort_by_ensures(by_key());
        lemma_sorted_unique(sorted@, start.sort_by(by_key()), by_key());
    }
    *readings = sorted;
}

/// Counts probes.
pub fn count_samples(samples: &Vec<HealthSample>) -> (count: SampleCount)
    requires
        samples@.len() <= u32::MAX,
    ensures
        counts(samples@, count),
{
    let mut rtts: Vec<Scalar> = Vec::new();
    let mut successful: usize = 0;
    let mut i: usize = 0;
    while i < samples.len()
        invariant
            i <= samples@.len(),
            samples@.len() <= u32::MAX,
            rtts@ == rtts_of(samples@.take(i as int)),
            rtts@.len() <= i,
            successful == successes(samples@.take(i as int)),
            successful <= i,
        decreases samples@.len() - i,
    {
        proof {
            assert(samples@.take(i + 1).drop_last() == samples@.take(i as int));
        }
        let sample = samples[i];
        if sample.successful {
            successful += 1;
            if let Some(rtt) = sample.rtt_ms {
                rtts.push(rtt);
            }
        }
        i += 1;
    }
    proof {
        assert(samples@.take(samples@.len() as int) == samples@);
    }
    let p95_rtt_ms = if rtts.len() == 0 {
        None
    } else {
        sort_readings(&mut rtts);
        let rank: u64 = (rtts.len() as u64 * 19 + 19) / 20;
        Some(rtts[rank as usize - 1])
    };
    SampleCount { attempted: samples.len(), successful, p95_rtt_ms }
}

/// What a window shows, once the share of lost probes is known.
pub open spec fn snapshot_of(count: SampleCount, loss_pct: Scalar, min_samples: usize)
    -> HealthSnapshot {
    HealthSnapshot {
        attempted: count.attempted,
        successful: count.successful,
        loss_pct,
        p95_rtt_ms: count.p95_rtt_ms,
        sufficient_samples: count.attempted >= min_samples,
    }
}

/// Why a window counts as degraded, if it does.
pub open spec fn degradation(snapshot: HealthSnapshot, config: HealthConfig) -> Option<
    DegradationReason,
> {
    let loss = snapshot.loss_pct.at_least(config.loss_threshold_pct);
    let rtt = config.rtt_threshold_ms is Some && snapshot.p95_rtt_ms is Some
        && snapshot.p95_rtt_ms->0.at_least(config.rtt_threshold_ms->0);
    if !snapshot.sufficient_samples {
        None
    } else if loss && rtt {
        Some(DegradationReason::LossAndRtt)
    } else if loss {
        Some(DegradationReason::Loss)
    } else if rtt {
        Some(DegradationReason::Rtt)
    } else {
        None
    }
}

/// Why a window counts as degraded.
pub fn degradation_reason(snapshot: HealthSnapshot, config: HealthConfig) -> (reason: Option<
    DegradationReason,
>)
    ensures
        reason == degradation(snapshot, config),
{
    if !snapshot.sufficient_samples {
        return None;
    }
    let loss: bool = snapshot.loss_pct.is_at_least(config.loss_threshold_pct);
    let rtt: bool = match (config.rtt_threshold_ms, snapshot.p95_rtt_ms) {
        (Some(threshold), Some(p95)) => p95.is_at_least(threshold),
        _ => false,
    };
    if loss && rtt {
        Some(DegradationReason::LossAndRtt)
    } else if loss {
        Some(DegradationReason::Loss)
    } else if rtt {
        Some(DegradationReason::Rtt)
    } else {
        None
    }
}

/// A round that counts towards recovery.
pub open spec fn recovering(snapshot: HealthSnapshot, config: HealthConfig) -> bool {
    &&& snapshot.attempted > 0
    &&& !snapshot.loss_pct.at_least(config.recovery_loss_pct)
    &&& config.rtt_threshold_ms is Some ==> snapshot.p95_rtt_ms is Some
        && snapshot.p95_rtt_ms->0.below(config.rtt_threshold_ms->0)
}

/// Whether a round counts towards recovery.
pub fn recovery_round(snapshot: HealthSnapshot, config: HealthConfig) -> (yes: bool)
    ensures
        yes == recovering(snapshot, config),
{
    if snapshot.attempted == 0 || snapshot.loss_pct.is_at_least(config.recovery_loss_pct) {
        return false;
    }
    match config.rtt_threshold_ms {
        Some(threshold) => match snapshot.p95_rtt_ms {
            Some(p95) => p95.is_below(threshold),
            None => false,
        },
        None => true,
    }
}

/// What is known of a connection besides the rounds themselves.
#[derive(Clone, Copy, Debug, PartialEq, Eq, Structural)]
pub struct Condition {
    pub degraded: Option<DegradationReason>,
    pub recovery_streak: u32,
}

/// What a round comes to: a connection degrades when its window is bad, stays degraded until
/// enough rounds in a row are good, and is healthy otherwise.
pub open spec fn judged(
    condition: Condition,
    config: HealthConfig,
    round: HealthSnapshot,
    window: HealthSnapshot,
) -> (Condition, HealthDecision) {
    match condition.degraded {
        None => match degradation(window, config) {
            Some(reason) => (
                Condition { degraded: Some(reason), recovery_streak: 0 },
                HealthDecision::Degraded { snapshot: window, reason },
            ),
            None => (condition, HealthDecision::Healthy(window)),
        },
        Some(reason) => {
            let streak: int = if recovering(round, config) {
                condition.recovery_streak + 1
            } else {
                0
            };
            if streak >= config.recovery_rounds {
                (
                    Condition { degraded: None, recovery_streak: 0 },
                    HealthDecision::Recovered(window),
                )
            } else {
                (
                    Condition { degraded: Some(reason), recovery_streak: streak as u32 },
                    HealthDecision::Degraded { snapshot: window, reason },
                )
            }
        },
    }
}

/// Judges a round.
pub fn judge(
    condition: Condition,
    config: HealthConfig,
    round: HealthSnapshot,
    window: HealthSnapshot,
) -> (result: (Condition, HealthDecision))
    ensures
        result == judged(condition, config, round, window),
{
    match condition.degraded {
        None => match degradation_reason(window, config) {
            Some(reason) => (
                Condition { degraded: Some(reason), recovery_streak: 0 },
                HealthDecision::Degraded { snapshot: window, reason },
            ),
            None => (condition, HealthDecision::Healthy(window)),
        },
        Some(reason) => {
            let streak: u64 = if recovery_round(round, config) {
                condition.recovery_streak as u64 + 1
            } else {
                0
            };
            if streak >= config.recovery_rounds as u64 {
                (
                    Condition { degraded: None, recovery_streak: 0 },
                    HealthDecision::Recovered(window),
                )
            } else {
                (
                    Condition { degraded: Some(reason), recovery_streak: streak as u32 },
                    HealthDecision::Degraded { snapshot: window, reason },
                )
            }
        },
    }
}

/// The last of the rounds.
pub open spec fn last_rounds(rounds: Seq<Seq<HealthSample>>, count: nat) -> Seq<Seq<HealthSample>> {
    if rounds.len() <= count {
        rounds
    } else {
        rounds.skip(rounds.len() - count)
    }
}

/// The probes of all rounds.
pub open spec fn all_samples(rounds: Seq<Seq<HealthSample>>) -> Seq<HealthSample>
    decreases rounds.len(),
{
    if rounds.len() == 0 {
        Seq::empty()
    } else {
        all_samples(rounds.drop_last()) + rounds.last()
    }
}

/// Watches the last rounds of probes of a connection.
pub struct HealthWindow {
    pub config: HealthConfig,
    pub rounds: Vec<Vec<HealthSample>>,
    pub condition: Condition,
}

pub open spec fn round_views(rounds: Seq<Vec<HealthSample>>) -> Seq<Seq<HealthSample>> {
    rounds.map_values(|round: Vec<HealthSample>| round@)
}

/// The probe that an event tells of.
pub open spec fn sample_of(event: MeasurementEvent) -> HealthSample {
    HealthSample {
        successful: event.outcome == Outcome::Success,
        rtt_ms: if event.outcome == Outcome::Success {
            event.ping_rtt_ms
        } else {
            None
        },
    }
}

/// The probes that events tell of.
pub open spec fn samples_of(events: Seq<MeasurementEvent>) -> Seq<HealthSample>
    decreases events.len(),
{
    if events.len() == 0 {
        Seq::empty()
    } else {
        let before = samples_of(events.drop_last());
        if events.last().event_kind == EventKind::PingProbe {
            before.push(sample_of(events.last()))
        } else {
            before
        }
    }
}

/// The probes that events tell of.
pub fn samples_from_events(events: &Vec<MeasurementEvent>) -> (samples: Vec<HealthSample>)
    ensures
        samples@ == samples_of(events@),
        samples@.len() <= events@.len(),
{
    let mut samples: Vec<HealthSample> = Vec::new();
    let mut i: usize = 0;
    while i < events.len()
        invariant
            i <= events@.len(),
            samples@ == samples_of(events@.take(i as int)),
            samples@.len() <= i,
        decreases events@.len() - i,
    {
        proof {
            assert(events@.take(i + 1).drop_last() == events@.take(i as int));
        }
        let event = &events[i];
        if event.event_kind == EventKind::PingProbe {
            let successful: bool = event.outcome == Outcome::Success;
            samples.push(
                HealthSample {
                    successful,
                    rtt_ms: if successful {
                        event.ping_rtt_ms
                    } else {
                        None
                    },
                },
            );
        }
        i += 1;
    }
    proof {
        assert(events@.take(events@.len() as int) == events@);
    }
    samples
}

impl HealthWindow {
    pub fn new(config: HealthConfig) -> (window: Self)
        ensures
            window.config == config,
            window.rounds@.len() == 0,
            window.condition == (Condition { degraded: None, recovery_streak: 0 }),
    {
        HealthWindow {
            config,
            rounds: Vec::new(),
            condition: Condition { degraded: None, recovery_streak: 0 },
        }
    }

    /// Takes in a round of probes: the oldest rounds leave so that no more than the configured
    /// number stay.
    pub fn record_round(&mut self, samples: Vec<HealthSample>)
        ensures
            final(self).config == old(self).config,
            final(self).condition == old(self).condition,
            round_views(final(self).rounds@) == last_rounds(
                round_views(old(self).rounds@).push(samples@),
                old(self).config.window_rounds as nat,
            ),
            final(self).rounds@.len() <= old(self).config.window_rounds,
    {
        let ghost before = round_views(self.rounds@).push(samples@);
        self.rounds.push(samples);
        proof {
            assert(round_views(self.rounds@) =~= before);
            assert(before.skip(0) =~= before);
        }
        while self.rounds.len() > self.config.window_rounds
            invariant
                self.config == old(self).config,
                self.condition == old(self).condition,
                self.rounds@.len() <= before.len(),
                self.rounds@.len() >= before.len() || self.rounds@.len()
                    >= self.config.window_rounds,
                round_views(self.rounds@) == before.skip(before.len() - self.rounds@.len()),
            decreases self.rounds@.len(),
        {
            let ghost held = self.rounds@;
            self.rounds.remove(0);
            proof {
                assert(round_views(self.rounds@) =~= before.skip(
                    before.len() - self.rounds@.len(),
                )) by {
                    assert forall|k: int| 0 <= k < self.rounds@.len() implies round_views(
                        self.rounds@,
                    )[k] == before.skip(before.len() - self.rounds@.len())[k] by {
                        assert(self.rounds@[k] == held[k + 1]);
                        assert(round_views(held)[k + 1] == held[k + 1]@);
                    }
                }
            }
        }
    }

    /// The probes of all rounds that stayed.
    pub fn window_samples(&self) -> (samples: Vec<HealthSample>)
        ensures
            samples@ == all_samples(round_views(self.rounds@)),
    {
        let mut samples: Vec<HealthSample> = Vec::new();
        let ghost rounds = round_views(self.rounds@);
        let mut i: usize = 0;
        while i < self.rounds.len()
            invariant
                rounds == round_views(self.rounds@),
                i <= self.rounds@.len(),
                samples@ == all_samples(rounds.take(i as int)),
            decreases self.rounds@.len() - i,
        {
            let ghost before = samples@;
            let round = &self.rounds[i];
            let mut k: usize = 0;
            while k < round.len()
                invariant
                    k <= round@.len(),
                    samples@ == before + round@.take(k as int),
                decreases round@.len() - k,
            {
                samples.push(round[k]);
                k += 1;
                proof {
                    assert(round@.take(k as int) == round@.take(k - 1).push(round@[k - 1]));
                }
            }
            proof {
                assert(round@.take(round@.len() as int) == round@);
                assert(rounds.take(i + 1).drop_last() == rounds.take(i as int));
                assert(rounds.take(i + 1).last() == round@);
            }
            i += 1;
        }
        proof {
            assert(rounds.take(rounds.len() as int) == rounds);
        }
        samples
    }

    /// Judges the round that was taken in last, once the shares of lost probes in it and in the
    /// window are known.
    pub fn conclude(
        &mut self,
        round: SampleCount,
        round_loss_pct: Scalar,
        window: SampleCount,
        window_loss_pct: Scalar,
    ) -> (decision: HealthDecision)
        ensures
            final(self).config == old(self).config,
            final(self).rounds == old(self).rounds,
            (final(self).condition, decision) == judged(
                old(self).condition,
                old(self).config,
                snapshot_of(round, round_loss_pct, 0),
                snapshot_of(window, window_loss_pct, old(self).config.min_samples),
            ),
    {
        let round_snapshot = HealthSnapshot {
            attempted: round.attempted,
            successful: round.successful,
            loss_pct: round_loss_pct,
            p95_rtt_ms: round.p95_rtt_ms,
            sufficient_samples: true,
        };
        let window_snapshot = HealthSnapshot {
            attempted: window.attempted,
            successful: window.successful,
            loss_pct: window_loss_pct,
            p95_rtt_ms: window.p95_rtt_ms,
            sufficient_samples: window.attempted >= self.config.min_samples,
        };
        let (condition, decision) = judge(
            self.condition,
            self.config,
            round_snapshot,
            window_snapshot,
        );
        self.condition = condition;
        decision
    }

    /// What taking in a round comes to, for some shares of lost probes that the given function
    /// finds.
    pub open spec fn observes<F: Fn(usize, usize) -> Scalar>(
        before: HealthWindow,
        after: HealthWindow,
        samples: Seq<HealthSample>,
        loss_pct: F,
        decision: HealthDecision,
        losses: (Scalar, Scalar),
    ) -> bool {
        let rounds = last_rounds(
            round_views(before.rounds@).push(samples),
            before.config.window_rounds as nat,
        );
        let window = all_samples(rounds);
        let round_count = SampleCount {
            attempted: samples.len() as usize,
            successful: successes(samples) as usize,
            p95_rtt_ms: p95(rtts_of(samples)),
        };
        let window_count = SampleCount {
            attempted: window.len() as usize,
            successful: successes(window) as usize,
            p95_rtt_ms: p95(rtts_of(window)),
        };
        &&& call_ensures(
            loss_pct,
            (round_count.attempted, round_count.successful),
            losses.0,
        )
        &&& call_ensures(
            loss_pct,
            (window_count.attempted, window_count.successful),
            losses.1,
        )
        &&& after.config == before.config
        &&& round_views(after.rounds@) == rounds
        &&& (after.condition, decision) == judged(
            before.condition,
            before.config,
            snapshot_of(round_count, losses.0, 0),
            snapshot_of(window_count, losses.1, before.config.min_samples),
        )
    }

    /// Takes in a round of probes and judges it. `loss_pct` finds the share of lost probes from
    /// the number that were sent and the number that succeeded.
    pub fn observe_round<F: Fn(usize, usize) -> Scalar>(
        &mut self,
        samples: Vec<HealthSample>,
        loss_pct: F,
    ) -> (decision: HealthDecision)
        requires
            samples@.len() <= u32::MAX,
            all_samples(
                last_rounds(
                    round_views(old(self).rounds@).push(samples@),
                    old(self).config.window_rounds as nat,
                ),
            ).len() <= u32::MAX,
            forall|attempted: usize, successful: usize|
                #[trigger] call_requires(loss_pct, (attempted, successful)),
        ensures
            exists|losses: (Scalar, Scalar)|
                #[trigger] HealthWindow::observes(
                    *old(self),
                    *final(self),
                    samples@,
                    loss_pct,
                    decision,
                    losses,
                ),
    {
        let round = count_samples(&samples);
        self.record_round(samples);
        let window = count_samples(&self.window_samples());
        let round_loss = loss_pct(round.attempted, round.successful);
        let window_loss = loss_pct(window.attempted, window.successful);
        let decision = self.conclude(round, round_loss, window, window_loss);
        proof {
            assert(HealthWindow::observes(
                *old(self),
                *self,
                samples@,
                loss_pct,
                decision,
                (round_loss, window_loss),
            ));
        }
        decision
    }

    /// Takes in the probes that events tell of and judges them.
    pub fn observe_events<F: Fn(usize, usize) -> Scalar>(
        &mut self,
        events: &Vec<MeasurementEvent>,
        loss_pct: F,
    ) -> (decision: HealthDecision)
        requires
            events@.len() <= u32::MAX,
            all_samples(
                last_rounds(
                    round_views(old(self).rounds@).push(samples_of(events@)),
                    old(self).config.window_rounds as nat,
                ),
            ).len() <= u32::MAX,
            forall|attempted: usize, successful: usize|
                #[trigger] call_requires(loss_pct, (attempted, successful)),
        ensures
            exists|losses: (Scalar, Scalar)|
                #[trigger] HealthWindow::observes(
                    *old(self),
                    *final(self),
                    samples_of(events@),
                    loss_pct,
                    decision,
                    losses,
                ),
    {
        let samples = samples_from_events(events);
        self.observe_round(samples, loss_pct)
    }

    pub fn rounds_retained(&self) -> (count: usize)
        ensures
            count == self.rounds@.len(),
    {
        self.rounds.len()
    }
}

/// A degraded connection recovers exactly when the configured number of good rounds have come in
/// a row, and a round that is not good starts the count again.
pub proof fn law_recovery_needs_a_streak(
    condition: Condition,
    config: HealthConfig,
    round: HealthSnapshot,
    window: HealthSnapshot,
)
    requires
        condition.degraded is Some,
        config.recovery_rounds > 0,
        condition.recovery_streak < config.recovery_rounds,
    ensures
        ({
            let (next, decision) = judged(condition, config, round, window);
            &&& decision is Recovered <==> recovering(round, config) && condition.recovery_streak
                + 1 == config.recovery_rounds
            &&& !recovering(round, config) ==> next.recovery_streak == 0 && next.degraded
                == condition.degraded
            &&& next.degraded is Some ==> next.recovery_streak < config.recovery_rounds
        }),
{
}

/// What a round of its own shows.
pub open spec fn round_snapshot(samples: Seq<HealthSample>, loss_pct: Scalar) -> HealthSnapshot {
    HealthSnapshot {
        attempted: samples.len() as usize,
        successful: successes(samples) as usize,
        loss_pct,
        p95_rtt_ms: p95(rtts_of(samples)),
        sufficient_samples: true,
    }
}

/// Rounds that were taken in one after the other: `windows` are the windows before each round and
/// after the last, `losses` the shares of lost probes in each round and its window.
pub open spec fn rounds_observed<F: Fn(usize, usize) -> Scalar>(
    windows: Seq<HealthWindow>,
    rounds: Seq<Seq<HealthSample>>,
    losses: Seq<(Scalar, Scalar)>,
    decisions: Seq<HealthDecision>,
    loss_pct: F,
) -> bool {
    &&& windows.len() == rounds.len() + 1
    &&& losses.len() == rounds.len()
    &&& decisions.len() == rounds.len()
    &&& forall|j: int|
        0 <= j < rounds.len() ==> HealthWindow::observes(
            windows[j],
            windows[j + 1],
            rounds[j],
            loss_pct,
            #[trigger] decisions[j],
            losses[j],
        )
}

/// The round with this number counts towards recovery.
pub open spec fn good_round(
    rounds: Seq<Seq<HealthSample>>,
    losses: Seq<(Scalar, Scalar)>,
    config: HealthConfig,
    j: int,
) -> bool {
    recovering(round_snapshot(rounds[j], losses[j].0), config)
}

proof fn lemma_streak<F: Fn(usize, usize) -> Scalar>(
    windows: Seq<HealthWindow>,
    rounds: Seq<Seq<HealthSample>>,
    losses: Seq<(Scalar, Scalar)>,
    decisions: Seq<HealthDecision>,
    loss_pct: F,
    reason: DegradationReason,
    at: int,
)
    requires
        rounds_observed(windows, rounds, losses, decisions, loss_pct),
        1 <= at <= rounds.len(),
        windows[0].condition.degraded is None,
        decisions[0] is Degraded,
        decisions[0]->reason == reason,
        forall|j: int| 1 <= j < at ==> !(#[trigger] decisions[j] is Recovered),
        windows[0].config.recovery_rounds > 0,
    ensures
        ({
            let config = windows[0].config;
            let streak = windows[at].condition.recovery_streak as int;
            &&& windows[at].config == config
            &&& windows[at].condition.degraded == Some(reason)
            &&& 0 <= streak < config.recovery_rounds
            &&& streak < at
            &&& forall|j: int|
                at - streak <= j < at ==> #[trigger] good_round(rounds, losses, config, j)
            &&& streak + 1 < at ==> !good_round(rounds, losses, config, at - streak - 1)
        }),
    decreases at,
{
    let config = windows[0].config;
    if at == 1 {
        assert(HealthWindow::observes(
            windows[0],
            windows[1],
            rounds[0],
            loss_pct,
            decisions[0],
            losses[0],
        ));
    } else {
        let k = at - 1;
        lemma_streak(windows, rounds, losses, decisions, loss_pct, reason, k);
        assert(HealthWindow::observes(
            windows[k],
            windows[k + 1],
            rounds[k],
            loss_pct,
            decisions[k],
            losses[k],
        ));
        assert(good_round(rounds, losses, config, k) == recovering(
            round_snapshot(rounds[k], losses[k].0),
            config,
        ));
        assert(!(decisions[k] is Recovered));
        let before = windows[k].condition.recovery_streak as int;
        let streak = windows[at].condition.recovery_streak as int;
        if good_round(rounds, losses, config, k) {
            assert(streak == before + 1);
        } else {
            assert(streak == 0);
        }
    }
}

/// After a connection degraded, a round makes it recover exactly when it and the rounds just
/// before it, as many as are configured and all after the one that degraded it, were good. Until
/// then it stays degraded for the same reason. No more rounds than configured are kept.
pub proof fn law_recovery_takes_good_rounds_in_a_row<F: Fn(usize, usize) -> Scalar>(
    windows: Seq<HealthWindow>,
    rounds: Seq<Seq<HealthSample>>,
    losses: Seq<(Scalar, Scalar)>,
    decisions: Seq<HealthDecision>,
    loss_pct: F,
    reason: DegradationReason,
)
    requires
        rounds_observed(windows, rounds, losses, decisions, loss_pct),
        rounds.len() >= 2,
        windows[0].condition.degraded is None,
        decisions[0] is Degraded,
        decisions[0]->reason == reason,
        forall|j: int| 1 <= j < rounds.len() - 1 ==> !(#[trigger] decisions[j] is Recovered),
        windows[0].config.recovery_rounds > 0,
    ensures
        ({
            let config = windows[0].config;
            let wanted = config.recovery_rounds as int;
            let last = rounds.len() - 1;
            &&& decisions[last] is Recovered <==> {
                &&& wanted <= last
                &&& forall|j: int|
                    last - wanted < j <= last ==> #[trigger] good_round(rounds, losses, config, j)
            }
            &&& !(decisions[last] is Recovered) ==> decisions[last] is Degraded
                && decisions[last]->reason == reason
            &&& windows[last + 1].rounds@.len() <= config.window_rounds
        }),
{
    let config = windows[0].config;
    let wanted = config.recovery_rounds as int;
    let last = rounds.len() - 1;
    lemma_streak(windows, rounds, losses, decisions, loss_pct, reason, last);
    assert(HealthWindow::observes(
        windows[last],
        windows[last + 1],
        rounds[last],
        loss_pct,
        decisions[last],
        losses[last],
    ));
    let streak = windows[last].condition.recovery_streak as int;
    assert(good_round(rounds, losses, config, last) == recovering(
        round_snapshot(rounds[last], losses[last].0),
        config,
    ));
    assert(round_views(windows[last + 1].rounds@).len() == windows[last + 1].rounds@.len());
    if decisions[last] is Recovered {
        assert(streak + 1 == wanted);
        assert forall|j: int| last - wanted < j <= last implies #[trigger] good_round(
            rounds,
            losses,
            config,
            j,
        ) by {}
    } else if wanted <= last && forall|j: int|
        last - wanted < j <= last ==> #[trigger] good_round(rounds, losses, config, j) {
        assert(good_round(rounds, losses, config, last));
        assert(streak + 1 < wanted);
        assert(good_round(rounds, losses, config, last - streak - 1));
        assert(false);
    }
}

/// The reading that nineteen in twenty do not exceed is one of the readings, and at least
/// nineteen in twenty of them come no later in order.
pub proof fn law_p95_is_a_reading(count: int)
    requires
        count > 0,
    ensures
        1 <= p95_rank(count) <= count,
        20 * p95_rank(count) >= 19 * count,
        20 * (p95_rank(count) - 1) < 19 * count,
{
}

} // verus!
