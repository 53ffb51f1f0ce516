//! Provider scoring.
//!
//! A provider is scored on four dimensions: latency, cost, reliability
//! and output quality. All fractions are fixed-point numbers in
//! millionths (see [`crate::fixed`]).

use vstd::prelude::*;
use std::time::Instant;
use crate::fixed::{ONE, HALF, ratio, capped_ratio, blend, ratio_of, capped_ratio_of};
use crate::ranking::{ranking, rank};
use crate::strmap::StrMap;

verus! {

/// A point in time of the monotonic clock. Nothing is known of its
/// value.
#[verifier::external_type_specification]
#[verifier::external_body]
pub struct ExInstant(Instant);

/// `Instant::now`: the current reading of the monotonic clock. It
/// differs from call to call, so nothing is stated of it.
pub assume_specification[ Instant::now ]() -> (t: Instant)
;

/// The number of quality samples that a record keeps.
pub const QUALITY_WINDOW: usize = 100;

/// The running performance record of one provider.
#[derive(Debug, Clone)]
pub struct ProviderMetrics {
    pub total_requests: u64,
    pub successful_requests: u64,
    pub total_latency_ms: u64,
    pub total_tokens: u64,
    pub total_cost_cents: u64,
    /// The latest quality samples, oldest first, in millionths.
    pub quality_scores: Vec<u32>,
    pub last_error: Option<String>,
    pub last_success: Option<Instant>,
}

/// The sum of a sequence of samples.
pub open spec fn sample_sum(samples: Seq<u32>) -> int
    decreases samples.len(),
{
    if samples.len() == 0 {
        0
    } else {
        sample_sum(samples.drop_last()) + samples.last()
    }
}

/// A sum of samples is at most their number times the largest sample.
pub proof fn lemma_sample_sum_bound(samples: Seq<u32>)
    ensures
        0 <= sample_sum(samples) <= samples.len() * u32::MAX,
    decreases samples.len(),
{
    if samples.len() > 0 {
        lemma_sample_sum_bound(samples.drop_last());
        assert((samples.len() - 1) * u32::MAX + u32::MAX == samples.len() * u32::MAX)
            by (nonlinear_arith);
    }
}

/// The window of samples after `sample` has arrived: it is appended,
/// and the oldest sample leaves once the window is over its size.
pub open spec fn window_after(samples: Seq<u32>, sample: Option<u32>) -> Seq<u32> {
    match sample {
        None => samples,
        Some(q) => if samples.len() + 1 > QUALITY_WINDOW {
            samples.push(q).drop_first()
        } else {
            samples.push(q)
        },
    }
}

impl Default for ProviderMetrics {
    /// A record with all counters at zero.
    fn default() -> (m: Self)
        ensures
            m.is_blank(),
    {
        ProviderMetrics {
            total_requests: 0,
            successful_requests: 0,
            total_latency_ms: 0,
            total_tokens: 0,
            total_cost_cents: 0,
            quality_scores: Vec::new(),
            last_error: None,
            last_success: None,
        }
    }
}

impl ProviderMetrics {
    /// All counters are zero and nothing else is recorded.
    pub open spec fn is_blank(&self) -> bool {
        &&& self.total_requests == 0
        &&& self.successful_requests == 0
        &&& self.total_latency_ms == 0
        &&& self.total_tokens == 0
        &&& self.total_cost_cents == 0
        &&& self.quality_scores@ == Seq::<u32>::empty()
        &&& self.last_error is None
        &&& self.last_success is None
    }

    /// The record that holds these counters and nothing else: no
    /// quality sample, no error text, no time of success.
    pub fn from_counters(
        total_requests: u64,
        successful_requests: u64,
        total_latency_ms: u64,
        total_tokens: u64,
        total_cost_cents: u64,
    ) -> (m: Self)
        ensures
            m.total_requests == total_requests,
            m.successful_requests == successful_requests,
            m.total_latency_ms == total_latency_ms,
            m.total_tokens == total_tokens,
            m.total_cost_cents == total_cost_cents,
            m.quality_scores@ == Seq::<u32>::empty(),
            m.last_error is None,
            m.last_success is None,
    {
        ProviderMetrics {
            total_requests,
            successful_requests,
            total_latency_ms,
            total_tokens,
            total_cost_cents,
            quality_scores: Vec::new(),
            last_error: None,
            last_success: None,
        }
    }

    /// No more successes than requests, and no more samples than the
    /// window holds.
    pub open spec fn wf(&self) -> bool {
        &&& self.successful_requests <= self.total_requests
        &&& self.quality_scores@.len() <= QUALITY_WINDOW
    }

    /// The share of requests that succeeded; 1 when there was none.
    pub open spec fn success_rate_spec(&self) -> int {
        if self.total_requests == 0 {
            ONE as int
        } else {
            ratio(self.successful_requests as int, self.total_requests as int)
        }
    }

    /// The mean latency of the successful requests, in millionths of a
    /// millisecond; 0 when there was none.
    pub open spec fn avg_latency_spec(&self) -> int {
        if self.successful_requests == 0 {
            0
        } else {
            ratio(self.total_latency_ms as int, self.successful_requests as int)
        }
    }

    /// The mean of the quality samples; one half when there is none.
    pub open spec fn avg_quality_spec(&self) -> int {
        if self.quality_scores@.len() == 0 {
            HALF as int
        } else {
            sample_sum(self.quality_scores@) / (self.quality_scores@.len() as int)
        }
    }

    /// The cost of a thousand tokens, in millionths of a cent; 0 when no
    /// token was counted.
    pub open spec fn cost_per_1k_spec(&self) -> int {
        if self.total_tokens == 0 {
            0
        } else {
            ratio(1000 * self.total_cost_cents, self.total_tokens as int)
        }
    }

    /// The share of requests that succeeded, in millionths.
    pub fn success_rate(&self) -> (r: u128)
        ensures
            r == self.success_rate_spec(),
    {
        if self.total_requests == 0 {
            ONE as u128
        } else {
            ratio_of(self.successful_requests, self.total_requests)
        }
    }

    /// The mean latency of the successful requests, in millionths of a
    /// millisecond.
    pub fn avg_latency_ms(&self) -> (r: u128)
        ensures
            r == self.avg_latency_spec(),
    {
        if self.successful_requests == 0 {
            0
        } else {
            ratio_of(self.total_latency_ms, self.successful_requests)
        }
    }

    /// The mean of the quality samples, in millionths.
    pub fn avg_quality(&self) -> (r: u128)
        ensures
            r == self.avg_quality_spec(),
            r <= u32::MAX,
    {
        let n: usize = self.quality_scores.len();
        if n == 0 {
            return HALF as u128;
        }
        let mut sum: u128 = 0;
        let mut i: usize = 0;
        while i < n
            invariant
                i <= n,
                n == self.quality_scores@.len(),
                sum == sample_sum(self.quality_scores@.take(i as int)),
                sum <= i * u32::MAX,
            decreases n - i,
        {
            proof {
                assert(self.quality_scores@.take(i + 1).drop_last() == self.quality_scores@.take(
                    i as int,
                ));
                assert((i + 1) * u32::MAX == i * u32::MAX + u32::MAX) by (nonlinear_arith);
                assert(i * u32::MAX <= 0xffff_ffff_ffff_ffff * 0xffff_ffff) by (nonlinear_arith)
                    requires
                        i <= 0xffff_ffff_ffff_ffff,
                ;
            }
            sum = sum + (self.quality_scores[i] as u128);
            i += 1;
        }
        proof {
            assert(self.quality_scores@.take(n as int) == self.quality_scores@);
            assert(sum / (n as u128) <= u32::MAX) by (nonlinear_arith)
                requires
                    sum <= n * u32::MAX,
                    n > 0,
            ;
        }
        sum / (n as u128)
    }

    /// The cost of a thousand tokens, in millionths of a cent.
    pub fn cost_per_1k_tokens(&self) -> (r: u128)
        ensures
            r == self.cost_per_1k_spec(),
    {
        if self.total_tokens == 0 {
            0
        } else {
            assert(ONE * (1000 * self.total_cost_cents) <= 1_000_000 * (1000
                * 0xffff_ffff_ffff_ffff)) by (nonlinear_arith)
                requires
                    self.total_cost_cents <= 0xffff_ffff_ffff_ffff,
            ;
            let scaled: u128 = (ONE as u128) * (1000u128 * (self.total_cost_cents as u128));
            scaled / (self.total_tokens as u128)
        }
    }
}

/// The relative importance of the four dimensions, in millionths. The
/// weights need not add up to 1: that is left to the caller.
#[derive(Debug, Clone, Copy)]
pub struct ScoringWeights {
    pub latency: u32,
    pub cost: u32,
    pub reliability: u32,
    pub quality: u32,
}

impl Default for ScoringWeights {
    /// Latency 0.25, cost 0.25, reliability 0.30, quality 0.20.
    fn default() -> (w: Self)
        ensures
            w == default_weights(),
    {
        ScoringWeights { latency: 250_000, cost: 250_000, reliability: 300_000, quality: 200_000 }
    }
}

/// The weights used where nothing else is asked for.
pub open spec fn default_weights() -> ScoringWeights {
    ScoringWeights { latency: 250_000, cost: 250_000, reliability: 300_000, quality: 200_000 }
}

/// The parameters of a scorer.
#[derive(Debug, Clone, Copy)]
pub struct ScoringConfig {
    pub weights: ScoringWeights,
    /// The latency that counts as good, in milliseconds.
    pub latency_threshold_ms: u64,
    /// The cost of a thousand tokens that counts as good, in cents.
    pub cost_threshold_cents: u64,
    /// The number of requests below which a provider gets the neutral
    /// score.
    pub min_requests_for_scoring: u64,
}

/// The configuration used where nothing else is asked for.
pub open spec fn default_config() -> ScoringConfig {
    ScoringConfig {
        weights: default_weights(),
        latency_threshold_ms: 5000,
        cost_threshold_cents: 100,
        min_requests_for_scoring: 10,
    }
}

impl Default for ScoringConfig {
    /// The default weights, 5000 ms, 100 cents, and 10 requests.
    fn default() -> (c: Self)
        ensures
            c == default_config(),
    {
        ScoringConfig {
            weights: ScoringWeights::default(),
            latency_threshold_ms: 5000,
            cost_threshold_cents: 100,
            min_requests_for_scoring: 10,
        }
    }
}

/// `min(1, threshold / mean latency)`; 1 where the mean latency is 0.
pub open spec fn latency_score(m: ProviderMetrics, threshold_ms: u64) -> int {
    if m.successful_requests == 0 || m.total_latency_ms == 0 {
        ONE as int
    } else {
        capped_ratio(threshold_ms * m.successful_requests, m.total_latency_ms as int)
    }
}

/// `min(1, threshold / cost of a thousand tokens)`; 1 where that cost
/// is 0.
pub open spec fn cost_score(m: ProviderMetrics, threshold_cents: u64) -> int {
    if m.total_tokens == 0 || m.total_cost_cents == 0 {
        ONE as int
    } else {
        capped_ratio(threshold_cents * m.total_tokens, 1000 * m.total_cost_cents)
    }
}

/// The weighted sum of the four sub-scores of a record.
pub open spec fn metrics_score(m: ProviderMetrics, config: ScoringConfig) -> int {
    blend(
        (
            config.weights.latency as int,
            config.weights.cost as int,
            config.weights.reliability as int,
            config.weights.quality as int,
        ),
        (
            latency_score(m, config.latency_threshold_ms),
            cost_score(m, config.cost_threshold_cents),
            m.success_rate_spec(),
            m.avg_quality_spec(),
        ),
    )
}

/// The score of a provider whose record is `m`, if it has one: one half
/// without a record or below the minimum number of requests.
pub open spec fn score_of(m: Option<ProviderMetrics>, config: ScoringConfig) -> int {
    match m {
        None => HALF as int,
        Some(m) => if m.total_requests < config.min_requests_for_scoring {
            HALF as int
        } else {
            metrics_score(m, config)
        },
    }
}

fn latency_score_of(m: &ProviderMetrics, threshold_ms: u64) -> (r: u64)
    ensures
        r == latency_score(*m, threshold_ms),
        r <= ONE,
{
    if m.successful_requests == 0 || m.total_latency_ms == 0 {
        ONE
    } else {
        assert(threshold_ms * m.successful_requests <= 0xffff_ffff_ffff_ffff
            * 0xffff_ffff_ffff_ffff) by (nonlinear_arith)
            requires
                threshold_ms <= 0xffff_ffff_ffff_ffff,
                m.successful_requests <= 0xffff_ffff_ffff_ffff,
        ;
        let num: u128 = (threshold_ms as u128) * (m.successful_requests as u128);
        capped_ratio_of(num, m.total_latency_ms as u128)
    }
}

fn cost_score_of(m: &ProviderMetrics, threshold_cents: u64) -> (r: u64)
    ensures
        r == cost_score(*m, threshold_cents),
        r <= ONE,
{
    if m.total_tokens == 0 || m.total_cost_cents == 0 {
        ONE
    } else {
        assert(threshold_cents * m.total_tokens <= 0xffff_ffff_ffff_ffff * 0xffff_ffff_ffff_ffff)
            by (nonlinear_arith)
            requires
                threshold_cents <= 0xffff_ffff_ffff_ffff,
                m.total_tokens <= 0xffff_ffff_ffff_ffff,
        ;
        let num: u128 = (threshold_cents as u128) * (m.total_tokens as u128);
        let den: u128 = 1000u128 * (m.total_cost_cents as u128);
        capped_ratio_of(num, den)
    }
}

/// The upper bound of every score.
pub const SCORE_MAX: u64 = 0x4000_0000_0000;

/// The weighted sum of four sub-scores.
pub fn blend_of(w: &ScoringWeights, latency: u64, cost: u64, reliability: u64, quality: u64) -> (r:
    u64)
    requires
        latency <= SCORE_MAX,
        cost <= SCORE_MAX,
        reliability <= SCORE_MAX,
        quality <= SCORE_MAX,
    ensures
        r == blend(
            (w.latency as int, w.cost as int, w.reliability as int, w.quality as int),
            (latency as int, cost as int, reliability as int, quality as int),
        ),
{
    assert(w.latency * latency <= 0xffff_ffff * 0x4000_0000_0000) by (nonlinear_arith)
        requires
            w.latency <= 0xffff_ffff,
            latency <= 0x4000_0000_0000,
    ;
    assert(w.cost * cost <= 0xffff_ffff * 0x4000_0000_0000) by (nonlinear_arith)
        requires
            w.cost <= 0xffff_ffff,
            cost <= 0x4000_0000_0000,
    ;
    assert(w.reliability * reliability <= 0xffff_ffff * 0x4000_0000_0000) by (nonlinear_arith)
        requires
            w.reliability <= 0xffff_ffff,
            reliability <= 0x4000_0000_0000,
    ;
    assert(w.quality * quality <= 0xffff_ffff * 0x4000_0000_0000) by (nonlinear_arith)
        requires
            w.quality <= 0xffff_ffff,
            quality <= 0x4000_0000_0000,
    ;
    let total: u128 = (w.latency as u128) * (latency as u128) + (w.cost as u128) * (cost as u128)
        + (w.reliability as u128) * (reliability as u128) + (w.quality as u128) * (quality as u128);
    let r: u128 = total / (ONE as u128);
    assert(r <= u64::MAX) by {
        assert(total <= 4 * (0xffff_ffff * 0x4000_0000_0000));
        vstd::arithmetic::div_mod::lemma_div_is_ordered(
            total as int,
            4 * (0xffff_ffff * 0x4000_0000_0000int),
            1_000_000,
        );
    }
    r as u64
}

/// The weighted sum of the four sub-scores of a record.
pub fn score_metrics(m: &ProviderMetrics, config: &ScoringConfig) -> (r: u64)
    requires
        m.wf(),
    ensures
        r == metrics_score(*m, *config),
        r <= SCORE_MAX,
{
    let latency = latency_score_of(m, config.latency_threshold_ms);
    let cost = cost_score_of(m, config.cost_threshold_cents);
    let reliability = m.success_rate();
    let quality = m.avg_quality();
    proof {
        if m.total_requests > 0 {
            crate::fixed::lemma_ratio_reaches_one(
                m.successful_requests as int,
                m.total_requests as int,
            );
            crate::fixed::lemma_ratio_monotone(
                m.successful_requests as int,
                m.total_requests as int,
                1,
                1,
            );
        }
        assert(reliability <= ONE);
    }
    let r = blend_of(&config.weights, latency, cost, reliability as u64, quality as u64);
    proof {
        let w = config.weights;
        assert(w.latency * latency + w.cost * cost + w.reliability * reliability + w.quality
            * quality <= 3 * (0xffff_ffff * 1_000_000) + 0xffff_ffff * 0xffff_ffff)
            by (nonlinear_arith)
            requires
                w.latency <= 0xffff_ffff,
                w.cost <= 0xffff_ffff,
                w.reliability <= 0xffff_ffff,
                w.quality <= 0xffff_ffff,
                latency <= 1_000_000,
                cost <= 1_000_000,
                reliability <= 1_000_000,
                quality <= 0xffff_ffff,
        ;
    }
    r
}

/// The counters of a record, or zeros where there is none: requests,
/// successes, latency, tokens, cost.
pub open spec fn counters_of(m: Option<ProviderMetrics>) -> (int, int, int, int, int) {
    match m {
        Some(m) => (
            m.total_requests as int,
            m.successful_requests as int,
            m.total_latency_ms as int,
            m.total_tokens as int,
            m.total_cost_cents as int,
        ),
        None => (0, 0, 0, 0, 0),
    }
}

/// The quality samples of a record, or none where there is no record.
pub open spec fn samples_of(m: Option<ProviderMetrics>) -> Seq<u32> {
    match m {
        Some(m) => m.quality_scores@,
        None => Seq::empty(),
    }
}

/// The last error text of a record, if there is one.
pub open spec fn last_error_of(m: Option<ProviderMetrics>) -> Option<Seq<char>> {
    match m {
        Some(m) => match m.last_error {
            Some(e) => Some(e@),
            None => None,
        },
        None => None,
    }
}

/// Whether a record has a time of last success.
pub open spec fn has_last_success(m: Option<ProviderMetrics>) -> bool {
    match m {
        Some(m) => m.last_success is Some,
        None => false,
    }
}

/// Whether `now` is what `prev` becomes when one success is recorded.
pub open spec fn records_success(
    prev: Option<ProviderMetrics>,
    now: ProviderMetrics,
    latency_ms: u64,
    tokens: u64,
    cost_cents: u64,
    quality: Option<u32>,
) -> bool {
    let before = counters_of(prev);
    &&& now.total_requests == before.0 + 1
    &&& now.successful_requests == before.1 + 1
    &&& now.total_latency_ms == before.2 + latency_ms
    &&& now.total_tokens == before.3 + tokens
    &&& now.total_cost_cents == before.4 + cost_cents
    &&& now.quality_scores@ == window_after(samples_of(prev), quality)
    &&& last_error_of(Some(now)) == last_error_of(prev)
    &&& now.last_success is Some
}

/// Whether `now` is what `prev` becomes when one failure is recorded.
pub open spec fn records_failure(
    prev: Option<ProviderMetrics>,
    now: ProviderMetrics,
    error: Seq<char>,
) -> bool {
    let before = counters_of(prev);
    &&& now.total_requests == before.0 + 1
    &&& now.successful_requests == before.1
    &&& now.total_latency_ms == before.2
    &&& now.total_tokens == before.3
    &&& now.total_cost_cents == before.4
    &&& now.quality_scores@ == samples_of(prev)
    &&& last_error_of(Some(now)) == Some(error)
    &&& now.last_success is Some == has_last_success(prev)
}

/// Keeps the metrics of every provider it has heard of, and scores
/// providers from them.
pub struct ProviderScorer {
    metrics: StrMap<ProviderMetrics>,
    config: ScoringConfig,
}

impl ProviderScorer {
    /// The providers that have a record, in the order of their first
    /// record.
    pub closed spec fn providers(&self) -> Seq<Seq<char>> {
        self.metrics.keys()
    }

    /// The record of a provider, if it has one.
    pub closed spec fn metrics_of(&self, id: Seq<char>) -> Option<ProviderMetrics> {
        self.metrics.lookup(id)
    }

    /// The configuration that the scorer was made with.
    pub closed spec fn config(&self) -> ScoringConfig {
        self.config
    }

    /// Every record is well formed.
    #[verifier::type_invariant]
    pub closed spec fn inv(&self) -> bool {
        &&& self.metrics.wf()
        &&& forall|i: int|
            0 <= i < self.metrics.values().len() ==> (#[trigger] self.metrics.values()[i]).wf()
    }

    /// The score of a provider: one half if it has no record or fewer
    /// requests than the configured minimum, else the weighted sum of
    /// its four sub-scores.
    pub open spec fn score_spec(&self, id: Seq<char>) -> int {
        score_of(self.metrics_of(id), self.config())
    }

    /// Whether one more success of this size can be added to the
    /// provider's counters without overflow.
    pub open spec fn has_room_for_success(
        &self,
        id: Seq<char>,
        latency_ms: u64,
        tokens: u64,
        cost_cents: u64,
    ) -> bool {
        let c = counters_of(self.metrics_of(id));
        &&& c.0 + 1 <= u64::MAX
        &&& c.2 + latency_ms <= u64::MAX
        &&& c.3 + tokens <= u64::MAX
        &&& c.4 + cost_cents <= u64::MAX
    }

    /// Whether one more failure can be added to the provider's counter
    /// without overflow.
    pub open spec fn has_room_for_failure(&self, id: Seq<char>) -> bool {
        counters_of(self.metrics_of(id)).0 + 1 <= u64::MAX
    }

    /// A scorer without records.
    pub fn new(config: ScoringConfig) -> (s: Self)
        ensures
            s.config() == config,
            s.providers() == Seq::<Seq<char>>::empty(),
            forall|id: Seq<char>| s.metrics_of(id) is None,
    {
        ProviderScorer { metrics: StrMap::new(), config }
    }

    /// The record of a provider, if it has one.
    pub fn get_metrics(&self, provider_id: &str) -> (r: Option<&ProviderMetrics>)
        ensures
            match r {
                Some(m) => self.metrics_of(provider_id@) == Some(*m) && m.wf(),
                None => self.metrics_of(provider_id@) is None,
            },
    {
        proof {
            use_type_invariant(self);
        }
        self.metrics.get(provider_id)
    }

    /// Whether [`Self::record_success`] may be called with these
    /// arguments.
    pub fn can_record_success(
        &self,
        provider_id: &str,
        latency_ms: u64,
        tokens: u64,
        cost_cents: u64,
    ) -> (b: bool)
        ensures
            b == self.has_room_for_success(provider_id@, latency_ms, tokens, cost_cents),
    {
        match self.metrics.get(provider_id) {
            None => true,
            Some(m) => m.total_requests < u64::MAX && latency_ms <= u64::MAX - m.total_latency_ms
                && tokens <= u64::MAX - m.total_tokens && cost_cents <= u64::MAX
                - m.total_cost_cents,
        }
    }

    /// Whether [`Self::record_failure`] may be called for this provider.
    pub fn can_record_failure(&self, provider_id: &str) -> (b: bool)
        ensures
            b == self.has_room_for_failure(provider_id@),
    {
        match self.metrics.get(provider_id) {
            None => true,
            Some(m) => m.total_requests < u64::MAX,
        }
    }

    /// Records one successful request of a provider, creating its
    /// record if this is the first.
    pub fn record_success(
        &mut self,
        provider_id: &str,
        latency_ms: u64,
        tokens: u64,
        cost_cents: u64,
        quality_score: Option<u32>,
    )
        requires
            old(self).has_room_for_success(provider_id@, latency_ms, tokens, cost_cents),
        ensures
            final(self).config() == old(self).config(),
            final(self).metrics_of(provider_id@) is Some,
            records_success(
                old(self).metrics_of(provider_id@),
                final(self).metrics_of(provider_id@)->0,
                latency_ms,
                tokens,
                cost_cents,
                quality_score,
            ),
            forall|other: Seq<char>|
                other != provider_id@ ==> final(self).metrics_of(other) == old(self).metrics_of(
                    other,
                ),
            final(self).providers() == if old(self).metrics_of(provider_id@) is Some {
                old(self).providers()
            } else {
                old(self).providers().push(provider_id@)
            },
    {
        proof {
            use_type_invariant(&*self);
        }
        let mut taken = ProviderScorer::new(self.config);
        core::mem::swap(self, &mut taken);
        let ProviderScorer { mut metrics, config } = taken;
        let i = slot_for(&mut metrics, provider_id);
        let ghost slotted = metrics.values();
        let mut m = metrics.replace_at(i, ProviderMetrics::default());
        m.total_requests = m.total_requests + 1;
        m.successful_requests = m.successful_requests + 1;
        m.total_latency_ms = m.total_latency_ms + latency_ms;
        m.total_tokens = m.total_tokens + tokens;
        m.total_cost_cents = m.total_cost_cents + cost_cents;
        if let Some(q) = quality_score {
            m.quality_scores.push(q);
            if m.quality_scores.len() > QUALITY_WINDOW {
                m.quality_scores.remove(0);
            }
        }
        m.last_success = Some(Instant::now());
        metrics.set_at(i, m);
        proof {
            lemma_slot_updated(old(self).metrics, metrics, provider_id@, i as int, m);
            assert forall|k: int| 0 <= k < metrics.values().len() implies (
            #[trigger] metrics.values()[k]).wf() by {
                if k != i {
                    assert(metrics.values()[k] == slotted[k]);
                    assert(slotted[k] == old(self).metrics.values()[k]);
                }
            }
        }
        *self = ProviderScorer { metrics, config };
    }

    /// Records one failed request of a provider, creating its record if
    /// this is the first.
    pub fn record_failure(&mut self, provider_id: &str, error: &str)
        requires
            old(self).has_room_for_failure(provider_id@),
        ensures
            final(self).config() == old(self).config(),
            final(self).metrics_of(provider_id@) is Some,
            records_failure(
                old(self).metrics_of(provider_id@),
                final(self).metrics_of(provider_id@)->0,
                error@,
            ),
            forall|other: Seq<char>|
                other != provider_id@ ==> final(self).metrics_of(other) == old(self).metrics_of(
                    other,
                ),
            final(self).providers() == if old(self).metrics_of(provider_id@) is Some {
                old(self).providers()
            } else {
                old(self).providers().push(provider_id@)
            },
    {
        proof {
            use_type_invariant(&*self);
        }
        let mut taken = ProviderScorer::new(self.config);
        core::mem::swap(self, &mut taken);
        let ProviderScorer { mut metrics, config } = taken;
        let i = slot_for(&mut metrics, provider_id);
        let ghost slotted = metrics.values();
        let mut m = metrics.replace_at(i, ProviderMetrics::default());
        m.total_requests = m.total_requests + 1;
        m.last_error = Some(String::from_str(error));
        metrics.set_at(i, m);
        proof {
            lemma_slot_updated(old(self).metrics, metrics, provider_id@, i as int, m);
            assert forall|k: int| 0 <= k < metrics.values().len() implies (
            #[trigger] metrics.values()[k]).wf() by {
                if k != i {
                    assert(metrics.values()[k] == slotted[k]);
                    assert(slotted[k] == old(self).metrics.values()[k]);
                }
            }
        }
        *self = ProviderScorer { metrics, config };
    }

    /// The score of a provider, in millionths.
    pub fn score(&self, provider_id: &str) -> (r: u64)
        ensures
            r == self.score_spec(provider_id@),
            r <= SCORE_MAX,
    {
        match self.get_metrics(provider_id) {
            None => HALF,
            Some(m) => {
                if m.total_requests < self.config.min_requests_for_scoring {
                    HALF
                } else {
                    score_metrics(m, &self.config)
                }
            },
        }
    }

    /// The scores of the providers `ids`, in their order.
    pub open spec fn scores_for(&self, ids: Seq<&str>) -> Seq<u64> {
        Seq::new(ids.len(), |i: int| self.score_spec(ids[i]@) as u64)
    }

    /// Whether `entry` is the provider at position `j` of the ranking
    /// of `ids`, with its score.
    pub open spec fn is_ranked_entry(&self, ids: Seq<&str>, j: int, entry: (String, u64)) -> bool {
        let from = ranking(self.scores_for(ids))[j];
        &&& 0 <= from < ids.len()
        &&& entry.0@ == ids[from]@
        &&& entry.1 == self.score_spec(ids[from]@)
    }

    /// The providers `provider_ids` with their scores, by descending
    /// score. Providers of equal score stay in the order in which they
    /// were given.
    pub fn rank_providers(&self, provider_ids: &[&str]) -> (ranked: Vec<(String, u64)>)
        ensures
            ranked@.len() == provider_ids@.len(),
            forall|j: int|
                0 <= j < ranked@.len() ==> self.is_ranked_entry(
                    provider_ids@,
                    j,
                    #[trigger] ranked@[j],
                ),
    {
        let n: usize = provider_ids.len();
        let mut scores: Vec<u64> = Vec::new();
        let mut i: usize = 0;
        while i < n
            invariant
                i <= n,
                n == provider_ids@.len(),
                scores@.len() == i,
                forall|k: int| 0 <= k < i ==> scores@[k] == self.score_spec(provider_ids@[k]@),
            decreases n - i,
        {
            scores.push(self.score(provider_ids[i]));
            i += 1;
        }
        proof {
            assert(scores@ =~= self.scores_for(provider_ids@));
            crate::ranking::lemma_ranking(scores@);
        }
        let order = rank(&scores);
        let mut ranked: Vec<(String, u64)> = Vec::new();
        let mut j: usize = 0;
        while j < n
            invariant
                j <= n,
                n == provider_ids@.len(),
                order@.len() == n,
                scores@.len() == n,
                ranking(scores@).len() == n,
                scores@ == self.scores_for(provider_ids@),
                forall|k: int|
                    0 <= k < n ==> #[trigger] scores@[k] == self.score_spec(provider_ids@[k]@),
                forall|k: int| 0 <= k < n ==> #[trigger] order@[k] as int == ranking(scores@)[k],
                forall|k: int| 0 <= k < n ==> #[trigger] order@[k] < n,
                ranked@.len() == j,
                forall|k: int|
                    0 <= k < j ==> self.is_ranked_entry(provider_ids@, k, #[trigger] ranked@[k]),
            decreases n - j,
        {
            let pick: usize = order[j];
            let name = String::from_str(provider_ids[pick]);
            let entry = (name, scores[pick]);
            proof {
                assert(order@[j as int] as int == ranking(scores@)[j as int]);
                assert(scores@[pick as int] == self.score_spec(provider_ids@[pick as int]@));
                assert(self.is_ranked_entry(provider_ids@, j as int, entry));
            }
            ranked.push(entry);
            j += 1;
        }
        ranked
    }
}

/// A provider without a record, or with fewer requests than the
/// configured minimum, scores exactly one half, whatever its metrics.
pub proof fn lemma_score_neutral_below_minimum(m: Option<ProviderMetrics>, config: ScoringConfig)
    requires
        m is Some ==> m->0.total_requests < config.min_requests_for_scoring,
    ensures
        score_of(m, config) == HALF,
{
}

/// The score of a provider is a function of its record and of the
/// configuration: while nothing is recorded, asking again gives the
/// same score.
pub proof fn lemma_score_repeatable(a: ProviderScorer, b: ProviderScorer, id: Seq<char>)
    requires
        a.metrics_of(id) == b.metrics_of(id),
        a.config() == b.config(),
    ensures
        a.score_spec(id) == b.score_spec(id),
{
}

/// Recording for one provider leaves the score of every other provider
/// as it was.
pub proof fn lemma_score_of_others_kept(
    before: ProviderScorer,
    after: ProviderScorer,
    recorded: Seq<char>,
    id: Seq<char>,
)
    requires
        after.config() == before.config(),
        forall|other: Seq<char>|
            other != recorded ==> after.metrics_of(other) == before.metrics_of(other),
        id != recorded,
    ensures
        after.score_spec(id) == before.score_spec(id),
{
}

/// Of two providers past the minimum number of requests, with equal
/// reliability and quality, the one whose mean latency and whose cost
/// per token are not higher does not score lower.
pub proof fn lemma_faster_cheaper_scores_no_lower(
    fast: ProviderMetrics,
    slow: ProviderMetrics,
    config: ScoringConfig,
)
    requires
        fast.wf(),
        slow.wf(),
        fast.total_requests >= config.min_requests_for_scoring,
        slow.total_requests >= config.min_requests_for_scoring,
        fast.successful_requests > 0,
        slow.successful_requests > 0,
        fast.total_tokens > 0,
        slow.total_tokens > 0,
        // mean latency of `fast` <= mean latency of `slow`
        fast.total_latency_ms * slow.successful_requests <= slow.total_latency_ms
            * fast.successful_requests,
        // cost per token of `fast` <= cost per token of `slow`
        fast.total_cost_cents * slow.total_tokens <= slow.total_cost_cents * fast.total_tokens,
        fast.success_rate_spec() == slow.success_rate_spec(),
        fast.avg_quality_spec() == slow.avg_quality_spec(),
    ensures
        score_of(Some(fast), config) >= score_of(Some(slow), config),
{
    let lf = latency_score(fast, config.latency_threshold_ms);
    let ls = latency_score(slow, config.latency_threshold_ms);
    let cf = cost_score(fast, config.cost_threshold_cents);
    let cs = cost_score(slow, config.cost_threshold_cents);
    lemma_sub_score_bounds(fast, config);
    lemma_sub_score_bounds(slow, config);
    assert(lf >= ls) by {
        let t = config.latency_threshold_ms as int;
        let sf = fast.successful_requests as int;
        let ss = slow.successful_requests as int;
        let tf = fast.total_latency_ms as int;
        let ts = slow.total_latency_ms as int;
        if tf == 0 {
        } else if ts == 0 {
            assert(false) by (nonlinear_arith)
                requires
                    tf * ss <= ts * sf,
                    ts == 0,
                    tf > 0,
                    ss > 0,
            ;
        } else {
            assert((t * ss) * tf <= (t * sf) * ts && t * ss >= 0 && t * sf >= 0)
                by (nonlinear_arith)
                requires
                    tf * ss <= ts * sf,
                    t >= 0,
                    ss > 0,
                    sf > 0,
            ;
            crate::fixed::lemma_ratio_monotone(t * ss, ts, t * sf, tf);
        }
    }
    assert(cf >= cs) by {
        let t = config.cost_threshold_cents as int;
        let kf = fast.total_tokens as int;
        let ks = slow.total_tokens as int;
        let pf = fast.total_cost_cents as int;
        let ps = slow.total_cost_cents as int;
        if pf == 0 {
        } else if ps == 0 {
            assert(false) by (nonlinear_arith)
                requires
                    pf * ks <= ps * kf,
                    ps == 0,
                    pf > 0,
                    ks > 0,
            ;
        } else {
            assert((t * ks) * (1000 * pf) <= (t * kf) * (1000 * ps) && t * ks >= 0 && t * kf >= 0)
                by (nonlinear_arith)
                requires
                    pf * ks <= ps * kf,
                    t >= 0,
                    ks > 0,
                    kf > 0,
            ;
            crate::fixed::lemma_ratio_monotone(t * ks, 1000 * ps, t * kf, 1000 * pf);
        }
    }
    let w = config.weights;
    let r = fast.success_rate_spec();
    let q = fast.avg_quality_spec();
    assert(w.latency * lf + w.cost * cf + w.reliability * r + w.quality * q >= w.latency * ls
        + w.cost * cs + w.reliability * r + w.quality * q) by (nonlinear_arith)
        requires
            lf >= ls,
            cf >= cs,
            w.latency >= 0,
            w.cost >= 0,
    ;
    vstd::arithmetic::div_mod::lemma_div_is_ordered(
        w.latency * ls + w.cost * cs + w.reliability * r + w.quality * q,
        w.latency * lf + w.cost * cf + w.reliability * r + w.quality * q,
        ONE as int,
    );
}

/// Of two providers past the minimum number of requests, with equal
/// reliability and quality, the one whose latency and cost sub-scores
/// are ahead by a whole millionth after weighting scores strictly
/// higher. (Where both providers stay within both thresholds, the
/// sub-scores are 1 for both and so are the scores equal.)
pub proof fn lemma_faster_cheaper_scores_higher(
    fast: ProviderMetrics,
    slow: ProviderMetrics,
    config: ScoringConfig,
)
    requires
        fast.total_requests >= config.min_requests_for_scoring,
        slow.total_requests >= config.min_requests_for_scoring,
        fast.success_rate_spec() == slow.success_rate_spec(),
        fast.avg_quality_spec() == slow.avg_quality_spec(),
        config.weights.latency * (latency_score(fast, config.latency_threshold_ms) - latency_score(
            slow,
            config.latency_threshold_ms,
        )) + config.weights.cost * (cost_score(fast, config.cost_threshold_cents) - cost_score(
            slow,
            config.cost_threshold_cents,
        )) >= ONE,
    ensures
        score_of(Some(fast), config) > score_of(Some(slow), config),
{
    let lf = latency_score(fast, config.latency_threshold_ms);
    let ls = latency_score(slow, config.latency_threshold_ms);
    let cf = cost_score(fast, config.cost_threshold_cents);
    let cs = cost_score(slow, config.cost_threshold_cents);
    let w = config.weights;
    let r = fast.success_rate_spec();
    let q = fast.avg_quality_spec();
    let xs = w.latency * ls + w.cost * cs + w.reliability * r + w.quality * q;
    let xf = w.latency * lf + w.cost * cf + w.reliability * r + w.quality * q;
    assert(xf >= xs + ONE) by (nonlinear_arith)
        requires
            w.latency * (lf - ls) + w.cost * (cf - cs) >= ONE,
            xs == w.latency * ls + w.cost * cs + w.reliability * r + w.quality * q,
            xf == w.latency * lf + w.cost * cf + w.reliability * r + w.quality * q,
    ;
    vstd::arithmetic::div_mod::lemma_div_is_ordered(xs + ONE, xf, ONE as int);
    vstd::arithmetic::div_mod::lemma_div_plus_one(xs, ONE as int);
}

/// With weights that add up to at most 1 and a mean quality of at most
/// 1, the score of a well-formed record lies between 0 and 1.
pub proof fn lemma_score_in_unit_range(m: ProviderMetrics, config: ScoringConfig)
    requires
        m.wf(),
        m.avg_quality_spec() <= ONE,
        config.weights.latency + config.weights.cost + config.weights.reliability
            + config.weights.quality <= ONE,
    ensures
        0 <= score_of(Some(m), config) <= ONE,
{
    let l = latency_score(m, config.latency_threshold_ms);
    let c = cost_score(m, config.cost_threshold_cents);
    let r = m.success_rate_spec();
    let q = m.avg_quality_spec();
    let w = config.weights;
    lemma_sub_score_bounds(m, config);
    if m.total_requests > 0 {
        crate::fixed::lemma_ratio_reaches_one(
            m.successful_requests as int,
            m.total_requests as int,
        );
        crate::fixed::lemma_ratio_monotone(
            m.successful_requests as int,
            m.total_requests as int,
            1,
            1,
        );
    }
    lemma_sample_sum_bound(m.quality_scores@);
    if m.quality_scores@.len() > 0 {
        vstd::arithmetic::div_mod::lemma_div_pos_is_pos(
            sample_sum(m.quality_scores@),
            m.quality_scores@.len() as int,
        );
    }
    let x = w.latency * l + w.cost * c + w.reliability * r + w.quality * q;
    assert(0 <= x <= ONE * ONE) by (nonlinear_arith)
        requires
            x == w.latency * l + w.cost * c + w.reliability * r + w.quality * q,
            0 <= l <= ONE,
            0 <= c <= ONE,
            0 <= r <= ONE,
            0 <= q <= ONE,
            0 <= w.latency,
            0 <= w.cost,
            0 <= w.reliability,
            0 <= w.quality,
            w.latency + w.cost + w.reliability + w.quality <= ONE,
    ;
    vstd::arithmetic::div_mod::lemma_div_is_ordered(x, ONE * ONE, ONE as int);
    vstd::arithmetic::div_mod::lemma_div_pos_is_pos(x, ONE as int);
    assert((ONE * ONE) / (ONE as int) == ONE);
}

/// The latency and cost sub-scores lie between 0 and 1.
pub proof fn lemma_sub_score_bounds(m: ProviderMetrics, config: ScoringConfig)
    ensures
        0 <= latency_score(m, config.latency_threshold_ms) <= ONE,
        0 <= cost_score(m, config.cost_threshold_cents) <= ONE,
{
    if m.successful_requests != 0 && m.total_latency_ms != 0 {
        assert(config.latency_threshold_ms * m.successful_requests >= 0) by (nonlinear_arith);
        crate::fixed::lemma_ratio_reaches_one(
            config.latency_threshold_ms * m.successful_requests,
            m.total_latency_ms as int,
        );
    }
    if m.total_tokens != 0 && m.total_cost_cents != 0 {
        assert(config.cost_threshold_cents * m.total_tokens >= 0) by (nonlinear_arith);
        crate::fixed::lemma_ratio_reaches_one(
            config.cost_threshold_cents * m.total_tokens,
            1000 * m.total_cost_cents,
        );
    }
}

/// The position of the record of `provider_id`, which is created blank
/// at the end if there is none.
fn slot_for(metrics: &mut StrMap<ProviderMetrics>, provider_id: &str) -> (i: usize)
    requires
        old(metrics).wf(),
    ensures
        final(metrics).wf(),
        i < final(metrics).keys().len(),
        final(metrics).keys()[i as int] == provider_id@,
        match old(metrics).index_of(provider_id@) {
            Some(j) => {
                &&& j == i
                &&& final(metrics).keys() == old(metrics).keys()
                &&& final(metrics).values() == old(metrics).values()
            },
            None => {
                &&& i == old(metrics).keys().len()
                &&& final(metrics).keys() == old(metrics).keys().push(provider_id@)
                &&& final(metrics).values().drop_last() == old(metrics).values()
                &&& final(metrics).values().last().is_blank()
            },
        },
{
    match metrics.position(provider_id) {
        Some(i) => i,
        None => {
            let blank = ProviderMetrics::default();
            metrics.insert(String::from_str(provider_id), blank);
            proof {
                assert(metrics.values().drop_last() =~= old(metrics).values());
            }
            metrics.len() - 1
        },
    }
}

/// Replacing the value at the position of `key` changes what is looked
/// up under `key` and nothing else.
proof fn lemma_slot_updated(
    before: StrMap<ProviderMetrics>,
    after: StrMap<ProviderMetrics>,
    key: Seq<char>,
    i: int,
    m: ProviderMetrics,
)
    requires
        before.wf(),
        after.wf(),
        0 <= i < after.keys().len(),
        after.keys()[i] == key,
        after.values()[i] == m,
        match before.index_of(key) {
            Some(j) => j == i && after.keys() == before.keys() && forall|k: int|
                0 <= k < before.values().len() && k != i ==> after.values()[k]
                    == before.values()[k],
            None => after.keys() == before.keys().push(key) && forall|k: int|
                0 <= k < before.values().len() ==> after.values()[k] == before.values()[k],
        },
    ensures
        after.lookup(key) == Some(m),
        forall|other: Seq<char>| other != key ==> after.lookup(other) == before.lookup(other),
{
    after.lemma_position_unique(key, i);
    assert forall|other: Seq<char>| other != key implies after.lookup(other) == before.lookup(
        other,
    ) by {
        if before.keys().contains(other) {
            let j = before.keys().index_of(other);
            assert(after.keys()[j] == other);
            after.lemma_position_unique(other, j);
        } else if after.keys().contains(other) {
            let j = after.keys().index_of(other);
            assert(before.keys()[j] == other);
        }
    }
}

} // verus!
