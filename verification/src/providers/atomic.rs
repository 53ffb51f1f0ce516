//! Counters of one provider that several threads may update at once.

use vstd::prelude::*;
use std::sync::atomic::AtomicU64;
use std::sync::atomic::Ordering;
use crate::providers::scoring::ProviderMetrics;

verus! {

/// The counters of one provider, each of them updated atomically.
/// Other threads may change a counter at any moment, so nothing can
/// be said of the value that a later read finds.
pub struct AtomicProviderMetrics {
    total_requests: AtomicU64,
    successful_requests: AtomicU64,
    total_latency_ms: AtomicU64,
    total_tokens: AtomicU64,
    total_cost_cents: AtomicU64,
}

impl Default for AtomicProviderMetrics {
    /// Counters that start at zero.
    fn default() -> Self {
        AtomicProviderMetrics {
            total_requests: AtomicU64::new(0),
            successful_requests: AtomicU64::new(0),
            total_latency_ms: AtomicU64::new(0),
            total_tokens: AtomicU64::new(0),
            total_cost_cents: AtomicU64::new(0),
        }
    }
}

impl AtomicProviderMetrics {
    /// The counters as other threads have left them at each read, one
    /// after the other, put into a record by `ProviderMetrics::from_counters`.
    pub fn snapshot(&self) -> (m: ProviderMetrics)
        ensures
            m.quality_scores@ == Seq::<u32>::empty(),
            m.last_error is None,
            m.last_success is None,
    {
        let total_requests: u64 = self.total_requests.load(Ordering::Relaxed);
        let successful_requests: u64 = self.successful_requests.load(Ordering::Relaxed);
        let total_latency_ms: u64 = self.total_latency_ms.load(Ordering::Relaxed);
        let total_tokens: u64 = self.total_tokens.load(Ordering::Relaxed);
        let total_cost_cents: u64 = self.total_cost_cents.load(Ordering::Relaxed);
        ProviderMetrics::from_counters(
            total_requests,
            successful_requests,
            total_latency_ms,
            total_tokens,
            total_cost_cents,
        )
    }

    /// Counts one successful request. Each counter wraps around on
    /// overflow.
    pub fn record_success(&self, latency_ms: u64, tokens: u64, cost_cents: u64) {
        self.total_requests.fetch_add(1, Ordering::Relaxed);
        self.successful_requests.fetch_add(1, Ordering::Relaxed);
        self.total_latency_ms.fetch_add(latency_ms, Ordering::Relaxed);
        self.total_tokens.fetch_add(tokens, Ordering::Relaxed);
        self.total_cost_cents.fetch_add(cost_cents, Ordering::Relaxed);
    }

    /// Counts one failed request.
    pub fn record_failure(&self) {
        self.total_requests.fetch_add(1, Ordering::Relaxed);
    }
}

} // verus!
