//! Configuration of the resolver health engine, fixed at construction.

use vstd::prelude::*;

verus! {

/// Tunable parameters of the engine. The caller validates a configuration
/// once, at construction; the engine does not re-check it at runtime.
#[derive(Debug)]
pub struct DnsIntelConfig {
    /// Seconds between two scheduled ticks.
    pub check_interval_secs: u64,
    /// Sliding window, in hours, over which history samples are aggregated.
    pub history_retention_hours: u64,
    /// Hard cap on the number of stored history samples.
    pub max_history_entries: usize,
    /// How many probes may run concurrently during one tick.
    pub parallel_workers: usize,
    /// Average ping at or below this many milliseconds scores a full 100.
    pub threshold_good_ms: u64,
    /// Average ping above this many milliseconds decays from 60 toward 0.
    pub threshold_slow_ms: u64,
    /// Consecutive failures of the preferred resolver that trigger a failover.
    pub max_consecutive_failures: u32,
    /// Minimum seconds between two failovers.
    pub failover_cooldown_secs: u64,
}

impl DnsIntelConfig {
    /// What the engine assumes of every configuration it is given:
    /// the two latency thresholds are ordered (the ping score interpolates
    /// between them) and the failover trigger is at least one failure.
    pub open spec fn valid(self) -> bool {
        &&& self.threshold_good_ms < self.threshold_slow_ms
        &&& self.max_consecutive_failures >= 1
    }
}

impl Clone for DnsIntelConfig {
    fn clone(&self) -> (r: Self)
        ensures
            r == *self,
    {
        DnsIntelConfig {
            check_interval_secs: self.check_interval_secs,
            history_retention_hours: self.history_retention_hours,
            max_history_entries: self.max_history_entries,
            parallel_workers: self.parallel_workers,
            threshold_good_ms: self.threshold_good_ms,
            threshold_slow_ms: self.threshold_slow_ms,
            max_consecutive_failures: self.max_consecutive_failures,
            failover_cooldown_secs: self.failover_cooldown_secs,
        }
    }
}

impl Default for DnsIntelConfig {
    /// The stock configuration: a 30 s cadence, a 24 h window capped at
    /// 1000 samples, 4 probe workers, 30 ms / 80 ms latency thresholds,
    /// failover after 2 consecutive failures with a 30 s cooldown.
    fn default() -> (r: Self)
        ensures
            r.check_interval_secs == 30,
            r.history_retention_hours == 24,
            r.max_history_entries == 1000,
            r.parallel_workers == 4,
            r.threshold_good_ms == 30,
            r.threshold_slow_ms == 80,
            r.max_consecutive_failures == 2,
            r.failover_cooldown_secs == 30,
            r.valid(),
    {
        DnsIntelConfig {
            check_interval_secs: 30,
            history_retention_hours: 24,
            max_history_entries: 1000,
            parallel_workers: 4,
            threshold_good_ms: 30,
            threshold_slow_ms: 80,
            max_consecutive_failures: 2,
            failover_cooldown_secs: 30,
        }
    }
}

} // verus!
