//! Records kept by the engine: per-resolver metrics, history samples and
//! failover events, and the probe samples handed in from outside.
//!
//! Latencies are whole milliseconds. Percentages and scores are fixed-point,
//! in hundredths: `10000` stands for `100.00`.

use vstd::prelude::*;

verus! {

/// One hundred percent, in hundredths (`100.00`).
pub const CENTI_FULL: u64 = 10000;

/// Health metrics of one monitored resolver. One record per pool member is
/// created at construction and mutated every tick, never removed.
#[derive(Debug)]
pub struct DnsMetrics {
    /// Network address of the resolver; fixed for the engine's lifetime.
    pub address: String,
    /// Display name of the resolver; fixed for the engine's lifetime.
    pub name: String,
    /// Ping latency of the latest probe, in milliseconds.
    pub ping_ms: u64,
    /// Resolution latency of the latest probe, in milliseconds.
    pub resolve_ms: u64,
    /// Share of successful samples in the window, in hundredths of a percent.
    pub success_rate: u64,
    /// Unix timestamp (seconds) of the latest probe.
    pub last_check: u64,
    /// Whether the latest probe succeeded.
    pub is_healthy: bool,
    /// Mean ping over the window's successful samples, in milliseconds.
    pub avg_ping_24h: u64,
    /// Mean resolution latency over the window's successful samples, in ms.
    pub avg_resolve_24h: u64,
    /// Share of successful samples in the window, in hundredths of a percent.
    pub uptime_24h: u64,
    /// Number of samples in the window.
    pub checks_24h: u64,
    /// Number of failed samples in the window.
    pub failures_24h: u64,
    /// Composite health score, in hundredths of a point (0 to 10000).
    pub score: u64,
    /// Dense position among the pool by descending score, 1-based
    /// (0 until the first scoring pass).
    pub rank: usize,
    /// Failed probes since the last successful one.
    pub consecutive_failures: u32,
}

impl DnsMetrics {
    /// Creates the starting record for one resolver: optimistic health,
    /// mid-range score, no samples yet.
    pub fn new(address: String, name: String) -> (r: Self)
        ensures
            r.address == address,
            r.name == name,
            r.ping_ms == 0,
            r.resolve_ms == 0,
            r.success_rate == CENTI_FULL,
            r.last_check == 0,
            r.is_healthy,
            r.avg_ping_24h == 0,
            r.avg_resolve_24h == 0,
            r.uptime_24h == CENTI_FULL,
            r.checks_24h == 0,
            r.failures_24h == 0,
            r.score == 5000,
            r.rank == 0,
            r.consecutive_failures == 0,
    {
        DnsMetrics {
            address,
            name,
            ping_ms: 0,
            resolve_ms: 0,
            success_rate: CENTI_FULL,
            last_check: 0,
            is_healthy: true,
            avg_ping_24h: 0,
            avg_resolve_24h: 0,
            uptime_24h: CENTI_FULL,
            checks_24h: 0,
            failures_24h: 0,
            score: 5000,
            rank: 0,
            consecutive_failures: 0,
        }
    }
}

impl Clone for DnsMetrics {
    fn clone(&self) -> (r: Self)
        ensures
            r == *self,
    {
        DnsMetrics {
            address: self.address.clone(),
            name: self.name.clone(),
            ping_ms: self.ping_ms,
            resolve_ms: self.resolve_ms,
            success_rate: self.success_rate,
            last_check: self.last_check,
            is_healthy: self.is_healthy,
            avg_ping_24h: self.avg_ping_24h,
            avg_resolve_24h: self.avg_resolve_24h,
            uptime_24h: self.uptime_24h,
            checks_24h: self.checks_24h,
            failures_24h: self.failures_24h,
            score: self.score,
            rank: self.rank,
            consecutive_failures: self.consecutive_failures,
        }
    }
}

/// One history sample: the outcome of one probe of one resolver.
#[derive(Debug)]
pub struct HistoryEntry {
    /// Unix timestamp (seconds) of the probe.
    pub timestamp: u64,
    /// Position of the probed resolver in the engine's pool.
    pub resolver: usize,
    /// Address of the probed resolver.
    pub address: String,
    /// Measured ping, in milliseconds (0 on failure).
    pub ping_ms: u64,
    /// Measured or estimated resolution latency, in milliseconds (0 on failure).
    pub resolve_ms: u64,
    /// Whether `resolve_ms` was really measured; false where it is the
    /// estimate taken from the ping, so the two kinds of sample stay
    /// distinguishable.
    pub resolve_measured: bool,
    /// Whether the probe succeeded.
    pub success: bool,
}

impl Clone for HistoryEntry {
    fn clone(&self) -> (r: Self)
        ensures
            r == *self,
    {
        HistoryEntry {
            timestamp: self.timestamp,
            resolver: self.resolver,
            address: self.address.clone(),
            ping_ms: self.ping_ms,
            resolve_ms: self.resolve_ms,
            resolve_measured: self.resolve_measured,
            success: self.success,
        }
    }
}

/// One recorded change of the preferred resolver.
#[derive(Debug)]
pub struct FailoverEvent {
    /// Unix timestamp (seconds) of the failover.
    pub timestamp: u64,
    /// Address the engine moved away from.
    pub from_dns: String,
    /// Address the engine moved to; never equal to `from_dns`.
    pub to_dns: String,
    /// Why the failover happened, e.g. `2 consecutive failures`.
    pub reason: String,
    /// Whether the failover was carried out (always true for recorded events).
    pub success: bool,
}

impl Clone for FailoverEvent {
    fn clone(&self) -> (r: Self)
        ensures
            r == *self,
    {
        FailoverEvent {
            timestamp: self.timestamp,
            from_dns: self.from_dns.clone(),
            to_dns: self.to_dns.clone(),
            reason: self.reason.clone(),
            success: self.success,
        }
    }
}

/// The outcome of one probe, as handed to the engine.
#[derive(Debug, Clone, Copy, PartialEq, Eq, Structural)]
pub struct ProbeSample {
    /// Whether the resolver's service port accepted a connection.
    pub success: bool,
    /// Connection latency in milliseconds; 0 on failure, at least 1 on success.
    pub ping_ms: u64,
    /// Resolution latency in milliseconds; 0 on failure.
    pub resolve_ms: u64,
    /// Whether `resolve_ms` was really measured; false where it is only the
    /// estimate taken from the ping.
    pub resolve_measured: bool,
}

impl ProbeSample {
    /// A failed probe carries zero latencies and no measurement; a successful
    /// one carries a nonzero ping.
    pub open spec fn valid(self) -> bool {
        &&& !self.success ==> self.ping_ms == 0 && self.resolve_ms == 0 && !self.resolve_measured
        &&& self.success ==> self.ping_ms >= 1
    }
}

} // verus!
