//! The resolver health engine: a deterministic state machine over probe
//! samples. A scheduler outside the library probes the pool, then hands the
//! samples and the current time to [`DnsIntelligence::tick`]; queries may be
//! served at any time.

use vstd::prelude::*;
use vstd::string::StringExecFns;

use crate::config::DnsIntelConfig;
use crate::metrics::{DnsMetrics, FailoverEvent, HistoryEntry, ProbeSample, CENTI_FULL};
use crate::order::{compute_key_order, key_order, lemma_key_order, pos_before, positions_in_bounds};
use crate::score::{compute_score, health_score_centi, lemma_scaled_ratio_le};
use crate::util::{failure_reason, failure_reason_string};

verus! {

/// The engine: a fixed pool of resolvers with their metrics, the sample
/// history, the failover record, and the lifecycle flags.
pub struct DnsIntelligence {
    /// Configuration, fixed at construction.
    config: DnsIntelConfig,
    /// One metrics record per pool member; created once, never removed.
    metrics: Vec<DnsMetrics>,
    /// Probe samples, oldest first, pruned every tick.
    history: Vec<HistoryEntry>,
    /// Every failover carried out, oldest first.
    failover_history: Vec<FailoverEvent>,
    /// Whether the background loop should keep running.
    running: bool,
    /// Unix timestamp of the last failover, if any happened yet.
    last_failover: Option<u64>,
    /// Pool position of the currently preferred resolver, if any.
    current_best_dns: Option<usize>,
    /// Whether the failover controller is allowed to act.
    auto_failover_enabled: bool,
}

impl DnsIntelligence {
    /// The engine's configuration.
    pub closed spec fn spec_config(self) -> DnsIntelConfig {
        self.config
    }

    /// The metrics records, in pool order.
    pub closed spec fn spec_metrics(self) -> Seq<DnsMetrics> {
        self.metrics@
    }

    /// The retained history samples, oldest first.
    pub closed spec fn spec_history(self) -> Seq<HistoryEntry> {
        self.history@
    }

    /// The recorded failovers, oldest first.
    pub closed spec fn spec_failover_history(self) -> Seq<FailoverEvent> {
        self.failover_history@
    }

    /// Whether the background loop should keep running.
    pub closed spec fn spec_running(self) -> bool {
        self.running
    }

    /// When the last failover happened.
    pub closed spec fn spec_last_failover(self) -> Option<u64> {
        self.last_failover
    }

    /// Pool position of the currently preferred resolver.
    pub closed spec fn spec_current_best(self) -> Option<usize> {
        self.current_best_dns
    }

    /// Whether the failover controller is allowed to act.
    pub closed spec fn spec_auto_failover(self) -> bool {
        self.auto_failover_enabled
    }

    /// The standing invariant: a valid configuration, a history within its
    /// cap whose entries point into the pool and carry that resolver's
    /// address, scores within 0..=100.00, a preferred resolver that exists,
    /// and no failover event from an address to itself.
    pub open spec fn wf(self) -> bool {
        &&& self.spec_config().valid()
        &&& self.spec_history().len() <= self.spec_config().max_history_entries
        &&& forall|i: int|
            0 <= i < self.spec_history().len() ==> {
                let e = #[trigger] self.spec_history()[i];
                e.resolver < self.spec_metrics().len() && e.address
                    == self.spec_metrics()[e.resolver as int].address
            }
        &&& forall|i: int|
            0 <= i < self.spec_metrics().len() ==> (#[trigger] self.spec_metrics()[i]).score
                <= CENTI_FULL
        &&& match self.spec_current_best() {
            Some(c) => c < self.spec_metrics().len(),
            None => true,
        }
        &&& forall|i: int|
            0 <= i < self.spec_failover_history().len() ==> {
                let ev = #[trigger] self.spec_failover_history()[i];
                ev.from_dns@ != ev.to_dns@
            }
    }

    /// Builds an engine over an explicit pool of `(address, name)` pairs.
    pub fn with_pool(pool: Vec<(String, String)>, config: DnsIntelConfig) -> (r: Self)
        requires
            config.valid(),
        ensures
            r.wf(),
            r.spec_config() == config,
            r.spec_metrics().len() == pool@.len(),
            forall|i: int|
                0 <= i < pool@.len() ==> {
                    let m = #[trigger] r.spec_metrics()[i];
                    m.address == pool@[i].0 && m.name == pool@[i].1 && is_initial_metric(m)
                },
            r.spec_history().len() == 0,
            r.spec_failover_history().len() == 0,
            !r.spec_running(),
            r.spec_last_failover() is None,
            r.spec_current_best() is None,
            r.spec_auto_failover(),
    {
        let mut metrics: Vec<DnsMetrics> = Vec::new();
        for i in 0..pool.len()
            invariant
                metrics@.len() == i,
                forall|j: int|
                    0 <= j < i ==> {
                        let m = #[trigger] metrics@[j];
                        m.address == pool@[j].0 && m.name == pool@[j].1 && is_initial_metric(m)
                    },
        {
            let address = pool[i].0.clone();
            let name = pool[i].1.clone();
            metrics.push(DnsMetrics::new(address, name));
        }
        DnsIntelligence {
            config,
            metrics,
            history: Vec::new(),
            failover_history: Vec::new(),
            running: false,
            last_failover: None,
            current_best_dns: None,
            auto_failover_enabled: true,
        }
    }

    /// Builds the engine over the built-in pool of public resolvers.
    pub fn new(config: DnsIntelConfig) -> (r: Self)
        requires
            config.valid(),
        ensures
            r.wf(),
            r.spec_config() == config,
            r.spec_metrics().len() == 11,
            forall|i: int|
                0 <= i < 11 ==> {
                    let m = #[trigger] r.spec_metrics()[i];
                    m.address@ == default_server_address(i) && m.name@ == default_server_name(i)
                        && is_initial_metric(m)
                },
            r.spec_history().len() == 0,
            r.spec_failover_history().len() == 0,
            !r.spec_running(),
            r.spec_last_failover() is None,
            r.spec_current_best() is None,
            r.spec_auto_failover(),
    {
        Self::with_pool(default_dns_servers(), config)
    }

    /// Marks the engine as running. Returns whether a background loop should
    /// be started: a second start while already running is a no-op.
    pub fn start(&mut self) -> (started: bool)
        ensures
            final(self).spec_running(),
            started == !old(self).spec_running(),
            unchanged_but_running(*old(self), *final(self)),
            old(self).wf() ==> final(self).wf(),
    {
        let was_running = self.running;
        self.running = true;
        proof {
            if old(self).wf() {
                lemma_wf_same_core(*old(self), *self);
            }
        }
        !was_running
    }

    /// Asks the background loop to stop; it finishes its current tick first.
    pub fn stop(&mut self)
        ensures
            !final(self).spec_running(),
            unchanged_but_running(*old(self), *final(self)),
            old(self).wf() ==> final(self).wf(),
    {
        self.running = false;
        proof {
            if old(self).wf() {
                lemma_wf_same_core(*old(self), *self);
            }
        }
    }

    /// Whether the background loop should keep running.
    pub fn is_running(&self) -> (r: bool)
        ensures
            r == self.spec_running(),
    {
        self.running
    }

    /// Enables or disables the failover controller.
    pub fn set_auto_failover(&mut self, enabled: bool)
        ensures
            final(self).spec_auto_failover() == enabled,
            unchanged_but_auto(*old(self), *final(self)),
            old(self).wf() ==> final(self).wf(),
    {
        self.auto_failover_enabled = enabled;
        proof {
            if old(self).wf() {
                lemma_wf_same_core(*old(self), *self);
            }
        }
    }

    /// Whether the failover controller is allowed to act.
    pub fn is_auto_failover_enabled(&self) -> (r: bool)
        ensures
            r == self.spec_auto_failover(),
    {
        self.auto_failover_enabled
    }

    /// The address of the currently preferred resolver, if one was chosen.
    pub fn get_current_best(&self) -> (r: Option<String>)
        requires
            self.wf(),
        ensures
            match self.spec_current_best() {
                Some(c) => r == Some(self.spec_metrics()[c as int].address),
                None => r is None,
            },
    {
        match self.current_best_dns {
            Some(c) => Some(self.metrics[c].address.clone()),
            None => None,
        }
    }

    /// All recorded failovers, oldest first.
    pub fn get_failover_history(&self) -> (r: Vec<FailoverEvent>)
        ensures
            r@ == self.spec_failover_history(),
    {
        let mut r: Vec<FailoverEvent> = Vec::new();
        for i in 0..self.failover_history.len()
            invariant
                i <= self.failover_history@.len(),
                r@ == self.failover_history@.take(i as int),
        {
            r.push(self.failover_history[i].clone());
            assert(r@ =~= self.failover_history@.take(i as int + 1));
        }
        proof {
            assert(r@ =~= self.spec_failover_history());
        }
        r
    }
}

impl DnsIntelligence {
    /// Records one tick's probe samples: refreshes every resolver's current
    /// fields and consecutive-failure counter, and appends one history entry
    /// per resolver.
    fn record_samples(&mut self, samples: &Vec<ProbeSample>, now: u64)
        requires
            samples@.len() == old(self).spec_metrics().len(),
        ensures
            final(self).spec_metrics() == recorded_metrics(
                old(self).spec_metrics(),
                samples@,
                now,
            ),
            final(self).spec_history() == old(self).spec_history() + probe_entries(
                old(self).spec_metrics(),
                samples@,
                now,
            ),
            final(self).spec_config() == old(self).spec_config(),
            final(self).spec_failover_history() == old(self).spec_failover_history(),
            final(self).spec_running() == old(self).spec_running(),
            final(self).spec_last_failover() == old(self).spec_last_failover(),
            final(self).spec_current_best() == old(self).spec_current_best(),
            final(self).spec_auto_failover() == old(self).spec_auto_failover(),
    {
        let ghost ms0 = self.metrics@;
        let ghost h0 = self.history@;
        let n = self.metrics.len();
        for i in 0..n
            invariant
                n == ms0.len(),
                samples@.len() == n,
                self.metrics@.len() == n,
                forall|j: int| i <= j < n ==> self.metrics@[j] == ms0[j],
                forall|j: int|
                    0 <= j < i ==> self.metrics@[j] == recorded_metric(
                        ms0[j],
                        samples@[j],
                        now,
                    ),
                self.history@ == h0 + Seq::new(
                    i as nat,
                    |j: int| probe_entry(ms0[j], j as usize, samples@[j], now),
                ),
                self.config == old(self).config,
                self.failover_history@ == old(self).failover_history@,
                self.running == old(self).running,
                self.last_failover == old(self).last_failover,
                self.current_best_dns == old(self).current_best_dns,
                self.auto_failover_enabled == old(self).auto_failover_enabled,
        {
            let s = samples[i];
            let old_m = self.metrics[i].clone();
            let cf: u32 = if s.success {
                0
            } else if old_m.consecutive_failures < u32::MAX {
                old_m.consecutive_failures + 1
            } else {
                old_m.consecutive_failures
            };
            let entry_addr = old_m.address.clone();
            let new_m = DnsMetrics {
                address: old_m.address,
                name: old_m.name,
                ping_ms: s.ping_ms,
                resolve_ms: s.resolve_ms,
                success_rate: old_m.success_rate,
                last_check: now,
                is_healthy: s.success,
                avg_ping_24h: old_m.avg_ping_24h,
                avg_resolve_24h: old_m.avg_resolve_24h,
                uptime_24h: old_m.uptime_24h,
                checks_24h: old_m.checks_24h,
                failures_24h: old_m.failures_24h,
                score: old_m.score,
                rank: old_m.rank,
                consecutive_failures: cf,
            };
            self.metrics[i] = new_m;
            self.history.push(
                HistoryEntry {
                    timestamp: now,
                    resolver: i,
                    address: entry_addr,
                    ping_ms: s.ping_ms,
                    resolve_ms: s.resolve_ms,
                    resolve_measured: s.resolve_measured,
                    success: s.success,
                },
            );
            proof {
                assert(self.metrics@[i as int] == recorded_metric(ms0[i as int], samples@[i as int], now));
                assert(self.history@ =~= h0 + Seq::new(
                    (i + 1) as nat,
                    |j: int| probe_entry(ms0[j], j as usize, samples@[j], now),
                ));
            }
        }
        proof {
            assert(self.metrics@ =~= recorded_metrics(ms0, samples@, now));
            assert(self.history@ =~= h0 + probe_entries(ms0, samples@, now));
        }
    }

    /// Drops history samples that fell out of the retention window, then, if
    /// the history is still over its cap, evicts the oldest surplus entries.
    fn prune_history(&mut self, now: u64)
        ensures
            final(self).spec_history() == pruned_history(
                old(self).spec_history(),
                window_cutoff(now, old(self).spec_config().history_retention_hours),
                old(self).spec_config().max_history_entries as int,
            ),
            final(self).spec_history().len() <= old(self).spec_config().max_history_entries,
            forall|i: int|
                0 <= i < final(self).spec_history().len() ==> in_window(
                    #[trigger] final(self).spec_history()[i],
                    window_cutoff(now, old(self).spec_config().history_retention_hours),
                ),
            forall|i: int|
                0 <= i < final(self).spec_history().len() ==> old(self).spec_history().contains(
                    #[trigger] final(self).spec_history()[i],
                ),
            final(self).spec_metrics() == old(self).spec_metrics(),
            final(self).spec_config() == old(self).spec_config(),
            final(self).spec_failover_history() == old(self).spec_failover_history(),
            final(self).spec_running() == old(self).spec_running(),
            final(self).spec_last_failover() == old(self).spec_last_failover(),
            final(self).spec_current_best() == old(self).spec_current_best(),
            final(self).spec_auto_failover() == old(self).spec_auto_failover(),
    {
        let cutoff = window_cutoff_exec(now, self.config.history_retention_hours);
        let ghost h0 = self.history@;
        let mut kept: Vec<HistoryEntry> = Vec::new();
        assert(h0.take(0) =~= Seq::<HistoryEntry>::empty());
        assert(window_filtered(h0.take(0), cutoff) =~= Seq::<HistoryEntry>::empty()) by {
            reveal(Seq::filter);
        }
        for i in 0..self.history.len()
            invariant
                self.history@ == h0,
                cutoff == window_cutoff(now, self.config.history_retention_hours),
                kept@ == window_filtered(h0.take(i as int), cutoff),
        {
            let ghost prefix = h0.take(i as int);
            if self.history[i].timestamp > cutoff {
                kept.push(self.history[i].clone());
            }
            proof {
                lemma_window_filtered_push(prefix, h0[i as int], cutoff);
                assert(h0.take(i + 1) =~= prefix.push(h0[i as int]));
                if in_window(h0[i as int], cutoff) {
                    assert(kept@ =~= window_filtered(prefix, cutoff) + seq![h0[i as int]]);
                } else {
                    assert(kept@ =~= window_filtered(prefix, cutoff) + Seq::<HistoryEntry>::empty());
                }
            }
        }
        proof {
            assert(h0.take(h0.len() as int) =~= h0);
        }
        let ghost full = window_filtered(h0, cutoff);
        let max = self.config.max_history_entries;
        let ghost mut dropped: int = 0;
        while kept.len() > max
            invariant
                0 <= dropped <= full.len(),
                kept@ == full.skip(dropped),
                dropped == full.len() - kept@.len(),
                full.len() > max ==> kept@.len() >= max,
                full.len() <= max ==> dropped == 0,
            decreases kept@.len(),
        {
            kept.remove(0);
            proof {
                dropped = dropped + 1;
                assert(kept@ =~= full.skip(dropped));
            }
        }
        self.history = kept;
        proof {
            if full.len() > max {
                assert(self.history@ =~= full.skip(full.len() - max as int));
            } else {
                assert(full.skip(0) =~= full);
            }
            assert(self.history@ == pruned_history(h0, cutoff, max as int));
            lemma_window_filtered_props(h0, cutoff);
            assert forall|i: int|
                0 <= i < self.history@.len() implies in_window(#[trigger] self.history@[i], cutoff)
                && h0.contains(self.history@[i]) by {
                assert(self.history@[i] == window_filtered(h0, cutoff)[dropped + i]);
            }
        }
    }
}

/// Aggregates of one resolver's samples inside the retention window.
pub struct WindowStats {
    /// How many samples fell in the window.
    pub checks: nat,
    /// How many of them failed.
    pub fails: nat,
    /// How many of them succeeded.
    pub succ: nat,
    /// Sum of the successful samples' ping latencies.
    pub sum_ping: nat,
    /// Sum of the successful samples' resolution latencies.
    pub sum_resolve: nat,
}

/// The window aggregates of resolver `i` over history `h`.
pub open spec fn window_stats(h: Seq<HistoryEntry>, i: int, cutoff: u64) -> WindowStats
    decreases h.len(),
{
    if h.len() == 0 {
        WindowStats { checks: 0, fails: 0, succ: 0, sum_ping: 0, sum_resolve: 0 }
    } else {
        let st = window_stats(h.drop_last(), i, cutoff);
        let e = h.last();
        if e.resolver as int == i && in_window(e, cutoff) {
            WindowStats {
                checks: st.checks + 1,
                fails: st.fails + if e.success {
                    0nat
                } else {
                    1nat
                },
                succ: st.succ + if e.success {
                    1nat
                } else {
                    0nat
                },
                sum_ping: st.sum_ping + if e.success {
                    e.ping_ms as nat
                } else {
                    0nat
                },
                sum_resolve: st.sum_resolve + if e.success {
                    e.resolve_ms as nat
                } else {
                    0nat
                },
            }
        } else {
            st
        }
    }
}

proof fn lemma_window_stats_bounds(h: Seq<HistoryEntry>, i: int, cutoff: u64)
    ensures
        window_stats(h, i, cutoff).checks <= h.len(),
        window_stats(h, i, cutoff).succ + window_stats(h, i, cutoff).fails == window_stats(
            h,
            i,
            cutoff,
        ).checks,
        window_stats(h, i, cutoff).sum_ping <= window_stats(h, i, cutoff).succ * (
        u64::MAX as nat),
        window_stats(h, i, cutoff).sum_resolve <= window_stats(h, i, cutoff).succ * (
        u64::MAX as nat),
    decreases h.len(),
{
    if h.len() > 0 {
        lemma_window_stats_bounds(h.drop_last(), i, cutoff);
    }
}

/// A resolver's record after scoring: aggregates refreshed from its in-window
/// samples (means only when it had a successful sample), the score recomputed,
/// everything else kept. A resolver with no samples in the window keeps its
/// aggregates and scores zero.
pub open spec fn scored_metric(m: DnsMetrics, st: WindowStats, good: u64, slow: u64) -> DnsMetrics {
    if st.checks == 0 {
        DnsMetrics { score: 0u64, ..m }
    } else {
        let avg_ping = if st.succ > 0 {
            (st.sum_ping / st.succ) as u64
        } else {
            m.avg_ping_24h
        };
        let avg_resolve = if st.succ > 0 {
            (st.sum_resolve / st.succ) as u64
        } else {
            m.avg_resolve_24h
        };
        let uptime = (st.succ * 10000 / st.checks) as u64;
        DnsMetrics {
            avg_ping_24h: avg_ping,
            avg_resolve_24h: avg_resolve,
            uptime_24h: uptime,
            success_rate: uptime,
            checks_24h: st.checks as u64,
            failures_24h: st.fails as u64,
            score: health_score_centi(
                avg_ping as int,
                avg_resolve as int,
                uptime as int,
                good as int,
                slow as int,
            ) as u64,
            ..m
        }
    }
}

/// All records after one scoring pass, before ranks are assigned.
pub open spec fn scored_metrics(
    ms: Seq<DnsMetrics>,
    h: Seq<HistoryEntry>,
    cutoff: u64,
    good: u64,
    slow: u64,
) -> Seq<DnsMetrics> {
    Seq::new(ms.len(), |i: int| scored_metric(ms[i], window_stats(h, i, cutoff), good, slow))
}

/// The sort keys for ranking: the inverted score, so that ascending keys mean
/// descending scores, with ties broken by pool position.
pub open spec fn score_keys(ms: Seq<DnsMetrics>) -> Seq<u64> {
    Seq::new(ms.len(), |i: int| (CENTI_FULL - ms[i].score) as u64)
}

/// Ranks are dense positions along the score ordering: the resolver listed
/// `k`th by descending score carries rank `k + 1`.
pub open spec fn ranks_assigned(ms: Seq<DnsMetrics>) -> bool {
    let ord = key_order(score_keys(ms));
    forall|k: int| 0 <= k < ord.len() ==> (#[trigger] ms[ord[k] as int]).rank == k + 1
}

/// `a` and `b` agree on every field but possibly the rank.
pub open spec fn same_except_rank(a: DnsMetrics, b: DnsMetrics) -> bool {
    a == DnsMetrics { rank: a.rank, ..b }
}

/// Sums one resolver's in-window samples; returns
/// `(checks, fails, succ, sum_ping, sum_resolve)`.
fn collect_window_stats(history: &Vec<HistoryEntry>, i: usize, cutoff: u64) -> (r: (
    u64,
    u64,
    u64,
    u128,
    u128,
))
    ensures
        ({
            let st = window_stats(history@, i as int, cutoff);
            &&& r.0 as nat == st.checks
            &&& r.1 as nat == st.fails
            &&& r.2 as nat == st.succ
            &&& r.3 as nat == st.sum_ping
            &&& r.4 as nat == st.sum_resolve
        }),
{
    let mut checks: u64 = 0;
    let mut fails: u64 = 0;
    let mut succ: u64 = 0;
    let mut sum_ping: u128 = 0;
    let mut sum_resolve: u128 = 0;
    let n = history.len();
    assert(history@.take(0) =~= Seq::<HistoryEntry>::empty());
    for k in 0..n
        invariant
            n == history@.len(),
            ({
                let st = window_stats(history@.take(k as int), i as int, cutoff);
                &&& checks as nat == st.checks
                &&& fails as nat == st.fails
                &&& succ as nat == st.succ
                &&& sum_ping as nat == st.sum_ping
                &&& sum_resolve as nat == st.sum_resolve
            }),
    {
        proof {
            lemma_window_stats_bounds(history@.take(k as int), i as int, cutoff);
            assert(history@.take(k as int).len() == k);
            assert(history@.take(k + 1).drop_last() =~= history@.take(k as int));
            assert(history@.take(k + 1).last() == history@[k as int]);
        }
        let e = &history[k];
        if e.resolver == i && e.timestamp > cutoff {
            checks = checks + 1;
            if e.success {
                succ = succ + 1;
                sum_ping = sum_ping + e.ping_ms as u128;
                sum_resolve = sum_resolve + e.resolve_ms as u128;
                proof {
                    let st = window_stats(history@.take(k as int), i as int, cutoff);
                    let m = u64::MAX as nat;
                    assert(st.sum_ping + history@[k as int].ping_ms as nat <= (st.succ + 1) * m);
                    assert(st.sum_resolve + history@[k as int].resolve_ms as nat <= (st.succ + 1)
                        * m);
                    vstd::arithmetic::mul::lemma_mul_inequality(
                        st.succ as int + 1,
                        u64::MAX as int,
                        m as int,
                    );
                    assert((st.succ + 1) * m <= m * m);
                }
            } else {
                fails = fails + 1;
            }
        }
    }
    proof {
        assert(history@.take(n as int) =~= history@);
    }
    (checks, fails, succ, sum_ping, sum_resolve)
}

/// A metrics record in its starting state, before any probe.
pub open spec fn is_initial_metric(m: DnsMetrics) -> bool {
    &&& m.ping_ms == 0
    &&& m.resolve_ms == 0
    &&& m.success_rate == CENTI_FULL
    &&& m.last_check == 0
    &&& m.is_healthy
    &&& m.avg_ping_24h == 0
    &&& m.avg_resolve_24h == 0
    &&& m.uptime_24h == CENTI_FULL
    &&& m.checks_24h == 0
    &&& m.failures_24h == 0
    &&& m.score == 5000
    &&& m.rank == 0
    &&& m.consecutive_failures == 0
}

/// Every field but `running` is kept.
pub open spec fn unchanged_but_running(a: DnsIntelligence, b: DnsIntelligence) -> bool {
    &&& b.spec_config() == a.spec_config()
    &&& b.spec_metrics() == a.spec_metrics()
    &&& b.spec_history() == a.spec_history()
    &&& b.spec_failover_history() == a.spec_failover_history()
    &&& b.spec_last_failover() == a.spec_last_failover()
    &&& b.spec_current_best() == a.spec_current_best()
    &&& b.spec_auto_failover() == a.spec_auto_failover()
}

/// Every field but `auto_failover_enabled` is kept.
pub open spec fn unchanged_but_auto(a: DnsIntelligence, b: DnsIntelligence) -> bool {
    &&& b.spec_config() == a.spec_config()
    &&& b.spec_metrics() == a.spec_metrics()
    &&& b.spec_history() == a.spec_history()
    &&& b.spec_failover_history() == a.spec_failover_history()
    &&& b.spec_last_failover() == a.spec_last_failover()
    &&& b.spec_current_best() == a.spec_current_best()
    &&& b.spec_running() == a.spec_running()
}

/// The invariant does not read the lifecycle flags, and of the preferred
/// resolver only that it points into the pool: it survives any change that
/// keeps the metrics, the history and the failover record.
pub proof fn lemma_wf_same_core(a: DnsIntelligence, b: DnsIntelligence)
    requires
        a.wf(),
        b.spec_config() == a.spec_config(),
        b.spec_metrics() == a.spec_metrics(),
        b.spec_history() == a.spec_history(),
        b.spec_failover_history() == a.spec_failover_history(),
        match b.spec_current_best() {
            Some(c) => c < b.spec_metrics().len(),
            None => true,
        },
    ensures
        b.wf(),
{
}

/// Address of the `i`th built-in pool member.
pub open spec fn default_server_address(i: int) -> Seq<char> {
    if i == 0 {
        "1.1.1.1"@
    } else if i == 1 {
        "1.0.0.1"@
    } else if i == 2 {
        "8.8.8.8"@
    } else if i == 3 {
        "8.8.4.4"@
    } else if i == 4 {
        "9.9.9.9"@
    } else if i == 5 {
        "149.112.112.112"@
    } else if i == 6 {
        "208.67.222.222"@
    } else if i == 7 {
        "208.67.220.220"@
    } else if i == 8 {
        "94.140.14.14"@
    } else if i == 9 {
        "94.140.15.15"@
    } else {
        "185.228.168.9"@
    }
}

/// Display name of the `i`th built-in pool member.
pub open spec fn default_server_name(i: int) -> Seq<char> {
    if i == 0 {
        "Cloudflare"@
    } else if i == 1 {
        "Cloudflare Secondary"@
    } else if i == 2 {
        "Google"@
    } else if i == 3 {
        "Google Secondary"@
    } else if i == 4 {
        "Quad9"@
    } else if i == 5 {
        "Quad9 Secondary"@
    } else if i == 6 {
        "OpenDNS"@
    } else if i == 7 {
        "OpenDNS Secondary"@
    } else if i == 8 {
        "AdGuard"@
    } else if i == 9 {
        "AdGuard Secondary"@
    } else {
        "CleanBrowsing"@
    }
}

/// The built-in pool of public resolvers, as `(address, name)` pairs.
pub fn default_dns_servers() -> (r: Vec<(String, String)>)
    ensures
        r@.len() == 11,
        forall|i: int|
            0 <= i < 11 ==> (#[trigger] r@[i]).0@ == default_server_address(i) && r@[i].1@
                == default_server_name(i),
{
    let mut r: Vec<(String, String)> = Vec::new();
    r.push((String::from_str("1.1.1.1"), String::from_str("Cloudflare")));
    r.push((String::from_str("1.0.0.1"), String::from_str("Cloudflare Secondary")));
    r.push((String::from_str("8.8.8.8"), String::from_str("Google")));
    r.push((String::from_str("8.8.4.4"), String::from_str("Google Secondary")));
    r.push((String::from_str("9.9.9.9"), String::from_str("Quad9")));
    r.push((String::from_str("149.112.112.112"), String::from_str("Quad9 Secondary")));
    r.push((String::from_str("208.67.222.222"), String::from_str("OpenDNS")));
    r.push((String::from_str("208.67.220.220"), String::from_str("OpenDNS Secondary")));
    r.push((String::from_str("94.140.14.14"), String::from_str("AdGuard")));
    r.push((String::from_str("94.140.15.15"), String::from_str("AdGuard Secondary")));
    r.push((String::from_str("185.228.168.9"), String::from_str("CleanBrowsing")));
    r
}

impl DnsIntelligence {
    /// Recomputes every resolver's window aggregates and score from the
    /// retained history, then assigns dense ranks along the score ordering.
    fn recompute_scores(&mut self, now: u64)
        requires
            old(self).spec_config().valid(),
        ensures
            ({
                let cutoff = window_cutoff(now, old(self).spec_config().history_retention_hours);
                let scored = scored_metrics(
                    old(self).spec_metrics(),
                    old(self).spec_history(),
                    cutoff,
                    old(self).spec_config().threshold_good_ms,
                    old(self).spec_config().threshold_slow_ms,
                );
                &&& final(self).spec_metrics().len() == old(self).spec_metrics().len()
                &&& forall|i: int|
                    0 <= i < scored.len() ==> same_except_rank(
                        #[trigger] final(self).spec_metrics()[i],
                        scored[i],
                    )
            }),
            ranks_assigned(final(self).spec_metrics()),
            forall|i: int|
                0 <= i < final(self).spec_metrics().len() ==> {
                    let m = #[trigger] final(self).spec_metrics()[i];
                    m.score <= CENTI_FULL && 1 <= m.rank <= final(self).spec_metrics().len()
                },
            final(self).spec_history() == old(self).spec_history(),
            final(self).spec_config() == old(self).spec_config(),
            final(self).spec_failover_history() == old(self).spec_failover_history(),
            final(self).spec_running() == old(self).spec_running(),
            final(self).spec_last_failover() == old(self).spec_last_failover(),
            final(self).spec_current_best() == old(self).spec_current_best(),
            final(self).spec_auto_failover() == old(self).spec_auto_failover(),
    {
        let ghost ms0 = self.metrics@;
        let cutoff = window_cutoff_exec(now, self.config.history_retention_hours);
        let good = self.config.threshold_good_ms;
        let slow = self.config.threshold_slow_ms;
        let n = self.metrics.len();
        let ghost scored = scored_metrics(ms0, self.history@, cutoff, good, slow);
        for i in 0..n
            invariant
                n == ms0.len(),
                self.metrics@.len() == n,
                good == self.config.threshold_good_ms,
                slow == self.config.threshold_slow_ms,
                good < slow,
                cutoff == window_cutoff(now, self.config.history_retention_hours),
                scored == scored_metrics(ms0, self.history@, cutoff, good, slow),
                forall|j: int| i <= j < n ==> self.metrics@[j] == ms0[j],
                forall|j: int|
                    0 <= j < i ==> self.metrics@[j] == scored[j] && (#[trigger] self.metrics@[j]).score
                        <= CENTI_FULL,
                self.config == old(self).config,
                self.history@ == old(self).history@,
                self.failover_history@ == old(self).failover_history@,
                self.running == old(self).running,
                self.last_failover == old(self).last_failover,
                self.current_best_dns == old(self).current_best_dns,
                self.auto_failover_enabled == old(self).auto_failover_enabled,
        {
            let (checks, fails, succ, sum_ping, sum_resolve) = collect_window_stats(
                &self.history,
                i,
                cutoff,
            );
            proof {
                lemma_window_stats_bounds(self.history@, i as int, cutoff);
            }
            let ghost st = window_stats(self.history@, i as int, cutoff);
            let old_m = self.metrics[i].clone();
            if checks == 0 {
                let mut new_m = old_m;
                new_m.score = 0;
                self.metrics[i] = new_m;
            } else {
                let avg_ping: u64 = if succ > 0 {
                    proof {
                        vstd::arithmetic::div_mod::lemma_multiply_divide_le(
                            st.sum_ping as int,
                            st.succ as int,
                            u64::MAX as int,
                        );
                    }
                    (sum_ping / (succ as u128)) as u64
                } else {
                    old_m.avg_ping_24h
                };
                let avg_resolve: u64 = if succ > 0 {
                    proof {
                        vstd::arithmetic::div_mod::lemma_multiply_divide_le(
                            st.sum_resolve as int,
                            st.succ as int,
                            u64::MAX as int,
                        );
                    }
                    (sum_resolve / (succ as u128)) as u64
                } else {
                    old_m.avg_resolve_24h
                };
                proof {
                    lemma_scaled_ratio_le(st.succ as int, st.checks as int, 10000);
                }
                let uptime: u64 = ((succ as u128) * 10000 / (checks as u128)) as u64;
                let score = compute_score(avg_ping, avg_resolve, uptime, good, slow);
                let new_m = DnsMetrics {
                    address: old_m.address,
                    name: old_m.name,
                    ping_ms: old_m.ping_ms,
                    resolve_ms: old_m.resolve_ms,
                    success_rate: uptime,
                    last_check: old_m.last_check,
                    is_healthy: old_m.is_healthy,
                    avg_ping_24h: avg_ping,
                    avg_resolve_24h: avg_resolve,
                    uptime_24h: uptime,
                    checks_24h: checks,
                    failures_24h: fails,
                    score,
                    rank: old_m.rank,
                    consecutive_failures: old_m.consecutive_failures,
                };
                self.metrics[i] = new_m;
            }
            proof {
                assert(self.metrics@[i as int] == scored_metric(ms0[i as int], st, good, slow));
            }
        }
        proof {
            assert(self.metrics@ =~= scored);
        }
        // assign dense ranks along the score ordering
        let mut keys: Vec<u64> = Vec::new();
        for i in 0..n
            invariant
                n == self.metrics@.len(),
                keys@.len() == i,
                forall|j: int|
                    0 <= j < n ==> (#[trigger] self.metrics@[j]).score <= CENTI_FULL,
                forall|j: int| 0 <= j < i ==> keys@[j] == score_keys(self.metrics@)[j],
        {
            keys.push(CENTI_FULL - self.metrics[i].score);
        }
        proof {
            assert(keys@ =~= score_keys(self.metrics@));
        }
        let ord = compute_key_order(&keys);
        proof {
            lemma_key_order(keys@);
        }
        let ghost ms1 = self.metrics@;
        let ghost ordv = ord@;
        for k in 0..n
            invariant
                n == self.metrics@.len(),
                n == ms1.len(),
                ordv == key_order(score_keys(ms1)),
                ord@ == ordv,
                ordv.len() == n,
                positions_in_bounds(score_keys(ms1), ordv),
                ordv.no_duplicates(),
                forall|j: int| 0 <= j < n ==> same_except_rank(#[trigger] self.metrics@[j], ms1[j]),
                forall|j: int|
                    0 <= j < k ==> (#[trigger] self.metrics@[ordv[j] as int]).rank == j + 1,
                self.config == old(self).config,
                self.history@ == old(self).history@,
                self.failover_history@ == old(self).failover_history@,
                self.running == old(self).running,
                self.last_failover == old(self).last_failover,
                self.current_best_dns == old(self).current_best_dns,
                self.auto_failover_enabled == old(self).auto_failover_enabled,
        {
            let idx = ord[k];
            assert(idx < n);
            self.metrics[idx].rank = k + 1;
            proof {
                assert forall|j: int|
                    0 <= j < k + 1 implies (#[trigger] self.metrics@[ordv[j] as int]).rank == j
                    + 1 by {
                    if j < k {
                        assert(ordv[j] != ordv[k as int]);
                    }
                }
            }
        }
        proof {
            assert(score_keys(self.metrics@) =~= score_keys(ms1));
            assert(ranks_assigned(self.metrics@));
            assert forall|i: int|
                0 <= i < n implies (#[trigger] self.metrics@[i]).score <= CENTI_FULL && 1
                <= self.metrics@[i].rank <= n by {
                assert(same_except_rank(self.metrics@[i], ms1[i]));
                assert(ms1[i].score <= CENTI_FULL);
                let ks = score_keys(ms1);
                assert(key_order(ks).contains(i as usize));
                let k = choose|k: int| 0 <= k < key_order(ks).len() && key_order(ks)[k] == (
                i as usize);
                assert(self.metrics@[ordv[k] as int].rank == k + 1);
            }
            assert forall|i: int| 0 <= i < n implies same_except_rank(
                #[trigger] self.metrics@[i],
                scored[i],
            ) by {
                assert(same_except_rank(self.metrics@[i], ms1[i]));
            }
        }
    }
}

impl DnsIntelligence {
    /// The failover controller. Acts only when enabled, out of cooldown, and
    /// the preferred resolver has reached the consecutive-failure threshold;
    /// it then moves to the best healthy resolver at another address, records
    /// the event, and restarts the cooldown. Anything short of that leaves the
    /// engine untouched.
    fn evaluate_failover(&mut self, now: u64)
        requires
            old(self).wf(),
        ensures
            final(self).wf(),
            final(self).spec_metrics() == old(self).spec_metrics(),
            final(self).spec_history() == old(self).spec_history(),
            final(self).spec_config() == old(self).spec_config(),
            final(self).spec_running() == old(self).spec_running(),
            final(self).spec_auto_failover() == old(self).spec_auto_failover(),
            ({
                let ms = old(self).spec_metrics();
                let cur = old(self).spec_current_best();
                let due = failover_due_on(
                    ms,
                    cur,
                    old(self).spec_auto_failover(),
                    old(self).spec_last_failover(),
                    now,
                    old(self).spec_config(),
                );
                let target = failover_target_on(ms, cur);
                if due && target is Some {
                    let c = cur->0;
                    let b = target->0;
                    &&& final(self).spec_current_best() == Some(b)
                    &&& final(self).spec_last_failover() == Some(now)
                    &&& final(self).spec_failover_history().len() == old(
                        self,
                    ).spec_failover_history().len() + 1
                    &&& final(self).spec_failover_history().take(
                        old(self).spec_failover_history().len() as int,
                    ) == old(self).spec_failover_history()
                    &&& {
                        let ev = final(self).spec_failover_history().last();
                        &&& ev.timestamp == now
                        &&& ev.from_dns == ms[c as int].address
                        &&& ev.to_dns == ms[b as int].address
                        &&& ev.reason@ == failure_reason(
                            ms[c as int].consecutive_failures as nat,
                        )
                        &&& ev.success
                    }
                } else {
                    &&& final(self).spec_current_best() == old(self).spec_current_best()
                    &&& final(self).spec_last_failover() == old(self).spec_last_failover()
                    &&& final(self).spec_failover_history() == old(self).spec_failover_history()
                }
            }),
    {
        if !self.auto_failover_enabled {
            return ;
        }
        match self.last_failover {
            Some(t) => {
                if !(now >= t && now - t >= self.config.failover_cooldown_secs) {
                    return ;
                }
            },
            None => {},
        }
        let c = match self.current_best_dns {
            Some(c) => c,
            None => {
                return ;
            },
        };
        if self.metrics[c].consecutive_failures < self.config.max_consecutive_failures {
            return ;
        }
        let n = self.metrics.len();
        let ghost avoid = self.metrics@[c as int].address@;
        let mut best: Option<usize> = None;
        for j in 0..n
            invariant
                *self == *old(self),
                self.metrics@.len() == n,
                c < n,
                avoid == self.metrics@[c as int].address@,
                best == best_alternative_prefix(self.metrics@, avoid, j as int),
                match best {
                    Some(b) => b < n,
                    None => true,
                },
        {
            if self.metrics[j].is_healthy && !(self.metrics[j].address == self.metrics[c].address) {
                match best {
                    None => {
                        best = Some(j);
                    },
                    Some(b) => {
                        if self.metrics[j].score > self.metrics[b].score {
                            best = Some(j);
                        }
                    },
                }
            }
        }
        if let Some(b) = best {
            proof {
                lemma_best_alternative_props(self.metrics@, avoid, n as int);
            }
            let from = self.metrics[c].address.clone();
            let to = self.metrics[b].address.clone();
            let failures = self.metrics[c].consecutive_failures;
            let reason = failure_reason_string(failures as u64);
            self.failover_history.push(
                FailoverEvent { timestamp: now, from_dns: from, to_dns: to, reason, success: true },
            );
            self.last_failover = Some(now);
            self.current_best_dns = Some(b);
            proof {
                assert(self.failover_history@.take(old(self).spec_failover_history().len() as int)
                    =~= old(self).spec_failover_history());
                assert forall|i: int| 0 <= i < self.failover_history@.len() implies {
                    let ev = #[trigger] self.failover_history@[i];
                    ev.from_dns@ != ev.to_dns@
                } by {
                    if i < self.failover_history@.len() - 1 {
                        assert(self.failover_history@[i] == old(self).failover_history@[i]);
                    }
                }
            }
        }
    }

    /// The unconditional best tracker: points the preferred resolver at the
    /// top-scoring healthy one, and leaves it alone when none is healthy.
    fn update_best_dns(&mut self)
        requires
            old(self).wf(),
        ensures
            final(self).wf(),
            final(self).spec_metrics() == old(self).spec_metrics(),
            final(self).spec_history() == old(self).spec_history(),
            final(self).spec_config() == old(self).spec_config(),
            final(self).spec_running() == old(self).spec_running(),
            final(self).spec_auto_failover() == old(self).spec_auto_failover(),
            final(self).spec_failover_history() == old(self).spec_failover_history(),
            final(self).spec_last_failover() == old(self).spec_last_failover(),
            final(self).spec_current_best() == match top_healthy(old(self).spec_metrics()) {
                Some(b) => Some(b),
                None => old(self).spec_current_best(),
            },
    {
        let n = self.metrics.len();
        let mut best: Option<usize> = None;
        for j in 0..n
            invariant
                *self == *old(self),
                self.metrics@.len() == n,
                best == top_healthy_prefix(self.metrics@, j as int),
                match best {
                    Some(b) => b < n,
                    None => true,
                },
        {
            if self.metrics[j].is_healthy {
                match best {
                    None => {
                        best = Some(j);
                    },
                    Some(b) => {
                        if self.metrics[j].score > self.metrics[b].score {
                            best = Some(j);
                        }
                    },
                }
            }
        }
        if let Some(b) = best {
            self.current_best_dns = Some(b);
        }
        proof {
            lemma_wf_same_core(*old(self), *self);
        }
    }
}

/// The per-resolver outcome of one tick's recording and scoring, as seen on
/// the engine's metrics afterwards.
pub open spec fn tick_outcome(
    ms0: Seq<DnsMetrics>,
    h0: Seq<HistoryEntry>,
    samples: Seq<ProbeSample>,
    now: u64,
    cfg: DnsIntelConfig,
    ms_after: Seq<DnsMetrics>,
    h_after: Seq<HistoryEntry>,
) -> bool {
    let cutoff = window_cutoff(now, cfg.history_retention_hours);
    let ms1 = recorded_metrics(ms0, samples, now);
    let h1 = h0 + probe_entries(ms0, samples, now);
    let h2 = pruned_history(h1, cutoff, cfg.max_history_entries as int);
    let scored = scored_metrics(ms1, h2, cutoff, cfg.threshold_good_ms, cfg.threshold_slow_ms);
    &&& h_after == h2
    &&& ms_after.len() == ms0.len()
    &&& forall|i: int| 0 <= i < ms0.len() ==> same_except_rank(#[trigger] ms_after[i], scored[i])
    &&& ranks_assigned(ms_after)
}

impl DnsIntelligence {
    /// One recording-and-scoring pass: records the samples, prunes the
    /// history, recomputes aggregates, scores and ranks.
    fn refresh(&mut self, samples: &Vec<ProbeSample>, now: u64)
        requires
            old(self).wf(),
            samples@.len() == old(self).spec_metrics().len(),
        ensures
            final(self).wf(),
            tick_outcome(
                old(self).spec_metrics(),
                old(self).spec_history(),
                samples@,
                now,
                old(self).spec_config(),
                final(self).spec_metrics(),
                final(self).spec_history(),
            ),
            final(self).spec_history().len() <= old(self).spec_config().max_history_entries,
            forall|i: int|
                0 <= i < final(self).spec_history().len() ==> in_window(
                    #[trigger] final(self).spec_history()[i],
                    window_cutoff(now, old(self).spec_config().history_retention_hours),
                ),
            forall|i: int|
                0 <= i < final(self).spec_metrics().len() ==> {
                    let m = #[trigger] final(self).spec_metrics()[i];
                    let m0 = old(self).spec_metrics()[i];
                    &&& m.score <= CENTI_FULL
                    &&& 1 <= m.rank <= final(self).spec_metrics().len()
                    &&& m.address == m0.address
                    &&& m.name == m0.name
                    &&& m.is_healthy == samples@[i].success
                    &&& m.ping_ms == samples@[i].ping_ms
                    &&& m.resolve_ms == samples@[i].resolve_ms
                    &&& m.last_check == now
                    &&& m.consecutive_failures == (if samples@[i].success {
                        0u32
                    } else if m0.consecutive_failures < u32::MAX {
                        (m0.consecutive_failures + 1) as u32
                    } else {
                        u32::MAX
                    })
                },
            final(self).spec_config() == old(self).spec_config(),
            final(self).spec_failover_history() == old(self).spec_failover_history(),
            final(self).spec_running() == old(self).spec_running(),
            final(self).spec_last_failover() == old(self).spec_last_failover(),
            final(self).spec_current_best() == old(self).spec_current_best(),
            final(self).spec_auto_failover() == old(self).spec_auto_failover(),
    {
        let ghost ms0 = old(self).spec_metrics();
        let ghost h0 = old(self).spec_history();
        let ghost s = samples@;
        let ghost cfg = old(self).spec_config();
        let pool_len = self.metrics.len();
        self.record_samples(samples, now);
        self.prune_history(now);
        self.recompute_scores(now);
        proof {
            assert(ms0.len() == pool_len);
            let cutoff = window_cutoff(now, cfg.history_retention_hours);
            let ms1 = recorded_metrics(ms0, s, now);
            let h1 = h0 + probe_entries(ms0, s, now);
            let h2 = pruned_history(h1, cutoff, cfg.max_history_entries as int);
            let scored = scored_metrics(ms1, h2, cutoff, cfg.threshold_good_ms, cfg.threshold_slow_ms);
            assert forall|i: int| 0 <= i < ms0.len() implies {
                let m = #[trigger] self.metrics@[i];
                let m0 = ms0[i];
                &&& same_except_rank(m, scored[i])
                &&& m.address == m0.address
                &&& m.name == m0.name
                &&& m.is_healthy == s[i].success
                &&& m.ping_ms == s[i].ping_ms
                &&& m.resolve_ms == s[i].resolve_ms
                &&& m.last_check == now
                &&& m.consecutive_failures == (if s[i].success {
                    0u32
                } else if m0.consecutive_failures < u32::MAX {
                    (m0.consecutive_failures + 1) as u32
                } else {
                    u32::MAX
                })
            } by {
                assert(ms1[i] == recorded_metric(ms0[i], s[i], now));
                assert(scored[i] == scored_metric(
                    ms1[i],
                    window_stats(h2, i, cutoff),
                    cfg.threshold_good_ms,
                    cfg.threshold_slow_ms,
                ));
                assert(same_except_rank(self.metrics@[i], scored[i]));
            }
            assert forall|k: int| 0 <= k < self.history@.len() implies {
                let e = #[trigger] self.history@[k];
                e.resolver < self.metrics@.len() && e.address == self.metrics@[
                    e.resolver as int].address
            } by {
                let e = self.history@[k];
                assert(h1.contains(e));
                let idx = choose|idx: int| 0 <= idx < h1.len() && h1[idx] == e;
                assert(h1.len() == h0.len() + ms0.len());
                if idx < h0.len() {
                    assert(e == h0[idx]);
                    assert(e.resolver < ms0.len());
                    assert(e.address == ms0[e.resolver as int].address);
                } else {
                    let j = idx - h0.len();
                    assert(0 <= j < ms0.len());
                    assert(e == probe_entries(ms0, s, now)[j]);
                    assert(e == probe_entry(ms0[j], j as usize, s[j], now));
                    assert(e.resolver == j as usize);
                    assert(e.address == ms0[j].address);
                }
                assert(e.resolver < ms0.len());
                assert(self.metrics@[e.resolver as int].address == ms0[e.resolver as int].address);
            }
            assert(self.wf());
        }
    }

    /// One full scheduled tick: probes were taken outside and handed in as
    /// `samples`, one per pool member; the engine records and prunes, rescores
    /// and re-ranks, lets the failover controller act, and finally points the
    /// preferred resolver at the top-scoring healthy one.
    ///
    /// Both best-tracking policies run every tick, deliberately: the
    /// hysteresis-gated controller is what records failover events and
    /// restarts the cooldown, while the unconditional tracker keeps the
    /// preferred address on the top-scoring healthy resolver whenever any
    /// resolver is healthy — so the cooldown's anti-flapping effect protects
    /// the preferred address itself only while the whole pool is down, and
    /// otherwise bounds how often failover events are recorded. The contract
    /// below spells out which policy decides the final preferred resolver.
    pub fn tick(&mut self, samples: &Vec<ProbeSample>, now: u64)
        requires
            old(self).wf(),
            samples@.len() == old(self).spec_metrics().len(),
        ensures
            final(self).wf(),
            tick_outcome(
                old(self).spec_metrics(),
                old(self).spec_history(),
                samples@,
                now,
                old(self).spec_config(),
                final(self).spec_metrics(),
                final(self).spec_history(),
            ),
            final(self).spec_history().len() <= old(self).spec_config().max_history_entries,
            forall|i: int|
                0 <= i < final(self).spec_history().len() ==> in_window(
                    #[trigger] final(self).spec_history()[i],
                    window_cutoff(now, old(self).spec_config().history_retention_hours),
                ),
            forall|i: int|
                0 <= i < final(self).spec_metrics().len() ==> {
                    let m = #[trigger] final(self).spec_metrics()[i];
                    let m0 = old(self).spec_metrics()[i];
                    &&& m.score <= CENTI_FULL
                    &&& 1 <= m.rank <= final(self).spec_metrics().len()
                    &&& m.address == m0.address
                    &&& m.name == m0.name
                    &&& m.is_healthy == samples@[i].success
                    &&& m.ping_ms == samples@[i].ping_ms
                    &&& m.resolve_ms == samples@[i].resolve_ms
                    &&& m.last_check == now
                    &&& m.consecutive_failures == (if samples@[i].success {
                        0u32
                    } else if m0.consecutive_failures < u32::MAX {
                        (m0.consecutive_failures + 1) as u32
                    } else {
                        u32::MAX
                    })
                },
            final(self).spec_config() == old(self).spec_config(),
            final(self).spec_running() == old(self).spec_running(),
            final(self).spec_auto_failover() == old(self).spec_auto_failover(),
            ({
                let ms = final(self).spec_metrics();
                let cur = old(self).spec_current_best();
                let due = failover_due_on(
                    ms,
                    cur,
                    old(self).spec_auto_failover(),
                    old(self).spec_last_failover(),
                    now,
                    old(self).spec_config(),
                );
                let target = failover_target_on(ms, cur);
                if due && target is Some {
                    let c = cur->0;
                    let b = target->0;
                    &&& final(self).spec_last_failover() == Some(now)
                    &&& final(self).spec_failover_history().len() == old(
                        self,
                    ).spec_failover_history().len() + 1
                    &&& final(self).spec_failover_history().take(
                        old(self).spec_failover_history().len() as int,
                    ) == old(self).spec_failover_history()
                    &&& {
                        let ev = final(self).spec_failover_history().last();
                        &&& ev.timestamp == now
                        &&& ev.from_dns == ms[c as int].address
                        &&& ev.to_dns == ms[b as int].address
                        &&& ev.reason@ == failure_reason(ms[c as int].consecutive_failures as nat)
                        &&& ev.success
                    }
                    &&& final(self).spec_current_best() == (match top_healthy(ms) {
                        Some(h) => Some(h),
                        None => Some(b),
                    })
                } else {
                    &&& final(self).spec_failover_history() == old(self).spec_failover_history()
                    &&& final(self).spec_last_failover() == old(self).spec_last_failover()
                    &&& final(self).spec_current_best() == (match top_healthy(ms) {
                        Some(h) => Some(h),
                        None => old(self).spec_current_best(),
                    })
                }
            }),
    {
        self.refresh(samples, now);
        self.evaluate_failover(now);
        self.update_best_dns();
    }

    /// One synchronous full cycle outside the scheduler's cadence, for an
    /// immediate refresh: the caller probes and hands in the samples, and the
    /// engine records and prunes, rescores, lets the failover controller act,
    /// and tracks the best — exactly what a scheduled tick does.
    pub fn force_check(&mut self, samples: &Vec<ProbeSample>, now: u64)
        requires
            old(self).wf(),
            samples@.len() == old(self).spec_metrics().len(),
        ensures
            final(self).wf(),
            tick_outcome(
                old(self).spec_metrics(),
                old(self).spec_history(),
                samples@,
                now,
                old(self).spec_config(),
                final(self).spec_metrics(),
                final(self).spec_history(),
            ),
            final(self).spec_history().len() <= old(self).spec_config().max_history_entries,
            forall|i: int|
                0 <= i < final(self).spec_metrics().len() ==> {
                    let m = #[trigger] final(self).spec_metrics()[i];
                    m.score <= CENTI_FULL && 1 <= m.rank <= final(self).spec_metrics().len()
                },
            final(self).spec_config() == old(self).spec_config(),
            final(self).spec_running() == old(self).spec_running(),
            final(self).spec_auto_failover() == old(self).spec_auto_failover(),
            ({
                let ms = final(self).spec_metrics();
                let cur = old(self).spec_current_best();
                let due = failover_due_on(
                    ms,
                    cur,
                    old(self).spec_auto_failover(),
                    old(self).spec_last_failover(),
                    now,
                    old(self).spec_config(),
                );
                let target = failover_target_on(ms, cur);
                if due && target is Some {
                    let c = cur->0;
                    let b = target->0;
                    &&& final(self).spec_last_failover() == Some(now)
                    &&& final(self).spec_failover_history().len() == old(
                        self,
                    ).spec_failover_history().len() + 1
                    &&& final(self).spec_failover_history().take(
                        old(self).spec_failover_history().len() as int,
                    ) == old(self).spec_failover_history()
                    &&& {
                        let ev = final(self).spec_failover_history().last();
                        &&& ev.timestamp == now
                        &&& ev.from_dns == ms[c as int].address
                        &&& ev.to_dns == ms[b as int].address
                        &&& ev.reason@ == failure_reason(ms[c as int].consecutive_failures as nat)
                        &&& ev.success
                    }
                    &&& final(self).spec_current_best() == (match top_healthy(ms) {
                        Some(h) => Some(h),
                        None => Some(b),
                    })
                } else {
                    &&& final(self).spec_failover_history() == old(self).spec_failover_history()
                    &&& final(self).spec_last_failover() == old(self).spec_last_failover()
                    &&& final(self).spec_current_best() == (match top_healthy(ms) {
                        Some(h) => Some(h),
                        None => old(self).spec_current_best(),
                    })
                }
            }),
    {
        self.tick(samples, now);
    }
}

/// Whether enough time has passed since the last failover.
pub open spec fn cooldown_over(last: Option<u64>, now: u64, cooldown: u64) -> bool {
    match last {
        None => true,
        Some(t) => now >= t && now - t >= cooldown,
    }
}

/// The healthy resolver with the highest score among positions `0..n` whose
/// address differs from `avoid`; ties go to the earliest position.
pub open spec fn best_alternative_prefix(ms: Seq<DnsMetrics>, avoid: Seq<char>, n: int) -> Option<
    usize,
>
    decreases n,
{
    if n <= 0 {
        None
    } else {
        let prev = best_alternative_prefix(ms, avoid, n - 1);
        let j = n - 1;
        if ms[j].is_healthy && ms[j].address@ != avoid {
            match prev {
                None => Some(j as usize),
                Some(b) => if ms[j].score > ms[b as int].score {
                    Some(j as usize)
                } else {
                    prev
                },
            }
        } else {
            prev
        }
    }
}

/// The failover candidate: the best healthy resolver at another address.
pub open spec fn best_alternative(ms: Seq<DnsMetrics>, avoid: Seq<char>) -> Option<usize> {
    best_alternative_prefix(ms, avoid, ms.len() as int)
}

proof fn lemma_best_alternative_props(ms: Seq<DnsMetrics>, avoid: Seq<char>, n: int)
    requires
        0 <= n <= ms.len(),
        ms.len() <= usize::MAX,
    ensures
        match best_alternative_prefix(ms, avoid, n) {
            None => forall|j: int|
                0 <= j < n ==> !((#[trigger] ms[j]).is_healthy && ms[j].address@ != avoid),
            Some(b) => {
                &&& b < n
                &&& ms[b as int].is_healthy
                &&& ms[b as int].address@ != avoid
                &&& forall|j: int|
                    0 <= j < n && (#[trigger] ms[j]).is_healthy && ms[j].address@ != avoid
                        ==> ms[j].score <= ms[b as int].score
            },
        },
    decreases n,
{
    if n > 0 {
        lemma_best_alternative_props(ms, avoid, n - 1);
        let prev = best_alternative_prefix(ms, avoid, n - 1);
        let cur = best_alternative_prefix(ms, avoid, n);
        let last = n - 1;
        match cur {
            None => {
            },
            Some(b) => {
                assert forall|j: int|
                    0 <= j < n && (#[trigger] ms[j]).is_healthy && ms[j].address@ != avoid implies ms[j].score
                    <= ms[b as int].score by {
                    if j < n - 1 {
                        match prev {
                            None => {},
                            Some(p) => {
                                assert(ms[j].score <= ms[p as int].score);
                            },
                        }
                    }
                }
            },
        }
    }
}

/// The healthy resolver with the highest score among positions `0..n`;
/// ties go to the earliest position.
pub open spec fn top_healthy_prefix(ms: Seq<DnsMetrics>, n: int) -> Option<usize>
    decreases n,
{
    if n <= 0 {
        None
    } else {
        let prev = top_healthy_prefix(ms, n - 1);
        let j = n - 1;
        if ms[j].is_healthy {
            match prev {
                None => Some(j as usize),
                Some(b) => if ms[j].score > ms[b as int].score {
                    Some(j as usize)
                } else {
                    prev
                },
            }
        } else {
            prev
        }
    }
}

/// The top-scoring healthy resolver, used by the unconditional best tracker.
pub open spec fn top_healthy(ms: Seq<DnsMetrics>) -> Option<usize> {
    top_healthy_prefix(ms, ms.len() as int)
}

/// The top-scoring healthy resolver is a healthy resolver that no other
/// healthy resolver outscores; with none healthy, there is none.
pub proof fn lemma_top_healthy_props(ms: Seq<DnsMetrics>, n: int)
    requires
        0 <= n <= ms.len(),
        ms.len() <= usize::MAX,
    ensures
        match top_healthy_prefix(ms, n) {
            None => forall|j: int| 0 <= j < n ==> !(#[trigger] ms[j]).is_healthy,
            Some(b) => {
                &&& b < n
                &&& ms[b as int].is_healthy
                &&& forall|j: int|
                    0 <= j < n && (#[trigger] ms[j]).is_healthy ==> ms[j].score <= ms[b as int].score
            },
        },
    decreases n,
{
    if n > 0 {
        lemma_top_healthy_props(ms, n - 1);
        let prev = top_healthy_prefix(ms, n - 1);
        let cur = top_healthy_prefix(ms, n);
        let last = n - 1;
        assert(cur == if ms[last].is_healthy {
            match prev {
                None => Some(last as usize),
                Some(p) => if ms[last].score > ms[p as int].score {
                    Some(last as usize)
                } else {
                    prev
                },
            }
        } else {
            prev
        });
        match cur {
            None => {
            },
            Some(b) => {
                assert forall|j: int|
                    0 <= j < n && (#[trigger] ms[j]).is_healthy implies ms[j].score <= ms[
                    b as int].score by {
                    if j < n - 1 {
                        match prev {
                            None => {
                                assert(!ms[j].is_healthy);
                            },
                            Some(p) => {
                                assert(ms[j].score <= ms[p as int].score);
                                if b != p {
                                    assert(b == last as usize);
                                    assert(ms[last].score > ms[p as int].score);
                                }
                            },
                        }
                    } else {
                        assert(j == n - 1);
                        match prev {
                            None => {
                                assert(b == last as usize);
                            },
                            Some(p) => {
                                if b != p {
                                    assert(b == last as usize);
                                } else {
                                    assert(!(ms[last].score > ms[p as int].score));
                                }
                            },
                        }
                    }
                }
            },
        }
    }
}

/// The failover trigger condition, over the pieces it reads: the controller
/// is enabled, the cooldown has elapsed, and the preferred resolver has
/// reached the consecutive-failure threshold.
pub open spec fn failover_due_on(
    ms: Seq<DnsMetrics>,
    cur: Option<usize>,
    auto: bool,
    last: Option<u64>,
    now: u64,
    cfg: DnsIntelConfig,
) -> bool {
    &&& auto
    &&& cooldown_over(last, now, cfg.failover_cooldown_secs)
    &&& match cur {
        Some(c) => ms[c as int].consecutive_failures >= cfg.max_consecutive_failures,
        None => false,
    }
}

/// Where a due failover would move: the best healthy resolver at an address
/// other than the preferred one's.
pub open spec fn failover_target_on(ms: Seq<DnsMetrics>, cur: Option<usize>) -> Option<usize> {
    match cur {
        Some(c) => best_alternative(ms, ms[c as int].address@),
        None => None,
    }
}

/// A resolver's record right after a probe: current fields refreshed, the
/// consecutive-failure counter reset on success and advanced on failure
/// (saturating), window aggregates untouched.
pub open spec fn recorded_metric(m: DnsMetrics, s: ProbeSample, now: u64) -> DnsMetrics {
    DnsMetrics {
        ping_ms: s.ping_ms,
        resolve_ms: s.resolve_ms,
        last_check: now,
        is_healthy: s.success,
        consecutive_failures: if s.success {
            0u32
        } else if m.consecutive_failures < u32::MAX {
            (m.consecutive_failures + 1) as u32
        } else {
            m.consecutive_failures
        },
        ..m
    }
}

/// All records right after one tick's probes.
pub open spec fn recorded_metrics(ms: Seq<DnsMetrics>, samples: Seq<ProbeSample>, now: u64) -> Seq<
    DnsMetrics,
> {
    Seq::new(ms.len(), |i: int| recorded_metric(ms[i], samples[i], now))
}

/// The history entry written for resolver `i`'s probe.
pub open spec fn probe_entry(m: DnsMetrics, i: usize, s: ProbeSample, now: u64) -> HistoryEntry {
    HistoryEntry {
        timestamp: now,
        resolver: i,
        address: m.address,
        ping_ms: s.ping_ms,
        resolve_ms: s.resolve_ms,
        resolve_measured: s.resolve_measured,
        success: s.success,
    }
}

/// The history entries appended for one tick, in pool order.
pub open spec fn probe_entries(ms: Seq<DnsMetrics>, samples: Seq<ProbeSample>, now: u64) -> Seq<
    HistoryEntry,
> {
    Seq::new(ms.len(), |i: int| probe_entry(ms[i], i as usize, samples[i], now))
}

/// The oldest timestamp still inside the retention window: `now` minus the
/// window, floored at zero.
pub open spec fn window_cutoff(now: u64, retention_hours: u64) -> u64 {
    let w = retention_hours * 3600;
    if now > w {
        (now - w) as u64
    } else {
        0
    }
}

/// Computes the retention cutoff for a tick at `now`.
pub fn window_cutoff_exec(now: u64, retention_hours: u64) -> (r: u64)
    ensures
        r == window_cutoff(now, retention_hours),
{
    let w = retention_hours as u128 * 3600;
    if (now as u128) > w {
        (now as u128 - w) as u64
    } else {
        0
    }
}

/// Whether a sample is young enough to stay.
pub open spec fn in_window(e: HistoryEntry, cutoff: u64) -> bool {
    e.timestamp > cutoff
}

/// The samples of `h` that are still inside the window, in order.
pub open spec fn window_filtered(h: Seq<HistoryEntry>, cutoff: u64) -> Seq<HistoryEntry> {
    h.filter(|e: HistoryEntry| in_window(e, cutoff))
}

/// What pruning leaves: the in-window samples, then, if still over the cap,
/// with the oldest surplus dropped from the front.
pub open spec fn pruned_history(h: Seq<HistoryEntry>, cutoff: u64, max: int) -> Seq<HistoryEntry> {
    let kept = window_filtered(h, cutoff);
    if kept.len() > max {
        kept.skip(kept.len() - max)
    } else {
        kept
    }
}

proof fn lemma_window_filtered_push(s: Seq<HistoryEntry>, x: HistoryEntry, cutoff: u64)
    ensures
        window_filtered(s.push(x), cutoff) == window_filtered(s, cutoff) + (if in_window(
            x,
            cutoff,
        ) {
            seq![x]
        } else {
            Seq::<HistoryEntry>::empty()
        }),
{
    reveal(Seq::filter);
    let p = s.push(x);
    assert(p.drop_last() =~= s);
    assert(p.last() == x);
    if in_window(x, cutoff) {
        assert(window_filtered(p, cutoff) =~= window_filtered(s, cutoff) + seq![x]);
    } else {
        assert(window_filtered(p, cutoff) =~= window_filtered(s, cutoff)
            + Seq::<HistoryEntry>::empty());
    }
}

proof fn lemma_window_filtered_props(h: Seq<HistoryEntry>, cutoff: u64)
    ensures
        window_filtered(h, cutoff).len() <= h.len(),
        forall|i: int|
            0 <= i < window_filtered(h, cutoff).len() ==> in_window(
                #[trigger] window_filtered(h, cutoff)[i],
                cutoff,
            ) && h.contains(window_filtered(h, cutoff)[i]),
    decreases h.len(),
{
    if h.len() == 0 {
        reveal(Seq::filter);
        assert(window_filtered(h, cutoff) =~= Seq::<HistoryEntry>::empty());
    } else {
        let s = h.drop_last();
        let x = h.last();
        lemma_window_filtered_props(s, cutoff);
        lemma_window_filtered_push(s, x, cutoff);
        assert(s.push(x) =~= h);
        let fs = window_filtered(s, cutoff);
        let fh = window_filtered(h, cutoff);
        assert forall|i: int|
            0 <= i < fh.len() implies in_window(#[trigger] fh[i], cutoff) && h.contains(fh[i]) by {
            if i < fs.len() {
                assert(fh[i] == fs[i]);
                let j = choose|j: int| 0 <= j < s.len() && s[j] == fs[i];
                assert(h[j] == fs[i]);
            } else {
                assert(fh[i] == x);
                assert(h[h.len() - 1] == x);
            }
        }
    }
}

/// The sort keys for listing metrics: the rank, ascending, with ties broken
/// by pool position (ranks are all zero until the first scoring pass).
pub open spec fn rank_keys(ms: Seq<DnsMetrics>) -> Seq<u64> {
    Seq::new(ms.len(), |i: int| ms[i].rank as u64)
}

/// The metrics listed by ascending rank.
pub open spec fn rank_sorted(ms: Seq<DnsMetrics>) -> Seq<DnsMetrics> {
    let ord = key_order(rank_keys(ms));
    Seq::new(ord.len(), |k: int| ms[ord[k] as int])
}

/// What [`DnsIntelligence::get_summary`] reports.
#[derive(Debug)]
pub struct DnsIntelSummary {
    /// The top resolvers by rank, at most three.
    pub best_dns: Vec<DnsMetrics>,
    /// How many resolvers the pool holds.
    pub total_dns_monitored: usize,
    /// How many history samples are retained right now.
    pub history_entries: usize,
    /// Whether the failover controller is allowed to act.
    pub auto_failover_enabled: bool,
    /// Address of the currently preferred resolver, if any.
    pub current_best: Option<String>,
}

impl DnsIntelligence {
    /// All resolvers' metrics, sorted by rank.
    pub fn get_all_metrics(&self) -> (r: Vec<DnsMetrics>)
        ensures
            r@ == rank_sorted(self.spec_metrics()),
    {
        let n = self.metrics.len();
        let mut keys: Vec<u64> = Vec::new();
        for i in 0..n
            invariant
                n == self.metrics@.len(),
                keys@.len() == i,
                forall|j: int| 0 <= j < i ==> keys@[j] == rank_keys(self.metrics@)[j],
        {
            keys.push(self.metrics[i].rank as u64);
        }
        proof {
            assert(keys@ =~= rank_keys(self.metrics@));
            lemma_key_order(keys@);
        }
        let ord = compute_key_order(&keys);
        let mut r: Vec<DnsMetrics> = Vec::new();
        for k in 0..n
            invariant
                n == self.metrics@.len(),
                keys@ == rank_keys(self.metrics@),
                ord@ == key_order(keys@),
                ord@.len() == n,
                positions_in_bounds(keys@, ord@),
                r@.len() == k,
                forall|j: int| 0 <= j < k ==> r@[j] == self.metrics@[ord@[j] as int],
        {
            let idx = ord[k];
            assert(idx < n);
            r.push(self.metrics[idx].clone());
        }
        proof {
            assert(r@ =~= rank_sorted(self.metrics@));
        }
        r
    }

    /// The `count` best resolvers by rank; with `count` beyond the pool size,
    /// all of them. The result is a prefix of [`Self::get_all_metrics`].
    pub fn get_best_dns(&self, count: usize) -> (r: Vec<DnsMetrics>)
        ensures
            r@ == rank_sorted(self.spec_metrics()).take(
                if count <= self.spec_metrics().len() {
                    count as int
                } else {
                    self.spec_metrics().len() as int
                },
            ),
    {
        let pool_len = self.metrics.len();
        let mut r = self.get_all_metrics();
        r.truncate(count);
        proof {
            let all = rank_sorted(self.spec_metrics());
            assert(rank_keys(self.spec_metrics()).len() == pool_len);
            lemma_key_order(rank_keys(self.spec_metrics()));
            if count <= all.len() {
                assert(r@ =~= all.take(count as int));
            } else {
                assert(r@ =~= all.take(all.len() as int));
            }
        }
        r
    }

    /// A snapshot of the engine: the best three resolvers, the pool and
    /// history sizes, the failover switch and the preferred address.
    pub fn get_summary(&self) -> (r: DnsIntelSummary)
        requires
            self.wf(),
        ensures
            r.best_dns@ == rank_sorted(self.spec_metrics()).take(
                if 3 <= self.spec_metrics().len() {
                    3
                } else {
                    self.spec_metrics().len() as int
                },
            ),
            r.total_dns_monitored == self.spec_metrics().len(),
            r.history_entries == self.spec_history().len(),
            r.auto_failover_enabled == self.spec_auto_failover(),
            match self.spec_current_best() {
                Some(c) => r.current_best == Some(self.spec_metrics()[c as int].address),
                None => r.current_best is None,
            },
    {
        DnsIntelSummary {
            best_dns: self.get_best_dns(3),
            total_dns_monitored: self.metrics.len(),
            history_entries: self.history.len(),
            auto_failover_enabled: self.is_auto_failover_enabled(),
            current_best: self.get_current_best(),
        }
    }
}

/// Some resolver carries rank `r`.
pub open spec fn rank_present(ms: Seq<DnsMetrics>, r: int) -> bool {
    exists|i: int| 0 <= i < ms.len() && (#[trigger] ms[i]).rank == r
}

/// Ranks published after a scoring pass are a dense permutation of
/// `1..=N`, ordered by non-increasing score: every resolver carries a rank in
/// that range, no two resolvers share one, every rank in the range is
/// carried by some resolver, and a better rank never means a lower score.
pub proof fn lemma_ranks_dense(ms: Seq<DnsMetrics>)
    requires
        ms.len() <= usize::MAX,
        forall|i: int| 0 <= i < ms.len() ==> (#[trigger] ms[i]).score <= CENTI_FULL,
        ranks_assigned(ms),
    ensures
        forall|i: int| 0 <= i < ms.len() ==> 1 <= (#[trigger] ms[i]).rank <= ms.len(),
        forall|i: int, j: int|
            0 <= i < ms.len() && 0 <= j < ms.len() && i != j ==> ms[i].rank != ms[j].rank,
        forall|r: int| 1 <= r <= ms.len() ==> #[trigger] rank_present(ms, r),
        forall|i: int, j: int|
            0 <= i < ms.len() && 0 <= j < ms.len() && ms[i].rank <= ms[j].rank ==> ms[i].score
                >= ms[j].score,
{
    let keys = score_keys(ms);
    lemma_key_order(keys);
    let ord = key_order(keys);
    assert forall|i: int| 0 <= i < ms.len() implies 1 <= (#[trigger] ms[i]).rank <= ms.len() by {
        assert(ord.contains(i as usize));
        let k = choose|k: int| 0 <= k < ord.len() && ord[k] == i as usize;
        assert(ms[ord[k] as int].rank == k + 1);
    }
    assert forall|i: int, j: int|
        0 <= i < ms.len() && 0 <= j < ms.len() && i != j implies ms[i].rank != ms[j].rank by {
        assert(ord.contains(i as usize));
        assert(ord.contains(j as usize));
        let ki = choose|k: int| 0 <= k < ord.len() && ord[k] == i as usize;
        let kj = choose|k: int| 0 <= k < ord.len() && ord[k] == j as usize;
        assert(ms[ord[ki] as int].rank == ki + 1);
        assert(ms[ord[kj] as int].rank == kj + 1);
        assert(ki != kj);
    }
    assert forall|r: int| 1 <= r <= ms.len() implies #[trigger] rank_present(ms, r) by {
        assert(ms[ord[r - 1] as int].rank == r);
        assert(0 <= ord[r - 1] < ms.len() && ms[ord[r - 1] as int].rank == r);
    }
    assert forall|i: int, j: int|
        0 <= i < ms.len() && 0 <= j < ms.len() && ms[i].rank <= ms[j].rank implies ms[i].score
        >= ms[j].score by {
        assert(ord.contains(i as usize));
        assert(ord.contains(j as usize));
        let ki = choose|k: int| 0 <= k < ord.len() && ord[k] == i as usize;
        let kj = choose|k: int| 0 <= k < ord.len() && ord[k] == j as usize;
        assert(ms[ord[ki] as int].rank == ki + 1);
        assert(ms[ord[kj] as int].rank == kj + 1);
        if ki < kj {
            assert(pos_before(keys, i, j));
            assert(keys[i] == CENTI_FULL - ms[i].score);
            assert(keys[j] == CENTI_FULL - ms[j].score);
        } else if kj < ki {
            assert(pos_before(keys, j, i));
        }
    }
}

proof fn lemma_rank_pos_gap(ms: Seq<DnsMetrics>, k: int, q: int)
    requires
        ms.len() <= usize::MAX,
        forall|i: int| 0 <= i < ms.len() ==> (#[trigger] ms[i]).score <= CENTI_FULL,
        ranks_assigned(ms),
        0 <= k <= q < ms.len(),
    ensures
        ms[key_order(rank_keys(ms))[q] as int].rank >= ms[key_order(rank_keys(ms))[k] as int].rank
            + (q - k),
    decreases q - k,
{
    let keys = rank_keys(ms);
    lemma_key_order(keys);
    let ord = key_order(keys);
    if q > k {
        lemma_rank_pos_gap(ms, k, q - 1);
        lemma_ranks_dense(ms);
        assert(pos_before(keys, ord[q - 1] as int, ord[q] as int));
        assert(ord[q - 1] != ord[q]);
        assert(ms[ord[q - 1] as int].rank != ms[ord[q] as int].rank);
        assert(keys[ord[q - 1] as int] == ms[ord[q - 1] as int].rank as u64);
        assert(keys[ord[q] as int] == ms[ord[q] as int].rank as u64);
        assert(ms[ord[q - 1] as int].rank < ms[ord[q] as int].rank);
    }
}

/// The listing served by the metrics queries is exactly the pool in rank
/// order: after a scoring pass, its `k`th element carries rank `k + 1`, its
/// scores never increase along it, and it lists every resolver's record.
pub proof fn lemma_rank_sorted_by_score(ms: Seq<DnsMetrics>)
    requires
        ms.len() <= usize::MAX,
        forall|i: int| 0 <= i < ms.len() ==> (#[trigger] ms[i]).score <= CENTI_FULL,
        ranks_assigned(ms),
    ensures
        rank_sorted(ms).len() == ms.len(),
        forall|k: int| 0 <= k < ms.len() ==> (#[trigger] rank_sorted(ms)[k]).rank == k + 1,
        forall|p: int, q: int|
            0 <= p < q < ms.len() ==> rank_sorted(ms)[p].score >= rank_sorted(ms)[q].score,
        forall|i: int|
            0 <= i < ms.len() ==> rank_sorted(ms).contains(#[trigger] ms[i]),
{
    let keys = rank_keys(ms);
    lemma_key_order(keys);
    let ord = key_order(keys);
    lemma_ranks_dense(ms);
    assert forall|k: int| 0 <= k < ms.len() implies (#[trigger] rank_sorted(ms)[k]).rank == k
        + 1 by {
        lemma_rank_pos_gap(ms, 0, k);
        lemma_rank_pos_gap(ms, k, ms.len() - 1);
        assert(ms[ord[0] as int].rank >= 1);
        assert(ms[ord[ms.len() - 1] as int].rank <= ms.len());
        assert(rank_sorted(ms)[k] == ms[ord[k] as int]);
    }
    assert forall|p: int, q: int|
        0 <= p < q < ms.len() implies rank_sorted(ms)[p].score >= rank_sorted(ms)[q].score by {
        assert(rank_sorted(ms)[p] == ms[ord[p] as int]);
        assert(rank_sorted(ms)[q] == ms[ord[q] as int]);
        assert(rank_sorted(ms)[p].rank == p + 1);
        assert(rank_sorted(ms)[q].rank == q + 1);
        assert(0 <= ord[p] < ms.len() && 0 <= ord[q] < ms.len());
    }
    assert forall|i: int| 0 <= i < ms.len() implies rank_sorted(ms).contains(#[trigger] ms[i]) by {
        assert(ord.contains(i as usize));
        let k = choose|k: int| 0 <= k < ord.len() && ord[k] == i as usize;
        assert(rank_sorted(ms)[k] == ms[i]);
    }
}

/// Starts the engine's background processing; the caller runs the loop while
/// this returns true and [`DnsIntelligence::stop`] has not been called.
pub fn start_dns_intelligence(intel: &mut DnsIntelligence) -> (started: bool)
    ensures
        final(intel).spec_running(),
        started == !old(intel).spec_running(),
        unchanged_but_running(*old(intel), *final(intel)),
        old(intel).wf() ==> final(intel).wf(),
{
    intel.start()
}

/// Asks the engine's background processing to stop after the current tick.
pub fn stop_dns_intelligence(intel: &mut DnsIntelligence)
    ensures
        !final(intel).spec_running(),
        unchanged_but_running(*old(intel), *final(intel)),
        old(intel).wf() ==> final(intel).wf(),
{
    intel.stop()
}

} // verus!
