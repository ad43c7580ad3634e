//! The scoring formulas, the failure counter and the history window.

use netboozt::probe::resolution_succeeded;
use netboozt::score::{compute_ping_score, compute_resolve_score, compute_score};
use netboozt::{plan_probe, probe_sample, test_domains};
use netboozt::{DnsIntelConfig, DnsIntelligence, ProbeSample};

fn sample_ok(ping_ms: u64, resolve_ms: u64) -> ProbeSample {
    ProbeSample { success: true, ping_ms, resolve_ms, resolve_measured: true }
}

fn sample_fail() -> ProbeSample {
    ProbeSample { success: false, ping_ms: 0, resolve_ms: 0, resolve_measured: false }
}

fn one_pool() -> Vec<(String, String)> {
    vec![("10.0.0.1".to_string(), "A".to_string())]
}

#[test]
fn ping_score_is_piecewise_linear() {
    // at or under the good threshold: a full 100.00
    assert_eq!(compute_ping_score(1, 30, 80), 10000);
    assert_eq!(compute_ping_score(30, 30, 80), 10000);
    // between the thresholds: linear from 100.00 down to 60.00
    assert_eq!(compute_ping_score(55, 30, 80), 10000 - (55 - 30) * 4000 / 50);
    assert_eq!(compute_ping_score(80, 30, 80), 6000);
    // beyond the slow threshold: linear from 60.00 toward 0, ratio capped
    assert_eq!(compute_ping_score(120, 30, 80), 6000 - 40 * 6000 / 80);
    assert_eq!(compute_ping_score(160, 30, 80), 0);
    assert_eq!(compute_ping_score(100_000, 30, 80), 0);
}

#[test]
fn resolve_score_decays_to_zero_at_three_times_slow() {
    assert_eq!(compute_resolve_score(0, 80), 10000);
    assert_eq!(compute_resolve_score(30, 80), (240 - 30) * 10000 / 240);
    assert_eq!(compute_resolve_score(240, 80), 0);
    assert_eq!(compute_resolve_score(10_000, 80), 0);
}

#[test]
fn composite_score_blends_the_components() {
    // 45% ping, 25% resolve, 30% uptime
    assert_eq!(compute_score(20, 30, 10000, 30, 80), 9687);
    // a resolver that never succeeded scores zero
    assert_eq!(compute_score(0, 0, 10000, 30, 80), 0);
    // perfect everything scores exactly 100.00
    assert_eq!(compute_score(1, 0, 10000, 30, 80), 10000);
}

#[test]
fn scores_stay_in_range_for_extreme_inputs() {
    for &(ping, resolve, uptime) in
        &[(0u64, 0u64, 0u64), (1, 1, 1), (u64::MAX, u64::MAX, 10000), (81, 241, 5000)] {
        let s = compute_score(ping, resolve, uptime, 30, 80);
        assert!(s <= 10000);
    }
}

#[test]
fn successful_probe_resets_consecutive_failures() {
    let mut intel = DnsIntelligence::with_pool(one_pool(), DnsIntelConfig::default());
    intel.tick(&vec![sample_fail()], 100);
    assert_eq!(intel.get_all_metrics()[0].consecutive_failures, 1);
    intel.tick(&vec![sample_fail()], 130);
    assert_eq!(intel.get_all_metrics()[0].consecutive_failures, 2);
    intel.tick(&vec![sample_ok(20, 30)], 160);
    let m = &intel.get_all_metrics()[0];
    assert_eq!(m.consecutive_failures, 0);
    assert!(m.is_healthy);
    assert_eq!(m.last_check, 160);
    assert_eq!(m.ping_ms, 20);
    assert_eq!(m.resolve_ms, 30);
}

#[test]
fn uptime_counts_failures_in_the_window() {
    let mut intel = DnsIntelligence::with_pool(one_pool(), DnsIntelConfig::default());
    intel.tick(&vec![sample_ok(20, 30)], 100);
    intel.tick(&vec![sample_fail()], 130);
    intel.tick(&vec![sample_ok(40, 60)], 160);
    let m = &intel.get_all_metrics()[0];
    assert_eq!(m.checks_24h, 3);
    assert_eq!(m.failures_24h, 1);
    assert_eq!(m.uptime_24h, 2 * 10000 / 3);
    assert_eq!(m.success_rate, m.uptime_24h);
    // means are taken over the successful samples only
    assert_eq!(m.avg_ping_24h, 30);
    assert_eq!(m.avg_resolve_24h, 45);
}

#[test]
fn history_is_capped_at_the_configured_maximum() {
    let config = DnsIntelConfig { max_history_entries: 3, ..DnsIntelConfig::default() };
    let mut intel = DnsIntelligence::with_pool(one_pool(), config);
    for k in 0..5u64 {
        intel.tick(&vec![sample_ok(20, 30)], 100 + 30 * k);
    }
    assert_eq!(intel.get_summary().history_entries, 3);
}

#[test]
fn history_outside_the_retention_window_is_dropped() {
    let mut intel = DnsIntelligence::with_pool(one_pool(), DnsIntelConfig::default());
    intel.tick(&vec![sample_ok(20, 30)], 1_000);
    intel.tick(&vec![sample_ok(20, 30)], 2_000);
    assert_eq!(intel.get_summary().history_entries, 2);
    // a tick far in the future prunes everything older than 24 h
    let later = 2_000 + 24 * 3600 + 1;
    intel.tick(&vec![sample_fail()], later);
    assert_eq!(intel.get_summary().history_entries, 1);
    // only the failed sample is left in the window: uptime collapses, and
    // the score keeps just the latency components over the stale means
    let m = &intel.get_all_metrics()[0];
    assert_eq!(m.uptime_24h, 0);
    assert_eq!(m.avg_ping_24h, 20);
    assert_eq!(m.score, (45 * 10000 + 25 * 8750) / 100);
}

#[test]
fn resolver_without_window_samples_scores_zero() {
    // zero retention makes even the fresh sample fall outside the window
    let config = DnsIntelConfig { history_retention_hours: 0, ..DnsIntelConfig::default() };
    let mut intel = DnsIntelligence::with_pool(one_pool(), config);
    intel.tick(&vec![sample_ok(20, 30)], 5_000);
    let m = &intel.get_all_metrics()[0];
    assert_eq!(m.score, 0);
    assert_eq!(intel.get_summary().history_entries, 0);
}

#[test]
fn probe_sample_rules() {
    // a failed connection is the only unsuccessful outcome, with zero latencies
    let failed = probe_sample(None, None);
    assert!(!failed.success);
    assert_eq!(failed.ping_ms, 0);
    assert_eq!(failed.resolve_ms, 0);
    assert!(!failed.resolve_measured);
    // a skipped or failed resolution check estimates one and a half pings,
    // and the sample says so: an estimate never passes for a measurement
    let estimated = probe_sample(Some(20), None);
    assert!(estimated.success);
    assert_eq!(estimated.ping_ms, 20);
    assert_eq!(estimated.resolve_ms, 30);
    assert!(!estimated.resolve_measured);
    // a measured resolution is taken as is, and tagged as measured
    let measured = probe_sample(Some(20), Some(44));
    assert_eq!(measured.resolve_ms, 44);
    assert!(measured.resolve_measured);
    // sub-millisecond pings are floored at one
    let floored = probe_sample(Some(0), None);
    assert!(floored.success);
    assert_eq!(floored.ping_ms, 1);
    assert_eq!(floored.resolve_ms, 1);
    assert!(!floored.resolve_measured);
}

#[test]
fn resolution_report_interpretation() {
    let good = "Server: local\nAddress: 127.0.0.53\n\nName: example.com\nAddress: 93.184.216.34\n";
    assert!(resolution_succeeded(good));
    let nxdomain = "Server: local\nAddress: 127.0.0.53\n\n** server can't find example.invalid\n";
    assert!(!resolution_succeeded(nxdomain));
    assert!(!resolution_succeeded("connection timed out; no servers could be reached"));
}

#[test]
fn probe_plans_rotate_domains_and_resolution_checks() {
    let domains = test_domains();
    assert_eq!(domains.len(), 4);
    assert_eq!(domains[0], "google.com");
    assert_eq!(domains[3], "amazon.com");
    let p = plan_probe(10, domains.len());
    assert_eq!(p.domain_index, 2);
    assert!(p.check_resolution);
    let q = plan_probe(11, domains.len());
    assert_eq!(q.domain_index, 3);
    assert!(!q.check_resolution);
}
