//! End-to-end scenarios of the resolver health engine.

use netboozt::{DnsIntelConfig, DnsIntelligence, ProbeSample};

fn sample_ok(ping_ms: u64, resolve_ms: u64) -> ProbeSample {
    ProbeSample { success: true, ping_ms, resolve_ms, resolve_measured: true }
}

fn sample_fail() -> ProbeSample {
    ProbeSample { success: false, ping_ms: 0, resolve_ms: 0, resolve_measured: false }
}

fn pool(entries: &[(&str, &str)]) -> Vec<(String, String)> {
    entries.iter().map(|(a, n)| (a.to_string(), n.to_string())).collect()
}

#[test]
fn single_fast_resolver_tops_the_pool() {
    // One resolver at 20 ms that always succeeds: full ping score, rank 1,
    // and it becomes the preferred resolver after one tick.
    let mut intel = DnsIntelligence::with_pool(pool(&[("10.0.0.1", "A")]), DnsIntelConfig::default());
    intel.tick(&vec![sample_ok(20, 30)], 1_000);
    let all = intel.get_all_metrics();
    assert_eq!(all.len(), 1);
    let a = &all[0];
    assert_eq!(a.avg_ping_24h, 20);
    assert_eq!(a.avg_resolve_24h, 30);
    assert_eq!(a.uptime_24h, 10000);
    // ping component is at its maximum (20 ms is under the 30 ms threshold);
    // the blend with the resolution component gives 96.87.
    assert_eq!(netboozt::score::compute_ping_score(20, 30, 80), 10000);
    assert_eq!(a.score, 9687);
    assert_eq!(a.rank, 1);
    assert!(a.is_healthy);
    assert_eq!(a.consecutive_failures, 0);
    assert_eq!(intel.get_current_best(), Some("10.0.0.1".to_string()));
}

#[test]
fn faster_resolver_outranks_slower_one() {
    // A at 20 ms and B at 150 ms, both at full uptime: A scores higher and
    // takes rank 1, B rank 2.
    let mut intel = DnsIntelligence::with_pool(
        pool(&[("10.0.0.1", "A"), ("10.0.0.2", "B")]),
        DnsIntelConfig::default(),
    );
    intel.tick(&vec![sample_ok(20, 30), sample_ok(150, 225)], 1_000);
    let all = intel.get_all_metrics();
    assert_eq!(all.len(), 2);
    assert_eq!(all[0].address, "10.0.0.1");
    assert_eq!(all[0].score, 9687);
    assert_eq!(all[0].rank, 1);
    assert_eq!(all[1].address, "10.0.0.2");
    assert_eq!(all[1].score, 3493);
    assert_eq!(all[1].rank, 2);
    assert!(all[0].score > all[1].score);
}

#[test]
fn two_consecutive_failures_trigger_failover() {
    // C is preferred; it fails two ticks in a row. On the second failure,
    // with B healthy and the cooldown long over, the controller records a
    // failover C -> B and B becomes preferred.
    let mut intel = DnsIntelligence::with_pool(
        pool(&[("10.0.0.2", "B"), ("10.0.0.3", "C")]),
        DnsIntelConfig::default(),
    );
    // tick 1: both healthy, C is faster and becomes preferred
    intel.tick(&vec![sample_ok(20, 30), sample_ok(10, 15)], 100);
    assert_eq!(intel.get_current_best(), Some("10.0.0.3".to_string()));
    // tick 2: everything fails; the preferred resolver stays put
    intel.tick(&vec![sample_fail(), sample_fail()], 130);
    assert_eq!(intel.get_current_best(), Some("10.0.0.3".to_string()));
    assert!(intel.get_failover_history().is_empty());
    // tick 3: C fails again (its second consecutive failure), B recovers
    intel.tick(&vec![sample_ok(20, 30), sample_fail()], 160);
    let events = intel.get_failover_history();
    assert_eq!(events.len(), 1);
    assert_eq!(events[0].from_dns, "10.0.0.3");
    assert_eq!(events[0].to_dns, "10.0.0.2");
    assert_eq!(events[0].reason, "2 consecutive failures");
    assert_eq!(events[0].timestamp, 160);
    assert!(events[0].success);
    assert_ne!(events[0].from_dns, events[0].to_dns);
    assert_eq!(intel.get_current_best(), Some("10.0.0.2".to_string()));
}

#[test]
fn failover_respects_cooldown() {
    // Right after a failover the controller must stay quiet for the cooldown,
    // even when the new preferred resolver starts failing at the threshold.
    let mut intel = DnsIntelligence::with_pool(
        pool(&[("10.0.0.2", "B"), ("10.0.0.3", "C")]),
        DnsIntelConfig::default(),
    );
    intel.tick(&vec![sample_ok(20, 30), sample_ok(10, 15)], 100);
    intel.tick(&vec![sample_fail(), sample_fail()], 110);
    intel.tick(&vec![sample_ok(20, 30), sample_fail()], 120);
    assert_eq!(intel.get_failover_history().len(), 1);
    // B is now preferred; everything fails for two ticks, so B stays
    // preferred and passes the failure threshold — but at t=140 the failover
    // at t=120 is still cooling down, so the controller stays quiet.
    intel.tick(&vec![sample_fail(), sample_fail()], 130);
    intel.tick(&vec![sample_fail(), sample_fail()], 140);
    assert_eq!(intel.get_failover_history().len(), 1);
    assert_eq!(intel.get_current_best(), Some("10.0.0.2".to_string()));
    // after the cooldown, with C healthy again, the controller may act
    intel.tick(&vec![sample_fail(), sample_ok(10, 15)], 151);
    let events = intel.get_failover_history();
    assert_eq!(events.len(), 2);
    assert_eq!(events[1].from_dns, "10.0.0.2");
    assert_eq!(events[1].to_dns, "10.0.0.3");
}

#[test]
fn failover_disabled_means_no_events() {
    let mut intel = DnsIntelligence::with_pool(
        pool(&[("10.0.0.2", "B"), ("10.0.0.3", "C")]),
        DnsIntelConfig::default(),
    );
    intel.set_auto_failover(false);
    assert!(!intel.is_auto_failover_enabled());
    intel.tick(&vec![sample_ok(20, 30), sample_ok(10, 15)], 100);
    intel.tick(&vec![sample_fail(), sample_fail()], 130);
    intel.tick(&vec![sample_ok(20, 30), sample_fail()], 160);
    assert!(intel.get_failover_history().is_empty());
    intel.set_auto_failover(true);
    assert!(intel.is_auto_failover_enabled());
}

#[test]
fn no_healthy_alternative_means_no_failover() {
    // The preferred resolver keeps failing, but nothing else is healthy:
    // the controller takes no action and the preferred address stays stale.
    let mut intel = DnsIntelligence::with_pool(
        pool(&[("10.0.0.2", "B"), ("10.0.0.3", "C")]),
        DnsIntelConfig::default(),
    );
    intel.tick(&vec![sample_ok(20, 30), sample_ok(10, 15)], 100);
    intel.tick(&vec![sample_fail(), sample_fail()], 140);
    intel.tick(&vec![sample_fail(), sample_fail()], 180);
    intel.tick(&vec![sample_fail(), sample_fail()], 220);
    assert!(intel.get_failover_history().is_empty());
    assert_eq!(intel.get_current_best(), Some("10.0.0.3".to_string()));
}

#[test]
fn rapid_force_checks_leave_a_consistent_snapshot() {
    // Two immediate force checks complete and leave scores in range and the
    // ranks a dense permutation.
    let mut intel = DnsIntelligence::with_pool(
        pool(&[("10.0.0.1", "A"), ("10.0.0.2", "B"), ("10.0.0.3", "C")]),
        DnsIntelConfig::default(),
    );
    let samples = vec![sample_ok(20, 30), sample_ok(40, 60), sample_fail()];
    intel.force_check(&samples, 500);
    intel.force_check(&samples, 500);
    let all = intel.get_all_metrics();
    assert_eq!(all.len(), 3);
    let mut ranks: Vec<usize> = all.iter().map(|m| m.rank).collect();
    ranks.sort();
    assert_eq!(ranks, vec![1, 2, 3]);
    for w in all.windows(2) {
        assert!(w[0].score >= w[1].score);
        assert!(w[0].rank < w[1].rank);
    }
    for m in &all {
        assert!(m.score <= 10000);
    }
    // no failover was due here: the preferred resolver was healthy throughout
    assert!(intel.get_failover_history().is_empty());
}

#[test]
fn force_check_runs_the_failover_controller() {
    // A forced check is a full cycle: when the preferred resolver has reached
    // the failure threshold and a healthy alternative exists, it records the
    // failover just as a scheduled tick would.
    let mut intel = DnsIntelligence::with_pool(
        pool(&[("10.0.0.2", "B"), ("10.0.0.3", "C")]),
        DnsIntelConfig::default(),
    );
    intel.tick(&vec![sample_ok(20, 30), sample_ok(10, 15)], 100);
    assert_eq!(intel.get_current_best(), Some("10.0.0.3".to_string()));
    intel.tick(&vec![sample_fail(), sample_fail()], 130);
    intel.force_check(&vec![sample_ok(20, 30), sample_fail()], 160);
    let events = intel.get_failover_history();
    assert_eq!(events.len(), 1);
    assert_eq!(events[0].from_dns, "10.0.0.3");
    assert_eq!(events[0].to_dns, "10.0.0.2");
    assert_eq!(events[0].reason, "2 consecutive failures");
    assert_eq!(intel.get_current_best(), Some("10.0.0.2".to_string()));
}

#[test]
fn stop_keeps_the_last_preferred_resolver() {
    let mut intel = DnsIntelligence::with_pool(pool(&[("10.0.0.1", "A")]), DnsIntelConfig::default());
    assert!(intel.start());
    assert!(intel.is_running());
    // a second start while running is a no-op
    assert!(!intel.start());
    intel.tick(&vec![sample_ok(20, 30)], 100);
    intel.stop();
    assert!(!intel.is_running());
    assert_eq!(intel.get_current_best(), Some("10.0.0.1".to_string()));
}

#[test]
fn free_functions_start_and_stop_the_engine() {
    let mut intel = DnsIntelligence::new(DnsIntelConfig::default());
    assert!(netboozt::start_dns_intelligence(&mut intel));
    assert!(!netboozt::start_dns_intelligence(&mut intel));
    netboozt::stop_dns_intelligence(&mut intel);
    assert!(!intel.is_running());
}

#[test]
fn default_pool_lists_eleven_resolvers() {
    let intel = DnsIntelligence::new(DnsIntelConfig::default());
    let all = intel.get_all_metrics();
    assert_eq!(all.len(), 11);
    // before any scoring, ranks are zero and the listing keeps pool order
    assert_eq!(all[0].address, "1.1.1.1");
    assert_eq!(all[0].name, "Cloudflare");
    assert_eq!(all[10].address, "185.228.168.9");
    assert_eq!(all[10].name, "CleanBrowsing");
    assert!(all.iter().all(|m| m.rank == 0 && m.score == 5000 && m.is_healthy));
    assert_eq!(intel.get_current_best(), None);
}

#[test]
fn get_best_is_a_prefix_of_all_metrics() {
    let mut intel = DnsIntelligence::with_pool(
        pool(&[("10.0.0.1", "A"), ("10.0.0.2", "B"), ("10.0.0.3", "C")]),
        DnsIntelConfig::default(),
    );
    intel.tick(&vec![sample_ok(90, 135), sample_ok(10, 15), sample_ok(40, 60)], 900);
    let all = intel.get_all_metrics();
    let best2 = intel.get_best_dns(2);
    assert_eq!(best2.len(), 2);
    assert_eq!(best2[0].address, all[0].address);
    assert_eq!(best2[1].address, all[1].address);
    assert!(best2[0].score >= best2[1].score);
    // asking for more than the pool holds returns everything
    let best9 = intel.get_best_dns(9);
    assert_eq!(best9.len(), 3);
}

#[test]
fn equal_scores_rank_by_pool_position() {
    let mut intel = DnsIntelligence::with_pool(
        pool(&[("10.0.0.1", "A"), ("10.0.0.2", "B")]),
        DnsIntelConfig::default(),
    );
    intel.tick(&vec![sample_ok(20, 30), sample_ok(20, 30)], 400);
    let all = intel.get_all_metrics();
    assert_eq!(all[0].score, all[1].score);
    assert_eq!(all[0].address, "10.0.0.1");
    assert_eq!(all[0].rank, 1);
    assert_eq!(all[1].address, "10.0.0.2");
    assert_eq!(all[1].rank, 2);
    // the tie also goes to the earlier pool position for the best tracker
    assert_eq!(intel.get_current_best(), Some("10.0.0.1".to_string()));
}

#[test]
fn empty_pool_stays_empty() {
    let mut intel = DnsIntelligence::with_pool(Vec::new(), DnsIntelConfig::default());
    intel.tick(&Vec::new(), 100);
    assert!(intel.get_all_metrics().is_empty());
    assert!(intel.get_best_dns(5).is_empty());
    assert_eq!(intel.get_current_best(), None);
    let summary = intel.get_summary();
    assert_eq!(summary.total_dns_monitored, 0);
    assert_eq!(summary.history_entries, 0);
}

#[test]
fn summary_reports_the_engine_state() {
    let mut intel = DnsIntelligence::with_pool(
        pool(&[("10.0.0.1", "A"), ("10.0.0.2", "B")]),
        DnsIntelConfig::default(),
    );
    intel.tick(&vec![sample_ok(20, 30), sample_ok(50, 75)], 700);
    let summary = intel.get_summary();
    assert_eq!(summary.total_dns_monitored, 2);
    assert_eq!(summary.history_entries, 2);
    assert!(summary.auto_failover_enabled);
    assert_eq!(summary.best_dns.len(), 2);
    assert_eq!(summary.best_dns[0].address, "10.0.0.1");
    assert_eq!(summary.current_best, Some("10.0.0.1".to_string()));
}
