//! The provider table, the tuning plans, the diagnostics and the string
//! helpers.

use netboozt::devtools::port_result;
use netboozt::diagnostics::{
    latency_to_score, quick_check, run_full_diagnostic, FailurePoint, NetworkHealth,
};
use netboozt::network::dns_config_from_lookup;
use netboozt::optimizer::{
    applied_labels, apply_profile_internal, extract_value_multi, get_available_optimizations,
    get_current_settings_internal, parse_registry_dword, reset_to_defaults_internal,
    OptimizationProfile, TcpSettings, TuningAction,
};
use netboozt::providers::{dns_providers, get_provider, select_best_dns};
use netboozt::util::{failure_reason_string, string_contains, string_contains_ci, u64_to_string};

#[test]
fn decimal_rendering() {
    assert_eq!(u64_to_string(0), "0");
    assert_eq!(u64_to_string(2), "2");
    assert_eq!(u64_to_string(10), "10");
    assert_eq!(u64_to_string(987654), "987654");
    assert_eq!(failure_reason_string(2), "2 consecutive failures");
    assert_eq!(failure_reason_string(17), "17 consecutive failures");
}

#[test]
fn substring_search() {
    assert!(string_contains("PowerShell error: denied", "error"));
    assert!(!string_contains("all good", "error"));
    assert!(!string_contains("Error", "error"));
    assert!(string_contains("abc", ""));
    assert!(string_contains_ci("RSS : Enabled", "enabled"));
    assert!(string_contains_ci("ENABLED", "enabled"));
    assert!(!string_contains_ci("disabled... well, not really: off", "enabled"));
}

#[test]
fn provider_lookup() {
    let table = dns_providers();
    assert_eq!(table.len(), 6);
    assert_eq!(table[0].id, "cloudflare");
    assert_eq!(table[0].primary, "1.1.1.1");
    assert_eq!(table[0].tier, 1);
    let quad9 = get_provider("quad9").expect("known provider");
    assert_eq!(quad9.name, "Quad9");
    assert_eq!(quad9.primary, "9.9.9.9");
    assert_eq!(quad9.secondary, "149.112.112.112");
    assert!(get_provider("unknown").is_none());
}

#[test]
fn best_provider_by_latency() {
    // quad9 (index 2) answers fastest; zero and failed measurements are ignored
    let latencies = vec![Some(30), None, Some(9), Some(0), Some(9), Some(50)];
    let best = select_best_dns(&latencies).expect("a provider answered");
    assert_eq!(best.id, "quad9");
    // nothing answered at all
    let silent = vec![None, None, Some(0), None, None, None];
    let err = select_best_dns(&silent).unwrap_err();
    assert_eq!(err, "No se pudo determinar el mejor DNS");
}

#[test]
fn tuning_plans_per_profile() {
    let conservative = apply_profile_internal("Conservative").unwrap();
    assert_eq!(conservative.len(), 3);
    assert!(conservative.iter().all(|s| s.required));
    assert_eq!(conservative[0].label, "RSS enabled");
    let balanced = apply_profile_internal("Balanced").unwrap();
    assert_eq!(balanced.len(), 7);
    assert_eq!(balanced[5].label, "HyStart++ enabled");
    let aggressive = apply_profile_internal("Aggressive").unwrap();
    assert_eq!(aggressive.len(), 11);
    match &aggressive[10].action {
        TuningAction::RegistrySet(name, value) => {
            assert_eq!(name, "TcpInitialRto");
            assert_eq!(*value, 1000);
        },
        _ => panic!("expected a registry step"),
    }
    let err = apply_profile_internal("Turbo").unwrap_err();
    assert_eq!(err, "Perfil desconocido: Turbo");
    // the profile enum names feed straight into the plan lookup
    assert_eq!(OptimizationProfile::Conservative.name(), "Conservative");
    assert_eq!(OptimizationProfile::Balanced.name(), "Balanced");
    assert_eq!(OptimizationProfile::Aggressive.name(), "Aggressive");
    assert!(apply_profile_internal(OptimizationProfile::Balanced.name().as_str()).is_ok());
}

#[test]
fn labels_follow_the_outcomes() {
    let plan = apply_profile_internal("Balanced").unwrap();
    // everything succeeded: every label is reported
    let all_ok = applied_labels(&plan, &vec![true; 7]).unwrap();
    assert_eq!(
        all_ok,
        vec![
            "RSS enabled",
            "RSC enabled",
            "Autotuning normal",
            "ECN enabled",
            "Timestamps enabled",
            "HyStart++ enabled",
            "PRR enabled",
        ],
    );
    // a failed registry tweak only drops its label
    let mut outcomes = vec![true; 7];
    outcomes[5] = false;
    let partial = applied_labels(&plan, &outcomes).unwrap();
    assert!(!partial.contains(&"HyStart++ enabled".to_string()));
    assert_eq!(partial.len(), 6);
    // a failed netsh step fails the whole run with its command in the error
    let mut broken = vec![true; 7];
    broken[1] = false;
    let err = applied_labels(&plan, &broken).unwrap_err();
    assert_eq!(err, "netsh int tcp set global rsc=enabled failed");
}

#[test]
fn reset_plan_restores_defaults() {
    let plan = reset_to_defaults_internal();
    assert_eq!(plan.len(), 8);
    assert!(plan.iter().all(|s| !s.required));
    // registry deletions always report, netsh resets only on success
    let mut outcomes = vec![false; 8];
    outcomes[0] = true;
    let labels = applied_labels(&plan, &outcomes).unwrap();
    assert_eq!(
        labels,
        vec![
            "Autotuning reset",
            "HyStart++ removed",
            "PRR removed",
            "TCP Fast Open removed",
            "TCP Pacing removed",
            "Initial RTO reset",
        ],
    );
}

fn settings(rss: &str, rsc: &str, ecn: &str, timestamps: &str) -> TcpSettings {
    TcpSettings {
        autotuning: "normal".to_string(),
        rss: rss.to_string(),
        rsc: rsc.to_string(),
        ecn: ecn.to_string(),
        timestamps: timestamps.to_string(),
        chimney: "disabled".to_string(),
        congestion_provider: "default".to_string(),
        fast_open: "disabled".to_string(),
        hystart: "enabled".to_string(),
        prr: "disabled".to_string(),
        pacing: "off".to_string(),
        initial_rto: "3000ms".to_string(),
        rack: "N/A".to_string(),
    }
}

#[test]
fn optimization_catalogue() {
    let current = settings("Enabled", "disabled", "habilitado: enabled", "off");
    let infos = get_available_optimizations(&current, true, false, false, Some(0), Some(1000));
    assert_eq!(infos.len(), 9);
    assert_eq!(infos[0].id, "rss");
    assert!(infos[0].applied);
    assert!(!infos[1].applied);
    assert!(infos[2].applied);
    assert!(!infos[3].applied);
    assert!(infos[4].applied); // hystart registry value exists
    assert!(!infos[5].applied);
    assert!(!infos[6].applied);
    assert!(infos[7].applied); // pacing: EnableWsd == 0
    assert!(infos[8].applied); // initial rto <= 1000
    let relaxed = get_available_optimizations(&current, false, false, false, Some(1), None);
    assert!(!relaxed[7].applied);
    assert!(!relaxed[8].applied);
}

#[test]
fn value_extraction_from_report_lines() {
    let text = "Querying active state...\n\nReceive-Side Scaling State          : enabled\nReceive Window Auto-Tuning Level    : normal\nECN Capability                      : disabled\n";
    // a short key must open the line, without regard to letter case
    assert_eq!(extract_value_multi(text, &vec!["ECN Capability"]), "disabled");
    // a long key may sit anywhere in the line
    assert_eq!(
        extract_value_multi(text, &vec!["Window Auto-Tuning Level"]),
        "normal"
    );
    // the first of several keys that hits wins; unknown keys fall through
    assert_eq!(
        extract_value_multi(text, &vec!["No such thing", "receive-side scaling state"]),
        "enabled"
    );
    // trailing colons on a key are ignored
    assert_eq!(extract_value_multi(text, &vec!["ECN Capability:"]), "disabled");
    // a matching line without a value does not stop the search
    let sparse = "ECN Capability :\nECN Capability : enabled\n";
    assert_eq!(extract_value_multi(sparse, &vec!["ECN Capability"]), "enabled");
    // nothing matches
    assert_eq!(extract_value_multi(text, &vec!["Chimney Offload State"]), "unknown");
}

#[test]
fn settings_are_read_from_the_report() {
    let report = "\
TCP Global Parameters\n\
----------------------------------------------\n\
Receive-Side Scaling State          : enabled\n\
Receive Window Auto-Tuning Level    : normal\n\
Receive Segment Coalescing State    : enabled\n\
ECN Capability                      : disabled\n\
RFC 1323 Timestamps                 : disabled\n\
Initial RTO                         : 1000\n\
Add-On Congestion Control Provider  : default\n\
Fast Open                           : enabled\n\
HyStart                             : enabled\n\
Proportional Rate Reduction         : enabled\n\
Pacing Profile                      : off\n";
    let settings = get_current_settings_internal(report);
    assert_eq!(settings.rss, "enabled");
    assert_eq!(settings.autotuning, "normal");
    assert_eq!(settings.rsc, "enabled");
    assert_eq!(settings.ecn, "disabled");
    assert_eq!(settings.timestamps, "disabled");
    assert_eq!(settings.chimney, "unknown");
    assert_eq!(settings.congestion_provider, "default");
    assert_eq!(settings.fast_open, "enabled");
    assert_eq!(settings.hystart, "enabled");
    assert_eq!(settings.prr, "enabled");
    assert_eq!(settings.pacing, "off");
    // a bare millisecond count gets its unit appended
    assert_eq!(settings.initial_rto, "1000ms");
    assert_eq!(settings.rack, "N/A");
    // an absent timeout falls back to the stock three seconds
    let empty = get_current_settings_internal("");
    assert_eq!(empty.initial_rto, "3000ms");
    assert_eq!(empty.rss, "unknown");
    // a timeout already carrying its unit is kept as is
    let with_unit = get_current_settings_internal("Initial RTO : 300ms\n");
    assert_eq!(with_unit.initial_rto, "300ms");
}

#[test]
fn registry_dword_parsing() {
    let report = "\nHKEY_LOCAL_MACHINE\\SYSTEM\\CurrentControlSet\\Services\\Tcpip\\Parameters\n    TcpInitialRto    REG_DWORD    0x3e8\n    EnableWsd    REG_DWORD    0x0\n";
    assert_eq!(parse_registry_dword(report, "TcpInitialRto"), Some(1000));
    assert_eq!(parse_registry_dword(report, "EnableWsd"), Some(0));
    // the name must appear on the line that carries the value
    assert_eq!(parse_registry_dword(report, "EnableTFO"), None);
    // the full 32-bit range is read; one past it is rejected
    assert_eq!(parse_registry_dword("v 0xffffffff", "v"), Some(u32::MAX));
    assert_eq!(parse_registry_dword("v 0x100000000", "v"), None);
    // leading zeros are fine; a literal without digits or with a stray x is not
    assert_eq!(parse_registry_dword("v 0x000000001", "v"), Some(1));
    assert_eq!(parse_registry_dword("v 0x", "v"), None);
    assert_eq!(parse_registry_dword("v 0x12x3", "v"), None);
    // a later line may still carry a readable value
    assert_eq!(parse_registry_dword("v 0x\nv 0x2a", "v"), Some(42));
}

#[test]
fn latency_grades() {
    assert_eq!(latency_to_score(0, 20, 50, 100, 200), 10000);
    assert_eq!(latency_to_score(5, 5, 20, 50, 100), 10000);
    assert_eq!(latency_to_score(10, 5, 20, 50, 100), 9334);
    assert_eq!(latency_to_score(60, 20, 50, 100, 200), 8800);
    assert_eq!(latency_to_score(300, 20, 50, 100, 200), 5000);
    assert_eq!(latency_to_score(500, 20, 50, 100, 200), 2000);
    assert_eq!(latency_to_score(1000, 20, 50, 100, 200), 0);
}

#[test]
fn full_diagnostic_scores_a_healthy_connection() {
    let r = run_full_diagnostic(
        Some("Ethernet".to_string()),
        Some(Some(10)),
        Some(30),
        Some(25),
        Some(120),
    );
    assert!(r.adapter_ok && r.router_ok && r.isp_ok && r.dns_ok && r.internet_ok);
    assert_eq!(r.adapter_name, "Ethernet");
    assert_eq!(r.score, 94);
    assert_eq!(r.health, NetworkHealth::Excellent);
    assert_eq!(r.failure_point, FailurePoint::NoFault);
    assert_eq!(
        r.recommendation,
        "🚀 Tu conexión está funcionando perfectamente. Score: 94/100"
    );
}

#[test]
fn full_diagnostic_stops_at_the_first_failure() {
    let no_adapter = run_full_diagnostic(None, None, None, None, None);
    assert_eq!(no_adapter.health, NetworkHealth::Down);
    assert_eq!(no_adapter.failure_point, FailurePoint::Adapter);
    assert_eq!(no_adapter.recommendation, "No hay adaptador de red activo. Verifica tu conexión.");

    let dead_router =
        run_full_diagnostic(Some("wlan0".to_string()), Some(None), None, None, None);
    assert_eq!(dead_router.failure_point, FailurePoint::Router);
    assert!(dead_router.adapter_ok && !dead_router.router_ok);

    let no_isp = run_full_diagnostic(Some("wlan0".to_string()), Some(Some(3)), None, None, None);
    assert_eq!(no_isp.failure_point, FailurePoint::Isp);
    assert_eq!(no_isp.recommendation, "Sin conexión a internet. Contacta a tu ISP.");

    let no_dns =
        run_full_diagnostic(Some("wlan0".to_string()), Some(Some(3)), Some(20), None, None);
    assert_eq!(no_dns.failure_point, FailurePoint::Dns);
    assert_eq!(no_dns.health, NetworkHealth::Down);
    assert_eq!(no_dns.score, 0);
}

#[test]
fn full_diagnostic_without_internet_still_scores() {
    // a missing gateway counts as a zero-latency router; an unreachable
    // internet keeps the failure point but contributes a flat 40.00
    let r = run_full_diagnostic(Some("eth0".to_string()), None, Some(30), Some(25), None);
    assert!(r.router_ok);
    assert_eq!(r.router_latency_ms, 0);
    assert!(!r.internet_ok);
    assert_eq!(r.failure_point, FailurePoint::Internet);
    // router 100.00, isp 93.34, dns 93.75, internet 40.00 under 10/15/25/50
    let centi = (10000 * 10 + 9334 * 15 + 9375 * 25 + 4000 * 50) / 100;
    assert_eq!(r.score, (centi + 50) / 100);
    assert_eq!(r.health, NetworkHealth::Fair);
}

#[test]
fn fair_verdict_names_the_slowest_stage() {
    // DNS is well over its 50 ms comfort threshold and drags the score into
    // the fair band; the advice names it
    let r = run_full_diagnostic(
        Some("eth0".to_string()),
        Some(Some(10)),
        Some(40),
        Some(140),
        None,
    );
    assert_eq!(r.health, NetworkHealth::Fair);
    assert!(r.recommendation.contains("DNS un poco lento (140ms)"));
    assert!(r.recommendation.starts_with("⚠️ Conexión aceptable."));
}

#[test]
fn quick_check_messages() {
    let ok = quick_check(Some(12));
    assert!(ok.connected);
    assert_eq!(ok.latency_ms, 12);
    assert_eq!(ok.message, "Conexión OK (12ms)");
    let fine = quick_check(Some(70));
    assert_eq!(fine.message, "Conexión aceptable (70ms)");
    let slow = quick_check(Some(250));
    assert_eq!(slow.message, "Conexión lenta (250ms)");
    let down = quick_check(None);
    assert!(!down.connected);
    assert_eq!(down.message, "Sin conexión a internet");
    let zero = quick_check(Some(0));
    assert!(!zero.connected);
    assert_eq!(zero.message, "Sin conexión a internet");
}

#[test]
fn health_labels() {
    assert_eq!(NetworkHealth::Excellent.label(), "Excelente");
    assert_eq!(NetworkHealth::Good.label(), "Buena");
    assert_eq!(NetworkHealth::Fair.label(), "Regular");
    assert_eq!(NetworkHealth::Poor.label(), "Lenta");
    assert_eq!(NetworkHealth::Bad.label(), "Mala");
    assert_eq!(NetworkHealth::Down.label(), "Sin conexión");
}

#[test]
fn port_probe_classification() {
    assert_eq!(port_result(53, true, true).status, "open");
    assert_eq!(port_result(53, true, false).status, "closed");
    assert_eq!(port_result(53, false, false).status, "filtered");
    assert_eq!(port_result(8080, true, true).port, 8080);
}

#[test]
fn dns_config_reflects_the_lookup() {
    let static_cfg = dns_config_from_lookup(
        "eth0".to_string(),
        Some("Ethernet 2".to_string()),
        Some(vec!["1.1.1.1".to_string(), "1.0.0.1".to_string()]),
    );
    assert_eq!(static_cfg.adapter, "Ethernet 2");
    assert_eq!(static_cfg.servers, vec!["1.1.1.1", "1.0.0.1"]);
    assert!(!static_cfg.is_dhcp);
    let dhcp_cfg = dns_config_from_lookup("eth0".to_string(), None, None);
    assert_eq!(dhcp_cfg.adapter, "eth0");
    assert!(dhcp_cfg.servers.is_empty());
    assert!(dhcp_cfg.is_dhcp);
}
