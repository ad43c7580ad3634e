//! A DNS resolver health engine: it scores a fixed pool of public DNS
//! resolvers from probe samples, keeps a time-windowed history, and decides
//! under hysteresis rules when the preferred resolver should change.
//!
//! The crate is verified with Verus. All network probing, shell invocation
//! and scheduling live outside the library; the library is a deterministic
//! state machine over plain values.

pub mod config;
pub mod devtools;
pub mod diagnostics;
pub mod engine;
pub mod metrics;
pub mod network;
pub mod optimizer;
pub mod order;
pub mod probe;
pub mod providers;
pub mod score;
pub mod util;

pub use config::DnsIntelConfig;
pub use engine::{start_dns_intelligence, stop_dns_intelligence, DnsIntelSummary, DnsIntelligence};
pub use metrics::{DnsMetrics, FailoverEvent, HistoryEntry, ProbeSample};
pub use probe::{plan_probe, probe_sample, test_domains, ProbePlan};
