//! What one probe decides before and after it touches the network: which
//! test domain to use, whether this tick checks real resolution, and how a
//! raw measurement becomes a [`ProbeSample`].
//!
//! The network work itself (a TCP connection to the resolver's service port,
//! a resolution attempt through it) happens outside the library; this module
//! holds the rules around it.

use vstd::prelude::*;
use vstd::string::StringExecFns;

use crate::metrics::ProbeSample;
use crate::util::{str_has, string_contains};

verus! {

/// What a probe of one resolver should do this tick.
#[derive(Debug, Clone, Copy, PartialEq, Eq, Structural)]
pub struct ProbePlan {
    /// Which test domain to resolve, as an index into the test-domain list.
    pub domain_index: usize,
    /// Whether this tick measures resolution for real; on other ticks the
    /// resolution latency is estimated from the ping.
    pub check_resolution: bool,
}

/// The domain rotated in for the `i`th slot of the test-domain list.
pub open spec fn test_domain_at(i: int) -> Seq<char> {
    if i == 0 {
        "google.com"@
    } else if i == 1 {
        "cloudflare.com"@
    } else if i == 2 {
        "microsoft.com"@
    } else {
        "amazon.com"@
    }
}

/// The domains used to check that a resolver really resolves.
pub fn test_domains() -> (r: Vec<String>)
    ensures
        r@.len() == 4,
        forall|i: int| 0 <= i < 4 ==> (#[trigger] r@[i])@ == test_domain_at(i),
{
    let mut r: Vec<String> = Vec::new();
    r.push(String::from_str("google.com"));
    r.push(String::from_str("cloudflare.com"));
    r.push(String::from_str("microsoft.com"));
    r.push(String::from_str("amazon.com"));
    r
}

/// Plans one probe at `timestamp`: the test domain rotates with the clock,
/// and real resolution is measured only on every fifth timestamp slot, to
/// bound the load.
pub fn plan_probe(timestamp: u64, domain_count: usize) -> (r: ProbePlan)
    requires
        domain_count >= 1,
    ensures
        r.domain_index == timestamp as int % domain_count as int,
        r.check_resolution == (timestamp % 5 == 0),
{
    ProbePlan {
        domain_index: (timestamp % (domain_count as u64)) as usize,
        check_resolution: timestamp % 5 == 0,
    }
}

/// Whether a resolution tool's report says the lookup worked: it names an
/// address and does not say the name could not be found.
pub fn resolution_succeeded(output: &str) -> (r: bool)
    ensures
        r == (str_has(output@, "Address"@) && !str_has(output@, "can't find"@)),
{
    string_contains(output, "Address") && !string_contains(output, "can't find")
}

/// One-and-a-half times the ping, saturating: the stand-in for a resolution
/// latency that was not measured this tick.
pub open spec fn resolve_estimate(ping_ms: u64) -> u64 {
    if ping_ms + ping_ms / 2 <= u64::MAX {
        (ping_ms + ping_ms / 2) as u64
    } else {
        u64::MAX
    }
}

/// Builds the sample recorded for one probe. A probe whose connection failed
/// (`ping_ms` is `None`) is a failed sample with zero latencies — this is the
/// only condition that marks a sample unsuccessful. A successful connection
/// yields a successful sample whose ping is the measured latency, floored at
/// one millisecond; its resolution latency is the measured one where the
/// resolution check ran and succeeded, and the estimate otherwise. A failed
/// resolution check therefore lowers no sample's success, only its latency
/// figure — and the sample says which kind of figure it carries, so estimates
/// never pass for measurements.
pub fn probe_sample(ping_ms: Option<u64>, resolve_ms: Option<u64>) -> (r: ProbeSample)
    ensures
        r.valid(),
        match ping_ms {
            None => r == (ProbeSample {
                success: false,
                ping_ms: 0,
                resolve_ms: 0,
                resolve_measured: false,
            }),
            Some(p) => {
                let ping = if p >= 1 {
                    p
                } else {
                    1u64
                };
                &&& r.success
                &&& r.ping_ms == ping
                &&& r.resolve_ms == match resolve_ms {
                    Some(m) => m,
                    None => resolve_estimate(ping),
                }
                &&& r.resolve_measured == (resolve_ms is Some)
            },
        },
{
    match ping_ms {
        None => ProbeSample { success: false, ping_ms: 0, resolve_ms: 0, resolve_measured: false },
        Some(p) => {
            let ping = if p >= 1 {
                p
            } else {
                1
            };
            let (resolve, measured) = match resolve_ms {
                Some(m) => (m, true),
                None => {
                    let half = ping / 2;
                    let estimate = if ping <= u64::MAX - half {
                        ping + half
                    } else {
                        u64::MAX
                    };
                    (estimate, false)
                },
            };
            ProbeSample { success: true, ping_ms: ping, resolve_ms: resolve, resolve_measured: measured }
        },
    }
}

} // verus!
