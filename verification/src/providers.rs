//! The predefined DNS providers and the pure decisions around them: lookup
//! by identifier, and picking the provider with the lowest measured latency.

use vstd::prelude::*;
use vstd::string::StringExecFns;

verus! {

/// One predefined DNS provider: an identifier, a display name, its two
/// server addresses and a preference tier.
#[derive(Debug)]
pub struct DnsProvider {
    /// Short identifier, e.g. `cloudflare`.
    pub id: String,
    /// Display name.
    pub name: String,
    /// Primary server address.
    pub primary: String,
    /// Secondary server address.
    pub secondary: String,
    /// Preference tier, lower is better.
    pub tier: u8,
}

impl Clone for DnsProvider {
    fn clone(&self) -> (r: Self)
        ensures
            r == *self,
    {
        DnsProvider {
            id: self.id.clone(),
            name: self.name.clone(),
            primary: self.primary.clone(),
            secondary: self.secondary.clone(),
            tier: self.tier,
        }
    }
}

/// Identifier of the `i`th predefined provider.
pub open spec fn provider_id(i: int) -> Seq<char> {
    if i == 0 {
        "cloudflare"@
    } else if i == 1 {
        "google"@
    } else if i == 2 {
        "quad9"@
    } else if i == 3 {
        "opendns"@
    } else if i == 4 {
        "adguard"@
    } else {
        "cleanbrowsing"@
    }
}

/// Display name of the `i`th predefined provider.
pub open spec fn provider_name(i: int) -> Seq<char> {
    if i == 0 {
        "Cloudflare"@
    } else if i == 1 {
        "Google"@
    } else if i == 2 {
        "Quad9"@
    } else if i == 3 {
        "OpenDNS"@
    } else if i == 4 {
        "AdGuard"@
    } else {
        "CleanBrowsing"@
    }
}

/// Primary address of the `i`th predefined provider.
pub open spec fn provider_primary(i: int) -> Seq<char> {
    if i == 0 {
        "1.1.1.1"@
    } else if i == 1 {
        "8.8.8.8"@
    } else if i == 2 {
        "9.9.9.9"@
    } else if i == 3 {
        "208.67.222.222"@
    } else if i == 4 {
        "94.140.14.14"@
    } else {
        "185.228.168.9"@
    }
}

/// Secondary address of the `i`th predefined provider.
pub open spec fn provider_secondary(i: int) -> Seq<char> {
    if i == 0 {
        "1.0.0.1"@
    } else if i == 1 {
        "8.8.4.4"@
    } else if i == 2 {
        "149.112.112.112"@
    } else if i == 3 {
        "208.67.220.220"@
    } else if i == 4 {
        "94.140.15.15"@
    } else {
        "185.228.169.9"@
    }
}

/// A provider record carries the `i`th table row.
pub open spec fn is_provider_row(p: DnsProvider, i: int) -> bool {
    &&& p.id@ == provider_id(i)
    &&& p.name@ == provider_name(i)
    &&& p.primary@ == provider_primary(i)
    &&& p.secondary@ == provider_secondary(i)
    &&& p.tier == i + 1
}

/// The predefined provider table, in tier order.
pub fn dns_providers() -> (r: Vec<DnsProvider>)
    ensures
        r@.len() == 6,
        forall|i: int| 0 <= i < 6 ==> is_provider_row(#[trigger] r@[i], i),
{
    let mut r: Vec<DnsProvider> = Vec::new();
    r.push(
        DnsProvider {
            id: String::from_str("cloudflare"),
            name: String::from_str("Cloudflare"),
            primary: String::from_str("1.1.1.1"),
            secondary: String::from_str("1.0.0.1"),
            tier: 1,
        },
    );
    r.push(
        DnsProvider {
            id: String::from_str("google"),
            name: String::from_str("Google"),
            primary: String::from_str("8.8.8.8"),
            secondary: String::from_str("8.8.4.4"),
            tier: 2,
        },
    );
    r.push(
        DnsProvider {
            id: String::from_str("quad9"),
            name: String::from_str("Quad9"),
            primary: String::from_str("9.9.9.9"),
            secondary: String::from_str("149.112.112.112"),
            tier: 3,
        },
    );
    r.push(
        DnsProvider {
            id: String::from_str("opendns"),
            name: String::from_str("OpenDNS"),
            primary: String::from_str("208.67.222.222"),
            secondary: String::from_str("208.67.220.220"),
            tier: 4,
        },
    );
    r.push(
        DnsProvider {
            id: String::from_str("adguard"),
            name: String::from_str("AdGuard"),
            primary: String::from_str("94.140.14.14"),
            secondary: String::from_str("94.140.15.15"),
            tier: 5,
        },
    );
    r.push(
        DnsProvider {
            id: String::from_str("cleanbrowsing"),
            name: String::from_str("CleanBrowsing"),
            primary: String::from_str("185.228.168.9"),
            secondary: String::from_str("185.228.169.9"),
            tier: 6,
        },
    );
    r
}

/// The first table row whose identifier is `id`, if any.
pub open spec fn provider_index(id: Seq<char>, n: int) -> Option<int>
    decreases n,
{
    if n <= 0 {
        None
    } else {
        match provider_index(id, n - 1) {
            Some(i) => Some(i),
            None => if provider_id(n - 1) == id {
                Some(n - 1)
            } else {
                None
            },
        }
    }
}

/// Looks a predefined provider up by its identifier.
pub fn get_provider(id: &str) -> (r: Option<DnsProvider>)
    ensures
        match provider_index(id@, 6) {
            Some(i) => r matches Some(p) && is_provider_row(p, i),
            None => r is None,
        },
{
    let id_string = String::from_str(id);
    let table = dns_providers();
    let n = table.len();
    let mut k: usize = 0;
    while k < n
        invariant
            n == 6,
            table@.len() == 6,
            forall|i: int| 0 <= i < 6 ==> is_provider_row(#[trigger] table@[i], i),
            id_string@ == id@,
            k <= n,
            provider_index(id@, k as int) is None,
        decreases n - k,
    {
        if table[k].id == id_string {
            proof {
                lemma_provider_index_found(id@, k as int, 6);
            }
            return Some(table[k].clone());
        }
        k = k + 1;
    }
    None
}

proof fn lemma_provider_index_found(id: Seq<char>, k: int, n: int)
    requires
        0 <= k < n,
        provider_index(id, k) is None,
        provider_id(k) == id,
    ensures
        provider_index(id, n) == Some(k),
    decreases n,
{
    if n > k + 1 {
        lemma_provider_index_found(id, k, n - 1);
    }
}

/// The position of the lowest positive latency among the first `n` entries;
/// a tie keeps the earlier position, and failed or zero measurements do not
/// count.
pub open spec fn best_latency_index(lats: Seq<Option<u64>>, n: int) -> Option<int>
    decreases n,
{
    if n <= 0 {
        None
    } else {
        let prev = best_latency_index(lats, n - 1);
        match lats[n - 1] {
            Some(l) => if l > 0 && (match prev {
                Some(b) => l < lats[b]->0,
                None => true,
            }) {
                Some(n - 1)
            } else {
                prev
            },
            None => prev,
        }
    }
}

/// Picks the provider that answered fastest. `latencies` holds one measured
/// ping per provider table row, in table order, `None` where the measurement
/// failed; zero latencies are ignored as unmeasured. With no usable
/// measurement at all, reports the same error as the original lookup.
pub fn select_best_dns(latencies: &Vec<Option<u64>>) -> (r: Result<DnsProvider, String>)
    requires
        latencies@.len() == 6,
    ensures
        match best_latency_index(latencies@, 6) {
            Some(i) => r matches Ok(p) && is_provider_row(p, i),
            None => r matches Err(m) && m@ == "No se pudo determinar el mejor DNS"@,
        },
{
    let table = dns_providers();
    let mut best: Option<usize> = None;
    for k in 0..6usize
        invariant
            table@.len() == 6,
            latencies@.len() == 6,
            forall|i: int| 0 <= i < 6 ==> is_provider_row(#[trigger] table@[i], i),
            match best {
                Some(b) => b < k && best_latency_index(latencies@, k as int) == Some(b as int)
                    && latencies@[b as int] is Some && latencies@[b as int]->0 > 0,
                None => best_latency_index(latencies@, k as int) is None,
            },
    {
        match latencies[k] {
            Some(l) => {
                if l > 0 {
                    let better = match best {
                        Some(b) => match latencies[b] {
                            Some(cur) => l < cur,
                            None => true,
                        },
                        None => true,
                    };
                    if better {
                        best = Some(k);
                    }
                }
            },
            None => {},
        }
    }
    match best {
        Some(b) => Ok(table[b].clone()),
        None => Err(String::from_str("No se pudo determinar el mejor DNS")),
    }
}

} // verus!
