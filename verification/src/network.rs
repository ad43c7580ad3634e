//! Plain records describing the host's network configuration, and the rules
//! that build them from what the system reports.

use vstd::prelude::*;

verus! {

/// One network adapter, as reported by the system.
#[derive(Debug)]
pub struct NetworkAdapter {
    /// Adapter name.
    pub name: String,
    /// Interface description.
    pub description: String,
    /// Link status.
    pub status: String,
    /// Link speed, as reported.
    pub link_speed: String,
    /// Hardware address.
    pub mac_address: String,
}

impl Clone for NetworkAdapter {
    fn clone(&self) -> (r: Self)
        ensures
            r == *self,
    {
        NetworkAdapter {
            name: self.name.clone(),
            description: self.description.clone(),
            status: self.status.clone(),
            link_speed: self.link_speed.clone(),
            mac_address: self.mac_address.clone(),
        }
    }
}

/// The DNS configuration of one adapter. An empty server list means the
/// adapter takes its servers from DHCP.
#[derive(Debug)]
pub struct DnsConfig {
    /// The adapter the configuration belongs to.
    pub adapter: String,
    /// The configured server addresses, in order.
    pub servers: Vec<String>,
    /// Whether the adapter is on DHCP, i.e. has no static servers.
    pub is_dhcp: bool,
}

impl DnsConfig {
    /// The record's invariant: the DHCP flag mirrors an empty server list.
    pub open spec fn wf(self) -> bool {
        self.is_dhcp == (self.servers@.len() == 0)
    }
}

impl Clone for DnsConfig {
    fn clone(&self) -> (r: Self)
        ensures
            r.adapter == self.adapter,
            r.servers@.len() == self.servers@.len(),
            forall|i: int|
                0 <= i < self.servers@.len() ==> #[trigger] r.servers@[i] == self.servers@[i],
            r.is_dhcp == self.is_dhcp,
    {
        let mut servers: Vec<String> = Vec::new();
        for i in 0..self.servers.len()
            invariant
                servers@.len() == i,
                forall|j: int| 0 <= j < i ==> #[trigger] servers@[j] == self.servers@[j],
        {
            servers.push(self.servers[i].clone());
        }
        DnsConfig { adapter: self.adapter.clone(), servers, is_dhcp: self.is_dhcp }
    }
}

/// Builds the configuration record from what a DNS lookup of `adapter`
/// reported: the alias where the lookup gave one, the queried name otherwise;
/// the reported servers, or none; and the DHCP flag as the absence of
/// servers.
pub fn dns_config_from_lookup(
    adapter: String,
    interface_alias: Option<String>,
    server_addresses: Option<Vec<String>>,
) -> (r: DnsConfig)
    ensures
        r.wf(),
        r.adapter == match interface_alias {
            Some(alias) => alias,
            None => adapter,
        },
        r.servers@ == match server_addresses {
            Some(servers) => servers@,
            None => Seq::<String>::empty(),
        },
        r.is_dhcp == (match server_addresses {
            Some(servers) => servers@.len() == 0,
            None => true,
        }),
{
    let name = match interface_alias {
        Some(alias) => alias,
        None => adapter,
    };
    let servers = match server_addresses {
        Some(servers) => servers,
        None => Vec::new(),
    };
    let is_dhcp = servers.len() == 0;
    DnsConfig { adapter: name, servers, is_dhcp }
}

} // verus!
