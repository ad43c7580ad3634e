//! Records for the port scanner and the rule that classifies one probe.

use vstd::prelude::*;
use vstd::string::StringExecFns;

verus! {

/// The outcome of probing one port.
#[derive(Debug)]
pub struct PortResult {
    /// The probed port.
    pub port: u16,
    /// `open`, `closed` or `filtered`.
    pub status: String,
}

impl Clone for PortResult {
    fn clone(&self) -> (r: Self)
        ensures
            r == *self,
    {
        PortResult { port: self.port, status: self.status.clone() }
    }
}

/// The outcome of a whole port scan.
#[derive(Debug)]
pub struct ScanPortsResult {
    /// One entry per probed port, in the order probed.
    pub results: Vec<PortResult>,
}

/// The status a port probe reports: a connection attempt that was answered is
/// `open` when it completed and `closed` when it was refused; one that saw no
/// answer within its deadline is `filtered`.
pub open spec fn port_status_text(answered: bool, connected: bool) -> Seq<char> {
    if answered {
        if connected {
            "open"@
        } else {
            "closed"@
        }
    } else {
        "filtered"@
    }
}

/// Classifies one port probe.
pub fn port_result(port: u16, answered: bool, connected: bool) -> (r: PortResult)
    ensures
        r.port == port,
        r.status@ == port_status_text(answered, connected),
{
    let status = if answered {
        if connected {
            String::from_str("open")
        } else {
            String::from_str("closed")
        }
    } else {
        String::from_str("filtered")
    };
    PortResult { port, status }
}

} // verus!
