//! Startup settings of the gossip node.
use vstd::prelude::*;

verus! {

/// Who this node is and where it listens for peers.
#[derive(Clone, Debug, PartialEq, Eq)]
pub struct GossipodConfig {
    /// The node's name in the cluster; a broadcast skips the member of this name.
    pub name: String,
    /// The resolved IP address to listen on.
    pub ip: String,
    pub port: u16,
    /// A seed peer to join at startup; without one the node starts alone.
    pub join_addr: Option<String>,
}

impl GossipodConfig {
    /// Settings for a node named `name` that listens on `ip` and `port`.
    pub fn new(name: String, ip: String, port: u16, join_addr: Option<String>) -> (r: Self)
        ensures
            r.name@ == name@,
            r.ip@ == ip@,
            r.port == port,
            r.join_addr == join_addr,
    {
        GossipodConfig { name, ip, port, join_addr }
    }
}

} // verus!
