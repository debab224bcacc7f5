use vstd::prelude::*;

use crate::ident::fresh_id;
use crate::keyed::Keyed;
use crate::text::{joined, leading_token};

verus! {

/// Role of a node in the fleet.
#[derive(Debug, Clone, Copy, PartialEq, Eq, Structural)]
pub enum NodeRole {
    Master,
    Receiver,
}

#[derive(Debug, Clone, Copy, PartialEq, Eq, Structural)]
pub struct NodeCapability {
    pub dmx_output: bool,
    pub media_playback: bool,
    pub input_processing: bool,
}

impl NodeCapability {
    /// DMX output only.
    pub open spec fn spec_default() -> NodeCapability {
        NodeCapability { dmx_output: true, media_playback: false, input_processing: false }
    }
}

impl Default for NodeCapability {
    fn default() -> (r: Self)
        ensures
            r == NodeCapability::spec_default(),
    {
        NodeCapability { dmx_output: true, media_playback: false, input_processing: false }
    }
}

/// A known node. `last_heartbeat` is in Unix seconds.
#[derive(Debug, Clone)]
pub struct NodeInfo {
    pub node_id: String,
    pub role: NodeRole,
    pub ip_address: String,
    pub port: u16,
    pub capabilities: NodeCapability,
    pub universes: Vec<u16>,
    pub last_heartbeat: u64,
    pub online: bool,
    pub version: String,
}

impl NodeInfo {
    /// A copy with equal fields.
    pub fn duplicate(&self) -> (r: NodeInfo)
        ensures
            r.node_id == self.node_id,
            r.role == self.role,
            r.ip_address == self.ip_address,
            r.port == self.port,
            r.capabilities == self.capabilities,
            r.universes@ == self.universes@,
            r.last_heartbeat == self.last_heartbeat,
            r.online == self.online,
            r.version == self.version,
    {
        let universes = self.universes.clone();
        assert(universes@ =~= self.universes@);
        NodeInfo {
            node_id: self.node_id.clone(),
            role: self.role,
            ip_address: self.ip_address.clone(),
            port: self.port,
            capabilities: self.capabilities,
            universes,
            last_heartbeat: self.last_heartbeat,
            online: self.online,
            version: self.version.clone(),
        }
    }
}

impl Keyed for NodeInfo {
    open spec fn spec_key(&self) -> Seq<char> {
        self.node_id@
    }

    fn key(&self) -> (r: &String) {
        &self.node_id
    }
}

/// The local node's settings.
#[derive(Debug, Clone)]
pub struct NodeConfig {
    pub role: NodeRole,
    pub node_id: String,
    pub listen_port: u16,
    pub master_ip: Option<String>,
    pub master_port: Option<u16>,
    pub local_universes: Vec<u16>,
    pub capabilities: NodeCapability,
    pub auto_discover: bool,
}

/// Port the node API listens on by default.
pub const DEFAULT_LISTEN_PORT: u16 = 9000;

impl Default for NodeConfig {
    /// A master with a generated id `rocontrol-<first group of a random
    /// UUID>`, listening on `DEFAULT_LISTEN_PORT`, discovering peers.
    fn default() -> (r: Self)
        ensures
            r.role == NodeRole::Master,
            r.node_id@.len() == 18,
            r.node_id@.subrange(0, 10) == "rocontrol-"@,
            !r.node_id@.subrange(10, 18).contains('-'),
            r.listen_port == DEFAULT_LISTEN_PORT,
            r.master_ip is None,
            r.master_port is None,
            r.local_universes@.len() == 0,
            r.capabilities == NodeCapability::spec_default(),
            r.auto_discover,
    {
        let uuid = fresh_id();
        let group = leading_token(uuid.as_str(), '-');
        proof {
            assert(group@.len() == 8) by {
                if group@.len() < 8 {
                    assert(uuid@[group@.len() as int] == '-');
                } else if group@.len() > 8 {
                    assert(group@[8] == uuid@[8]);
                    assert(group@.contains('-'));
                }
            }
        }
        let node_id = joined("rocontrol-", group.as_str(), "");
        proof {
            reveal_strlit("rocontrol-");
            reveal_strlit("");
            assert(node_id@.subrange(0, 10) =~= "rocontrol-"@);
            assert(node_id@.subrange(10, 18) =~= group@);
        }
        NodeConfig {
            role: NodeRole::Master,
            node_id,
            listen_port: DEFAULT_LISTEN_PORT,
            master_ip: None,
            master_port: None,
            local_universes: Vec::new(),
            capabilities: NodeCapability::default(),
            auto_discover: true,
        }
    }
}

/// A receiver's request to join a master.
#[derive(Debug, Clone)]
pub struct NodeRegistration {
    pub node_id: String,
    pub capabilities: NodeCapability,
    pub universes: Vec<u16>,
    pub version: String,
}

/// A liveness message; `timestamp` is in Unix seconds. The runtime metrics a
/// heartbeat also carries are not read by the registry.
#[derive(Debug, Clone)]
pub struct NodeHeartbeat {
    pub node_id: String,
    pub timestamp: u64,
}

/// A node's answer to a command: `status` is `executed`, `failed` or
/// `pending`.
#[derive(Debug, Clone)]
pub struct NodeCommandAck {
    pub command_id: String,
    pub node_id: String,
    pub status: String,
    pub error: Option<String>,
}

/// What a resolved discovery record carries: its text properties, its first
/// address and its port.
#[derive(Debug, Clone)]
pub struct DiscoveryRecord {
    pub node_id: Option<String>,
    pub role: Option<String>,
    pub version: Option<String>,
    pub address: Option<String>,
    pub port: u16,
}

/// A network interface of this machine.
#[derive(Debug, Clone)]
pub struct NetInterface {
    pub address: String,
    pub is_loopback: bool,
    pub is_ipv4: bool,
}

} // verus!
