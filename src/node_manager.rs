use vstd::prelude::*;

use crate::clock::unix_millis;
use crate::command_bus::NodeCommand;
use crate::error::{is_not_found, CoreError};
use crate::keyed::{find_key, key_map, Keyed, lemma_key_map_at, lemma_key_map_pointwise, lemma_key_map_update, remove_key, unique_keys, upsert};
use crate::node::{DiscoveryRecord, NetInterface, NodeCapability, NodeConfig, NodeHeartbeat, NodeInfo, NodeRegistration, NodeRole};
use crate::text::{contains_seq, contains_text, is_leading_token, joined, leading_token, lower_of, lowercase};

verus! {

/// A node whose last heartbeat is more than this many seconds old is offline.
pub const NODE_TIMEOUT_SECS: u64 = 5;

/// What the registry reports to its subscribers.
#[derive(Debug, Clone)]
pub enum NodeEvent {
    NodeDiscovered(NodeInfo),
    NodeConnected(String),
    NodeDisconnected(String),
    NodeHeartbeat(NodeHeartbeat),
    CommandReceived(NodeCommand),
}

/// One text property of a discovery record.
#[derive(Debug, Clone)]
pub struct ServiceProperty {
    pub key: String,
    pub value: String,
}

/// The discovery record a node publishes about itself.
#[derive(Debug, Clone)]
pub struct Advertisement {
    pub service_type: String,
    pub instance_name: String,
    pub host_name: String,
    pub port: u16,
    pub properties: Vec<ServiceProperty>,
}

/// The heartbeat of `n` is more than `NODE_TIMEOUT_SECS` older than `now`.
pub open spec fn is_stale(n: NodeInfo, now: u64) -> bool {
    now as int - n.last_heartbeat as int > NODE_TIMEOUT_SECS as int
}

/// A health sweep at `now` takes `n` offline.
pub open spec fn goes_offline(n: NodeInfo, now: u64) -> bool {
    n.online && is_stale(n, now)
}

pub open spec fn swept(n: NodeInfo, now: u64) -> NodeInfo {
    if goes_offline(n, now) {
        NodeInfo { online: false, ..n }
    } else {
        n
    }
}

/// The events of a sweep at `now` over `s`: one disconnection per node
/// taken offline, in order.
pub open spec fn sweep_events(s: Seq<NodeInfo>, now: u64) -> Seq<NodeEvent>
    decreases s.len(),
{
    if s.len() == 0 {
        Seq::empty()
    } else {
        sweep_events(s.drop_last(), now) + if goes_offline(s.last(), now) {
            seq![NodeEvent::NodeDisconnected(s.last().node_id)]
        } else {
            Seq::empty()
        }
    }
}

/// Number of disconnection events for `id` in `s`.
pub open spec fn disconnects_of(s: Seq<NodeEvent>, id: Seq<char>) -> nat
    decreases s.len(),
{
    if s.len() == 0 {
        0
    } else {
        disconnects_of(s.drop_last(), id) + match s.last() {
            NodeEvent::NodeDisconnected(n) => if n@ == id {
                1nat
            } else {
                0nat
            },
            _ => 0nat,
        }
    }
}

/// `new` is `old` with one disconnection event for `id` appended.
pub open spec fn appends_disconnect(old: Seq<NodeEvent>, new: Seq<NodeEvent>, id: Seq<char>) -> bool {
    &&& new.len() == old.len() + 1
    &&& new.drop_last() == old
    &&& new.last() matches NodeEvent::NodeDisconnected(n) && n@ == id
}

/// The entry a registration creates at `now`: a receiver with no address
/// yet, online.
pub open spec fn is_registered_entry(n: NodeInfo, reg: NodeRegistration, now: u64) -> bool {
    &&& n.node_id == reg.node_id
    &&& n.role == NodeRole::Receiver
    &&& n.ip_address@.len() == 0
    &&& n.port == 0
    &&& n.capabilities == reg.capabilities
    &&& n.universes@ == reg.universes@
    &&& n.last_heartbeat == now
    &&& n.online
    &&& n.version == reg.version
}

/// The role a discovery record's lowercased role text stands for: master
/// if it contains `master`, receiver otherwise.
pub open spec fn role_of_folded(folded: Seq<char>) -> NodeRole {
    if contains_seq(folded, "master"@) {
        NodeRole::Master
    } else {
        NodeRole::Receiver
    }
}

/// The record has every property and an address.
pub open spec fn is_complete_record(r: DiscoveryRecord) -> bool {
    r.node_id is Some && r.role is Some && r.version is Some && r.address is Some
}

/// The entry a complete discovery record gives at `now`.
pub open spec fn is_discovered_entry(n: NodeInfo, r: DiscoveryRecord, now: u64) -> bool {
    &&& n.node_id@ == r.node_id->0@
    &&& n.role == role_of_folded(lower_of(r.role->0@))
    &&& n.ip_address@ == r.address->0@
    &&& n.port == r.port
    &&& n.capabilities == NodeCapability::spec_default()
    &&& n.universes@.len() == 0
    &&& n.last_heartbeat == now
    &&& n.online
    &&& n.version@ == r.version->0@
}

/// An interface that can carry this node's advertisement.
pub open spec fn is_usable(i: NetInterface) -> bool {
    !i.is_loopback && i.is_ipv4
}

/// The name `Debug` gives a role.
pub open spec fn role_text(role: NodeRole) -> Seq<char> {
    match role {
        NodeRole::Master => "Master"@,
        NodeRole::Receiver => "Receiver"@,
    }
}

/// The known nodes, keyed by id, the local node's settings, and the events
/// not yet handed to subscribers.
pub struct NodeManager {
    config: NodeConfig,
    nodes: Vec<NodeInfo>,
    events: Vec<NodeEvent>,
}

impl NodeManager {
    pub closed spec fn config_view(&self) -> NodeConfig {
        self.config
    }

    pub closed spec fn nodes_view(&self) -> Seq<NodeInfo> {
        self.nodes@
    }

    pub closed spec fn events_view(&self) -> Seq<NodeEvent> {
        self.events@
    }

    pub open spec fn node_map(&self) -> Map<Seq<char>, NodeInfo> {
        key_map(self.nodes_view())
    }

    /// Node ids are unique.
    pub open spec fn wf(&self) -> bool {
        unique_keys(self.nodes_view())
    }

    pub fn new(config: NodeConfig) -> (r: Result<Self, CoreError>)
        ensures
            r matches Ok(m) && {
                &&& m.wf()
                &&& m.config_view() == config
                &&& m.node_map().is_empty()
                &&& m.events_view().len() == 0
            },
    {
        let m = NodeManager { config, nodes: Vec::new(), events: Vec::new() };
        assert(m.node_map() =~= Map::empty());
        Ok(m)
    }

    pub fn get_config(&self) -> (r: &NodeConfig)
        ensures
            *r == self.config_view(),
    {
        &self.config
    }

    pub fn update_config(&mut self, new_config: NodeConfig) -> (r: Result<(), CoreError>)
        requires
            old(self).wf(),
        ensures
            r is Ok,
            final(self).wf(),
            final(self).config_view() == new_config,
            final(self).nodes_view() == old(self).nodes_view(),
            final(self).events_view() == old(self).events_view(),
    {
        self.config = new_config;
        Ok(())
    }

    /// Whether peers are to be discovered: discovery is a no-op when the
    /// local settings turn it off.
    pub fn wants_discovery(&self) -> (r: bool)
        ensures
            r == self.config_view().auto_discover,
    {
        self.config.auto_discover
    }

    /// Hands out the pending events, oldest first, and forgets them.
    pub fn drain_events(&mut self) -> (r: Vec<NodeEvent>)
        requires
            old(self).wf(),
        ensures
            final(self).wf(),
            r@ == old(self).events_view(),
            final(self).events_view().len() == 0,
            final(self).nodes_view() == old(self).nodes_view(),
            final(self).config_view() == old(self).config_view(),
    {
        let mut out: Vec<NodeEvent> = Vec::new();
        std::mem::swap(&mut out, &mut self.events);
        out
    }

    /// Adds or replaces a receiver from its registration, as heard from at
    /// `now` (Unix seconds). Only a master registers nodes.
    /// What registering at `now` (Unix seconds) does: a non-master refuses
    /// and changes nothing; a master adds or replaces the receiver's entry
    /// and reports it connected.
    pub open spec fn register_post(
        old: NodeManager,
        new: NodeManager,
        registration: NodeRegistration,
        now: u64,
        r: Result<String, CoreError>,
    ) -> bool {
        &&& new.wf()
        &&& new.config_view() == old.config_view()
        &&& if old.config_view().role != NodeRole::Master {
            &&& r == Err::<String, CoreError>(CoreError::PermissionDenied)
            &&& new.nodes_view() == old.nodes_view()
            &&& new.events_view() == old.events_view()
        } else {
            let id = registration.node_id@;
            &&& r is Ok
            &&& r->Ok_0@ == "Node "@ + id + " registered successfully"@
            &&& new.node_map().contains_key(id)
            &&& is_registered_entry(new.node_map()[id], registration, now)
            &&& new.node_map() == old.node_map().insert(id, new.node_map()[id])
            &&& new.events_view() == old.events_view().push(
                NodeEvent::NodeConnected(registration.node_id),
            )
        }
    }

    pub fn register_node_at(&mut self, registration: NodeRegistration, now: u64) -> (r: Result<String, CoreError>)
        requires
            old(self).wf(),
        ensures
            Self::register_post(*old(self), *final(self), registration, now, r),
    {
        if self.config.role != NodeRole::Master {
            return Err(CoreError::PermissionDenied);
        }
        let event_id = registration.node_id.clone();
        let message = joined("Node ", registration.node_id.as_str(), " registered successfully");
        let node = NodeInfo {
            node_id: registration.node_id,
            role: NodeRole::Receiver,
            ip_address: String::new(),
            port: 0,
            capabilities: registration.capabilities,
            universes: registration.universes,
            last_heartbeat: now,
            online: true,
            version: registration.version,
        };
        let ghost entry = node;
        upsert(&mut self.nodes, node);
        proof {
            assert(self.node_map().contains_key(entry.node_id@));
        }
        self.events.push(NodeEvent::NodeConnected(event_id));
        Ok(message)
    }

    /// Registers as `register_node_at` does, at the current time.
    pub fn register_node(&mut self, registration: NodeRegistration) -> (r: Result<String, CoreError>)
        requires
            old(self).wf(),
        ensures
            exists|now: u64| #[trigger] Self::register_post(*old(self), *final(self), registration, now, r),
    {
        let now = unix_millis() / 1000;
        self.register_node_at(registration, now)
    }

    /// Removes the node with `node_id`.
    pub fn unregister_node(&mut self, node_id: &str) -> (r: Result<String, CoreError>)
        requires
            old(self).wf(),
        ensures
            final(self).wf(),
            final(self).config_view() == old(self).config_view(),
            if old(self).node_map().contains_key(node_id@) {
                &&& r is Ok
                &&& r->Ok_0@ == "Node "@ + node_id@ + " unregistered"@
                &&& final(self).node_map() == old(self).node_map().remove(node_id@)
                &&& appends_disconnect(old(self).events_view(), final(self).events_view(), node_id@)
            } else {
                &&& is_not_found(r, node_id@)
                &&& final(self).nodes_view() == old(self).nodes_view()
                &&& final(self).events_view() == old(self).events_view()
            },
    {
        let key = node_id.to_owned();
        let ghost before = self.nodes@;
        match remove_key(&mut self.nodes, &key) {
            Some(_) => {
                let ghost old_events = self.events@;
                self.events.push(NodeEvent::NodeDisconnected(key));
                assert(self.events@.drop_last() =~= old_events);
                Ok(joined("Node ", node_id, " unregistered"))
            },
            None => {
                Err(CoreError::NotFound(node_id.to_owned()))
            },
        }
    }

    /// Every node, in no particular order.
    pub fn get_all_nodes(&self) -> (r: Vec<&NodeInfo>)
        requires
            self.wf(),
        ensures
            r@.len() == self.nodes_view().len(),
            forall|i: int| 0 <= i < r@.len() ==> *r@[i] == self.nodes_view()[i],
    {
        let mut r: Vec<&NodeInfo> = Vec::new();
        let mut i: usize = 0;
        while i < self.nodes.len()
            invariant
                i <= self.nodes@.len(),
                r@.len() == i,
                forall|j: int| 0 <= j < i ==> *r@[j] == self.nodes@[j],
            decreases self.nodes@.len() - i,
        {
            r.push(&self.nodes[i]);
            i += 1;
        }
        r
    }

    pub fn get_node(&self, node_id: &str) -> (r: Result<&NodeInfo, CoreError>)
        requires
            self.wf(),
        ensures
            match r {
                Ok(n) => self.node_map().contains_key(node_id@) && *n == self.node_map()[node_id@],
                Err(_) => !self.node_map().contains_key(node_id@) && is_not_found(r, node_id@),
            },
    {
        let key = node_id.to_owned();
        match find_key(&self.nodes, &key) {
            Some(i) => {
                proof {
                    lemma_key_map_at(self.nodes@, i as int);
                }
                Ok(&self.nodes[i])
            },
            None => Err(CoreError::NotFound(key)),
        }
    }

    /// Records a heartbeat of a known node: its time becomes the node's last
    /// heartbeat and the node is online. Heartbeats never create nodes.
    pub fn update_heartbeat(&mut self, heartbeat: NodeHeartbeat) -> (r: Result<(), CoreError>)
        requires
            old(self).wf(),
        ensures
            final(self).wf(),
            final(self).config_view() == old(self).config_view(),
            if old(self).node_map().contains_key(heartbeat.node_id@) {
                let id = heartbeat.node_id@;
                &&& r is Ok
                &&& final(self).node_map() == old(self).node_map().insert(
                    id,
                    NodeInfo {
                        last_heartbeat: heartbeat.timestamp,
                        online: true,
                        ..old(self).node_map()[id]
                    },
                )
                &&& final(self).events_view() == old(self).events_view().push(
                    NodeEvent::NodeHeartbeat(heartbeat),
                )
            } else {
                &&& is_not_found(r, heartbeat.node_id@)
                &&& final(self).nodes_view() == old(self).nodes_view()
                &&& final(self).events_view() == old(self).events_view()
            },
    {
        match find_key(&self.nodes, &heartbeat.node_id) {
            Some(i) => {
                let ghost before = self.nodes@;
                proof {
                    lemma_key_map_at(before, i as int);
                }
                self.nodes[i].last_heartbeat = heartbeat.timestamp;
                self.nodes[i].online = true;
                proof {
                    lemma_key_map_update(before, i as int, self.nodes@[i as int]);
                    assert(self.nodes@ == before.update(i as int, self.nodes@[i as int]));
                }
                self.events.push(NodeEvent::NodeHeartbeat(heartbeat));
                Ok(())
            },
            None => Err(CoreError::NotFound(heartbeat.node_id)),
        }
    }

    /// Takes offline, at `now` (Unix seconds), every online node whose last
    /// heartbeat is more than `NODE_TIMEOUT_SECS` old, with one disconnection
    /// event each. Nodes are never removed.
    pub fn check_node_health_at(&mut self, now: u64) -> (r: Result<(), CoreError>)
        requires
            old(self).wf(),
        ensures
            r is Ok,
            final(self).wf(),
            final(self).config_view() == old(self).config_view(),
            final(self).node_map() == old(self).node_map().map_values(|n: NodeInfo| swept(n, now)),
            final(self).events_view() == old(self).events_view() + sweep_events(
                old(self).nodes_view(),
                now,
            ),
    {
        let ghost before = self.nodes@;
        let ghost events_before = self.events@;
        let n = self.nodes.len();
        let mut i: usize = 0;
        while i < n
            invariant
                n == before.len(),
                self.nodes@.len() == n,
                i <= n,
                before == old(self).nodes@,
                events_before == old(self).events@,
                self.config == old(self).config,
                forall|j: int| 0 <= j < i ==> #[trigger] self.nodes@[j] == swept(before[j], now),
                forall|j: int| i <= j < n ==> #[trigger] self.nodes@[j] == before[j],
                self.events@ == events_before + sweep_events(before.subrange(0, i as int), now),
            decreases n - i,
        {
            proof {
                assert(before.subrange(0, i + 1).drop_last() =~= before.subrange(0, i as int));
                assert(before.subrange(0, i + 1).last() == before[i as int]);
            }
            let last = self.nodes[i].last_heartbeat;
            if self.nodes[i].online && now >= last && now - last > NODE_TIMEOUT_SECS {
                self.nodes[i].online = false;
                let id = self.nodes[i].node_id.clone();
                self.events.push(NodeEvent::NodeDisconnected(id));
                proof {
                    assert(self.events@ =~= events_before + sweep_events(before.subrange(0, i + 1), now));
                }
            } else {
                proof {
                    assert(self.events@ =~= events_before + sweep_events(before.subrange(0, i + 1), now));
                }
            }
            i += 1;
        }
        proof {
            assert(before.subrange(0, n as int) =~= before);
            let f = |x: NodeInfo| swept(x, now);
            assert forall|j: int| 0 <= j < before.len() implies #[trigger] self.nodes@[j] == f(before[j]) by {}
            lemma_key_map_pointwise(before, self.nodes@, f);
        }
        Ok(())
    }

    pub fn check_node_health(&mut self) -> (r: Result<(), CoreError>)
        requires
            old(self).wf(),
        ensures
            r is Ok,
            final(self).wf(),
            exists|now: u64|
                final(self).node_map() == old(self).node_map().map_values(
                    |n: NodeInfo| swept(n, now),
                ) && final(self).events_view() == old(self).events_view() + #[trigger] sweep_events(
                    old(self).nodes_view(),
                    now,
                ),
    {
        let now = unix_millis() / 1000;
        self.check_node_health_at(now)
    }

    /// The role named by lowercased role text.
    pub fn role_from_folded(folded: &str) -> (r: NodeRole)
        ensures
            r == role_of_folded(folded@),
    {
        if contains_text(folded, "master") {
            NodeRole::Master
        } else {
            NodeRole::Receiver
        }
    }

    /// The role named by a discovery record's role text, compared without
    /// regard to case.
    pub fn infer_role(role: &str) -> (r: NodeRole)
        ensures
            r == role_of_folded(lower_of(role@)),
    {
        let folded = lowercase(role);
        Self::role_from_folded(folded.as_str())
    }

    /// The entry for a resolved discovery record heard at `now` (Unix
    /// seconds), if it has every property and an address.
    pub fn parse_service_info(record: &DiscoveryRecord, now: u64) -> (r: Option<NodeInfo>)
        ensures
            match r {
                Some(n) => is_complete_record(*record) && is_discovered_entry(n, *record, now),
                None => !is_complete_record(*record),
            },
    {
        let node_id = match &record.node_id {
            Some(v) => v.clone(),
            None => {
                return None;
            },
        };
        let role = match &record.role {
            Some(v) => Self::infer_role(v.as_str()),
            None => {
                return None;
            },
        };
        let version = match &record.version {
            Some(v) => v.clone(),
            None => {
                return None;
            },
        };
        let ip_address = match &record.address {
            Some(v) => v.clone(),
            None => {
                return None;
            },
        };
        Some(NodeInfo {
            node_id,
            role,
            ip_address,
            port: record.port,
            capabilities: NodeCapability::default(),
            universes: Vec::new(),
            last_heartbeat: now,
            online: true,
            version,
        })
    }

    /// The node id in a removed record's full name: its first `.`-separated
    /// part.
    pub fn extract_node_id(full_name: &str) -> (r: Option<String>)
        ensures
            r matches Some(id) && is_leading_token(id@, full_name@, '.'),
    {
        Some(leading_token(full_name, '.'))
    }

    /// Takes in a resolved discovery record heard at `now`: a complete one
    /// adds or replaces its node and is reported; others change nothing.
    pub fn handle_service_resolved(&mut self, record: &DiscoveryRecord, now: u64)
        requires
            old(self).wf(),
        ensures
            final(self).wf(),
            final(self).config_view() == old(self).config_view(),
            if is_complete_record(*record) {
                let id = record.node_id->0@;
                &&& final(self).node_map().contains_key(id)
                &&& is_discovered_entry(final(self).node_map()[id], *record, now)
                &&& final(self).node_map() == old(self).node_map().insert(id, final(self).node_map()[id])
                &&& final(self).events_view().len() == old(self).events_view().len() + 1
                &&& final(self).events_view().drop_last() == old(self).events_view()
                &&& final(self).events_view().last() matches NodeEvent::NodeDiscovered(n)
                    && is_discovered_entry(n, *record, now)
            } else {
                &&& final(self).nodes_view() == old(self).nodes_view()
                &&& final(self).events_view() == old(self).events_view()
            },
    {
        match Self::parse_service_info(record, now) {
            Some(info) => {
                let reported = info.duplicate();
                let ghost entry = info;
                upsert(&mut self.nodes, info);
                proof {
                    assert(self.node_map().contains_key(entry.node_id@));
                }
                let ghost old_events = self.events@;
                self.events.push(NodeEvent::NodeDiscovered(reported));
                assert(self.events@.drop_last() =~= old_events);
            },
            None => {},
        }
    }

    /// Takes in the removal of a discovery record: the node named by the
    /// first part of `full_name` is removed, and its disconnection reported
    /// whether or not it was known.
    pub fn handle_service_removed(&mut self, full_name: &str)
        requires
            old(self).wf(),
        ensures
            final(self).wf(),
            final(self).config_view() == old(self).config_view(),
            exists|id: Seq<char>|
                #[trigger] is_leading_token(id, full_name@, '.') && final(self).node_map() == old(self).node_map().remove(id) && appends_disconnect(
                    old(self).events_view(),
                    final(self).events_view(),
                    id,
                ),
    {
        if let Some(id) = Self::extract_node_id(full_name) {
            let _ = remove_key(&mut self.nodes, &id);
            let ghost old_events = self.events@;
            let ghost key = id@;
            self.events.push(NodeEvent::NodeDisconnected(id));
            assert(self.events@.drop_last() =~= old_events);
            assert(is_leading_token(key, full_name@, '.'));
        }
    }

    /// The record this node advertises: fixed service type, instance
    /// `RoControl-<node_id>`, host `<instance>.local.`, the listen port, and
    /// the properties `node_id`, `role` and `version`.
    pub fn advertisement(&self, version: &str) -> (r: Advertisement)
        ensures
            r.service_type@ == "_rocontrol._tcp.local."@,
            r.instance_name@ == "RoControl-"@ + self.config_view().node_id@,
            r.host_name@ == r.instance_name@ + ".local."@,
            r.port == self.config_view().listen_port,
            r.properties@.len() == 3,
            r.properties@[0].key@ == "node_id"@,
            r.properties@[0].value@ == self.config_view().node_id@,
            r.properties@[1].key@ == "role"@,
            r.properties@[1].value@ == role_text(self.config_view().role),
            r.properties@[2].key@ == "version"@,
            r.properties@[2].value@ == version@,
    {
        let instance_name = joined("RoControl-", self.config.node_id.as_str(), "");
        let host_name = joined(instance_name.as_str(), ".local.", "");
        let role = match self.config.role {
            NodeRole::Master => "Master".to_owned(),
            NodeRole::Receiver => "Receiver".to_owned(),
        };
        let mut properties: Vec<ServiceProperty> = Vec::new();
        properties.push(ServiceProperty { key: "node_id".to_owned(), value: self.config.node_id.clone() });
        properties.push(ServiceProperty { key: "role".to_owned(), value: role });
        properties.push(ServiceProperty { key: "version".to_owned(), value: version.to_owned() });
        proof {
            reveal_strlit("");
        }
        Advertisement {
            service_type: "_rocontrol._tcp.local.".to_owned(),
            instance_name,
            host_name,
            port: self.config.listen_port,
            properties,
        }
    }

    /// The address of the first interface that is not loopback and is IPv4.
    pub fn select_local_address(interfaces: &Vec<NetInterface>) -> (r: Result<String, CoreError>)
        ensures
            match r {
                Ok(a) => exists|i: int|
                    0 <= i < interfaces@.len() && is_usable(#[trigger] interfaces@[i]) && a@
                        == interfaces@[i].address@ && forall|j: int|
                        0 <= j < i ==> !is_usable(#[trigger] interfaces@[j]),
                Err(e) => e matches CoreError::NetworkFailure(_) && forall|j: int|
                    0 <= j < interfaces@.len() ==> !is_usable(#[trigger] interfaces@[j]),
            },
    {
        let mut i: usize = 0;
        while i < interfaces.len()
            invariant
                i <= interfaces@.len(),
                forall|j: int| 0 <= j < i ==> !is_usable(#[trigger] interfaces@[j]),
            decreases interfaces@.len() - i,
        {
            if !interfaces[i].is_loopback && interfaces[i].is_ipv4 {
                return Ok(interfaces[i].address.clone());
            }
            i += 1;
        }
        Err(CoreError::NetworkFailure("No suitable network interface found".to_owned()))
    }
}

/// Once a sweep takes a node offline, later sweeps leave it alone until a
/// heartbeat brings it back: no second disconnection.
pub proof fn lemma_sweep_flips_once(n: NodeInfo, t1: u64, t2: u64)
    ensures
        goes_offline(n, t1) ==> !swept(n, t1).online && !goes_offline(swept(n, t1), t2),
        swept(n, t1).node_id == n.node_id,
{
}

/// A sweep reports exactly one disconnection for a node it takes offline,
/// and none for any other node.
pub proof fn lemma_sweep_reports_once(s: Seq<NodeInfo>, now: u64, id: Seq<char>)
    requires
        unique_keys(s),
    ensures
        disconnects_of(sweep_events(s, now), id) == if key_map(s).contains_key(id) && goes_offline(
            key_map(s)[id],
            now,
        ) {
            1nat
        } else {
            0nat
        },
    decreases s.len(),
{
    if s.len() > 0 {
        let init = s.drop_last();
        assert(unique_keys(init)) by {
            assert forall|a: int, b: int|
                0 <= a < init.len() && 0 <= b < init.len() && a != b implies #[trigger] init[a].spec_key()
                != #[trigger] init[b].spec_key() by {
                assert(init[a] == s[a] && init[b] == s[b]);
            }
        }
        lemma_sweep_reports_once(init, now, id);
        let tail = if goes_offline(s.last(), now) {
            seq![NodeEvent::NodeDisconnected(s.last().node_id)]
        } else {
            Seq::<NodeEvent>::empty()
        };
        lemma_disconnects_concat(sweep_events(init, now), tail, id);
        assert(sweep_events(s, now) == sweep_events(init, now) + tail);
        let last = s.last();
        if tail.len() > 0 {
            assert(tail.drop_last() =~= Seq::<NodeEvent>::empty());
            assert(disconnects_of(Seq::<NodeEvent>::empty(), id) == 0);
            assert(tail.last() == NodeEvent::NodeDisconnected(last.node_id));
            assert(disconnects_of(tail, id) == if last.node_id@ == id { 1nat } else { 0nat });
        } else {
            assert(disconnects_of(tail, id) == 0);
        }
        lemma_key_map_at(s, s.len() - 1);
        assert(s[s.len() - 1] == last);
        if last.node_id@ == id {
            assert(!crate::keyed::has_key(init, id)) by {
                if crate::keyed::has_key(init, id) {
                    let j = choose|j: int| 0 <= j < init.len() && #[trigger] init[j].spec_key() == id;
                    assert(s[j].spec_key() == s[s.len() - 1].spec_key());
                }
            }
            assert(!key_map(init).contains_key(id));
            assert(key_map(s).contains_key(id) && key_map(s)[id] == last);
        } else {
            assert(disconnects_of(tail, id) == 0);
            if crate::keyed::has_key(s, id) {
                let j = choose|j: int| 0 <= j < s.len() && #[trigger] s[j].spec_key() == id;
                assert(j != s.len() - 1);
                assert(init[j] == s[j]);
                lemma_key_map_at(s, j);
                lemma_key_map_at(init, j);
                assert(key_map(s).contains_key(id) && key_map(init).contains_key(id));
                assert(key_map(s)[id] == key_map(init)[id]);
            } else {
                assert(!key_map(s).contains_key(id));
                if crate::keyed::has_key(init, id) {
                    let j = choose|j: int| 0 <= j < init.len() && #[trigger] init[j].spec_key() == id;
                    assert(init[j] == s[j]);
                    assert(crate::keyed::has_key(s, id));
                }
                assert(!key_map(init).contains_key(id));
            }
        }
    }
}

/// A node that falls silent is reported offline exactly once: the sweep at
/// `t1` that takes it offline reports it once, stays in the registry, and a
/// later sweep at `t2` over the registry that sweep left reports it no more.
pub proof fn lemma_offline_reported_once(
    before: Seq<NodeInfo>,
    after: Seq<NodeInfo>,
    id: Seq<char>,
    t1: u64,
    t2: u64,
)
    requires
        unique_keys(before),
        unique_keys(after),
        key_map(after) == key_map(before).map_values(|n: NodeInfo| swept(n, t1)),
        key_map(before).contains_key(id),
        goes_offline(key_map(before)[id], t1),
    ensures
        disconnects_of(sweep_events(before, t1), id) == 1,
        key_map(after).contains_key(id),
        !key_map(after)[id].online,
        disconnects_of(sweep_events(after, t2), id) == 0,
{
    lemma_sweep_reports_once(before, t1, id);
    lemma_sweep_reports_once(after, t2, id);
}

proof fn lemma_disconnects_concat(a: Seq<NodeEvent>, b: Seq<NodeEvent>, id: Seq<char>)
    ensures
        disconnects_of(a + b, id) == disconnects_of(a, id) + disconnects_of(b, id),
    decreases b.len(),
{
    if b.len() == 0 {
        assert(a + b =~= a);
    } else {
        assert((a + b).drop_last() =~= a + b.drop_last());
        lemma_disconnects_concat(a, b.drop_last(), id);
    }
}

} // verus!
