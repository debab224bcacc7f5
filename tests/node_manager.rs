use rocontrol::error::CoreError;
use rocontrol::node::{DiscoveryRecord, NetInterface, NodeCapability, NodeConfig, NodeHeartbeat, NodeRegistration, NodeRole};
use rocontrol::node_manager::{NodeEvent, NodeManager};

fn config(role: NodeRole) -> NodeConfig {
    NodeConfig {
        role,
        node_id: "local".to_string(),
        listen_port: 9000,
        master_ip: None,
        master_port: None,
        local_universes: Vec::new(),
        capabilities: NodeCapability::default(),
        auto_discover: true,
    }
}

fn registration(id: &str) -> NodeRegistration {
    NodeRegistration {
        node_id: id.to_string(),
        capabilities: NodeCapability { dmx_output: true, media_playback: true, input_processing: false },
        universes: vec![1, 2],
        version: "1.0".to_string(),
    }
}

fn heartbeat(id: &str, timestamp: u64) -> NodeHeartbeat {
    NodeHeartbeat { node_id: id.to_string(), timestamp }
}

#[test]
fn receiver_cannot_register_nodes() {
    let mut m = NodeManager::new(config(NodeRole::Receiver)).unwrap();
    assert_eq!(m.register_node_at(registration("A"), 0), Err(CoreError::PermissionDenied));
    assert_eq!(m.register_node(registration("B")), Err(CoreError::PermissionDenied));
    assert!(m.get_all_nodes().is_empty());
    assert!(m.drain_events().is_empty());
}

#[test]
fn master_registers_receivers() {
    let mut m = NodeManager::new(config(NodeRole::Master)).unwrap();
    let r = m.register_node_at(registration("A"), 100);
    assert_eq!(r, Ok("Node A registered successfully".to_string()));
    let n = m.get_node("A").unwrap();
    assert_eq!(n.role, NodeRole::Receiver);
    assert_eq!(n.ip_address, "");
    assert_eq!(n.port, 0);
    assert_eq!(n.universes, vec![1, 2]);
    assert!(n.online);
    assert_eq!(n.last_heartbeat, 100);
    let events = m.drain_events();
    assert_eq!(events.len(), 1);
    assert!(matches!(&events[0], NodeEvent::NodeConnected(id) if id == "A"));
    assert!(m.drain_events().is_empty());
}

#[test]
fn heartbeat_for_unknown_node_fails() {
    let mut m = NodeManager::new(config(NodeRole::Master)).unwrap();
    assert_eq!(m.update_heartbeat(heartbeat("ghost", 5)), Err(CoreError::NotFound("ghost".to_string())));
    assert!(m.get_node("ghost").is_err());
    assert!(m.get_all_nodes().is_empty());
    assert!(m.drain_events().is_empty());
}

#[test]
fn silent_node_goes_offline_once() {
    let mut m = NodeManager::new(config(NodeRole::Master)).unwrap();
    m.register_node_at(registration("A"), 0).unwrap();
    for t in 1..=5u64 {
        m.update_heartbeat(heartbeat("A", t)).unwrap();
    }
    m.drain_events();
    m.check_node_health_at(6).unwrap();
    assert!(m.get_node("A").unwrap().online);
    m.check_node_health_at(10).unwrap();
    assert!(m.get_node("A").unwrap().online);
    m.check_node_health_at(11).unwrap();
    assert!(!m.get_node("A").unwrap().online);
    m.check_node_health_at(30).unwrap();
    let events = m.drain_events();
    assert_eq!(events.len(), 1);
    assert!(matches!(&events[0], NodeEvent::NodeDisconnected(id) if id == "A"));
    assert_eq!(m.get_all_nodes().len(), 1);
    m.update_heartbeat(heartbeat("A", 31)).unwrap();
    assert!(m.get_node("A").unwrap().online);
}

#[test]
fn heartbeat_from_the_future_is_not_stale() {
    let mut m = NodeManager::new(config(NodeRole::Master)).unwrap();
    m.register_node_at(registration("A"), 0).unwrap();
    m.update_heartbeat(heartbeat("A", 1000)).unwrap();
    m.check_node_health_at(10).unwrap();
    assert!(m.get_node("A").unwrap().online);
}

#[test]
fn unregister_removes_and_reports() {
    let mut m = NodeManager::new(config(NodeRole::Master)).unwrap();
    m.register_node_at(registration("A"), 0).unwrap();
    m.drain_events();
    assert_eq!(m.unregister_node("A"), Ok("Node A unregistered".to_string()));
    assert_eq!(m.unregister_node("A"), Err(CoreError::NotFound("A".to_string())));
    let events = m.drain_events();
    assert_eq!(events.len(), 1);
    assert!(matches!(&events[0], NodeEvent::NodeDisconnected(id) if id == "A"));
}

#[test]
fn config_can_be_replaced() {
    let mut m = NodeManager::new(config(NodeRole::Master)).unwrap();
    assert_eq!(m.get_config().role, NodeRole::Master);
    m.update_config(config(NodeRole::Receiver)).unwrap();
    assert_eq!(m.get_config().role, NodeRole::Receiver);
    assert_eq!(m.register_node_at(registration("A"), 0), Err(CoreError::PermissionDenied));
}

#[test]
fn default_config_is_a_discovering_master() {
    let c = NodeConfig::default();
    assert_eq!(c.role, NodeRole::Master);
    assert!(c.node_id.starts_with("rocontrol-"));
    assert_eq!(c.node_id.len(), 18);
    assert_eq!(c.listen_port, 9000);
    assert!(c.auto_discover);
    assert_eq!(c.capabilities, NodeCapability { dmx_output: true, media_playback: false, input_processing: false });
}

fn record(role: &str) -> DiscoveryRecord {
    DiscoveryRecord {
        node_id: Some("n1".to_string()),
        role: Some(role.to_string()),
        version: Some("2.0".to_string()),
        address: Some("10.0.0.5".to_string()),
        port: 9000,
    }
}

#[test]
fn role_inference_ignores_case() {
    assert_eq!(NodeManager::infer_role("MASTER"), NodeRole::Master);
    assert_eq!(NodeManager::infer_role("Grandmaster"), NodeRole::Master);
    assert_eq!(NodeManager::infer_role("Receiver"), NodeRole::Receiver);
    assert_eq!(NodeManager::infer_role(""), NodeRole::Receiver);
    assert_eq!(NodeManager::role_from_folded("MASTER"), NodeRole::Receiver);
}

#[test]
fn service_info_needs_every_property() {
    let n = NodeManager::parse_service_info(&record("Master"), 42).unwrap();
    assert_eq!(n.node_id, "n1");
    assert_eq!(n.role, NodeRole::Master);
    assert_eq!(n.ip_address, "10.0.0.5");
    assert_eq!(n.port, 9000);
    assert_eq!(n.version, "2.0");
    assert_eq!(n.last_heartbeat, 42);
    assert!(n.online && n.universes.is_empty());
    let mut r = record("Receiver");
    r.version = None;
    assert!(NodeManager::parse_service_info(&r, 0).is_none());
    let mut r = record("Receiver");
    r.address = None;
    assert!(NodeManager::parse_service_info(&r, 0).is_none());
}

#[test]
fn node_id_is_first_part_of_full_name() {
    assert_eq!(NodeManager::extract_node_id("RoControl-a._rocontrol._tcp.local."), Some("RoControl-a".to_string()));
    assert_eq!(NodeManager::extract_node_id("plain"), Some("plain".to_string()));
    assert_eq!(NodeManager::extract_node_id(".x"), Some("".to_string()));
}

#[test]
fn discovery_events_update_the_registry() {
    let mut m = NodeManager::new(config(NodeRole::Master)).unwrap();
    m.handle_service_resolved(&record("master"), 7);
    assert_eq!(m.get_node("n1").unwrap().role, NodeRole::Master);
    let mut bad = record("x");
    bad.node_id = None;
    m.handle_service_resolved(&bad, 8);
    assert_eq!(m.get_all_nodes().len(), 1);
    m.handle_service_removed("n1._rocontrol._tcp.local.");
    assert!(m.get_node("n1").is_err());
    m.handle_service_removed("other.local.");
    let events = m.drain_events();
    assert_eq!(events.len(), 3);
    assert!(matches!(&events[0], NodeEvent::NodeDiscovered(n) if n.node_id == "n1"));
    assert!(matches!(&events[1], NodeEvent::NodeDisconnected(id) if id == "n1"));
    assert!(matches!(&events[2], NodeEvent::NodeDisconnected(id) if id == "other"));
}

#[test]
fn advertisement_names_the_node() {
    let m = NodeManager::new(config(NodeRole::Receiver)).unwrap();
    let ad = m.advertisement("0.3.1");
    assert_eq!(ad.service_type, "_rocontrol._tcp.local.");
    assert_eq!(ad.instance_name, "RoControl-local");
    assert_eq!(ad.host_name, "RoControl-local.local.");
    assert_eq!(ad.port, 9000);
    let props: Vec<(String, String)> = ad.properties.iter().map(|p| (p.key.clone(), p.value.clone())).collect();
    assert_eq!(
        props,
        vec![
            ("node_id".to_string(), "local".to_string()),
            ("role".to_string(), "Receiver".to_string()),
            ("version".to_string(), "0.3.1".to_string()),
        ]
    );
}

#[test]
fn local_address_skips_loopback_and_ipv6() {
    let ifaces = vec![
        NetInterface { address: "127.0.0.1".to_string(), is_loopback: true, is_ipv4: true },
        NetInterface { address: "fe80::1".to_string(), is_loopback: false, is_ipv4: false },
        NetInterface { address: "192.168.1.20".to_string(), is_loopback: false, is_ipv4: true },
        NetInterface { address: "10.0.0.1".to_string(), is_loopback: false, is_ipv4: true },
    ];
    assert_eq!(NodeManager::select_local_address(&ifaces), Ok("192.168.1.20".to_string()));
    assert!(matches!(
        NodeManager::select_local_address(&ifaces[..2].to_vec()),
        Err(CoreError::NetworkFailure(_))
    ));
}
