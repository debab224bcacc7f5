use rocontrol::ndi::{make_source, NdiManager, NdiReceiver};

#[test]
fn test_ndi_manager_creation() {
    let manager = NdiManager::new();
    assert_eq!(manager.get_sources().len(), 0);
}

#[test]
fn test_manual_source_addition() {
    let mut manager = NdiManager::new();
    let source = manager.add_manual_source(
        "Test Source".to_string(),
        "192.168.1.100".to_string(),
        5960
    );

    assert_eq!(source.name, "Test Source");
    assert_eq!(manager.get_sources().len(), 1);
}

#[test]
fn test_source_removal() {
    let mut manager = NdiManager::new();
    manager.add_manual_source(
        "Test Source".to_string(),
        "192.168.1.100".to_string(),
        5960
    );

    assert!(manager.remove_source("Test Source"));
    assert_eq!(manager.get_sources().len(), 0);
}

#[test]
fn source_url_joins_its_parts() {
    let s = make_source(&"Cam 1".to_string(), &"10.0.0.9".to_string(), 5961);
    assert_eq!(s.url, Some("ndi://10.0.0.9:5961/Cam 1".to_string()));
    assert!(s.groups.is_empty());
}

#[test]
fn manual_sources_replace_by_name_and_are_announced() {
    let mut manager = NdiManager::new();
    manager.add_manual_source("A".to_string(), "1.1.1.1".to_string(), 1);
    manager.add_manual_source("A".to_string(), "2.2.2.2".to_string(), 2);
    assert_eq!(manager.get_sources().len(), 1);
    assert_eq!(manager.get_source("A").unwrap().address, "2.2.2.2");
    assert!(manager.get_source("B").is_none());
    assert!(!manager.remove_source("B"));
    let announced = manager.drain_announcements();
    assert_eq!(announced.len(), 2);
    assert_eq!(announced[1].port, 2);
    assert!(manager.drain_announcements().is_empty());
}

#[test]
fn resolved_records_need_an_address() {
    let mut manager = NdiManager::new();
    manager.handle_source_resolved("S._ndi._tcp.local.".to_string(), None, 5960);
    assert!(manager.get_sources().is_empty());
    manager.handle_source_resolved("S._ndi._tcp.local.".to_string(), Some("10.1.1.1".to_string()), 5960);
    assert_eq!(manager.get_source("S._ndi._tcp.local.").unwrap().port, 5960);
}

#[test]
fn discovery_starts_once() {
    let mut manager = NdiManager::new();
    assert!(manager.start_discovery());
    assert!(!manager.start_discovery());
    assert!(manager.is_discovery_active());
    manager.stop_discovery();
    assert!(!manager.is_discovery_active());
}

#[test]
fn receiver_tracks_connection() {
    let source = make_source(&"A".to_string(), &"1.2.3.4".to_string(), 80);
    let mut rx = NdiReceiver::new(source);
    assert!(!rx.is_connected());
    rx.set_connected(true);
    assert!(rx.is_connected());
    rx.disconnect();
    assert!(!rx.is_connected());
    assert_eq!(rx.get_source().name, "A");
}
