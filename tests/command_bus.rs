use rocontrol::command_bus::{CommandBus, NodeCommand};

fn command(target: Option<&str>) -> NodeCommand {
    NodeCommand {
        command_id: "c1".to_string(),
        command_type: "blackout".to_string(),
        target_node: target.map(|t| t.to_string()),
        payload: serde_json::Value::Null,
        timestamp: 1,
    }
}

#[test]
fn broadcast_reaches_only_current_subscribers() {
    let mut bus = CommandBus::new();
    let mut first = bus.subscribe();
    let mut second = bus.subscribe();
    let id = bus
        .trigger_action(None, "go".to_string(), serde_json::Value::Bool(true))
        .unwrap();
    assert_eq!(id.len(), 36);
    let mut late = bus.subscribe();
    let a = first.try_recv().unwrap();
    let b = second.try_recv().unwrap();
    assert_eq!(a.command_id, id);
    assert_eq!(b.command_id, id);
    assert_eq!(a.command_type, "go");
    assert_eq!(a.target_node, None);
    assert_eq!(a.payload, serde_json::Value::Bool(true));
    assert!(late.try_recv().is_err());
}

#[test]
fn publishing_without_subscribers_succeeds() {
    let mut bus = CommandBus::new();
    assert!(bus.publish(command(None)).is_ok());
    let r = bus.trigger_action_at("fixed".to_string(), Some("n1".to_string()), "x".to_string(), serde_json::Value::Null, 5);
    assert_eq!(r, Ok("fixed".to_string()));
}

#[test]
fn send_to_node_sets_the_target() {
    let mut bus = CommandBus::new();
    let mut rx = bus.subscribe();
    bus.send_to_node("n2".to_string(), command(Some("n1"))).unwrap();
    let got = rx.try_recv().unwrap();
    assert_eq!(got.target_node, Some("n2".to_string()));
    assert!(got.is_addressed_to(&"n2".to_string()));
    assert!(!got.is_addressed_to(&"n1".to_string()));
}

#[test]
fn untargeted_commands_address_everyone() {
    assert!(command(None).is_addressed_to(&"anyone".to_string()));
    assert!(command(Some("a")).is_addressed_to(&"a".to_string()));
    assert!(!command(Some("a")).is_addressed_to(&"b".to_string()));
}
