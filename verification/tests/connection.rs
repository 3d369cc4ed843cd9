use midi_cable::connection::{Connection, ConnectionStatus, PortId};
use midi_cable::error::MidiError;

#[test]
fn test_port_id_fields_and_label() {
    let port = PortId::new("Keystation".to_string(), false);
    assert_eq!(port.name, "Keystation");
    assert!(!port.is_virtual);
    assert_eq!(port.label(), "Keystation");
}

#[test]
fn test_port_equality_is_by_both_fields() {
    let a = PortId::new("mc-in-a".to_string(), true);
    let b = PortId::new("mc-in-a".to_string(), true);
    let c = PortId::new("mc-in-a".to_string(), false);
    let d = PortId::new("mc-in-b".to_string(), true);
    assert!(a == b);
    assert!(a != c);
    assert!(a != d);
    assert!(a.clone() == a);
}

#[test]
fn test_connection_equality_is_by_both_endpoints() {
    let a = PortId::new("in".to_string(), false);
    let b = PortId::new("out".to_string(), false);
    let c = PortId::new("other".to_string(), false);
    let ab = Connection::new(a.clone(), b.clone());
    assert!(ab == Connection::new(a.clone(), b.clone()));
    assert!(ab != Connection::new(a.clone(), c.clone()));
    assert!(ab != Connection::new(c, b.clone()));
    assert!(ab != Connection::new(b, a));
    assert!(ab.clone() == ab);
}

#[test]
fn test_connection_label() {
    let route = Connection::new(
        PortId::new("Keys".to_string(), false),
        PortId::new("Synth".to_string(), false),
    );
    assert_eq!(route.label(), format!("{} â†’ {}", "Keys", "Synth"));
}

#[test]
fn test_status_label() {
    assert_eq!(ConnectionStatus::Active.label(), "OK");
    assert_eq!(ConnectionStatus::Error("port gone".to_string()).label(), "ERR: port gone");
    assert_eq!(ConnectionStatus::Error(String::new()).label(), "ERR: ");
}

#[test]
fn test_error_messages() {
    assert_eq!(
        MidiError::PortNotFound { name: "Synth".to_string() }.message(),
        "Port not found: Synth"
    );
    assert_eq!(MidiError::AlreadyExists.message(), "Connection already exists");
    assert_eq!(MidiError::VirtualPortsUnavailable.message(), "Virtual ports not initialized");
    assert_eq!(MidiError::SpawnFailed.message(), "Failed to spawn worker");
    assert_eq!(MidiError::SendFailed.message(), "Failed to send message");
}
