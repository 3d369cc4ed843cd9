use midi_cable::connection::{Connection, ConnectionStatus, PortId};
use midi_cable::error::MidiError;
use midi_cable::events::AppEvent;
use midi_cable::midi::manager::{is_virtual_connection, port_present, RouteResource};
use midi_cable::midi::virtual_ports::{PairId, SinkTarget};
use midi_cable::midi::MidiManager;

fn names(list: &[&str]) -> Vec<String> {
    list.iter().map(|s| s.to_string()).collect()
}

fn device(name: &str) -> PortId {
    PortId::new(name.to_string(), false)
}

fn virtual_port(name: &str) -> PortId {
    PortId::new(name.to_string(), true)
}

fn route(input: &str, output: &str) -> Connection {
    Connection::new(device(input), device(output))
}

fn registered(manager: &MidiManager) -> Vec<Connection> {
    manager.get_connection_statuses().into_iter().map(|(c, _)| c).collect()
}

fn sources() -> Vec<String> {
    names(&["Keys", "Pads", "mc-out-a", "mc-out-b"])
}

fn destinations() -> Vec<String> {
    names(&["Synth", "Sampler", "mc-in-a", "mc-in-b"])
}

#[test]
fn test_new_manager_is_empty() {
    let manager = MidiManager::new();
    assert!(manager.virtual_ports().is_none());
    assert!(manager.get_connection_statuses().is_empty());
    assert!(!manager.is_monitoring());
}

#[test]
fn test_start_device_route() {
    let mut manager = MidiManager::new();
    match manager.start_connection(route("Pads", "Sampler"), &sources(), &destinations()) {
        Ok(RouteResource::Forwarder(handle)) => {
            assert!(handle.connection == route("Pads", "Sampler"));
            assert_eq!((handle.input_port, handle.output_port), (1, 1));
        }
        other => panic!("unexpected {:?}", other),
    }
    let statuses = manager.get_connection_statuses();
    assert_eq!(statuses.len(), 1);
    assert!(statuses[0].0 == route("Pads", "Sampler"));
    assert!(matches!(statuses[0].1, ConnectionStatus::Active));
}

#[test]
fn test_starting_the_same_route_twice_fails() {
    let mut manager = MidiManager::new();
    assert!(manager.start_connection(route("Keys", "Synth"), &sources(), &destinations()).is_ok());
    match manager.start_connection(route("Keys", "Synth"), &sources(), &destinations()) {
        Err(MidiError::AlreadyExists) => {}
        other => panic!("unexpected {:?}", other),
    }
    // even when its ports are gone by then
    match manager.start_connection(route("Keys", "Synth"), &Vec::new(), &Vec::new()) {
        Err(MidiError::AlreadyExists) => {}
        other => panic!("unexpected {:?}", other),
    }
    assert_eq!(registered(&manager).len(), 1);
    // a route that differs in one endpoint is another route
    assert!(manager.start_connection(route("Keys", "Sampler"), &sources(), &destinations()).is_ok());
    assert_eq!(registered(&manager).len(), 2);
}

#[test]
fn test_start_with_missing_port_registers_nothing() {
    let mut manager = MidiManager::new();
    match manager.start_connection(route("Organ", "Synth"), &sources(), &destinations()) {
        Err(MidiError::PortNotFound { name }) => assert_eq!(name, "Organ"),
        other => panic!("unexpected {:?}", other),
    }
    match manager.start_connection(route("Keys", "Organ"), &sources(), &destinations()) {
        Err(MidiError::PortNotFound { name }) => assert_eq!(name, "Organ"),
        other => panic!("unexpected {:?}", other),
    }
    assert!(registered(&manager).is_empty());
}

#[test]
fn test_virtual_route_needs_the_fabric() {
    let mut manager = MidiManager::new();
    let wanted = Connection::new(virtual_port("mc-in-a"), device("Synth"));
    match manager.start_connection(wanted.clone(), &sources(), &destinations()) {
        Err(MidiError::VirtualPortsUnavailable) => {}
        other => panic!("unexpected {:?}", other),
    }
    assert!(registered(&manager).is_empty());

    // without platform support the manager stays usable for device routes
    match manager.init_virtual_ports(false) {
        Err(MidiError::VirtualPortsUnavailable) => {}
        other => panic!("unexpected {:?}", other),
    }
    assert!(manager.virtual_ports().is_none());
    assert!(manager.start_connection(route("Keys", "Synth"), &sources(), &destinations()).is_ok());

    assert!(manager.init_virtual_ports(true).is_ok());
    assert!(manager.virtual_ports().is_some());
    match manager.start_connection(wanted.clone(), &sources(), &destinations()) {
        Ok(RouteResource::Sink(sink)) => {
            assert_eq!(sink.handle.pair, PairId::A);
            match sink.target {
                SinkTarget::Relay(name) => assert_eq!(name, "Synth"),
                other => panic!("unexpected {:?}", other),
            }
        }
        other => panic!("unexpected {:?}", other),
    }
    assert_eq!(registered(&manager).len(), 2);
}

#[test]
fn test_virtual_route_is_served_by_the_broadcast() {
    let mut manager = MidiManager::new();
    manager.init_virtual_ports(true).unwrap();
    let to_synth = Connection::new(virtual_port("mc-in-a"), device("Synth"));
    let to_out = Connection::new(virtual_port("mc-in-a"), virtual_port("mc-out-a"));
    let on_b = Connection::new(virtual_port("mc-in-b"), virtual_port("mc-out-a"));
    let mut handles = Vec::new();
    // a virtual route needs no port of the driver's lists
    for wanted in [&to_synth, &to_out, &on_b] {
        match manager.start_connection(wanted.clone(), &Vec::new(), &Vec::new()) {
            Ok(RouteResource::Sink(sink)) => handles.push(sink.handle),
            other => panic!("unexpected {:?}", other),
        }
    }
    let fabric = manager.virtual_ports().unwrap();
    let sent = fabric.fan_out(PairId::A, &[0x90, 0x3C, 0x64]).unwrap();
    assert_eq!(sent.sinks, vec![handles[0], handles[1]]);
    assert!(matches!(fabric.sinks(PairId::A)[1].target, SinkTarget::VirtualOutput(PairId::A)));
    assert_eq!(fabric.fan_out(PairId::B, &[0x90, 0x3C, 0x64]).unwrap().sinks, vec![handles[2]]);

    // stopping a route takes its sink off the broadcast and leaves the others
    match manager.stop_connection(&to_synth) {
        Some(RouteResource::Sink(sink)) => assert_eq!(sink.handle, handles[0]),
        other => panic!("unexpected {:?}", other),
    }
    let fabric = manager.virtual_ports().unwrap();
    assert_eq!(fabric.fan_out(PairId::A, &[0x90, 0x3C, 0x64]).unwrap().sinks, vec![handles[1]]);
    assert_eq!(fabric.fan_out(PairId::B, &[0x90, 0x3C, 0x64]).unwrap().sinks, vec![handles[2]]);
    assert!(registered(&manager) == vec![to_out, on_b]);
}

#[test]
fn test_the_name_of_the_input_alone_makes_a_route_virtual() {
    let mut manager = MidiManager::new();
    manager.init_virtual_ports(true).unwrap();
    let untagged = Connection::new(device("mc-in-a"), device("Synth"));
    assert!(is_virtual_connection(&untagged));
    assert!(is_virtual_connection(&Connection::new(virtual_port("mc-in-b"), device("Synth"))));
    assert!(!is_virtual_connection(&Connection::new(virtual_port("mc-out-a"), device("Synth"))));
    assert!(!is_virtual_connection(&Connection::new(virtual_port("Keys"), device("Synth"))));
    // the route gets a sink on pair A and no worker, though no device is
    // called "mc-in-a" and the port is not tagged as virtual
    match manager.start_connection(untagged.clone(), &sources(), &destinations()) {
        Ok(RouteResource::Sink(sink)) => {
            assert_eq!(sink.handle.pair, PairId::A);
            assert!(matches!(sink.target, SinkTarget::Relay(_)));
        }
        other => panic!("unexpected {:?}", other),
    }
    let fabric = manager.virtual_ports().unwrap();
    assert_eq!(fabric.sinks(PairId::A).len(), 1);
    assert!(registered(&manager) == vec![untagged]);
    // a port tagged as virtual under another name is a device like any other
    let tagged = Connection::new(virtual_port("Keys"), device("Synth"));
    assert!(matches!(
        manager.start_connection(tagged, &sources(), &destinations()),
        Ok(RouteResource::Forwarder(_))
    ));
}

#[test]
fn test_second_init_keeps_the_fabric() {
    let mut manager = MidiManager::new();
    manager.init_virtual_ports(true).unwrap();
    let wanted = Connection::new(virtual_port("mc-in-a"), device("Synth"));
    manager.start_connection(wanted, &Vec::new(), &Vec::new()).unwrap();
    manager.init_virtual_ports(true).unwrap();
    assert_eq!(manager.virtual_ports().unwrap().sinks(PairId::A).len(), 1);
    assert!(manager.init_virtual_ports(false).is_err());
    assert_eq!(manager.virtual_ports().unwrap().sinks(PairId::A).len(), 1);
}

#[test]
fn test_stopping_an_unknown_route_is_a_no_op() {
    let mut manager = MidiManager::new();
    assert!(manager.stop_connection(&route("Keys", "Synth")).is_none());
    manager.start_connection(route("Keys", "Synth"), &sources(), &destinations()).unwrap();
    assert!(manager.stop_connection(&route("Keys", "Sampler")).is_none());
    assert!(manager.stop_connection(&route("Pads", "Synth")).is_none());
    assert!(registered(&manager) == vec![route("Keys", "Synth")]);
}

#[test]
fn test_stop_then_start_again() {
    let mut manager = MidiManager::new();
    manager.start_connection(route("Keys", "Synth"), &sources(), &destinations()).unwrap();
    manager.start_connection(route("Pads", "Synth"), &sources(), &destinations()).unwrap();
    match manager.stop_connection(&route("Keys", "Synth")) {
        Some(RouteResource::Forwarder(handle)) => assert!(handle.connection == route("Keys", "Synth")),
        other => panic!("unexpected {:?}", other),
    }
    assert!(registered(&manager) == vec![route("Pads", "Synth")]);
    assert!(manager.stop_connection(&route("Keys", "Synth")).is_none());
    assert!(manager.start_connection(route("Keys", "Synth"), &sources(), &destinations()).is_ok());
    assert!(registered(&manager) == vec![route("Pads", "Synth"), route("Keys", "Synth")]);
}

#[test]
fn test_port_present_compares_both_fields() {
    let ports = vec![device("Keys"), virtual_port("mc-in-a")];
    assert!(port_present(&ports, &device("Keys")));
    assert!(port_present(&ports, &virtual_port("mc-in-a")));
    assert!(!port_present(&ports, &virtual_port("Keys")));
    assert!(!port_present(&ports, &device("mc-in-a")));
    assert!(!port_present(&Vec::new(), &device("Keys")));
}

#[test]
fn test_reconcile_drops_routes_that_lost_a_port() {
    let mut manager = MidiManager::new();
    manager.init_virtual_ports(true).unwrap();
    let virtual_route = Connection::new(virtual_port("mc-in-a"), device("Synth"));
    manager.start_connection(route("Keys", "Synth"), &sources(), &destinations()).unwrap();
    manager.start_connection(route("Pads", "Sampler"), &sources(), &destinations()).unwrap();
    manager.start_connection(virtual_route.clone(), &sources(), &destinations()).unwrap();
    manager.start_connection(route("Keys", "Sampler"), &sources(), &destinations()).unwrap();

    // the synth is unplugged
    let inputs = vec![virtual_port("mc-in-a"), device("Keys"), device("Pads")];
    let outputs = vec![device("Sampler")];
    let released = manager.reconcile(&inputs, &outputs);
    assert_eq!(released.len(), 2);
    match &released[0] {
        RouteResource::Forwarder(handle) => assert!(handle.connection == route("Keys", "Synth")),
        other => panic!("unexpected {:?}", other),
    }
    assert!(matches!(released[1], RouteResource::Sink(_)));
    assert!(registered(&manager) == vec![route("Pads", "Sampler"), route("Keys", "Sampler")]);
    assert!(manager.virtual_ports().unwrap().sinks(PairId::A).is_empty());

    // nothing more to do when nothing changed
    assert!(manager.reconcile(&inputs, &outputs).is_empty());
    assert_eq!(registered(&manager).len(), 2);

    // an input goes as well
    let inputs = vec![device("Pads")];
    let released = manager.reconcile(&inputs, &outputs);
    assert_eq!(released.len(), 1);
    assert!(registered(&manager) == vec![route("Pads", "Sampler")]);

    // with no port left, no route is left
    assert_eq!(manager.reconcile(&Vec::new(), &Vec::new()).len(), 1);
    assert!(manager.get_connection_statuses().is_empty());
}

#[test]
fn test_reconcile_tells_a_device_from_a_virtual_port_of_the_same_name() {
    let mut manager = MidiManager::new();
    manager.start_connection(route("Keys", "Synth"), &sources(), &destinations()).unwrap();
    let inputs = vec![virtual_port("Keys")];
    let outputs = vec![device("Synth")];
    assert_eq!(manager.reconcile(&inputs, &outputs).len(), 1);
    assert!(registered(&manager).is_empty());
}

#[test]
fn test_settle_connection() {
    let mut manager = MidiManager::new();
    manager.start_connection(route("Keys", "Synth"), &sources(), &destinations()).unwrap();
    match manager.settle_connection(&route("Keys", "Synth"), true) {
        Ok(AppEvent::ConnectionStatus { connection, status }) => {
            assert!(connection == route("Keys", "Synth"));
            assert_eq!(status, "OK");
        }
        other => panic!("unexpected {:?}", other),
    }
    assert_eq!(registered(&manager).len(), 1);
    match manager.settle_connection(&route("Keys", "Synth"), false) {
        Err(MidiError::SpawnFailed) => {}
        other => panic!("unexpected {:?}", other),
    }
    assert!(registered(&manager).is_empty());
}

#[test]
fn test_port_monitoring_flag() {
    let mut manager = MidiManager::new();
    let mut monitor = manager.start_port_monitoring();
    assert!(manager.is_monitoring());
    assert!(monitor.observe("{}".to_string()).is_none());
    manager.stop_port_monitoring();
    assert!(!manager.is_monitoring());
}
