use midi_cable::error::MidiError;
use midi_cable::midi::virtual_ports::{PairId, SinkHandle, SinkTarget, VirtualPorts};

fn handles(fabric: &VirtualPorts, pair: PairId) -> Vec<SinkHandle> {
    fabric.sinks(pair).iter().map(|s| s.handle).collect()
}

#[test]
fn test_pair_names() {
    assert_eq!(PairId::of_input("mc-in-a"), Some(PairId::A));
    assert_eq!(PairId::of_input("mc-in-b"), Some(PairId::B));
    assert_eq!(PairId::of_input("mc-out-a"), None);
    assert_eq!(PairId::of_input("Keys"), None);
    assert_eq!(PairId::A.input_name(), "mc-in-a");
    assert_eq!(PairId::B.input_name(), "mc-in-b");
    assert_eq!(PairId::A.output_name(), "mc-out-a");
    assert_eq!(PairId::B.output_name(), "mc-out-b");
}

#[test]
fn test_sink_target_for_output() {
    assert!(matches!(SinkTarget::for_output("mc-out-a"), SinkTarget::VirtualOutput(PairId::A)));
    assert!(matches!(SinkTarget::for_output("mc-out-b"), SinkTarget::VirtualOutput(PairId::B)));
    match SinkTarget::for_output("Synth") {
        SinkTarget::Relay(name) => assert_eq!(name, "Synth"),
        other => panic!("unexpected {:?}", other),
    }
    // a virtual input is no output of this process: it gets a relay
    assert!(matches!(SinkTarget::for_output("mc-in-a"), SinkTarget::Relay(_)));
}

#[test]
fn test_new_fabric_has_no_sinks() {
    let fabric = VirtualPorts::create();
    assert!(fabric.sinks(PairId::A).is_empty());
    assert!(fabric.sinks(PairId::B).is_empty());
    let sent = fabric.fan_out(PairId::A, &[0x90, 0x3C, 0x64]).unwrap();
    assert_eq!(sent.payload, vec![0x90, 0x3C, 0x64]);
    assert!(sent.sinks.is_empty());
}

#[test]
fn test_add_sink_on_unknown_input_fails() {
    let mut fabric = VirtualPorts::create();
    match fabric.add_virtual_input_output("Keys", "Synth") {
        Err(MidiError::PortNotFound { name }) => assert_eq!(name, "Keys"),
        other => panic!("unexpected {:?}", other),
    }
    assert!(fabric.add_virtual_input_output("mc-out-a", "Synth").is_err());
    assert!(fabric.sinks(PairId::A).is_empty());
    assert!(fabric.sinks(PairId::B).is_empty());
}

#[test]
fn test_broadcast_reaches_all_sinks_in_order() {
    let mut fabric = VirtualPorts::create();
    let mut added = Vec::new();
    for destination in ["Synth", "mc-out-a", "Sampler", "Synth", "mc-out-b"] {
        let sink = fabric.add_virtual_input_output("mc-in-a", destination).unwrap();
        assert_eq!(sink.handle.pair, PairId::A);
        added.push(sink.handle);
    }
    // every sink has a handle of its own, even two to the same destination
    for (i, a) in added.iter().enumerate() {
        for (j, b) in added.iter().enumerate() {
            assert_eq!(a == b, i == j);
        }
    }
    let sent = fabric.fan_out(PairId::A, &[0xB0, 0x07, 0x7F]).unwrap();
    assert_eq!(sent.payload, vec![0xB0, 0x07, 0x7F]);
    assert_eq!(sent.sinks, added);
    // nothing of it reaches the other pair
    let other = fabric.fan_out(PairId::B, &[0xB0, 0x07, 0x7F]).unwrap();
    assert!(other.sinks.is_empty());
}

#[test]
fn test_sink_targets_are_recorded() {
    let mut fabric = VirtualPorts::create();
    fabric.add_virtual_input_output("mc-in-b", "mc-out-a").unwrap();
    fabric.add_virtual_input_output("mc-in-b", "Synth").unwrap();
    let sinks = fabric.sinks(PairId::B);
    assert_eq!(sinks.len(), 2);
    assert!(matches!(sinks[0].target, SinkTarget::VirtualOutput(PairId::A)));
    match &sinks[1].target {
        SinkTarget::Relay(name) => assert_eq!(name, "Synth"),
        other => panic!("unexpected {:?}", other),
    }
    assert!(fabric.sinks(PairId::A).is_empty());
}

#[test]
fn test_removing_one_sink_silences_only_that_sink() {
    let mut fabric = VirtualPorts::create();
    let first = fabric.add_virtual_input_output("mc-in-a", "Synth").unwrap().handle;
    let second = fabric.add_virtual_input_output("mc-in-a", "Sampler").unwrap().handle;
    let third = fabric.add_virtual_input_output("mc-in-a", "mc-out-a").unwrap().handle;
    let other = fabric.add_virtual_input_output("mc-in-b", "Synth").unwrap().handle;
    assert_eq!(fabric.fan_out(PairId::A, &[0x90, 1, 2]).unwrap().sinks, vec![first, second, third]);

    fabric.remove_virtual_input_output("mc-in-a", second);
    assert_eq!(fabric.fan_out(PairId::A, &[0x90, 1, 2]).unwrap().sinks, vec![first, third]);
    assert_eq!(fabric.fan_out(PairId::B, &[0x90, 1, 2]).unwrap().sinks, vec![other]);

    // removing it again, or from the wrong pair, or by an unknown name, does nothing
    fabric.remove_virtual_input_output("mc-in-a", second);
    fabric.remove_virtual_input_output("mc-in-b", first);
    fabric.remove_virtual_input_output("Keys", first);
    assert_eq!(handles(&fabric, PairId::A), vec![first, third]);
    assert_eq!(handles(&fabric, PairId::B), vec![other]);
}

#[test]
fn test_handles_count_the_registrations_of_their_pair() {
    let mut fabric = VirtualPorts::create();
    let a = fabric.add_virtual_input_output("mc-in-a", "x").unwrap().handle;
    let b = fabric.add_virtual_input_output("mc-in-a", "y").unwrap().handle;
    let c = fabric.add_virtual_input_output("mc-in-a", "z").unwrap().handle;
    assert_eq!((a.token, b.token, c.token), (0, 1, 2));
    // tokens are counted per pair
    let d = fabric.add_virtual_input_output("mc-in-b", "x").unwrap().handle;
    assert_eq!((d.pair, d.token), (PairId::B, 0));
    assert!(a != d);
    // a failed registration issues nothing
    assert!(fabric.add_virtual_input_output("Keys", "x").is_err());
    let e = fabric.add_virtual_input_output("mc-in-b", "y").unwrap().handle;
    assert_eq!(e.token, 1);
}

#[test]
fn test_a_removed_handle_is_never_issued_again() {
    let mut fabric = VirtualPorts::create();
    let a = fabric.add_virtual_input_output("mc-in-a", "x").unwrap().handle;
    let b = fabric.add_virtual_input_output("mc-in-a", "y").unwrap().handle;
    let c = fabric.add_virtual_input_output("mc-in-a", "z").unwrap().handle;
    fabric.remove_virtual_input_output("mc-in-a", b);
    let e = fabric.add_virtual_input_output("mc-in-a", "w").unwrap().handle;
    assert_eq!(e.token, 3);
    assert_eq!(handles(&fabric, PairId::A), vec![a, c, e]);
    // a handle kept after removal names no later sink: removing by it
    // again takes nothing off
    fabric.remove_virtual_input_output("mc-in-a", b);
    assert_eq!(handles(&fabric, PairId::A), vec![a, c, e]);
    // register, remove, register on an empty pair
    let mut fabric = VirtualPorts::create();
    let first = fabric.add_virtual_input_output("mc-in-b", "x").unwrap().handle;
    fabric.remove_virtual_input_output("mc-in-b", first);
    assert!(fabric.sinks(PairId::B).is_empty());
    let second = fabric.add_virtual_input_output("mc-in-b", "x").unwrap().handle;
    assert!(first != second);
    fabric.remove_virtual_input_output("mc-in-b", first);
    assert_eq!(handles(&fabric, PairId::B), vec![second]);
}

#[test]
fn test_broadcast_validates_before_it_sends() {
    let mut fabric = VirtualPorts::create();
    let sink = fabric.add_virtual_input_output("mc-in-a", "Synth").unwrap().handle;
    assert!(fabric.fan_out(PairId::A, &[]).is_none());
    assert!(fabric.fan_out(PairId::A, &[0x90, 0x3C]).is_none());
    let sent = fabric.fan_out(PairId::A, &[0xC0, 0x05, 0x00]).unwrap();
    assert_eq!(sent.payload, vec![0xC0, 0x05]);
    assert_eq!(sent.sinks, vec![sink]);
}
