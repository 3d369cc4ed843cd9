use midi_cable::connection::PortId;
use midi_cable::midi::ports::port_is_before;
use midi_cable::midi::virtual_ports::{is_reserved, is_virtual_input, is_virtual_output};
use midi_cable::midi::MidiManager;
use midi_cable::midi::{
    VIRTUAL_INPUT_A_NAME, VIRTUAL_INPUT_B_NAME, VIRTUAL_OUTPUT_A_NAME, VIRTUAL_OUTPUT_B_NAME,
};
use midi_cable::text::{str_before, str_equal};

fn names(list: &[&str]) -> Vec<String> {
    list.iter().map(|s| s.to_string()).collect()
}

fn pairs(ports: &[PortId]) -> Vec<(String, bool)> {
    ports.iter().map(|p| (p.name.clone(), p.is_virtual)).collect()
}

fn expect(list: &[(&str, bool)]) -> Vec<(String, bool)> {
    list.iter().map(|(n, v)| (n.to_string(), *v)).collect()
}

#[test]
fn test_reserved_names() {
    assert_eq!(VIRTUAL_INPUT_A_NAME, "mc-in-a");
    assert_eq!(VIRTUAL_OUTPUT_A_NAME, "mc-out-a");
    assert_eq!(VIRTUAL_INPUT_B_NAME, "mc-in-b");
    assert_eq!(VIRTUAL_OUTPUT_B_NAME, "mc-out-b");
    assert!(is_virtual_input("mc-in-a") && is_virtual_input("mc-in-b"));
    assert!(!is_virtual_input("mc-out-a") && !is_virtual_input("mc-in-c"));
    assert!(is_virtual_output("mc-out-a") && is_virtual_output("mc-out-b"));
    assert!(!is_virtual_output("mc-in-a") && !is_virtual_output("mc-out"));
    for name in ["mc-in-a", "mc-in-b", "mc-out-a", "mc-out-b"] {
        assert!(is_reserved(name));
    }
    for name in ["", "mc", "MC-IN-A", "mc-in-a ", "Keystation"] {
        assert!(!is_reserved(name));
    }
}

#[test]
fn test_string_order_matches_std() {
    let samples = ["", "a", "A", "ab", "abc", "abd", "b", "é", "e", "z", "日本", "mc-in-a", "mc-in-b"];
    for a in samples {
        for b in samples {
            assert_eq!(str_before(a, b), a < b, "{:?} < {:?}", a, b);
            assert_eq!(str_equal(a, b), a == b, "{:?} == {:?}", a, b);
        }
    }
}

#[test]
fn test_port_order_virtual_first_then_name() {
    let va = PortId::new("zz".to_string(), true);
    let vb = PortId::new("aa".to_string(), true);
    let da = PortId::new("aa".to_string(), false);
    let db = PortId::new("bb".to_string(), false);
    assert!(port_is_before(&va, &da));
    assert!(!port_is_before(&da, &va));
    assert!(port_is_before(&vb, &va));
    assert!(port_is_before(&da, &db));
    assert!(!port_is_before(&db, &da));
    assert!(!port_is_before(&da, &da));
}

#[test]
fn test_list_input_ports() {
    // the driver's input side shows the devices and this process's virtual
    // outputs; its output side shows the devices and the virtual inputs
    let sources = names(&["Keystation", "mc-out-a", "mc-out-b", "Arturia", "Keystation"]);
    let destinations = names(&["Synth", "mc-in-b", "mc-in-a", "Arturia"]);
    let inputs = MidiManager::list_input_ports(&sources, &destinations);
    assert_eq!(
        pairs(&inputs),
        expect(&[("mc-in-a", true), ("mc-in-b", true), ("Arturia", false), ("Keystation", false)])
    );
}

#[test]
fn test_list_output_ports() {
    let sources = names(&["Keystation", "mc-out-a", "mc-out-b", "Arturia"]);
    let destinations = names(&["Synth", "mc-in-b", "mc-in-a", "Arturia", "Synth"]);
    let outputs = MidiManager::list_output_ports(&sources, &destinations);
    assert_eq!(
        pairs(&outputs),
        expect(&[("mc-out-a", true), ("mc-out-b", true), ("Arturia", false), ("Synth", false)])
    );
}

#[test]
fn test_listing_without_virtual_ports() {
    let sources = names(&["b", "a"]);
    let destinations = names(&["d", "c"]);
    assert_eq!(
        pairs(&MidiManager::list_input_ports(&sources, &destinations)),
        expect(&[("a", false), ("b", false)])
    );
    assert_eq!(
        pairs(&MidiManager::list_output_ports(&sources, &destinations)),
        expect(&[("c", false), ("d", false)])
    );
    assert!(MidiManager::list_input_ports(&Vec::new(), &Vec::new()).is_empty());
    assert!(MidiManager::list_output_ports(&Vec::new(), &Vec::new()).is_empty());
}

#[test]
fn test_reserved_name_on_the_wrong_side_is_not_listed() {
    // a virtual input never shows among the sources; if a name like it does,
    // it is neither a device nor a virtual port of that role
    let sources = names(&["mc-in-a", "dev"]);
    let destinations = names(&["mc-out-a", "dev"]);
    assert_eq!(
        pairs(&MidiManager::list_input_ports(&sources, &destinations)),
        expect(&[("dev", false)])
    );
    assert_eq!(
        pairs(&MidiManager::list_output_ports(&sources, &destinations)),
        expect(&[("dev", false)])
    );
}

#[test]
fn test_no_name_listed_in_both_forms_and_virtual_first() {
    let sources = names(&["mc-out-a", "x", "mc-in-a", "a", "mc-out-b"]);
    let destinations = names(&["mc-in-a", "x", "mc-out-a", "b", "mc-in-b"]);
    for list in [
        MidiManager::list_input_ports(&sources, &destinations),
        MidiManager::list_output_ports(&sources, &destinations),
    ] {
        for (i, p) in list.iter().enumerate() {
            for (j, q) in list.iter().enumerate() {
                if p.name == q.name {
                    assert_eq!(p.is_virtual, q.is_virtual);
                    assert_eq!(i, j);
                }
                if i < j && q.is_virtual {
                    assert!(p.is_virtual);
                }
            }
        }
    }
}
