use midi_cable::connection::PortId;
use midi_cable::events::AppEvent;
use midi_cable::midi::monitor::{format_port_json, parse_port_json, start_monitor};
use midi_cable::text::{char_is_whitespace, to_chars};

fn pairs(ports: &[PortId]) -> Vec<(String, bool)> {
    ports.iter().map(|p| (p.name.clone(), p.is_virtual)).collect()
}

fn expect(list: &[(&str, bool)]) -> Vec<(String, bool)> {
    list.iter().map(|(n, v)| (n.to_string(), *v)).collect()
}

fn ports(list: &[(&str, bool)]) -> Vec<PortId> {
    list.iter().map(|(n, v)| PortId::new(n.to_string(), *v)).collect()
}

/// The same reading done with the standard library's own line splitting,
/// trimming and searching.
fn read_with_std(json: &str) -> (Vec<(String, bool)>, Vec<(String, bool)>) {
    let mut inputs = Vec::new();
    let mut outputs = Vec::new();
    let mut in_inputs = false;
    let mut in_outputs = false;
    for line in json.lines() {
        let trimmed = line.trim();
        if trimmed.starts_with("\"inputs\":") {
            in_inputs = true;
            in_outputs = false;
        } else if trimmed.starts_with("\"outputs\":") {
            in_inputs = false;
            in_outputs = true;
        } else if trimmed.starts_with('"') && trimmed.len() >= 2 {
            if let Some(end_quote) = trimmed[1..].find('"') {
                let name = &trimmed[1..end_quote + 1];
                let is_virtual =
                    name == "mc-in-a" || name == "mc-in-b" || name == "mc-out-a" || name == "mc-out-b";
                if in_inputs {
                    inputs.push((name.to_string(), is_virtual));
                } else if in_outputs {
                    outputs.push((name.to_string(), is_virtual));
                }
            }
        }
    }
    (inputs, outputs)
}

const LISTING: &str = "{\n  \"inputs\": [\n    \"mc-in-a\",\n    \"Keystation 49\"\n  ],\n  \"outputs\": [\n    \"mc-out-a\",\n    \"mc-out-b\",\n    \"Synth\"\n  ]\n}\n";

#[test]
fn test_parse_listing() {
    let (inputs, outputs) = parse_port_json(LISTING).unwrap();
    assert_eq!(pairs(&inputs), expect(&[("mc-in-a", true), ("Keystation 49", false)]));
    assert_eq!(
        pairs(&outputs),
        expect(&[("mc-out-a", true), ("mc-out-b", true), ("Synth", false)])
    );
}

#[test]
fn test_parse_empty_lists() {
    let (inputs, outputs) = parse_port_json("{\n  \"inputs\": [\n  ],\n  \"outputs\": [\n  ]\n}\n").unwrap();
    assert!(inputs.is_empty() && outputs.is_empty());
    let (inputs, outputs) = parse_port_json("").unwrap();
    assert!(inputs.is_empty() && outputs.is_empty());
    let (inputs, outputs) = parse_port_json("\n\n\n").unwrap();
    assert!(inputs.is_empty() && outputs.is_empty());
}

#[test]
fn test_names_before_any_list_are_passed_over() {
    let (inputs, outputs) = parse_port_json("\"stray\",\n\"inputs\": [\n\"kept\"\n").unwrap();
    assert_eq!(pairs(&inputs), expect(&[("kept", false)]));
    assert!(outputs.is_empty());
}

#[test]
fn test_a_virtual_name_is_virtual_in_either_list() {
    let (inputs, outputs) =
        parse_port_json("\"inputs\": [\n\"mc-out-b\"\n\"outputs\": [\n\"mc-in-a\"\n\"mc-in-c\"\n")
            .unwrap();
    assert_eq!(pairs(&inputs), expect(&[("mc-out-b", true)]));
    assert_eq!(pairs(&outputs), expect(&[("mc-in-a", true), ("mc-in-c", false)]));
}

#[test]
fn test_parse_edge_lines() {
    // two quotes hold an empty name; a quote that is not closed holds none
    let (inputs, _) =
        parse_port_json("\"inputs\":\n\"\"\n\"\",\n\"a\"\n\"ab\n\"é\n\"\n").unwrap();
    assert_eq!(pairs(&inputs), expect(&[("", false), ("", false), ("a", false)]));
    // what follows the closing quote does not count
    let (inputs, _) = parse_port_json("\"inputs\":\n  \"Synth\" and more \"text\"  \n").unwrap();
    assert_eq!(pairs(&inputs), expect(&[("Synth", false)]));
    // the last line needs no line feed
    let (inputs, _) = parse_port_json("\"inputs\": [\n\"last\"").unwrap();
    assert_eq!(pairs(&inputs), expect(&[("last", false)]));
}

#[test]
fn test_only_a_key_with_its_colon_at_the_start_opens_a_list() {
    // white space around the line does not count
    let (inputs, outputs) =
        parse_port_json(" \t\"inputs\": [ \n\"i\"\n\u{a0}\"outputs\":\r\n\"o\"\n").unwrap();
    assert_eq!(pairs(&inputs), expect(&[("i", false)]));
    assert_eq!(pairs(&outputs), expect(&[("o", false)]));
    // a key without its colon, or not at the start, is a name or nothing
    let (inputs, outputs) = parse_port_json(
        "\"outputs\": [\n\"inputs\"\n\"inputs\" :\nx \"inputs\": [\n{\"inputs\": [\n\"o\"\n",
    )
    .unwrap();
    assert!(inputs.is_empty());
    assert_eq!(pairs(&outputs), expect(&[("inputs", false), ("inputs", false), ("o", false)]));
}

#[test]
fn test_ports_named_like_the_lists_are_read_back() {
    let inputs = ports(&[("inputs", false), ("outputs", false), ("Keys", false)]);
    let outputs = ports(&[("outputs", false), ("inputs", false)]);
    let text = format_port_json(&inputs, &outputs);
    assert_eq!(
        text,
        "{\n  \"inputs\": [\n    \"inputs\",\n    \"outputs\",\n    \"Keys\"\n  ],\n  \"outputs\": [\n    \"outputs\",\n    \"inputs\"\n  ]\n}\n"
    );
    let (read_inputs, read_outputs) = parse_port_json(&text).unwrap();
    assert!(read_inputs == inputs);
    assert!(read_outputs == outputs);
    // names that hold a colon or brackets come back too, and so does a
    // port without a name, wherever it stands
    let odd = ports(&[
        ("inputs:", false),
        ("", false),
        ("a: [b]", false),
        (" padded ", false),
        ("x,", false),
        ("", false),
    ]);
    let (read_inputs, read_outputs) = parse_port_json(&format_port_json(&odd, &odd)).unwrap();
    assert!(read_inputs == odd);
    assert!(read_outputs == odd);
}

#[test]
fn test_parse_agrees_with_std_on_odd_texts() {
    let samples = [
        LISTING,
        "",
        "\n",
        "\r\n",
        "\"inputs\":\r\n\"a\"\r\n\"outputs\":\r\n\"b\"\r\n",
        "\"inputs\":\r\"a\"\r\n",
        "\"inputs\": [\n\u{a0}\u{2003}\"wide\"\u{3000}\n\t\"tab\"\u{85}\n\u{200b}\"zero width\"\n",
        "\"inputs\": [\n\"日本語\",\n\"é\"\n\"é\n\"\"\n\"\"\"\n\"x\n",
        "\"outputs\": [\n   \n\"\n\"a\n\"ab\"\n\"abc\"def\"\n",
        "\"inputs\": [\"inline\"]\n\"inputs\"\"x\"\n\"next\"\n",
        "{\"outputs\": [\n\"mc-out-a\"\n\"outputs\":\n\"mc-in-b\",\n \"mc-in-b \",\n",
        "\"inputs\": [\n\"a\"\n\n\n\"b\"\n\"outputs\": [\n\"c\"\n\"inputs\": [\n\"d\"\n",
        "\u{2028}\"inputs\":\u{2029}\n\u{1680}\"o\"\u{202f}\u{205f}\n\u{180e}\"no\"\n",
        "\"input\":\n\"inputs\n\"x\"\n\"inputs\"\n\"outputs\":x\n\"inputs\",\n\"outputs\"\n",
    ];
    for sample in samples {
        let (inputs, outputs) = parse_port_json(sample).unwrap();
        let (std_inputs, std_outputs) = read_with_std(sample);
        assert_eq!(pairs(&inputs), std_inputs, "inputs of {:?}", sample);
        assert_eq!(pairs(&outputs), std_outputs, "outputs of {:?}", sample);
    }
}

#[test]
fn test_whitespace_agrees_with_std() {
    for code in 0u32..=0x3100 {
        if let Some(c) = char::from_u32(code) {
            assert_eq!(char_is_whitespace(c), c.is_whitespace(), "U+{:04X}", code);
        }
    }
    for c in ['\u{feff}', '\u{e000}', '\u{10ffff}', '\u{1d7ff}'] {
        assert_eq!(char_is_whitespace(c), c.is_whitespace());
    }
}

#[test]
fn test_to_chars() {
    assert_eq!(to_chars(""), Vec::<char>::new());
    assert_eq!(to_chars("aé日\n"), vec!['a', 'é', '日', '\n']);
}

#[test]
fn test_format_listing() {
    let inputs = ports(&[("mc-in-a", true), ("Keystation 49", false)]);
    let outputs = ports(&[("mc-out-a", true), ("mc-out-b", true), ("Synth", false)]);
    assert_eq!(format_port_json(&inputs, &outputs), LISTING);
}

#[test]
fn test_format_empty_and_single() {
    assert_eq!(
        format_port_json(&Vec::new(), &Vec::new()),
        "{\n  \"inputs\": [\n  ],\n  \"outputs\": [\n  ]\n}\n"
    );
    assert_eq!(
        format_port_json(&ports(&[("a", false)]), &Vec::new()),
        "{\n  \"inputs\": [\n    \"a\"\n  ],\n  \"outputs\": [\n  ]\n}\n"
    );
}

#[test]
fn test_format_then_parse_gives_the_ports_back() {
    let inputs = ports(&[("mc-in-a", true), ("mc-in-b", true), ("Arturia", false), ("Keys 1", false)]);
    let outputs = ports(&[("mc-out-a", true), ("Synth", false)]);
    let (read_inputs, read_outputs) = parse_port_json(&format_port_json(&inputs, &outputs)).unwrap();
    assert!(read_inputs == inputs);
    assert!(read_outputs == outputs);
}

#[test]
fn test_first_listing_sets_the_baseline() {
    let mut monitor = start_monitor();
    assert!(monitor.observe(LISTING.to_string()).is_none());
    assert!(monitor.observe(LISTING.to_string()).is_none());
}

#[test]
fn test_changed_listing_yields_the_new_ports() {
    let mut monitor = start_monitor();
    assert!(monitor.observe(LISTING.to_string()).is_none());
    let without_synth = format_port_json(
        &ports(&[("mc-in-a", true), ("Keystation 49", false)]),
        &ports(&[("mc-out-a", true), ("mc-out-b", true)]),
    );
    match monitor.observe(without_synth.clone()) {
        Some(AppEvent::PortListUpdate { inputs, outputs }) => {
            assert_eq!(pairs(&inputs), expect(&[("mc-in-a", true), ("Keystation 49", false)]));
            assert_eq!(pairs(&outputs), expect(&[("mc-out-a", true), ("mc-out-b", true)]));
        }
        other => panic!("unexpected {:?}", other),
    }
    // the new listing is the baseline now
    assert!(monitor.observe(without_synth).is_none());
    // and going back is a change again
    assert!(matches!(
        monitor.observe(LISTING.to_string()),
        Some(AppEvent::PortListUpdate { .. })
    ));
}

#[test]
fn test_an_empty_first_listing_is_a_baseline_too() {
    let mut monitor = start_monitor();
    assert!(monitor.observe(String::new()).is_none());
    match monitor.observe("\"inputs\": [\n\"a\"\n".to_string()) {
        Some(AppEvent::PortListUpdate { inputs, outputs }) => {
            assert_eq!(pairs(&inputs), expect(&[("a", false)]));
            assert!(outputs.is_empty());
        }
        other => panic!("unexpected {:?}", other),
    }
}
