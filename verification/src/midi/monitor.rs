//! Hot-plug detection. A fresh process lists the ports as text; this module
//! writes that text, reads it back, and tells when it has changed.

use crate::connection::{port_names, port_views, PortId, PortIdView};
use crate::error::MidiError;
use crate::events::AppEvent;
use crate::midi::virtual_ports::{is_reserved, is_reserved_name};
use crate::sequences::{first_match, lemma_first_match_at};
use crate::midi::listing::{lemma_listing_reads_back, named_ports, plain_names};
use crate::text::{char_is_whitespace, starts_with, to_chars, trim, trim_end, trim_start};
use vstd::prelude::*;

verus! {

/// What the line that opens the list of inputs starts with: the key of
/// the list and the colon after it.
pub const INPUTS_HEADER: &'static str = "\"inputs\":";

/// What the line that opens the list of outputs starts with.
pub const OUTPUTS_HEADER: &'static str = "\"outputs\":";

/// Which list the lines being read belong to.
#[derive(Clone, Copy, Debug, PartialEq, Eq, Structural)]
pub enum Section {
    /// Before either list.
    Outside,
    Inputs,
    Outputs,
}

/// What has been read of a listing so far.
pub struct Listing {
    pub section: Section,
    pub inputs: Seq<PortIdView>,
    pub outputs: Seq<PortIdView>,
}

/// Number of characters before the first line feed, or in all if there is
/// none.
pub open spec fn line_len(text: Seq<char>) -> nat
    decreases text.len(),
{
    if text.len() == 0 || text[0] == '\n' {
        0
    } else {
        1 + line_len(text.drop_first())
    }
}

/// The name on a trimmed line: what stands between a quote that opens the
/// line and the next quote, be it nothing.
pub open spec fn quoted_name(line: Seq<char>) -> Option<Seq<char>> {
    if line.len() >= 2 && line[0] == '"' {
        match first_match(line.drop_first(), '"') {
            Some(close) => Some(line.subrange(1, close + 1)),
            None => None,
        }
    } else {
        None
    }
}

/// The port that a listed name stands for: virtual exactly when the name
/// is one of the reserved ones.
pub open spec fn named_port(name: Seq<char>) -> PortIdView {
    PortIdView { name, is_virtual: is_reserved_name(name) }
}

/// The listing after one more line. Surrounding white space does not
/// count. A line that starts with the key of a list and a colon opens that
/// list; any other line that holds a name adds that port to the open list,
/// if one is open; all else is passed over. Where a listing is written,
/// the quote that closes a name has a comma or nothing after it, never a
/// colon: so a port is not taken for the start of a list, whatever it is
/// called.
pub open spec fn read_line(state: Listing, raw: Seq<char>) -> Listing {
    let line = trim(raw);
    if starts_with(line, INPUTS_HEADER@) {
        Listing { section: Section::Inputs, ..state }
    } else if starts_with(line, OUTPUTS_HEADER@) {
        Listing { section: Section::Outputs, ..state }
    } else {
        match quoted_name(line) {
            Some(name) => match state.section {
                Section::Inputs => Listing { inputs: state.inputs.push(named_port(name)), ..state },
                Section::Outputs => Listing {
                    outputs: state.outputs.push(named_port(name)),
                    ..state
                },
                Section::Outside => state,
            },
            None => state,
        }
    }
}

/// The listing after each line of `text`, in turn. Lines end at a line
/// feed; a carriage return in front of it is white space.
pub open spec fn read_lines(state: Listing, text: Seq<char>) -> Listing
    decreases text.len(),
{
    if text.len() == 0 {
        state
    } else {
        let n = line_len(text) as int;
        let next = read_line(state, text.take(n));
        if n < text.len() {
            read_lines(next, text.skip(n + 1))
        } else {
            next
        }
    }
}

/// The inputs and the outputs that a port listing names.
pub open spec fn parsed_ports(text: Seq<char>) -> (Seq<PortIdView>, Seq<PortIdView>) {
    let listing = read_lines(
        Listing { section: Section::Outside, inputs: Seq::empty(), outputs: Seq::empty() },
        text,
    );
    (listing.inputs, listing.outputs)
}

/// A run of characters with no line feed that ends at a line feed or at the
/// end of the text is the first line.
pub proof fn lemma_line_len(text: Seq<char>, n: int)
    requires
        0 <= n <= text.len(),
        forall|k: int| 0 <= k < n ==> text[k] != '\n',
        n < text.len() ==> text[n] == '\n',
    ensures
        line_len(text) == n,
    decreases n,
{
    if n > 0 {
        let rest = text.drop_first();
        assert forall|k: int| 0 <= k < n - 1 implies rest[k] != '\n' by {
            assert(rest[k] == text[k + 1]);
        }
        lemma_line_len(rest, n - 1);
    }
}

/// Where the line that starts at `from` ends: at the next line feed, or at
/// the end of the text.
fn line_end(chars: &Vec<char>, from: usize) -> (end: usize)
    requires
        from <= chars@.len(),
    ensures
        from <= end <= chars@.len(),
        line_len(chars@.skip(from as int)) == end - from,
{
    let mut end: usize = from;
    while end < chars.len() && chars[end] != '\n'
        invariant
            from <= end <= chars@.len(),
            forall|k: int| from <= k < end ==> chars@[k] != '\n',
        decreases chars@.len() - end,
    {
        end += 1;
    }
    proof {
        lemma_line_len(chars@.skip(from as int), end - from);
    }
    end
}

/// Bounds of what is left of `chars[from..to]` when the white space at
/// both ends is taken off.
fn trim_range(chars: &Vec<char>, from: usize, to: usize) -> (bounds: (usize, usize))
    requires
        from <= to <= chars@.len(),
    ensures
        from <= bounds.0 <= bounds.1 <= to,
        chars@.subrange(bounds.0 as int, bounds.1 as int) == trim(
            chars@.subrange(from as int, to as int),
        ),
{
    let ghost line = chars@.subrange(from as int, to as int);
    let mut start: usize = from;
    while start < to && char_is_whitespace(chars[start])
        invariant
            from <= start <= to <= chars@.len(),
            trim_start(line) == trim_start(chars@.subrange(start as int, to as int)),
        decreases to - start,
    {
        assert(chars@.subrange(start as int, to as int).drop_first() =~= chars@.subrange(
            start + 1,
            to as int,
        ));
        start += 1;
    }
    let ghost inner = chars@.subrange(start as int, to as int);
    assert(trim_start(line) == inner);
    let mut end: usize = to;
    while end > start && char_is_whitespace(chars[end - 1])
        invariant
            start <= end <= to <= chars@.len(),
            trim_end(inner) == trim_end(chars@.subrange(start as int, end as int)),
        decreases end - start,
    {
        assert(chars@.subrange(start as int, end as int).drop_last() =~= chars@.subrange(
            start as int,
            end - 1,
        ));
        end -= 1;
    }
    (start, end)
}

/// Whether `pattern` stands in `chars` at position `at`, within `to`.
fn matches_at(chars: &Vec<char>, at: usize, to: usize, pattern: &Vec<char>) -> (yes: bool)
    requires
        at <= to <= chars@.len(),
    ensures
        yes == (at + pattern@.len() <= to && chars@.subrange(at as int, at + pattern@.len())
            == pattern@),
{
    if pattern.len() > to - at {
        return false;
    }
    let mut k: usize = 0;
    while k < pattern.len()
        invariant
            k <= pattern@.len(),
            at + pattern@.len() <= to <= chars@.len(),
            forall|j: int| 0 <= j < k ==> chars@[at + j] == pattern@[j],
        decreases pattern@.len() - k,
    {
        if chars[at + k] != pattern[k] {
            assert(chars@.subrange(at as int, at + pattern@.len())[k as int] != pattern@[k as int]);
            return false;
        }
        k += 1;
    }
    assert(chars@.subrange(at as int, at + pattern@.len()) =~= pattern@);
    true
}

/// Whether `chars[from..to]` starts with `pattern`.
fn range_starts_with(chars: &Vec<char>, from: usize, to: usize, pattern: &Vec<char>) -> (yes: bool)
    requires
        from <= to <= chars@.len(),
    ensures
        yes == starts_with(chars@.subrange(from as int, to as int), pattern@),
{
    proof {
        if from + pattern@.len() <= to {
            assert(chars@.subrange(from as int, to as int).subrange(0, pattern@.len() as int)
                =~= chars@.subrange(from as int, from + pattern@.len()));
        }
    }
    matches_at(chars, from, to, pattern)
}

/// The first position in `chars[from..to]` that holds `wanted`, or `to`.
fn find_char(chars: &Vec<char>, from: usize, to: usize, wanted: char) -> (at: usize)
    requires
        from <= to <= chars@.len(),
    ensures
        from <= at <= to,
        at < to ==> first_match(chars@.subrange(from as int, to as int), wanted) == Some(
            at - from,
        ),
        at == to ==> first_match(chars@.subrange(from as int, to as int), wanted) is None,
{
    let ghost line = chars@.subrange(from as int, to as int);
    let mut at: usize = from;
    while at < to && chars[at] != wanted
        invariant
            from <= at <= to <= chars@.len(),
            line == chars@.subrange(from as int, to as int),
            forall|k: int| 0 <= k < at - from ==> line[k] != wanted,
        decreases to - at,
    {
        at += 1;
    }
    proof {
        if at < to {
            lemma_first_match_at(line, wanted, at - from);
        } else {
            crate::sequences::lemma_first_match(line, wanted);
        }
    }
    at
}

/// Parses the text of a port listing into the inputs and the outputs that
/// it names. The listing written for any lists of names without quote and
/// line feed gives the ports of those names back: the inputs and the
/// outputs, each list in its order, a port virtual exactly when its name
/// is reserved. Any other text is read line by line as [`read_lines`]
/// says; nothing in it makes the parse fail.
pub fn parse_port_json(json: &str) -> (parsed: Result<(Vec<PortId>, Vec<PortId>), MidiError>)
    ensures
        parsed is Ok,
        port_views(parsed->Ok_0.0@) == parsed_ports(json@).0,
        port_views(parsed->Ok_0.1@) == parsed_ports(json@).1,
        forall|inputs: Seq<Seq<char>>, outputs: Seq<Seq<char>>|
            plain_names(inputs) && plain_names(outputs) && json@ == #[trigger] port_json(
                inputs,
                outputs,
            ) ==> port_views(parsed->Ok_0.0@) == named_ports(inputs) && port_views(
                parsed->Ok_0.1@,
            ) == named_ports(outputs),
{
    let chars = to_chars(json);
    let inputs_header = to_chars(INPUTS_HEADER);
    let outputs_header = to_chars(OUTPUTS_HEADER);
    let mut inputs: Vec<PortId> = Vec::new();
    let mut outputs: Vec<PortId> = Vec::new();
    let mut section = Section::Outside;
    let mut pos: usize = 0;
    let mut done = false;
    let ghost start = Listing {
        section: Section::Outside,
        inputs: Seq::empty(),
        outputs: Seq::empty(),
    };
    proof {
        assert(port_views(inputs@) =~= Seq::empty());
        assert(port_views(outputs@) =~= Seq::empty());
        assert(json@.skip(0) =~= json@);
    }
    while !done
        invariant
            pos <= chars@.len(),
            chars@ == json@,
            inputs_header@ == INPUTS_HEADER@,
            outputs_header@ == OUTPUTS_HEADER@,
            !done ==> read_lines(start, json@) == read_lines(
                Listing { section, inputs: port_views(inputs@), outputs: port_views(outputs@) },
                json@.skip(pos as int),
            ),
            done ==> read_lines(start, json@) == (Listing {
                section,
                inputs: port_views(inputs@),
                outputs: port_views(outputs@),
            }),
        decreases chars@.len() - pos + (if done { 0int } else { 1int }),
    {
        if pos >= chars.len() {
            done = true;
        } else {
            let ghost rest = json@.skip(pos as int);
            let ghost state = Listing {
                section,
                inputs: port_views(inputs@),
                outputs: port_views(outputs@),
            };
            let end = line_end(&chars, pos);
            let (from, to) = trim_range(&chars, pos, end);
            let ghost raw = rest.take(end - pos);
            let ghost line = chars@.subrange(from as int, to as int);
            proof {
                assert(raw =~= chars@.subrange(pos as int, end as int));
                assert(line == trim(raw));
            }
            if range_starts_with(&chars, from, to, &inputs_header) {
                section = Section::Inputs;
            } else if range_starts_with(&chars, from, to, &outputs_header) {
                section = Section::Outputs;
            } else if to - from >= 2 && chars[from] == '"' {
                let close = find_char(&chars, from + 1, to, '"');
                proof {
                    assert(line.drop_first() =~= chars@.subrange(from + 1, to as int));
                }
                if close < to {
                    let name = json.substring_char(from + 1, close);
                    let ghost held_inputs = port_views(inputs@);
                    let ghost held_outputs = port_views(outputs@);
                    proof {
                        assert(line.subrange(1, close - from) =~= json@.subrange(
                            from + 1,
                            close as int,
                        ));
                        assert(quoted_name(line) == Some(name@));
                    }
                    let port = PortId::new(String::from_str(name), is_reserved(name));
                    assert(port@ == named_port(name@));
                    match section {
                        Section::Inputs => {
                            inputs.push(port);
                            assert(port_views(inputs@) =~= held_inputs.push(named_port(name@)));
                        },
                        Section::Outputs => {
                            outputs.push(port);
                            assert(port_views(outputs@) =~= held_outputs.push(named_port(name@)));
                        },
                        Section::Outside => {},
                    }
                } else {
                    assert(quoted_name(line) is None);
                }
            } else {
                assert(quoted_name(line) is None);
            }
            proof {
                let next = Listing {
                    section,
                    inputs: port_views(inputs@),
                    outputs: port_views(outputs@),
                };
                assert(next == read_line(state, raw));
                if end < chars@.len() {
                    assert(rest.skip(end - pos + 1) =~= json@.skip(end + 1));
                }
            }
            if end < chars.len() {
                pos = end + 1;
            } else {
                pos = end;
                done = true;
            }
        }
    }
    proof {
        assert forall|ins: Seq<Seq<char>>, outs: Seq<Seq<char>>|
            plain_names(ins) && plain_names(outs) && json@ == #[trigger] port_json(
                ins,
                outs,
            ) implies port_views(inputs@) == named_ports(ins) && port_views(outputs@)
            == named_ports(outs) by {
            lemma_listing_reads_back(ins, outs);
        }
    }
    Ok((inputs, outputs))
}

/// The line of a listing that holds the name at position `at`: the name
/// in quotes after four spaces, and a comma unless it is the last.
pub open spec fn entry_line(names: Seq<Seq<char>>, at: int) -> Seq<char> {
    "    \""@ + names[at] + if at < names.len() - 1 {
        "\",\n"@
    } else {
        "\"\n"@
    }
}

/// The lines of a listing for the first `count` names.
pub open spec fn entry_lines(names: Seq<Seq<char>>, count: nat) -> Seq<char>
    decreases count,
{
    if count == 0 {
        Seq::empty()
    } else {
        entry_lines(names, (count - 1) as nat) + entry_line(names, count - 1)
    }
}

/// The text of a port listing: an object with the raw names of the inputs
/// and of the outputs, one name per line.
pub open spec fn port_json(inputs: Seq<Seq<char>>, outputs: Seq<Seq<char>>) -> Seq<char> {
    "{\n"@ + "  \"inputs\": [\n"@ + entry_lines(inputs, inputs.len()) + "  ],\n"@
        + "  \"outputs\": [\n"@ + entry_lines(outputs, outputs.len()) + "  ]\n"@ + "}\n"@
}

/// Appends the lines for the names of `ports` to `text`.
fn append_entries(text: &mut String, ports: &Vec<PortId>)
    ensures
        final(text)@ == old(text)@ + entry_lines(port_names(port_views(ports@)), ports@.len()),
{
    let ghost names = port_names(port_views(ports@));
    let ghost before = text@;
    let mut i: usize = 0;
    assert(before + entry_lines(names, 0) =~= before);
    while i < ports.len()
        invariant
            i <= ports.len(),
            names == port_names(port_views(ports@)),
            text@ == before + entry_lines(names, i as nat),
        decreases ports.len() - i,
    {
        let ghost held = text@;
        text.append("    \"");
        text.append(ports[i].name.as_str());
        if i < ports.len() - 1 {
            text.append("\",\n");
        } else {
            text.append("\"\n");
        }
        assert(text@ =~= held + entry_line(names, i as int));
        assert(text@ =~= before + entry_lines(names, (i + 1) as nat));
        i += 1;
    }
}

/// Writes the port listing that [`parse_port_json`] reads: what the
/// port-listing mode of the program prints.
pub fn format_port_json(inputs: &Vec<PortId>, outputs: &Vec<PortId>) -> (text: String)
    ensures
        text@ == port_json(port_names(port_views(inputs@)), port_names(port_views(outputs@))),
{
    let mut text = String::from_str("{\n");
    text.append("  \"inputs\": [\n");
    append_entries(&mut text, inputs);
    text.append("  ],\n");
    text.append("  \"outputs\": [\n");
    append_entries(&mut text, outputs);
    text.append("  ]\n");
    text.append("}\n");
    text
}

/// The hot-plug detector: the last listing it was shown, if any.
#[derive(Debug)]
pub struct PortMonitor {
    previous_devices: Option<String>,
}

impl View for PortMonitor {
    type V = Option<Seq<char>>;

    closed spec fn view(&self) -> Option<Seq<char>> {
        match self.previous_devices {
            Some(text) => Some(text@),
            None => None,
        }
    }
}

/// Whether a capture differs from the listing seen before it. The first
/// capture differs from nothing.
pub open spec fn listing_changed(previous: Option<Seq<char>>, capture: Seq<char>) -> bool {
    previous matches Some(text) && text != capture
}

/// Starts hot-plug detection: a detector that has seen no listing yet.
pub fn start_monitor() -> (monitor: PortMonitor)
    ensures
        monitor@ is None,
{
    PortMonitor { previous_devices: None }
}

impl PortMonitor {
    /// Shows the detector the listing that a fresh enumeration gave. The
    /// first listing only sets the baseline. A later one that differs from
    /// the one before it yields an event with the ports it names, which for
    /// a listing written for plain names are the ports of those names; one
    /// that does not differ yields nothing. Either way the listing shown is
    /// the baseline for the next.
    pub fn observe(&mut self, devices_json: String) -> (event: Option<AppEvent>)
        ensures
            final(self)@ == Some(devices_json@),
            listing_changed(old(self)@, devices_json@) ==> (event matches Some(
                AppEvent::PortListUpdate { inputs, outputs },
            ) && port_views(inputs@) == parsed_ports(devices_json@).0 && port_views(outputs@)
                == parsed_ports(devices_json@).1),
            listing_changed(old(self)@, devices_json@) ==> forall|
                names_in: Seq<Seq<char>>,
                names_out: Seq<Seq<char>>,
            |
                plain_names(names_in) && plain_names(names_out) && devices_json@
                    == #[trigger] port_json(names_in, names_out) ==> (event matches Some(
                    AppEvent::PortListUpdate { inputs, outputs },
                ) && port_views(inputs@) == named_ports(names_in) && port_views(outputs@)
                    == named_ports(names_out)),
            !listing_changed(old(self)@, devices_json@) ==> event is None,
    {
        let changed = match &self.previous_devices {
            Some(previous) => !(*previous == devices_json),
            None => false,
        };
        let event = if changed {
            match parse_port_json(devices_json.as_str()) {
                Ok((inputs, outputs)) => Some(AppEvent::PortListUpdate { inputs, outputs }),
                Err(_) => None,
            }
        } else {
            None
        };
        self.previous_devices = Some(devices_json);
        event
    }
}

} // verus!
