//! Why the hot-plug detector can trust its own listings: what
//! [`format_port_json`](crate::midi::monitor::format_port_json) writes,
//! [`parse_port_json`](crate::midi::monitor::parse_port_json) reads back.

use crate::connection::{port_names, PortIdView};
use crate::midi::virtual_ports::is_reserved_name;
use crate::midi::monitor::{
    entry_line, entry_lines, lemma_line_len, named_port, parsed_ports, port_json, quoted_name,
    read_line, read_lines, Listing, Section, INPUTS_HEADER, OUTPUTS_HEADER,
};
use crate::sequences::lemma_first_match_at;
use crate::text::{is_whitespace, starts_with, trim};
use vstd::prelude::*;

verus! {

/// Reading a text that starts with a whole line is reading that line and
/// then the rest.
pub proof fn lemma_read_first_line(state: Listing, line: Seq<char>, rest: Seq<char>)
    requires
        !line.contains('\n'),
    ensures
        read_lines(state, line + seq!['\n'] + rest) == read_lines(read_line(state, line), rest),
{
    let text = line + seq!['\n'] + rest;
    let n = line.len() as int;
    assert forall|k: int| 0 <= k < n implies text[k] != '\n' by {
        assert(text[k] == line[k]);
        assert(line.contains(line[k]));
    }
    assert(text[n] == '\n');
    lemma_line_len(text, n);
    assert(text.take(n) =~= line);
    assert(text.skip(n + 1) =~= rest);
    if rest.len() == 0 {
        assert(read_lines(read_line(state, line), rest) == read_line(state, line));
    }
}

/// Trimming takes white space off the front of a text that neither starts
/// nor ends with white space, and nothing else.
pub proof fn lemma_trim_padded(pad: Seq<char>, body: Seq<char>)
    requires
        forall|k: int| 0 <= k < pad.len() ==> is_whitespace(#[trigger] pad[k]),
        body.len() > 0 ==> !is_whitespace(body[0]) && !is_whitespace(body.last()),
    ensures
        trim(pad + body) == body,
    decreases pad.len(),
{
    if pad.len() == 0 {
        assert(pad + body =~= body);
    } else {
        let rest = pad.drop_first();
        assert((pad + body)[0] == pad[0]);
        assert((pad + body).drop_first() =~= rest + body);
        assert forall|k: int| 0 <= k < rest.len() implies is_whitespace(#[trigger] rest[k]) by {
            assert(rest[k] == pad[k + 1]);
        }
        lemma_trim_padded(rest, body);
    }
}

/// A line that does not start with a quote changes nothing.
pub proof fn lemma_unquoted_line_passed_over(state: Listing, raw: Seq<char>)
    requires
        trim(raw).len() == 0 || trim(raw)[0] != '"',
    ensures
        read_line(state, raw) == state,
{
    reveal_strlit("\"inputs\":");
    reveal_strlit("\"outputs\":");
    let line = trim(raw);
    if starts_with(line, INPUTS_HEADER@) {
        assert(line.subrange(0, 9)[0] == line[0]);
    }
    if starts_with(line, OUTPUTS_HEADER@) {
        assert(line.subrange(0, 10)[0] == line[0]);
    }
}

/// The line that opens the list of inputs does so.
proof fn lemma_inputs_header(state: Listing)
    ensures
        "  \"inputs\": [\n"@ == "  \"inputs\": ["@ + seq!['\n'],
        !"  \"inputs\": ["@.contains('\n'),
        read_line(state, "  \"inputs\": ["@) == (Listing { section: Section::Inputs, ..state }),
{
    reveal_strlit("  \"inputs\": [\n");
    reveal_strlit("  \"inputs\": [");
    reveal_strlit("\"inputs\":");
    let raw = "  \"inputs\": ["@;
    assert("  \"inputs\": [\n"@ =~= raw + seq!['\n']);
    let pad = raw.take(2);
    let body = raw.skip(2);
    assert(raw =~= pad + body);
    lemma_trim_padded(pad, body);
    assert(body.subrange(0, 9) =~= INPUTS_HEADER@);
}

/// The line that opens the list of outputs does so.
proof fn lemma_outputs_header(state: Listing)
    ensures
        "  \"outputs\": [\n"@ == "  \"outputs\": ["@ + seq!['\n'],
        !"  \"outputs\": ["@.contains('\n'),
        read_line(state, "  \"outputs\": ["@) == (Listing { section: Section::Outputs, ..state }),
{
    reveal_strlit("  \"outputs\": [\n");
    reveal_strlit("  \"outputs\": [");
    reveal_strlit("\"inputs\":");
    reveal_strlit("\"outputs\":");
    let raw = "  \"outputs\": ["@;
    assert("  \"outputs\": [\n"@ =~= raw + seq!['\n']);
    let pad = raw.take(2);
    let body = raw.skip(2);
    assert(raw =~= pad + body);
    lemma_trim_padded(pad, body);
    if starts_with(body, INPUTS_HEADER@) {
        assert(body.subrange(0, 9)[1] == body[1]);
    }
    assert(body.subrange(0, 10) =~= OUTPUTS_HEADER@);
}

/// The lines that frame the lists change nothing.
proof fn lemma_frame_lines(state: Listing)
    ensures
        "{\n"@ == "{"@ + seq!['\n'],
        "  ],\n"@ == "  ],"@ + seq!['\n'],
        "  ]\n"@ == "  ]"@ + seq!['\n'],
        "}\n"@ == "}"@ + seq!['\n'],
        !"{"@.contains('\n'),
        !"  ],"@.contains('\n'),
        !"  ]"@.contains('\n'),
        !"}"@.contains('\n'),
        read_line(state, "{"@) == state,
        read_line(state, "  ],"@) == state,
        read_line(state, "  ]"@) == state,
        read_line(state, "}"@) == state,
{
    reveal_strlit("{\n");
    reveal_strlit("{");
    reveal_strlit("  ],\n");
    reveal_strlit("  ],");
    reveal_strlit("  ]\n");
    reveal_strlit("  ]");
    reveal_strlit("}\n");
    reveal_strlit("}");
    assert("{\n"@ =~= "{"@ + seq!['\n']);
    assert("  ],\n"@ =~= "  ],"@ + seq!['\n']);
    assert("  ]\n"@ =~= "  ]"@ + seq!['\n']);
    assert("}\n"@ =~= "}"@ + seq!['\n']);
    lemma_trim_padded(Seq::empty(), "{"@);
    assert(Seq::<char>::empty() + "{"@ =~= "{"@);
    lemma_trim_padded(Seq::empty(), "}"@);
    assert(Seq::<char>::empty() + "}"@ =~= "}"@);
    lemma_trim_padded("  ],"@.take(2), "  ],"@.skip(2));
    assert("  ],"@ =~= "  ],"@.take(2) + "  ],"@.skip(2));
    lemma_trim_padded("  ]"@.take(2), "  ]"@.skip(2));
    assert("  ]"@ =~= "  ]"@.take(2) + "  ]"@.skip(2));
    lemma_unquoted_line_passed_over(state, "{"@);
    lemma_unquoted_line_passed_over(state, "}"@);
    lemma_unquoted_line_passed_over(state, "  ],"@);
    lemma_unquoted_line_passed_over(state, "  ]"@);
}

/// Whether a listing gives a name back as it is: the name holds no quote
/// and no line feed. It may be empty.
pub open spec fn plain_name(name: Seq<char>) -> bool {
    !name.contains('"') && !name.contains('\n')
}

/// Whether every name of a list is plain.
pub open spec fn plain_names(names: Seq<Seq<char>>) -> bool {
    forall|i: int| 0 <= i < names.len() ==> plain_name(#[trigger] names[i])
}

/// The listing after a port of that name is read into the open list.
pub open spec fn with_port(state: Listing, name: Seq<char>) -> Listing {
    match state.section {
        Section::Inputs => Listing { inputs: state.inputs.push(named_port(name)), ..state },
        Section::Outputs => Listing { outputs: state.outputs.push(named_port(name)), ..state },
        Section::Outside => state,
    }
}

/// A name in quotes, with or without a comma after it, opens no list and
/// gives the name.
proof fn lemma_quoted_line(name: Seq<char>, close: Seq<char>)
    requires
        plain_name(name),
        close == seq!['"'] || close == seq!['"', ','],
    ensures
        !starts_with(seq!['"'] + name + close, INPUTS_HEADER@),
        !starts_with(seq!['"'] + name + close, OUTPUTS_HEADER@),
        quoted_name(seq!['"'] + name + close) == Some(name),
{
    reveal_strlit("\"inputs\":");
    reveal_strlit("\"outputs\":");
    let body = seq!['"'] + name + close;
    let n = name.len() as int;
    assert(body[0] == '"');
    assert(body[n + 1] == '"');
    assert forall|k: int| 1 <= k <= n implies body[k] == name[k - 1] && body[k] != '"' by {
        assert(name.contains(name[k - 1]));
    }
    // the quote that closes the key would close the name, and then a colon
    // would stand where the line has a comma or its end
    if starts_with(body, INPUTS_HEADER@) {
        let found = body.subrange(0, 9);
        assert(found[7] == body[7]);
        assert(found[8] == body[8]);
        assert(n == 6);
    }
    if starts_with(body, OUTPUTS_HEADER@) {
        let found = body.subrange(0, 10);
        assert(found[8] == body[8]);
        assert(found[9] == body[9]);
        assert(n == 7);
    }
    let tail = body.drop_first();
    assert(tail =~= name + close);
    assert(tail[n] == '"');
    assert forall|k: int| 0 <= k < n implies tail[k] != '"' by {
        assert(tail[k] == body[k + 1]);
    }
    lemma_first_match_at(tail, '"', n);
    assert(body.subrange(1, n + 1) =~= name);
}

/// The line of a listing for the name at position `at`, without the line
/// feed that ends it.
pub open spec fn entry_text(names: Seq<Seq<char>>, at: int) -> Seq<char> {
    "    \""@ + names[at] + if at < names.len() - 1 {
        "\","@
    } else {
        "\""@
    }
}

/// The line of a listing that holds a plain name puts the port of that
/// name into the open list.
proof fn lemma_entry_line(state: Listing, names: Seq<Seq<char>>, at: int)
    requires
        0 <= at < names.len(),
        plain_name(names[at]),
    ensures
        entry_line(names, at) == entry_text(names, at) + seq!['\n'],
        !entry_text(names, at).contains('\n'),
        read_line(state, entry_text(names, at)) == with_port(state, names[at]),
{
    reveal_strlit("    \"");
    reveal_strlit("\",\n");
    reveal_strlit("\"\n");
    reveal_strlit("\",");
    reveal_strlit("\"");
    let name = names[at];
    let pad = seq![' ', ' ', ' ', ' '];
    let close = if at < names.len() - 1 {
        seq!['"', ',']
    } else {
        seq!['"']
    };
    let body = seq!['"'] + name + close;
    let line = pad + body;
    assert(entry_text(names, at) =~= line);
    assert(entry_line(names, at) =~= line + seq!['\n']);
    assert forall|k: int| 0 <= k < line.len() implies line[k] != '\n' by {
        if 5 <= k < 5 + name.len() {
            assert(line[k] == name[k - 5]);
            assert(name.contains(name[k - 5]));
        }
    }
    assert(body[0] == '"');
    assert(body.last() == close.last());
    lemma_trim_padded(pad, body);
    lemma_quoted_line(name, close);
}

/// The listing after a port of each name is read into the open list.
pub open spec fn with_ports(state: Listing, names: Seq<Seq<char>>) -> Listing
    decreases names.len(),
{
    if names.len() == 0 {
        state
    } else {
        with_port(with_ports(state, names.drop_last()), names.last())
    }
}

/// The ports that a list of names stands for.
pub open spec fn named_ports(names: Seq<Seq<char>>) -> Seq<PortIdView> {
    names.map_values(|name: Seq<char>| named_port(name))
}

/// Reading names into a list adds their ports at its end and leaves the
/// other list and the open section alone.
proof fn lemma_with_ports(state: Listing, names: Seq<Seq<char>>)
    ensures
        with_ports(state, names) == match state.section {
            Section::Inputs => Listing { inputs: state.inputs + named_ports(names), ..state },
            Section::Outputs => Listing { outputs: state.outputs + named_ports(names), ..state },
            Section::Outside => state,
        },
    decreases names.len(),
{
    if names.len() == 0 {
        assert(state.inputs + named_ports(names) =~= state.inputs);
        assert(state.outputs + named_ports(names) =~= state.outputs);
    } else {
        let front = names.drop_last();
        lemma_with_ports(state, front);
        assert(named_ports(names) =~= named_ports(front).push(named_port(names.last())));
        assert((state.inputs + named_ports(front)).push(named_port(names.last()))
            =~= state.inputs + named_ports(names));
        assert((state.outputs + named_ports(front)).push(named_port(names.last()))
            =~= state.outputs + named_ports(names));
    }
}

/// Reading the lines for the first `count` names reads those names into
/// the open list.
proof fn lemma_read_entries(state: Listing, names: Seq<Seq<char>>, count: nat, rest: Seq<char>)
    requires
        count <= names.len(),
        plain_names(names),
    ensures
        read_lines(state, entry_lines(names, count) + rest) == read_lines(
            with_ports(state, names.take(count as int)),
            rest,
        ),
    decreases count,
{
    if count == 0 {
        assert(entry_lines(names, count) + rest =~= rest);
        assert(names.take(0).len() == 0);
    } else {
        let before = (count - 1) as nat;
        let later = entry_line(names, before as int) + rest;
        assert(entry_lines(names, count) + rest =~= entry_lines(names, before) + later);
        lemma_read_entries(state, names, before, later);
        let midway = with_ports(state, names.take(before as int));
        lemma_entry_line(midway, names, before as int);
        let line = entry_text(names, before as int);
        assert(later =~= line + seq!['\n'] + rest);
        lemma_read_first_line(midway, line, rest);
        assert(names.take(count as int).drop_last() =~= names.take(before as int));
        assert(names.take(count as int).last() == names[before as int]);
    }
}

/// A listing written for plain names reads back as the ports of those
/// names: inputs as inputs, outputs as outputs, each in its place. A port
/// may be called anything, `inputs` and `outputs` included.
pub proof fn lemma_listing_reads_back(inputs: Seq<Seq<char>>, outputs: Seq<Seq<char>>)
    requires
        plain_names(inputs),
        plain_names(outputs),
    ensures
        parsed_ports(port_json(inputs, outputs)) == (named_ports(inputs), named_ports(outputs)),
{
    let start = Listing { section: Section::Outside, inputs: Seq::empty(), outputs: Seq::empty() };
    let in_inputs = Listing { section: Section::Inputs, ..start };
    let read_inputs = with_ports(in_inputs, inputs);
    let in_outputs = Listing { section: Section::Outputs, ..read_inputs };
    let read_outputs = with_ports(in_outputs, outputs);
    let none = Seq::<char>::empty();

    let tail5 = "}"@ + seq!['\n'] + none;
    let tail4 = "  ]"@ + seq!['\n'] + tail5;
    let tail3 = entry_lines(outputs, outputs.len()) + tail4;
    let tail2 = "  \"outputs\": ["@ + seq!['\n'] + tail3;
    let tail1 = "  ],"@ + seq!['\n'] + tail2;
    let tail0 = entry_lines(inputs, inputs.len()) + tail1;
    let head = "  \"inputs\": ["@ + seq!['\n'] + tail0;
    let text = "{"@ + seq!['\n'] + head;

    lemma_frame_lines(start);
    lemma_inputs_header(start);
    lemma_frame_lines(read_inputs);
    lemma_outputs_header(read_inputs);
    lemma_frame_lines(read_outputs);
    assert(port_json(inputs, outputs) =~= text);

    lemma_read_first_line(start, "{"@, head);
    lemma_read_first_line(start, "  \"inputs\": ["@, tail0);
    lemma_read_entries(in_inputs, inputs, inputs.len(), tail1);
    assert(inputs.take(inputs.len() as int) =~= inputs);
    lemma_read_first_line(read_inputs, "  ],"@, tail2);
    lemma_read_first_line(read_inputs, "  \"outputs\": ["@, tail3);
    lemma_read_entries(in_outputs, outputs, outputs.len(), tail4);
    assert(outputs.take(outputs.len() as int) =~= outputs);
    lemma_read_first_line(read_outputs, "  ]"@, tail5);
    lemma_read_first_line(read_outputs, "}"@, none);
    assert(read_lines(start, text) == read_outputs);

    lemma_with_ports(in_inputs, inputs);
    lemma_with_ports(in_outputs, outputs);
    assert(Seq::<PortIdView>::empty() + named_ports(inputs) =~= named_ports(inputs));
    assert(Seq::<PortIdView>::empty() + named_ports(outputs) =~= named_ports(outputs));
}

/// Port lists are read back from their listing as they are, if every port
/// has a plain name and is virtual exactly when its name is reserved, as
/// the ports of an enumeration are.
pub proof fn lemma_port_lists_read_back(inputs: Seq<PortIdView>, outputs: Seq<PortIdView>)
    requires
        forall|i: int|
            0 <= i < inputs.len() ==> plain_name((#[trigger] inputs[i]).name)
                && inputs[i].is_virtual == is_reserved_name(inputs[i].name),
        forall|i: int|
            0 <= i < outputs.len() ==> plain_name((#[trigger] outputs[i]).name)
                && outputs[i].is_virtual == is_reserved_name(outputs[i].name),
    ensures
        parsed_ports(port_json(port_names(inputs), port_names(outputs))) == (inputs, outputs),
{
    assert forall|i: int| 0 <= i < port_names(inputs).len() implies plain_name(
        #[trigger] port_names(inputs)[i],
    ) by {
        assert(port_names(inputs)[i] == inputs[i].name);
    }
    assert forall|i: int| 0 <= i < port_names(outputs).len() implies plain_name(
        #[trigger] port_names(outputs)[i],
    ) by {
        assert(port_names(outputs)[i] == outputs[i].name);
    }
    lemma_listing_reads_back(port_names(inputs), port_names(outputs));
    assert(named_ports(port_names(inputs)) =~= inputs);
    assert(named_ports(port_names(outputs)) =~= outputs);
}

/// The reserved names are plain: a listing always gives the virtual ports
/// back.
pub proof fn lemma_reserved_names_plain(name: Seq<char>)
    requires
        is_reserved_name(name),
    ensures
        plain_name(name),
{
    reveal_strlit("mc-in-a");
    reveal_strlit("mc-in-b");
    reveal_strlit("mc-out-a");
    reveal_strlit("mc-out-b");
    if name.contains('"') {
        let k = choose|k: int| 0 <= k < name.len() && name[k] == '"';
    }
    if name.contains('\n') {
        let k = choose|k: int| 0 <= k < name.len() && name[k] == '\n';
    }
}

} // verus!
