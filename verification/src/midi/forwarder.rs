//! Forwarding on a device route: which bytes go out for the bytes that came
//! in, and which of the ports a driver reports a route is bound to.

use crate::connection::{Connection, ConnectionView};
use crate::error::{MidiError, MidiErrorView};
use crate::midi::ports::text_views;
use crate::midi::validation::{
    is_valid_midi_message, message_valid, normalize_program_change, normalized,
};
use crate::sequences::{first_match, lemma_first_match};
use crate::text::str_equal;
use vstd::prelude::*;

verus! {

/// What is sent on for a received buffer: the buffer, with a Program Change
/// cut to two bytes, if that is a valid message, and nothing otherwise.
pub open spec fn forwarded(message: Seq<u8>) -> Option<Seq<u8>> {
    if message_valid(normalized(message)) {
        Some(normalized(message))
    } else {
        None
    }
}

/// The ports a device route is bound to, as positions in the lists that the
/// driver reported when the route was started.
#[derive(Debug)]
pub struct ForwarderHandle {
    pub connection: Connection,
    pub input_port: usize,
    pub output_port: usize,
}

/// What a [`ForwarderHandle`] stands for.
pub struct ForwarderView {
    pub connection: ConnectionView,
    pub input_port: int,
    pub output_port: int,
}

impl View for ForwarderHandle {
    type V = ForwarderView;

    open spec fn view(&self) -> ForwarderView {
        ForwarderView {
            connection: self.connection@,
            input_port: self.input_port as int,
            output_port: self.output_port as int,
        }
    }
}

impl Clone for ForwarderHandle {
    fn clone(&self) -> (copy: Self)
        ensures
            copy == *self,
    {
        ForwarderHandle {
            connection: self.connection.clone(),
            input_port: self.input_port,
            output_port: self.output_port,
        }
    }
}

/// What a forwarder for `route` is bound to, given the names the driver
/// reports: both endpoints at the first port of their name, or the first
/// endpoint that no port is named after.
pub open spec fn forwarder_binding(
    sources: Seq<Seq<char>>,
    destinations: Seq<Seq<char>>,
    route: ConnectionView,
) -> Result<ForwarderView, MidiErrorView> {
    match first_match(sources, route.input.name) {
        None => Err(MidiErrorView::PortNotFound { name: route.input.name }),
        Some(input_port) => match first_match(destinations, route.output.name) {
            None => Err(MidiErrorView::PortNotFound { name: route.output.name }),
            Some(output_port) => Ok(ForwarderView { connection: route, input_port, output_port }),
        },
    }
}

/// Decides what to send on for one received buffer. A Program Change is cut
/// to two bytes first, so one with bytes appended is kept; whatever is then
/// not a valid message is dropped without a word.
pub fn handle_midi_message(message: &[u8]) -> (out: Option<Vec<u8>>)
    ensures
        match out {
            Some(bytes) => forwarded(message@) == Some(bytes@),
            None => forwarded(message@) is None,
        },
{
    let candidate = normalize_program_change(message);
    if is_valid_midi_message(candidate.as_slice()) {
        Some(candidate)
    } else {
        None
    }
}

/// Looks a port up by its exact name and returns the first position that
/// holds it.
pub fn find_port(names: &Vec<String>, wanted: &str) -> (found: Option<usize>)
    ensures
        match found {
            Some(i) => first_match(text_views(names@), wanted@) == Some(i as int),
            None => first_match(text_views(names@), wanted@) is None,
        },
{
    let ghost texts = text_views(names@);
    let mut i: usize = 0;
    while i < names.len()
        invariant
            i <= names.len(),
            texts == text_views(names@),
            forall|k: int| 0 <= k < i ==> texts[k] != wanted@,
        decreases names.len() - i,
    {
        if str_equal(names[i].as_str(), wanted) {
            proof {
                lemma_first_match(texts, wanted@);
                assert(texts[i as int] == wanted@);
            }
            return Some(i);
        }
        i += 1;
    }
    proof {
        lemma_first_match(texts, wanted@);
    }
    None
}

/// Binds a route to the ports that carry its endpoints' names. Fails with
/// `PortNotFound` for the input if no source has its name, else for the
/// output if no destination has its name.
pub fn start_forwarder(
    connection: Connection,
    sources: &Vec<String>,
    destinations: &Vec<String>,
) -> (started: Result<ForwarderHandle, MidiError>)
    ensures
        match started {
            Ok(handle) => handle.connection == connection && forwarder_binding(
                text_views(sources@),
                text_views(destinations@),
                connection@,
            ) == Ok::<ForwarderView, MidiErrorView>(handle@),
            Err(error) => forwarder_binding(
                text_views(sources@),
                text_views(destinations@),
                connection@,
            ) == Err::<ForwarderView, MidiErrorView>(error@),
        },
{
    match find_port(sources, connection.input.name.as_str()) {
        None => Err(MidiError::PortNotFound { name: connection.input.name.clone() }),
        Some(input_port) => match find_port(destinations, connection.output.name.as_str()) {
            None => Err(MidiError::PortNotFound { name: connection.output.name.clone() }),
            Some(output_port) => Ok(ForwarderHandle { connection, input_port, output_port }),
        },
    }
}

/// The next chunk a byte relay writes to its output, given what reading its
/// input returned: the bytes read, as they are; or nothing, which ends the
/// relay, when the input is closed (no byte read) or reading failed.
pub open spec fn relayed(buffer: Seq<u8>, read: Option<usize>) -> Option<Seq<u8>> {
    match read {
        Some(n) => if n > 0 {
            Some(buffer.subrange(0, n as int))
        } else {
            None
        },
        None => None,
    }
}

/// One step of a byte relay: what to write for the outcome of a read into
/// `buffer`. `None` ends the relay.
pub fn relay_chunk(buffer: &[u8], read: Option<usize>) -> (chunk: Option<Vec<u8>>)
    requires
        read matches Some(n) ==> n <= buffer@.len(),
    ensures
        match chunk {
            Some(bytes) => relayed(buffer@, read) == Some(bytes@),
            None => relayed(buffer@, read) is None,
        },
{
    match read {
        Some(n) => {
            if n == 0 {
                return None;
            }
            let mut bytes: Vec<u8> = Vec::new();
            let mut i: usize = 0;
            while i < n
                invariant
                    i <= n <= buffer@.len(),
                    bytes@ == buffer@.subrange(0, i as int),
                decreases n - i,
            {
                bytes.push(buffer[i]);
                i += 1;
            }
            Some(bytes)
        },
        None => None,
    }
}

} // verus!
