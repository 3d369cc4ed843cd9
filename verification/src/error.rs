//! What can go wrong when a route is started or a message is delivered.

use vstd::prelude::*;

verus! {

/// Errors of the connection engine.
#[derive(Debug)]
pub enum MidiError {
    /// A named endpoint was absent when the route was started.
    PortNotFound { name: String },
    /// The route is already registered.
    AlreadyExists,
    /// The platform has no virtual ports, or they are not set up yet.
    VirtualPortsUnavailable,
    /// A worker for the route could not be brought up.
    SpawnFailed,
    /// One message did not reach one sink. Delivery goes on.
    SendFailed,
}

/// What a [`MidiError`] stands for.
pub enum MidiErrorView {
    PortNotFound { name: Seq<char> },
    AlreadyExists,
    VirtualPortsUnavailable,
    SpawnFailed,
    SendFailed,
}

impl View for MidiError {
    type V = MidiErrorView;

    open spec fn view(&self) -> MidiErrorView {
        match self {
            MidiError::PortNotFound { name } => MidiErrorView::PortNotFound { name: name@ },
            MidiError::AlreadyExists => MidiErrorView::AlreadyExists,
            MidiError::VirtualPortsUnavailable => MidiErrorView::VirtualPortsUnavailable,
            MidiError::SpawnFailed => MidiErrorView::SpawnFailed,
            MidiError::SendFailed => MidiErrorView::SendFailed,
        }
    }
}

/// The text in front of the name in the message of a missing port.
pub open spec fn not_found_prefix() -> Seq<char> {
    "Port not found: "@
}

impl MidiError {
    /// The message shown for the error.
    pub fn message(&self) -> (text: String)
        ensures
            text@ == match self@ {
                MidiErrorView::PortNotFound { name } => not_found_prefix() + name,
                MidiErrorView::AlreadyExists => "Connection already exists"@,
                MidiErrorView::VirtualPortsUnavailable => "Virtual ports not initialized"@,
                MidiErrorView::SpawnFailed => "Failed to spawn worker"@,
                MidiErrorView::SendFailed => "Failed to send message"@,
            },
    {
        match self {
            MidiError::PortNotFound { name } => {
                let mut text = String::from_str("Port not found: ");
                text.append(name.as_str());
                text
            },
            MidiError::AlreadyExists => String::from_str("Connection already exists"),
            MidiError::VirtualPortsUnavailable => String::from_str(
                "Virtual ports not initialized",
            ),
            MidiError::SpawnFailed => String::from_str("Failed to spawn worker"),
            MidiError::SendFailed => String::from_str("Failed to send message"),
        }
    }
}

} // verus!
