//! Events passed between the engine and whoever drives it.

use crate::connection::{port_views, Connection, ConnectionView, PortId, PortIdView};
use vstd::prelude::*;

verus! {

/// Events sent between threads.
#[derive(Debug)]
pub enum AppEvent {
    /// Request to start a new connection.
    StartConnection(Connection),
    /// Request to stop a connection.
    StopConnection(Connection),
    /// Connection status update.
    ConnectionStatus { connection: Connection, status: String },
    /// Error occurred.
    Error(String),
    /// Log message.
    Log(String),
    /// MIDI ports changed (hot-plug event).
    PortsChanged,
    /// Updated port lists from a fresh enumeration.
    PortListUpdate { inputs: Vec<PortId>, outputs: Vec<PortId> },
}

/// What an [`AppEvent`] stands for.
pub enum AppEventView {
    StartConnection(ConnectionView),
    StopConnection(ConnectionView),
    ConnectionStatus { connection: ConnectionView, status: Seq<char> },
    Error(Seq<char>),
    Log(Seq<char>),
    PortsChanged,
    PortListUpdate { inputs: Seq<PortIdView>, outputs: Seq<PortIdView> },
}

impl View for AppEvent {
    type V = AppEventView;

    open spec fn view(&self) -> AppEventView {
        match self {
            AppEvent::StartConnection(connection) => AppEventView::StartConnection(connection@),
            AppEvent::StopConnection(connection) => AppEventView::StopConnection(connection@),
            AppEvent::ConnectionStatus { connection, status } => AppEventView::ConnectionStatus {
                connection: connection@,
                status: status@,
            },
            AppEvent::Error(message) => AppEventView::Error(message@),
            AppEvent::Log(message) => AppEventView::Log(message@),
            AppEvent::PortsChanged => AppEventView::PortsChanged,
            AppEvent::PortListUpdate { inputs, outputs } => AppEventView::PortListUpdate {
                inputs: port_views(inputs@),
                outputs: port_views(outputs@),
            },
        }
    }
}

/// A copy of a list of ports.
pub fn clone_ports(ports: &Vec<PortId>) -> (copy: Vec<PortId>)
    ensures
        copy@ == ports@,
{
    let mut copy: Vec<PortId> = Vec::new();
    let mut i: usize = 0;
    while i < ports.len()
        invariant
            i <= ports.len(),
            copy@ == ports@.take(i as int),
        decreases ports.len() - i,
    {
        copy.push(ports[i].clone());
        assert(ports@.take(i + 1) =~= ports@.take(i as int).push(ports@[i as int]));
        i += 1;
    }
    assert(ports@.take(ports.len() as int) =~= ports@);
    copy
}

impl Clone for AppEvent {
    fn clone(&self) -> (copy: Self)
        ensures
            copy@ == self@,
    {
        match self {
            AppEvent::StartConnection(connection) => AppEvent::StartConnection(connection.clone()),
            AppEvent::StopConnection(connection) => AppEvent::StopConnection(connection.clone()),
            AppEvent::ConnectionStatus { connection, status } => AppEvent::ConnectionStatus {
                connection: connection.clone(),
                status: status.clone(),
            },
            AppEvent::Error(message) => AppEvent::Error(message.clone()),
            AppEvent::Log(message) => AppEvent::Log(message.clone()),
            AppEvent::PortsChanged => AppEvent::PortsChanged,
            AppEvent::PortListUpdate { inputs, outputs } => AppEvent::PortListUpdate {
                inputs: clone_ports(inputs),
                outputs: clone_ports(outputs),
            },
        }
    }
}

/// The events of a list, each by its view.
pub open spec fn event_views(events: Seq<AppEvent>) -> Seq<AppEventView> {
    events.map_values(|e: AppEvent| e@)
}

} // verus!
