//! Ports, routes between them, and the status of a route.

use vstd::prelude::*;
use vstd::std_specs::cmp::PartialEqSpecImpl;

verus! {

/// What a [`PortId`] stands for: a name and whether this process made the port.
pub struct PortIdView {
    pub name: Seq<char>,
    pub is_virtual: bool,
}

/// What a [`Connection`] stands for: its two endpoints.
pub struct ConnectionView {
    pub input: PortIdView,
    pub output: PortIdView,
}

/// Identifies a MIDI port by name. Drivers are asked for a port by its name
/// alone; `is_virtual` is worked out from the reserved names and never read
/// back from the system.
#[derive(Debug, Hash)]
pub struct PortId {
    pub name: String,
    pub is_virtual: bool,
}

/// A route from one input port to one output port. Two routes with the same
/// endpoints are the same route.
#[derive(Debug, Hash)]
pub struct Connection {
    pub input: PortId,
    pub output: PortId,
}

/// Status of a registered route.
#[derive(Debug)]
pub enum ConnectionStatus {
    Active,
    Error(String),
}

/// What a [`ConnectionStatus`] stands for.
pub enum ConnectionStatusView {
    Active,
    Error(Seq<char>),
}

impl View for PortId {
    type V = PortIdView;

    open spec fn view(&self) -> PortIdView {
        PortIdView { name: self.name@, is_virtual: self.is_virtual }
    }
}

impl View for Connection {
    type V = ConnectionView;

    open spec fn view(&self) -> ConnectionView {
        ConnectionView { input: self.input@, output: self.output@ }
    }
}

impl View for ConnectionStatus {
    type V = ConnectionStatusView;

    open spec fn view(&self) -> ConnectionStatusView {
        match self {
            ConnectionStatus::Active => ConnectionStatusView::Active,
            ConnectionStatus::Error(message) => ConnectionStatusView::Error(message@),
        }
    }
}

/// The ports of a list, each by its view.
pub open spec fn port_views(ports: Seq<PortId>) -> Seq<PortIdView> {
    ports.map_values(|p: PortId| p@)
}

/// The names of a list of ports.
pub open spec fn port_names(ports: Seq<PortIdView>) -> Seq<Seq<char>> {
    ports.map_values(|port: PortIdView| port.name)
}

/// The routes of a list, each by its view.
pub open spec fn connection_views(routes: Seq<Connection>) -> Seq<ConnectionView> {
    routes.map_values(|c: Connection| c@)
}

/// The text between the two port names of a route's label.
pub open spec fn route_arrow() -> Seq<char> {
    " â†’ "@
}

/// The text in front of the message of a failed route's label.
pub open spec fn error_prefix() -> Seq<char> {
    "ERR: "@
}

impl PortId {
    pub fn new(name: String, is_virtual: bool) -> (port: Self)
        ensures
            port.name == name,
            port.is_virtual == is_virtual,
    {
        Self { name, is_virtual }
    }

    /// The text shown for the port: its name.
    pub fn label(&self) -> (text: String)
        ensures
            text@ == self.name@,
    {
        self.name.clone()
    }
}

impl Clone for PortId {
    fn clone(&self) -> (copy: Self)
        ensures
            copy == *self,
    {
        PortId { name: self.name.clone(), is_virtual: self.is_virtual }
    }
}

impl PartialEq for PortId {
    fn eq(&self, other: &Self) -> (equal: bool) {
        self.name == other.name && self.is_virtual == other.is_virtual
    }
}

impl Eq for PortId {

}

impl PartialEqSpecImpl for PortId {
    open spec fn obeys_eq_spec() -> bool {
        true
    }

    open spec fn eq_spec(&self, other: &Self) -> bool {
        self@ == other@
    }
}

impl Connection {
    pub fn new(input: PortId, output: PortId) -> (route: Self)
        ensures
            route.input == input,
            route.output == output,
    {
        Self { input, output }
    }

    /// The text shown for the route: both names with an arrow between them.
    pub fn label(&self) -> (text: String)
        ensures
            text@ == self.input.name@ + route_arrow() + self.output.name@,
    {
        let mut text = self.input.name.clone();
        text.append(" â†’ ");
        text.append(self.output.name.as_str());
        text
    }
}

impl Clone for Connection {
    fn clone(&self) -> (copy: Self)
        ensures
            copy == *self,
    {
        Connection { input: self.input.clone(), output: self.output.clone() }
    }
}

impl PartialEq for Connection {
    fn eq(&self, other: &Self) -> (equal: bool) {
        self.input == other.input && self.output == other.output
    }
}

impl Eq for Connection {

}

impl PartialEqSpecImpl for Connection {
    open spec fn obeys_eq_spec() -> bool {
        true
    }

    open spec fn eq_spec(&self, other: &Self) -> bool {
        self@ == other@
    }
}

impl ConnectionStatus {
    /// The text shown for the status: `OK`, or `ERR: ` and the message.
    pub fn label(&self) -> (text: String)
        ensures
            self is Active ==> text@ == "OK"@,
            self matches ConnectionStatus::Error(message) ==> text@ == error_prefix() + message@,
    {
        match self {
            ConnectionStatus::Active => String::from_str("OK"),
            ConnectionStatus::Error(message) => {
                let mut text = String::from_str("ERR: ");
                text.append(message.as_str());
                text
            },
        }
    }
}

impl Clone for ConnectionStatus {
    fn clone(&self) -> (copy: Self)
        ensures
            copy == *self,
    {
        match self {
            ConnectionStatus::Active => ConnectionStatus::Active,
            ConnectionStatus::Error(message) => ConnectionStatus::Error(message.clone()),
        }
    }
}

} // verus!
