//! The registry of active routes. It maps each route to the resource that
//! forwards for it, and is the only place where routes start and stop.

use crate::connection::{
    connection_views, port_views, Connection, ConnectionStatus, ConnectionStatusView,
    ConnectionView, PortId, PortIdView,
};
use crate::error::{MidiError, MidiErrorView};
use crate::events::AppEvent;
use crate::midi::forwarder::{forwarder_binding, start_forwarder, ForwarderHandle, ForwarderView};
use crate::midi::monitor::{start_monitor, PortMonitor};
use crate::midi::ports::{
    add_ports, input_listing, lemma_input_listing, lemma_listing_names_once,
    lemma_output_listing, lemma_sorted_virtual_first, listed_as_input, listed_as_output,
    output_listing, ports_sorted, text_views, NameFilter,
};
use crate::midi::virtual_ports::{
    is_virtual_input, is_virtual_input_name, lemma_registration_keeps_wf, lemma_removal_keeps_wf,
    pair_of_input, target_for, FabricView, Sink, SinkView, VirtualPorts,
};
use crate::sequences::{first_match, lemma_first_match, lemma_first_match_at};
use vstd::prelude::*;

verus! {

/// What forwards for a registered route.
#[derive(Debug)]
pub enum RouteResource {
    /// A sink on the broadcast set of a virtual input.
    Sink(Sink),
    /// A worker bound to two device ports.
    Forwarder(ForwarderHandle),
}

/// What a [`RouteResource`] stands for.
pub enum RouteResourceView {
    Sink(SinkView),
    Forwarder(ForwarderView),
}

/// A registered route and its resource.
#[derive(Debug)]
pub struct Route {
    pub connection: Connection,
    pub resource: RouteResource,
}

/// What a [`Route`] stands for.
pub struct RouteView {
    pub connection: ConnectionView,
    pub resource: RouteResourceView,
}

/// The state of the registry: the fabric if there is one, the registered
/// routes in the order in which they were started, and whether hot-plug
/// monitoring is on.
pub struct ManagerView {
    pub fabric: Option<FabricView>,
    pub routes: Seq<RouteView>,
    pub monitoring: bool,
}

impl View for RouteResource {
    type V = RouteResourceView;

    open spec fn view(&self) -> RouteResourceView {
        match self {
            RouteResource::Sink(sink) => RouteResourceView::Sink(sink@),
            RouteResource::Forwarder(handle) => RouteResourceView::Forwarder(handle@),
        }
    }
}

impl View for Route {
    type V = RouteView;

    open spec fn view(&self) -> RouteView {
        RouteView { connection: self.connection@, resource: self.resource@ }
    }
}

impl Clone for RouteResource {
    fn clone(&self) -> (copy: Self)
        ensures
            copy == *self,
    {
        match self {
            RouteResource::Sink(sink) => RouteResource::Sink(sink.clone()),
            RouteResource::Forwarder(handle) => RouteResource::Forwarder(handle.clone()),
        }
    }
}

/// The routes of a list, each by its view.
pub open spec fn route_views(routes: Seq<Route>) -> Seq<RouteView> {
    routes.map_values(|r: Route| r@)
}

/// The resources of a list, each by its view.
pub open spec fn resource_views(resources: Seq<RouteResource>) -> Seq<RouteResourceView> {
    resources.map_values(|r: RouteResource| r@)
}

/// The endpoints of each route of a list.
pub open spec fn connections_of(routes: Seq<RouteView>) -> Seq<ConnectionView> {
    routes.map_values(|r: RouteView| r.connection)
}

/// A list of statuses by the views of its entries.
pub open spec fn status_views(statuses: Seq<(Connection, ConnectionStatus)>) -> Seq<
    (ConnectionView, ConnectionStatusView),
> {
    statuses.map_values(|s: (Connection, ConnectionStatus)| (s.0@, s.1@))
}

/// The outcome of a start by the views of what it holds.
pub open spec fn start_view(started: Result<RouteResource, MidiError>) -> Result<
    RouteResourceView,
    MidiErrorView,
> {
    match started {
        Ok(resource) => Ok(resource@),
        Err(error) => Err(error@),
    }
}

/// A stopped route's resource, if any, by its view.
pub open spec fn released_view(released: Option<RouteResource>) -> Option<RouteResourceView> {
    match released {
        Some(resource) => Some(resource@),
        None => None,
    }
}

/// Whether a route starts at a virtual input, which the name of its input
/// alone decides: such a route is served by the fabric's broadcast, every
/// other by a worker.
pub open spec fn is_virtual_route(route: ConnectionView) -> bool {
    is_virtual_input_name(route.input.name)
}

/// Whether both endpoints of a route are among the ports now present.
pub open spec fn route_live(
    inputs: Seq<PortIdView>,
    outputs: Seq<PortIdView>,
    route: ConnectionView,
) -> bool {
    inputs.contains(route.input) && outputs.contains(route.output)
}

/// The test for routes that lost an endpoint.
pub open spec fn route_stale(inputs: Seq<PortIdView>, outputs: Seq<PortIdView>) -> spec_fn(
    ConnectionView,
) -> bool {
    |route: ConnectionView| !route_live(inputs, outputs, route)
}

/// The fabric after the resource of a stopped route is let go: a sink
/// leaves the broadcast set of the pair that the route's input names.
pub open spec fn released_fabric(fabric: Option<FabricView>, route: RouteView) -> Option<
    FabricView,
> {
    match (fabric, route.resource) {
        (Some(fabric), RouteResourceView::Sink(sink)) => match pair_of_input(
            route.connection.input.name,
        ) {
            Some(pair) => Some(fabric.removed(pair, sink.handle)),
            None => Some(fabric),
        },
        _ => fabric,
    }
}

impl ManagerView {
    /// The endpoints of the registered routes, in order of registration.
    pub open spec fn connections(self) -> Seq<ConnectionView> {
        connections_of(self.routes)
    }

    /// Whether a route is registered.
    pub open spec fn has_route(self, route: ConnectionView) -> bool {
        self.connections().contains(route)
    }

    /// What the registry reports: every registered route, as active.
    pub open spec fn statuses(self) -> Seq<(ConnectionView, ConnectionStatusView)> {
        self.connections().map_values(|c: ConnectionView| (c, ConnectionStatusView::Active))
    }

    /// No route is registered twice, and the fabric is well formed.
    pub open spec fn wf(self) -> bool {
        &&& self.connections().no_duplicates()
        &&& self.fabric matches Some(fabric) ==> fabric.wf()
    }

    /// The registry with one more route at the end, over the given fabric.
    pub open spec fn with_route(self, fabric: Option<FabricView>, route: RouteView) -> ManagerView {
        ManagerView { fabric, routes: self.routes.push(route), monitoring: self.monitoring }
    }

    /// Whether `after` and `outcome` are what starting `route` makes of this
    /// registry when the driver reports `sources` and `destinations`:
    ///
    /// - a route that is registered already fails with `AlreadyExists`;
    /// - a route from a virtual input fails with `VirtualPortsUnavailable`
    ///   without a fabric, or if the pair of its input has no handle left
    ///   to issue, and else gets a sink on that pair, under its next
    ///   handle;
    /// - any other route is bound to the first ports named like its
    ///   endpoints, and fails with `PortNotFound` for the first endpoint
    ///   that has none.
    ///
    /// A start that fails leaves the registry as it was. One that succeeds
    /// puts the route at the end of the registry and returns its resource.
    pub open spec fn start_outcome(
        self,
        route: ConnectionView,
        sources: Seq<Seq<char>>,
        destinations: Seq<Seq<char>>,
        after: ManagerView,
        outcome: Result<RouteResourceView, MidiErrorView>,
    ) -> bool {
        if self.has_route(route) {
            outcome == Err::<RouteResourceView, MidiErrorView>(MidiErrorView::AlreadyExists)
                && after == self
        } else if is_virtual_route(route) {
            match self.fabric {
                None => outcome == Err::<RouteResourceView, MidiErrorView>(
                    MidiErrorView::VirtualPortsUnavailable,
                ) && after == self,
                Some(fabric) => {
                    let pair = pair_of_input(route.input.name)->0;
                    let sink = SinkView {
                        handle: fabric.next_handle(pair),
                        target: target_for(route.output.name),
                    };
                    if fabric.can_issue(pair) {
                        outcome == Ok::<RouteResourceView, MidiErrorView>(
                            RouteResourceView::Sink(sink),
                        ) && after == self.with_route(
                            Some(fabric.registered(pair, sink)),
                            RouteView { connection: route, resource: RouteResourceView::Sink(sink) },
                        )
                    } else {
                        outcome == Err::<RouteResourceView, MidiErrorView>(
                            MidiErrorView::VirtualPortsUnavailable,
                        ) && after == self
                    }
                },
            }
        } else {
            match forwarder_binding(sources, destinations, route) {
                Err(error) => outcome == Err::<RouteResourceView, MidiErrorView>(error) && after
                    == self,
                Ok(handle) => outcome == Ok::<RouteResourceView, MidiErrorView>(
                    RouteResourceView::Forwarder(handle),
                ) && after == self.with_route(
                    self.fabric,
                    RouteView { connection: route, resource: RouteResourceView::Forwarder(handle) },
                ),
            }
        }
    }

    /// The resource registered for a route, if the route is registered.
    pub open spec fn resource_of(self, route: ConnectionView) -> Option<RouteResourceView> {
        match first_match(self.connections(), route) {
            Some(at) => Some(self.routes[at].resource),
            None => None,
        }
    }

    /// The registry after `route` is stopped: without the route and, if a
    /// sink served it, without that sink in the fabric. A route that is not
    /// registered changes nothing.
    pub open spec fn stopped(self, route: ConnectionView) -> ManagerView {
        match first_match(self.connections(), route) {
            Some(at) => ManagerView {
                fabric: released_fabric(self.fabric, self.routes[at]),
                routes: self.routes.remove(at),
                monitoring: self.monitoring,
            },
            None => self,
        }
    }

    /// The registry after each of `routes` is stopped, in turn.
    pub open spec fn stopped_all(self, routes: Seq<ConnectionView>) -> ManagerView
        decreases routes.len(),
    {
        if routes.len() == 0 {
            self
        } else {
            self.stopped_all(routes.drop_last()).stopped(routes.last())
        }
    }

    /// The resources let go when each of `routes` is stopped, in turn.
    pub open spec fn released_by(self, routes: Seq<ConnectionView>) -> Seq<RouteResourceView>
        decreases routes.len(),
    {
        if routes.len() == 0 {
            Seq::empty()
        } else {
            let earlier = self.released_by(routes.drop_last());
            match self.stopped_all(routes.drop_last()).resource_of(routes.last()) {
                Some(resource) => earlier.push(resource),
                None => earlier,
            }
        }
    }

    /// The registered routes that lost an endpoint, in order of registration.
    pub open spec fn stale_routes(self, inputs: Seq<PortIdView>, outputs: Seq<PortIdView>) -> Seq<
        ConnectionView,
    > {
        self.connections().filter(route_stale(inputs, outputs))
    }

    /// The registry after every route that lost an endpoint is stopped.
    pub open spec fn reconciled(
        self,
        inputs: Seq<PortIdView>,
        outputs: Seq<PortIdView>,
    ) -> ManagerView {
        self.stopped_all(self.stale_routes(inputs, outputs))
    }
}

/// Manages MIDI ports and connections.
#[derive(Debug)]
pub struct MidiManager {
    virtual_ports: Option<VirtualPorts>,
    routes: Vec<Route>,
    monitoring_active: bool,
}

impl View for MidiManager {
    type V = ManagerView;

    closed spec fn view(&self) -> ManagerView {
        ManagerView {
            fabric: fabric_view(self.virtual_ports),
            routes: route_views(self.routes@),
            monitoring: self.monitoring_active,
        }
    }
}

/// Tells whether a route starts at a virtual input. The name of the input
/// decides, whatever the port is tagged as.
pub fn is_virtual_connection(connection: &Connection) -> (yes: bool)
    ensures
        yes == is_virtual_route(connection@),
{
    is_virtual_input(connection.input.name.as_str())
}

/// Tells whether `port` is in `ports`.
pub fn port_present(ports: &Vec<PortId>, port: &PortId) -> (present: bool)
    ensures
        present == port_views(ports@).contains(port@),
{
    let ghost views = port_views(ports@);
    let mut i: usize = 0;
    while i < ports.len()
        invariant
            i <= ports.len(),
            views == port_views(ports@),
            forall|k: int| 0 <= k < i ==> views[k] != port@,
        decreases ports.len() - i,
    {
        if ports[i] == *port {
            assert(views[i as int] == port@);
            return true;
        }
        i += 1;
    }
    false
}

/// Position of a route in a list of routes.
fn route_position(routes: &Vec<Route>, connection: &Connection) -> (at: Option<usize>)
    ensures
        match at {
            Some(at) => at < routes.len() && first_match(
                connections_of(route_views(routes@)),
                connection@,
            ) == Some(at as int),
            None => first_match(connections_of(route_views(routes@)), connection@) is None,
        },
{
    let ghost registered = connections_of(route_views(routes@));
    let mut i: usize = 0;
    while i < routes.len()
        invariant
            i <= routes.len(),
            registered == connections_of(route_views(routes@)),
            forall|k: int| 0 <= k < i ==> registered[k] != connection@,
        decreases routes.len() - i,
    {
        if routes[i].connection == *connection {
            proof {
                assert(registered[i as int] == connection@);
                lemma_first_match_at(registered, connection@, i as int);
            }
            return Some(i);
        }
        i += 1;
    }
    proof {
        lemma_first_match(registered, connection@);
    }
    None
}

/// The fabric of a registry, if it has one, by its view.
pub open spec fn fabric_view(fabric: Option<VirtualPorts>) -> Option<FabricView> {
    match fabric {
        Some(fabric) => Some(fabric@),
        None => None,
    }
}

impl MidiManager {
    /// What holds of every registry: no route is registered twice, and the
    /// fabric is well formed.
    #[verifier::type_invariant]
    pub open spec fn well_formed(&self) -> bool {
        self@.wf()
    }

    /// Creates a manager with no fabric, no route and monitoring off.
    pub fn new() -> (manager: Self)
        ensures
            manager@ == (ManagerView { fabric: None, routes: Seq::empty(), monitoring: false }),
            manager@.wf(),
    {
        let manager = MidiManager {
            virtual_ports: None,
            routes: Vec::new(),
            monitoring_active: false,
        };
        assert(manager@.routes =~= Seq::empty());
        manager
    }

    /// Takes note of whether the virtual ports could be created. If they
    /// were, the manager gets an empty fabric, unless it has one already,
    /// which it keeps. If not, it fails with `VirtualPortsUnavailable` and
    /// stays as it was: everything but virtual routing still works.
    pub fn init_virtual_ports(&mut self, created: bool) -> (done: Result<(), MidiError>)
        ensures
            final(self)@.wf(),
            created ==> done is Ok && final(self)@ == (ManagerView {
                fabric: match old(self)@.fabric {
                    Some(fabric) => Some(fabric),
                    None => Some(FabricView::empty()),
                },
                ..old(self)@
            }),
            !created ==> (done matches Err(error) && error@ == MidiErrorView::VirtualPortsUnavailable)
                && final(self)@ == old(self)@,
    {
        let (fabric, routes) = self.take_parts();
        if !created {
            self.put_parts(fabric, routes);
            return Err(MidiError::VirtualPortsUnavailable);
        }
        let fabric = match fabric {
            Some(fabric) => fabric,
            None => VirtualPorts::create(),
        };
        self.put_parts(Some(fabric), routes);
        Ok(())
    }

    /// The fabric, if the virtual ports were created.
    pub fn virtual_ports(&self) -> (fabric: Option<&VirtualPorts>)
        ensures
            self@.wf(),
            match fabric {
                Some(fabric) => self@.fabric == Some(fabric@),
                None => self@.fabric is None,
            },
    {
        proof {
            use_type_invariant(self);
        }
        self.virtual_ports.as_ref()
    }

    /// Lists the ports a route can start at, given the names the driver
    /// reports on its input side (`sources`) and on its output side
    /// (`destinations`): every source that is not one of this process's
    /// virtual ports, and the virtual inputs, which the system shows among
    /// the destinations. Each port is listed once, virtual ports first,
    /// then by name.
    pub fn list_input_ports(sources: &Vec<String>, destinations: &Vec<String>) -> (ports: Vec<
        PortId,
    >)
        ensures
            port_views(ports@) == input_listing(text_views(sources@), text_views(destinations@)),
            ports_sorted(port_views(ports@)),
            forall|port: PortIdView|
                port_views(ports@).contains(port) <==> listed_as_input(
                    text_views(sources@),
                    text_views(destinations@),
                    port,
                ),
            forall|i: int, j: int|
                0 <= i < j < ports@.len() && ports@[j].is_virtual ==> ports@[i].is_virtual,
            forall|i: int, j: int|
                0 <= i < ports@.len() && 0 <= j < ports@.len() && ports@[i].name@
                    == ports@[j].name@ ==> i == j,
    {
        let mut ports: Vec<PortId> = Vec::new();
        assert(port_views(ports@) =~= Seq::empty());
        add_ports(&mut ports, sources, NameFilter::Unreserved);
        add_ports(&mut ports, destinations, NameFilter::VirtualInput);
        proof {
            let listed = port_views(ports@);
            lemma_input_listing(text_views(sources@), text_views(destinations@), listed);
            assert forall|i: int, j: int|
                0 <= i < j < ports@.len() && ports@[j].is_virtual implies ports@[i].is_virtual by {
                lemma_sorted_virtual_first(listed, i, j);
            }
            assert forall|i: int, j: int|
                0 <= i < ports@.len() && 0 <= j < ports@.len() && ports@[i].name@
                    == ports@[j].name@ implies i == j by {
                lemma_listing_names_once(
                    text_views(sources@),
                    text_views(destinations@),
                    listed,
                    i,
                    j,
                );
            }
        }
        ports
    }

    /// Lists the ports a route can end at: every destination that is not
    /// one of this process's virtual ports, and the virtual outputs, which
    /// the system shows among the sources. Each port is listed once,
    /// virtual ports first, then by name.
    pub fn list_output_ports(sources: &Vec<String>, destinations: &Vec<String>) -> (ports: Vec<
        PortId,
    >)
        ensures
            port_views(ports@) == output_listing(text_views(sources@), text_views(destinations@)),
            ports_sorted(port_views(ports@)),
            forall|port: PortIdView|
                port_views(ports@).contains(port) <==> listed_as_output(
                    text_views(sources@),
                    text_views(destinations@),
                    port,
                ),
            forall|i: int, j: int|
                0 <= i < j < ports@.len() && ports@[j].is_virtual ==> ports@[i].is_virtual,
            forall|i: int, j: int|
                0 <= i < ports@.len() && 0 <= j < ports@.len() && ports@[i].name@
                    == ports@[j].name@ ==> i == j,
    {
        let mut ports: Vec<PortId> = Vec::new();
        assert(port_views(ports@) =~= Seq::empty());
        add_ports(&mut ports, destinations, NameFilter::Unreserved);
        add_ports(&mut ports, sources, NameFilter::VirtualOutput);
        proof {
            let listed = port_views(ports@);
            lemma_output_listing(text_views(sources@), text_views(destinations@), listed);
            assert forall|i: int, j: int|
                0 <= i < j < ports@.len() && ports@[j].is_virtual implies ports@[i].is_virtual by {
                lemma_sorted_virtual_first(listed, i, j);
            }
            assert forall|i: int, j: int|
                0 <= i < ports@.len() && 0 <= j < ports@.len() && ports@[i].name@
                    == ports@[j].name@ implies i == j by {
                lemma_listing_names_once(
                    text_views(sources@),
                    text_views(destinations@),
                    listed,
                    i,
                    j,
                );
            }
        }
        ports
    }

    /// Takes the fabric and the routes out of the registry, which is left
    /// without either until they are put back.
    fn take_parts(&mut self) -> (parts: (Option<VirtualPorts>, Vec<Route>))
        ensures
            old(self)@.wf(),
            old(self)@.fabric == fabric_view(parts.0),
            old(self)@.routes == route_views(parts.1@),
            final(self)@ == (ManagerView {
                fabric: None,
                routes: Seq::empty(),
                monitoring: old(self)@.monitoring,
            }),
    {
        proof {
            use_type_invariant(&*self);
        }
        let mut fabric: Option<VirtualPorts> = None;
        let mut routes: Vec<Route> = Vec::new();
        proof {
            assert(route_views(routes@) =~= Seq::empty());
            assert(connections_of(route_views(routes@)) =~= Seq::empty());
        }
        std::mem::swap(&mut routes, &mut self.routes);
        std::mem::swap(&mut fabric, &mut self.virtual_ports);
        (fabric, routes)
    }

    /// Puts a fabric and routes into a registry that holds neither.
    fn put_parts(&mut self, fabric: Option<VirtualPorts>, routes: Vec<Route>)
        requires
            old(self)@.fabric is None,
            old(self)@.routes.len() == 0,
            connections_of(route_views(routes@)).no_duplicates(),
        ensures
            final(self)@.wf(),
            final(self)@ == (ManagerView {
                fabric: fabric_view(fabric),
                routes: route_views(routes@),
                monitoring: old(self)@.monitoring,
            }),
    {
        proof {
            if let Some(fabric) = &fabric {
                use_type_invariant(fabric);
            }
            assert(connections_of(self@.routes) =~= Seq::empty());
        }
        self.virtual_ports = fabric;
        self.routes = routes;
    }

    /// Starts a route. The driver's current names decide whether a device
    /// route can be bound; a route from a virtual input needs none of them.
    /// On success the route is registered and the resource that the caller
    /// must now bring up is returned; see [`ManagerView::start_outcome`] for
    /// each case.
    pub fn start_connection(
        &mut self,
        connection: Connection,
        sources: &Vec<String>,
        destinations: &Vec<String>,
    ) -> (started: Result<RouteResource, MidiError>)
        ensures
            final(self)@.wf(),
            old(self)@.start_outcome(
                connection@,
                text_views(sources@),
                text_views(destinations@),
                final(self)@,
                start_view(started),
            ),
    {
        let ghost before = self@;
        let (mut fabric, mut routes) = self.take_parts();
        proof {
            lemma_first_match(before.connections(), connection@);
        }
        if route_position(&routes, &connection).is_some() {
            self.put_parts(fabric, routes);
            return Err(MidiError::AlreadyExists);
        }
        let started = if is_virtual_connection(&connection) {
            match &mut fabric {
                None => Err(MidiError::VirtualPortsUnavailable),
                Some(fabric) => {
                    match fabric.add_virtual_input_output(
                        connection.input.name.as_str(),
                        connection.output.name.as_str(),
                    ) {
                        Ok(sink) => Ok(RouteResource::Sink(sink)),
                        Err(error) => Err(error),
                    }
                },
            }
        } else {
            match start_forwarder(connection.clone(), sources, destinations) {
                Ok(handle) => Ok(RouteResource::Forwarder(handle)),
                Err(error) => Err(error),
            }
        };
        match started {
            Ok(resource) => {
                let ghost added = RouteView { connection: connection@, resource: resource@ };
                routes.push(Route { connection, resource: resource.clone() });
                proof {
                    assert(route_views(routes@) =~= before.routes.push(added));
                    let after = before.with_route(fabric_view(fabric), added);
                    lemma_start_keeps_wf(
                        before,
                        added.connection,
                        text_views(sources@),
                        text_views(destinations@),
                        after,
                        Ok(added.resource),
                    );
                }
                self.put_parts(fabric, routes);
                Ok(resource)
            },
            Err(error) => {
                self.put_parts(fabric, routes);
                Err(error)
            },
        }
    }

    /// Stops a route: takes it off the registry and lets its sink, if it
    /// has one, go from the fabric. Returns the resource that the caller
    /// must now tear down. Stopping a route that is not registered does
    /// nothing and returns `None`.
    pub fn stop_connection(&mut self, connection: &Connection) -> (released: Option<RouteResource>)
        ensures
            final(self)@.wf(),
            final(self)@ == old(self)@.stopped(connection@),
            released_view(released) == old(self)@.resource_of(connection@),
    {
        let ghost before = self@;
        let (mut fabric, mut routes) = self.take_parts();
        let at = match route_position(&routes, connection) {
            Some(at) => at,
            None => {
                self.put_parts(fabric, routes);
                return None;
            },
        };
        let route = routes.remove(at);
        proof {
            lemma_first_match(before.connections(), connection@);
            assert(route@ == before.routes[at as int]);
            assert(before.connections()[at as int] == before.routes[at as int].connection);
            assert(route_views(routes@) =~= before.routes.remove(at as int));
            lemma_stopped_keeps_wf(before, connection@);
        }
        match &route.resource {
            RouteResource::Sink(sink) => {
                match &mut fabric {
                    Some(fabric) => {
                        fabric.remove_virtual_input_output(
                            connection.input.name.as_str(),
                            sink.handle,
                        );
                    },
                    None => {},
                }
            },
            RouteResource::Forwarder(_) => {},
        }
        proof {
            assert(fabric_view(fabric) == released_fabric(before.fabric, before.routes[at as int]));
        }
        self.put_parts(fabric, routes);
        Some(route.resource)
    }

    /// The registered routes of which an endpoint is in neither list.
    fn stale_connections(&self, inputs: &Vec<PortId>, outputs: &Vec<PortId>) -> (stale: Vec<
        Connection,
    >)
        ensures
            connection_views(stale@) == self@.stale_routes(port_views(inputs@), port_views(outputs@)),
    {
        let ghost registered = self@.connections();
        let ghost gone = route_stale(port_views(inputs@), port_views(outputs@));
        let mut stale: Vec<Connection> = Vec::new();
        let mut i: usize = 0;
        proof {
            reveal(Seq::filter);
            assert(registered.take(0).filter(gone) =~= Seq::empty());
        }
        while i < self.routes.len()
            invariant
                i <= self.routes.len(),
                registered == self@.connections(),
                registered.len() == self.routes.len(),
                gone == route_stale(port_views(inputs@), port_views(outputs@)),
                connection_views(stale@) == registered.take(i as int).filter(gone),
            decreases self.routes.len() - i,
        {
            let connection = &self.routes[i].connection;
            let ghost held = connection_views(stale@);
            assert(connection@ == registered[i as int]);
            let live = port_present(inputs, &connection.input) && port_present(
                outputs,
                &connection.output,
            );
            if !live {
                stale.push(connection.clone());
                assert(connection_views(stale@) =~= held.push(connection@));
            }
            proof {
                assert(registered.take(i + 1) =~= registered.take(i as int).push(connection@));
                registered.take(i as int).lemma_filter_push(connection@, gone);
            }
            i += 1;
        }
        assert(registered.take(self.routes.len() as int) =~= registered);
        stale
    }

    /// Brings the registry in line with the ports now present: stops every
    /// route whose input is not among `inputs` or whose output is not among
    /// `outputs`, in order of registration, and returns the resources that
    /// the caller must now tear down.
    pub fn reconcile(&mut self, inputs: &Vec<PortId>, outputs: &Vec<PortId>) -> (released: Vec<
        RouteResource,
    >)
        ensures
            final(self)@.wf(),
            final(self)@ == old(self)@.reconciled(port_views(inputs@), port_views(outputs@)),
            resource_views(released@) == old(self)@.released_by(
                old(self)@.stale_routes(port_views(inputs@), port_views(outputs@)),
            ),
    {
        proof {
            use_type_invariant(&*self);
        }
        let ghost before = self@;
        let stale = self.stale_connections(inputs, outputs);
        let ghost doomed = connection_views(stale@);
        let mut released: Vec<RouteResource> = Vec::new();
        let mut k: usize = 0;
        assert(resource_views(released@) =~= before.released_by(doomed.take(0)));
        while k < stale.len()
            invariant
                k <= stale.len(),
                doomed == connection_views(stale@),
                self@.wf(),
                self@ == before.stopped_all(doomed.take(k as int)),
                resource_views(released@) == before.released_by(doomed.take(k as int)),
            decreases stale.len() - k,
        {
            let ghost held = resource_views(released@);
            assert(doomed.take(k + 1).drop_last() =~= doomed.take(k as int));
            assert(doomed.take(k + 1).last() == stale@[k as int]@);
            match self.stop_connection(&stale[k]) {
                Some(resource) => {
                    released.push(resource);
                    assert(resource_views(released@) =~= held.push(resource@));
                },
                None => {},
            }
            k += 1;
        }
        assert(doomed.take(stale.len() as int) =~= doomed);
        released
    }

    /// Takes note of how bringing up the resource of a started route went.
    /// If it came up, the route stays and the event that announces it is
    /// returned. If not, the route is stopped again and the start fails
    /// with `SpawnFailed`.
    pub fn settle_connection(&mut self, connection: &Connection, brought_up: bool) -> (settled:
        Result<AppEvent, MidiError>)
        ensures
            final(self)@.wf(),
            brought_up ==> final(self)@ == old(self)@ && (settled matches Ok(
                AppEvent::ConnectionStatus { connection: announced, status },
            ) && announced@ == connection@ && status@ == "OK"@),
            !brought_up ==> final(self)@ == old(self)@.stopped(connection@) && (settled matches Err(
                error,
            ) && error@ == MidiErrorView::SpawnFailed),
    {
        proof {
            use_type_invariant(&*self);
        }
        if brought_up {
            Ok(
                AppEvent::ConnectionStatus {
                    connection: connection.clone(),
                    status: ConnectionStatus::Active.label(),
                },
            )
        } else {
            let _ = self.stop_connection(connection);
            Err(MidiError::SpawnFailed)
        }
    }

    /// Starts monitoring for MIDI port changes: turns monitoring on and
    /// returns the detector that the caller feeds with fresh listings.
    pub fn start_port_monitoring(&mut self) -> (monitor: PortMonitor)
        ensures
            final(self)@ == (ManagerView { monitoring: true, ..old(self)@ }),
            monitor@ is None,
    {
        proof {
            use_type_invariant(&*self);
        }
        self.monitoring_active = true;
        start_monitor()
    }

    /// Stops monitoring for MIDI port changes.
    pub fn stop_port_monitoring(&mut self)
        ensures
            final(self)@ == (ManagerView { monitoring: false, ..old(self)@ }),
    {
        proof {
            use_type_invariant(&*self);
        }
        self.monitoring_active = false;
    }

    /// Whether monitoring for MIDI port changes is on.
    pub fn is_monitoring(&self) -> (on: bool)
        ensures
            on == self@.monitoring,
    {
        self.monitoring_active
    }

    /// Gets the status of every registered route, in order of
    /// registration. A registered route is reported as active.
    pub fn get_connection_statuses(&self) -> (statuses: Vec<(Connection, ConnectionStatus)>)
        ensures
            self@.wf(),
            status_views(statuses@) == self@.statuses(),
    {
        proof {
            use_type_invariant(self);
        }
        let mut statuses: Vec<(Connection, ConnectionStatus)> = Vec::new();
        let mut i: usize = 0;
        while i < self.routes.len()
            invariant
                i <= self.routes.len(),
                status_views(statuses@) == self@.statuses().take(i as int),
            decreases self.routes.len() - i,
        {
            statuses.push((self.routes[i].connection.clone(), ConnectionStatus::Active));
            assert(status_views(statuses@) =~= self@.statuses().take(i as int).push(
                (self.routes@[i as int].connection@, ConnectionStatusView::Active),
            ));
            assert(self@.statuses().take(i + 1) =~= self@.statuses().take(i as int).push(
                self@.statuses()[i as int],
            ));
            i += 1;
        }
        assert(self@.statuses().take(self.routes.len() as int) =~= self@.statuses());
        statuses
    }
}

/// Stopping a route leaves a well-formed registry well formed.
pub proof fn lemma_stopped_keeps_wf(manager: ManagerView, route: ConnectionView)
    requires
        manager.wf(),
    ensures
        manager.stopped(route).wf(),
{
    let registered = manager.connections();
    lemma_first_match(registered, route);
    if let Some(at) = first_match(registered, route) {
        let after = manager.stopped(route);
        assert(after.connections() =~= registered.remove(at));
        assert forall|i: int, j: int|
            0 <= i < after.connections().len() && 0 <= j < after.connections().len() && i
                != j implies after.connections()[i] != after.connections()[j] by {
            let a = if i < at { i } else { i + 1 };
            let b = if j < at { j } else { j + 1 };
            assert(after.connections()[i] == registered[a]);
            assert(after.connections()[j] == registered[b]);
        }
        if let (Some(fabric), RouteResourceView::Sink(sink)) = (
            manager.fabric,
            manager.routes[at].resource,
        ) {
            if let Some(pair) = pair_of_input(manager.routes[at].connection.input.name) {
                lemma_removal_keeps_wf(fabric, pair, sink.handle);
            }
        }
    }
}

/// Starting a route leaves a well-formed registry well formed, and a start
/// that succeeds leaves the route registered.
pub proof fn lemma_start_keeps_wf(
    manager: ManagerView,
    route: ConnectionView,
    sources: Seq<Seq<char>>,
    destinations: Seq<Seq<char>>,
    after: ManagerView,
    outcome: Result<RouteResourceView, MidiErrorView>,
)
    requires
        manager.wf(),
        manager.start_outcome(route, sources, destinations, after, outcome),
    ensures
        after.wf(),
        outcome is Ok ==> after.has_route(route),
{
    if outcome is Ok {
        let registered = manager.connections();
        assert(after.connections() =~= registered.push(route));
        assert(after.connections()[registered.len() as int] == route);
        assert forall|i: int, j: int|
            0 <= i < after.connections().len() && 0 <= j < after.connections().len() && i
                != j implies after.connections()[i] != after.connections()[j] by {
            if i < registered.len() {
                assert(registered.contains(registered[i]));
            }
            if j < registered.len() {
                assert(registered.contains(registered[j]));
            }
        }
        if let (Some(fabric), Ok(RouteResourceView::Sink(sink))) = (manager.fabric, outcome) {
            lemma_registration_keeps_wf(fabric, pair_of_input(route.input.name)->0, sink);
        }
    }
}

/// A route that was started cannot be started again: the second start
/// fails with `AlreadyExists` whatever the driver reports by then, changes
/// nothing, and the route stays registered exactly once.
pub proof fn lemma_second_start_already_exists(
    manager: ManagerView,
    route: ConnectionView,
    sources: Seq<Seq<char>>,
    destinations: Seq<Seq<char>>,
    first: ManagerView,
    first_outcome: Result<RouteResourceView, MidiErrorView>,
    later_sources: Seq<Seq<char>>,
    later_destinations: Seq<Seq<char>>,
    second: ManagerView,
    second_outcome: Result<RouteResourceView, MidiErrorView>,
)
    requires
        manager.wf(),
        manager.start_outcome(route, sources, destinations, first, first_outcome),
        first_outcome is Ok,
        first.start_outcome(route, later_sources, later_destinations, second, second_outcome),
    ensures
        second_outcome == Err::<RouteResourceView, MidiErrorView>(MidiErrorView::AlreadyExists),
        second == first,
        exists|at: int|
            0 <= at < second.connections().len() && second.connections()[at] == route && forall|
                other: int,
            |
                0 <= other < second.connections().len() && second.connections()[other] == route
                    ==> other == at,
{
    lemma_start_keeps_wf(manager, route, sources, destinations, first, first_outcome);
    let at = choose|at: int| 0 <= at < first.connections().len() && first.connections()[at] == route;
    assert forall|other: int|
        0 <= other < first.connections().len() && first.connections()[other]
            == route implies other == at by {}
}

/// Whatever a start returns and leaves behind is decided by the registry,
/// the route and the driver's names: two starts from the same state end
/// alike.
pub proof fn lemma_start_is_determined(
    manager: ManagerView,
    route: ConnectionView,
    sources: Seq<Seq<char>>,
    destinations: Seq<Seq<char>>,
    one: ManagerView,
    one_outcome: Result<RouteResourceView, MidiErrorView>,
    other: ManagerView,
    other_outcome: Result<RouteResourceView, MidiErrorView>,
)
    requires
        manager.start_outcome(route, sources, destinations, one, one_outcome),
        manager.start_outcome(route, sources, destinations, other, other_outcome),
    ensures
        one == other,
        one_outcome == other_outcome,
{
}

/// Stopping a route that is not registered changes nothing and lets
/// nothing go.
pub proof fn lemma_stop_unregistered_is_noop(manager: ManagerView, route: ConnectionView)
    requires
        !manager.has_route(route),
    ensures
        manager.stopped(route) == manager,
        manager.resource_of(route) is None,
{
    lemma_first_match(manager.connections(), route);
}

/// After a route is stopped, exactly the other registered routes are left.
pub proof fn lemma_stopped_routes(
    manager: ManagerView,
    route: ConnectionView,
    other: ConnectionView,
)
    requires
        manager.wf(),
    ensures
        manager.stopped(route).has_route(other) <==> manager.has_route(other) && other != route,
{
    let registered = manager.connections();
    lemma_first_match(registered, route);
    if let Some(at) = first_match(registered, route) {
        let left = manager.stopped(route).connections();
        assert(left =~= registered.remove(at));
        if left.contains(other) {
            let k = choose|k: int| 0 <= k < left.len() && left[k] == other;
            let from = if k < at { k } else { k + 1 };
            assert(registered[from] == other);
        }
        if registered.contains(other) && other != route {
            let k = choose|k: int| 0 <= k < registered.len() && registered[k] == other;
            if k < at {
                assert(left[k] == other);
            } else {
                assert(left[k - 1] == other);
            }
        }
    }
}

/// Stopping a route twice is stopping it once: the second stop finds
/// nothing to do.
pub proof fn lemma_stop_idempotent(manager: ManagerView, route: ConnectionView)
    requires
        manager.wf(),
    ensures
        manager.stopped(route).stopped(route) == manager.stopped(route),
        manager.stopped(route).resource_of(route) is None,
{
    lemma_stopped_routes(manager, route, route);
    lemma_stop_unregistered_is_noop(manager.stopped(route), route);
}

/// After several routes are stopped, the registry is well formed and holds
/// exactly the registered routes that were not among them.
pub proof fn lemma_stopped_all_routes(
    manager: ManagerView,
    routes: Seq<ConnectionView>,
    other: ConnectionView,
)
    requires
        manager.wf(),
    ensures
        manager.stopped_all(routes).wf(),
        manager.stopped_all(routes).has_route(other) <==> manager.has_route(other)
            && !routes.contains(other),
    decreases routes.len(),
{
    if routes.len() > 0 {
        let earlier = routes.drop_last();
        lemma_stopped_all_routes(manager, earlier, other);
        let midway = manager.stopped_all(earlier);
        lemma_stopped_keeps_wf(midway, routes.last());
        lemma_stopped_routes(midway, routes.last(), other);
        if routes.contains(other) {
            let k = choose|k: int| 0 <= k < routes.len() && routes[k] == other;
            if k < earlier.len() {
                assert(earlier[k] == other);
            }
        }
        if earlier.contains(other) {
            let k = choose|k: int| 0 <= k < earlier.len() && earlier[k] == other;
            assert(routes[k] == other);
        }
        if other == routes.last() {
            assert(routes[routes.len() - 1] == other);
        }
    }
}

/// When ports come and go, reconciling leaves exactly the registered routes
/// whose endpoints are both still present: a route that lost an endpoint is
/// absent from the statuses reported afterwards, and every other route is
/// reported as before.
pub proof fn lemma_reconciled_routes(
    manager: ManagerView,
    inputs: Seq<PortIdView>,
    outputs: Seq<PortIdView>,
    route: ConnectionView,
)
    requires
        manager.wf(),
    ensures
        manager.reconciled(inputs, outputs).wf(),
        manager.reconciled(inputs, outputs).has_route(route) <==> manager.has_route(route)
            && route_live(inputs, outputs, route),
        manager.reconciled(inputs, outputs).statuses().contains(
            (route, ConnectionStatusView::Active),
        ) <==> manager.has_route(route) && route_live(inputs, outputs, route),
{
    let registered = manager.connections();
    let gone = route_stale(inputs, outputs);
    let stale = manager.stale_routes(inputs, outputs);
    lemma_stopped_all_routes(manager, stale, route);
    if stale.contains(route) {
        registered.lemma_filter_contains_rev(gone, route);
        let k = choose|k: int| 0 <= k < stale.len() && stale[k] == route;
        registered.lemma_filter_pred(gone, k);
    }
    if registered.contains(route) && !route_live(inputs, outputs, route) {
        let k = choose|k: int| 0 <= k < registered.len() && registered[k] == route;
        registered.lemma_filter_contains(gone, k);
    }
    let after = manager.reconciled(inputs, outputs);
    let reported = (route, ConnectionStatusView::Active);
    if after.statuses().contains(reported) {
        let k = choose|k: int| 0 <= k < after.statuses().len() && after.statuses()[k] == reported;
        assert(after.connections()[k] == route);
    }
    if after.has_route(route) {
        let k = choose|k: int|
            0 <= k < after.connections().len() && after.connections()[k] == route;
        assert(after.statuses()[k] == reported);
    }
}

} // verus!
