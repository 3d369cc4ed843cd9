//! The state behind the routing screen: the ports on offer, the routes
//! shown, the cursor, and the registry that the screen drives.

use crate::connection::{
    connection_views, port_names, port_views, Connection, ConnectionStatus, ConnectionStatusView,
    ConnectionView, PortId, PortIdView,
};
use crate::error::{MidiError, MidiErrorView};
use crate::events::{clone_ports, event_views, AppEvent, AppEventView};
use crate::midi::manager::{
    resource_views, start_view, status_views, ManagerView, MidiManager, RouteResource,
    RouteResourceView,
};
use crate::midi::monitor::PortMonitor;
use crate::midi::ports::{input_listing, output_listing, text_views};
use crate::midi::virtual_ports::{VIRTUAL_INPUT_A_NAME, VIRTUAL_OUTPUT_A_NAME};
use crate::text::str_equal;
use crate::sequences::{first_match, lemma_first_match, lemma_first_match_at};
use vstd::prelude::*;

verus! {

/// Where the operator is in choosing a route.
#[derive(Debug)]
pub enum UiState {
    /// Browsing inputs with cursor.
    Idle { cursor_idx: usize },
    /// Selected an input, now selecting outputs.
    SelectingOutputs { input_idx: usize, selected_outputs: Vec<usize>, cursor_idx: usize },
}

/// What a [`UiState`] stands for.
pub enum UiStateView {
    Idle { cursor_idx: usize },
    SelectingOutputs { input_idx: usize, selected_outputs: Seq<usize>, cursor_idx: usize },
}

impl View for UiState {
    type V = UiStateView;

    open spec fn view(&self) -> UiStateView {
        match self {
            UiState::Idle { cursor_idx } => UiStateView::Idle { cursor_idx: *cursor_idx },
            UiState::SelectingOutputs {
                input_idx,
                selected_outputs,
                cursor_idx,
            } => UiStateView::SelectingOutputs {
                input_idx: *input_idx,
                selected_outputs: selected_outputs@,
                cursor_idx: *cursor_idx,
            },
        }
    }
}

impl Clone for UiState {
    fn clone(&self) -> (copy: Self)
        ensures
            copy@ == self@,
    {
        match self {
            UiState::Idle { cursor_idx } => UiState::Idle { cursor_idx: *cursor_idx },
            UiState::SelectingOutputs { input_idx, selected_outputs, cursor_idx } => {
                let mut copied: Vec<usize> = Vec::new();
                let mut i: usize = 0;
                while i < selected_outputs.len()
                    invariant
                        i <= selected_outputs.len(),
                        copied@ == selected_outputs@.take(i as int),
                    decreases selected_outputs.len() - i,
                {
                    copied.push(selected_outputs[i]);
                    assert(selected_outputs@.take(i + 1) =~= selected_outputs@.take(i as int).push(
                        selected_outputs@[i as int],
                    ));
                    i += 1;
                }
                assert(selected_outputs@.take(selected_outputs.len() as int) =~= selected_outputs@);
                UiState::SelectingOutputs {
                    input_idx: *input_idx,
                    selected_outputs: copied,
                    cursor_idx: *cursor_idx,
                }
            },
        }
    }
}

/// The routes to take down and the routes to bring up when a choice of
/// outputs is confirmed.
#[derive(Debug)]
pub struct Rewiring {
    pub stop: Vec<Connection>,
    pub start: Vec<Connection>,
}

/// What a [`Rewiring`] stands for.
pub struct RewiringView {
    pub stop: Seq<ConnectionView>,
    pub start: Seq<ConnectionView>,
}

impl View for Rewiring {
    type V = RewiringView;

    open spec fn view(&self) -> RewiringView {
        RewiringView { stop: connection_views(self.stop@), start: connection_views(self.start@) }
    }
}

/// The cursor one place up, if it is not at the top.
pub open spec fn cursor_up(cursor: usize) -> usize {
    if cursor > 0 {
        (cursor - 1) as usize
    } else {
        cursor
    }
}

/// The cursor one place down, if it is not on the last of `count` entries.
pub open spec fn cursor_down(cursor: usize, count: nat) -> usize {
    if cursor + 1 < count {
        (cursor + 1) as usize
    } else {
        cursor
    }
}

/// The shown routes that start at `input`, in the order shown.
pub open spec fn routes_from(
    active: Seq<(ConnectionView, ConnectionStatusView)>,
    input: PortIdView,
) -> Seq<ConnectionView>
    decreases active.len(),
{
    if active.len() == 0 {
        Seq::empty()
    } else {
        let earlier = routes_from(active.drop_last(), input);
        if active.last().0.input == input {
            earlier.push(active.last().0)
        } else {
            earlier
        }
    }
}

/// The outputs of the given routes.
pub open spec fn outputs_of(routes: Seq<ConnectionView>) -> Seq<PortIdView> {
    routes.map_values(|route: ConnectionView| route.output)
}

/// For each wanted port that is among `ports`, the first place where it
/// stands there.
pub open spec fn positions_in(ports: Seq<PortIdView>, wanted: Seq<PortIdView>) -> Seq<usize>
    decreases wanted.len(),
{
    if wanted.len() == 0 {
        Seq::empty()
    } else {
        let earlier = positions_in(ports, wanted.drop_last());
        match first_match(ports, wanted.last()) {
            Some(at) => earlier.push(at as usize),
            None => earlier,
        }
    }
}

/// A selection with `idx` taken out where it first stands, or put at the
/// end if it is not in it.
pub open spec fn toggled(selected: Seq<usize>, idx: usize) -> Seq<usize> {
    match first_match(selected, idx) {
        Some(at) => selected.remove(at),
        None => selected.push(idx),
    }
}

/// The routes from `input` to each selected output that exists, in the
/// order of the selection.
pub open spec fn routes_to(input: PortIdView, outputs: Seq<PortIdView>, selected: Seq<usize>) -> Seq<
    ConnectionView,
>
    decreases selected.len(),
{
    if selected.len() == 0 {
        Seq::empty()
    } else {
        let earlier = routes_to(input, outputs, selected.drop_last());
        if selected.last() < outputs.len() {
            earlier.push(ConnectionView { input, output: outputs[selected.last() as int] })
        } else {
            earlier
        }
    }
}

/// The state of the application.
pub struct AppView {
    pub inputs: Seq<PortIdView>,
    pub outputs: Seq<PortIdView>,
    pub active: Seq<(ConnectionView, ConnectionStatusView)>,
    pub ui: UiStateView,
    pub should_quit: bool,
    pub manager: ManagerView,
}

impl AppView {
    /// The state after the cursor is moved up.
    pub open spec fn after_key_up(self) -> AppView {
        AppView {
            ui: match self.ui {
                UiStateView::Idle { cursor_idx } => UiStateView::Idle {
                    cursor_idx: cursor_up(cursor_idx),
                },
                UiStateView::SelectingOutputs {
                    input_idx,
                    selected_outputs,
                    cursor_idx,
                } => UiStateView::SelectingOutputs {
                    input_idx,
                    selected_outputs,
                    cursor_idx: cursor_up(cursor_idx),
                },
            },
            ..self
        }
    }

    /// The state after the cursor is moved down: among the inputs while
    /// browsing, among the outputs while selecting.
    pub open spec fn after_key_down(self) -> AppView {
        AppView {
            ui: match self.ui {
                UiStateView::Idle { cursor_idx } => UiStateView::Idle {
                    cursor_idx: cursor_down(cursor_idx, self.inputs.len()),
                },
                UiStateView::SelectingOutputs {
                    input_idx,
                    selected_outputs,
                    cursor_idx,
                } => UiStateView::SelectingOutputs {
                    input_idx,
                    selected_outputs,
                    cursor_idx: cursor_down(cursor_idx, self.outputs.len()),
                },
            },
            ..self
        }
    }

    /// The state after the space bar. While browsing it picks the input
    /// under the cursor, if there is one, and opens the selection with the
    /// outputs that input is routed to. While selecting it flips the output
    /// under the cursor in or out of the selection.
    pub open spec fn after_space(self) -> AppView {
        AppView {
            ui: match self.ui {
                UiStateView::Idle { cursor_idx } => if cursor_idx < self.inputs.len() {
                    UiStateView::SelectingOutputs {
                        input_idx: cursor_idx,
                        selected_outputs: positions_in(
                            self.outputs,
                            outputs_of(routes_from(self.active, self.inputs[cursor_idx as int])),
                        ),
                        cursor_idx: 0,
                    }
                } else {
                    self.ui
                },
                UiStateView::SelectingOutputs {
                    input_idx,
                    selected_outputs,
                    cursor_idx,
                } => UiStateView::SelectingOutputs {
                    input_idx,
                    selected_outputs: toggled(selected_outputs, cursor_idx),
                    cursor_idx,
                },
            },
            ..self
        }
    }

    /// The state after a selection is confirmed or given up: browsing
    /// again, with the cursor at the top. Browsing stays as it is.
    pub open spec fn after_selection(self) -> AppView {
        AppView {
            ui: match self.ui {
                UiStateView::Idle { cursor_idx } => self.ui,
                UiStateView::SelectingOutputs { .. } => UiStateView::Idle { cursor_idx: 0 },
            },
            ..self
        }
    }

    /// What confirming the selection asks for: every shown route from the
    /// chosen input is taken down, and a route to each selected output is
    /// brought up. Nothing is asked for while browsing, or if the chosen
    /// input is not there.
    pub open spec fn rewiring(self) -> Option<RewiringView> {
        match self.ui {
            UiStateView::SelectingOutputs { input_idx, selected_outputs, cursor_idx } => {
                if input_idx < self.inputs.len() {
                    let input = self.inputs[input_idx as int];
                    Some(
                        RewiringView {
                            stop: routes_from(self.active, input),
                            start: routes_to(input, self.outputs, selected_outputs),
                        },
                    )
                } else {
                    None
                }
            },
            UiStateView::Idle { .. } => None,
        }
    }

    /// The state with the shown routes brought in line with the registry.
    pub open spec fn with_routes_shown(self) -> AppView {
        AppView { active: self.manager.statuses(), ..self }
    }

    /// The state with the port lists made anew from what the driver reports.
    pub open spec fn with_ports(self, sources: Seq<Seq<char>>, destinations: Seq<Seq<char>>) -> AppView {
        AppView {
            inputs: input_listing(sources, destinations),
            outputs: output_listing(sources, destinations),
            ..self
        }
    }

    /// The state after every route with an endpoint that is not in the port
    /// lists is stopped, with the routes left shown.
    pub open spec fn cleaned(self) -> AppView {
        AppView {
            active: self.manager.reconciled(self.inputs, self.outputs).statuses(),
            manager: self.manager.reconciled(self.inputs, self.outputs),
            ..self
        }
    }

    /// The resources let go by that cleaning.
    pub open spec fn released_by_cleaning(self) -> Seq<RouteResourceView> {
        self.manager.released_by(self.manager.stale_routes(self.inputs, self.outputs))
    }

    /// Whether `after` and `outcome` are what starting `route` makes of this
    /// state: the registry does the start, and if it succeeds the routes
    /// shown are brought in line with it. A start that fails changes
    /// nothing.
    pub open spec fn start_outcome(
        self,
        route: ConnectionView,
        sources: Seq<Seq<char>>,
        destinations: Seq<Seq<char>>,
        after: AppView,
        outcome: Result<RouteResourceView, MidiErrorView>,
    ) -> bool {
        &&& self.manager.start_outcome(route, sources, destinations, after.manager, outcome)
        &&& after == (AppView {
            active: if outcome is Ok {
                after.manager.statuses()
            } else {
                self.active
            },
            manager: after.manager,
            ..self
        })
    }

    /// The state after a route is stopped, with the routes left shown.
    pub open spec fn after_stop(self, route: ConnectionView) -> AppView {
        AppView {
            active: self.manager.stopped(route).statuses(),
            manager: self.manager.stopped(route),
            ..self
        }
    }

    /// The route that is started with the application: from the virtual
    /// input of the first pair to its virtual output, if both are listed.
    pub open spec fn default_route(self) -> Option<ConnectionView> {
        match (
            first_match(port_names(self.inputs), VIRTUAL_INPUT_A_NAME@),
            first_match(port_names(self.outputs), VIRTUAL_OUTPUT_A_NAME@),
        ) {
            (Some(input), Some(output)) => Some(
                ConnectionView { input: self.inputs[input], output: self.outputs[output] },
            ),
            _ => None,
        }
    }

    /// The state after one event. A status update brings the routes shown
    /// in line with the registry. A change of ports makes the port lists
    /// anew from what the driver reports, and a fresh port list replaces
    /// them; either way the routes that lost an endpoint are stopped. Other
    /// events change nothing.
    pub open spec fn after_event(
        self,
        event: AppEventView,
        sources: Seq<Seq<char>>,
        destinations: Seq<Seq<char>>,
    ) -> AppView {
        match event {
            AppEventView::ConnectionStatus { .. } => self.with_routes_shown(),
            AppEventView::PortsChanged => self.with_ports(sources, destinations).cleaned(),
            AppEventView::PortListUpdate { inputs, outputs } => (AppView {
                inputs,
                outputs,
                ..self
            }).cleaned(),
            _ => self,
        }
    }

    /// The resources let go by one event.
    pub open spec fn released_by_event(
        self,
        event: AppEventView,
        sources: Seq<Seq<char>>,
        destinations: Seq<Seq<char>>,
    ) -> Seq<RouteResourceView> {
        match event {
            AppEventView::PortsChanged => self.with_ports(
                sources,
                destinations,
            ).released_by_cleaning(),
            AppEventView::PortListUpdate { inputs, outputs } => (AppView {
                inputs,
                outputs,
                ..self
            }).released_by_cleaning(),
            _ => Seq::empty(),
        }
    }

    /// The state after each of `events`, in turn.
    pub open spec fn after_events(
        self,
        events: Seq<AppEventView>,
        sources: Seq<Seq<char>>,
        destinations: Seq<Seq<char>>,
    ) -> AppView
        decreases events.len(),
    {
        if events.len() == 0 {
            self
        } else {
            self.after_events(events.drop_last(), sources, destinations).after_event(
                events.last(),
                sources,
                destinations,
            )
        }
    }

    /// The resources let go by `events`, in the order in which they go.
    pub open spec fn released_by_events(
        self,
        events: Seq<AppEventView>,
        sources: Seq<Seq<char>>,
        destinations: Seq<Seq<char>>,
    ) -> Seq<RouteResourceView>
        decreases events.len(),
    {
        if events.len() == 0 {
            Seq::empty()
        } else {
            self.released_by_events(events.drop_last(), sources, destinations)
                + self.after_events(events.drop_last(), sources, destinations).released_by_event(
                events.last(),
                sources,
                destinations,
            )
        }
    }
}

/// The route that is started with the application, and how its start went.
#[derive(Debug)]
pub struct DefaultRoute {
    pub connection: Connection,
    pub started: Result<RouteResource, MidiError>,
}

/// What starting the application brings: the detector to feed with port
/// listings, and the default route, if there was one to start.
#[derive(Debug)]
pub struct Startup {
    pub monitor: PortMonitor,
    pub default_route: Option<DefaultRoute>,
}

/// The application: what the screen shows and the registry behind it.
#[derive(Debug)]
pub struct App {
    pub midi_inputs: Vec<PortId>,
    pub midi_outputs: Vec<PortId>,
    pub active_connections: Vec<(Connection, ConnectionStatus)>,
    pub ui_state: UiState,
    pub should_quit: bool,
    pub midi_manager: MidiManager,
}

impl View for App {
    type V = AppView;

    open spec fn view(&self) -> AppView {
        AppView {
            inputs: port_views(self.midi_inputs@),
            outputs: port_views(self.midi_outputs@),
            active: status_views(self.active_connections@),
            ui: self.ui_state@,
            should_quit: self.should_quit,
            manager: self.midi_manager@,
        }
    }
}

/// Position of the first port of `ports` equal to `wanted`.
fn port_position(ports: &Vec<PortId>, wanted: &PortId) -> (at: Option<usize>)
    ensures
        match at {
            Some(at) => at < ports.len() && first_match(port_views(ports@), wanted@) == Some(
                at as int,
            ),
            None => first_match(port_views(ports@), wanted@) is None,
        },
{
    let ghost views = port_views(ports@);
    let mut i: usize = 0;
    while i < ports.len()
        invariant
            i <= ports.len(),
            views == port_views(ports@),
            forall|k: int| 0 <= k < i ==> views[k] != wanted@,
        decreases ports.len() - i,
    {
        if ports[i] == *wanted {
            proof {
                assert(views[i as int] == wanted@);
                lemma_first_match_at(views, wanted@, i as int);
            }
            return Some(i);
        }
        i += 1;
    }
    proof {
        lemma_first_match(views, wanted@);
    }
    None
}

/// Position of the first entry of `selected` equal to `idx`.
fn index_position(selected: &Vec<usize>, idx: usize) -> (at: Option<usize>)
    ensures
        match at {
            Some(at) => at < selected.len() && first_match(selected@, idx) == Some(at as int),
            None => first_match(selected@, idx) is None,
        },
{
    let mut i: usize = 0;
    while i < selected.len()
        invariant
            i <= selected.len(),
            forall|k: int| 0 <= k < i ==> selected@[k] != idx,
        decreases selected.len() - i,
    {
        if selected[i] == idx {
            proof {
                lemma_first_match_at(selected@, idx, i as int);
            }
            return Some(i);
        }
        i += 1;
    }
    proof {
        lemma_first_match(selected@, idx);
    }
    None
}

/// Position of the first port of `ports` called `name`.
fn find_named(ports: &Vec<PortId>, name: &str) -> (at: Option<usize>)
    ensures
        match at {
            Some(at) => at < ports.len() && first_match(port_names(port_views(ports@)), name@)
                == Some(at as int),
            None => first_match(port_names(port_views(ports@)), name@) is None,
        },
{
    let ghost names = port_names(port_views(ports@));
    let mut i: usize = 0;
    while i < ports.len()
        invariant
            i <= ports.len(),
            names == port_names(port_views(ports@)),
            forall|k: int| 0 <= k < i ==> names[k] != name@,
        decreases ports.len() - i,
    {
        if str_equal(ports[i].name.as_str(), name) {
            proof {
                assert(names[i as int] == name@);
                lemma_first_match_at(names, name@, i as int);
            }
            return Some(i);
        }
        i += 1;
    }
    proof {
        lemma_first_match(names, name@);
    }
    None
}

/// For each wanted port that is among `ports`, the first place where it
/// stands there.
fn port_positions(ports: &Vec<PortId>, wanted: &Vec<PortId>) -> (positions: Vec<usize>)
    ensures
        positions@ == positions_in(port_views(ports@), port_views(wanted@)),
{
    let ghost all = port_views(wanted@);
    let mut positions: Vec<usize> = Vec::new();
    let mut i: usize = 0;
    assert(all.take(0) =~= Seq::empty());
    while i < wanted.len()
        invariant
            i <= wanted.len(),
            all == port_views(wanted@),
            positions@ == positions_in(port_views(ports@), all.take(i as int)),
        decreases wanted.len() - i,
    {
        assert(all.take(i + 1).drop_last() =~= all.take(i as int));
        assert(all.take(i + 1).last() == wanted@[i as int]@);
        match port_position(ports, &wanted[i]) {
            Some(at) => {
                positions.push(at);
            },
            None => {},
        }
        i += 1;
    }
    assert(all.take(wanted.len() as int) =~= all);
    positions
}

/// The routes from `input` to each selected output that exists.
fn routes_to_outputs(input: &PortId, outputs: &Vec<PortId>, selected: &Vec<usize>) -> (routes: Vec<
    Connection,
>)
    ensures
        connection_views(routes@) == routes_to(input@, port_views(outputs@), selected@),
{
    let mut routes: Vec<Connection> = Vec::new();
    let mut i: usize = 0;
    assert(connection_views(routes@) =~= routes_to(
        input@,
        port_views(outputs@),
        selected@.take(0),
    ));
    while i < selected.len()
        invariant
            i <= selected.len(),
            connection_views(routes@) == routes_to(
                input@,
                port_views(outputs@),
                selected@.take(i as int),
            ),
        decreases selected.len() - i,
    {
        let ghost held = connection_views(routes@);
        assert(selected@.take(i + 1).drop_last() =~= selected@.take(i as int));
        assert(selected@.take(i + 1).last() == selected@[i as int]);
        let idx = selected[i];
        if idx < outputs.len() {
            let route = Connection::new(input.clone(), outputs[idx].clone());
            assert(route@ == (ConnectionView {
                input: input@,
                output: port_views(outputs@)[idx as int],
            }));
            routes.push(route);
            assert(connection_views(routes@) =~= held.push(
                ConnectionView { input: input@, output: port_views(outputs@)[idx as int] },
            ));
        }
        i += 1;
    }
    assert(selected@.take(selected.len() as int) =~= selected@);
    routes
}

impl App {
    /// An application with no port, no route, the cursor at the top and a
    /// registry without fabric.
    pub fn new() -> (app: Self)
        ensures
            app@ == (AppView {
                inputs: Seq::empty(),
                outputs: Seq::empty(),
                active: Seq::empty(),
                ui: UiStateView::Idle { cursor_idx: 0 },
                should_quit: false,
                manager: ManagerView { fabric: None, routes: Seq::empty(), monitoring: false },
            }),
            app@.manager.wf(),
    {
        let app = App {
            midi_inputs: Vec::new(),
            midi_outputs: Vec::new(),
            active_connections: Vec::new(),
            ui_state: UiState::Idle { cursor_idx: 0 },
            should_quit: false,
            midi_manager: MidiManager::new(),
        };
        proof {
            assert(app@.inputs =~= Seq::empty());
            assert(app@.outputs =~= Seq::empty());
            assert(app@.active =~= Seq::empty());
        }
        app
    }

    /// Get outputs connected to a specific input.
    pub fn get_connected_outputs(&self, input: &PortId) -> (outputs: Vec<PortId>)
        ensures
            port_views(outputs@) == outputs_of(routes_from(self@.active, input@)),
    {
        let ghost active = self@.active;
        let mut outputs: Vec<PortId> = Vec::new();
        let mut i: usize = 0;
        assert(port_views(outputs@) =~= outputs_of(routes_from(active.take(0), input@)));
        while i < self.active_connections.len()
            invariant
                i <= self.active_connections.len(),
                active == self@.active,
                port_views(outputs@) == outputs_of(routes_from(active.take(i as int), input@)),
            decreases self.active_connections.len() - i,
        {
            let ghost held = port_views(outputs@);
            let ghost before = routes_from(active.take(i as int), input@);
            assert(active.take(i + 1).drop_last() =~= active.take(i as int));
            assert(active.take(i + 1).last().0 == self.active_connections@[i as int].0@);
            let connection = &self.active_connections[i].0;
            if connection.input == *input {
                outputs.push(connection.output.clone());
                assert(port_views(outputs@) =~= held.push(connection@.output));
                assert(outputs_of(before.push(connection@)) =~= outputs_of(before).push(
                    connection@.output,
                ));
            }
            i += 1;
        }
        assert(active.take(self.active_connections.len() as int) =~= active);
        outputs
    }

    /// Check if an output is connected to a specific input.
    pub fn is_output_connected(&self, input: &PortId, output: &PortId) -> (connected: bool)
        ensures
            connected == exists|i: int|
                0 <= i < self@.active.len() && (#[trigger] self@.active[i]).0 == (ConnectionView {
                    input: input@,
                    output: output@,
                }),
    {
        let ghost active = self@.active;
        let ghost wanted = ConnectionView { input: input@, output: output@ };
        let mut i: usize = 0;
        while i < self.active_connections.len()
            invariant
                i <= self.active_connections.len(),
                active == self@.active,
                wanted == (ConnectionView { input: input@, output: output@ }),
                forall|k: int| 0 <= k < i ==> (#[trigger] active[k]).0 != wanted,
            decreases self.active_connections.len() - i,
        {
            let connection = &self.active_connections[i].0;
            if connection.input == *input && connection.output == *output {
                assert(active[i as int].0 == wanted);
                return true;
            }
            i += 1;
        }
        false
    }

    /// Moves the cursor up.
    pub fn handle_key_up(&mut self)
        ensures
            final(self)@ == old(self)@.after_key_up(),
    {
        match &mut self.ui_state {
            UiState::Idle { cursor_idx } => {
                if *cursor_idx > 0 {
                    *cursor_idx = *cursor_idx - 1;
                }
            },
            UiState::SelectingOutputs { cursor_idx, .. } => {
                if *cursor_idx > 0 {
                    *cursor_idx = *cursor_idx - 1;
                }
            },
        }
    }

    /// Moves the cursor down.
    pub fn handle_key_down(&mut self)
        ensures
            final(self)@ == old(self)@.after_key_down(),
    {
        let inputs = self.midi_inputs.len();
        let outputs = self.midi_outputs.len();
        match &mut self.ui_state {
            UiState::Idle { cursor_idx } => {
                if inputs > 0 && *cursor_idx < inputs - 1 {
                    *cursor_idx = *cursor_idx + 1;
                }
            },
            UiState::SelectingOutputs { cursor_idx, .. } => {
                if outputs > 0 && *cursor_idx < outputs - 1 {
                    *cursor_idx = *cursor_idx + 1;
                }
            },
        }
    }

    /// Brings the routes shown in line with the registry.
    pub fn update_connection_list(&mut self)
        ensures
            final(self)@ == old(self)@.with_routes_shown(),
    {
        self.active_connections = self.midi_manager.get_connection_statuses();
    }

    /// Makes the port lists anew from the names the driver reports.
    pub fn refresh_ports(&mut self, sources: &Vec<String>, destinations: &Vec<String>)
        ensures
            final(self)@ == old(self)@.with_ports(text_views(sources@), text_views(destinations@)),
    {
        self.midi_inputs = MidiManager::list_input_ports(sources, destinations);
        self.midi_outputs = MidiManager::list_output_ports(sources, destinations);
    }

    /// Stops every route of which an endpoint is not in the port lists, and
    /// returns the resources that the caller must now tear down.
    pub fn cleanup_stale_connections(&mut self) -> (released: Vec<RouteResource>)
        ensures
            final(self)@.manager.wf(),
            final(self)@ == old(self)@.cleaned(),
            resource_views(released@) == old(self)@.released_by_cleaning(),
    {
        let released = self.midi_manager.reconcile(&self.midi_inputs, &self.midi_outputs);
        self.update_connection_list();
        released
    }

    /// Takes note that ports came or went: makes the port lists anew and
    /// stops the routes that lost an endpoint.
    pub fn handle_ports_changed(&mut self, sources: &Vec<String>, destinations: &Vec<String>) -> (released:
        Vec<RouteResource>)
        ensures
            final(self)@.manager.wf(),
            final(self)@ == old(self)@.with_ports(
                text_views(sources@),
                text_views(destinations@),
            ).cleaned(),
            resource_views(released@) == old(self)@.with_ports(
                text_views(sources@),
                text_views(destinations@),
            ).released_by_cleaning(),
    {
        self.refresh_ports(sources, destinations);
        self.cleanup_stale_connections()
    }

    /// Refreshes the port lists at the operator's request.
    pub fn handle_refresh(&mut self, sources: &Vec<String>, destinations: &Vec<String>) -> (released:
        Vec<RouteResource>)
        ensures
            final(self)@.manager.wf(),
            final(self)@ == old(self)@.with_ports(
                text_views(sources@),
                text_views(destinations@),
            ).cleaned(),
            resource_views(released@) == old(self)@.with_ports(
                text_views(sources@),
                text_views(destinations@),
            ).released_by_cleaning(),
    {
        self.handle_ports_changed(sources, destinations)
    }

    /// Starts a route through the registry and, if that succeeds, shows it.
    pub fn start_connection(
        &mut self,
        connection: Connection,
        sources: &Vec<String>,
        destinations: &Vec<String>,
    ) -> (started: Result<RouteResource, MidiError>)
        ensures
            final(self)@.manager.wf(),
            old(self)@.start_outcome(
                connection@,
                text_views(sources@),
                text_views(destinations@),
                final(self)@,
                start_view(started),
            ),
    {
        match self.midi_manager.start_connection(connection, sources, destinations) {
            Ok(resource) => {
                self.update_connection_list();
                Ok(resource)
            },
            Err(error) => Err(error),
        }
    }

    /// Stops a route through the registry and shows the routes left.
    pub fn stop_connection(&mut self, connection: &Connection) -> (released: Option<RouteResource>)
        ensures
            final(self)@.manager.wf(),
            final(self)@ == old(self)@.after_stop(connection@),
            crate::midi::manager::released_view(released) == old(self)@.manager.resource_of(
                connection@,
            ),
    {
        let released = self.midi_manager.stop_connection(connection);
        self.update_connection_list();
        released
    }

    /// Ends the application: monitoring is switched off and the main loop
    /// is told to leave.
    pub fn quit(&mut self)
        ensures
            final(self)@ == (AppView {
                should_quit: true,
                manager: ManagerView { monitoring: false, ..old(self)@.manager },
                ..old(self)@
            }),
    {
        self.midi_manager.stop_port_monitoring();
        self.should_quit = true;
    }

    /// The shown routes that start at `input`.
    fn routes_from_input(&self, input: &PortId) -> (routes: Vec<Connection>)
        ensures
            connection_views(routes@) == routes_from(self@.active, input@),
    {
        let ghost active = self@.active;
        let mut routes: Vec<Connection> = Vec::new();
        let mut i: usize = 0;
        assert(connection_views(routes@) =~= routes_from(active.take(0), input@));
        while i < self.active_connections.len()
            invariant
                i <= self.active_connections.len(),
                active == self@.active,
                connection_views(routes@) == routes_from(active.take(i as int), input@),
            decreases self.active_connections.len() - i,
        {
            let ghost held = connection_views(routes@);
            assert(active.take(i + 1).drop_last() =~= active.take(i as int));
            assert(active.take(i + 1).last().0 == self.active_connections@[i as int].0@);
            let connection = &self.active_connections[i].0;
            if connection.input == *input {
                routes.push(connection.clone());
                assert(connection_views(routes@) =~= held.push(connection@));
            }
            i += 1;
        }
        assert(active.take(self.active_connections.len() as int) =~= active);
        routes
    }

    /// Picks the input under the cursor, or flips the output under it.
    pub fn handle_space(&mut self)
        ensures
            final(self)@ == old(self)@.after_space(),
    {
        let picked = match &self.ui_state {
            UiState::Idle { cursor_idx } => Some(*cursor_idx),
            UiState::SelectingOutputs { .. } => None,
        };
        match picked {
            Some(cursor_idx) => {
                if cursor_idx < self.midi_inputs.len() {
                    let connected = self.get_connected_outputs(&self.midi_inputs[cursor_idx]);
                    let selected_outputs = port_positions(&self.midi_outputs, &connected);
                    self.ui_state = UiState::SelectingOutputs {
                        input_idx: cursor_idx,
                        selected_outputs,
                        cursor_idx: 0,
                    };
                }
            },
            None => {
                match &mut self.ui_state {
                    UiState::SelectingOutputs { selected_outputs, cursor_idx, .. } => {
                        let idx = *cursor_idx;
                        match index_position(selected_outputs, idx) {
                            Some(at) => {
                                selected_outputs.remove(at);
                            },
                            None => {
                                selected_outputs.push(idx);
                            },
                        }
                    },
                    UiState::Idle { .. } => {},
                }
            },
        }
    }

    /// Confirms the selection: returns to browsing and tells which routes
    /// to take down and which to bring up. The caller stops the first and
    /// starts the second, in that order.
    pub fn handle_enter(&mut self) -> (plan: Option<Rewiring>)
        ensures
            final(self)@ == old(self)@.after_selection(),
            match plan {
                Some(plan) => old(self)@.rewiring() == Some(plan@),
                None => old(self)@.rewiring() is None,
            },
    {
        let plan = match &self.ui_state {
            UiState::SelectingOutputs { input_idx, selected_outputs, .. } => {
                if *input_idx < self.midi_inputs.len() {
                    let input = &self.midi_inputs[*input_idx];
                    let stop = self.routes_from_input(input);
                    let start = routes_to_outputs(input, &self.midi_outputs, selected_outputs);
                    Some(Rewiring { stop, start })
                } else {
                    None
                }
            },
            UiState::Idle { .. } => None,
        };
        self.handle_escape();
        plan
    }

    /// Takes note of how bringing up the resource of a started route went;
    /// see [`MidiManager::settle_connection`]. The routes shown are brought
    /// in line with the registry.
    pub fn settle_connection(&mut self, connection: &Connection, brought_up: bool) -> (settled:
        Result<AppEvent, MidiError>)
        ensures
            final(self)@.manager.wf(),
            brought_up ==> final(self)@ == old(self)@.with_routes_shown() && (settled matches Ok(
                AppEvent::ConnectionStatus { connection: announced, status },
            ) && announced@ == connection@ && status@ == "OK"@),
            !brought_up ==> final(self)@ == old(self)@.after_stop(connection@) && (settled matches Err(
                error,
            ) && error@ == MidiErrorView::SpawnFailed),
    {
        let settled = self.midi_manager.settle_connection(connection, brought_up);
        self.update_connection_list();
        settled
    }

    /// Handles one event; see [`AppView::after_event`].
    pub fn process_event(
        &mut self,
        event: &AppEvent,
        sources: &Vec<String>,
        destinations: &Vec<String>,
    ) -> (released: Vec<RouteResource>)
        ensures
            final(self)@.manager.wf(),
            final(self)@ == old(self)@.after_event(
                event@,
                text_views(sources@),
                text_views(destinations@),
            ),
            resource_views(released@) == old(self)@.released_by_event(
                event@,
                text_views(sources@),
                text_views(destinations@),
            ),
    {
        proof {
            use_type_invariant(&self.midi_manager);
        }
        match event {
            AppEvent::ConnectionStatus { .. } => {
                self.update_connection_list();
                let released: Vec<RouteResource> = Vec::new();
                assert(resource_views(released@) =~= Seq::empty());
                released
            },
            AppEvent::PortsChanged => self.handle_ports_changed(sources, destinations),
            AppEvent::PortListUpdate { inputs, outputs } => {
                self.midi_inputs = clone_ports(inputs);
                self.midi_outputs = clone_ports(outputs);
                self.cleanup_stale_connections()
            },
            _ => {
                let released: Vec<RouteResource> = Vec::new();
                assert(resource_views(released@) =~= Seq::empty());
                released
            },
        }
    }

    /// Handles the events that have come in, in order, and returns the
    /// resources that the caller must now tear down. The driver's names are
    /// read only where an event says that ports changed.
    pub fn process_events(
        &mut self,
        events: Vec<AppEvent>,
        sources: &Vec<String>,
        destinations: &Vec<String>,
    ) -> (released: Vec<RouteResource>)
        ensures
            final(self)@.manager.wf(),
            final(self)@ == old(self)@.after_events(
                event_views(events@),
                text_views(sources@),
                text_views(destinations@),
            ),
            resource_views(released@) == old(self)@.released_by_events(
                event_views(events@),
                text_views(sources@),
                text_views(destinations@),
            ),
    {
        proof {
            use_type_invariant(&self.midi_manager);
        }
        let ghost before = self@;
        let ghost all = event_views(events@);
        let ghost names = (text_views(sources@), text_views(destinations@));
        let mut released: Vec<RouteResource> = Vec::new();
        let mut i: usize = 0;
        proof {
            assert(all.take(0) =~= Seq::empty());
            assert(resource_views(released@) =~= Seq::empty());
        }
        while i < events.len()
            invariant
                i <= events.len(),
                all == event_views(events@),
                names == (text_views(sources@), text_views(destinations@)),
                self@.manager.wf(),
                self@ == before.after_events(all.take(i as int), names.0, names.1),
                resource_views(released@) == before.released_by_events(
                    all.take(i as int),
                    names.0,
                    names.1,
                ),
            decreases events.len() - i,
        {
            let ghost held = resource_views(released@);
            assert(all.take(i + 1).drop_last() =~= all.take(i as int));
            assert(all.take(i + 1).last() == events@[i as int]@);
            let mut more = self.process_event(&events[i], sources, destinations);
            let ghost added = resource_views(more@);
            released.append(&mut more);
            assert(resource_views(released@) =~= held + added);
            i += 1;
        }
        assert(all.take(events.len() as int) =~= all);
        released
    }

    /// Sets the application up: takes note of whether the virtual ports
    /// could be created, lists the ports that the driver reports, switches
    /// monitoring on, and, if the virtual ports are there and the first
    /// pair is listed, starts the default route from its input to its
    /// output.
    pub fn initialize(
        &mut self,
        virtual_ports_created: bool,
        sources: &Vec<String>,
        destinations: &Vec<String>,
    ) -> (startup: Startup)
        ensures
            final(self)@.manager.wf(),
            startup.monitor@ is None,
            ({
                let prepared = (AppView {
                    manager: ManagerView {
                        fabric: if virtual_ports_created && old(self)@.manager.fabric is None {
                            Some(crate::midi::virtual_ports::FabricView::empty())
                        } else {
                            old(self)@.manager.fabric
                        },
                        monitoring: true,
                        ..old(self)@.manager
                    },
                    ..old(self)@
                }).with_ports(text_views(sources@), text_views(destinations@));
                match (virtual_ports_created, prepared.default_route()) {
                    (true, Some(route)) => startup.default_route matches Some(default)
                        && default.connection@ == route && prepared.start_outcome(
                        route,
                        text_views(sources@),
                        text_views(destinations@),
                        final(self)@,
                        start_view(default.started),
                    ),
                    _ => startup.default_route is None && final(self)@ == prepared,
                }
            }),
    {
        let created = self.midi_manager.init_virtual_ports(virtual_ports_created).is_ok();
        self.refresh_ports(sources, destinations);
        let monitor = self.midi_manager.start_port_monitoring();
        let mut default_route: Option<DefaultRoute> = None;
        if created {
            match (
                find_named(&self.midi_inputs, VIRTUAL_INPUT_A_NAME),
                find_named(&self.midi_outputs, VIRTUAL_OUTPUT_A_NAME),
            ) {
                (Some(input), Some(output)) => {
                    let route = Connection::new(
                        self.midi_inputs[input].clone(),
                        self.midi_outputs[output].clone(),
                    );
                    let connection = route.clone();
                    let started = self.start_connection(route, sources, destinations);
                    default_route = Some(DefaultRoute { connection, started });
                },
                _ => {},
            }
        }
        Startup { monitor, default_route }
    }

    /// Gives up a selection and returns to browsing.
    pub fn handle_escape(&mut self)
        ensures
            final(self)@ == old(self)@.after_selection(),
    {
        match &self.ui_state {
            UiState::SelectingOutputs { .. } => {
                self.ui_state = UiState::Idle { cursor_idx: 0 };
            },
            UiState::Idle { .. } => {},
        }
    }
}

} // verus!
