//! How the program is told what to be: the routing screen, the port
//! listing, or a worker for its own parent. The parent starts a worker by
//! running the program again with the words and names given here.

use crate::connection::{Connection, ConnectionView};
use crate::midi::ports::text_views;
use crate::text::str_equal;
use vstd::prelude::*;

verus! {

/// The word that asks for the port listing.
pub const LIST_PORTS_MODE: &'static str = "--list-ports";

/// The word that asks for a route worker.
pub const WORKER_MODE: &'static str = "worker";

/// The word that asks for a byte relay.
pub const PIPE_WORKER_MODE: &'static str = "pipe-worker";

/// What the program is asked to be.
#[derive(Debug)]
pub enum EntryMode {
    /// The routing screen.
    Interactive,
    /// Print the port listing and leave.
    ListPorts,
    /// Forward from the named input to the named output until killed.
    Worker { input: String, output: String },
    /// Relay standard input to the named output until it is closed.
    PipeWorker { output: String },
    /// A route worker was asked for without both of its port names.
    WorkerNeedsPorts,
    /// A byte relay was asked for without its port name.
    PipeWorkerNeedsPort,
}

/// What an [`EntryMode`] stands for.
pub enum EntryModeView {
    Interactive,
    ListPorts,
    Worker { input: Seq<char>, output: Seq<char> },
    PipeWorker { output: Seq<char> },
    WorkerNeedsPorts,
    PipeWorkerNeedsPort,
}

impl View for EntryMode {
    type V = EntryModeView;

    open spec fn view(&self) -> EntryModeView {
        match self {
            EntryMode::Interactive => EntryModeView::Interactive,
            EntryMode::ListPorts => EntryModeView::ListPorts,
            EntryMode::Worker { input, output } => EntryModeView::Worker {
                input: input@,
                output: output@,
            },
            EntryMode::PipeWorker { output } => EntryModeView::PipeWorker { output: output@ },
            EntryMode::WorkerNeedsPorts => EntryModeView::WorkerNeedsPorts,
            EntryMode::PipeWorkerNeedsPort => EntryModeView::PipeWorkerNeedsPort,
        }
    }
}

/// The mode that the program's arguments ask for. The first argument is
/// the program itself; the one after it selects the mode, and the port
/// names follow it. Without a word that names another mode the program is
/// the routing screen. Arguments after the port names do not count.
pub open spec fn mode_of(args: Seq<Seq<char>>) -> EntryModeView {
    if args.len() < 2 {
        EntryModeView::Interactive
    } else if args[1] == LIST_PORTS_MODE@ {
        EntryModeView::ListPorts
    } else if args[1] == WORKER_MODE@ {
        if args.len() < 4 {
            EntryModeView::WorkerNeedsPorts
        } else {
            EntryModeView::Worker { input: args[2], output: args[3] }
        }
    } else if args[1] == PIPE_WORKER_MODE@ {
        if args.len() < 3 {
            EntryModeView::PipeWorkerNeedsPort
        } else {
            EntryModeView::PipeWorker { output: args[2] }
        }
    } else {
        EntryModeView::Interactive
    }
}

/// The arguments after the program's own with which a worker for `route`
/// is started.
pub open spec fn worker_words(route: ConnectionView) -> Seq<Seq<char>> {
    seq![WORKER_MODE@, route.input.name, route.output.name]
}

/// The arguments after the program's own with which a relay to `output`
/// is started.
pub open spec fn relay_words(output: Seq<char>) -> Seq<Seq<char>> {
    seq![PIPE_WORKER_MODE@, output]
}

/// Tells from the program's arguments what it is asked to be.
pub fn entry_mode(args: &Vec<String>) -> (mode: EntryMode)
    ensures
        mode@ == mode_of(text_views(args@)),
{
    if args.len() < 2 {
        return EntryMode::Interactive;
    }
    assert(text_views(args@)[1] == args@[1]@);
    let word = args[1].as_str();
    if str_equal(word, LIST_PORTS_MODE) {
        EntryMode::ListPorts
    } else if str_equal(word, WORKER_MODE) {
        if args.len() < 4 {
            EntryMode::WorkerNeedsPorts
        } else {
            assert(text_views(args@)[2] == args@[2]@);
            assert(text_views(args@)[3] == args@[3]@);
            EntryMode::Worker { input: args[2].clone(), output: args[3].clone() }
        }
    } else if str_equal(word, PIPE_WORKER_MODE) {
        if args.len() < 3 {
            EntryMode::PipeWorkerNeedsPort
        } else {
            assert(text_views(args@)[2] == args@[2]@);
            EntryMode::PipeWorker { output: args[2].clone() }
        }
    } else {
        EntryMode::Interactive
    }
}

/// The arguments with which the parent starts a worker for a route.
pub fn worker_args(connection: &Connection) -> (args: Vec<String>)
    ensures
        text_views(args@) == worker_words(connection@),
{
    let mut args: Vec<String> = Vec::new();
    args.push(String::from_str(WORKER_MODE));
    args.push(connection.input.name.clone());
    args.push(connection.output.name.clone());
    assert(text_views(args@) =~= worker_words(connection@));
    args
}

/// The arguments with which the parent starts a relay to an output.
pub fn relay_args(output: &str) -> (args: Vec<String>)
    ensures
        text_views(args@) == relay_words(output@),
{
    let mut args: Vec<String> = Vec::new();
    args.push(String::from_str(PIPE_WORKER_MODE));
    args.push(String::from_str(output));
    assert(text_views(args@) =~= relay_words(output@));
    args
}

/// A child started with the words for a worker is a worker for that
/// route, and one started with the words for a relay is a relay to that
/// output, whatever the program is called.
pub proof fn lemma_child_takes_its_mode(
    program: Seq<char>,
    route: ConnectionView,
    output: Seq<char>,
)
    ensures
        mode_of(seq![program] + worker_words(route)) == (EntryModeView::Worker {
            input: route.input.name,
            output: route.output.name,
        }),
        mode_of(seq![program] + relay_words(output)) == (EntryModeView::PipeWorker { output }),
{
    reveal_strlit("--list-ports");
    reveal_strlit("worker");
    reveal_strlit("pipe-worker");
    let worker = seq![program] + worker_words(route);
    assert(worker.len() == 4);
    assert(worker[1] == WORKER_MODE@);
    assert(worker[2] == route.input.name);
    assert(worker[3] == route.output.name);
    assert(WORKER_MODE@[0] != LIST_PORTS_MODE@[0]);
    let relay = seq![program] + relay_words(output);
    assert(relay.len() == 3);
    assert(relay[1] == PIPE_WORKER_MODE@);
    assert(relay[2] == output);
    assert(PIPE_WORKER_MODE@[0] != LIST_PORTS_MODE@[0]);
    assert(PIPE_WORKER_MODE@[0] != WORKER_MODE@[0]);
}

} // verus!
