//! The virtual ports this process creates, the names reserved for them, and
//! the broadcast fabric: for each pair of virtual ports, the sinks that get
//! whatever the pair's input receives.

use crate::error::{MidiError, MidiErrorView};
use crate::midi::forwarder::{forwarded, handle_midi_message};
use crate::sequences::{lemma_filter_drops_one, lemma_filter_keeps_all, lemma_filter_keeps_distinct};
use crate::text::str_equal;
use vstd::prelude::*;

verus! {

pub const VIRTUAL_INPUT_A_NAME: &'static str = "mc-in-a";

pub const VIRTUAL_OUTPUT_A_NAME: &'static str = "mc-out-a";

pub const VIRTUAL_INPUT_B_NAME: &'static str = "mc-in-b";

pub const VIRTUAL_OUTPUT_B_NAME: &'static str = "mc-out-b";

/// Whether a name is that of one of the virtual inputs.
pub open spec fn is_virtual_input_name(name: Seq<char>) -> bool {
    name == VIRTUAL_INPUT_A_NAME@ || name == VIRTUAL_INPUT_B_NAME@
}

/// Whether a name is that of one of the virtual outputs.
pub open spec fn is_virtual_output_name(name: Seq<char>) -> bool {
    name == VIRTUAL_OUTPUT_A_NAME@ || name == VIRTUAL_OUTPUT_B_NAME@
}

/// Whether a name is reserved for a virtual port of either role.
pub open spec fn is_reserved_name(name: Seq<char>) -> bool {
    is_virtual_input_name(name) || is_virtual_output_name(name)
}

/// Tells whether `name` is reserved for a virtual input.
pub fn is_virtual_input(name: &str) -> (yes: bool)
    ensures
        yes == is_virtual_input_name(name@),
{
    str_equal(name, VIRTUAL_INPUT_A_NAME) || str_equal(name, VIRTUAL_INPUT_B_NAME)
}

/// Tells whether `name` is reserved for a virtual output.
pub fn is_virtual_output(name: &str) -> (yes: bool)
    ensures
        yes == is_virtual_output_name(name@),
{
    str_equal(name, VIRTUAL_OUTPUT_A_NAME) || str_equal(name, VIRTUAL_OUTPUT_B_NAME)
}

/// Tells whether `name` is reserved for a virtual port.
pub fn is_reserved(name: &str) -> (yes: bool)
    ensures
        yes == is_reserved_name(name@),
{
    is_virtual_input(name) || is_virtual_output(name)
}

/// The four reserved names are pairwise different.
pub proof fn lemma_reserved_names_distinct()
    ensures
        VIRTUAL_INPUT_A_NAME@ != VIRTUAL_INPUT_B_NAME@,
        VIRTUAL_OUTPUT_A_NAME@ != VIRTUAL_OUTPUT_B_NAME@,
        forall|name: Seq<char>| !(is_virtual_input_name(name) && is_virtual_output_name(name)),
{
    reveal_strlit("mc-in-a");
    reveal_strlit("mc-in-b");
    reveal_strlit("mc-out-a");
    reveal_strlit("mc-out-b");
    assert(VIRTUAL_INPUT_A_NAME@[6] != VIRTUAL_INPUT_B_NAME@[6]);
    assert(VIRTUAL_OUTPUT_A_NAME@[7] != VIRTUAL_OUTPUT_B_NAME@[7]);
    assert(VIRTUAL_INPUT_A_NAME@.len() != VIRTUAL_OUTPUT_A_NAME@.len());
}

/// One pair of virtual ports: an input and an output made together, and a
/// broadcast domain of its own.
#[derive(Clone, Copy, Debug, PartialEq, Eq, Hash, Structural)]
pub enum PairId {
    A,
    B,
}

/// Names a registered sink. It is handed out at registration and is what
/// removal asks for: two sinks to the same destination have different
/// handles. The token counts the registrations made on the pair before
/// this one, so a handle names one sink for good: no later sink gets it,
/// whether the first is still registered or not.
#[derive(Clone, Copy, Debug, PartialEq, Eq, Hash, Structural)]
pub struct SinkHandle {
    pub pair: PairId,
    pub token: u64,
}

/// Where a sink sends what it gets.
#[derive(Debug)]
pub enum SinkTarget {
    /// The virtual output of a pair, which this process holds open.
    VirtualOutput(PairId),
    /// A relay worker that opens the named output port afresh.
    Relay(String),
}

/// What a [`SinkTarget`] stands for.
pub enum SinkTargetView {
    VirtualOutput(PairId),
    Relay(Seq<char>),
}

/// A registered sink.
#[derive(Debug)]
pub struct Sink {
    pub handle: SinkHandle,
    pub target: SinkTarget,
}

/// What a [`Sink`] stands for.
pub struct SinkView {
    pub handle: SinkHandle,
    pub target: SinkTargetView,
}

/// What goes out for one received message: the bytes, and the sinks that
/// get them, in the order in which they were registered.
#[derive(Debug)]
pub struct Broadcast {
    pub payload: Vec<u8>,
    pub sinks: Vec<SinkHandle>,
}

/// What a [`Broadcast`] stands for.
pub struct BroadcastView {
    pub payload: Seq<u8>,
    pub sinks: Seq<SinkHandle>,
}

/// The broadcast sets of both pairs, and for each pair the number of
/// handles issued on it so far.
pub struct FabricView {
    pub a: Seq<SinkView>,
    pub b: Seq<SinkView>,
    pub issued_a: nat,
    pub issued_b: nat,
}

/// One thing that can happen to a fabric.
pub enum FabricStep {
    /// A sink for a target is registered on a pair.
    Register { pair: PairId, target: SinkTargetView },
    /// The sink with a handle is taken off a pair.
    Remove { pair: PairId, handle: SinkHandle },
}

impl View for SinkTarget {
    type V = SinkTargetView;

    open spec fn view(&self) -> SinkTargetView {
        match self {
            SinkTarget::VirtualOutput(pair) => SinkTargetView::VirtualOutput(*pair),
            SinkTarget::Relay(name) => SinkTargetView::Relay(name@),
        }
    }
}

impl View for Sink {
    type V = SinkView;

    open spec fn view(&self) -> SinkView {
        SinkView { handle: self.handle, target: self.target@ }
    }
}

impl View for Broadcast {
    type V = BroadcastView;

    open spec fn view(&self) -> BroadcastView {
        BroadcastView { payload: self.payload@, sinks: self.sinks@ }
    }
}

impl Clone for SinkTarget {
    fn clone(&self) -> (copy: Self)
        ensures
            copy == *self,
    {
        match self {
            SinkTarget::VirtualOutput(pair) => SinkTarget::VirtualOutput(*pair),
            SinkTarget::Relay(name) => SinkTarget::Relay(name.clone()),
        }
    }
}

impl Clone for Sink {
    fn clone(&self) -> (copy: Self)
        ensures
            copy == *self,
    {
        Sink { handle: self.handle, target: self.target.clone() }
    }
}

/// The sinks of a list, each by its view.
pub open spec fn sink_views(sinks: Seq<Sink>) -> Seq<SinkView> {
    sinks.map_values(|s: Sink| s@)
}

/// The handles of a list of sinks.
pub open spec fn handles_of(sinks: Seq<SinkView>) -> Seq<SinkHandle> {
    sinks.map_values(|s: SinkView| s.handle)
}

/// The pair whose virtual input has this name.
pub open spec fn pair_of_input(name: Seq<char>) -> Option<PairId> {
    if name == VIRTUAL_INPUT_A_NAME@ {
        Some(PairId::A)
    } else if name == VIRTUAL_INPUT_B_NAME@ {
        Some(PairId::B)
    } else {
        None
    }
}

/// Where a sink for the named destination sends: straight to a virtual
/// output if the name is that of one, through a relay worker otherwise.
pub open spec fn target_for(output: Seq<char>) -> SinkTargetView {
    if output == VIRTUAL_OUTPUT_A_NAME@ {
        SinkTargetView::VirtualOutput(PairId::A)
    } else if output == VIRTUAL_OUTPUT_B_NAME@ {
        SinkTargetView::VirtualOutput(PairId::B)
    } else {
        SinkTargetView::Relay(output)
    }
}

/// The number of handles that one pair can issue.
pub const TOKEN_LIMIT: u64 = 0xFFFF_FFFF_FFFF_FFFF;

/// The test that keeps every sink but the one with this handle.
pub open spec fn not_handle(handle: SinkHandle) -> spec_fn(SinkView) -> bool {
    |s: SinkView| s.handle != handle
}

/// The test that keeps every handle but this one.
pub open spec fn other_handle(handle: SinkHandle) -> spec_fn(SinkHandle) -> bool {
    |h: SinkHandle| h != handle
}

impl FabricView {
    /// A fabric with no sink, on which no handle was issued yet.
    pub open spec fn empty() -> FabricView {
        FabricView { a: Seq::empty(), b: Seq::empty(), issued_a: 0, issued_b: 0 }
    }

    /// The broadcast set of a pair, in order of registration.
    pub open spec fn sinks(self, pair: PairId) -> Seq<SinkView> {
        match pair {
            PairId::A => self.a,
            PairId::B => self.b,
        }
    }

    /// The handles of a pair's sinks, in order of registration.
    pub open spec fn handles(self, pair: PairId) -> Seq<SinkHandle> {
        handles_of(self.sinks(pair))
    }

    /// The number of handles issued on a pair so far, for sinks that are
    /// registered and for sinks that were.
    pub open spec fn issued(self, pair: PairId) -> nat {
        match pair {
            PairId::A => self.issued_a,
            PairId::B => self.issued_b,
        }
    }

    /// Whether a pair has a handle left to issue.
    pub open spec fn can_issue(self, pair: PairId) -> bool {
        self.issued(pair) < TOKEN_LIMIT
    }

    /// The handle that the next sink registered on a pair gets: its token
    /// is the number of handles issued on the pair before.
    pub open spec fn next_handle(self, pair: PairId) -> SinkHandle {
        SinkHandle { pair, token: self.issued(pair) as u64 }
    }

    /// The fabric with the broadcast set of one pair replaced.
    pub open spec fn with_sinks(self, pair: PairId, sinks: Seq<SinkView>) -> FabricView {
        match pair {
            PairId::A => FabricView { a: sinks, ..self },
            PairId::B => FabricView { b: sinks, ..self },
        }
    }

    /// The fabric with the number of handles issued on one pair replaced.
    pub open spec fn with_issued(self, pair: PairId, issued: nat) -> FabricView {
        match pair {
            PairId::A => FabricView { issued_a: issued, ..self },
            PairId::B => FabricView { issued_b: issued, ..self },
        }
    }

    /// The fabric after one more sink is registered on a pair: the sink
    /// stands last in the pair's broadcast set, and one more handle is
    /// issued there.
    pub open spec fn registered(self, pair: PairId, sink: SinkView) -> FabricView {
        self.with_sinks(pair, self.sinks(pair).push(sink)).with_issued(pair, self.issued(pair) + 1)
    }

    /// The fabric after several sinks are registered on a pair, one after
    /// the other.
    pub open spec fn registered_all(self, pair: PairId, sinks: Seq<SinkView>) -> FabricView
        decreases sinks.len(),
    {
        if sinks.len() == 0 {
            self
        } else {
            self.registered_all(pair, sinks.drop_last()).registered(pair, sinks.last())
        }
    }

    /// The fabric after the sink with this handle is taken off a pair.
    /// The handles issued stay issued.
    pub open spec fn removed(self, pair: PairId, handle: SinkHandle) -> FabricView {
        self.with_sinks(pair, self.sinks(pair).filter(not_handle(handle)))
    }

    /// The fabric after one step. A registration gives the sink the next
    /// handle of its pair, and changes nothing if the pair has none left.
    pub open spec fn after(self, step: FabricStep) -> FabricView {
        match step {
            FabricStep::Register { pair, target } => if self.can_issue(pair) {
                self.registered(pair, SinkView { handle: self.next_handle(pair), target })
            } else {
                self
            },
            FabricStep::Remove { pair, handle } => self.removed(pair, handle),
        }
    }

    /// The fabric after several steps, one after the other.
    pub open spec fn after_all(self, steps: Seq<FabricStep>) -> FabricView
        decreases steps.len(),
    {
        if steps.len() == 0 {
            self
        } else {
            self.after_all(steps.drop_last()).after(steps.last())
        }
    }

    /// What goes out when `message` arrives on the input of `pair`: nothing
    /// if the message is not forwarded, else its bytes to every sink of the
    /// pair.
    pub open spec fn fan_out(self, pair: PairId, message: Seq<u8>) -> Option<BroadcastView> {
        match forwarded(message) {
            Some(payload) => Some(BroadcastView { payload, sinks: self.handles(pair) }),
            None => None,
        }
    }

    /// Every sink carries the name of the pair it is registered on and a
    /// token that was issued there, and no two sinks carry the same handle.
    pub open spec fn wf(self) -> bool {
        forall|pair: PairId|
            #![trigger self.sinks(pair)]
            #![trigger self.issued(pair)]
            {
                &&& self.issued(pair) <= TOKEN_LIMIT
                &&& forall|i: int|
                    0 <= i < self.sinks(pair).len() ==> (#[trigger] self.sinks(
                        pair,
                    )[i]).handle.pair == pair && self.sinks(pair)[i].handle.token < self.issued(
                        pair,
                    )
                &&& forall|i: int, j: int|
                    0 <= i < j < self.sinks(pair).len() ==> (#[trigger] self.sinks(
                        pair,
                    )[i]).handle != (#[trigger] self.sinks(pair)[j]).handle
            }
    }
}

/// The broadcast fabric: for each pair of virtual ports the sinks
/// registered on it. A message arriving on a pair's input goes to the sinks
/// of that pair and to no other.
#[derive(Debug)]
pub struct VirtualPorts {
    sinks_a: Vec<Sink>,
    sinks_b: Vec<Sink>,
    issued_a: u64,
    issued_b: u64,
}

impl View for VirtualPorts {
    type V = FabricView;

    closed spec fn view(&self) -> FabricView {
        FabricView {
            a: sink_views(self.sinks_a@),
            b: sink_views(self.sinks_b@),
            issued_a: self.issued_a as nat,
            issued_b: self.issued_b as nat,
        }
    }
}

impl VirtualPorts {
    /// What holds of every fabric: its broadcast sets are well formed.
    #[verifier::type_invariant]
    pub open spec fn well_formed(&self) -> bool {
        self@.wf()
    }
}

impl PairId {
    /// The pair whose virtual input is called `name`, if there is one.
    pub fn of_input(name: &str) -> (pair: Option<PairId>)
        ensures
            pair == pair_of_input(name@),
    {
        if str_equal(name, VIRTUAL_INPUT_A_NAME) {
            Some(PairId::A)
        } else if str_equal(name, VIRTUAL_INPUT_B_NAME) {
            Some(PairId::B)
        } else {
            None
        }
    }

    /// The name of the pair's virtual input.
    pub fn input_name(self) -> (name: &'static str)
        ensures
            pair_of_input(name@) == Some(self),
            is_virtual_input_name(name@),
    {
        proof {
            lemma_reserved_names_distinct();
        }
        match self {
            PairId::A => VIRTUAL_INPUT_A_NAME,
            PairId::B => VIRTUAL_INPUT_B_NAME,
        }
    }

    /// The name of the pair's virtual output.
    pub fn output_name(self) -> (name: &'static str)
        ensures
            target_for(name@) == SinkTargetView::VirtualOutput(self),
            is_virtual_output_name(name@),
    {
        proof {
            lemma_reserved_names_distinct();
        }
        match self {
            PairId::A => VIRTUAL_OUTPUT_A_NAME,
            PairId::B => VIRTUAL_OUTPUT_B_NAME,
        }
    }
}

impl SinkTarget {
    /// Picks the target for a sink to the named destination.
    pub fn for_output(output: &str) -> (target: SinkTarget)
        ensures
            target@ == target_for(output@),
    {
        if str_equal(output, VIRTUAL_OUTPUT_A_NAME) {
            SinkTarget::VirtualOutput(PairId::A)
        } else if str_equal(output, VIRTUAL_OUTPUT_B_NAME) {
            SinkTarget::VirtualOutput(PairId::B)
        } else {
            SinkTarget::Relay(String::from_str(output))
        }
    }
}

/// Appends a sink for `target` under `handle` and returns a copy of it.
fn register_sink(sinks: &mut Vec<Sink>, handle: SinkHandle, target: SinkTarget) -> (sink: Sink)
    ensures
        sink.target == target,
        sink.handle == handle,
        sink_views(final(sinks)@) == sink_views(old(sinks)@).push(sink@),
{
    let sink = Sink { handle, target };
    let copy = sink.clone();
    sinks.push(sink);
    assert(sink_views(sinks@) =~= sink_views(old(sinks)@).push(copy@));
    copy
}

/// Takes the sink with this handle off the list, if it is there.
fn remove_sink(sinks: &mut Vec<Sink>, handle: SinkHandle)
    requires
        forall|i: int, j: int|
            0 <= i < j < old(sinks)@.len() ==> (#[trigger] old(sinks)@[i]).handle != (
            #[trigger] old(sinks)@[j]).handle,
    ensures
        sink_views(final(sinks)@) == sink_views(old(sinks)@).filter(not_handle(handle)),
{
    let ghost views = sink_views(sinks@);
    let mut i: usize = 0;
    while i < sinks.len()
        invariant
            i <= sinks.len(),
            views == sink_views(sinks@),
            sink_views(old(sinks)@) == views,
            forall|a: int, b: int|
                0 <= a < b < sinks@.len() ==> (#[trigger] sinks@[a]).handle != (
                #[trigger] sinks@[b]).handle,
            forall|k: int| 0 <= k < i ==> (#[trigger] views[k]).handle != handle,
        decreases sinks.len() - i,
    {
        if sinks[i].handle == handle {
            proof {
                assert forall|k: int| 0 <= k < views.len() && k != i implies not_handle(handle)(
                    #[trigger] views[k],
                ) by {
                    if k > i {
                        assert(sinks@[i as int].handle != sinks@[k].handle);
                    }
                }
                lemma_filter_drops_one(views, not_handle(handle), i as int);
            }
            sinks.remove(i);
            assert(sink_views(sinks@) =~= views.remove(i as int));
            return ;
        }
        i += 1;
    }
    proof {
        lemma_filter_keeps_all(views, not_handle(handle));
    }
}

impl VirtualPorts {
    /// A fabric for two pairs, with no sink on either.
    pub fn create() -> (fabric: Self)
        ensures
            fabric@ == FabricView::empty(),
            fabric@.wf(),
    {
        let fabric = VirtualPorts {
            sinks_a: Vec::new(),
            sinks_b: Vec::new(),
            issued_a: 0,
            issued_b: 0,
        };
        assert(fabric@ =~= FabricView::empty()) by {
            assert(fabric@.a =~= Seq::empty());
            assert(fabric@.b =~= Seq::empty());
        }
        fabric
    }

    /// Registers a sink for `output_name` on the pair whose virtual input is
    /// `input_name`, at the end of that pair's broadcast set, and returns
    /// it. The sink gets the next handle of the pair, which no sink had
    /// before it. A destination that is a virtual output is reached
    /// directly; any other needs a relay worker, which the caller brings up.
    ///
    /// Fails with `PortNotFound` if `input_name` is not a virtual input, and
    /// with `VirtualPortsUnavailable` if the pair has issued every handle
    /// it has; either way nothing changes.
    pub fn add_virtual_input_output(&mut self, input_name: &str, output_name: &str) -> (added:
        Result<Sink, MidiError>)
        ensures
            final(self)@.wf(),
            match pair_of_input(input_name@) {
                Some(pair) => if old(self)@.can_issue(pair) {
                    added matches Ok(sink) && sink@.handle == old(self)@.next_handle(pair)
                        && sink@.target == target_for(output_name@) && final(self)@ == old(
                        self,
                    )@.registered(pair, sink@)
                } else {
                    added matches Err(error) && error@ == MidiErrorView::VirtualPortsUnavailable
                        && final(self)@ == old(self)@
                },
                None => added matches Err(error) && error@ == (MidiErrorView::PortNotFound {
                    name: input_name@,
                }) && final(self)@ == old(self)@,
            },
    {
        proof {
            use_type_invariant(&*self);
        }
        let ghost before = self@;
        let pair = match PairId::of_input(input_name) {
            Some(pair) => pair,
            None => {
                return Err(MidiError::PortNotFound { name: String::from_str(input_name) });
            },
        };
        let token = match pair {
            PairId::A => self.issued_a,
            PairId::B => self.issued_b,
        };
        if token == TOKEN_LIMIT {
            return Err(MidiError::VirtualPortsUnavailable);
        }
        let target = SinkTarget::for_output(output_name);
        let mut sinks: Vec<Sink> = Vec::new();
        proof {
            assert(sink_views(sinks@) =~= Seq::empty());
            lemma_emptied_keeps_wf(before, pair);
        }
        match pair {
            PairId::A => {
                std::mem::swap(&mut sinks, &mut self.sinks_a);
                self.issued_a = token + 1;
            },
            PairId::B => {
                std::mem::swap(&mut sinks, &mut self.sinks_b);
                self.issued_b = token + 1;
            },
        }
        let sink = register_sink(&mut sinks, SinkHandle { pair, token }, target);
        proof {
            lemma_registration_keeps_wf(before, pair, sink@);
            assert(before.registered(pair, sink@) == before.with_sinks(
                pair,
                sink_views(sinks@),
            ).with_issued(pair, before.issued(pair) + 1));
        }
        match pair {
            PairId::A => {
                self.sinks_a = sinks;
            },
            PairId::B => {
                self.sinks_b = sinks;
            },
        }
        Ok(sink)
    }

    /// Takes the sink with this handle off the pair whose virtual input is
    /// `input_name`. Nothing happens if the name is not a virtual input or
    /// the pair has no such sink.
    pub fn remove_virtual_input_output(&mut self, input_name: &str, handle: SinkHandle)
        ensures
            final(self)@.wf(),
            final(self)@ == match pair_of_input(input_name@) {
                Some(pair) => old(self)@.removed(pair, handle),
                None => old(self)@,
            },
    {
        proof {
            use_type_invariant(&*self);
        }
        let ghost before = self@;
        let pair = match PairId::of_input(input_name) {
            Some(pair) => pair,
            None => {
                return ;
            },
        };
        let mut sinks: Vec<Sink> = Vec::new();
        proof {
            assert(sink_views(sinks@) =~= Seq::empty());
            lemma_emptied_keeps_wf(before, pair);
        }
        match pair {
            PairId::A => std::mem::swap(&mut sinks, &mut self.sinks_a),
            PairId::B => std::mem::swap(&mut sinks, &mut self.sinks_b),
        }
        proof {
            assert(before.sinks(pair) == sink_views(sinks@));
            assert forall|i: int, j: int| 0 <= i < j < sinks@.len() implies (
            #[trigger] sinks@[i]).handle != (#[trigger] sinks@[j]).handle by {
                assert(before.sinks(pair)[i].handle != before.sinks(pair)[j].handle);
            }
        }
        remove_sink(&mut sinks, handle);
        proof {
            lemma_removal_keeps_wf(before, pair, handle);
            assert(before.removed(pair, handle) == before.with_sinks(pair, sink_views(sinks@)));
        }
        match pair {
            PairId::A => {
                self.sinks_a = sinks;
            },
            PairId::B => {
                self.sinks_b = sinks;
            },
        }
    }

    /// Decides what goes out for a message that arrived on the virtual input
    /// of `pair`: the bytes to send, and the sinks of that pair in the order
    /// in which they were registered. `None` when the message is dropped.
    pub fn fan_out(&self, pair: PairId, message: &[u8]) -> (out: Option<Broadcast>)
        ensures
            self@.wf(),
            match out {
                Some(sent) => self@.fan_out(pair, message@) == Some(sent@),
                None => self@.fan_out(pair, message@) is None,
            },
    {
        proof {
            use_type_invariant(self);
        }
        let payload = match handle_midi_message(message) {
            Some(payload) => payload,
            None => {
                return None;
            },
        };
        let registered = match pair {
            PairId::A => &self.sinks_a,
            PairId::B => &self.sinks_b,
        };
        let mut sinks: Vec<SinkHandle> = Vec::new();
        let mut i: usize = 0;
        while i < registered.len()
            invariant
                i <= registered.len(),
                sinks@ == handles_of(sink_views(registered@)).take(i as int),
            decreases registered.len() - i,
        {
            sinks.push(registered[i].handle);
            assert(handles_of(sink_views(registered@)).take(i + 1) =~= handles_of(
                sink_views(registered@),
            ).take(i as int).push(registered@[i as int].handle));
            i += 1;
        }
        assert(sinks@ =~= self@.handles(pair));
        Some(Broadcast { payload, sinks })
    }

    /// The sinks registered on a pair, in order of registration.
    pub fn sinks(&self, pair: PairId) -> (list: Vec<Sink>)
        ensures
            self@.wf(),
            sink_views(list@) == self@.sinks(pair),
    {
        proof {
            use_type_invariant(self);
        }
        let registered = match pair {
            PairId::A => &self.sinks_a,
            PairId::B => &self.sinks_b,
        };
        let mut list: Vec<Sink> = Vec::new();
        let mut i: usize = 0;
        while i < registered.len()
            invariant
                i <= registered.len(),
                list@ == registered@.take(i as int),
            decreases registered.len() - i,
        {
            list.push(registered[i].clone());
            assert(registered@.take(i + 1) =~= registered@.take(i as int).push(
                registered@[i as int],
            ));
            i += 1;
        }
        assert(list@ =~= registered@);
        list
    }
}

/// Registering a sink under the next handle of its pair leaves a
/// well-formed fabric well formed.
pub proof fn lemma_registration_keeps_wf(fabric: FabricView, pair: PairId, sink: SinkView)
    requires
        fabric.wf(),
        fabric.can_issue(pair),
        sink.handle == fabric.next_handle(pair),
    ensures
        fabric.registered(pair, sink).wf(),
{
    let after = fabric.registered(pair, sink);
    assert forall|other: PairId| #![trigger after.sinks(other)] {
        &&& after.issued(other) <= TOKEN_LIMIT
        &&& forall|i: int|
            0 <= i < after.sinks(other).len() ==> (#[trigger] after.sinks(other)[i]).handle.pair
                == other && after.sinks(other)[i].handle.token < after.issued(other)
        &&& forall|i: int, j: int|
            0 <= i < j < after.sinks(other).len() ==> (#[trigger] after.sinks(other)[i]).handle
                != (#[trigger] after.sinks(other)[j]).handle
    } by {
        let was = fabric.sinks(other);
        let now = after.sinks(other);
        assert forall|i: int| 0 <= i < now.len() implies (#[trigger] now[i]).handle.pair == other
            && now[i].handle.token < after.issued(other) by {
            if i < was.len() {
                assert(now[i] == was[i]);
            }
        }
        assert forall|i: int, j: int| 0 <= i < j < now.len() implies (#[trigger] now[i]).handle
            != (#[trigger] now[j]).handle by {
            assert(now[i] == was[i]);
            if j < was.len() {
                assert(now[j] == was[j]);
            }
        }
    }
}

/// A well-formed fabric with one pair's broadcast set emptied is well
/// formed, and stays so when one more handle counts as issued on that pair.
proof fn lemma_emptied_keeps_wf(fabric: FabricView, pair: PairId)
    requires
        fabric.wf(),
    ensures
        fabric.with_sinks(pair, Seq::empty()).wf(),
        fabric.can_issue(pair) ==> fabric.with_sinks(pair, Seq::empty()).with_issued(
            pair,
            fabric.issued(pair) + 1,
        ).wf(),
{
    let emptied = fabric.with_sinks(pair, Seq::empty());
    let counted = emptied.with_issued(pair, fabric.issued(pair) + 1);
    assert forall|other: PairId| other != pair implies emptied.sinks(other) == fabric.sinks(other)
        && counted.sinks(other) == fabric.sinks(other) by {}
}

/// Taking a sink off a well-formed fabric leaves it well formed.
pub proof fn lemma_removal_keeps_wf(fabric: FabricView, pair: PairId, handle: SinkHandle)
    requires
        fabric.wf(),
    ensures
        fabric.removed(pair, handle).wf(),
{
    let after = fabric.removed(pair, handle);
    assert forall|other: PairId| #![trigger after.sinks(other)] {
        &&& after.issued(other) <= TOKEN_LIMIT
        &&& forall|i: int|
            0 <= i < after.sinks(other).len() ==> (#[trigger] after.sinks(other)[i]).handle.pair
                == other && after.sinks(other)[i].handle.token < after.issued(other)
        &&& forall|i: int, j: int|
            0 <= i < j < after.sinks(other).len() ==> (#[trigger] after.sinks(other)[i]).handle
                != (#[trigger] after.sinks(other)[j]).handle
    } by {
        let was = fabric.sinks(other);
        let now = after.sinks(other);
        if other == pair {
            let key = |s: SinkView| s.handle;
            assert forall|i: int, j: int| 0 <= i < j < was.len() implies key(#[trigger] was[i])
                != key(#[trigger] was[j]) by {
                assert(was[i].handle != was[j].handle);
            }
            lemma_filter_keeps_distinct(was, not_handle(handle), key);
            assert forall|i: int| 0 <= i < now.len() implies (#[trigger] now[i]).handle.pair
                == other && now[i].handle.token < after.issued(other) by {
                assert(now.contains(now[i]));
                was.lemma_filter_contains_rev(not_handle(handle), now[i]);
                let k = choose|k: int| 0 <= k < was.len() && was[k] == now[i];
                assert(was[k].handle.pair == other);
            }
            assert forall|i: int, j: int| 0 <= i < j < now.len() implies (
            #[trigger] now[i]).handle != (#[trigger] now[j]).handle by {
                assert(key(now[i]) != key(now[j]));
            }
        }
    }
}

/// After any number of sinks are registered on a pair, a forwarded message
/// on that pair's input goes to every sink that was there before and to
/// every one of the new sinks, in the order of registration. The other pair
/// is as it was.
pub proof fn lemma_broadcast_reaches_all_registered(
    fabric: FabricView,
    pair: PairId,
    sinks: Seq<SinkView>,
    message: Seq<u8>,
)
    requires
        forwarded(message) is Some,
    ensures
        fabric.registered_all(pair, sinks).fan_out(pair, message) == Some(
            BroadcastView {
                payload: forwarded(message)->0,
                sinks: fabric.handles(pair) + handles_of(sinks),
            },
        ),
        forall|other: PairId|
            other != pair ==> fabric.registered_all(pair, sinks).sinks(other) == fabric.sinks(
                other,
            ),
    decreases sinks.len(),
{
    if sinks.len() == 0 {
        assert(fabric.handles(pair) + handles_of(sinks) =~= fabric.handles(pair));
    } else {
        let front = sinks.drop_last();
        lemma_broadcast_reaches_all_registered(fabric, pair, front, message);
        let before = fabric.registered_all(pair, front);
        let after = before.registered(pair, sinks.last());
        assert(before.handles(pair) == fabric.handles(pair) + handles_of(front));
        assert(after.handles(pair) =~= before.handles(pair).push(sinks.last().handle));
        assert(handles_of(sinks) =~= handles_of(front).push(sinks.last().handle));
        assert(after.handles(pair) =~= fabric.handles(pair) + handles_of(sinks));
    }
}

/// The handles of what a filter on sinks keeps are what the same filter on
/// handles keeps.
proof fn lemma_handles_of_filtered(sinks: Seq<SinkView>, handle: SinkHandle)
    ensures
        handles_of(sinks.filter(not_handle(handle))) == handles_of(sinks).filter(
            other_handle(handle),
        ),
    decreases sinks.len(),
{
    reveal(Seq::filter);
    if sinks.len() == 0 {
        assert(handles_of(sinks.filter(not_handle(handle))) =~= handles_of(sinks).filter(
            other_handle(handle),
        ));
    } else {
        let front = sinks.drop_last();
        lemma_handles_of_filtered(front, handle);
        assert(handles_of(sinks).drop_last() =~= handles_of(front));
        assert(handles_of(sinks).last() == sinks.last().handle);
        if sinks.last().handle != handle {
            assert(handles_of(front.filter(not_handle(handle)).push(sinks.last()))
                =~= handles_of(front.filter(not_handle(handle))).push(sinks.last().handle));
        }
    }
}

/// Taking one sink off a pair silences that sink and no other: the pair's
/// broadcast goes to the sinks it went to before, in the same order, but
/// for the one removed; and the other pair is as it was.
pub proof fn lemma_removal_silences_one(fabric: FabricView, pair: PairId, handle: SinkHandle)
    ensures
        fabric.removed(pair, handle).handles(pair) == fabric.handles(pair).filter(
            other_handle(handle),
        ),
        !fabric.removed(pair, handle).handles(pair).contains(handle),
        forall|other: SinkHandle|
            other != handle && fabric.handles(pair).contains(other) ==> fabric.removed(
                pair,
                handle,
            ).handles(pair).contains(other),
        forall|other: PairId|
            other != pair ==> fabric.removed(pair, handle).sinks(other) == fabric.sinks(other),
{
    let before = fabric.handles(pair);
    let after = fabric.removed(pair, handle).handles(pair);
    lemma_handles_of_filtered(fabric.sinks(pair), handle);
    assert(after == before.filter(other_handle(handle)));
    if after.contains(handle) {
        let i = choose|i: int| 0 <= i < after.len() && after[i] == handle;
        before.lemma_filter_pred(other_handle(handle), i);
    }
    assert forall|other: SinkHandle| other != handle && before.contains(other) implies after.contains(
        other,
    ) by {
        let i = choose|i: int| 0 <= i < before.len() && before[i] == other;
        before.lemma_filter_contains(other_handle(handle), i);
    }
}

/// The two pairs share no sink: what arrives on one pair's input reaches no
/// sink of the other.
pub proof fn lemma_pairs_isolated(fabric: FabricView, handle: SinkHandle)
    requires
        fabric.wf(),
    ensures
        !(fabric.handles(PairId::A).contains(handle) && fabric.handles(PairId::B).contains(
            handle,
        )),
{
    if fabric.handles(PairId::A).contains(handle) && fabric.handles(PairId::B).contains(handle) {
        let i = choose|i: int|
            0 <= i < fabric.handles(PairId::A).len() && fabric.handles(PairId::A)[i] == handle;
        let j = choose|j: int|
            0 <= j < fabric.handles(PairId::B).len() && fabric.handles(PairId::B)[j] == handle;
        assert(fabric.sinks(PairId::A)[i].handle.pair == PairId::A);
        assert(fabric.sinks(PairId::B)[j].handle.pair == PairId::B);
    }
}

/// A handle names one sink for good. Once a sink is registered, whatever
/// happens to the fabric from then on, and be the sink taken off or not,
/// the next handle that its pair issues is not the sink's: the token of
/// the sink lies below the number of handles issued on the pair, which
/// never falls and is the token of the next handle.
pub proof fn lemma_handles_are_never_issued_again(
    fabric: FabricView,
    steps: Seq<FabricStep>,
    pair: PairId,
    handle: SinkHandle,
)
    requires
        fabric.wf(),
        fabric.handles(pair).contains(handle),
    ensures
        fabric.after_all(steps).wf(),
        handle.token < fabric.issued(pair) <= fabric.after_all(steps).issued(pair),
        fabric.after_all(steps).next_handle(pair) != handle,
{
    lemma_steps_keep_wf(fabric, steps, pair);
    let end = fabric.after_all(steps);
    let i = choose|i: int| 0 <= i < fabric.handles(pair).len() && fabric.handles(pair)[i] == handle;
    assert(fabric.sinks(pair)[i].handle == handle);
}

/// Steps leave a well-formed fabric well formed, and the number of handles
/// issued on a pair never falls.
pub proof fn lemma_steps_keep_wf(fabric: FabricView, steps: Seq<FabricStep>, pair: PairId)
    requires
        fabric.wf(),
    ensures
        fabric.after_all(steps).wf(),
        fabric.after_all(steps).issued(pair) >= fabric.issued(pair),
    decreases steps.len(),
{
    if steps.len() > 0 {
        lemma_steps_keep_wf(fabric, steps.drop_last(), pair);
        let midway = fabric.after_all(steps.drop_last());
        match steps.last() {
            FabricStep::Register { pair: on, target } => {
                if midway.can_issue(on) {
                    lemma_registration_keeps_wf(
                        midway,
                        on,
                        SinkView { handle: midway.next_handle(on), target },
                    );
                }
            },
            FabricStep::Remove { pair: on, handle } => {
                lemma_removal_keeps_wf(midway, on, handle);
            },
        }
    }
}

} // verus!
