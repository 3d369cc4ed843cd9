//! The order in which ports are listed, and the building of a port list
//! from the names a driver reports.

use crate::connection::{port_views, PortId, PortIdView};
use crate::midi::virtual_ports::{
    is_reserved, is_reserved_name, is_virtual_input, is_virtual_input_name, is_virtual_output,
    is_virtual_output_name,
};
use crate::text::{lemma_text_before_strict_total, str_before, text_before};
use vstd::prelude::*;

verus! {

/// Listing order: virtual ports first, then by name.
pub open spec fn port_before(a: PortIdView, b: PortIdView) -> bool {
    if a.is_virtual != b.is_virtual {
        a.is_virtual
    } else {
        text_before(a.name, b.name)
    }
}

/// Whether a list is in listing order with no port twice.
pub open spec fn ports_sorted(ports: Seq<PortIdView>) -> bool {
    forall|i: int, j: int| 0 <= i < j < ports.len() ==> port_before(ports[i], ports[j])
}

/// The texts of a list of strings.
pub open spec fn text_views(names: Seq<String>) -> Seq<Seq<char>> {
    names.map_values(|s: String| s@)
}

/// Which names a pass over a driver's list keeps.
#[derive(Clone, Copy, Debug, PartialEq, Eq, Structural)]
pub enum NameFilter {
    /// Names that are not reserved: devices.
    Unreserved,
    /// Names of the virtual inputs.
    VirtualInput,
    /// Names of the virtual outputs.
    VirtualOutput,
}

impl NameFilter {
    /// Whether the filter keeps `name`.
    pub open spec fn admits(self, name: Seq<char>) -> bool {
        match self {
            NameFilter::Unreserved => !is_reserved_name(name),
            NameFilter::VirtualInput => is_virtual_input_name(name),
            NameFilter::VirtualOutput => is_virtual_output_name(name),
        }
    }

    /// Whether the ports this filter keeps are listed as virtual.
    pub open spec fn marks_virtual(self) -> bool {
        self != NameFilter::Unreserved
    }

    /// Whether a pass with this filter over `names` lists `port`.
    pub open spec fn lists(self, names: Seq<Seq<char>>, port: PortIdView) -> bool {
        port.is_virtual == self.marks_virtual() && self.admits(port.name) && names.contains(
            port.name,
        )
    }

    fn keeps(self, name: &str) -> (yes: bool)
        ensures
            yes == self.admits(name@),
    {
        match self {
            NameFilter::Unreserved => !is_reserved(name),
            NameFilter::VirtualInput => is_virtual_input(name),
            NameFilter::VirtualOutput => is_virtual_output(name),
        }
    }

    fn is_virtual(self) -> (yes: bool)
        ensures
            yes == self.marks_virtual(),
    {
        match self {
            NameFilter::Unreserved => false,
            _ => true,
        }
    }
}

/// Whether a port belongs in the list of inputs: a device the input side
/// reports under an unreserved name, or a virtual input, which the system
/// shows on the output side.
pub open spec fn listed_as_input(
    sources: Seq<Seq<char>>,
    destinations: Seq<Seq<char>>,
    port: PortIdView,
) -> bool {
    NameFilter::Unreserved.lists(sources, port) || NameFilter::VirtualInput.lists(
        destinations,
        port,
    )
}

/// Whether a port belongs in the list of outputs: a device the output side
/// reports under an unreserved name, or a virtual output, which the system
/// shows on the input side.
pub open spec fn listed_as_output(
    sources: Seq<Seq<char>>,
    destinations: Seq<Seq<char>>,
    port: PortIdView,
) -> bool {
    NameFilter::Unreserved.lists(destinations, port) || NameFilter::VirtualOutput.lists(
        sources,
        port,
    )
}

/// The list of inputs for what the driver reports: the ports that belong
/// in it, each once, in listing order.
pub open spec fn input_listing(sources: Seq<Seq<char>>, destinations: Seq<Seq<char>>) -> Seq<
    PortIdView,
> {
    choose|ports: Seq<PortIdView>|
        ports_sorted(ports) && forall|port: PortIdView| #[trigger]
            ports.contains(port) <==> listed_as_input(sources, destinations, port)
}

/// The list of outputs for what the driver reports: the ports that belong
/// in it, each once, in listing order.
pub open spec fn output_listing(sources: Seq<Seq<char>>, destinations: Seq<Seq<char>>) -> Seq<
    PortIdView,
> {
    choose|ports: Seq<PortIdView>|
        ports_sorted(ports) && forall|port: PortIdView| #[trigger]
            ports.contains(port) <==> listed_as_output(sources, destinations, port)
}

/// The listing order is a strict total order on ports.
pub proof fn lemma_port_before_strict_total(a: PortIdView, b: PortIdView, c: PortIdView)
    ensures
        !port_before(a, a),
        port_before(a, b) ==> !port_before(b, a),
        port_before(a, b) && port_before(b, c) ==> port_before(a, c),
        port_before(a, b) || port_before(b, a) || a == b,
{
    lemma_text_before_strict_total(a.name, b.name, c.name);
    lemma_text_before_strict_total(b.name, c.name, a.name);
}

/// In a sorted list every virtual port stands before every other port.
pub proof fn lemma_sorted_virtual_first(ports: Seq<PortIdView>, i: int, j: int)
    requires
        ports_sorted(ports),
        0 <= i < j < ports.len(),
        ports[j].is_virtual,
    ensures
        ports[i].is_virtual,
{
    assert(port_before(ports[i], ports[j]));
}

/// A sorted list holds no port twice.
pub proof fn lemma_sorted_no_duplicates(ports: Seq<PortIdView>, i: int, j: int)
    requires
        ports_sorted(ports),
        0 <= i < ports.len(),
        0 <= j < ports.len(),
        ports[i] == ports[j],
    ensures
        i == j,
{
    lemma_port_before_strict_total(ports[i], ports[j], ports[i]);
}

/// Two sorted lists with the same members are the same list.
pub proof fn lemma_sorted_lists_equal(a: Seq<PortIdView>, b: Seq<PortIdView>)
    requires
        ports_sorted(a),
        ports_sorted(b),
        forall|p: PortIdView| a.contains(p) <==> b.contains(p),
    ensures
        a == b,
    decreases a.len(),
{
    if a.len() == 0 {
        if b.len() > 0 {
            assert(b.contains(b[0]));
        }
        assert(a =~= b);
    } else if b.len() == 0 {
        assert(a.contains(a[0]));
    } else {
        assert(a.contains(a[0]));
        assert(b.contains(b[0]));
        let i = choose|i: int| 0 <= i < b.len() && b[i] == a[0];
        let j = choose|j: int| 0 <= j < a.len() && a[j] == b[0];
        lemma_port_before_strict_total(a[0], b[0], a[0]);
        assert(a[0] == b[0]);
        let ta = a.drop_first();
        let tb = b.drop_first();
        assert forall|p: PortIdView| ta.contains(p) <==> tb.contains(p) by {
            lemma_port_before_strict_total(a[0], p, a[0]);
            if ta.contains(p) {
                let k = choose|k: int| 0 <= k < ta.len() && ta[k] == p;
                assert(a[k + 1] == p);
                assert(a.contains(p));
                let m = choose|m: int| 0 <= m < b.len() && b[m] == p;
                assert(tb[m - 1] == p);
            }
            if tb.contains(p) {
                let k = choose|k: int| 0 <= k < tb.len() && tb[k] == p;
                assert(b[k + 1] == p);
                assert(b.contains(p));
                let m = choose|m: int| 0 <= m < a.len() && a[m] == p;
                assert(ta[m - 1] == p);
            }
        }
        lemma_sorted_lists_equal(ta, tb);
        assert(a =~= seq![a[0]] + ta);
        assert(b =~= seq![b[0]] + tb);
    }
}

/// A sorted list of the ports that belong among the inputs is the list of
/// inputs: there is no other.
pub proof fn lemma_input_listing(
    sources: Seq<Seq<char>>,
    destinations: Seq<Seq<char>>,
    ports: Seq<PortIdView>,
)
    requires
        ports_sorted(ports),
        forall|port: PortIdView| #[trigger]
            ports.contains(port) <==> listed_as_input(sources, destinations, port),
    ensures
        input_listing(sources, destinations) == ports,
{
    lemma_sorted_lists_equal(input_listing(sources, destinations), ports);
}

/// A sorted list of the ports that belong among the outputs is the list of
/// outputs: there is no other.
pub proof fn lemma_output_listing(
    sources: Seq<Seq<char>>,
    destinations: Seq<Seq<char>>,
    ports: Seq<PortIdView>,
)
    requires
        ports_sorted(ports),
        forall|port: PortIdView| #[trigger]
            ports.contains(port) <==> listed_as_output(sources, destinations, port),
    ensures
        output_listing(sources, destinations) == ports,
{
    lemma_sorted_lists_equal(output_listing(sources, destinations), ports);
}

/// No name is listed both as virtual and as a device, whether among the
/// inputs, among the outputs, or in one list each: a listed port is
/// virtual exactly when its name is reserved.
pub proof fn lemma_listed_in_one_form(
    sources: Seq<Seq<char>>,
    destinations: Seq<Seq<char>>,
    port: PortIdView,
)
    requires
        listed_as_input(sources, destinations, port) || listed_as_output(
            sources,
            destinations,
            port,
        ),
    ensures
        port.is_virtual == is_reserved_name(port.name),
        !listed_as_input(
            sources,
            destinations,
            PortIdView { name: port.name, is_virtual: !port.is_virtual },
        ),
        !listed_as_output(
            sources,
            destinations,
            PortIdView { name: port.name, is_virtual: !port.is_virtual },
        ),
{
}

/// In a sorted list of ports that are all listed as inputs, or all as
/// outputs, every name stands once, and so in one form only.
pub proof fn lemma_listing_names_once(
    sources: Seq<Seq<char>>,
    destinations: Seq<Seq<char>>,
    ports: Seq<PortIdView>,
    i: int,
    j: int,
)
    requires
        ports_sorted(ports),
        forall|port: PortIdView| #[trigger]
            ports.contains(port) ==> listed_as_input(sources, destinations, port)
                || listed_as_output(sources, destinations, port),
        0 <= i < ports.len(),
        0 <= j < ports.len(),
        ports[i].name == ports[j].name,
    ensures
        i == j,
{
    assert(ports.contains(ports[i]));
    assert(ports.contains(ports[j]));
    lemma_listed_in_one_form(sources, destinations, ports[i]);
    lemma_listed_in_one_form(sources, destinations, ports[j]);
    lemma_sorted_no_duplicates(ports, i, j);
}

/// Whether `a` is listed before `b`.
pub fn port_is_before(a: &PortId, b: &PortId) -> (before: bool)
    ensures
        before == port_before(a@, b@),
{
    if a.is_virtual != b.is_virtual {
        a.is_virtual
    } else {
        str_before(a.name.as_str(), b.name.as_str())
    }
}

/// Puts a port into a sorted list at its place, unless it is there already.
fn insert_port(list: &mut Vec<PortId>, port: PortId)
    requires
        ports_sorted(port_views(old(list)@)),
    ensures
        ports_sorted(port_views(final(list)@)),
        forall|p: PortIdView|
            port_views(final(list)@).contains(p) <==> (port_views(old(list)@).contains(p) || p
                == port@),
{
    let ghost before = port_views(list@);
    let mut i: usize = 0;
    while i < list.len() && port_is_before(&list[i], &port)
        invariant
            i <= list.len(),
            before == port_views(list@),
            forall|k: int| 0 <= k < i ==> port_before(#[trigger] before[k], port@),
        decreases list.len() - i,
    {
        i += 1;
    }
    if i < list.len() && list[i] == port {
        assert(before[i as int] == port@);
        assert forall|p: PortIdView| before.contains(p) || p == port@ implies before.contains(
            p,
        ) by {}
        return ;
    }
    proof {
        if i < list.len() {
            lemma_port_before_strict_total(before[i as int], port@, before[i as int]);
            assert(port_before(port@, before[i as int]));
        }
    }
    let ghost added = port@;
    list.insert(i, port);
    proof {
        let after = port_views(list@);
        assert(after =~= before.insert(i as int, added));
        assert forall|a: int, b: int| 0 <= a < b < after.len() implies port_before(
            after[a],
            after[b],
        ) by {
            if b < i {
                assert(after[a] == before[a] && after[b] == before[b]);
            } else if b == i {
                assert(after[a] == before[a]);
            } else if a == i {
                assert(after[b] == before[b - 1]);
                lemma_port_before_strict_total(added, before[i as int], before[b - 1]);
            } else if a < i {
                assert(after[a] == before[a] && after[b] == before[b - 1]);
                lemma_port_before_strict_total(before[a], added, before[i as int]);
                lemma_port_before_strict_total(before[a], before[i as int], before[b - 1]);
            } else {
                assert(after[a] == before[a - 1] && after[b] == before[b - 1]);
            }
        }
        assert forall|p: PortIdView| after.contains(p) <==> (before.contains(p) || p
            == added) by {
            if after.contains(p) {
                let k = choose|k: int| 0 <= k < after.len() && after[k] == p;
                if k < i {
                    assert(before[k] == p);
                } else if k > i {
                    assert(before[k - 1] == p);
                }
            }
            if before.contains(p) {
                let k = choose|k: int| 0 <= k < before.len() && before[k] == p;
                if k < i {
                    assert(after[k] == p);
                } else {
                    assert(after[k + 1] == p);
                }
            }
            if p == added {
                assert(after[i as int] == p);
            }
        }
    }
}

/// Adds to a sorted list a port for each name that `filter` keeps.
pub(crate) fn add_ports(list: &mut Vec<PortId>, names: &Vec<String>, filter: NameFilter)
    requires
        ports_sorted(port_views(old(list)@)),
    ensures
        ports_sorted(port_views(final(list)@)),
        forall|p: PortIdView|
            port_views(final(list)@).contains(p) <==> (port_views(old(list)@).contains(p)
                || filter.lists(text_views(names@), p)),
{
    let ghost before = port_views(list@);
    let ghost texts = text_views(names@);
    let is_virtual = filter.is_virtual();
    let mut i: usize = 0;
    while i < names.len()
        invariant
            i <= names.len(),
            texts == text_views(names@),
            is_virtual == filter.marks_virtual(),
            ports_sorted(port_views(list@)),
            forall|p: PortIdView|
                #![trigger port_views(list@).contains(p)]
                port_views(list@).contains(p) <==> (before.contains(p) || filter.lists(
                    texts.take(i as int),
                    p,
                )),
        decreases names.len() - i,
    {
        let ghost seen = texts.take(i as int);
        let ghost held = port_views(list@);
        let name = &names[i];
        let ghost added = PortIdView { name: name@, is_virtual };
        assert(name@ == texts[i as int]);
        if filter.keeps(name.as_str()) {
            insert_port(list, PortId::new(name.clone(), is_virtual));
        }
        i += 1;
        proof {
            let next = texts.take(i as int);
            assert(next =~= seen.push(name@));
            assert forall|t: Seq<char>| next.contains(t) <==> (seen.contains(t) || t
                == name@) by {
                if seen.contains(t) {
                    let k = choose|k: int| 0 <= k < seen.len() && seen[k] == t;
                    assert(next[k] == t);
                }
                if t == name@ {
                    assert(next[i - 1] == t);
                }
            }
            assert forall|p: PortIdView|
                #![trigger port_views(list@).contains(p)]
                port_views(list@).contains(p) <==> (before.contains(p) || filter.lists(
                    next,
                    p,
                )) by {
                if p.name == name@ && p.is_virtual == is_virtual {
                    assert(p == added);
                }
                assert(held.contains(p) <==> (before.contains(p) || filter.lists(seen, p)));
            }
        }
    }
    assert(texts.take(names.len() as int) =~= texts);
}

} // verus!
