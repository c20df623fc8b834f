//! What a call graph is, apart from how it is stored.
//!
//! A function's id is its position in the order of first registration, so no two
//! names share an id and an id never changes.

use vstd::prelude::*;
use crate::location::{named_location, parse_location, LocationError, LocationView};

verus! {

/// One call: who calls whom, the label it was added with, and the place that
/// the label names. A call without a `site` has no place in the source (the
/// compiler made it up).
pub struct CallView {
    pub caller: nat,
    pub callee: nat,
    pub label: Seq<char>,
    pub site: Option<LocationView>,
}

/// The functions and calls of a graph.
pub struct CallGraphView {
    /// The name of each function, by id.
    pub names: Seq<Seq<char>>,
    /// Where each function is defined, by id, as far as known.
    pub sites: Seq<Option<LocationView>>,
    /// The calls in the order in which they were added.
    pub calls: Seq<CallView>,
}

/// Which end of a call has no function registered under its name.
pub enum LookupFault {
    NoSuchSource(Seq<char>),
    NoSuchTarget(Seq<char>),
}

/// Why a call is refused.
pub enum CallFault {
    /// An end of the call is not registered.
    Lookup(LookupFault),
    /// The label starts like a location and is none.
    Location(LocationError),
}

/// The calls among `calls` that `id` makes, in the same order.
pub open spec fn outgoing(calls: Seq<CallView>, id: nat) -> Seq<CallView> {
    calls.filter(|c: CallView| c.caller == id)
}

/// The calls among `calls` that are made to `id`, in the same order.
pub open spec fn incoming(calls: Seq<CallView>, id: nat) -> Seq<CallView> {
    calls.filter(|c: CallView| c.callee == id)
}

/// The first position at or after `from` of a function defined at `site`;
/// `sites.len()` when there is none.
pub open spec fn first_defined_at(
    sites: Seq<Option<LocationView>>,
    site: LocationView,
    from: int,
) -> int
    decreases sites.len() - from,
{
    if from < 0 || from >= sites.len() {
        sites.len() as int
    } else if sites[from] == Some(site) {
        from
    } else {
        first_defined_at(sites, site, from + 1)
    }
}

impl CallGraphView {
    /// The graph without functions and without calls.
    pub open spec fn empty() -> CallGraphView {
        CallGraphView { names: Seq::empty(), sites: Seq::empty(), calls: Seq::empty() }
    }

    /// Every function has one name and one entry for its site, no name occurs
    /// twice, every call joins two functions of the graph, and the site of a
    /// call is the place that its label names.
    pub open spec fn well_formed(self) -> bool {
        &&& self.names.len() == self.sites.len()
        &&& self.names.no_duplicates()
        &&& forall|i: int|
            0 <= i < self.calls.len() ==> {
                &&& (#[trigger] self.calls[i]).caller < self.names.len()
                &&& self.calls[i].callee < self.names.len()
                &&& parse_location(self.calls[i].label) is Ok
                &&& self.calls[i].site == named_location(self.calls[i].label)
            }
    }

    /// That a function is registered under `name`.
    pub open spec fn knows(self, name: Seq<char>) -> bool {
        self.names.contains(name)
    }

    /// The id of a function that the graph knows.
    pub open spec fn id_of(self, name: Seq<char>) -> nat {
        self.names.index_of(name) as nat
    }

    /// The graph after `name` is registered with the definition site `site`: a
    /// new function gets the next id; a known one keeps its id and takes the new
    /// site in place of the old.
    pub open spec fn with_function(
        self,
        name: Seq<char>,
        site: Option<LocationView>,
    ) -> CallGraphView {
        if self.knows(name) {
            CallGraphView { sites: self.sites.update(self.id_of(name) as int, site), ..self }
        } else {
            CallGraphView { names: self.names.push(name), sites: self.sites.push(site), ..self }
        }
    }

    /// Which end of a call from `from` to `to` is missing, the source first.
    pub open spec fn missing_end(self, from: Seq<char>, to: Seq<char>) -> Option<LookupFault> {
        if !self.knows(from) {
            Some(LookupFault::NoSuchSource(from))
        } else if !self.knows(to) {
            Some(LookupFault::NoSuchTarget(to))
        } else {
            None
        }
    }

    /// Why a call from `from` to `to` with the label `label` is refused, if it
    /// is: for a missing end first, then for a label that starts like a
    /// location and is none.
    pub open spec fn refusal(
        self,
        from: Seq<char>,
        to: Seq<char>,
        label: Seq<char>,
    ) -> Option<CallFault> {
        match self.missing_end(from, to) {
            Some(fault) => Some(CallFault::Lookup(fault)),
            None => match parse_location(label) {
                Err(e) => Some(CallFault::Location(e)),
                Ok(_) => None,
            },
        }
    }

    /// The call from `from` to `to` with the label `label`.
    pub open spec fn call(self, from: Seq<char>, to: Seq<char>, label: Seq<char>) -> CallView {
        CallView {
            caller: self.id_of(from),
            callee: self.id_of(to),
            label,
            site: named_location(label),
        }
    }

    /// The graph after a call from `from` to `to` with the label `label` is
    /// added. Both must be known.
    pub open spec fn with_call(
        self,
        from: Seq<char>,
        to: Seq<char>,
        label: Seq<char>,
    ) -> CallGraphView {
        CallGraphView { calls: self.calls.push(self.call(from, to, label)), ..self }
    }

    /// The calls that `id` makes, in the order in which they were added.
    pub open spec fn calls_from(self, id: nat) -> Seq<CallView> {
        outgoing(self.calls, id)
    }

    /// The calls made to `id`, in the order in which they were added.
    pub open spec fn calls_to(self, id: nat) -> Seq<CallView> {
        incoming(self.calls, id)
    }

    /// Where `name` is defined: `None` both for a function without a known site
    /// and for a name that is not registered.
    pub open spec fn location_of(self, name: Seq<char>) -> Option<LocationView> {
        if self.knows(name) {
            self.sites[self.id_of(name) as int]
        } else {
            None
        }
    }

    /// The function defined at `site`. Where several are, the one that was
    /// registered first.
    pub open spec fn name_at(self, site: LocationView) -> Option<Seq<char>> {
        let id = first_defined_at(self.sites, site, 0);
        if id < self.sites.len() {
            Some(self.names[id])
        } else {
            None
        }
    }
}

/// Filtering keeps nothing where nothing passes.
pub proof fn lemma_filter_nothing(calls: Seq<CallView>, pred: spec_fn(CallView) -> bool)
    requires
        forall|i: int| 0 <= i < calls.len() ==> !pred(#[trigger] calls[i]),
    ensures
        calls.filter(pred).len() == 0,
    decreases calls.len(),
{
    reveal(Seq::filter);
    if calls.len() > 0 {
        lemma_filter_nothing(calls.drop_last(), pred);
    }
}

/// An id that the graph has not given out neither calls nor is called.
pub proof fn lemma_no_calls_beyond(g: CallGraphView, id: nat)
    requires
        g.well_formed(),
        id >= g.names.len(),
    ensures
        g.calls_from(id) == Seq::<CallView>::empty(),
        g.calls_to(id) == Seq::<CallView>::empty(),
{
    lemma_filter_nothing(g.calls, |c: CallView| c.caller == id);
    lemma_filter_nothing(g.calls, |c: CallView| c.callee == id);
}

/// In a sequence without duplicates an element is found where it stands.
pub proof fn lemma_index_of_unique(names: Seq<Seq<char>>, i: int)
    requires
        names.no_duplicates(),
        0 <= i < names.len(),
    ensures
        names.contains(names[i]),
        names.index_of(names[i]) == i,
{
}

/// Registering a function keeps a graph well formed, makes the name known and
/// leaves every other name with its id.
pub proof fn lemma_with_function(g: CallGraphView, name: Seq<char>, site: Option<LocationView>)
    requires
        g.well_formed(),
    ensures
        g.with_function(name, site).well_formed(),
        g.with_function(name, site).knows(name),
        g.with_function(name, site).location_of(name) == site,
        forall|other: Seq<char>|
            g.knows(other) ==> g.with_function(name, site).knows(other) && g.with_function(
                name,
                site,
            ).id_of(other) == g.id_of(other),
{
    let after = g.with_function(name, site);
    if !g.knows(name) {
        assert forall|other: Seq<char>| g.knows(other) implies after.knows(other) && after.id_of(
            other,
        ) == g.id_of(other) by {
            let i = g.names.index_of(other);
            lemma_index_of_unique(after.names, i);
        }
        lemma_index_of_unique(after.names, g.names.len() as int);
    }
}

/// A call needs both of its ends. While the source is not registered the call
/// is refused and the source named; while only the target is not, the target
/// is named. Once both have been registered, in either order and whatever else
/// the graph holds, a call whose label is no malformed location is accepted.
pub proof fn lemma_call_needs_both_ends(
    g: CallGraphView,
    from: Seq<char>,
    to: Seq<char>,
    label: Seq<char>,
    from_site: Option<LocationView>,
    to_site: Option<LocationView>,
)
    requires
        g.well_formed(),
    ensures
        !g.knows(from) ==> g.refusal(from, to, label) == Some(
            CallFault::Lookup(LookupFault::NoSuchSource(from)),
        ),
        g.knows(from) && !g.knows(to) ==> g.refusal(from, to, label) == Some(
            CallFault::Lookup(LookupFault::NoSuchTarget(to)),
        ),
        parse_location(label) is Ok ==> g.with_function(from, from_site).with_function(
            to,
            to_site,
        ).refusal(from, to, label) is None,
        parse_location(label) is Ok ==> g.with_function(to, to_site).with_function(
            from,
            from_site,
        ).refusal(from, to, label) is None,
{
    lemma_with_function(g, from, from_site);
    lemma_with_function(g.with_function(from, from_site), to, to_site);
    lemma_with_function(g, to, to_site);
    lemma_with_function(g.with_function(to, to_site), from, from_site);
}

/// Two calls between one pair of functions are two calls: the graph has two
/// more, and both come after the earlier calls of the caller and after the
/// earlier calls to the callee, in the order in which they were added.
pub proof fn lemma_parallel_calls_kept(
    g: CallGraphView,
    from: Seq<char>,
    to: Seq<char>,
    first_label: Seq<char>,
    second_label: Seq<char>,
)
    requires
        g.well_formed(),
        g.knows(from),
        g.knows(to),
        parse_location(first_label) is Ok,
        parse_location(second_label) is Ok,
    ensures
        ({
            let after = g.with_call(from, to, first_label).with_call(from, to, second_label);
            let first = g.call(from, to, first_label);
            let second = g.call(from, to, second_label);
            &&& after.well_formed()
            &&& after.calls.len() == g.calls.len() + 2
            &&& after.calls_from(g.id_of(from)) == g.calls_from(g.id_of(from)).push(first).push(
                second,
            )
            &&& after.calls_to(g.id_of(to)) == g.calls_to(g.id_of(to)).push(first).push(second)
        }),
{
    broadcast use Seq::lemma_filter_push;

    let middle = g.with_call(from, to, first_label);
    let after = middle.with_call(from, to, second_label);
}

} // verus!
