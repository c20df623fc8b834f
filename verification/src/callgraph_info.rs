//! The call graph and the dump format it is read from.

pub mod ast;
pub mod ci;
pub mod digraph;
pub mod ingest;
pub mod model;
pub mod registry;
pub mod symbol;

use vstd::prelude::*;
use vstd::string::StringExecFns;
use std::collections::hash_map::RandomState;
use bimap::BiHashMap;
use petgraph::graph::Graph;
use petgraph::Directed;
use crate::callgraph_info::digraph::{
    edges_view, graph_add_edge, graph_add_node, graph_edge_count, graph_edges,
    graph_edges_entering, graph_edges_leaving, graph_new, graph_order, site_view,
};
use crate::callgraph_info::model::{
    first_defined_at, lemma_index_of_unique, lemma_no_calls_beyond, CallFault, CallGraphView,
    CallView, LookupFault,
};
use crate::callgraph_info::registry::{
    bimap_get_by_left, bimap_get_by_right, bimap_insert, bimap_new, bimap_pairs,
};
use crate::location::{named_location, parse_location, Location, LocationError};

verus! {

/// Which end of a call has no function registered under its name.
#[derive(Debug, PartialEq, Eq)]
pub enum LookupError {
    NoSuchSource(String),
    NoSuchTarget(String),
}

impl View for LookupError {
    type V = LookupFault;

    open spec fn view(&self) -> LookupFault {
        match self {
            LookupError::NoSuchSource(name) => LookupFault::NoSuchSource(name@),
            LookupError::NoSuchTarget(name) => LookupFault::NoSuchTarget(name@),
        }
    }
}

impl LookupError {
    /// The error in words, with the missing name in quotes.
    pub fn message(&self) -> (out: String)
        ensures
            out@ == match self@ {
                LookupFault::NoSuchSource(name) => "No such source found: '"@ + name + "'"@,
                LookupFault::NoSuchTarget(name) => "No such target found: '"@ + name + "'"@,
            },
    {
        let (mut out, name) = match self {
            LookupError::NoSuchSource(name) => (String::from_str("No such source found: '"), name),
            LookupError::NoSuchTarget(name) => (String::from_str("No such target found: '"), name),
        };
        out.append(name.as_str());
        out.append("'");
        out
    }
}

/// Why a call was not added.
#[derive(Debug, PartialEq, Eq)]
pub enum CallError {
    /// An end of the call is not registered.
    Lookup(LookupError),
    /// The text for the place of the call starts like a location and is none.
    Location(LocationError),
}

impl View for CallError {
    type V = CallFault;

    open spec fn view(&self) -> CallFault {
        match self {
            CallError::Lookup(e) => CallFault::Lookup(e@),
            CallError::Location(e) => CallFault::Location(*e),
        }
    }
}

/// One call as the graph hands it out.
#[derive(Debug, PartialEq, Eq)]
pub struct CallEdge {
    pub caller: u64,
    pub callee: u64,
    pub label: String,
    pub site: Option<Location>,
}

impl View for CallEdge {
    type V = CallView;

    open spec fn view(&self) -> CallView {
        CallView {
            caller: self.caller as nat,
            callee: self.callee as nat,
            label: self.label@,
            site: site_view(self.site),
        }
    }
}

/// The views of a run of calls.
pub open spec fn calls_view(calls: Seq<CallEdge>) -> Seq<CallView> {
    Seq::new(calls.len(), |i: int| calls[i]@)
}

/// Functions, where they are defined, and the calls between them.
pub struct CallGraph {
    graph: Graph<(), (String, Option<Location>), Directed, usize>,
    functions: BiHashMap<u64, String, RandomState, RandomState>,
    locations: Vec<Option<Location>>,
}

impl View for CallGraph {
    type V = CallGraphView;

    closed spec fn view(&self) -> CallGraphView {
        CallGraphView {
            names: Seq::new(
                self.locations.len() as nat,
                |i: int| bimap_pairs(self.functions)[i as u64],
            ),
            sites: Seq::new(self.locations.len() as nat, |i: int| site_view(self.locations[i])),
            calls: graph_edges(self.graph),
        }
    }
}

impl CallGraph {
    /// The three stores agree: the ids are the positions of `locations`, the
    /// table pairs exactly them with names, and the graph has a node for each.
    pub closed spec fn consistent(&self) -> bool {
        &&& graph_order(self.graph) == self.locations.len()
        &&& forall|k: u64| bimap_pairs(self.functions).contains_key(k) <==> k < self.locations.len()
    }

    /// What every operation needs of the graph and keeps.
    pub open spec fn wf(&self) -> bool {
        self.consistent() && self@.well_formed()
    }

    /// A graph without functions.
    pub fn new() -> (out: CallGraph)
        ensures
            out.wf(),
            out@ == CallGraphView::empty(),
    {
        let out = CallGraph { graph: graph_new(), functions: bimap_new(), locations: Vec::new() };
        assert(out@.names =~= Seq::empty());
        assert(out@.sites =~= Seq::empty());
        assert(out@.calls =~= Seq::empty());
        out
    }

    /// How many functions are registered.
    pub fn node_count(&self) -> (out: usize)
        requires
            self.wf(),
        ensures
            out == self@.names.len(),
    {
        self.locations.len()
    }

    /// How many calls the graph holds.
    pub fn edge_count(&self) -> (out: usize)
        requires
            self.wf(),
        ensures
            out == self@.calls.len(),
    {
        graph_edge_count(&self.graph)
    }

    /// The id under which `name` is registered.
    pub fn get_id(&self, name: &str) -> (out: Option<u64>)
        requires
            self.wf(),
        ensures
            match out {
                Some(id) => self@.knows(name@) && id == self@.id_of(name@),
                None => !self@.knows(name@),
            },
    {
        let out = bimap_get_by_right(&self.functions, name);
        proof {
            match out {
                Some(id) => {
                    lemma_index_of_unique(self@.names, id as int);
                },
                None => {
                    if self@.knows(name@) {
                        let i = self@.names.index_of(name@);
                        assert(bimap_pairs(self.functions).contains_key(i as u64));
                    }
                },
            }
        }
        out
    }

    /// Registers `name` with the definition site `site`.
    fn register(&mut self, name: &str, site: Option<Location>)
        requires
            old(self).wf(),
        ensures
            final(self).wf(),
            final(self)@ == old(self)@.with_function(name@, site_view(site)),
    {
        match self.get_id(name) {
            Some(id) => {
                self.locations.set(id as usize, site);
                assert(self@.sites =~= old(self)@.sites.update(id as int, site_view(site)));
            },
            None => {
                let id = self.locations.len() as u64;
                assert forall|k: u64| k < id implies bimap_pairs(self.functions)[k] != name@ by {
                    assert(self@.names.contains(self@.names[k as int]));
                }
                bimap_insert(&mut self.functions, id, String::from_str(name));
                let _ = graph_add_node(&mut self.graph);
                self.locations.push(site);
                assert(self@.names =~= old(self)@.names.push(name@));
                assert(self@.sites =~= old(self)@.sites.push(site_view(site)));
            },
        }
    }

    /// Registers the function `name`, defined at the place that `location`
    /// names. A text that names no place registers the function without one.
    /// Registering a name again keeps its id and replaces its place. A text
    /// that starts like a location and is none is refused, and the graph stays
    /// as it is.
    pub fn add_function(&mut self, name: &str, location: &str) -> (out: Result<(), LocationError>)
        requires
            old(self).wf(),
        ensures
            final(self).wf(),
            match parse_location(location@) {
                Err(e) => out == Err::<(), LocationError>(e) && final(self)@ == old(self)@,
                Ok(_) => out is Ok && final(self)@ == old(self)@.with_function(
                    name@,
                    named_location(location@),
                ),
            },
    {
        let site = match Location::parse(location) {
            Err(e) => { return Err(e); },
            Ok(None) => None,
            Ok(Some((place, _))) => Some(place),
        };
        self.register(name, site);
        Ok(())
    }

    /// Adds a call from `from` to `to` with the label `location`, made at the
    /// place that the label names, beside any call already between the two.
    /// Both functions must be registered: the error names the one that is not,
    /// the source first. A label that names no place adds a call without one.
    /// On any error the graph stays as it is.
    pub fn add_call(&mut self, from: &str, to: &str, location: &str) -> (out: Result<
        (),
        CallError,
    >)
        requires
            old(self).wf(),
        ensures
            final(self).wf(),
            match old(self)@.refusal(from@, to@, location@) {
                Some(fault) => out matches Err(e) && e@ == fault && final(self)@ == old(self)@,
                None => out is Ok && final(self)@ == old(self)@.with_call(from@, to@, location@),
            },
    {
        let source = match self.get_id(from) {
            Some(id) => id,
            None => {
                return Err(CallError::Lookup(LookupError::NoSuchSource(String::from_str(from))));
            },
        };
        let target = match self.get_id(to) {
            Some(id) => id,
            None => {
                return Err(CallError::Lookup(LookupError::NoSuchTarget(String::from_str(to))));
            },
        };
        let site = match Location::parse(location) {
            Err(e) => { return Err(CallError::Location(e)); },
            Ok(None) => None,
            Ok(Some((place, _))) => Some(place),
        };
        graph_add_edge(
            &mut self.graph,
            source as usize,
            target as usize,
            String::from_str(location),
            site,
        );
        Ok(())
    }

    /// Where the function `function` is defined: `None` for a function without
    /// a known place and for a name that is not registered.
    pub fn get_location(&self, function: &str) -> (out: Option<&Location>)
        requires
            self.wf(),
        ensures
            match out {
                Some(place) => self@.location_of(function@) == Some(place@),
                None => self@.location_of(function@) is None,
            },
    {
        match self.get_id(function) {
            None => None,
            Some(id) => self.locations[id as usize].as_ref(),
        }
    }

    /// The name of the function defined at `loc`. Where several functions are
    /// defined there, the one that was registered first.
    pub fn get_name(&self, loc: Location) -> (out: Option<&String>)
        requires
            self.wf(),
        ensures
            match out {
                Some(name) => self@.name_at(loc@) == Some(name@),
                None => self@.name_at(loc@) is None,
            },
    {
        let n = self.locations.len();
        let mut i: usize = 0;
        while i < n
            invariant
                self.wf(),
                n == self.locations.len(),
                i <= n,
                first_defined_at(self@.sites, loc@, 0) == first_defined_at(
                    self@.sites,
                    loc@,
                    i as int,
                ),
            decreases n - i,
        {
            let found = match &self.locations[i] {
                Some(place) => *place == loc,
                None => false,
            };
            if found {
                return self.get_function(i as u64);
            }
            i += 1;
        }
        None
    }

    /// The calls that the function `node_idx` makes, in the order in which they
    /// were added. None for an id that the graph has not given out.
    pub fn get_calls(&self, node_idx: u64) -> (out: Vec<CallEdge>)
        requires
            self.wf(),
        ensures
            calls_view(out@) == self@.calls_from(node_idx as nat),
    {
        if node_idx >= self.locations.len() as u64 {
            proof {
                lemma_no_calls_beyond(self@, node_idx as nat);
            }
            let out: Vec<CallEdge> = Vec::new();
            return out;
        }
        oldest_first(graph_edges_leaving(&self.graph, node_idx as usize))
    }

    /// The calls made to the function `node_idx`, in the order in which they
    /// were added. None for an id that the graph has not given out.
    pub fn get_callers(&self, node_idx: u64) -> (out: Vec<CallEdge>)
        requires
            self.wf(),
        ensures
            calls_view(out@) == self@.calls_to(node_idx as nat),
    {
        if node_idx >= self.locations.len() as u64 {
            proof {
                lemma_no_calls_beyond(self@, node_idx as nat);
            }
            let out: Vec<CallEdge> = Vec::new();
            return out;
        }
        oldest_first(graph_edges_entering(&self.graph, node_idx as usize))
    }

    /// The name of the function with the id `id`.
    pub fn get_function(&self, id: u64) -> (out: Option<&String>)
        requires
            self.wf(),
        ensures
            match out {
                Some(name) => id < self@.names.len() && name@ == self@.names[id as int],
                None => id >= self@.names.len(),
            },
    {
        bimap_get_by_left(&self.functions, id)
    }
}

/// Turns the edges of one node, which the graph yields newest first, into calls
/// in the order in which they were added.
fn oldest_first(edges: Vec<(usize, usize, String, Option<Location>)>) -> (out: Vec<CallEdge>)
    ensures
        calls_view(out@) == edges_view(edges@).reverse(),
{
    let ghost given = edges_view(edges@);
    let mut edges = edges;
    let mut out: Vec<CallEdge> = Vec::new();
    while edges.len() > 0
        invariant
            edges.len() <= given.len(),
            edges_view(edges@) == given.take(edges.len() as int),
            out.len() == given.len() - edges.len(),
            forall|i: int| 0 <= i < out.len() ==> (#[trigger] out[i])@ == given[given.len() - 1 - i],
        decreases edges.len(),
    {
        let ghost before = edges_view(edges@);
        let (source, target, label, site) = edges.pop().unwrap();
        assert(before[edges.len() as int] == given[edges.len() as int]);
        out.push(CallEdge { caller: source as u64, callee: target as u64, label, site });
    }
    out
}

} // verus!
