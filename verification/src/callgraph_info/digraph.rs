//! The directed multigraph that holds the calls, kept in a `petgraph::Graph`.
//!
//! Nodes carry no data and are known by their index, which is the order in
//! which they were added. An edge carries the label of the call and the place
//! that the label names. Everything here is believed of `petgraph`, not proved.

use vstd::prelude::*;
use petgraph::graph::{Graph, NodeIndex};
use petgraph::visit::EdgeRef;
use petgraph::{Directed, Direction};
use crate::callgraph_info::model::{incoming, outgoing, CallView};
use crate::location::{Location, LocationView};

verus! {

/// `petgraph::graph::Graph`, made known as a type of which nothing is seen.
#[verifier::external_type_specification]
#[verifier::external_body]
#[verifier::reject_recursive_types(N)]
#[verifier::reject_recursive_types(E)]
#[verifier::reject_recursive_types(Ty)]
#[verifier::reject_recursive_types(Ix)]
pub struct ExGraph<N, E, Ty, Ix>(Graph<N, E, Ty, Ix>);

/// `petgraph::Directed`, the marker of graphs whose edges have a direction.
#[verifier::external_type_specification]
#[verifier::external_body]
pub struct ExDirected(Directed);

/// How many nodes the graph has.
pub uninterp spec fn graph_order(g: Graph<(), (String, Option<Location>), Directed, usize>) -> nat;

/// The edges of the graph in the order in which they were added: the index of
/// the source as `caller`, the index of the target as `callee`, the two parts
/// of the weight as `label` and `site`.
///
/// What the wrappers below say of this order holds of a graph that has only
/// grown. `Graph::remove_edge` and `Graph::remove_node` move edges about; no
/// wrapper calls them, and the graph is held in a private field, so no graph
/// of this library has lost anything.
pub uninterp spec fn graph_edges(g: Graph<(), (String, Option<Location>), Directed, usize>) -> Seq<CallView>;

/// The view of an optional location.
pub open spec fn site_view(site: Option<Location>) -> Option<LocationView> {
    match site {
        Some(location) => Some(location@),
        None => None,
    }
}

/// The edge from `edge.0` to `edge.1` with the weight `(edge.2, edge.3)`.
pub open spec fn edge_view(edge: (usize, usize, String, Option<Location>)) -> CallView {
    CallView {
        caller: edge.0 as nat,
        callee: edge.1 as nat,
        label: edge.2@,
        site: site_view(edge.3),
    }
}

/// The views of a run of edges as `graph_edges_directed` hands them out.
pub open spec fn edges_view(edges: Seq<(usize, usize, String, Option<Location>)>) -> Seq<
    CallView,
> {
    Seq::new(edges.len(), |i: int| edge_view(edges[i]))
}

/// `Graph::with_capacity(0, 0)`: a graph without nodes and without edges.
#[verifier::external_body]
pub(crate) fn graph_new() -> (g: Graph<(), (String, Option<Location>), Directed, usize>)
    ensures
        graph_order(g) == 0,
        graph_edges(g).len() == 0,
{
    Graph::with_capacity(0, 0)
}

/// `Graph::add_node`: appends a node and returns its index, which is the number
/// of nodes there were. With `usize` indices the call has no limit to run into.
/// The edges stay as they are.
#[verifier::external_body]
pub(crate) fn graph_add_node(g: &mut Graph<(), (String, Option<Location>), Directed, usize>) -> (index: usize)
    ensures
        index == graph_order(*old(g)),
        graph_order(*final(g)) == graph_order(*old(g)) + 1,
        graph_edges(*final(g)) == graph_edges(*old(g)),
{
    g.add_node(()).index()
}

/// `Graph::add_edge`: appends an edge from `source` to `target` with the weight
/// `(label, site)`, beside any edge already between the two. It panics when an
/// end is no node of the graph, hence the `requires`.
#[verifier::external_body]
pub(crate) fn graph_add_edge(
    g: &mut Graph<(), (String, Option<Location>), Directed, usize>,
    source: usize,
    target: usize,
    label: String,
    site: Option<Location>,
)
    requires
        source < graph_order(*old(g)),
        target < graph_order(*old(g)),
    ensures
        graph_order(*final(g)) == graph_order(*old(g)),
        graph_edges(*final(g)) == graph_edges(*old(g)).push(
            edge_view((source, target, label, site)),
        ),
{
    g.add_edge(NodeIndex::new(source), NodeIndex::new(target), (label, site));
}

/// `Graph::edge_count`: the number of edges.
#[verifier::external_body]
pub(crate) fn graph_edge_count(g: &Graph<(), (String, Option<Location>), Directed, usize>) -> (count: usize)
    ensures
        count == graph_edges(*g).len(),
{
    g.edge_count()
}

/// `Graph::edges`: the edges that leave `node`, each copied out as source,
/// target, label and site. The graph chains the edges of a node from the newest
/// to the oldest, so they come out in the reverse of the order in which they
/// were added. A `node` that the graph does not have yields nothing.
#[verifier::external_body]
pub(crate) fn graph_edges_leaving(
    g: &Graph<(), (String, Option<Location>), Directed, usize>,
    node: usize,
) -> (out: Vec<(usize, usize, String, Option<Location>)>)
    ensures
        edges_view(out@) == if node >= graph_order(*g) {
            Seq::empty()
        } else {
            outgoing(graph_edges(*g), node as nat).reverse()
        },
{
    g.edges(NodeIndex::new(node)).map(
        |e| (e.source().index(), e.target().index(), e.weight().0.clone(), e.weight().1.clone()),
    ).collect()
}

/// `Graph::edges_directed` with `Direction::Incoming`: the edges that enter
/// `node`, copied out and ordered as those of `graph_edges_leaving` are. A
/// `node` that the graph does not have yields nothing.
#[verifier::external_body]
pub(crate) fn graph_edges_entering(
    g: &Graph<(), (String, Option<Location>), Directed, usize>,
    node: usize,
) -> (out: Vec<(usize, usize, String, Option<Location>)>)
    ensures
        edges_view(out@) == if node >= graph_order(*g) {
            Seq::empty()
        } else {
            incoming(graph_edges(*g), node as nat).reverse()
        },
{
    g.edges_directed(NodeIndex::new(node), Direction::Incoming).map(
        |e| (e.source().index(), e.target().index(), e.weight().0.clone(), e.weight().1.clone()),
    ).collect()
}

} // verus!
