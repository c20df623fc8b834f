//! Reading a dump into the graph.
//!
//! A dump is one object of kind `graph`. Its children of kind `node` are
//! functions: `title` is the identifier, `label` the name as written and, after
//! a `\n` (a backslash and an `n`), the place of the definition. Its children
//! of kind `edge` are calls: `sourcename` and `targetname` are identifiers,
//! `label` the place of the call. All nodes are read before any edge, so that
//! an edge finds the functions of its own dump whatever the order in the text.

use vstd::prelude::*;
use vstd::string::StringExecFns;
use crate::callgraph_info::ast::{
    get_object_map, items_view, object_map, Item, ItemView, Object,
};
use crate::callgraph_info::ci::{parse_dump, Parser, SyntaxError, SyntaxFault};
use crate::callgraph_info::model::{lemma_with_function, CallFault, CallGraphView};
use crate::callgraph_info::symbol::{maybe_demangle, readable};
use crate::callgraph_info::{CallError, CallGraph};
use crate::location::{named_location, parse_location, LocationError};
use crate::text::{chars_of, string_of};

verus! {

/// A field that a node or an edge must have.
#[derive(Debug, Clone, Copy, PartialEq, Eq, Structural)]
pub enum RequiredField {
    Title,
    Label,
    SourceName,
    TargetName,
}

/// Why a dump was not read to its end.
#[derive(Debug, Clone, Copy, PartialEq, Eq, Structural)]
pub enum FileError {
    /// The text is not in the grammar.
    Syntax(SyntaxError),
    /// The object of the dump is not of kind `graph`.
    NotAGraph,
    /// A node or an edge lacks a field.
    MissingField(RequiredField),
    /// A label starts like a location and is none.
    Location(LocationError),
}

/// What a `FileError` stands for.
pub enum FileFault {
    Syntax(SyntaxFault),
    NotAGraph,
    MissingField(RequiredField),
    Location(LocationError),
}

impl View for FileError {
    type V = FileFault;

    open spec fn view(&self) -> FileFault {
        match self {
            FileError::Syntax(e) => FileFault::Syntax(e@),
            FileError::NotAGraph => FileFault::NotAGraph,
            FileError::MissingField(field) => FileFault::MissingField(*field),
            FileError::Location(e) => FileFault::Location(*e),
        }
    }
}

/// That a line break as the dump writes it, a backslash and an `n`, stands at `i`.
pub open spec fn break_at(s: Seq<char>, i: int) -> bool {
    0 <= i && i + 1 < s.len() && s[i] == '\\' && s[i + 1] == 'n'
}

/// The position of the first line break at or after `from`; `s.len()` when
/// there is none.
pub open spec fn find_break(s: Seq<char>, from: int) -> int
    decreases s.len() - from,
{
    if from < 0 || from >= s.len() {
        s.len() as int
    } else if break_at(s, from) {
        from
    } else {
        find_break(s, from + 1)
    }
}

/// The part of a label that names the place: its second line if it has more
/// than one line, the label itself if not.
pub open spec fn location_text(label: Seq<char>) -> Seq<char> {
    let first = find_break(label, 0);
    if first >= label.len() {
        label
    } else {
        label.subrange(first + 2, find_break(label, first + 2))
    }
}

/// The item lists of the objects of kind `kind` among `items`, in order.
pub open spec fn children_of_kind(items: Seq<ItemView>, kind: Seq<char>) -> Seq<Seq<ItemView>>
    decreases items.len(),
{
    if items.len() == 0 {
        Seq::empty()
    } else {
        let before = children_of_kind(items.drop_last(), kind);
        match items.last() {
            ItemView::Object(object) => if object.kind == kind {
                before.push(object.items)
            } else {
                before
            },
            ItemView::Field(_) => before,
        }
    }
}

/// The function that a node stands for: its readable name and the text that
/// names its place.
pub open spec fn node_record(items: Seq<ItemView>) -> Result<
    (Seq<char>, Seq<char>),
    RequiredField,
> {
    let fields = object_map(items);
    if !fields.contains_key("title"@) {
        Err(RequiredField::Title)
    } else if !fields.contains_key("label"@) {
        Err(RequiredField::Label)
    } else {
        Ok((readable(fields["title"@]), location_text(fields["label"@])))
    }
}

/// The call that an edge stands for: the readable names of its source and its
/// target, and its label, which is `intrinsic` for an edge without one.
pub open spec fn edge_record(items: Seq<ItemView>) -> Result<
    (Seq<char>, Seq<char>, Seq<char>),
    RequiredField,
> {
    let fields = object_map(items);
    if !fields.contains_key("sourcename"@) {
        Err(RequiredField::SourceName)
    } else if !fields.contains_key("targetname"@) {
        Err(RequiredField::TargetName)
    } else {
        Ok(
            (
                readable(fields["sourcename"@]),
                readable(fields["targetname"@]),
                if fields.contains_key("label"@) {
                    fields["label"@]
                } else {
                    "intrinsic"@
                },
            ),
        )
    }
}

/// The graph after one node is read.
pub open spec fn with_node(g: CallGraphView, items: Seq<ItemView>) -> Result<
    CallGraphView,
    FileFault,
> {
    match node_record(items) {
        Err(field) => Err(FileFault::MissingField(field)),
        Ok((name, place)) => match parse_location(place) {
            Err(e) => Err(FileFault::Location(e)),
            Ok(_) => Ok(g.with_function(name, named_location(place))),
        },
    }
}

/// The graph after one edge is read; `Ok(None)` for an edge that is dropped
/// because one of its ends is not registered.
pub open spec fn with_edge(g: CallGraphView, items: Seq<ItemView>) -> Result<
    Option<CallGraphView>,
    FileFault,
> {
    match edge_record(items) {
        Err(field) => Err(FileFault::MissingField(field)),
        Ok((source, target, label)) => match g.refusal(source, target, label) {
            Some(CallFault::Lookup(_)) => Ok(None),
            Some(CallFault::Location(e)) => Err(FileFault::Location(e)),
            None => Ok(Some(g.with_call(source, target, label))),
        },
    }
}

/// The state of a reading: the graph so far, and how it ended or how many
/// edges were dropped.
pub struct Reading {
    pub graph: CallGraphView,
    pub outcome: Result<nat, FileFault>,
}

/// Reads the nodes from the `i`-th on into `g`, up to the first that fails.
pub open spec fn with_nodes(g: CallGraphView, nodes: Seq<Seq<ItemView>>, i: int) -> Reading
    decreases nodes.len() - i,
{
    if i < 0 || i >= nodes.len() {
        Reading { graph: g, outcome: Ok(0) }
    } else {
        match with_node(g, nodes[i]) {
            Err(fault) => Reading { graph: g, outcome: Err(fault) },
            Ok(next) => with_nodes(next, nodes, i + 1),
        }
    }
}

/// Reads the edges from the `i`-th on into `g`, up to the first that fails,
/// with `dropped` edges dropped before.
pub open spec fn with_edges(
    g: CallGraphView,
    edges: Seq<Seq<ItemView>>,
    i: int,
    dropped: nat,
) -> Reading
    decreases edges.len() - i,
{
    if i < 0 || i >= edges.len() {
        Reading { graph: g, outcome: Ok(dropped) }
    } else {
        match with_edge(g, edges[i]) {
            Err(fault) => Reading { graph: g, outcome: Err(fault) },
            Ok(None) => with_edges(g, edges, i + 1, dropped + 1),
            Ok(Some(next)) => with_edges(next, edges, i + 1, dropped),
        }
    }
}

/// What reading the dump `text` into `g` comes to. A text outside the grammar
/// or with another kind of object at the top leaves the graph as it was. After
/// that the nodes are read in order, then the edges in order; the first record
/// that fails ends the reading, and what was read before it stays.
pub open spec fn with_dump(g: CallGraphView, text: Seq<char>) -> Reading {
    match parse_dump(text) {
        Err(fault) => Reading { graph: g, outcome: Err(FileFault::Syntax(fault)) },
        Ok(tree) => if tree.kind != "graph"@ {
            Reading { graph: g, outcome: Err(FileFault::NotAGraph) }
        } else {
            let nodes = with_nodes(g, children_of_kind(tree.items, "node"@), 0);
            if nodes.outcome is Err {
                nodes
            } else {
                with_edges(nodes.graph, children_of_kind(tree.items, "edge"@), 0, 0)
            }
        },
    }
}

/// An edge with an end that is not registered is dropped: the graph stays as
/// it is, the reading goes on, and the edge is counted.
pub proof fn lemma_unregistered_edge_dropped(g: CallGraphView, items: Seq<ItemView>)
    requires
        edge_record(items) matches Ok((source, target, _)) && (!g.knows(source) || !g.knows(
            target,
        )),
    ensures
        with_edge(g, items) == Ok::<Option<CallGraphView>, FileFault>(None),
        with_edges(g, seq![items], 0, 0) == (Reading { graph: g, outcome: Ok(1) }),
{
    reveal_with_fuel(with_edges, 2);
}

/// Reading nodes only adds: the graph stays well formed, what was known stays
/// known, and every node read is known afterwards.
pub proof fn lemma_nodes_are_known(g: CallGraphView, nodes: Seq<Seq<ItemView>>, i: int)
    requires
        g.well_formed(),
        0 <= i <= nodes.len(),
        with_nodes(g, nodes, i).outcome is Ok,
    ensures
        with_nodes(g, nodes, i).graph.well_formed(),
        forall|name: Seq<char>| g.knows(name) ==> with_nodes(g, nodes, i).graph.knows(name),
        forall|k: int|
            i <= k < nodes.len() ==> ((#[trigger] node_record(nodes[k])) matches Ok((name, _))
                && with_nodes(g, nodes, i).graph.knows(name)),
    decreases nodes.len() - i,
{
    if i < nodes.len() {
        let (name, place) = node_record(nodes[i])->Ok_0;
        let next = g.with_function(name, named_location(place));
        lemma_with_function(g, name, named_location(place));
        lemma_nodes_are_known(next, nodes, i + 1);
    }
}

/// Why the nodes are read first: an edge between two nodes of a dump finds
/// both, wherever in the dump it stands, and is not dropped.
pub proof fn lemma_edge_of_own_nodes_kept(
    g: CallGraphView,
    nodes: Seq<Seq<ItemView>>,
    source_node: int,
    target_node: int,
    edge: Seq<ItemView>,
)
    requires
        g.well_formed(),
        with_nodes(g, nodes, 0).outcome is Ok,
        0 <= source_node < nodes.len(),
        0 <= target_node < nodes.len(),
        edge_record(edge) matches Ok((source, target, _)) && node_record(
            nodes[source_node],
        ) matches Ok((first, _)) && node_record(nodes[target_node]) matches Ok((second, _))
            && source == first && target == second,
    ensures
        with_edge(with_nodes(g, nodes, 0).graph, edge) != Ok::<Option<CallGraphView>, FileFault>(
            None,
        ),
{
    lemma_nodes_are_known(g, nodes, 0);
}

/// The views of a run of item lists.
pub open spec fn lists_view(lists: Seq<Vec<Item>>) -> Seq<Seq<ItemView>> {
    Seq::new(lists.len(), |i: int| items_view(lists[i]@))
}

/// The part of `label` that names the place.
pub fn location_text_of(label: &str) -> (out: String)
    ensures
        out@ == location_text(label@),
{
    let chars = chars_of(label);
    let first = find_break_in(&chars, 0);
    if first >= chars.len() {
        String::from_str(label)
    } else {
        let end = find_break_in(&chars, first + 2);
        string_of(&chars, first + 2, end)
    }
}

fn find_break_in(chars: &Vec<char>, from: usize) -> (at: usize)
    requires
        from <= chars.len(),
    ensures
        at == find_break(chars@, from as int),
        from <= at <= chars.len(),
        at < chars.len() ==> at + 2 <= chars.len(),
{
    let n = chars.len();
    let mut i: usize = from;
    while i < n
        invariant
            n == chars.len(),
            from <= i <= n,
            find_break(chars@, from as int) == find_break(chars@, i as int),
        decreases n - i,
    {
        if chars[i] == '\\' && i + 1 < n && chars[i + 1] == 'n' {
            return i;
        }
        i += 1;
    }
    i
}

/// Splits the children of a graph object into the item lists of its nodes and
/// those of its edges, each in the order of the text. Fields and objects of
/// other kinds are left out.
pub fn partition(items: Vec<Item>) -> (out: (Vec<Vec<Item>>, Vec<Vec<Item>>))
    ensures
        lists_view(out.0@) == children_of_kind(items_view(items@), "node"@),
        lists_view(out.1@) == children_of_kind(items_view(items@), "edge"@),
{
    let ghost given = items_view(items@);
    let node_kind = String::from_str("node");
    let edge_kind = String::from_str("edge");
    let mut nodes: Vec<Vec<Item>> = Vec::new();
    let mut edges: Vec<Vec<Item>> = Vec::new();
    for item in it: items
        invariant
            given == items_view(it.seq()),
            node_kind@ == "node"@,
            edge_kind@ == "edge"@,
            lists_view(nodes@) == children_of_kind(given.take(it.index()), "node"@),
            lists_view(edges@) == children_of_kind(given.take(it.index()), "edge"@),
    {
        assert(given.take(it.index() + 1).drop_last() =~= given.take(it.index()));
        assert("node"@ != "edge"@) by {
            reveal_strlit("node");
            reveal_strlit("edge");
            assert("node"@[0] != "edge"@[0]);
        }
        match item {
            Item::Object(object) => {
                let Object { kind, items: children } = object;
                assert(object@.items =~= items_view(children@));
                if kind == node_kind {
                    nodes.push(children);
                } else if kind == edge_kind {
                    edges.push(children);
                }
            },
            Item::Field(_) => {},
        }
    }
    assert(given.take(given.len() as int) =~= given);
    (nodes, edges)
}

impl CallGraph {
    /// Registers the function that the node with the children `items` stands for.
    fn read_node(&mut self, items: Vec<Item>) -> (out: Result<(), FileError>)
        requires
            old(self).wf(),
        ensures
            final(self).wf(),
            match with_node(old(self)@, items_view(items@)) {
                Err(fault) => out matches Err(e) && e@ == fault && final(self)@ == old(self)@,
                Ok(next) => out is Ok && final(self)@ == next,
            },
    {
        let fields = get_object_map(items);
        let title = match fields.get("title") {
            Some(text) => text,
            None => { return Err(FileError::MissingField(RequiredField::Title)); },
        };
        let label = match fields.get("label") {
            Some(text) => text,
            None => { return Err(FileError::MissingField(RequiredField::Label)); },
        };
        let place = location_text_of(label.as_str());
        let name = maybe_demangle(title.as_str());
        match self.add_function(name.as_str(), place.as_str()) {
            Err(e) => Err(FileError::Location(e)),
            Ok(()) => Ok(()),
        }
    }

    /// Adds the call that the edge with the children `items` stands for, and
    /// says whether it did: an edge with an end that is not registered is
    /// dropped.
    fn read_edge(&mut self, items: Vec<Item>) -> (out: Result<bool, FileError>)
        requires
            old(self).wf(),
        ensures
            final(self).wf(),
            match with_edge(old(self)@, items_view(items@)) {
                Err(fault) => out matches Err(e) && e@ == fault && final(self)@ == old(self)@,
                Ok(None) => out == Ok::<bool, FileError>(false) && final(self)@ == old(self)@,
                Ok(Some(next)) => out == Ok::<bool, FileError>(true) && final(self)@ == next,
            },
    {
        let fields = get_object_map(items);
        let source = match fields.get("sourcename") {
            Some(text) => maybe_demangle(text.as_str()),
            None => { return Err(FileError::MissingField(RequiredField::SourceName)); },
        };
        let target = match fields.get("targetname") {
            Some(text) => maybe_demangle(text.as_str()),
            None => { return Err(FileError::MissingField(RequiredField::TargetName)); },
        };
        let place = match fields.get("label") {
            Some(text) => text.as_str(),
            None => "intrinsic",
        };
        match self.add_call(source.as_str(), target.as_str(), place) {
            Ok(()) => Ok(true),
            Err(CallError::Lookup(_)) => Ok(false),
            Err(CallError::Location(e)) => Err(FileError::Location(e)),
        }
    }

    /// Reads the dump `data` into the graph and returns how many of its edges
    /// were dropped for want of a registered end.
    ///
    /// Errors end the reading. A dump outside the grammar, or one whose object
    /// is no `graph`, changes nothing. A node or an edge without a field it must
    /// have, or with a label that starts like a location and is none, leaves in
    /// the graph what was read before it; the record itself is neither passed
    /// over nor given a default. Every error is fatal to the run: the caller,
    /// who knows the file, is to report it with the file's path and stop.
    #[verifier::loop_isolation(false)]
    pub fn parse_file(&mut self, data: &str) -> (out: Result<usize, FileError>)
        requires
            old(self).wf(),
        ensures
            final(self).wf(),
            final(self)@ == with_dump(old(self)@, data@).graph,
            match with_dump(old(self)@, data@).outcome {
                Ok(dropped) => out matches Ok(n) && n == dropped,
                Err(fault) => out matches Err(e) && e@ == fault,
            },
    {
        let tree = match Parser::parse(data) {
            Ok(tree) => tree,
            Err(e) => { return Err(FileError::Syntax(e)); },
        };
        let Object { kind, items } = tree;
        assert(tree@.items =~= items_view(items@));
        if kind != String::from_str("graph") {
            return Err(FileError::NotAGraph);
        }
        let (nodes, edges) = partition(items);
        let ghost start = self@;
        let ghost node_lists = lists_view(nodes@);
        let ghost edge_lists = lists_view(edges@);
        assert(edges@.len() == edges.len());
        for node in it: nodes
            invariant
                self.wf(),
                node_lists == lists_view(it.seq()),
                with_nodes(self@, node_lists, it.index() as int) == with_nodes(start, node_lists, 0),
        {
            match self.read_node(node) {
                Err(e) => { return Err(e); },
                Ok(()) => {},
            }
        }
        let ghost middle = self@;
        let mut dropped: usize = 0;
        for edge in it: edges
            invariant
                self.wf(),
                edge_lists == lists_view(it.seq()),
                dropped <= it.index(),
                with_edges(self@, edge_lists, it.index() as int, dropped as nat) == with_edges(
                    middle,
                    edge_lists,
                    0,
                    0,
                ),
        {
            match self.read_edge(edge) {
                Err(e) => { return Err(e); },
                Ok(true) => {},
                Ok(false) => { dropped += 1; },
            }
        }
        Ok(dropped)
    }
}

} // verus!
