//! Call graphs of compiled programs, built from what the compiler writes down.
//!
//! With `-fcallgraph-info` a compiler writes one dump per compilation unit: the
//! functions it saw as nodes, the calls between them as edges. With
//! `-fstack-usage` it writes how much stack each function needs. This library
//! reads both. [`callgraph_info`] holds the graph, the grammar of the dumps and
//! the reading of a dump into the graph; [`stack_usage`] reads the stack-usage
//! records; [`location`] reads the `path:line:column` texts by which the two are
//! joined.
//!
//! Every function states what it returns over plain models of its data: text is
//! a `Seq<char>`, a location its three parts, the graph its functions and calls
//! in the order in which they came. What is taken from other crates, and
//! believed of them, stands in [`callgraph_info::digraph`],
//! [`callgraph_info::registry`] and [`callgraph_info::symbol`].

pub mod callgraph_info;
pub mod decimal;
pub mod location;
pub mod stack_usage;
pub mod text;
