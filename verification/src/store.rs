//! The adjacency store: a directed multigraph owned by petgraph, seen by the
//! proofs through two abstract views — the node labels in creation order and
//! the edge list in insertion order, both as plain values.
use vstd::prelude::*;

verus! {

#[verifier::external_type_specification]
#[verifier::external_body]
#[verifier::reject_recursive_types(N)]
#[verifier::reject_recursive_types(E)]
#[verifier::reject_recursive_types(Ty)]
#[verifier::reject_recursive_types(Ix)]
pub struct ExGraph<N, E, Ty, Ix>(petgraph::graph::Graph<N, E, Ty, Ix>);

#[verifier::external_type_specification]
#[verifier::external_body]
pub struct ExDirected(petgraph::Directed);

/// The store used by the engine: string labels, unlabelled directed edges,
/// 32-bit indices (petgraph's default index type).
pub type NetGraph = petgraph::graph::Graph<String, (), petgraph::Directed, u32>;

/// The node labels of `g`, in node-creation order; node handle `h` is the
/// node at position `h`.
pub uninterp spec fn graph_labels(g: NetGraph) -> Seq<Seq<char>>;

/// The edges of `g` as (source handle, target handle) pairs, in insertion
/// order; parallel edges appear once per insertion.
pub uninterp spec fn graph_edges(g: NetGraph) -> Seq<(usize, usize)>;

/// The textual diagram that petgraph's Dot writer renders for a graph with
/// these labels and edges.
pub uninterp spec fn dot_of(labels: Seq<Seq<char>>, edges: Seq<(usize, usize)>) -> Seq<char>;

/// The sources of an edge list, position by position.
pub open spec fn edge_sources(es: Seq<(usize, usize)>) -> Seq<int> {
    Seq::new(es.len(), |i: int| es[i].0 as int)
}

/// The largest node or edge count the store can hold: petgraph refuses the
/// index value `u32::MAX`, which it reserves as a sentinel.
pub const STORE_CAP: usize = 0xFFFF_FFFF;

/// Relies on petgraph's `Graph::new`: an empty directed graph.
#[verifier::external_body]
pub(crate) fn graph_new() -> (g: NetGraph)
    ensures
        graph_labels(g) == Seq::<Seq<char>>::empty(),
        graph_edges(g) == Seq::<(usize, usize)>::empty(),
{
    petgraph::graph::DiGraph::new()
}

/// Relies on petgraph's `Graph::add_node`: appends a node and returns its
/// index, the previous node count. Panics only at the index-type limit,
/// which the precondition rules out.
#[verifier::external_body]
pub(crate) fn graph_add_node(g: &mut NetGraph, label: String) -> (h: usize)
    requires
        graph_labels(*old(g)).len() < STORE_CAP as int,
    ensures
        graph_labels(*final(g)) == graph_labels(*old(g)).push(label@),
        graph_edges(*final(g)) == graph_edges(*old(g)),
        h == graph_labels(*old(g)).len(),
{
    g.add_node(label).index()
}

/// Relies on petgraph's `Graph::add_edge`: appends a directed edge without
/// deduplication. Panics only on an unknown endpoint or at the index-type
/// limit, which the preconditions rule out.
#[verifier::external_body]
pub(crate) fn graph_add_edge(g: &mut NetGraph, a: usize, b: usize)
    requires
        a < graph_labels(*old(g)).len(),
        b < graph_labels(*old(g)).len(),
        graph_edges(*old(g)).len() < STORE_CAP as int,
    ensures
        graph_labels(*final(g)) == graph_labels(*old(g)),
        graph_edges(*final(g)) == graph_edges(*old(g)).push((a, b)),
{
    g.add_edge(
        petgraph::graph::NodeIndex::new(a),
        petgraph::graph::NodeIndex::new(b),
        (),
    );
}

/// Relies on petgraph's `Graph::node_count`: the number of nodes.
#[verifier::external_body]
pub(crate) fn graph_node_count(g: &NetGraph) -> (n: usize)
    ensures
        n == graph_labels(*g).len(),
{
    g.node_count()
}

/// Relies on petgraph's `Graph::edge_count`: the number of edges.
#[verifier::external_body]
pub(crate) fn graph_edge_count(g: &NetGraph) -> (n: usize)
    ensures
        n == graph_edges(*g).len(),
{
    g.edge_count()
}

/// Relies on petgraph's `Graph::edges`, which for a directed graph iterates
/// exactly the edges whose source is the given node: the count is that
/// node's out-degree.
#[verifier::external_body]
pub(crate) fn graph_out_degree(g: &NetGraph, a: usize) -> (d: usize)
    requires
        a < graph_labels(*g).len(),
    ensures
        d as int == crate::counting::count_eq(edge_sources(graph_edges(*g)), a as int),
{
    g.edges(petgraph::graph::NodeIndex::new(a)).count()
}

/// Relies on petgraph's `Dot` writer with edge labels switched off: its
/// output is a function of the node labels and the edge list alone.
#[verifier::external_body]
pub(crate) fn graph_render_dot(g: &NetGraph) -> (s: String)
    ensures
        s@ == dot_of(graph_labels(*g), graph_edges(*g)),
{
    format!(
        "{:?}",
        petgraph::dot::Dot::with_config(g, &[petgraph::dot::Config::EdgeNoLabel]),
    )
}

} // verus!
