//! The graph store: `petgraph`'s adjacency-list graph, held behind a small
//! trusted surface.
//!
//! The graph type is opaque to the verifier. Its contents are named by two
//! spec functions, `graph_nodes` (the node labels in index order) and
//! `graph_edges` (the endpoint pairs in insertion order), and each method the
//! library calls has a wrapper whose contract says, over those two names,
//! what `petgraph`'s source does.

use vstd::prelude::*;
use crate::graph_model::neighbors_of;

verus! {

#[verifier::external_type_specification]
#[verifier::external_body]
#[verifier::reject_recursive_types(N)]
#[verifier::reject_recursive_types(E)]
#[verifier::reject_recursive_types(Ty)]
#[verifier::reject_recursive_types(Ix)]
pub struct ExGraph<N, E, Ty, Ix>(petgraph::graph::Graph<N, E, Ty, Ix>);

#[verifier::external_type_specification]
#[verifier::external_body]
pub struct ExUndirected(petgraph::Undirected);

/// The undirected show/platform graph: node labels are strings, edges carry
/// the marker `bool` of no analytical meaning.
pub type PlatformGraph = petgraph::graph::Graph<String, bool, petgraph::Undirected, u32>;

/// The labels of the graph's nodes, in node-index order.
pub uninterp spec fn graph_nodes(g: PlatformGraph) -> Seq<Seq<char>>;

/// The endpoint pairs of the graph's edges, in insertion order.
pub uninterp spec fn graph_edges(g: PlatformGraph) -> Seq<(int, int)>;

/// Relies on `petgraph::graph::Graph::with_capacity`: a graph with no nodes
/// and no edges.
#[verifier::external_body]
pub(crate) fn new_graph() -> (g: PlatformGraph)
    ensures
        graph_nodes(g) == Seq::<Seq<char>>::empty(),
        graph_edges(g) == Seq::<(int, int)>::empty(),
{
    petgraph::graph::Graph::with_capacity(0, 0)
}

/// Relies on `petgraph::graph::Graph::add_node`: appends one node holding
/// `label` and returns its index, the old node count. Panics only at the
/// index-type limit, which the precondition rules out.
#[verifier::external_body]
pub(crate) fn add_node(g: &mut PlatformGraph, label: String) -> (idx: usize)
    requires
        graph_nodes(*old(g)).len() < 0xFFFF_FFFF,
    ensures
        graph_nodes(*final(g)) == graph_nodes(*old(g)).push(label@),
        graph_edges(*final(g)) == graph_edges(*old(g)),
        idx == graph_nodes(*old(g)).len(),
{
    g.add_node(label).index()
}

/// Relies on `petgraph::graph::Graph::add_edge`: appends one edge from `a`
/// to `b` with the given marker. Panics only on a missing node or at the
/// index-type limit, which the preconditions rule out.
#[verifier::external_body]
pub(crate) fn add_edge(g: &mut PlatformGraph, a: usize, b: usize, marker: bool)
    requires
        a < graph_nodes(*old(g)).len(),
        b < graph_nodes(*old(g)).len(),
        graph_edges(*old(g)).len() < 0xFFFF_FFFF,
    ensures
        graph_nodes(*final(g)) == graph_nodes(*old(g)),
        graph_edges(*final(g)) == graph_edges(*old(g)).push((a as int, b as int)),
{
    g.add_edge(
        petgraph::graph::NodeIndex::new(a),
        petgraph::graph::NodeIndex::new(b),
        marker,
    );
}

/// Relies on `petgraph::graph::Graph::node_count`: the number of nodes.
#[verifier::external_body]
pub(crate) fn node_count(g: &PlatformGraph) -> (n: usize)
    ensures
        n == graph_nodes(*g).len(),
{
    g.node_count()
}

/// Relies on `petgraph::graph::Graph::edge_count`: the number of edges.
#[verifier::external_body]
pub(crate) fn edge_count(g: &PlatformGraph) -> (n: usize)
    ensures
        n == graph_edges(*g).len(),
{
    g.edge_count()
}

/// Relies on `petgraph::graph::Graph::neighbors`: on an undirected graph it
/// yields, for each edge incident to `a`, the other endpoint, each incident
/// edge exactly once (a self-loop once). The order is petgraph's own and is
/// not stated: the result is pinned down only as a multiset.
#[verifier::external_body]
pub(crate) fn neighbors_vec(g: &PlatformGraph, a: usize) -> (r: Vec<usize>)
    requires
        a < graph_nodes(*g).len(),
    ensures
        r@.map_values(|x: usize| x as int).to_multiset() == neighbors_of(
            graph_edges(*g),
            a as int,
        ),
{
    g.neighbors(petgraph::graph::NodeIndex::new(a)).map(|n| n.index()).collect()
}

} // verus!
