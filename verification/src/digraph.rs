//! The dependency store: `petgraph`'s directed graph, declared to Verus.
//!
//! Node weights are operator ids (`u64`); edges carry no data. Contents are
//! named by two spec functions — the node weights in index order and the
//! edges as `(source, target)` index pairs in edge-index order — and every
//! method the node graph calls has a wrapper whose contract states, over
//! those names, what `petgraph`'s source does. Removing a node relocates
//! the last node into the freed slot and reorders edges by swap-removal;
//! those contracts therefore pin the node order exactly but the edge order
//! only up to a permutation (a multiset of weight pairs).

use petgraph::graph::{DiGraph, EdgeIndex, Graph, NodeIndex};
use vstd::prelude::*;

verus! {

#[verifier::external_type_specification]
#[verifier::external_body]
#[verifier::reject_recursive_types(N)]
#[verifier::reject_recursive_types(E)]
#[verifier::reject_recursive_types(Ty)]
#[verifier::reject_recursive_types(Ix)]
pub struct ExGraph<N, E, Ty, Ix>(Graph<N, E, Ty, Ix>);

#[verifier::external_type_specification]
#[verifier::external_body]
pub struct ExDirected(petgraph::Directed);

/// Node weights of a dependency store, by node index.
pub uninterp spec fn digraph_nodes(g: DiGraph<u64, ()>) -> Seq<u64>;

/// Edges of a dependency store as `(source, target)` node-index pairs, by
/// edge index.
pub uninterp spec fn digraph_edges(g: DiGraph<u64, ()>) -> Seq<(usize, usize)>;

/// Every edge endpoint names an existing node.
pub open spec fn edges_in_bounds(nodes: Seq<u64>, edges: Seq<(usize, usize)>) -> bool {
    forall|k: int| 0 <= k < edges.len() ==> (#[trigger] edges[k]).0 < nodes.len() && edges[k].1 < nodes.len()
}

/// An edge's endpoints as node weights.
pub open spec fn weigh(nodes: Seq<u64>, e: (usize, usize)) -> (u64, u64) {
    (nodes[e.0 as int], nodes[e.1 as int])
}

/// Edges as node-weight pairs, in edge order.
pub open spec fn weighted_edges(nodes: Seq<u64>, edges: Seq<(usize, usize)>) -> Seq<(u64, u64)> {
    edges.map_values(|e: (usize, usize)| weigh(nodes, e))
}

/// The node list after removing index `a`: the last node moves into the
/// freed slot (plain truncation when `a` is last).
pub open spec fn swap_removed(nodes: Seq<u64>, a: int) -> Seq<u64> {
    if a == nodes.len() - 1 {
        nodes.drop_last()
    } else {
        nodes.update(a, nodes.last()).drop_last()
    }
}

/// Edges not touching node index `a`.
pub open spec fn edges_avoiding(edges: Seq<(usize, usize)>, a: usize) -> Seq<(usize, usize)> {
    edges.filter(|e: (usize, usize)| e.0 != a && e.1 != a)
}

/// Whether `order` lists the edge's source strictly before its target.
pub open spec fn index_edge_ordered(order: Seq<usize>, e: (usize, usize)) -> bool {
    exists|i: int, j: int| 0 <= i < j < order.len() && order[i] == e.0 && order[j] == e.1
}

/// Whether index `x` appears in `order`.
pub open spec fn lists_index(order: Seq<usize>, x: int) -> bool {
    exists|i: int| 0 <= i < order.len() && order[i] == x
}

/// Whether `order` lists every node index below `n` exactly once, each
/// edge's source before its target.
#[verifier::opaque]
pub open spec fn is_index_topological(n: nat, edges: Seq<(usize, usize)>, order: Seq<usize>) -> bool {
    &&& order.len() == n
    &&& order.no_duplicates()
    &&& forall|i: int| 0 <= i < order.len() ==> #[trigger] order[i] < n
    &&& forall|x: int| 0 <= x < n ==> #[trigger] lists_index(order, x)
    &&& forall|k: int| 0 <= k < edges.len() ==> index_edge_ordered(order, #[trigger] edges[k])
}

/// Whether `walk` is a closed walk (at least one step) along `edges`.
#[verifier::opaque]
pub open spec fn is_index_cycle(edges: Seq<(usize, usize)>, walk: Seq<usize>) -> bool {
    &&& walk.len() >= 2
    &&& walk[0] == walk.last()
    &&& forall|i: int| 0 <= i < walk.len() - 1 ==> edges.contains((#[trigger] walk[i], walk[i + 1]))
}

/// An empty dependency store.
///
/// Wraps `DiGraph::new`, which starts with no nodes and no edges.
#[verifier::external_body]
pub(crate) fn digraph_new() -> (g: DiGraph<u64, ()>)
    ensures
        digraph_nodes(g) == Seq::<u64>::empty(),
        digraph_edges(g) == Seq::<(usize, usize)>::empty(),
{
    DiGraph::new()
}

/// Number of nodes.
///
/// Wraps `Graph::node_count`, the length of the node list.
#[verifier::external_body]
pub(crate) fn digraph_node_count(g: &DiGraph<u64, ()>) -> (n: usize)
    ensures
        n == digraph_nodes(*g).len(),
{
    g.node_count()
}

/// Number of edges.
///
/// Wraps `Graph::edge_count`, the length of the edge list.
#[verifier::external_body]
pub(crate) fn digraph_edge_count(g: &DiGraph<u64, ()>) -> (n: usize)
    ensures
        n == digraph_edges(*g).len(),
{
    g.edge_count()
}

/// Append a node carrying `weight`, returning its index.
///
/// Wraps `Graph::add_node`, which pushes onto the node list and panics
/// only when the `u32` index space is full (excluded by `requires`).
#[verifier::external_body]
pub(crate) fn digraph_add_node(g: &mut DiGraph<u64, ()>, weight: u64) -> (index: usize)
    requires
        digraph_nodes(*old(g)).len() < u32::MAX,
    ensures
        index == digraph_nodes(*old(g)).len(),
        digraph_nodes(*final(g)) == digraph_nodes(*old(g)).push(weight),
        digraph_edges(*final(g)) == digraph_edges(*old(g)),
{
    g.add_node(weight).index()
}

/// Append an edge `a -> b`.
///
/// Wraps `Graph::add_edge`, which pushes onto the edge list (parallel edges
/// allowed) and panics only on out-of-bounds endpoints or a full `u32`
/// edge index space (both excluded by `requires`).
#[verifier::external_body]
pub(crate) fn digraph_add_edge(g: &mut DiGraph<u64, ()>, a: usize, b: usize)
    requires
        a < digraph_nodes(*old(g)).len(),
        b < digraph_nodes(*old(g)).len(),
        digraph_edges(*old(g)).len() < u32::MAX,
    ensures
        digraph_nodes(*final(g)) == digraph_nodes(*old(g)),
        digraph_edges(*final(g)) == digraph_edges(*old(g)).push((a, b)),
{
    let _ = g.add_edge(NodeIndex::new(a), NodeIndex::new(b), ());
}

/// Weight of node `a`.
///
/// Wraps indexing (`graph[a]`), which reads the node list and panics only
/// out of bounds (excluded by `requires`).
#[verifier::external_body]
pub(crate) fn digraph_node_weight(g: &DiGraph<u64, ()>, a: usize) -> (weight: u64)
    requires
        a < digraph_nodes(*g).len(),
    ensures
        weight == digraph_nodes(*g)[a as int],
{
    g[NodeIndex::new(a)]
}

/// Endpoints of edge `e` as node indices.
///
/// Wraps `Graph::edge_endpoints`, which reads the edge list; `requires`
/// keeps `e` in range, where it returns `Some`.
#[verifier::external_body]
pub(crate) fn digraph_edge_endpoints(g: &DiGraph<u64, ()>, e: usize) -> (endpoints: (usize, usize))
    requires
        e < digraph_edges(*g).len(),
    ensures
        endpoints == digraph_edges(*g)[e as int],
{
    let (from, to) = g.edge_endpoints(EdgeIndex::new(e)).unwrap();
    (from.index(), to.index())
}

/// Remove node `a` and every edge touching it, returning its weight.
///
/// Wraps `Graph::remove_node` on an index in range (`requires`; the
/// index converts to `petgraph`'s `u32` index by truncation, so an index
/// out of range could name another node). The last node moves into slot
/// `a` (its edges are re-pointed), and incident edges leave by
/// swap-removal, so the remaining edges keep their endpoints' weights but
/// not their order: the contract states them as a multiset of weight
/// pairs.
#[verifier::external_body]
pub(crate) fn digraph_remove_node(g: &mut DiGraph<u64, ()>, a: usize) -> (removed: Option<u64>)
    requires
        a < digraph_nodes(*old(g)).len(),
    ensures
        ({
            &&& removed == Some(digraph_nodes(*old(g))[a as int])
            &&& digraph_nodes(*final(g)) == swap_removed(digraph_nodes(*old(g)), a as int)
            &&& weighted_edges(digraph_nodes(*final(g)), digraph_edges(*final(g))).to_multiset()
                == weighted_edges(
                digraph_nodes(*old(g)),
                edges_avoiding(digraph_edges(*old(g)), a),
            ).to_multiset()
            &&& edges_in_bounds(digraph_nodes(*old(g)), digraph_edges(*old(g))) ==> edges_in_bounds(
                digraph_nodes(*final(g)),
                digraph_edges(*final(g)),
            )
        }),
{
    g.remove_node(NodeIndex::new(a))
}

/// Topologically sort the node indices.
///
/// Wraps `petgraph::algo::toposort`, documented to return every node in
/// topological order (each node before its successors) when the graph is
/// acyclic, and a `Cycle` error otherwise (self loops included). Which
/// order is returned among the valid ones is left open; the error's node
/// is handed back as an index with nothing claimed of it.
#[verifier::external_body]
pub(crate) fn digraph_toposort(g: &DiGraph<u64, ()>) -> (order: Result<Vec<usize>, usize>)
    ensures
        order matches Ok(v) ==> is_index_topological(
            digraph_nodes(*g).len(),
            digraph_edges(*g),
            v@,
        ),
        order is Err ==> exists|walk: Seq<usize>| is_index_cycle(digraph_edges(*g), walk),
{
    match petgraph::algo::toposort(g, None) {
        Ok(v) => Ok(v.into_iter().map(|i| i.index()).collect()),
        Err(cycle) => Err(cycle.node_id().index()),
    }
}

} // verus!
