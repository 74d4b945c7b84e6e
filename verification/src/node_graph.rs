//! Procedural node DAG: topology plus evaluation order.
//!
//! Edges point from dependency to dependent. The store is `petgraph`'s
//! directed graph (see `digraph`) plus an id-to-index table that is kept
//! coherent across `petgraph`'s swap-remove relocation.

use std::collections::HashMap;
use petgraph::graph::DiGraph;
use vstd::prelude::*;

use crate::digraph::{
    digraph_add_edge, digraph_add_node, digraph_edge_count, digraph_edge_endpoints, digraph_edges,
    digraph_new, digraph_node_count, digraph_node_weight, digraph_nodes, digraph_remove_node,
    digraph_toposort, edges_avoiding, edges_in_bounds, is_index_cycle, is_index_topological, lists_index, index_edge_ordered,
    swap_removed, weigh, weighted_edges,
};
use crate::domain::NodeId;
use crate::text::{decimal, push_decimal};

verus! {

broadcast use vstd::std_specs::hash::group_hash_axioms;

/// Errors for DAG construction, evaluation, and operator-graph editing.
#[derive(Debug, PartialEq, Eq)]
pub enum GraphError {
    /// A dependency edge would introduce a cycle.
    Cycle,
    /// Referenced node does not exist.
    UnknownNode(NodeId),
    /// A rename (or snapshot entry) carried an empty or blank name.
    EmptyName,
    /// A parameter key was empty or blank.
    EmptyParameterKey,
    /// The `name` key was set through the typed setter.
    ReservedParameterKey(String),
    /// A snapshot carried the same id twice.
    DuplicateNode(NodeId),
    /// A snapshot was written by an incompatible format version.
    UnsupportedVersion(u32),
}

/// Abstract value of a [`GraphError`]: ids by value, the reserved key by
/// its characters.
pub enum GraphErrorView {
    /// A dependency cycle.
    Cycle,
    /// Referenced node does not exist.
    UnknownNode(u64),
    /// Empty or blank name.
    EmptyName,
    /// Empty or blank parameter key.
    EmptyParameterKey,
    /// The reserved `name` key, as given after trimming.
    ReservedParameterKey(Seq<char>),
    /// Repeated id.
    DuplicateNode(u64),
    /// Unsupported snapshot version.
    UnsupportedVersion(u32),
}

impl GraphError {
    /// Human-readable message.
    pub fn message(&self) -> (text: String)
        ensures
            text@ == match self.view() {
                GraphErrorView::Cycle => "node graph contains a cycle"@,
                GraphErrorView::UnknownNode(id) => "unknown node: NodeId("@ + decimal(id as nat) + ")"@,
                GraphErrorView::EmptyName => "operator name must not be empty"@,
                GraphErrorView::EmptyParameterKey => "parameter key must not be empty"@,
                GraphErrorView::ReservedParameterKey(key) => "parameter key is reserved for rename: "@
                    + key,
                GraphErrorView::DuplicateNode(id) => "duplicate node: NodeId("@ + decimal(id as nat) + ")"@,
                GraphErrorView::UnsupportedVersion(version) => "unsupported graph snapshot version: "@
                    + decimal(version as nat),
            },
    {
        match self {
            GraphError::Cycle => String::from_str("node graph contains a cycle"),
            GraphError::UnknownNode(id) => {
                let mut text = String::from_str("unknown node: NodeId(");
                push_decimal(&mut text, id.0);
                text.append(")");
                text
            },
            GraphError::EmptyName => String::from_str("operator name must not be empty"),
            GraphError::EmptyParameterKey => String::from_str("parameter key must not be empty"),
            GraphError::ReservedParameterKey(key) => {
                let mut text = String::from_str("parameter key is reserved for rename: ");
                text.append(key.as_str());
                text
            },
            GraphError::DuplicateNode(id) => {
                let mut text = String::from_str("duplicate node: NodeId(");
                push_decimal(&mut text, id.0);
                text.append(")");
                text
            },
            GraphError::UnsupportedVersion(version) => {
                let mut text = String::from_str("unsupported graph snapshot version: ");
                push_decimal(&mut text, *version as u64);
                text
            },
        }
    }

    /// Abstract value.
    pub open spec fn view(&self) -> GraphErrorView {
        match self {
            GraphError::Cycle => GraphErrorView::Cycle,
            GraphError::UnknownNode(id) => GraphErrorView::UnknownNode(id.0),
            GraphError::EmptyName => GraphErrorView::EmptyName,
            GraphError::EmptyParameterKey => GraphErrorView::EmptyParameterKey,
            GraphError::ReservedParameterKey(key) => GraphErrorView::ReservedParameterKey(key@),
            GraphError::DuplicateNode(id) => GraphErrorView::DuplicateNode(id.0),
            GraphError::UnsupportedVersion(version) => GraphErrorView::UnsupportedVersion(*version),
        }
    }
}

/// Abstract state of a [`NodeGraph`]: the node ids and the dependency edges
/// `(depends_on, dependent)` in edge order.
pub struct NodeGraphView {
    /// Ids of the nodes.
    pub ids: Set<u64>,
    /// Dependency edges as id pairs, in edge order.
    pub edges: Seq<(u64, u64)>,
}

/// Whether `walk` is a closed walk of at least one step along `edges`.
#[verifier::opaque]
pub open spec fn is_cycle(edges: Seq<(u64, u64)>, walk: Seq<u64>) -> bool {
    &&& walk.len() >= 2
    &&& walk[0] == walk.last()
    &&& forall|i: int| 0 <= i < walk.len() - 1 ==> edges.contains((#[trigger] walk[i], walk[i + 1]))
}

/// Whether the edges contain a dependency cycle (self loops included).
pub open spec fn has_cycle(edges: Seq<(u64, u64)>) -> bool {
    exists|walk: Seq<u64>| is_cycle(edges, walk)
}

/// Whether `order` lists the edge's source strictly before its target.
pub open spec fn edge_ordered(order: Seq<u64>, e: (u64, u64)) -> bool {
    exists|i: int, j: int| 0 <= i < j < order.len() && order[i] == e.0 && order[j] == e.1
}

/// Whether `order` lists every id exactly once with each dependency before
/// its dependent.
#[verifier::opaque]
pub open spec fn is_topological(ids: Set<u64>, edges: Seq<(u64, u64)>, order: Seq<u64>) -> bool {
    &&& order.no_duplicates()
    &&& order.to_set() == ids
    &&& forall|k: int| 0 <= k < edges.len() ==> edge_ordered(order, #[trigger] edges[k])
}

/// Edges not touching `id`, in their original order.
pub open spec fn edges_without(edges: Seq<(u64, u64)>, id: u64) -> Seq<(u64, u64)> {
    edges.filter(avoids(id))
}

/// Whether an edge touches `id` at neither end.
pub open spec fn avoids(id: u64) -> spec_fn((u64, u64)) -> bool {
    |e: (u64, u64)| e.0 != id && e.1 != id
}

/// Raw id values of a sequence of node ids.
pub open spec fn raw_ids(ids: Seq<NodeId>) -> Seq<u64> {
    ids.map_values(|n: NodeId| n.0)
}

/// Raw id pairs of a sequence of node-id pairs.
pub open spec fn raw_pairs(pairs: Seq<(NodeId, NodeId)>) -> Seq<(u64, u64)> {
    pairs.map_values(|p: (NodeId, NodeId)| (p.0.0, p.1.0))
}

/// A procedural node DAG. Edges point from dependency to dependent.
#[derive(Debug)]
pub struct NodeGraph {
    graph: DiGraph<u64, ()>,
    index_by_id: HashMap<u64, usize>,
}

impl NodeGraph {
    /// Node weights of the store, by index.
    pub closed spec fn nodes(&self) -> Seq<u64> {
        digraph_nodes(self.graph)
    }

    /// Abstract state: ids and weighted edges.
    pub closed spec fn view(&self) -> NodeGraphView {
        NodeGraphView {
            ids: self.nodes().to_set(),
            edges: weighted_edges(self.nodes(), digraph_edges(self.graph)),
        }
    }

    /// Number of nodes held.
    pub closed spec fn node_total(&self) -> nat {
        self.nodes().len()
    }

    /// Number of edges held.
    pub closed spec fn edge_total(&self) -> nat {
        digraph_edges(self.graph).len()
    }

    /// The index table names every node exactly at its slot, ids are
    /// unique, and every edge endpoint is a node.
    pub closed spec fn wf(&self) -> bool {
        &&& self.nodes().no_duplicates()
        &&& self.index_by_id@.dom() == self.nodes().to_set()
        &&& forall|id: u64|
            #[trigger] self.index_by_id@.contains_key(id) ==> self.index_by_id@[id] < self.nodes().len()
                && self.nodes()[self.index_by_id@[id] as int] == id
        &&& edges_in_bounds(self.nodes(), digraph_edges(self.graph))
    }

    /// The node total is the number of ids.
    pub proof fn lemma_node_total(&self)
        requires
            self.wf(),
        ensures
            self.node_total() == self.view().ids.len(),
            self.view().ids.finite(),
            self.edge_total() == self.view().edges.len(),
    {
        self.nodes().unique_seq_to_set();
    }

    /// Every edge endpoint is one of the ids.
    pub proof fn lemma_edge_endpoints(&self)
        requires
            self.wf(),
        ensures
            forall|k: int|
                0 <= k < self.view().edges.len() ==> self.view().ids.contains(
                    (#[trigger] self.view().edges[k]).0,
                ) && self.view().ids.contains(self.view().edges[k].1),
    {
        assert forall|k: int| 0 <= k < self.view().edges.len() implies self.view().ids.contains(
            (#[trigger] self.view().edges[k]).0,
        ) && self.view().ids.contains(self.view().edges[k].1) by {
            let e = digraph_edges(self.graph)[k];
            assert(self.nodes().contains(self.nodes()[e.0 as int]));
            assert(self.nodes().contains(self.nodes()[e.1 as int]));
        }
    }

    /// Create an empty graph.
    pub fn new() -> (graph: Self)
        ensures
            graph.wf(),
            graph.view().ids == Set::<u64>::empty(),
            graph.view().edges == Seq::<(u64, u64)>::empty(),
    {
        let graph = NodeGraph { graph: digraph_new(), index_by_id: HashMap::new() };
        assert(graph.nodes().to_set() =~= Set::<u64>::empty());
        assert(graph.view().edges =~= Seq::<(u64, u64)>::empty());
        graph
    }

    /// Index of `id` in the store, if present.
    fn index_of(&self, id: u64) -> (index: Option<usize>)
        requires
            self.wf(),
        ensures
            index is Some <==> self.view().ids.contains(id),
            index matches Some(i) ==> i < self.nodes().len() && self.nodes()[i as int] == id,
    {
        match self.index_by_id.get(&id) {
            Some(i) => Some(*i),
            None => None,
        }
    }

    /// Insert a node if absent and return its id.
    pub fn insert_node(&mut self, id: NodeId) -> (inserted: NodeId)
        requires
            old(self).wf(),
            old(self).view().ids.contains(id.0) || old(self).node_total() < u32::MAX,
        ensures
            final(self).wf(),
            inserted == id,
            final(self).view().ids == old(self).view().ids.insert(id.0),
            final(self).view().edges == old(self).view().edges,
            final(self).edge_total() == old(self).edge_total(),
            final(self).node_total() == old(self).node_total() + if old(self).view().ids.contains(
                id.0,
            ) {
                0int
            } else {
                1int
            },
    {
        if self.index_of(id.0).is_some() {
            assert(self.view().ids.insert(id.0) =~= self.view().ids);
            return id;
        }
        let ghost old_nodes = self.nodes();
        let ghost old_edges = digraph_edges(self.graph);
        let index = digraph_add_node(&mut self.graph, id.0);
        self.index_by_id.insert(id.0, index);
        proof {
            let nodes = self.nodes();
            assert(nodes == old_nodes.push(id.0));
            lemma_weighted_push_node(old_nodes, old_edges, id.0);
            old_nodes.lemma_push_to_set_commute(id.0);
            assert(nodes.to_set() =~= old_nodes.to_set().insert(id.0));
            assert forall|k: u64| #[trigger] self.index_by_id@.contains_key(k) implies self.index_by_id@[k]
                < nodes.len() && nodes[self.index_by_id@[k] as int] == k by {
                if k != id.0 {
                    assert(old(self).index_by_id@.contains_key(k));
                }
            }
            assert forall|i: int, j: int| 0 <= i < j < nodes.len() implies nodes[i] != nodes[j] by {
                if j == nodes.len() - 1 {
                    assert(old_nodes.contains(nodes[i]));
                }
            }
        }
        id
    }

    /// Add a dependency edge `depends_on -> dependent`, inserting either
    /// endpoint first when absent. Always succeeds.
    pub fn add_dependency(&mut self, depends_on: NodeId, dependent: NodeId) -> (result: Result<(), GraphError>)
        requires
            old(self).wf(),
            (old(self).view().ids.contains(depends_on.0) && old(self).view().ids.contains(dependent.0))
                || old(self).node_total() + 2 <= u32::MAX,
            old(self).edge_total() < u32::MAX,
        ensures
            final(self).wf(),
            result is Ok,
            final(self).view().ids == old(self).view().ids.insert(depends_on.0).insert(dependent.0),
            final(self).view().edges == old(self).view().edges.push((depends_on.0, dependent.0)),
            final(self).edge_total() == old(self).edge_total() + 1,
            final(self).node_total() <= old(self).node_total() + 2,
            old(self).view().ids.contains(depends_on.0) && old(self).view().ids.contains(dependent.0)
                ==> final(self).node_total() == old(self).node_total(),
    {
        self.insert_node(depends_on);
        self.insert_node(dependent);
        let from = self.index_of(depends_on.0).unwrap();
        let to = self.index_of(dependent.0).unwrap();
        let ghost mid_nodes = self.nodes();
        let ghost mid_edges = digraph_edges(self.graph);
        digraph_add_edge(&mut self.graph, from, to);
        proof {
            assert(weighted_edges(mid_nodes, mid_edges.push((from, to))) =~= weighted_edges(
                mid_nodes,
                mid_edges,
            ).push((depends_on.0, dependent.0)));
            assert forall|k: u64| #[trigger] self.index_by_id@.contains_key(k) implies self.index_by_id@[k]
                < self.nodes().len() && self.nodes()[self.index_by_id@[k] as int] == k by {}
        }
        Ok(())
    }

    /// Remove a node and its incident edges. Returns whether it was present.
    ///
    /// Repairs the swap-remove bookkeeping: the node relocated into the
    /// freed slot is re-pointed in the index table.
    pub fn remove_node(&mut self, id: NodeId) -> (present: bool)
        requires
            old(self).wf(),
        ensures
            final(self).wf(),
            present == old(self).view().ids.contains(id.0),
            final(self).view().ids == old(self).view().ids.remove(id.0),
            final(self).view().edges.to_multiset() == edges_without(
                old(self).view().edges,
                id.0,
            ).to_multiset(),
            final(self).node_total() <= old(self).node_total(),
            final(self).edge_total() <= old(self).edge_total(),
    {
        let index = match self.index_of(id.0) {
            Some(i) => i,
            None => {
                assert(self.view().ids.remove(id.0) =~= self.view().ids);
                assert(edges_without(self.view().edges, id.0) =~= self.view().edges) by {
                    lemma_filter_all(self.view().edges, id.0);
                }
                return false;
            },
        };
        let ghost old_nodes = self.nodes();
        let ghost old_edges = digraph_edges(self.graph);
        let last = digraph_node_count(&self.graph) - 1;
        let moved = if index == last {
            None
        } else {
            Some(digraph_node_weight(&self.graph, last))
        };
        let _ = digraph_remove_node(&mut self.graph, index);
        self.index_by_id.remove(&id.0);
        if let Some(moved) = moved {
            self.index_by_id.insert(moved, index);
        }
        proof {
            let nodes = self.nodes();
            assert(nodes == swap_removed(old_nodes, index as int));
            // Every surviving node keeps its weight; the last one moved.
            assert forall|i: int, j: int| 0 <= i < j < nodes.len() implies nodes[i] != nodes[j] by {
                if i == index {
                    assert(old_nodes[old_nodes.len() - 1] != old_nodes[j]);
                } else if j == index {
                    assert(old_nodes[i] != old_nodes[old_nodes.len() - 1]);
                }
            }
            assert forall|x: u64| nodes.to_set().contains(x) <==> old_nodes.to_set().remove(id.0).contains(x) by {
                if old_nodes.to_set().remove(id.0).contains(x) {
                    let p = choose|p: int| 0 <= p < old_nodes.len() && old_nodes[p] == x;
                    if p == old_nodes.len() - 1 {
                        assert(nodes[index as int] == x);
                    } else {
                        assert(nodes[p] == x);
                    }
                }
                if nodes.to_set().contains(x) {
                    let p = choose|p: int| 0 <= p < nodes.len() && nodes[p] == x;
                    if p == index {
                        assert(old_nodes[old_nodes.len() - 1] == x);
                    } else {
                        assert(old_nodes[p] == x);
                    }
                }
            }
            assert(nodes.to_set() =~= old_nodes.to_set().remove(id.0));
            assert(self.index_by_id@.dom() =~= nodes.to_set());
            assert forall|k: u64| #[trigger] self.index_by_id@.contains_key(k) implies self.index_by_id@[k]
                < nodes.len() && nodes[self.index_by_id@[k] as int] == k by {
                assert(old(self).index_by_id@.contains_key(k));
            }
            lemma_weighted_avoiding(old_nodes, old_edges, index, id.0);
            lemma_filter_len_le(old_edges, index);
            let new_w = weighted_edges(nodes, digraph_edges(self.graph));
            assert(new_w.len() == digraph_edges(self.graph).len());
            new_w.to_multiset_ensures();
            weighted_edges(old_nodes, edges_avoiding(old_edges, index)).to_multiset_ensures();
        }
        true
    }

    /// Dependency edges as `(depends_on, dependent)` pairs, in edge order.
    pub fn edges(&self) -> (edges: Vec<(NodeId, NodeId)>)
        requires
            self.wf(),
        ensures
            raw_pairs(edges@) == self.view().edges,
    {
        let count = digraph_edge_count(&self.graph);
        let mut out: Vec<(NodeId, NodeId)> = Vec::new();
        let mut e: usize = 0;
        while e < count
            invariant
                self.wf(),
                count == digraph_edges(self.graph).len(),
                e <= count,
                raw_pairs(out@) == self.view().edges.subrange(0, e as int),
            decreases count - e,
        {
            let (from, to) = digraph_edge_endpoints(&self.graph, e);
            let a = digraph_node_weight(&self.graph, from);
            let b = digraph_node_weight(&self.graph, to);
            let ghost before = out@;
            out.push((NodeId(a), NodeId(b)));
            assert(self.view().edges[e as int] == (a, b));
            assert(raw_pairs(out@) =~= raw_pairs(before).push((a, b)));
            assert(raw_pairs(out@) =~= self.view().edges.subrange(0, e + 1));
            e = e + 1;
        }
        assert(self.view().edges.subrange(0, count as int) =~= self.view().edges);
        out
    }

    /// Node ids in dependency-first evaluation order, or [`GraphError::Cycle`]
    /// exactly when the edges contain a cycle.
    pub fn evaluation_order(&self) -> (result: Result<Vec<NodeId>, GraphError>)
        requires
            self.wf(),
        ensures
            result is Ok <==> !has_cycle(self.view().edges),
            result matches Ok(order) ==> is_topological(self.view().ids, self.view().edges, raw_ids(order@)),
            result is Err ==> result == Err::<Vec<NodeId>, GraphError>(GraphError::Cycle),
    {
        let ghost nodes = self.nodes();
        let ghost idx_edges = digraph_edges(self.graph);
        match digraph_toposort(&self.graph) {
            Ok(indices) => {
                proof {
                    reveal(is_index_topological);
                }
                let mut order: Vec<NodeId> = Vec::new();
                let mut k: usize = 0;
                while k < indices.len()
                    invariant
                        self.wf(),
                        nodes == self.nodes(),
                        is_index_topological(nodes.len(), idx_edges, indices@),
                        forall|i: int| 0 <= i < indices@.len() ==> #[trigger] indices@[i] < nodes.len(),
                        idx_edges == digraph_edges(self.graph),
                        k <= indices.len(),
                        order@.len() == k,
                        forall|i: int| 0 <= i < k ==> (#[trigger] order@[i]).0 == nodes[indices@[i] as int],
                    decreases indices.len() - k,
                {
                    let weight = digraph_node_weight(&self.graph, indices[k]);
                    order.push(NodeId(weight));
                    k = k + 1;
                }
                proof {
                    lemma_index_order_weighs(nodes, idx_edges, indices@, raw_ids(order@));
                    lemma_topological_acyclic(self.view().ids, self.view().edges, raw_ids(order@));
                }
                Ok(order)
            },
            Err(_) => {
                proof {
                    let walk = choose|walk: Seq<usize>| is_index_cycle(idx_edges, walk);
                    lemma_index_cycle_weighs(nodes, idx_edges, walk);
                }
                Err(GraphError::Cycle)
            },
        }
    }
}

// ---------------------------------------------------------------------------
// Lemmas relating index-level store facts to the id-level view.

proof fn lemma_weighted_push_node(nodes: Seq<u64>, edges: Seq<(usize, usize)>, w: u64)
    requires
        edges_in_bounds(nodes, edges),
    ensures
        weighted_edges(nodes.push(w), edges) == weighted_edges(nodes, edges),
        edges_in_bounds(nodes.push(w), edges),
{
    assert(weighted_edges(nodes.push(w), edges) =~= weighted_edges(nodes, edges));
}

proof fn lemma_filter_all(edges: Seq<(u64, u64)>, id: u64)
    requires
        forall|k: int| 0 <= k < edges.len() ==> (#[trigger] edges[k]).0 != id && edges[k].1 != id,
    ensures
        edges_without(edges, id) == edges,
    decreases edges.len(),
{
    reveal_with_fuel(Seq::filter, 1);
    if edges.len() > 0 {
        lemma_filter_all(edges.drop_last(), id);
        assert(edges.drop_last().push(edges.last()) =~= edges);
    }
}

proof fn lemma_filter_len_le(edges: Seq<(usize, usize)>, a: usize)
    ensures
        edges_avoiding(edges, a).len() <= edges.len(),
{
    edges.lemma_filter_len(|e: (usize, usize)| e.0 != a && e.1 != a);
}

/// Filtering edges by index and then weighing equals weighing and then
/// filtering by the removed node's id, when ids are unique.
proof fn lemma_weighted_avoiding(nodes: Seq<u64>, edges: Seq<(usize, usize)>, a: usize, id: u64)
    requires
        nodes.no_duplicates(),
        edges_in_bounds(nodes, edges),
        a < nodes.len(),
        nodes[a as int] == id,
    ensures
        weighted_edges(nodes, edges_avoiding(edges, a)) == edges_without(weighted_edges(nodes, edges), id),
    decreases edges.len(),
{
    reveal_with_fuel(Seq::filter, 1);
    if edges.len() > 0 {
        let init = edges.drop_last();
        assert(edges_in_bounds(nodes, init));
        lemma_weighted_avoiding(nodes, init, a, id);
        assert(init.push(edges.last()) =~= edges);
        assert(weighted_edges(nodes, edges).drop_last() =~= weighted_edges(nodes, init));
        let e = edges.last();
        assert(e.0 < nodes.len() && e.1 < nodes.len());
        assert((e.0 != a) == (nodes[e.0 as int] != id));
        assert((e.1 != a) == (nodes[e.1 as int] != id));
        if e.0 != a && e.1 != a {
            assert(edges_avoiding(edges, a) =~= edges_avoiding(init, a).push(e));
            assert(weighted_edges(nodes, edges_avoiding(edges, a)) =~= weighted_edges(
                nodes,
                edges_avoiding(init, a),
            ).push(weigh(nodes, e)));
        } else {
            assert(edges_avoiding(edges, a) =~= edges_avoiding(init, a));
        }
    } else {
        assert(edges_avoiding(edges, a) =~= Seq::<(usize, usize)>::empty());
        assert(edges_without(weighted_edges(nodes, edges), id) =~= Seq::<(u64, u64)>::empty());
    }
}

/// An index-level topological order weighs to an id-level one.
proof fn lemma_index_order_weighs(
    nodes: Seq<u64>,
    edges: Seq<(usize, usize)>,
    indices: Seq<usize>,
    order: Seq<u64>,
)
    requires
        nodes.no_duplicates(),
        edges_in_bounds(nodes, edges),
        is_index_topological(nodes.len(), edges, indices),
        order.len() == indices.len(),
        forall|i: int| 0 <= i < order.len() ==> #[trigger] order[i] == nodes[indices[i] as int],
    ensures
        is_topological(nodes.to_set(), weighted_edges(nodes, edges), order),
{
    reveal(is_index_topological);
    lemma_order_unique(nodes, indices, order);
    lemma_order_covers(nodes, indices, order);
    let w = weighted_edges(nodes, edges);
    assert(w.len() == edges.len());
    assert forall|k: int| 0 <= k < w.len() implies edge_ordered(order, #[trigger] w[k]) by {
        lemma_order_edge(nodes, edges, indices, order, k);
    }
    reveal(is_topological);
    assert(is_topological(nodes.to_set(), w, order));
}

proof fn lemma_order_unique(nodes: Seq<u64>, indices: Seq<usize>, order: Seq<u64>)
    requires
        nodes.no_duplicates(),
        indices.no_duplicates(),
        forall|i: int| 0 <= i < indices.len() ==> #[trigger] indices[i] < nodes.len(),
        order.len() == indices.len(),
        forall|i: int| 0 <= i < order.len() ==> #[trigger] order[i] == nodes[indices[i] as int],
    ensures
        order.no_duplicates(),
{
    assert forall|i: int, j: int| 0 <= i < order.len() && 0 <= j < order.len() && i != j implies order[i]
        != order[j] by {
        assert(indices[i] != indices[j]);
        assert(indices[i] < nodes.len() && indices[j] < nodes.len());
    }
}

proof fn lemma_order_covers(nodes: Seq<u64>, indices: Seq<usize>, order: Seq<u64>)
    requires
        forall|i: int| 0 <= i < indices.len() ==> #[trigger] indices[i] < nodes.len(),
        forall|x: int| 0 <= x < nodes.len() ==> #[trigger] lists_index(indices, x),
        order.len() == indices.len(),
        forall|i: int| 0 <= i < order.len() ==> #[trigger] order[i] == nodes[indices[i] as int],
    ensures
        order.to_set() == nodes.to_set(),
{
    assert forall|x: u64| order.to_set().contains(x) implies nodes.to_set().contains(x) by {
        let i = choose|i: int| 0 <= i < order.len() && order[i] == x;
        assert(nodes[indices[i] as int] == x);
    }
    assert forall|x: u64| nodes.to_set().contains(x) implies order.to_set().contains(x) by {
        let p = choose|p: int| 0 <= p < nodes.len() && nodes[p] == x;
        assert(lists_index(indices, p));
        let i = choose|i: int| 0 <= i < indices.len() && indices[i] == p;
        assert(order[i] == x);
    }
    assert(order.to_set() =~= nodes.to_set());
}

proof fn lemma_order_edge(
    nodes: Seq<u64>,
    edges: Seq<(usize, usize)>,
    indices: Seq<usize>,
    order: Seq<u64>,
    k: int,
)
    requires
        0 <= k < edges.len(),
        is_index_topological(nodes.len(), edges, indices),
        order.len() == indices.len(),
        forall|i: int| 0 <= i < order.len() ==> #[trigger] order[i] == nodes[indices[i] as int],
    ensures
        edge_ordered(order, weighted_edges(nodes, edges)[k]),
{
    reveal(is_index_topological);
    let w = weighted_edges(nodes, edges);
    let e = edges[k];
    assert(index_edge_ordered(indices, edges[k]));
    let (i, j) = choose|i: int, j: int| 0 <= i < j < indices.len() && indices[i] == e.0 && indices[j] == e.1;
    assert(order[i] == w[k].0 && order[j] == w[k].1);
}

/// An index-level cycle weighs to an id-level cycle.
proof fn lemma_index_cycle_weighs(nodes: Seq<u64>, edges: Seq<(usize, usize)>, walk: Seq<usize>)
    requires
        edges_in_bounds(nodes, edges),
        is_index_cycle(edges, walk),
    ensures
        has_cycle(weighted_edges(nodes, edges)),
{
    let w = weighted_edges(nodes, edges);
    let ids = walk.map_values(|i: usize| nodes[i as int]);
    assert forall|i: int| 0 <= i < ids.len() - 1 implies w.contains((#[trigger] ids[i], ids[i + 1])) by {
        lemma_index_cycle_step(edges, walk, i);
        lemma_weighed_step(nodes, edges, walk[i], walk[i + 1]);
    }
    lemma_index_cycle_closed(edges, walk);
    lemma_make_cycle(w, ids);
}

proof fn lemma_index_cycle_step(edges: Seq<(usize, usize)>, walk: Seq<usize>, i: int)
    requires
        is_index_cycle(edges, walk),
        0 <= i < walk.len() - 1,
    ensures
        edges.contains((walk[i], walk[i + 1])),
{
    reveal(is_index_cycle);
}

proof fn lemma_index_cycle_closed(edges: Seq<(usize, usize)>, walk: Seq<usize>)
    requires
        is_index_cycle(edges, walk),
    ensures
        walk.len() >= 2,
        walk[0] == walk.last(),
{
    reveal(is_index_cycle);
}

proof fn lemma_make_cycle(edges: Seq<(u64, u64)>, walk: Seq<u64>)
    requires
        walk.len() >= 2,
        walk[0] == walk.last(),
        forall|i: int| 0 <= i < walk.len() - 1 ==> edges.contains((#[trigger] walk[i], walk[i + 1])),
    ensures
        has_cycle(edges),
{
    reveal(is_cycle);
    assert(is_cycle(edges, walk));
}

proof fn lemma_weighed_step(nodes: Seq<u64>, edges: Seq<(usize, usize)>, x: usize, y: usize)
    requires
        edges_in_bounds(nodes, edges),
        edges.contains((x, y)),
    ensures
        weighted_edges(nodes, edges).contains((nodes[x as int], nodes[y as int])),
{
    let k = choose|k: int| 0 <= k < edges.len() && edges[k] == (x, y);
    assert(weighted_edges(nodes, edges)[k] == (nodes[x as int], nodes[y as int]));
}

/// A topological order rules out every cycle.
pub proof fn lemma_topological_acyclic(ids: Set<u64>, edges: Seq<(u64, u64)>, order: Seq<u64>)
    requires
        is_topological(ids, edges, order),
    ensures
        !has_cycle(edges),
{
    if has_cycle(edges) {
        let walk = choose|walk: Seq<u64>| is_cycle(edges, walk);
        lemma_no_cycle_walk(ids, edges, order, walk);
    }
}

proof fn lemma_no_cycle_walk(ids: Set<u64>, edges: Seq<(u64, u64)>, order: Seq<u64>, walk: Seq<u64>)
    requires
        is_topological(ids, edges, order),
    ensures
        !is_cycle(edges, walk),
{
    if !is_cycle(edges, walk) {
        return;
    }
    // Positions strictly increase along every edge of the walk.
    assert forall|m: int| 0 <= m < walk.len() - 1 implies order.contains(#[trigger] walk[m]) && order.contains(
        walk[m + 1],
    ) && order.index_of(walk[m]) < order.index_of(walk[m + 1]) by {
        lemma_cycle_step(edges, walk, m);
        lemma_edge_positions(ids, edges, order, walk[m], walk[m + 1]);
    }
    lemma_cycle_closed(edges, walk);
    lemma_walk_positions_increase(order, walk, walk.len() - 1);
}

proof fn lemma_cycle_step(edges: Seq<(u64, u64)>, walk: Seq<u64>, i: int)
    requires
        is_cycle(edges, walk),
        0 <= i < walk.len() - 1,
    ensures
        edges.contains((walk[i], walk[i + 1])),
{
    reveal(is_cycle);
}

proof fn lemma_cycle_closed(edges: Seq<(u64, u64)>, walk: Seq<u64>)
    requires
        is_cycle(edges, walk),
    ensures
        walk.len() >= 2,
        walk[0] == walk.last(),
{
    reveal(is_cycle);
}

proof fn lemma_edge_positions(ids: Set<u64>, edges: Seq<(u64, u64)>, order: Seq<u64>, x: u64, y: u64)
    requires
        is_topological(ids, edges, order),
        edges.contains((x, y)),
    ensures
        order.contains(x),
        order.contains(y),
        order.index_of(x) < order.index_of(y),
{
    reveal(is_topological);
    let k = choose|k: int| 0 <= k < edges.len() && edges[k] == (x, y);
    assert(edge_ordered(order, edges[k]));
    let (i, j) = choose|i: int, j: int| 0 <= i < j < order.len() && order[i] == x && order[j] == y;
    lemma_index_of_unique(order, i);
    lemma_index_of_unique(order, j);
}

proof fn lemma_index_of_unique(order: Seq<u64>, i: int)
    requires
        order.no_duplicates(),
        0 <= i < order.len(),
    ensures
        order.contains(order[i]),
        order.index_of(order[i]) == i,
{
    assert(order.contains(order[i]));
}

proof fn lemma_walk_positions_increase(order: Seq<u64>, walk: Seq<u64>, m: int)
    requires
        1 <= m < walk.len(),
        forall|p: int| 0 <= p < walk.len() - 1 ==> order.contains(#[trigger] walk[p]) && order.contains(
            walk[p + 1],
        ) && order.index_of(walk[p]) < order.index_of(walk[p + 1]),
    ensures
        order.index_of(walk[0]) < order.index_of(walk[m]),
        m == walk.len() - 1 ==> walk[0] != walk.last(),
    decreases m,
{
    if m > 1 {
        lemma_walk_positions_increase(order, walk, m - 1);
        assert(order.index_of(walk[m - 1]) < order.index_of(walk[m]));
    } else {
        assert(order.index_of(walk[0]) < order.index_of(walk[1]));
    }
}

impl Default for NodeGraph {
    /// An empty graph, as [`NodeGraph::new`].
    fn default() -> (graph: Self)
        ensures
            graph.wf(),
            graph.view().ids == Set::<u64>::empty(),
            graph.view().edges == Seq::<(u64, u64)>::empty(),
    {
        NodeGraph::new()
    }
}

} // verus!
