//! The operator network: named, positioned operators over the dependency
//! store, edited by intents and captured whole by versioned snapshots (the
//! persistence and undo unit).
//!
//! Ids are issued starting at 1; `NodeId(0)` is never issued (it is the
//! boundary's "root parent" sentinel). Every successful mutation bumps the
//! epoch exactly once; a failed one leaves the whole graph untouched.

use std::collections::{HashMap, HashSet};
use vstd::prelude::*;
use vstd::std_specs::hash::spec_keys_iter;
use vstd::std_specs::iter::IteratorSpec;

use crate::domain::NodeId;
use crate::node_graph::{raw_pairs, GraphError, GraphErrorView, NodeGraph};
use crate::params::{
    raw_parent, Operator, OperatorKind, OperatorView, ParamValue, ParamValueView, Position,
};
use crate::text::{is_blank, lemma_trim_blank, spec_trim, str_eq, str_is_blank, trimmed};

verus! {

broadcast use vstd::std_specs::hash::group_hash_axioms;

/// `version` tag written into every [`GraphSnapshot`]: the polygon-epoch
/// wire. Restores accept it and the previous version.
pub const GRAPH_SNAPSHOT_VERSION: u32 = 3;

/// Previous wire version, still accepted by [`OperatorGraph::restore`].
const GRAPH_SNAPSHOT_PREVIOUS_VERSION: u32 = 2;

/// Name assigned to an operator at creation.
pub const DEFAULT_OPERATOR_NAME: &'static str = "Container";

/// Characters of [`DEFAULT_OPERATOR_NAME`].
pub open spec fn default_name() -> Seq<char> {
    seq!['C', 'o', 'n', 't', 'a', 'i', 'n', 'e', 'r']
}

/// Characters of the parameter key reserved for the display name.
pub open spec fn name_key() -> Seq<char> {
    seq!['n', 'a', 'm', 'e']
}

/// Serializable snapshot of DAG topology.
#[derive(Debug, Clone, PartialEq, Eq)]
pub struct GraphTopology {
    /// Node ids in the graph.
    pub nodes: Vec<NodeId>,
    /// `(depends_on, dependent)` edges.
    pub edges: Vec<(NodeId, NodeId)>,
}

impl Default for GraphTopology {
    fn default() -> (topology: Self)
        ensures
            topology.nodes@.len() == 0,
            topology.edges@.len() == 0,
    {
        GraphTopology { nodes: Vec::new(), edges: Vec::new() }
    }
}

/// Serializable mirror of [`Operator`] inside a [`GraphSnapshot`]: one
/// format serves persistence and undo, so the shapes are identical.
pub type OperatorSnapshot = Operator;

/// Versioned whole-graph snapshot: the persistence and undo unit.
#[derive(Debug, Clone, PartialEq)]
pub struct GraphSnapshot {
    /// Format version; [`GRAPH_SNAPSHOT_VERSION`] when taken by
    /// [`OperatorGraph::snapshot`].
    pub version: u32,
    /// Every operator in the graph, sorted by id.
    pub operators: Vec<OperatorSnapshot>,
    /// Dependency edges.
    pub edges: Vec<(NodeId, NodeId)>,
}

/// Abstract value of a [`GraphSnapshot`].
pub struct GraphSnapshotView {
    /// Format version.
    pub version: u32,
    /// Operators in stored order.
    pub operators: Seq<OperatorView>,
    /// Dependency edges as id pairs.
    pub edges: Seq<(u64, u64)>,
}

impl GraphSnapshot {
    /// Abstract value.
    pub open spec fn view(&self) -> GraphSnapshotView {
        GraphSnapshotView {
            version: self.version,
            operators: self.operators@.map_values(|o: Operator| o.view()),
            edges: raw_pairs(self.edges@),
        }
    }

    /// Every operator's parameter map is well formed.
    pub open spec fn wf(&self) -> bool {
        forall|i: int| 0 <= i < self.operators@.len() ==> (#[trigger] self.operators@[i]).wf()
    }
}

impl Default for GraphSnapshot {
    fn default() -> (snapshot: Self)
        ensures
            snapshot.version == 0,
            snapshot.operators@.len() == 0,
            snapshot.edges@.len() == 0,
    {
        GraphSnapshot { version: 0, operators: Vec::new(), edges: Vec::new() }
    }
}

/// Abstract state of an [`OperatorGraph`].
pub struct OperatorGraphView {
    /// Operators by id.
    pub operators: Map<u64, OperatorView>,
    /// Dependency edges as id pairs.
    pub edges: Seq<(u64, u64)>,
    /// Id the next created operator receives.
    pub next_id: u64,
    /// Mutation stamp.
    pub epoch: u64,
}

/// `n + 1`, holding at `u64::MAX`.
pub open spec fn saturating_next(n: u64) -> u64 {
    if n == u64::MAX {
        n
    } else {
        (n + 1) as u64
    }
}

/// Whether no parameter key is blank.
pub open spec fn keys_not_blank(parameters: Map<Seq<char>, ParamValueView>) -> bool {
    forall|k: Seq<char>| #[trigger] parameters.contains_key(k) ==> !is_blank(k)
}

/// What every reachable graph satisfies: ids are their keys, never 0 and
/// below the next id (unless issuance saturated); names and parameter keys
/// are never blank; parents and edge endpoints name operators.
pub open spec fn graph_view_wf(v: OperatorGraphView) -> bool {
    &&& v.operators.dom().finite()
    &&& v.next_id >= 1
    &&& !v.operators.contains_key(0)
    &&& forall|k: u64| #[trigger]
        v.operators.contains_key(k) ==> {
            &&& v.operators[k].id == k
            &&& (k < v.next_id || v.next_id == u64::MAX)
            &&& !is_blank(v.operators[k].name)
            &&& keys_not_blank(v.operators[k].parameters)
            &&& (v.operators[k].parent matches Some(p) ==> v.operators.contains_key(p))
        }
    &&& forall|i: int|
        0 <= i < v.edges.len() ==> v.operators.contains_key((#[trigger] v.edges[i]).0)
            && v.operators.contains_key(v.edges[i].1)
}

/// The error a call reported, by value; `None` for success.
pub open spec fn error_of<T>(result: Result<T, GraphError>) -> Option<GraphErrorView> {
    match result {
        Ok(_) => None,
        Err(e) => Some(e.view()),
    }
}

/// The state with the epoch bumped once.
pub open spec fn bumped(v: OperatorGraphView) -> OperatorGraphView {
    OperatorGraphView {
        operators: v.operators,
        edges: v.edges,
        next_id: v.next_id,
        epoch: saturating_next(v.epoch),
    }
}

/// The state with operator `id` replaced by `op`, epoch bumped.
pub open spec fn replaced(v: OperatorGraphView, id: u64, op: OperatorView) -> OperatorGraphView {
    bumped(
        OperatorGraphView {
            operators: v.operators.insert(id, op),
            edges: v.edges,
            next_id: v.next_id,
            epoch: v.epoch,
        },
    )
}

/// Error of an intent naming operator `id`: unknown unless present.
pub open spec fn lookup_error(v: OperatorGraphView, id: u64) -> Option<GraphErrorView> {
    if v.operators.contains_key(id) {
        None
    } else {
        Some(GraphErrorView::UnknownNode(id))
    }
}

/// Error of a create: an absent parent is unknown.
pub open spec fn create_error(v: OperatorGraphView, parent: Option<u64>) -> Option<GraphErrorView> {
    match parent {
        Some(p) => lookup_error(v, p),
        None => None,
    }
}

/// State after a successful create: the next id names a fresh operator
/// with the default name and no parameters; issuance advances.
pub open spec fn created(
    v: OperatorGraphView,
    kind: OperatorKind,
    parent: Option<u64>,
    position: Position,
) -> OperatorGraphView {
    OperatorGraphView {
        operators: v.operators.insert(
            v.next_id,
            OperatorView {
                id: v.next_id,
                kind,
                name: default_name(),
                parent,
                position,
                parameters: Map::empty(),
            },
        ),
        edges: v.edges,
        next_id: saturating_next(v.next_id),
        epoch: saturating_next(v.epoch),
    }
}

/// State after a successful move.
pub open spec fn moved(v: OperatorGraphView, id: u64, position: Position) -> OperatorGraphView {
    let op = v.operators[id];
    replaced(
        v,
        id,
        OperatorView {
            id: op.id,
            kind: op.kind,
            name: op.name,
            parent: op.parent,
            position,
            parameters: op.parameters,
        },
    )
}

/// Error of a rename: unknown id first, then a blank name.
pub open spec fn rename_error(v: OperatorGraphView, id: u64, name: Seq<char>) -> Option<
    GraphErrorView,
> {
    if !v.operators.contains_key(id) {
        Some(GraphErrorView::UnknownNode(id))
    } else if is_blank(name) {
        Some(GraphErrorView::EmptyName)
    } else {
        None
    }
}

/// State after a successful rename: the name is stored verbatim.
pub open spec fn renamed(v: OperatorGraphView, id: u64, name: Seq<char>) -> OperatorGraphView {
    let op = v.operators[id];
    replaced(
        v,
        id,
        OperatorView {
            id: op.id,
            kind: op.kind,
            name,
            parent: op.parent,
            position: op.position,
            parameters: op.parameters,
        },
    )
}

/// Error of a typed parameter write: unknown id, then a blank key, then
/// the reserved `name` key (reported trimmed).
pub open spec fn set_value_error(v: OperatorGraphView, id: u64, key: Seq<char>) -> Option<
    GraphErrorView,
> {
    if !v.operators.contains_key(id) {
        Some(GraphErrorView::UnknownNode(id))
    } else if is_blank(key) {
        Some(GraphErrorView::EmptyParameterKey)
    } else if spec_trim(key) == name_key() {
        Some(GraphErrorView::ReservedParameterKey(spec_trim(key)))
    } else {
        None
    }
}

/// State after a successful typed write: the trimmed key maps to `value`.
pub open spec fn value_set(
    v: OperatorGraphView,
    id: u64,
    key: Seq<char>,
    value: ParamValueView,
) -> OperatorGraphView {
    let op = v.operators[id];
    replaced(
        v,
        id,
        OperatorView {
            id: op.id,
            kind: op.kind,
            name: op.name,
            parent: op.parent,
            position: op.position,
            parameters: op.parameters.insert(spec_trim(key), value),
        },
    )
}

/// Error of a text parameter write: a trimmed `name` key renames.
pub open spec fn set_parameter_error(
    v: OperatorGraphView,
    id: u64,
    key: Seq<char>,
    value: Seq<char>,
) -> Option<GraphErrorView> {
    if spec_trim(key) == name_key() {
        rename_error(v, id, value)
    } else {
        set_value_error(v, id, key)
    }
}

/// State after a successful text parameter write.
pub open spec fn parameter_set(
    v: OperatorGraphView,
    id: u64,
    key: Seq<char>,
    value: Seq<char>,
) -> OperatorGraphView {
    if spec_trim(key) == name_key() {
        renamed(v, id, value)
    } else {
        value_set(v, id, key, ParamValueView::Text(value))
    }
}

/// Whether `chain` walks parent links: every entry but the last is an
/// operator whose parent is the next entry.
pub open spec fn parent_chain(ops: Map<u64, OperatorView>, chain: Seq<u64>) -> bool {
    &&& chain.len() >= 1
    &&& forall|i: int|
        0 <= i < chain.len() - 1 ==> ops.contains_key(#[trigger] chain[i]) && ops[chain[i]].parent
            == Some(chain[i + 1])
}

/// Whether operator `k` lies in the subtree rooted at `root` (the root
/// included): its parent links lead to `root`.
pub open spec fn in_subtree(ops: Map<u64, OperatorView>, root: u64, k: u64) -> bool {
    &&& ops.contains_key(k)
    &&& exists|chain: Seq<u64>| #[trigger] parent_chain(ops, chain) && chain[0] == k && chain.last() == root
}

/// The operators whose parent links lead to `root`, `root` included.
pub open spec fn subtree(ops: Map<u64, OperatorView>, root: u64) -> Set<u64> {
    Set::new(|k: u64| in_subtree(ops, root, k))
}

/// Edges with neither endpoint in `removed`, in their original order.
pub open spec fn surviving_edges(edges: Seq<(u64, u64)>, removed: Set<u64>) -> Seq<(u64, u64)> {
    edges.filter(survives(removed))
}

/// Whether an edge has neither endpoint in `removed`.
pub open spec fn survives(removed: Set<u64>) -> spec_fn((u64, u64)) -> bool {
    |e: (u64, u64)| !removed.contains(e.0) && !removed.contains(e.1)
}

/// Whether ids strictly ascend along `ops`.
pub open spec fn ids_ascending(ops: Seq<OperatorView>) -> bool {
    forall|i: int, j: int| 0 <= i < j < ops.len() ==> (#[trigger] ops[i]).id < (#[trigger] ops[j]).id
}

/// Whether some entry of `ops` carries id `k`.
pub open spec fn lists_id(ops: Seq<OperatorView>, k: u64) -> bool {
    exists|i: int| 0 <= i < ops.len() && (#[trigger] ops[i]).id == k
}

/// The ids carried by `ops`.
pub open spec fn snapshot_ids(ops: Seq<OperatorView>) -> Set<u64> {
    Set::new(|k: u64| lists_id(ops, k))
}

/// The entries of `ops` by id (meaningful when ids do not repeat).
pub open spec fn operators_by_id(ops: Seq<OperatorView>) -> Map<u64, OperatorView> {
    Map::new(
        |k: u64| lists_id(ops, k),
        |k: u64| ops[choose|i: int| 0 <= i < ops.len() && (#[trigger] ops[i]).id == k],
    )
}

/// Whether `s` is the snapshot of state `v`: the current version, every
/// operator once in ascending id order, and the edges in store order.
pub open spec fn is_snapshot_of(s: GraphSnapshotView, v: OperatorGraphView) -> bool {
    &&& s.version == GRAPH_SNAPSHOT_VERSION
    &&& ids_ascending(s.operators)
    &&& operators_by_id(s.operators) == v.operators
    &&& s.edges == v.edges
}

/// What is wrong with entry `i` of a snapshot's operators, checked in
/// this order: a repeated id, the zero id, a blank name, a blank
/// parameter key, a parent that is not among the snapshot's ids.
pub open spec fn operator_error(ops: Seq<OperatorView>, i: int) -> Option<GraphErrorView> {
    let op = ops[i];
    if exists|j: int| 0 <= j < i && (#[trigger] ops[j]).id == op.id {
        Some(GraphErrorView::DuplicateNode(op.id))
    } else if op.id == 0 {
        Some(GraphErrorView::UnknownNode(0))
    } else if is_blank(op.name) {
        Some(GraphErrorView::EmptyName)
    } else if !keys_not_blank(op.parameters) {
        Some(GraphErrorView::EmptyParameterKey)
    } else if op.parent matches Some(p) && !lists_id(ops, p) {
        Some(GraphErrorView::UnknownNode(op.parent.unwrap()))
    } else {
        None
    }
}

/// The first error among the operators from entry `i` on.
pub open spec fn operators_error(ops: Seq<OperatorView>, i: int) -> Option<GraphErrorView>
    decreases ops.len() - i,
{
    if i < 0 || i >= ops.len() {
        None
    } else if operator_error(ops, i) is Some {
        operator_error(ops, i)
    } else {
        operators_error(ops, i + 1)
    }
}

/// What is wrong with an edge: an endpoint that is not among `ids`,
/// source first.
pub open spec fn edge_error(ids: Set<u64>, e: (u64, u64)) -> Option<GraphErrorView> {
    if !ids.contains(e.0) {
        Some(GraphErrorView::UnknownNode(e.0))
    } else if !ids.contains(e.1) {
        Some(GraphErrorView::UnknownNode(e.1))
    } else {
        None
    }
}

/// The first error among the edges from position `k` on.
pub open spec fn edges_error(ids: Set<u64>, edges: Seq<(u64, u64)>, k: int) -> Option<GraphErrorView>
    decreases edges.len() - k,
{
    if k < 0 || k >= edges.len() {
        None
    } else if edge_error(ids, edges[k]) is Some {
        edge_error(ids, edges[k])
    } else {
        edges_error(ids, edges, k + 1)
    }
}

/// Why a snapshot cannot be restored, if it cannot: an unsupported
/// version, else the first bad operator, else the first bad edge.
pub open spec fn restore_error(s: GraphSnapshotView) -> Option<GraphErrorView> {
    if s.version != GRAPH_SNAPSHOT_VERSION && s.version != GRAPH_SNAPSHOT_VERSION - 1 {
        Some(GraphErrorView::UnsupportedVersion(s.version))
    } else if operators_error(s.operators, 0) is Some {
        operators_error(s.operators, 0)
    } else {
        edges_error(snapshot_ids(s.operators), s.edges, 0)
    }
}

/// The largest id in `ops`, 0 when empty.
pub open spec fn max_id(ops: Seq<OperatorView>) -> u64
    decreases ops.len(),
{
    if ops.len() == 0 {
        0
    } else if ops.last().id > max_id(ops.drop_last()) {
        ops.last().id
    } else {
        max_id(ops.drop_last())
    }
}

/// State after a successful restore: the snapshot's operators and edges,
/// issuance continuing past the largest id, the epoch bumped once.
pub open spec fn restored(v: OperatorGraphView, s: GraphSnapshotView) -> OperatorGraphView {
    OperatorGraphView {
        operators: operators_by_id(s.operators),
        edges: s.edges,
        next_id: if s.operators.len() == 0 {
            1
        } else {
            saturating_next(max_id(s.operators))
        },
        epoch: saturating_next(v.epoch),
    }
}

/// Procedural operator network over the dependency store.
#[derive(Debug)]
pub struct OperatorGraph {
    topology: NodeGraph,
    operators: HashMap<u64, Operator>,
    next_id: u64,
    epoch: u64,
}

impl OperatorGraph {
    /// Abstract state.
    pub closed spec fn view(&self) -> OperatorGraphView {
        OperatorGraphView {
            operators: self.operators@.map_values(|o: Operator| o.view()),
            edges: self.topology.view().edges,
            next_id: self.next_id,
            epoch: self.epoch,
        }
    }

    /// The store holds exactly the operators' ids, every parameter map is
    /// well formed, and the abstract state is well formed.
    pub closed spec fn wf(&self) -> bool {
        &&& self.topology.wf()
        &&& self.topology.view().ids == self.operators@.dom()
        &&& forall|k: u64| #[trigger] self.operators@.contains_key(k) ==> self.operators@[k].wf()
        &&& graph_view_wf(self.view())
    }

    proof fn lemma_wf_parts(&self)
        requires
            self.wf(),
        ensures
            self.topology.node_total() == self.view().operators.len(),
            self.operators@.len() == self.view().operators.len(),
            self.view().operators.dom() == self.operators@.dom(),
    {
        self.topology.lemma_node_total();
        assert(self.view().operators.dom() =~= self.operators@.dom());
    }

    /// A well-formed graph's abstract state is well formed.
    pub proof fn lemma_view_wf(&self)
        requires
            self.wf(),
        ensures
            graph_view_wf(self.view()),
    {
    }

    /// Create an empty operator graph; the first issued id is `NodeId(1)`.
    pub fn new() -> (graph: Self)
        ensures
            graph.wf(),
            graph.view().operators == Map::<u64, OperatorView>::empty(),
            graph.view().edges == Seq::<(u64, u64)>::empty(),
            graph.view().next_id == 1,
            graph.view().epoch == 0,
    {
        let graph = OperatorGraph {
            topology: NodeGraph::new(),
            operators: HashMap::new(),
            next_id: 1,
            epoch: 0,
        };
        assert(graph.view().operators =~= Map::<u64, OperatorView>::empty());
        assert(graph.topology.view().ids =~= graph.operators@.dom());
        graph
    }

    /// Mutation stamp: the tick loop recooks only while this differs from
    /// the last-cooked value it tracks.
    pub fn epoch(&self) -> (epoch: u64)
        ensures
            epoch == self.view().epoch,
    {
        self.epoch
    }

    fn bump_epoch(&mut self)
        ensures
            final(self).epoch == saturating_next(old(self).epoch),
            final(self).topology == old(self).topology,
            final(self).operators == old(self).operators,
            final(self).next_id == old(self).next_id,
    {
        self.epoch = self.epoch.saturating_add(1);
    }

    /// Number of operators in the graph.
    pub fn len(&self) -> (n: usize)
        requires
            self.wf(),
        ensures
            n == self.view().operators.len(),
    {
        proof {
            self.lemma_wf_parts();
        }
        self.operators.len()
    }

    /// Whether the graph holds no operators.
    pub fn is_empty(&self) -> (empty: bool)
        requires
            self.wf(),
        ensures
            empty == (self.view().operators.len() == 0),
    {
        proof {
            self.lemma_wf_parts();
        }
        self.operators.len() == 0
    }

    /// Look up an operator by id.
    pub fn operator(&self, id: NodeId) -> (found: Option<&Operator>)
        requires
            self.wf(),
        ensures
            found is Some <==> self.view().operators.contains_key(id.0),
            found matches Some(op) ==> op.view() == self.view().operators[id.0] && op.wf(),
    {
        self.operators.get(&id.0)
    }

    /// Borrow the underlying dependency store (for evaluation order).
    pub fn topology(&self) -> (topology: &NodeGraph)
        requires
            self.wf(),
        ensures
            topology.wf(),
            topology.view().ids == self.view().operators.dom(),
            topology.view().edges == self.view().edges,
    {
        proof {
            self.lemma_wf_parts();
        }
        &self.topology
    }

    /// Replace the operator stored under an id that is present.
    fn replace_operator(&mut self, operator: Operator)
        requires
            old(self).wf(),
            old(self).operators@.contains_key(operator.id.0),
            operator.wf(),
            operator.view().id == operator.id.0,
            !is_blank(operator.view().name),
            keys_not_blank(operator.view().parameters),
            operator.view().parent == old(self).view().operators[operator.id.0].parent,
        ensures
            final(self).wf(),
            final(self).view() == replaced(old(self).view(), operator.id.0, operator.view()),
    {
        let ghost old_view = self.view();
        let ghost op_view = operator.view();
        let key = operator.id.0;
        self.operators.insert(key, operator);
        self.bump_epoch();
        proof {
            assert(self.operators@.dom() =~= old(self).operators@.dom());
            assert(self.view().operators =~= old_view.operators.insert(key, op_view));
            assert(self.view() == replaced(old_view, key, op_view));
        }
    }

    /// Create an operator with the default name, returning its fresh id.
    ///
    /// Fails with [`GraphError::UnknownNode`] when `parent` names an
    /// operator that does not exist.
    pub fn create_operator(
        &mut self,
        kind: OperatorKind,
        parent: Option<NodeId>,
        position: Position,
    ) -> (result: Result<NodeId, GraphError>)
        requires
            old(self).wf(),
            old(self).view().operators.len() < u32::MAX,
        ensures
            final(self).wf(),
            error_of(result) == create_error(old(self).view(), raw_parent(parent)),
            result matches Ok(id) ==> id.0 == old(self).view().next_id,
            result matches Ok(id) ==> {
                &&& final(self).view().operators.contains_key(id.0)
                &&& final(self).view().operators[id.0].position == position
                &&& final(self).view().operators[id.0].kind == kind
                &&& final(self).view().operators[id.0].parent == raw_parent(parent)
            },
            final(self).view() == if result is Ok {
                created(old(self).view(), kind, raw_parent(parent), position)
            } else {
                old(self).view()
            },
    {
        if let Some(p) = parent {
            if !self.operators.contains_key(&p.0) {
                return Err(GraphError::UnknownNode(p));
            }
        }
        proof {
            self.lemma_wf_parts();
            reveal_strlit("Container");
        }
        let ghost old_view = self.view();
        let id = NodeId(self.next_id);
        self.next_id = self.next_id.saturating_add(1);
        self.topology.insert_node(id);
        let operator = Operator::new(id, kind, DEFAULT_OPERATOR_NAME, parent, position);
        let ghost op_view = operator.view();
        assert(op_view.name == default_name());
        self.operators.insert(id.0, operator);
        self.bump_epoch();
        proof {
            assert(self.view().operators =~= old_view.operators.insert(id.0, op_view));
            assert(self.topology.view().ids =~= self.operators@.dom());
            assert(!is_blank(default_name())) by {
                assert(!crate::text::is_white_space(default_name()[0]));
            }
            assert(keys_not_blank(op_view.parameters));
            let v = self.view();
            assert forall|k: u64| #[trigger] v.operators.contains_key(k) implies {
                &&& v.operators[k].id == k
                &&& (k < v.next_id || v.next_id == u64::MAX)
                &&& !is_blank(v.operators[k].name)
                &&& keys_not_blank(v.operators[k].parameters)
                &&& (v.operators[k].parent matches Some(p) ==> v.operators.contains_key(p))
            } by {
                if k != id.0 {
                    assert(old_view.operators.contains_key(k));
                }
            }
            assert forall|i: int| 0 <= i < v.edges.len() implies v.operators.contains_key(
                (#[trigger] v.edges[i]).0,
            ) && v.operators.contains_key(v.edges[i].1) by {
                assert(old_view.edges[i] == v.edges[i]);
            }
            assert(v == created(old_view, kind, raw_parent(parent), position));
        }
        Ok(id)
    }

    /// Move an operator to a new canvas position.
    ///
    /// Fails with [`GraphError::UnknownNode`] when `id` is not in the graph.
    pub fn move_operator(&mut self, id: NodeId, position: Position) -> (result: Result<(), GraphError>)
        requires
            old(self).wf(),
        ensures
            final(self).wf(),
            error_of(result) == lookup_error(old(self).view(), id.0),
            final(self).view() == if result is Ok {
                moved(old(self).view(), id.0, position)
            } else {
                old(self).view()
            },
    {
        match self.operators.get(&id.0) {
            None => Err(GraphError::UnknownNode(id)),
            Some(current) => {
                let operator = Operator {
                    id: current.id,
                    kind: current.kind,
                    name: current.name.clone(),
                    parent: current.parent,
                    position,
                    parameters: current.parameters.duplicate(),
                };
                self.replace_operator(operator);
                Ok(())
            },
        }
    }

    /// Rename an operator; the name is stored verbatim.
    ///
    /// Fails with [`GraphError::UnknownNode`] when `id` is not in the graph,
    /// else [`GraphError::EmptyName`] when `name` is empty or blank.
    pub fn rename_operator(&mut self, id: NodeId, name: &str) -> (result: Result<(), GraphError>)
        requires
            old(self).wf(),
        ensures
            final(self).wf(),
            error_of(result) == rename_error(old(self).view(), id.0, name@),
            final(self).view() == if result is Ok {
                renamed(old(self).view(), id.0, name@)
            } else {
                old(self).view()
            },
    {
        match self.operators.get(&id.0) {
            None => Err(GraphError::UnknownNode(id)),
            Some(current) => {
                if str_is_blank(name) {
                    return Err(GraphError::EmptyName);
                }
                let operator = Operator {
                    id: current.id,
                    kind: current.kind,
                    name: String::from_str(name),
                    parent: current.parent,
                    position: current.position,
                    parameters: current.parameters.duplicate(),
                };
                self.replace_operator(operator);
                Ok(())
            },
        }
    }

    /// Set a typed parameter value. The key is trimmed, the value stored
    /// verbatim.
    ///
    /// Fails with [`GraphError::UnknownNode`] when `id` is not in the graph,
    /// else [`GraphError::EmptyParameterKey`] when `key` is empty or blank,
    /// else [`GraphError::ReservedParameterKey`] for the `name` key, which
    /// only rename may write.
    pub fn set_parameter_value(&mut self, id: NodeId, key: &str, value: ParamValue) -> (result:
        Result<(), GraphError>)
        requires
            old(self).wf(),
        ensures
            final(self).wf(),
            error_of(result) == set_value_error(old(self).view(), id.0, key@),
            final(self).view() == if result is Ok {
                value_set(old(self).view(), id.0, key@, value.view())
            } else {
                old(self).view()
            },
    {
        match self.operators.get(&id.0) {
            None => Err(GraphError::UnknownNode(id)),
            Some(current) => {
                let trimmed_key = trimmed(key);
                proof {
                    lemma_trim_blank(key@);
                }
                if str_is_blank(key) {
                    return Err(GraphError::EmptyParameterKey);
                }
                proof {
                    reveal_strlit("name");
                    assert("name"@ =~= name_key());
                }
                if str_eq(trimmed_key.as_str(), "name") {
                    return Err(GraphError::ReservedParameterKey(trimmed_key));
                }
                let ghost value_view = value.view();
                let mut parameters = current.parameters.duplicate();
                parameters.insert(trimmed_key, value);
                let operator = Operator {
                    id: current.id,
                    kind: current.kind,
                    name: current.name.clone(),
                    parent: current.parent,
                    position: current.position,
                    parameters,
                };
                proof {
                    let params = operator.view().parameters;
                    assert forall|k: Seq<char>| #[trigger] params.contains_key(k) implies !is_blank(
                        k,
                    ) by {
                        if k == spec_trim(key@) {
                            assert(!crate::text::is_white_space(k[0]));
                        } else {
                            assert(current.view().parameters.contains_key(k));
                        }
                    }
                }
                self.replace_operator(operator);
                Ok(())
            },
        }
    }

    /// Ids of the operators whose parent is `parent`.
    fn children_of(&self, parent: u64) -> (children: Vec<u64>)
        ensures
            forall|c: u64|
                children@.contains(c) <==> (self.operators@.contains_key(c)
                    && self.operators@[c].view().parent == Some(parent)),
    {
        let keys = keys_of(&self.operators);
        let mut children: Vec<u64> = Vec::new();
        let mut i: usize = 0;
        while i < keys.len()
            invariant
                i <= keys@.len(),
                keys@.to_set() == self.operators@.dom(),
                forall|c: u64|
                    children@.contains(c) <==> (exists|j: int| 0 <= j < i && keys@[j] == c)
                        && self.operators@[c].view().parent == Some(parent),
            decreases keys@.len() - i,
        {
            let k = keys[i];
            assert(keys@.to_set().contains(k)) by {
                assert(keys@.contains(k));
            }
            let is_child = match self.operators.get(&k) {
                Some(op) => match op.parent {
                    Some(p) => p.0 == parent,
                    None => false,
                },
                None => false,
            };
            let ghost before = children@;
            if is_child {
                children.push(k);
            }
            proof {
                assert forall|c: u64|
                    children@.contains(c) <==> (exists|j: int| 0 <= j < i + 1 && keys@[j] == c)
                        && self.operators@[c].view().parent == Some(parent) by {
                    if children@.contains(c) && !before.contains(c) {
                        assert(keys@[i as int] == c);
                    }
                    if (exists|j: int| 0 <= j < i + 1 && keys@[j] == c) && self.operators@[c].view().parent
                        == Some(parent) {
                        let j = choose|j: int| 0 <= j < i + 1 && keys@[j] == c;
                        if j == i {
                            assert(children@.contains(c)) by {
                                assert(children@[children@.len() - 1] == c);
                            }
                        } else {
                            assert(before.contains(c));
                            let m = choose|m: int| 0 <= m < before.len() && before[m] == c;
                            assert(children@[m] == c);
                        }
                    }
                }
            }
            i = i + 1;
        }
        proof {
            assert forall|c: u64|
                children@.contains(c) <==> (self.operators@.contains_key(c)
                    && self.operators@[c].view().parent == Some(parent)) by {
                if self.operators@.contains_key(c) {
                    assert(keys@.to_set().contains(c));
                    let j = choose|j: int| 0 <= j < keys@.len() && keys@[j] == c;
                    assert(exists|j: int| 0 <= j < i && keys@[j] == c);
                }
                if exists|j: int| 0 <= j < i && keys@[j] == c {
                    let j = choose|j: int| 0 <= j < i && keys@[j] == c;
                    assert(keys@.contains(c));
                }
            }
        }
        children
    }

    /// Delete an operator and its whole subtree: every operator whose
    /// parent links lead to `id`, and the edges touching any of them. The
    /// visited set keeps termination even if parent links form a cycle.
    ///
    /// Fails with [`GraphError::UnknownNode`] when `id` is not in the graph.
    pub fn delete_operator(&mut self, id: NodeId) -> (result: Result<(), GraphError>)
        requires
            old(self).wf(),
        ensures
            final(self).wf(),
            error_of(result) == lookup_error(old(self).view(), id.0),
            result is Err ==> final(self).view() == old(self).view(),
            result is Ok ==> {
                let removed = subtree(old(self).view().operators, id.0);
                &&& final(self).view().operators == old(self).view().operators.remove_keys(removed)
                &&& final(self).view().edges.to_multiset() == surviving_edges(
                    old(self).view().edges,
                    removed,
                ).to_multiset()
                &&& final(self).view().next_id == old(self).view().next_id
                &&& final(self).view().epoch == saturating_next(old(self).view().epoch)
            },
    {
        if !self.operators.contains_key(&id.0) {
            return Err(GraphError::UnknownNode(id));
        }
        let ghost o = self.view();
        let ghost removed = subtree(o.operators, id.0);
        proof {
            self.lemma_wf_parts();
            assert(removed.subset_of(o.operators.dom()));
            vstd::set_lib::lemma_len_subset(removed, o.operators.dom());
            assert(o.operators.contains_key(id.0));
            let single = seq![id.0];
            assert(single[0] == id.0 && single.last() == id.0);
            assert(parent_chain(o.operators, single));
            assert(in_subtree(o.operators, id.0, id.0));
            assert(removed.contains(id.0));
            assert forall|e: (u64, u64)| #[trigger] surviving_edges(o.edges, Set::<u64>::empty()).to_multiset().count(e)
                == o.edges.to_multiset().count(e) by {
                lemma_filter_count(o.edges, survives(Set::<u64>::empty()), e);
            }
            assert(surviving_edges(o.edges, Set::<u64>::empty()).to_multiset() =~= o.edges.to_multiset());
        }
        let mut stack: Vec<u64> = Vec::new();
        stack.push(id.0);
        let mut visited: HashSet<u64> = HashSet::new();
        assert(stack@[0] == id.0);
        while stack.len() > 0
            invariant
                self.topology.wf(),
                self.topology.view().ids == self.operators@.dom(),
                forall|k: u64| #[trigger]
                    self.operators@.contains_key(k) ==> old(self).operators@.contains_key(k)
                        && self.operators@[k] == old(self).operators@[k],
                forall|k: u64| #[trigger]
                    old(self).operators@.contains_key(k) ==> (self.operators@.contains_key(k)
                        <==> !visited@.contains(k)),
                o == old(self).view(),
                removed == subtree(o.operators, id.0),
                removed.finite(),
                visited@.finite(),
                visited@.subset_of(removed),
                visited@.len() <= removed.len(),
                forall|i: int| 0 <= i < stack@.len() ==> removed.contains(#[trigger] stack@[i]),
                visited@.contains(id.0) || stack@.contains(id.0),
                forall|x: u64, c: u64|
                    #![trigger visited@.contains(x), o.operators[c]]
                    visited@.contains(x) && o.operators.contains_key(c) && o.operators[c].parent == Some(
                        x,
                    ) ==> visited@.contains(c) || stack@.contains(c),
                self.topology.view().edges.to_multiset() == surviving_edges(o.edges, visited@).to_multiset(),
                self.next_id == old(self).next_id,
                self.epoch == old(self).epoch,
            decreases removed.len() - visited@.len(), stack@.len(),
        {
            let ghost stack_before = stack@;
            let current = stack.pop().unwrap();
            let ghost visited_before = visited@;
            proof {
                assert(stack_before =~= stack@.push(current));
            }
            if !visited.insert(current) {
                proof {
                    assert forall|x: u64, c: u64|
                        #![trigger visited@.contains(x), o.operators[c]]
                        visited@.contains(x) && o.operators.contains_key(c) && o.operators[c].parent
                            == Some(x) implies visited@.contains(c) || stack@.contains(c) by {
                        if !visited@.contains(c) {
                            assert(stack_before.contains(c));
                            let j = choose|j: int| 0 <= j < stack_before.len() && stack_before[j] == c;
                            assert(j < stack@.len());
                            assert(stack@[j] == c);
                        }
                    }
                    if !visited@.contains(id.0) {
                        let j = choose|j: int| 0 <= j < stack_before.len() && stack_before[j] == id.0;
                        assert(j < stack@.len());
                        assert(stack@[j] == id.0);
                    }
                    assert forall|i: int| 0 <= i < stack@.len() implies removed.contains(#[trigger] stack@[i]) by {
                        assert(stack_before[i] == stack@[i]);
                    }
                    assert(visited@ =~= visited_before);
                }
                continue;
            }
            let children = self.children_of(current);
            let ghost kids = children@;
            let ghost ops_before = self.operators@;
            let ghost edges_before = self.topology.view().edges;
            proof {
                assert(removed.contains(current)) by {
                    assert(stack_before[stack_before.len() - 1] == current);
                }
                assert(o.operators.contains_key(current));
                assert(self.operators@.contains_key(current));
                vstd::set_lib::lemma_len_subset(visited@, removed);
            }
            let mut children = children;
            stack.append(&mut children);
            self.operators.remove(&current);
            let _ = self.topology.remove_node(NodeId(current));
            proof {
                assert(stack@ =~= stack_before.drop_last() + kids);
                assert forall|k: u64| #[trigger] self.operators@.contains_key(k) implies old(
                    self,
                ).operators@.contains_key(k) && self.operators@[k] == old(self).operators@[k] by {
                    assert(ops_before.contains_key(k));
                }
                assert(self.topology.view().ids =~= self.operators@.dom());
                assert forall|i: int| 0 <= i < stack@.len() implies removed.contains(#[trigger] stack@[i]) by {
                    if i < stack_before.len() - 1 {
                        assert(stack_before[i] == stack@[i]);
                    } else {
                        let c = stack@[i];
                        assert(kids[i - (stack_before.len() - 1)] == c);
                        assert(kids.contains(c));
                        assert(ops_before[c].view() == o.operators[c]);
                        lemma_subtree_extend(o.operators, id.0, current, c);
                    }
                }
                if !visited@.contains(id.0) {
                    let j = choose|j: int| 0 <= j < stack_before.len() && stack_before[j] == id.0;
                    assert(stack@[j] == id.0);
                }
                assert forall|x: u64, c: u64|
                    #![trigger visited@.contains(x), o.operators[c]]
                    visited@.contains(x) && o.operators.contains_key(c) && o.operators[c].parent == Some(
                        x,
                    ) implies visited@.contains(c) || stack@.contains(c) by {
                    if !visited@.contains(c) {
                        if x == current {
                            assert(ops_before.contains_key(c));
                            assert(ops_before[c] == old(self).operators@[c]);
                            assert(kids.contains(c));
                            let m = choose|m: int| 0 <= m < kids.len() && kids[m] == c;
                            assert(stack@[stack_before.len() - 1 + m] == c);
                        } else {
                            assert(visited_before.contains(x));
                            assert(stack_before.contains(c));
                            let j = choose|j: int| 0 <= j < stack_before.len() && stack_before[j] == c;
                            assert(j < stack_before.len() - 1);
                            assert(stack@[j] == c);
                        }
                    }
                }
                assert forall|e: (u64, u64)|
                    #[trigger] self.topology.view().edges.to_multiset().count(e) == surviving_edges(
                        o.edges,
                        visited@,
                    ).to_multiset().count(e) by {
                    lemma_filter_count(edges_before, crate::node_graph::avoids(current), e);
                    lemma_filter_count(o.edges, survives(visited_before), e);
                    lemma_filter_count(o.edges, survives(visited@), e);
                }
                assert(self.topology.view().edges.to_multiset() =~= surviving_edges(
                    o.edges,
                    visited@,
                ).to_multiset());
            }
        }
        proof {
            assert forall|k: u64| removed.contains(k) implies visited@.contains(k) by {
                let chain = choose|chain: Seq<u64>|
                    #[trigger] parent_chain(o.operators, chain) && chain[0] == k && chain.last() == id.0;
                lemma_chain_closed(o.operators, visited@, chain, 0);
            }
            assert(visited@ =~= removed);
        }
        self.bump_epoch();
        proof {
            let v = self.view();
            assert(v.operators =~= o.operators.remove_keys(removed));
            vstd::set_lib::lemma_len_subset(v.operators.dom(), o.operators.dom());
            assert forall|k: u64| #[trigger] self.operators@.contains_key(k) implies self.operators@[k].wf() by {
                assert(old(self).operators@.contains_key(k));
            }
            self.topology.lemma_edge_endpoints();
            assert forall|k: u64| #[trigger] v.operators.contains_key(k) implies {
                &&& v.operators[k].id == k
                &&& (k < v.next_id || v.next_id == u64::MAX)
                &&& !is_blank(v.operators[k].name)
                &&& keys_not_blank(v.operators[k].parameters)
                &&& (v.operators[k].parent matches Some(p) ==> v.operators.contains_key(p))
            } by {
                assert(o.operators.contains_key(k));
                if let Some(p) = v.operators[k].parent {
                    if removed.contains(p) {
                        lemma_subtree_extend(o.operators, id.0, p, k);
                    }
                }
            }
            assert forall|i: int| 0 <= i < v.edges.len() implies v.operators.contains_key(
                (#[trigger] v.edges[i]).0,
            ) && v.operators.contains_key(v.edges[i].1) by {
                assert(self.topology.view().ids.contains(v.edges[i].0));
            }
        }
        Ok(())
    }

    /// Capture the whole graph as a versioned snapshot: operators sorted
    /// by id (so the snapshot is a function of the graph), edges in store
    /// order.
    pub fn snapshot(&self) -> (snapshot: GraphSnapshot)
        requires
            self.wf(),
        ensures
            snapshot.wf(),
            is_snapshot_of(snapshot.view(), self.view()),
    {
        let keys = sort_ascending(keys_of(&self.operators));
        let mut operators: Vec<Operator> = Vec::new();
        let mut i: usize = 0;
        while i < keys.len()
            invariant
                self.wf(),
                i <= keys@.len(),
                keys@.to_set() == self.operators@.dom(),
                forall|a: int, b: int| 0 <= a < b < keys@.len() ==> keys@[a] < keys@[b],
                operators@.len() == i,
                forall|j: int|
                    0 <= j < i ==> (#[trigger] operators@[j]).wf() && operators@[j].view()
                        == self.view().operators[keys@[j]],
            decreases keys@.len() - i,
        {
            let k = keys[i];
            assert(keys@.to_set().contains(k)) by {
                assert(keys@.contains(k));
            }
            let op = self.operators.get(&k).unwrap();
            operators.push(op.duplicate());
            i = i + 1;
        }
        let snapshot = GraphSnapshot {
            version: GRAPH_SNAPSHOT_VERSION,
            operators,
            edges: self.topology.edges(),
        };
        proof {
            let sv = snapshot.view();
            let v = self.view();
            self.lemma_wf_parts();
            assert forall|j: int| 0 <= j < sv.operators.len() implies (#[trigger] sv.operators[j]).id
                == keys@[j] by {
                assert(v.operators.contains_key(keys@[j])) by {
                    assert(keys@.contains(keys@[j]));
                }
            }
            assert forall|a: int, b: int| 0 <= a < b < sv.operators.len() implies (
            #[trigger] sv.operators[a]).id < (#[trigger] sv.operators[b]).id by {
                assert(sv.operators[a].id == keys@[a]);
                assert(sv.operators[b].id == keys@[b]);
            }
            assert forall|k: u64| #[trigger] lists_id(sv.operators, k) == v.operators.contains_key(k) by {
                if v.operators.contains_key(k) {
                    assert(keys@.to_set().contains(k));
                    let j = choose|j: int| 0 <= j < keys@.len() && keys@[j] == k;
                    assert(sv.operators[j].id == k);
                }
                if lists_id(sv.operators, k) {
                    let j = choose|j: int| 0 <= j < sv.operators.len() && (#[trigger] sv.operators[j]).id == k;
                    assert(keys@.contains(keys@[j]));
                }
            }
            assert forall|k: u64| #[trigger] v.operators.contains_key(k) implies operators_by_id(
                sv.operators,
            )[k] == v.operators[k] by {
                assert(lists_id(sv.operators, k));
                let j = choose|j: int| 0 <= j < sv.operators.len() && (#[trigger] sv.operators[j]).id == k;
                if sv.operators[j].id != keys@[j] {
                } else {
                    assert(keys@[j] == k);
                }
            }
            assert(operators_by_id(sv.operators) =~= v.operators);
        }
        snapshot
    }

    /// Replace the whole graph from a snapshot (the launch-load and undo
    /// path). A failed restore leaves the graph untouched.
    ///
    /// Fails with [`GraphError::UnsupportedVersion`] unless the version is
    /// [`GRAPH_SNAPSHOT_VERSION`] or the previous one; else with the first
    /// bad operator's error in snapshot order ([`GraphError::DuplicateNode`]
    /// for a repeated id, [`GraphError::UnknownNode`] for the zero id,
    /// [`GraphError::EmptyName`], [`GraphError::EmptyParameterKey`],
    /// [`GraphError::UnknownNode`] for a dangling parent); else with
    /// [`GraphError::UnknownNode`] for the first dangling edge endpoint.
    pub fn restore(&mut self, snapshot: GraphSnapshot) -> (result: Result<(), GraphError>)
        requires
            old(self).wf(),
            snapshot.wf(),
            snapshot.operators@.len() <= u32::MAX,
            snapshot.edges@.len() <= u32::MAX,
        ensures
            final(self).wf(),
            error_of(result) == restore_error(snapshot.view()),
            final(self).view() == if result is Ok {
                restored(old(self).view(), snapshot.view())
            } else {
                old(self).view()
            },
    {
        if snapshot.version != GRAPH_SNAPSHOT_VERSION && snapshot.version
            != GRAPH_SNAPSHOT_PREVIOUS_VERSION {
            return Err(GraphError::UnsupportedVersion(snapshot.version));
        }
        let ghost sv = snapshot.view();
        let ghost ops = sv.operators;
        assert(sv.version == GRAPH_SNAPSHOT_VERSION || sv.version == GRAPH_SNAPSHOT_VERSION - 1);
        let n = snapshot.operators.len();
        let mut ids: HashSet<u64> = HashSet::new();
        let mut i: usize = 0;
        while i < n
            invariant
                n == snapshot.operators@.len(),
                i <= n,
                self.wf(),
                self.view() == old(self).view(),
                sv == snapshot.view(),
                ops == sv.operators,
                forall|k: u64| ids@.contains(k) <==> exists|j: int| 0 <= j < i && (#[trigger] ops[j]).id == k,
            decreases n - i,
        {
            ids.insert(snapshot.operators[i].id.0);
            proof {
                assert forall|k: u64| ids@.contains(k) <==> exists|j: int| 0 <= j < i + 1 && (
                #[trigger] ops[j]).id == k by {
                    if k == ops[i as int].id {
                        assert(ops[i as int].id == k);
                    }
                }
            }
            i = i + 1;
        }
        assert(ids@ =~= snapshot_ids(ops));
        let mut seen: HashSet<u64> = HashSet::new();
        let mut i: usize = 0;
        while i < n
            invariant
                n == ops.len(),
                i <= n,
                self.wf(),
                self.view() == old(self).view(),
                sv.version == GRAPH_SNAPSHOT_VERSION || sv.version == GRAPH_SNAPSHOT_VERSION - 1,
                sv == snapshot.view(),
                ops == sv.operators,
                snapshot.wf(),
                ids@ == snapshot_ids(ops),
                forall|k: u64| seen@.contains(k) <==> exists|j: int| 0 <= j < i && (#[trigger] ops[j]).id == k,
                operators_error(ops, 0) == operators_error(ops, i as int),
            decreases n - i,
        {
            let operator = &snapshot.operators[i];
            assert(operator.view() == ops[i as int]);
            if !seen.insert(operator.id.0) {
                return Err(GraphError::DuplicateNode(operator.id));
            }
            if operator.id.0 == 0 {
                return Err(GraphError::UnknownNode(operator.id));
            }
            if str_is_blank(operator.name.as_str()) {
                return Err(GraphError::EmptyName);
            }
            if operator.parameters.any_blank_key() {
                return Err(GraphError::EmptyParameterKey);
            }
            if let Some(parent) = operator.parent {
                if !ids.contains(&parent.0) {
                    return Err(GraphError::UnknownNode(parent));
                }
            }
            proof {
                assert forall|k: u64| seen@.contains(k) <==> exists|j: int| 0 <= j < i + 1 && (
                #[trigger] ops[j]).id == k by {
                    if k == ops[i as int].id {
                        assert(ops[i as int].id == k);
                    }
                }
            }
            i = i + 1;
        }
        proof {
            lemma_operators_valid(ops, 0);
            assert forall|a: int, b: int| 0 <= a < b < ops.len() implies (#[trigger] ops[a]).id != (
            #[trigger] ops[b]).id by {
                assert(operator_error(ops, b) is None);
            }
        }
        let m = snapshot.edges.len();
        let mut k: usize = 0;
        while k < m
            invariant
                m == sv.edges.len(),
                k <= m,
                self.wf(),
                self.view() == old(self).view(),
                sv.version == GRAPH_SNAPSHOT_VERSION || sv.version == GRAPH_SNAPSHOT_VERSION - 1,
                operators_error(ops, 0) is None,
                ops == sv.operators,
                sv == snapshot.view(),
                ids@ == snapshot_ids(ops),
                edges_error(ids@, sv.edges, 0) == edges_error(ids@, sv.edges, k as int),
            decreases m - k,
        {
            let (from, to) = snapshot.edges[k];
            assert(sv.edges[k as int] == (from.0, to.0));
            if !ids.contains(&from.0) {
                return Err(GraphError::UnknownNode(from));
            }
            if !ids.contains(&to.0) {
                return Err(GraphError::UnknownNode(to));
            }
            k = k + 1;
        }
        proof {
            lemma_edges_valid(ids@, sv.edges, 0);
        }
        let GraphSnapshot { version: _, operators, edges } = snapshot;
        let ghost items = operators@;
        let mut topology = NodeGraph::new();
        let mut table: HashMap<u64, Operator> = HashMap::new();
        let mut max: u64 = 0;
        let mut index: usize = 0;
        proof {
            topology.lemma_node_total();
            assert(table@.dom() =~= snapshot_ids(ops.take(0)));
        }
        for operator in it: operators.into_iter()
            invariant
                it.seq() == items,
                index == it.index(),
                index <= items.len(),
                items.len() == n,
                n <= u32::MAX,
                ops == items.map_values(|o: Operator| o.view()),
                forall|j: int| 0 <= j < items.len() ==> (#[trigger] items[j]).wf(),
                forall|a: int, b: int| 0 <= a < b < ops.len() ==> (#[trigger] ops[a]).id != (#[trigger] ops[b]).id,
                topology.wf(),
                topology.view().ids == table@.dom(),
                topology.view().edges == Seq::<(u64, u64)>::empty(),
                topology.node_total() == index,
                table@.dom() == snapshot_ids(ops.take(index as int)),
                forall|j: int| 0 <= j < index ==> table@[(#[trigger] items[j]).id.0] == items[j],
                max == max_id(ops.take(index as int)),
        {
            proof {
                assert(operator == items[index as int]);
                topology.lemma_node_total();
                assert(!table@.contains_key(operator.id.0)) by {
                    if table@.contains_key(operator.id.0) {
                        let j = choose|j: int| 0 <= j < index && (#[trigger] ops.take(index as int)[j]).id == operator.id.0;
                        assert(ops[j].id == ops[index as int].id);
                    }
                }
                assert(ops.take(index + 1).drop_last() =~= ops.take(index as int));
            }
            topology.insert_node(operator.id);
            if operator.id.0 > max {
                max = operator.id.0;
            }
            let ghost before = table@;
            table.insert(operator.id.0, operator);
            index = index + 1;
            proof {
                assert forall|x: u64| table@.dom().contains(x) <==> snapshot_ids(ops.take(index as int)).contains(x) by {
                    if table@.dom().contains(x) {
                        if x == items[index - 1].id.0 {
                            assert(ops.take(index as int)[index - 1].id == x);
                        } else {
                            assert(before.contains_key(x));
                            let j = choose|j: int| 0 <= j < index - 1 && (#[trigger] ops.take(index - 1)[j]).id == x;
                            assert(ops.take(index as int)[j].id == x);
                        }
                    }
                    if snapshot_ids(ops.take(index as int)).contains(x) {
                        let j = choose|j: int| 0 <= j < index && (#[trigger] ops.take(index as int)[j]).id == x;
                        if j < index - 1 {
                            assert(ops.take(index - 1)[j].id == x);
                        }
                    }
                }
                assert(table@.dom() =~= snapshot_ids(ops.take(index as int)));
                assert(topology.view().ids =~= table@.dom());
                assert forall|j: int| 0 <= j < index implies table@[(#[trigger] items[j]).id.0] == items[j] by {
                    if j < index - 1 {
                        assert(ops[j].id != ops[index - 1].id);
                    }
                }
            }
        }
        proof {
            assert(ops.take(n as int) =~= ops);
            topology.lemma_node_total();
        }
        let mut k: usize = 0;
        while k < edges.len()
            invariant
                sv.edges == raw_pairs(edges@),
                k <= edges@.len(),
                edges@.len() <= u32::MAX,
                topology.wf(),
                topology.view().ids == snapshot_ids(ops),
                topology.view().edges == sv.edges.take(k as int),
                topology.edge_total() == k,
                forall|j: int|
                    0 <= j < sv.edges.len() ==> snapshot_ids(ops).contains((#[trigger] sv.edges[j]).0)
                        && snapshot_ids(ops).contains(sv.edges[j].1),
            decreases edges@.len() - k,
        {
            let (from, to) = edges[k];
            assert(sv.edges[k as int] == (from.0, to.0));
            let _ = topology.add_dependency(from, to);
            proof {
                assert(topology.view().ids =~= snapshot_ids(ops));
                assert(sv.edges.take(k + 1) =~= sv.edges.take(k as int).push((from.0, to.0)));
            }
            k = k + 1;
        }
        proof {
            assert(sv.edges.take(edges@.len() as int) =~= sv.edges);
        }
        self.topology = topology;
        self.operators = table;
        self.next_id = if n == 0 {
            1
        } else {
            max.saturating_add(1)
        };
        self.bump_epoch();
        proof {
            let v = self.view();
            lemma_max_id_bounds(ops);
            self.topology.lemma_node_total();
            self.topology.lemma_edge_endpoints();
            assert forall|x: u64| #[trigger] v.operators.contains_key(x) implies operators_by_id(ops)[x]
                == v.operators[x] by {
                let j = choose|j: int| 0 <= j < ops.len() && (#[trigger] ops[j]).id == x;
                assert(items[j].id.0 == x);
                let c = choose|c: int| 0 <= c < ops.len() && (#[trigger] ops[c]).id == x;
                if c != j {
                    assert(ops[c].id != ops[j].id);
                }
            }
            assert(v.operators =~= operators_by_id(ops));
            assert(v == restored(old(self).view(), sv));
            assert(self.topology.view().ids == self.operators@.dom());
            assert(v.operators.dom() =~= self.operators@.dom());
            assert(v.operators.dom().finite());
            assert(v.next_id >= 1);
            assert(!v.operators.contains_key(0)) by {
                if v.operators.contains_key(0) {
                    let j = choose|j: int| 0 <= j < ops.len() && (#[trigger] ops[j]).id == 0;
                    assert(operator_error(ops, j) is None);
                }
            }
            assert forall|i: int| 0 <= i < v.edges.len() implies v.operators.contains_key(
                (#[trigger] v.edges[i]).0,
            ) && v.operators.contains_key(v.edges[i].1) by {
                assert(self.topology.view().ids.contains(v.edges[i].0));
            }
            assert forall|x: u64| #[trigger] self.operators@.contains_key(x) implies self.operators@[x].wf() by {
                let j = choose|j: int| 0 <= j < ops.len() && (#[trigger] ops[j]).id == x;
                assert(items[j].id.0 == x);
            }
            assert forall|x: u64| #[trigger] v.operators.contains_key(x) implies {
                &&& v.operators[x].id == x
                &&& (x < v.next_id || v.next_id == u64::MAX)
                &&& !is_blank(v.operators[x].name)
                &&& keys_not_blank(v.operators[x].parameters)
                &&& (v.operators[x].parent matches Some(p) ==> v.operators.contains_key(p))
            } by {
                let j = choose|j: int| 0 <= j < ops.len() && (#[trigger] ops[j]).id == x;
                assert(items[j].id.0 == x);
                assert(operator_error(ops, j) is None);
            }
        }
        Ok(())
    }

    /// Set a text parameter. The key is trimmed and the value stored
    /// verbatim as [`ParamValue::Text`]; a trimmed key of `name` renames
    /// instead ([`OperatorGraph::rename_operator`]).
    pub fn set_parameter(&mut self, id: NodeId, key: &str, value: &str) -> (result: Result<
        (),
        GraphError,
    >)
        requires
            old(self).wf(),
        ensures
            final(self).wf(),
            error_of(result) == set_parameter_error(old(self).view(), id.0, key@, value@),
            final(self).view() == if result is Ok {
                parameter_set(old(self).view(), id.0, key@, value@)
            } else {
                old(self).view()
            },
    {
        let trimmed_key = trimmed(key);
        proof {
            reveal_strlit("name");
            assert("name"@ =~= name_key());
        }
        if str_eq(trimmed_key.as_str(), "name") {
            return self.rename_operator(id, value);
        }
        self.set_parameter_value(id, key, ParamValue::Text(String::from_str(value)))
    }
}

/// A child of a subtree member is a subtree member.
proof fn lemma_subtree_extend(ops: Map<u64, OperatorView>, root: u64, k: u64, c: u64)
    requires
        in_subtree(ops, root, k),
        ops.contains_key(c),
        ops[c].parent == Some(k),
    ensures
        in_subtree(ops, root, c),
{
    let chain = choose|chain: Seq<u64>| #[trigger] parent_chain(ops, chain) && chain[0] == k && chain.last() == root;
    let longer = seq![c] + chain;
    assert forall|i: int| 0 <= i < longer.len() - 1 implies ops.contains_key(#[trigger] longer[i])
        && ops[longer[i]].parent == Some(longer[i + 1]) by {
        if i > 0 {
            assert(longer[i] == chain[i - 1]);
            assert(longer[i + 1] == chain[i]);
        }
    }
    assert(parent_chain(ops, longer));
    assert(longer.last() == chain.last());
}

/// A set holding `chain`'s last entry and every child of its members
/// holds the whole chain.
proof fn lemma_chain_closed(ops: Map<u64, OperatorView>, members: Set<u64>, chain: Seq<u64>, i: int)
    requires
        parent_chain(ops, chain),
        members.contains(chain.last()),
        0 <= i < chain.len(),
        forall|x: u64, c: u64|
            #![trigger members.contains(x), ops[c]]
            members.contains(x) && ops.contains_key(c) && ops[c].parent == Some(x) ==> members.contains(c),
    ensures
        members.contains(chain[i]),
    decreases chain.len() - i,
{
    if i < chain.len() - 1 {
        lemma_chain_closed(ops, members, chain, i + 1);
        assert(ops.contains_key(chain[i]) && ops[chain[i]].parent == Some(chain[i + 1]));
    }
}

/// How often `x` occurs after filtering by `p`.
proof fn lemma_filter_count<A>(s: Seq<A>, p: spec_fn(A) -> bool, x: A)
    ensures
        s.filter(p).to_multiset().count(x) == if p(x) {
            s.to_multiset().count(x)
        } else {
            0
        },
    decreases s.len(),
{
    broadcast use vstd::seq_lib::group_to_multiset_ensures;

    if s.len() == 0 {
        assert(s.filter(p) =~= Seq::<A>::empty());
    } else {
        let t = s.drop_last();
        let y = s.last();
        assert(s =~= t.push(y));
        lemma_filter_count(t, p, x);
        t.lemma_filter_push(y, p);
        t.to_multiset_ensures();
        t.filter(p).to_multiset_ensures();
    }
}

/// Snapshot then restore gives back the same graph: a snapshot of any
/// reachable state restores without error, to the same operators and the
/// same edges (issuance and epoch are the receiving graph's own).
pub proof fn lemma_snapshot_restores(v: OperatorGraphView, s: GraphSnapshotView, w: OperatorGraphView)
    requires
        graph_view_wf(v),
        is_snapshot_of(s, v),
    ensures
        restore_error(s) is None,
        restored(w, s).operators == v.operators,
        restored(w, s).edges == v.edges,
{
    let ops = s.operators;
    assert forall|j: int| 0 <= j < ops.len() implies #[trigger] operator_error(ops, j) is None by {
        let k = ops[j].id;
        assert(lists_id(ops, k));
        assert(v.operators.contains_key(k));
        lemma_entry_by_id(ops, j);
        if let Some(p) = ops[j].parent {
            assert(v.operators.contains_key(p));
            assert(lists_id(ops, p));
        }
    }
    lemma_operators_error_none(ops, 0);
    assert(snapshot_ids(ops) =~= v.operators.dom());
    lemma_edges_error_none(snapshot_ids(ops), s.edges, 0);
}

/// A snapshot is a function of the graph: two snapshots of one state are
/// equal, entry for entry.
pub proof fn lemma_snapshot_unique(s1: GraphSnapshotView, s2: GraphSnapshotView, v: OperatorGraphView)
    requires
        is_snapshot_of(s1, v),
        is_snapshot_of(s2, v),
    ensures
        s1 == s2,
{
    let a = s1.operators;
    let b = s2.operators;
    assert(snapshot_ids(a) =~= v.operators.dom());
    assert(snapshot_ids(b) =~= v.operators.dom());
    let n = if a.len() < b.len() { a.len() } else { b.len() };
    assert forall|i: int| 0 <= i < n implies #[trigger] a[i].id == b[i].id by {
        lemma_ids_agree_up_to(a, b, i);
    }
    if a.len() < b.len() {
        lemma_longer_has_extra(a, b);
    } else if b.len() < a.len() {
        lemma_longer_has_extra(b, a);
    }
    assert forall|i: int| 0 <= i < a.len() implies a[i] == b[i] by {
        lemma_entry_by_id(a, i);
        lemma_entry_by_id(b, i);
    }
    assert(a =~= b);
}

/// Snapshot, restore, snapshot again: the second snapshot equals the
/// first, entry for entry.
pub proof fn lemma_snapshot_round_trip(
    v: OperatorGraphView,
    s1: GraphSnapshotView,
    w: OperatorGraphView,
    s2: GraphSnapshotView,
)
    requires
        graph_view_wf(v),
        is_snapshot_of(s1, v),
        is_snapshot_of(s2, restored(w, s1)),
    ensures
        s1 == s2,
{
    lemma_snapshot_restores(v, s1, w);
    let r = restored(w, s1);
    let u = OperatorGraphView { operators: v.operators, edges: v.edges, next_id: r.next_id, epoch: r.epoch };
    assert(is_snapshot_of(s1, u));
    assert(r == u);
    lemma_snapshot_unique(s1, s2, u);
}

/// Restoring a graph's own snapshot succeeds in any receiving graph, and
/// the restored graph's snapshot equals the restored one entry for entry:
/// ids, kinds, names, parents, edges, and the exact bit patterns of every
/// position and parameter value.
pub proof fn lemma_restore_round_trip(g: OperatorGraph, s: GraphSnapshot, r: OperatorGraph, t: GraphSnapshotView)
    requires
        g.wf(),
        is_snapshot_of(s.view(), g.view()),
        is_snapshot_of(t, restored(r.view(), s.view())),
    ensures
        restore_error(s.view()) is None,
        t == s.view(),
{
    g.lemma_view_wf();
    lemma_snapshot_restores(g.view(), s.view(), r.view());
    lemma_snapshot_round_trip(g.view(), s.view(), r.view(), t);
}

/// A create at a state that has not exhausted issuance hands out an id
/// that is fresh and never 0.
pub proof fn lemma_issued_id_is_fresh(v: OperatorGraphView)
    requires
        graph_view_wf(v),
        v.next_id < u64::MAX,
    ensures
        v.next_id != 0,
        !v.operators.contains_key(v.next_id),
        saturating_next(v.next_id) > v.next_id,
{
}

/// A text write under a key that trims to `name` is exactly a rename: same
/// error, same resulting state.
pub proof fn lemma_name_key_renames(v: OperatorGraphView, id: u64, key: Seq<char>, value: Seq<char>)
    requires
        spec_trim(key) == name_key(),
    ensures
        set_parameter_error(v, id, key, value) == rename_error(v, id, value),
        parameter_set(v, id, key, value) == renamed(v, id, value),
{
}

/// The typed setter never writes the `name` key, whatever the value: on a
/// present operator it reports the reserved key.
pub proof fn lemma_typed_name_is_reserved(v: OperatorGraphView, id: u64, key: Seq<char>)
    requires
        v.operators.contains_key(id),
        spec_trim(key) == name_key(),
    ensures
        set_value_error(v, id, key) == Some(GraphErrorView::ReservedParameterKey(name_key())),
{
    lemma_trim_blank(key);
}

/// In a snapshot with ascending ids, entry `i` is the one its id maps to.
proof fn lemma_entry_by_id(ops: Seq<OperatorView>, i: int)
    requires
        ids_ascending(ops),
        0 <= i < ops.len(),
    ensures
        lists_id(ops, ops[i].id),
        operators_by_id(ops)[ops[i].id] == ops[i],
{
    let k = ops[i].id;
    assert(lists_id(ops, k));
    let c = choose|c: int| 0 <= c < ops.len() && (#[trigger] ops[c]).id == k;
    if c < i {
        assert(ops[c].id < ops[i].id);
    } else if c > i {
        assert(ops[i].id < ops[c].id);
    }
}

/// Two ascending id lists over the same ids that agree along the
/// shorter one have the same length.
proof fn lemma_longer_has_extra(short: Seq<OperatorView>, long: Seq<OperatorView>)
    requires
        ids_ascending(long),
        snapshot_ids(short) == snapshot_ids(long),
        short.len() <= long.len(),
        forall|i: int| 0 <= i < short.len() ==> #[trigger] short[i].id == long[i].id,
    ensures
        short.len() == long.len(),
{
    if short.len() < long.len() {
        let y = long[short.len() as int].id;
        assert(lists_id(long, y));
        assert(snapshot_ids(short).contains(y));
        let m = choose|m: int| 0 <= m < short.len() && (#[trigger] short[m]).id == y;
        assert(short[m].id == long[m].id);
        assert(long[m].id < long[short.len() as int].id);
    }
}

/// Two ascending id lists over the same ids agree at `i`.
proof fn lemma_ids_agree_up_to(a: Seq<OperatorView>, b: Seq<OperatorView>, i: int)
    requires
        ids_ascending(a),
        ids_ascending(b),
        snapshot_ids(a) == snapshot_ids(b),
        0 <= i < a.len(),
        i < b.len(),
    ensures
        a[i].id == b[i].id,
    decreases i,
{
    if i > 0 {
        lemma_ids_agree_up_to(a, b, i - 1);
    }
    assert forall|j: int| 0 <= j < i implies #[trigger] a[j].id == b[j].id by {
        lemma_ids_agree_up_to(a, b, j);
    }
    let x = a[i].id;
    let y = b[i].id;
    assert(lists_id(a, x));
    assert(snapshot_ids(b).contains(x));
    let j = choose|j: int| 0 <= j < b.len() && (#[trigger] b[j]).id == x;
    assert(lists_id(b, y));
    assert(snapshot_ids(a).contains(y));
    let m = choose|m: int| 0 <= m < a.len() && (#[trigger] a[m]).id == y;
    if j < i {
        assert(a[j].id == b[j].id);
        assert(a[j].id < a[i].id);
    } else if m < i {
        assert(a[m].id == b[m].id);
        assert(b[m].id < b[i].id);
    } else if j > i && m > i {
        assert(b[i].id < b[j].id);
        assert(a[i].id < a[m].id);
    } else if j > i {
        assert(b[i].id < b[j].id);
        assert(m == i);
    }
}

/// Every entry valid from `i` on means no error from `i` on.
proof fn lemma_operators_error_none(ops: Seq<OperatorView>, i: int)
    requires
        0 <= i,
        forall|j: int| 0 <= j < ops.len() ==> (#[trigger] operator_error(ops, j)) is None,
    ensures
        operators_error(ops, i) is None,
    decreases ops.len() - i,
{
    if i < ops.len() {
        lemma_operators_error_none(ops, i + 1);
    }
}

/// Every edge endpoint among `ids` means no edge error from `k` on.
proof fn lemma_edges_error_none(ids: Set<u64>, edges: Seq<(u64, u64)>, k: int)
    requires
        0 <= k,
        forall|j: int| 0 <= j < edges.len() ==> ids.contains((#[trigger] edges[j]).0) && ids.contains(edges[j].1),
    ensures
        edges_error(ids, edges, k) is None,
    decreases edges.len() - k,
{
    if k < edges.len() {
        lemma_edges_error_none(ids, edges, k + 1);
    }
}

/// With no error from entry `i` on, every later entry is valid.
proof fn lemma_operators_valid(ops: Seq<OperatorView>, i: int)
    requires
        0 <= i,
        operators_error(ops, i) is None,
    ensures
        forall|j: int| i <= j < ops.len() ==> (#[trigger] operator_error(ops, j)) is None,
    decreases ops.len() - i,
{
    if i < ops.len() {
        lemma_operators_valid(ops, i + 1);
    }
}

/// With no error from position `k` on, every later edge is valid.
proof fn lemma_edges_valid(ids: Set<u64>, edges: Seq<(u64, u64)>, k: int)
    requires
        0 <= k,
        edges_error(ids, edges, k) is None,
    ensures
        forall|j: int| k <= j < edges.len() ==> ids.contains((#[trigger] edges[j]).0) && ids.contains(edges[j].1),
    decreases edges.len() - k,
{
    if k < edges.len() {
        lemma_edges_valid(ids, edges, k + 1);
    }
}

/// Every id is at most [`max_id`].
proof fn lemma_max_id_bounds(ops: Seq<OperatorView>)
    ensures
        forall|j: int| 0 <= j < ops.len() ==> (#[trigger] ops[j]).id <= max_id(ops),
    decreases ops.len(),
{
    if ops.len() > 0 {
        lemma_max_id_bounds(ops.drop_last());
        assert forall|j: int| 0 <= j < ops.len() implies (#[trigger] ops[j]).id <= max_id(ops) by {
            if j < ops.len() - 1 {
                assert(ops.drop_last()[j] == ops[j]);
            }
        }
    }
}

/// The values of `v` in strictly ascending order.
fn sort_ascending(v: Vec<u64>) -> (sorted: Vec<u64>)
    requires
        v@.no_duplicates(),
    ensures
        sorted@.to_set() == v@.to_set(),
        forall|a: int, b: int| 0 <= a < b < sorted@.len() ==> sorted@[a] < sorted@[b],
{
    let mut out: Vec<u64> = Vec::new();
    let mut i: usize = 0;
    while i < v.len()
        invariant
            v@.no_duplicates(),
            i <= v@.len(),
            out@.to_set() == v@.subrange(0, i as int).to_set(),
            forall|a: int, b: int| 0 <= a < b < out@.len() ==> out@[a] < out@[b],
        decreases v@.len() - i,
    {
        let x = v[i];
        let mut p: usize = 0;
        while p < out.len() && out[p] < x
            invariant
                p <= out@.len(),
                forall|k: int| 0 <= k < p ==> out@[k] < x,
            decreases out@.len() - p,
        {
            p = p + 1;
        }
        let ghost before = out@;
        proof {
            assert(!before.to_set().contains(x)) by {
                if before.to_set().contains(x) {
                    assert(v@.subrange(0, i as int).to_set().contains(x));
                    let j = choose|j: int| 0 <= j < i && v@.subrange(0, i as int)[j] == x;
                    assert(v@[j] == v@[i as int]);
                }
            }
        }
        out.insert(p, x);
        proof {
            assert forall|a: int, b: int| 0 <= a < b < out@.len() implies out@[a] < out@[b] by {
                if b == p {
                    assert(out@[a] == before[a]);
                } else if a == p {
                    assert(out@[b] == before[b - 1]);
                    assert(before[p as int] != x) by {
                        assert(before.contains(before[p as int]));
                    }
                    if b - 1 > p {
                        assert(before[p as int] < before[b - 1]);
                    }
                } else if a < p && b > p {
                    assert(out@[a] == before[a]);
                    assert(out@[b] == before[b - 1]);
                    assert(before[a] < x);
                    assert(before[p as int] >= x);
                    assert(before[p as int] != x) by {
                        assert(before.contains(before[p as int]));
                    }
                }
            }
            assert(out@ == before.insert(p as int, x));
            assert(v@.subrange(0, i + 1) =~= v@.subrange(0, i as int).push(x));
            v@.subrange(0, i as int).lemma_push_to_set_commute(x);
            assert forall|y: u64| out@.to_set().contains(y) <==> before.to_set().insert(x).contains(y) by {
                if out@.to_set().contains(y) {
                    let j = choose|j: int| 0 <= j < out@.len() && out@[j] == y;
                    if j < p {
                        assert(before[j] == y);
                    } else if j > p {
                        assert(before[j - 1] == y);
                    }
                }
                if before.to_set().contains(y) && y != x {
                    let j = choose|j: int| 0 <= j < before.len() && before[j] == y;
                    if j < p {
                        assert(out@[j] == y);
                    } else {
                        assert(out@[j + 1] == y);
                    }
                }
                if y == x {
                    assert(out@[p as int] == x);
                }
            }
            assert(out@.to_set() =~= v@.subrange(0, i + 1).to_set());
        }
        i = i + 1;
    }
    assert(v@.subrange(0, v@.len() as int) =~= v@);
    out
}

/// Every key of `m`, each once, in the map's iteration order.
fn keys_of(m: &HashMap<u64, Operator>) -> (keys: Vec<u64>)
    ensures
        keys@.to_set() == m@.dom(),
        keys@.no_duplicates(),
{
    let ghost ks = spec_keys_iter(m).remaining().map_values(|r: &u64| *r);
    let mut out: Vec<u64> = Vec::new();
    for k in it: m.keys()
        invariant
            it.seq() == spec_keys_iter(m).remaining(),
            ks == it.seq().map_values(|r: &u64| *r),
            out@ == ks.take(it.index() as int),
    {
        out.push(*k);
        assert(out@ =~= ks.take(it.index() + 1));
    }
    assert(out@ =~= ks);
    proof {
        vstd::std_specs::hash::axiom_spec_keys_iter(m);
        assert(ks =~= spec_keys_iter(m).remaining().unref());
    }
    out
}

impl Default for OperatorGraph {
    /// An empty graph issuing ids from 1, as [`OperatorGraph::new`].
    fn default() -> (graph: Self)
        ensures
            graph.wf(),
            graph.view().operators == Map::<u64, OperatorView>::empty(),
            graph.view().edges == Seq::<(u64, u64)>::empty(),
            graph.view().next_id == 1,
            graph.view().epoch == 0,
    {
        OperatorGraph::new()
    }
}

/// A create adds exactly one operator under the issued id, holding what
/// was asked: the requested kind, parent and position (both coordinates
/// as given), the default name and no parameters; every other operator and
/// every edge stays as it was.
pub proof fn lemma_create_holds_request(
    v: OperatorGraphView,
    kind: OperatorKind,
    parent: Option<u64>,
    position: Position,
)
    requires
        graph_view_wf(v),
        v.next_id < u64::MAX,
    ensures
        ({
            let w = created(v, kind, parent, position);
            let op = w.operators[v.next_id];
            &&& w.operators.dom() == v.operators.dom().insert(v.next_id)
            &&& !v.operators.contains_key(v.next_id)
            &&& op.id == v.next_id
            &&& op.kind == kind
            &&& op.parent == parent
            &&& op.position.x == position.x
            &&& op.position.y == position.y
            &&& op.name == default_name()
            &&& op.parameters.len() == 0
            &&& forall|k: u64| #[trigger] v.operators.contains_key(k) ==> w.operators[k] == v.operators[k]
            &&& w.edges == v.edges
            &&& w.next_id == v.next_id + 1
        }),
{
    let w = created(v, kind, parent, position);
    assert(w.operators.dom() =~= v.operators.dom().insert(v.next_id));
    assert(w.operators[v.next_id].parameters =~= Map::<Seq<char>, ParamValueView>::empty());
}

} // verus!
