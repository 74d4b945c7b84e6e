//! The engine session behind the C boundary: the operator graph with its
//! undo history, the live pick, the viewport intent, the recook stamp, and
//! the tick's stage timings, plus the boundary's result codes.
//!
//! Every graph intent validates first and pushes the graph's pre-image
//! snapshot onto the history only once the intent is known to apply, so a
//! rejected intent changes nothing, history included. Restore pushes its
//! pre-image only after the restore succeeded; restoring a snapshot of the
//! previous wire version also clears the live pick.

use vstd::prelude::*;

use crate::domain::{validate_mesh_topology, MeshId, MeshTopology, UndoHistory, spec_push, HistoryView};
use crate::frame::{check_viewport_size, viewport_size_ok};
use crate::operator_graph::{
    created, is_snapshot_of, moved, parameter_set, renamed, restore_error, restored, subtree,
    surviving_edges, GraphSnapshot, OperatorGraph, OperatorGraphView, GRAPH_SNAPSHOT_VERSION,
    name_key, saturating_next,
};
use crate::params::{OperatorKind, Position};
use crate::text::{is_blank, lemma_trim_blank, spec_trim, str_eq, str_is_blank, trimmed};
use crate::domain::NodeId;
use crate::pick::Pick;
use crate::selection::Selection;

verus! {

/// Undo steps kept for graph intents.
pub const GRAPH_HISTORY_CAPACITY: usize = 64;

/// Result codes returned across the C boundary (`Success` is code 0,
/// then 1, 2, 3 in declaration order).
#[derive(Debug, Clone, Copy, PartialEq, Eq, Structural)]
pub enum VrnResult {
    /// Operation succeeded.
    Success,
    /// Null pointer argument.
    NullArgument,
    /// Validation or graph error.
    InvalidArgument,
    /// Internal lock or allocation failure.
    Internal,
}

/// Per-tick stage splits of the frame-publish pipeline, in whole
/// microseconds: the engine schedule (`update`), the GPU readback, and the
/// surface upload.
#[derive(Debug, Clone, Copy, PartialEq, Eq, Structural)]
pub struct TickTimings {
    update: u64,
    readback: u64,
    upload: u64,
}

impl TickTimings {
    /// Abstract value: `(update, readback, upload)`.
    pub closed spec fn view(&self) -> (u64, u64, u64) {
        (self.update, self.readback, self.upload)
    }

    /// All stages zero, as before the first published tick.
    pub fn new() -> (timings: Self)
        ensures
            timings.view() == (0u64, 0u64, 0u64),
    {
        TickTimings { update: 0, readback: 0, upload: 0 }
    }

    /// Engine schedule time in whole microseconds.
    pub fn update_us(&self) -> (us: u64)
        ensures
            us == self.view().0,
    {
        self.update
    }

    /// GPU readback time in whole microseconds.
    pub fn readback_us(&self) -> (us: u64)
        ensures
            us == self.view().1,
    {
        self.readback
    }

    /// Surface upload time in whole microseconds.
    pub fn upload_us(&self) -> (us: u64)
        ensures
            us == self.view().2,
    {
        self.upload
    }
}

impl Default for TickTimings {
    fn default() -> (timings: Self)
        ensures
            timings.view() == (0u64, 0u64, 0u64),
    {
        TickTimings { update: 0, readback: 0, upload: 0 }
    }
}

/// Whole microseconds of an elapsed time given in microseconds, holding
/// at `u64::MAX` for absurd magnitudes.
pub fn micros_saturating(elapsed_micros: u128) -> (us: u64)
    ensures
        us == if elapsed_micros > u64::MAX {
            u64::MAX as int
        } else {
            elapsed_micros as int
        },
{
    if elapsed_micros > u64::MAX as u128 {
        u64::MAX
    } else {
        elapsed_micros as u64
    }
}

/// The raw value a [`MeshId`] crosses the boundary as.
pub fn mesh_id_ffi_layout(id: MeshId) -> (raw: u64)
    ensures
        raw == id.0,
{
    id.0
}

/// Result code of validating a mesh buffer pair of the given lengths:
/// `Success` for whole vertices and triangles, else `InvalidArgument`.
pub fn mesh_validation_code(positions_len: usize, indices_len: usize) -> (code: VrnResult)
    ensures
        code == if positions_len % 3 == 0 && indices_len % 3 == 0 {
            VrnResult::Success
        } else {
            VrnResult::InvalidArgument
        },
{
    let mut positions: Vec<u32> = Vec::new();
    let mut i: usize = 0;
    while i < positions_len
        invariant
            i <= positions_len,
            positions@.len() == i,
        decreases positions_len - i,
    {
        positions.push(0);
        i = i + 1;
    }
    let mut indices: Vec<u32> = Vec::new();
    let mut k: usize = 0;
    while k < indices_len
        invariant
            k <= indices_len,
            indices@.len() == k,
        decreases indices_len - k,
    {
        indices.push(0);
        k = k + 1;
    }
    let mesh = MeshTopology { positions, indices };
    match validate_mesh_topology(&mesh) {
        Ok(()) => VrnResult::Success,
        Err(_) => VrnResult::InvalidArgument,
    }
}

/// The kinds the boundary accepts, by their exact text.
pub open spec fn kind_of_text(text: Seq<char>) -> Option<OperatorKind> {
    if text == seq!['c', 'o', 'n', 't', 'a', 'i', 'n', 'e', 'r'] {
        Some(OperatorKind::Container)
    } else if text == seq!['c', 'u', 'b', 'e'] {
        Some(OperatorKind::Cube)
    } else {
        None
    }
}

/// Parse a strict operator-kind string: exactly `container` or `cube`;
/// anything else is `InvalidArgument`.
pub fn parse_operator_kind(kind: &str) -> (result: Result<OperatorKind, VrnResult>)
    ensures
        result == match kind_of_text(kind@) {
            Some(k) => Ok::<OperatorKind, VrnResult>(k),
            None => Err(VrnResult::InvalidArgument),
        },
{
    proof {
        reveal_strlit("container");
        reveal_strlit("cube");
        assert("container"@ =~= seq!['c', 'o', 'n', 't', 'a', 'i', 'n', 'e', 'r']);
        assert("cube"@ =~= seq!['c', 'u', 'b', 'e']);
    }
    if str_eq(kind, "container") {
        Ok(OperatorKind::Container)
    } else if str_eq(kind, "cube") {
        Ok(OperatorKind::Cube)
    } else {
        Err(VrnResult::InvalidArgument)
    }
}

/// Whether `after` is `before` with a snapshot of graph state `v` pushed.
pub open spec fn pushed_pre_image(
    before: HistoryView<GraphSnapshot>,
    after: HistoryView<GraphSnapshot>,
    v: OperatorGraphView,
) -> bool {
    exists|s: GraphSnapshot| #[trigger]
        is_snapshot_of(s.view(), v) && s.wf() && after == spec_push(before, s)
}

/// The engine session: graph, history, live pick, viewport intent,
/// recook stamp, and stage timings.
#[derive(Debug)]
pub struct Session {
    graph: OperatorGraph,
    history: UndoHistory<GraphSnapshot>,
    last_cooked_epoch: u64,
    pending_size: Option<(u32, u32)>,
    timings: TickTimings,
    selection: Selection,
    front: usize,
}

impl Session {
    /// The graph's abstract state.
    pub closed spec fn graph_view(&self) -> OperatorGraphView {
        self.graph.view()
    }

    /// The history's abstract state.
    pub closed spec fn history_view(&self) -> HistoryView<GraphSnapshot> {
        self.history.view()
    }

    /// The viewport intent awaiting the next tick.
    pub closed spec fn pending_view(&self) -> Option<(u32, u32)> {
        self.pending_size
    }

    /// The graph epoch last cooked into the scene.
    pub closed spec fn cooked_epoch(&self) -> u64 {
        self.last_cooked_epoch
    }

    /// The stage splits of the last fully published tick.
    pub closed spec fn timings_view(&self) -> (u64, u64, u64) {
        self.timings.view()
    }

    /// The live pick and its target's polygon total.
    pub closed spec fn selection_view(&self) -> Option<(Pick, usize)> {
        self.selection.view()
    }

    /// Which of the two frame surfaces is published (0 or 1).
    pub closed spec fn front_view(&self) -> usize {
        self.front
    }

    /// Graph and history are well formed, the history keeps at least one
    /// step, and the front slot is 0 or 1.
    pub closed spec fn wf(&self) -> bool {
        &&& self.graph.wf()
        &&& self.history.wf()
        &&& self.history.view().capacity >= 1
        &&& self.front < 2
    }

    /// Every graph in a well-formed session is one the graph's own
    /// invariant admits.
    pub proof fn lemma_graph_view_wf(&self)
        requires
            self.wf(),
        ensures
            crate::operator_graph::graph_view_wf(self.graph_view()),
    {
        self.graph.lemma_view_wf();
    }

    /// A fresh session: empty graph, empty history of
    /// [`GRAPH_HISTORY_CAPACITY`], nothing pending, the empty graph counted
    /// as cooked, zero timings.
    pub fn new() -> (session: Self)
        ensures
            session.wf(),
            session.graph_view().operators == Map::<u64, crate::params::OperatorView>::empty(),
            session.graph_view().epoch == 0,
            session.graph_view().next_id == 1,
            session.history_view().past == Seq::<GraphSnapshot>::empty(),
            session.history_view().future == Seq::<GraphSnapshot>::empty(),
            session.history_view().capacity == GRAPH_HISTORY_CAPACITY,
            session.pending_view() is None,
            session.cooked_epoch() == 0,
            session.timings_view() == (0u64, 0u64, 0u64),
            session.selection_view() is None,
            session.front_view() == 0,
    {
        let graph = OperatorGraph::new();
        let last_cooked_epoch = graph.epoch();
        Session {
            graph,
            history: UndoHistory::new(GRAPH_HISTORY_CAPACITY),
            last_cooked_epoch,
            pending_size: None,
            timings: TickTimings::new(),
            selection: Selection::new(),
            front: 0,
        }
    }

    /// The operator graph.
    pub fn graph(&self) -> (graph: &OperatorGraph)
        requires
            self.wf(),
        ensures
            graph.wf(),
            graph.view() == self.graph_view(),
    {
        &self.graph
    }

    /// The graph's undo history.
    pub fn history(&self) -> (history: &UndoHistory<GraphSnapshot>)
        requires
            self.wf(),
        ensures
            history.wf(),
            history.view() == self.history_view(),
    {
        &self.history
    }

    /// Capture the graph's snapshot.
    pub fn snapshot(&self) -> (snapshot: GraphSnapshot)
        requires
            self.wf(),
        ensures
            snapshot.wf(),
            is_snapshot_of(snapshot.view(), self.graph_view()),
    {
        self.graph.snapshot()
    }

    /// Push the current graph's snapshot onto the history.
    fn push_pre_image(&mut self)
        requires
            old(self).wf(),
        ensures
            final(self).wf(),
            final(self).graph == old(self).graph,
            final(self).last_cooked_epoch == old(self).last_cooked_epoch,
            final(self).pending_size == old(self).pending_size,
            final(self).timings == old(self).timings,
            final(self).selection == old(self).selection,
            final(self).front == old(self).front,
            pushed_pre_image(old(self).history.view(), final(self).history.view(), old(self).graph.view()),
    {
        let before = self.graph.snapshot();
        self.history.push(before);
    }

    /// Create an operator of kind `kind` (exactly `container` or `cube`)
    /// under `parent` (0 for the root) at `position`, returning its id.
    ///
    /// `InvalidArgument` for any other kind or an unknown parent, before
    /// anything changes.
    pub fn create_operator(&mut self, kind: &str, parent: u64, position: Position) -> (result: Result<
        u64,
        VrnResult,
    >)
        requires
            old(self).wf(),
            old(self).graph_view().operators.len() < u32::MAX,
        ensures
            final(self).wf(),
            final(self).selection_view() == old(self).selection_view(),
            final(self).front_view() == old(self).front_view(),
            final(self).pending_view() == old(self).pending_view(),
            final(self).cooked_epoch() == old(self).cooked_epoch(),
            final(self).timings_view() == old(self).timings_view(),
            kind_of_text(kind@) is None || (parent != 0 && !old(self).graph_view().operators.contains_key(
                parent,
            )) ==> {
                &&& result == Err::<u64, VrnResult>(VrnResult::InvalidArgument)
                &&& final(self).graph_view() == old(self).graph_view()
                &&& final(self).history_view() == old(self).history_view()
            },
            kind_of_text(kind@) matches Some(k) ==> (parent == 0 || old(self).graph_view().operators.contains_key(
                parent,
            )) ==> {
                &&& result == Ok::<u64, VrnResult>(old(self).graph_view().next_id)
                &&& final(self).graph_view() == created(
                    old(self).graph_view(),
                    k,
                    if parent == 0 {
                        None
                    } else {
                        Some(parent)
                    },
                    position,
                )
                &&& pushed_pre_image(
                    old(self).history_view(),
                    final(self).history_view(),
                    old(self).graph_view(),
                )
            },
    {
        let parsed = match parse_operator_kind(kind) {
            Ok(k) => k,
            Err(_) => {
                return Err(VrnResult::InvalidArgument);
            },
        };
        let parent_id = if parent == 0 {
            None
        } else {
            Some(NodeId(parent))
        };
        if let Some(id) = parent_id {
            if self.graph.operator(id).is_none() {
                return Err(VrnResult::InvalidArgument);
            }
        }
        self.push_pre_image();
        match self.graph.create_operator(parsed, parent_id, position) {
            Ok(id) => Ok(id.0),
            Err(_) => Err(VrnResult::InvalidArgument),
        }
    }

    /// Move an operator. `InvalidArgument` for an unknown id, before
    /// anything changes.
    pub fn move_operator(&mut self, id: u64, position: Position) -> (code: VrnResult)
        requires
            old(self).wf(),
        ensures
            final(self).wf(),
            final(self).selection_view() == old(self).selection_view(),
            final(self).front_view() == old(self).front_view(),
            final(self).pending_view() == old(self).pending_view(),
            final(self).cooked_epoch() == old(self).cooked_epoch(),
            final(self).timings_view() == old(self).timings_view(),
            !old(self).graph_view().operators.contains_key(id) ==> {
                &&& code == VrnResult::InvalidArgument
                &&& final(self).graph_view() == old(self).graph_view()
                &&& final(self).history_view() == old(self).history_view()
            },
            old(self).graph_view().operators.contains_key(id) ==> {
                &&& code == VrnResult::Success
                &&& final(self).graph_view() == moved(old(self).graph_view(), id, position)
                &&& pushed_pre_image(
                    old(self).history_view(),
                    final(self).history_view(),
                    old(self).graph_view(),
                )
            },
    {
        if self.graph.operator(NodeId(id)).is_none() {
            return VrnResult::InvalidArgument;
        }
        self.push_pre_image();
        match self.graph.move_operator(NodeId(id), position) {
            Ok(()) => VrnResult::Success,
            Err(_) => VrnResult::InvalidArgument,
        }
    }

    /// Rename an operator. `InvalidArgument` for an unknown id or a blank
    /// name, before anything changes.
    pub fn rename_operator(&mut self, id: u64, name: &str) -> (code: VrnResult)
        requires
            old(self).wf(),
        ensures
            final(self).wf(),
            final(self).selection_view() == old(self).selection_view(),
            final(self).front_view() == old(self).front_view(),
            final(self).pending_view() == old(self).pending_view(),
            final(self).cooked_epoch() == old(self).cooked_epoch(),
            final(self).timings_view() == old(self).timings_view(),
            !old(self).graph_view().operators.contains_key(id) || is_blank(name@) ==> {
                &&& code == VrnResult::InvalidArgument
                &&& final(self).graph_view() == old(self).graph_view()
                &&& final(self).history_view() == old(self).history_view()
            },
            old(self).graph_view().operators.contains_key(id) && !is_blank(name@) ==> {
                &&& code == VrnResult::Success
                &&& final(self).graph_view() == renamed(old(self).graph_view(), id, name@)
                &&& pushed_pre_image(
                    old(self).history_view(),
                    final(self).history_view(),
                    old(self).graph_view(),
                )
            },
    {
        if self.graph.operator(NodeId(id)).is_none() {
            return VrnResult::InvalidArgument;
        }
        if str_is_blank(name) {
            return VrnResult::InvalidArgument;
        }
        self.push_pre_image();
        match self.graph.rename_operator(NodeId(id), name) {
            Ok(()) => VrnResult::Success,
            Err(_) => VrnResult::InvalidArgument,
        }
    }

    /// Set a text parameter; a key trimming to `name` renames.
    /// `InvalidArgument` for an unknown id, a blank key, or a blank value
    /// on the rename path, before anything changes.
    pub fn set_parameter(&mut self, id: u64, key: &str, value: &str) -> (code: VrnResult)
        requires
            old(self).wf(),
        ensures
            final(self).wf(),
            final(self).selection_view() == old(self).selection_view(),
            final(self).front_view() == old(self).front_view(),
            final(self).pending_view() == old(self).pending_view(),
            final(self).cooked_epoch() == old(self).cooked_epoch(),
            final(self).timings_view() == old(self).timings_view(),
            ({
                let rejected = !old(self).graph_view().operators.contains_key(id) || is_blank(key@) || (
                spec_trim(key@) == name_key() && is_blank(value@));
                &&& rejected ==> {
                    &&& code == VrnResult::InvalidArgument
                    &&& final(self).graph_view() == old(self).graph_view()
                    &&& final(self).history_view() == old(self).history_view()
                }
                &&& !rejected ==> {
                    &&& code == VrnResult::Success
                    &&& final(self).graph_view() == parameter_set(old(self).graph_view(), id, key@, value@)
                    &&& pushed_pre_image(
                        old(self).history_view(),
                        final(self).history_view(),
                        old(self).graph_view(),
                    )
                }
            }),
    {
        if self.graph.operator(NodeId(id)).is_none() {
            return VrnResult::InvalidArgument;
        }
        if str_is_blank(key) {
            return VrnResult::InvalidArgument;
        }
        let trimmed_key = trimmed(key);
        proof {
            reveal_strlit("name");
            assert("name"@ =~= name_key());
            lemma_trim_blank(key@);
        }
        if str_eq(trimmed_key.as_str(), "name") && str_is_blank(value) {
            return VrnResult::InvalidArgument;
        }
        self.push_pre_image();
        match self.graph.set_parameter(NodeId(id), key, value) {
            Ok(()) => VrnResult::Success,
            Err(_) => VrnResult::InvalidArgument,
        }
    }

    /// Delete an operator and its subtree. `InvalidArgument` for an
    /// unknown id, before anything changes.
    pub fn delete_operator(&mut self, id: u64) -> (code: VrnResult)
        requires
            old(self).wf(),
        ensures
            final(self).wf(),
            final(self).selection_view() == old(self).selection_view(),
            final(self).front_view() == old(self).front_view(),
            final(self).pending_view() == old(self).pending_view(),
            final(self).cooked_epoch() == old(self).cooked_epoch(),
            final(self).timings_view() == old(self).timings_view(),
            !old(self).graph_view().operators.contains_key(id) ==> {
                &&& code == VrnResult::InvalidArgument
                &&& final(self).graph_view() == old(self).graph_view()
                &&& final(self).history_view() == old(self).history_view()
            },
            old(self).graph_view().operators.contains_key(id) ==> {
                let removed = subtree(old(self).graph_view().operators, id);
                &&& code == VrnResult::Success
                &&& final(self).graph_view().operators == old(self).graph_view().operators.remove_keys(
                    removed,
                )
                &&& final(self).graph_view().edges.to_multiset() == surviving_edges(
                    old(self).graph_view().edges,
                    removed,
                ).to_multiset()
                &&& final(self).graph_view().next_id == old(self).graph_view().next_id
                &&& final(self).graph_view().epoch == saturating_next(old(self).graph_view().epoch)
                &&& pushed_pre_image(
                    old(self).history_view(),
                    final(self).history_view(),
                    old(self).graph_view(),
                )
            },
    {
        if self.graph.operator(NodeId(id)).is_none() {
            return VrnResult::InvalidArgument;
        }
        self.push_pre_image();
        match self.graph.delete_operator(NodeId(id)) {
            Ok(()) => VrnResult::Success,
            Err(_) => VrnResult::InvalidArgument,
        }
    }

    /// Replace the graph from a snapshot of the current or the previous
    /// wire version. `InvalidArgument` when it does not restore (another
    /// version, or invalid contents), changing nothing; on success the
    /// pre-image is pushed, and a previous-version snapshot also clears the
    /// live pick, whose face identity predates the current grouping.
    pub fn restore(&mut self, snapshot: GraphSnapshot) -> (code: VrnResult)
        requires
            old(self).wf(),
            snapshot.wf(),
            snapshot.operators@.len() <= u32::MAX,
            snapshot.edges@.len() <= u32::MAX,
        ensures
            final(self).wf(),
            final(self).front_view() == old(self).front_view(),
            final(self).pending_view() == old(self).pending_view(),
            final(self).cooked_epoch() == old(self).cooked_epoch(),
            final(self).timings_view() == old(self).timings_view(),
            restore_error(snapshot.view()) is Some ==> {
                &&& code == VrnResult::InvalidArgument
                &&& final(self).graph_view() == old(self).graph_view()
                &&& final(self).history_view() == old(self).history_view()
                &&& final(self).selection_view() == old(self).selection_view()
            },
            restore_error(snapshot.view()) is None ==> {
                &&& code == VrnResult::Success
                &&& final(self).graph_view() == restored(old(self).graph_view(), snapshot.view())
                &&& pushed_pre_image(
                    old(self).history_view(),
                    final(self).history_view(),
                    old(self).graph_view(),
                )
                &&& final(self).selection_view() == if snapshot.version == GRAPH_SNAPSHOT_VERSION {
                    old(self).selection_view()
                } else {
                    None
                }
            },
    {
        let migrate = snapshot.version != GRAPH_SNAPSHOT_VERSION;
        let before = self.graph.snapshot();
        match self.graph.restore(snapshot) {
            Ok(()) => {
                self.history.push(before);
                if migrate {
                    self.selection.clear();
                }
                VrnResult::Success
            },
            Err(_) => VrnResult::InvalidArgument,
        }
    }

    /// The live pick, if any.
    pub fn selection(&self) -> (pick: Option<Pick>)
        ensures
            pick == match self.selection_view() {
                Some((p, _)) => Some(p),
                None => None,
            },
    {
        self.selection.get()
    }

    /// Select `pick`, whose target has `polygons` polygons, replacing any
    /// previous pick.
    pub fn select(&mut self, pick: Pick, polygons: usize)
        ensures
            final(self).selection_view() == Some((pick, polygons)),
            old(self).wf() ==> final(self).wf(),
            final(self).graph_view() == old(self).graph_view(),
            final(self).history_view() == old(self).history_view(),
            final(self).pending_view() == old(self).pending_view(),
            final(self).cooked_epoch() == old(self).cooked_epoch(),
            final(self).front_view() == old(self).front_view(),
            final(self).timings_view() == old(self).timings_view(),
    {
        self.selection.store(pick, polygons);
    }

    /// Clear the live pick.
    pub fn clear_selection(&mut self)
        ensures
            final(self).selection_view() is None,
            old(self).wf() ==> final(self).wf(),
            final(self).graph_view() == old(self).graph_view(),
            final(self).history_view() == old(self).history_view(),
            final(self).pending_view() == old(self).pending_view(),
            final(self).cooked_epoch() == old(self).cooked_epoch(),
            final(self).front_view() == old(self).front_view(),
            final(self).timings_view() == old(self).timings_view(),
    {
        self.selection.clear();
    }

    /// Record a viewport size intent for the next tick. `InvalidArgument`
    /// for a zero extent or a long edge past the cap, nothing recorded.
    pub fn request_viewport_size(&mut self, width: u32, height: u32) -> (code: VrnResult)
        ensures
            old(self).wf() ==> final(self).wf(),
            final(self).selection_view() == old(self).selection_view(),
            final(self).front_view() == old(self).front_view(),
            final(self).graph_view() == old(self).graph_view(),
            final(self).history_view() == old(self).history_view(),
            final(self).cooked_epoch() == old(self).cooked_epoch(),
            final(self).timings_view() == old(self).timings_view(),
            viewport_size_ok(width, height) ==> code == VrnResult::Success && final(self).pending_view() == Some(
                (width, height),
            ),
            !viewport_size_ok(width, height) ==> code == VrnResult::InvalidArgument
                && final(self).pending_view() == old(self).pending_view(),
    {
        match check_viewport_size(width, height) {
            Ok(()) => {
                self.pending_size = Some((width, height));
                VrnResult::Success
            },
            Err(_) => VrnResult::InvalidArgument,
        }
    }

    /// Take the pending viewport intent, leaving none.
    pub fn take_pending_size(&mut self) -> (pending: Option<(u32, u32)>)
        ensures
            pending == old(self).pending_view(),
            final(self).pending_view() is None,
            old(self).wf() ==> final(self).wf(),
            final(self).selection_view() == old(self).selection_view(),
            final(self).front_view() == old(self).front_view(),
            final(self).graph_view() == old(self).graph_view(),
            final(self).history_view() == old(self).history_view(),
            final(self).cooked_epoch() == old(self).cooked_epoch(),
            final(self).timings_view() == old(self).timings_view(),
    {
        let pending = self.pending_size;
        self.pending_size = None;
        pending
    }

    /// Whether the graph moved since it was last cooked.
    pub fn needs_recook(&self) -> (dirty: bool)
        ensures
            dirty == (self.graph_view().epoch != self.cooked_epoch()),
    {
        self.graph.epoch() != self.last_cooked_epoch
    }

    /// Record that the current graph epoch has been cooked.
    pub fn mark_cooked(&mut self)
        ensures
            final(self).cooked_epoch() == old(self).graph_view().epoch,
            old(self).wf() ==> final(self).wf(),
            final(self).selection_view() == old(self).selection_view(),
            final(self).front_view() == old(self).front_view(),
            final(self).graph_view() == old(self).graph_view(),
            final(self).history_view() == old(self).history_view(),
            final(self).pending_view() == old(self).pending_view(),
            final(self).timings_view() == old(self).timings_view(),
    {
        self.last_cooked_epoch = self.graph.epoch();
    }

    /// Record a fully published frame: the back surface becomes the front,
    /// and the readback and upload splits are kept.
    pub fn record_publish(&mut self, readback_us: u64, upload_us: u64)
        ensures
            final(self).timings_view() == (old(self).timings_view().0, readback_us, upload_us),
            final(self).front_view() == if old(self).front_view() == 0 {
                1usize
            } else {
                0usize
            },
            old(self).wf() ==> final(self).wf(),
            final(self).selection_view() == old(self).selection_view(),
            final(self).graph_view() == old(self).graph_view(),
            final(self).history_view() == old(self).history_view(),
            final(self).pending_view() == old(self).pending_view(),
            final(self).cooked_epoch() == old(self).cooked_epoch(),
    {
        self.timings.readback = readback_us;
        self.timings.upload = upload_us;
        self.front = if self.front == 0 {
            1
        } else {
            0
        };
    }

    /// Record the schedule split of a fully published tick.
    pub fn record_update(&mut self, update_us: u64)
        ensures
            final(self).timings_view() == (update_us, old(self).timings_view().1, old(self).timings_view().2),
            old(self).wf() ==> final(self).wf(),
            final(self).selection_view() == old(self).selection_view(),
            final(self).front_view() == old(self).front_view(),
            final(self).graph_view() == old(self).graph_view(),
            final(self).history_view() == old(self).history_view(),
            final(self).pending_view() == old(self).pending_view(),
            final(self).cooked_epoch() == old(self).cooked_epoch(),
    {
        self.timings.update = update_us;
    }

    /// The surface slot the published frame is in.
    pub fn front_slot(&self) -> (slot: usize)
        requires
            self.wf(),
        ensures
            slot == self.front_view(),
            slot < 2,
    {
        self.front
    }

    /// The surface slot the next frame is written into: the other one.
    pub fn back_slot(&self) -> (slot: usize)
        requires
            self.wf(),
        ensures
            slot == 1 - self.front_view(),
            slot < 2,
    {
        1 - self.front
    }

    /// Apply a resolved tap: a hit (the pick and its target's polygon
    /// total) replaces the selection, a miss clears it.
    pub fn apply_pick(&mut self, resolved: Option<(Pick, usize)>) -> (code: VrnResult)
        ensures
            code == VrnResult::Success,
            final(self).selection_view() == resolved,
            old(self).wf() ==> final(self).wf(),
            final(self).graph_view() == old(self).graph_view(),
            final(self).history_view() == old(self).history_view(),
            final(self).pending_view() == old(self).pending_view(),
            final(self).cooked_epoch() == old(self).cooked_epoch(),
            final(self).timings_view() == old(self).timings_view(),
            final(self).front_view() == old(self).front_view(),
    {
        match resolved {
            Some((pick, polygons)) => self.selection.store(pick, polygons),
            None => self.selection.clear(),
        }
        VrnResult::Success
    }

    /// Stage splits of the most recent fully published tick.
    pub fn last_tick_timings(&self) -> (timings: TickTimings)
        ensures
            timings.view() == self.timings_view(),
    {
        self.timings
    }
}

} // verus!
