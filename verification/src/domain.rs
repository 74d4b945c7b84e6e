//! Domain types owned by the engine: stable ids, mesh-buffer validation,
//! morph-weight validation, and the bounded undo/redo history.
//!
//! Floating-point channels travel as IEEE-754 bit patterns (`f32::to_bits`)
//! here: the library stores and compares them, it never does arithmetic on
//! them, so the bits are exactly what the engine sees.

use vstd::prelude::*;

verus! {

/// Stable identifier for a node in the procedural DAG.
#[derive(Debug, Clone, Copy, PartialEq, Eq, Hash, Structural)]
pub struct NodeId(pub u64);

/// Stable identifier for a mesh in the scene.
#[derive(Debug, Clone, Copy, PartialEq, Eq, Hash, Structural)]
pub struct MeshId(pub u64);

/// Minimal mesh topology: indexed triangle list.
///
/// `positions` holds flat `f32` coordinates as their bit patterns.
#[derive(Debug, Clone)]
pub struct MeshTopology {
    /// Flat vertex positions as `f32` bit patterns (`len % 3 == 0`).
    pub positions: Vec<u32>,
    /// Triangle indices into the vertex list (`len % 3 == 0`).
    pub indices: Vec<u32>,
}

/// Errors for domain validation.
#[derive(Debug, Clone, Copy, PartialEq, Eq, Structural)]
pub enum CoreError {
    /// A morph weight (its `f32` bit pattern) was outside `0.0..=1.0`.
    MorphWeightOutOfRange(u32),
    /// Mesh buffers were not a multiple of the element stride.
    InvalidMeshStride,
}

/// Bit pattern of `1.0_f32`.
pub const F32_ONE_BITS: u32 = 0x3F80_0000;

/// Bit pattern of `-0.0_f32`.
pub const F32_NEG_ZERO_BITS: u32 = 0x8000_0000;

/// Whether the `f32` with bit pattern `bits` lies in `0.0..=1.0`.
///
/// Non-negative floats order exactly like their bit patterns, `+0.0` is
/// `0`, `1.0` is [`F32_ONE_BITS`], and everything above it is larger or
/// NaN; `-0.0` compares equal to `0.0`; every other sign-bit pattern is
/// negative or NaN.
pub open spec fn f32_bits_in_unit_interval(bits: u32) -> bool {
    bits <= F32_ONE_BITS || bits == F32_NEG_ZERO_BITS
}

/// Validate a single morph weight (as its `f32` bit pattern) is within
/// `0.0..=1.0`, handing it back unchanged when it is.
pub fn validate_morph_weight(weight_bits: u32) -> (result: Result<u32, CoreError>)
    ensures
        f32_bits_in_unit_interval(weight_bits) ==> result == Ok::<u32, CoreError>(weight_bits),
        !f32_bits_in_unit_interval(weight_bits) ==> result == Err::<u32, CoreError>(
            CoreError::MorphWeightOutOfRange(weight_bits),
        ),
{
    if weight_bits <= F32_ONE_BITS || weight_bits == F32_NEG_ZERO_BITS {
        Ok(weight_bits)
    } else {
        Err(CoreError::MorphWeightOutOfRange(weight_bits))
    }
}

/// Validate mesh buffers hold whole vertices and triangles: both lengths
/// must be multiples of 3.
pub fn validate_mesh_topology(mesh: &MeshTopology) -> (result: Result<(), CoreError>)
    ensures
        result is Ok <==> (mesh.positions@.len() % 3 == 0 && mesh.indices@.len() % 3 == 0),
        result is Err ==> result == Err::<(), CoreError>(CoreError::InvalidMeshStride),
{
    if mesh.positions.len() % 3 == 0 && mesh.indices.len() % 3 == 0 {
        Ok(())
    } else {
        Err(CoreError::InvalidMeshStride)
    }
}

/// Abstract state of an [`UndoHistory`].
pub struct HistoryView<T> {
    /// Snapshots that undo restores, oldest first.
    pub past: Seq<T>,
    /// Snapshots that redo restores, most recently undone last.
    pub future: Seq<T>,
    /// Most past snapshots kept.
    pub capacity: nat,
}

/// Bounded undo/redo history over snapshots of `T`.
#[derive(Debug, Clone)]
pub struct UndoHistory<T> {
    past: Vec<T>,
    future: Vec<T>,
    capacity: usize,
}

/// The history after pushing `snapshot`: the oldest past snapshot is
/// evicted at capacity, and the redo stack is cleared.
pub open spec fn spec_push<T>(h: HistoryView<T>, snapshot: T) -> HistoryView<T> {
    HistoryView {
        past: if h.past.len() >= h.capacity {
            h.past.drop_first().push(snapshot)
        } else {
            h.past.push(snapshot)
        },
        future: Seq::empty(),
        capacity: h.capacity,
    }
}

/// One undo step handing in the `current` state: the newest past snapshot
/// comes back and `current` goes onto the redo stack; with no past, nothing
/// changes and nothing comes back.
pub open spec fn spec_undo<T>(h: HistoryView<T>, current: T) -> (HistoryView<T>, Option<T>) {
    if h.past.len() == 0 {
        (h, None)
    } else {
        (
            HistoryView { past: h.past.drop_last(), future: h.future.push(current), capacity: h.capacity },
            Some(h.past.last()),
        )
    }
}

/// One redo step handing in the `current` state: the newest redo snapshot
/// comes back and `current` goes onto the past; with nothing to redo,
/// nothing changes and nothing comes back.
pub open spec fn spec_redo<T>(h: HistoryView<T>, current: T) -> (HistoryView<T>, Option<T>) {
    if h.future.len() == 0 {
        (h, None)
    } else {
        (
            HistoryView { past: h.past.push(current), future: h.future.drop_last(), capacity: h.capacity },
            Some(h.future.last()),
        )
    }
}

impl<T> UndoHistory<T> {
    /// Abstract state: past and redo stacks plus the capacity.
    pub closed spec fn view(&self) -> HistoryView<T> {
        HistoryView { past: self.past@, future: self.future@, capacity: self.capacity as nat }
    }

    /// The two stacks together never exceed the capacity.
    pub open spec fn wf(&self) -> bool {
        self.view().past.len() + self.view().future.len() <= self.view().capacity
    }

    /// Create a history holding at most `capacity` past snapshots (at least
    /// one, whatever is asked).
    pub fn new(capacity: usize) -> (history: Self)
        ensures
            history.wf(),
            history.view().past == Seq::<T>::empty(),
            history.view().future == Seq::<T>::empty(),
            history.view().capacity == if capacity >= 1 { capacity as nat } else { 1nat },
    {
        UndoHistory { past: Vec::new(), future: Vec::new(), capacity: if capacity >= 1 { capacity } else { 1 } }
    }

    /// Push a new snapshot, evicting the oldest at capacity and clearing the
    /// redo stack.
    pub fn push(&mut self, snapshot: T)
        requires
            old(self).wf(),
            old(self).view().capacity >= 1,
        ensures
            final(self).wf(),
            final(self).view() == spec_push(old(self).view(), snapshot),
    {
        if self.past.len() >= self.capacity {
            self.past.remove(0);
        }
        self.past.push(snapshot);
        self.future.clear();
    }

    /// Undo one step, returning the snapshot to restore, if any.
    pub fn undo(&mut self, current: T) -> (restored: Option<T>)
        requires
            old(self).wf(),
        ensures
            final(self).wf(),
            (final(self).view(), restored) == spec_undo(old(self).view(), current),
    {
        match self.past.pop() {
            Some(previous) => {
                self.future.push(current);
                Some(previous)
            },
            None => None,
        }
    }

    /// Redo one step, returning the snapshot to restore, if any.
    pub fn redo(&mut self, current: T) -> (restored: Option<T>)
        requires
            old(self).wf(),
        ensures
            final(self).wf(),
            (final(self).view(), restored) == spec_redo(old(self).view(), current),
    {
        match self.future.pop() {
            Some(next) => {
                self.past.push(current);
                Some(next)
            },
            None => None,
        }
    }
}

/// Undo right after a push hands back exactly the pushed snapshot.
pub proof fn lemma_undo_returns_last_push<T>(h: HistoryView<T>, snapshot: T, current: T)
    requires
        h.capacity >= 1,
    ensures
        spec_undo(spec_push(h, snapshot), current).1 == Some(snapshot),
{
}

/// Redo right after a successful undo hands back the state given to undo,
/// and undo-then-redo with the restored snapshot leaves the history exactly
/// as it was.
pub proof fn lemma_undo_redo_round_trip<T>(h: HistoryView<T>, current: T)
    requires
        h.past.len() > 0,
    ensures
        ({
            let (after_undo, restored) = spec_undo(h, current);
            let (after_redo, redone) = spec_redo(after_undo, restored.unwrap());
            &&& redone == Some(current)
            &&& after_redo == h
        }),
{
    let (after_undo, restored) = spec_undo(h, current);
    assert(after_undo.past.push(restored.unwrap()) =~= h.past);
    assert(after_undo.future.drop_last() =~= h.future);
}

/// A push never grows the past beyond the capacity, and at capacity it
/// evicts exactly the oldest snapshot.
pub proof fn lemma_push_respects_capacity<T>(h: HistoryView<T>, snapshot: T)
    requires
        h.capacity >= 1,
        h.past.len() <= h.capacity,
    ensures
        spec_push(h, snapshot).past.len() <= h.capacity,
        h.past.len() == h.capacity ==> spec_push(h, snapshot).past == h.past.subrange(
            1,
            h.past.len() as int,
        ).push(snapshot),
{
}

impl<T> Default for UndoHistory<T> {
    /// An empty history of capacity 0: undo and redo find nothing, and
    /// nothing can be pushed (a push at capacity 0 has no oldest snapshot
    /// to evict); histories meant for use come from [`UndoHistory::new`].
    fn default() -> (history: Self)
        ensures
            history.wf(),
            history.view().past == Seq::<T>::empty(),
            history.view().future == Seq::<T>::empty(),
            history.view().capacity == 0,
    {
        UndoHistory { past: Vec::new(), future: Vec::new(), capacity: 0 }
    }
}

} // verus!
