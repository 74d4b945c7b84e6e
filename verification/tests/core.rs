use veronica::domain::{
    validate_mesh_topology, validate_morph_weight, CoreError, MeshTopology, UndoHistory,
};

#[test]
fn rejects_out_of_range_morph_weight() {
    assert!(validate_morph_weight(0.5_f32.to_bits()).is_ok());
    assert_eq!(
        validate_morph_weight(1.5_f32.to_bits()),
        Err(CoreError::MorphWeightOutOfRange(1.5_f32.to_bits()))
    );
}

#[test]
fn undo_redo_round_trips() {
    let mut history = UndoHistory::new(8);
    history.push(1_u32);
    assert_eq!(history.undo(2), Some(1));
    assert_eq!(history.redo(1), Some(2));
}

#[test]
fn mesh_stride_accepts_whole_elements_only() {
    let valid = MeshTopology {
        positions: vec![0.0_f32.to_bits(); 6],
        indices: vec![0; 3],
    };
    assert!(validate_mesh_topology(&valid).is_ok());
    let ragged = MeshTopology {
        positions: vec![0.0_f32.to_bits(); 4],
        indices: vec![0; 3],
    };
    assert_eq!(
        validate_mesh_topology(&ragged),
        Err(CoreError::InvalidMeshStride)
    );
}

#[test]
fn empty_history_undo_redo_are_none() {
    let mut history: UndoHistory<u32> = UndoHistory::new(4);
    assert_eq!(history.undo(1), None);
    assert_eq!(history.redo(1), None);
}

#[test]
fn history_evicts_oldest_at_capacity() {
    let mut history = UndoHistory::new(2);
    history.push(1_u32);
    history.push(2);
    history.push(3);
    assert_eq!(history.undo(9), Some(3));
    assert_eq!(history.undo(9), Some(2));
    assert_eq!(history.undo(9), None);
}

#[test]
fn morph_weight_bounds_follow_f32_comparison() {
    for inside in [0.0_f32, -0.0, 1.0, 0.25, f32::MIN_POSITIVE, 1e-45] {
        assert_eq!(
            validate_morph_weight(inside.to_bits()),
            Ok(inside.to_bits()),
            "{inside} lies in 0..=1"
        );
    }
    for outside in [-0.5_f32, 1.000_001, 2.0, f32::NAN, f32::INFINITY, f32::NEG_INFINITY, -1e-45] {
        assert_eq!(
            validate_morph_weight(outside.to_bits()),
            Err(CoreError::MorphWeightOutOfRange(outside.to_bits())),
            "{outside} lies outside 0..=1"
        );
    }
}

#[test]
fn zero_capacity_history_still_keeps_one_step() {
    let mut history = UndoHistory::new(0);
    history.push(1_u32);
    history.push(2);
    assert_eq!(history.undo(7), Some(2));
    assert_eq!(history.undo(7), None);
}

#[test]
fn push_clears_the_redo_stack() {
    let mut history = UndoHistory::new(4);
    history.push(1_u32);
    assert_eq!(history.undo(2), Some(1));
    history.push(5);
    assert_eq!(history.redo(6), None);
    assert_eq!(history.undo(6), Some(5));
}

#[test]
fn undo_after_push_returns_the_pushed_snapshot() {
    let mut history = UndoHistory::new(3);
    for value in [10_u32, 20, 30, 40] {
        history.push(value);
        assert_eq!(history.undo(0), Some(value));
        assert_eq!(history.redo(value), Some(0));
    }
}

#[test]
fn default_history_has_no_capacity_and_nothing_to_undo() {
    let mut history: UndoHistory<u32> = UndoHistory::default();
    assert_eq!(history.undo(1), None);
    assert_eq!(history.redo(1), None);
}
