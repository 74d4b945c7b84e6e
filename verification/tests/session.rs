use veronica::domain::{MeshId, NodeId};
use veronica::operator_graph::GraphSnapshot;
use veronica::pick::Pick;
use veronica::params::{OperatorKind, ParamValue, Position};
use veronica::session::{
    mesh_id_ffi_layout, mesh_validation_code, micros_saturating, parse_operator_kind, Session,
    TickTimings, VrnResult,
};

fn position(x: f64, y: f64) -> Position {
    Position {
        x: x.to_bits(),
        y: y.to_bits(),
    }
}

#[test]
fn mesh_stride_maps_to_result_codes() {
    assert_eq!(mesh_validation_code(6, 3), VrnResult::Success);
    assert_eq!(mesh_validation_code(4, 3), VrnResult::InvalidArgument);
    assert_eq!(mesh_validation_code(3, 4), VrnResult::InvalidArgument);
}

#[test]
fn id_and_weight_layout_shims() {
    assert_eq!(mesh_id_ffi_layout(MeshId(7)), 7);
}

#[test]
fn set_size_guards_map_to_result_codes() {
    let mut session = Session::new();
    for (width, height) in [(0, 200), (320, 0), (0, 0), (2049, 100), (100, 4096)] {
        assert_eq!(
            session.request_viewport_size(width, height),
            VrnResult::InvalidArgument,
            "extents {width}x{height} must be rejected"
        );
    }
    assert_eq!(session.take_pending_size(), None);
    assert_eq!(session.request_viewport_size(2048, 2048), VrnResult::Success);
    assert_eq!(
        session.request_viewport_size(2049, 2048),
        VrnResult::InvalidArgument
    );
    assert_eq!(session.take_pending_size(), Some((2048, 2048)));
    assert_eq!(session.take_pending_size(), None);
}

#[test]
fn splits_start_at_zero_and_capture_after_tick() {
    let mut session = Session::new();
    let timings = session.last_tick_timings();
    assert_eq!(
        (timings.update_us(), timings.readback_us(), timings.upload_us()),
        (0, 0, 0)
    );
    session.record_publish(5, 7);
    session.record_update(3);
    let timings = session.last_tick_timings();
    assert_eq!(
        (timings.update_us(), timings.readback_us(), timings.upload_us()),
        (3, 5, 7)
    );
    assert!(timings.update_us() + timings.readback_us() + timings.upload_us() > 0);
    assert_eq!(TickTimings::default(), TickTimings::new());
}

#[test]
fn create_move_rename_delete_round_trip() {
    let mut session = Session::new();
    let id = session
        .create_operator("container", 0, position(120.0, 80.0))
        .unwrap();
    assert_eq!(id, 1);
    assert_eq!(session.move_operator(id, position(10.0, 20.0)), VrnResult::Success);
    assert_eq!(session.rename_operator(id, "Hero"), VrnResult::Success);
    assert_eq!(session.rename_operator(id, "Villain"), VrnResult::Success);
    let snapshot = session.snapshot();
    assert_eq!(snapshot.operators.len(), 1);
    assert_eq!(snapshot.operators[0].name, "Villain");
    assert_eq!(session.delete_operator(id), VrnResult::Success);
    assert!(session.snapshot().operators.is_empty());
}

#[test]
fn strict_kind_validation_rejects_anything_but_known_kinds() {
    let mut session = Session::new();
    for rejected in [
        "box",
        "Container",
        "CONTAINER",
        "",
        "container ",
        "Cube",
        "cube ",
    ] {
        assert_eq!(
            session.create_operator(rejected, 0, position(0.0, 0.0)),
            Err(VrnResult::InvalidArgument),
            "kind {rejected:?} must be rejected"
        );
        assert_eq!(
            parse_operator_kind(rejected),
            Err(VrnResult::InvalidArgument)
        );
    }
    assert!(session.snapshot().operators.is_empty());
    assert_eq!(parse_operator_kind("container"), Ok(OperatorKind::Container));
    assert_eq!(parse_operator_kind("cube"), Ok(OperatorKind::Cube));
}

#[test]
fn cube_kind_is_accepted_and_visible_in_snapshots() {
    let mut session = Session::new();
    let id = session.create_operator("cube", 0, position(0.0, 0.0)).unwrap();
    assert_eq!(id, 1);
    assert_eq!(session.snapshot().operators[0].kind, OperatorKind::Cube);
}

#[test]
fn unknown_ids_and_blank_names_are_invalid() {
    let mut session = Session::new();
    assert_eq!(
        session.move_operator(99, position(0.0, 0.0)),
        VrnResult::InvalidArgument
    );
    assert_eq!(session.delete_operator(99), VrnResult::InvalidArgument);
    assert_eq!(session.rename_operator(99, "Hero"), VrnResult::InvalidArgument);
    assert_eq!(session.rename_operator(1, "   "), VrnResult::InvalidArgument);
    assert_eq!(session.rename_operator(1, ""), VrnResult::InvalidArgument);
    assert_eq!(
        session.create_operator("container", 7, position(0.0, 0.0)),
        Err(VrnResult::InvalidArgument)
    );
}

#[test]
fn restore_round_trip_and_rejects_v1_and_garbage() {
    let mut session = Session::new();
    let id = session
        .create_operator("container", 0, position(120.0, 80.0))
        .unwrap();
    assert_eq!(session.rename_operator(id, "Hero"), VrnResult::Success);
    let snapshot = session.snapshot();
    let mut fresh = Session::new();
    assert_eq!(fresh.restore(snapshot.clone()), VrnResult::Success);
    assert_eq!(fresh.snapshot(), snapshot);
    let v1 = GraphSnapshot {
        version: 1,
        operators: vec![],
        edges: vec![],
    };
    assert_eq!(fresh.restore(v1), VrnResult::InvalidArgument);
    let dangling = GraphSnapshot {
        version: 3,
        operators: vec![],
        edges: vec![(NodeId(1), NodeId(2))],
    };
    assert_eq!(fresh.restore(dangling), VrnResult::InvalidArgument);
    assert_eq!(fresh.snapshot(), snapshot);
}

#[test]
fn set_parameter_round_trip_is_visible_in_snapshot() {
    let mut session = Session::new();
    let id = session
        .create_operator("container", 0, position(0.0, 0.0))
        .unwrap();
    assert_eq!(session.set_parameter(id, "label", "Hero"), VrnResult::Success);
    let snapshot = session.snapshot();
    assert_eq!(
        snapshot.operators[0].parameters.get("label"),
        Some(&ParamValue::Text("Hero".to_owned()))
    );
    assert_eq!(session.set_parameter(id, "name", "Villain"), VrnResult::Success);
    assert_eq!(session.snapshot().operators[0].name, "Villain");
}

#[test]
fn set_parameter_guards_map_to_result_codes() {
    let mut session = Session::new();
    let id = session
        .create_operator("container", 0, position(0.0, 0.0))
        .unwrap();
    assert_eq!(
        session.set_parameter(99, "label", "Hero"),
        VrnResult::InvalidArgument
    );
    assert_eq!(
        session.set_parameter(id, "   ", "Hero"),
        VrnResult::InvalidArgument
    );
    assert_eq!(session.set_parameter(id, "", "Hero"), VrnResult::InvalidArgument);
    assert_eq!(
        session.set_parameter(id, "name", "   "),
        VrnResult::InvalidArgument
    );
    assert!(!session.snapshot().operators[0].parameters.contains_key("label"));
}

#[test]
fn looped_snapshot_and_free_is_stable() {
    let mut session = Session::new();
    session
        .create_operator("container", 0, position(1.0, 2.0))
        .unwrap();
    let first = session.snapshot();
    for _ in 0..128 {
        assert_eq!(session.snapshot(), first);
    }
}

#[test]
fn accepted_intents_push_their_pre_image_and_rejected_ones_push_nothing() {
    let mut session = Session::new();
    let id = session
        .create_operator("container", 0, position(0.0, 0.0))
        .unwrap();
    let after_create = session.snapshot();
    assert_eq!(session.rename_operator(id, "   "), VrnResult::InvalidArgument);
    assert_eq!(session.set_parameter(id, " ", "v"), VrnResult::InvalidArgument);
    assert_eq!(session.rename_operator(id, "Hero"), VrnResult::Success);
    let current = session.snapshot();
    let mut history = session.history().clone();
    assert_eq!(history.undo(current), Some(after_create.clone()));
    let first = history.undo(after_create).unwrap();
    assert!(first.operators.is_empty());
    assert_eq!(history.undo(first), None);
}

#[test]
fn recook_stamp_follows_the_graph_epoch() {
    let mut session = Session::new();
    assert!(!session.needs_recook());
    session
        .create_operator("cube", 0, position(0.0, 0.0))
        .unwrap();
    assert!(session.needs_recook());
    session.mark_cooked();
    assert!(!session.needs_recook());
    assert_eq!(session.move_operator(99, position(0.0, 0.0)), VrnResult::InvalidArgument);
    assert!(!session.needs_recook());
}

#[test]
fn elapsed_micros_saturate_at_u64() {
    assert_eq!(micros_saturating(0), 0);
    assert_eq!(micros_saturating(1_234), 1_234);
    assert_eq!(micros_saturating(u128::from(u64::MAX)), u64::MAX);
    assert_eq!(micros_saturating(u128::from(u64::MAX) + 1), u64::MAX);
    assert_eq!(micros_saturating(u128::MAX), u64::MAX);
}

#[test]
fn restore_pushes_its_pre_image_only_after_success() {
    let mut session = Session::new();
    let empty = session.snapshot();
    let mut other = Session::new();
    other
        .create_operator("container", 0, position(0.0, 0.0))
        .unwrap();
    assert_eq!(session.restore(other.snapshot()), VrnResult::Success);
    let stale = GraphSnapshot {
        version: 1,
        operators: vec![],
        edges: vec![],
    };
    assert_eq!(session.restore(stale), VrnResult::InvalidArgument);
    let mut history = session.history().clone();
    let current = session.snapshot();
    assert_eq!(history.undo(current), Some(empty.clone()));
    assert_eq!(history.undo(empty), None);
}

#[test]
fn previous_version_restores_and_clears_the_live_pick() {
    let mut source = Session::new();
    let id = source
        .create_operator("container", 0, position(120.0, 80.0))
        .unwrap();
    assert_eq!(source.rename_operator(id, "Hero"), VrnResult::Success);
    let mut v2 = source.snapshot();
    v2.version = 2;
    let pick = Pick {
        node: NodeId(7),
        face: 3,
    };

    let mut session = Session::new();
    session.select(pick, 6);
    assert_eq!(session.restore(v2), VrnResult::Success);
    assert_eq!(session.selection(), None);
    let restored = session.snapshot();
    assert_eq!(restored.version, 3);
    assert_eq!(restored.operators.len(), 1);
    assert_eq!(restored.operators[0].name, "Hero");

    session.select(pick, 6);
    assert_eq!(session.restore(source.snapshot()), VrnResult::Success);
    assert_eq!(session.selection(), Some(pick));

    let v1 = GraphSnapshot {
        version: 1,
        operators: vec![],
        edges: vec![],
    };
    assert_eq!(session.restore(v1), VrnResult::InvalidArgument);
    assert_eq!(session.selection(), Some(pick));
    session.clear_selection();
    assert_eq!(session.selection(), None);
}

#[test]
fn a_hit_replaces_the_pick_and_a_miss_clears_it() {
    let mut session = Session::new();
    let first = Pick {
        node: NodeId(1),
        face: 0,
    };
    let second = Pick {
        node: NodeId(2),
        face: 5,
    };
    assert_eq!(session.apply_pick(Some((first, 6))), VrnResult::Success);
    assert_eq!(session.selection(), Some(first));
    assert_eq!(session.apply_pick(Some((second, 16))), VrnResult::Success);
    assert_eq!(session.selection(), Some(second));
    assert_eq!(session.apply_pick(None), VrnResult::Success);
    assert_eq!(session.selection(), None);
}

#[test]
fn each_publish_swaps_front_and_back_surfaces() {
    let mut session = Session::new();
    assert_eq!((session.front_slot(), session.back_slot()), (0, 1));
    session.record_publish(10, 20);
    assert_eq!((session.front_slot(), session.back_slot()), (1, 0));
    session.record_publish(11, 21);
    assert_eq!((session.front_slot(), session.back_slot()), (0, 1));
    assert_eq!(session.last_tick_timings().readback_us(), 11);
    assert_eq!(session.last_tick_timings().upload_us(), 21);
}
