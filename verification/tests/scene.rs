use veronica::domain::NodeId;
use veronica::face_id::{HIT_ALPHA, MAX_FACE_ORDINAL, MISS_ALPHA, MISS_PIXEL};
use veronica::frame::{
    check_handoff, check_viewport_size, staging_stride, unpad_rows, ChannelShape, RenderFrame,
    SceneError, FRAME_BYTES_PER_PIXEL,
    FRAME_HEIGHT, FRAME_WIDTH, MAX_VIEWPORT_EDGE,
};
use veronica::geometry::CookError;
use veronica::pick::{
    face_in_range, frame_painted, is_full_coverage_hit, pick_corners, pick_pixel, pick_wait_step,
    resolve_tap, slot_code, triangle_total_fits, u24_checked, Pick, PickCorner, PickWait,
    PICK_PASS_UPDATE_BUDGET,
};
use veronica::selection::{polygon_total, selection_mask, Selection};

/// Index run of the hand-built two-triangle mesh (four vertices).
const TWO_TRIANGLES: [u32; 6] = [0, 1, 2, 1, 2, 3];

/// Index run of a realized cube: six faces of four corners, two
/// triangles each.
fn cube_indices() -> Vec<u32> {
    let mut indices = Vec::new();
    for face in 0..6u32 {
        let base = 4 * face;
        indices.extend_from_slice(&[base, base + 1, base + 2, base + 2, base + 3, base]);
    }
    indices
}

fn linear(byte: u8) -> f32 {
    f32::from(byte) / 255.0
}

#[test]
fn slot_zero_is_black_full_alpha() {
    let rgb = slot_code(0).unwrap();
    let color = [linear(rgb[0]), linear(rgb[1]), linear(rgb[2]), 1.0_f32];
    let bits: Vec<u32> = color.iter().map(|c| c.to_bits()).collect();
    assert_eq!(bits, vec![0.0_f32.to_bits(), 0.0_f32.to_bits(), 0.0_f32.to_bits(), 1.0_f32.to_bits()]);
}

#[test]
fn slot_color_carries_ordinal_bytes() {
    for (slot, rgb) in [
        (0x12_3456_usize, [0x12_u8, 0x34, 0x56]),
        (0x00FF_FFFF, [0xFF, 0xFF, 0xFF]),
    ] {
        assert_eq!(slot_code(slot).unwrap(), rgb);
    }
}

#[test]
fn count_and_ordinal_bounds_differ_by_one() {
    assert!(triangle_total_fits(0));
    assert!(triangle_total_fits(12));
    assert!(triangle_total_fits(MAX_FACE_ORDINAL as usize + 1));
    assert!(!triangle_total_fits(MAX_FACE_ORDINAL as usize + 2));
    assert_eq!(
        u24_checked(MAX_FACE_ORDINAL as usize).unwrap(),
        MAX_FACE_ORDINAL
    );
    assert_eq!(
        u24_checked(MAX_FACE_ORDINAL as usize + 1),
        Err(SceneError::PickSpaceExhausted {
            count: MAX_FACE_ORDINAL as usize + 1
        })
    );
}

#[test]
fn face_range_backstop_admits_only_real_triangles() {
    assert!(face_in_range(0, 12));
    assert!(face_in_range(11, 12));
    assert!(!face_in_range(12, 12));
    assert!(!face_in_range(u32::MAX, 12));
    assert!(!face_in_range(0, 0));
}

#[test]
fn slot_past_u24_fails_loudly() {
    assert_eq!(
        slot_code(0x0100_0000),
        Err(SceneError::PickSpaceExhausted { count: 0x0100_0000 })
    );
    assert_eq!(
        u24_checked(0x0100_0000),
        Err(SceneError::PickSpaceExhausted { count: 0x0100_0000 })
    );
    assert_eq!(
        SceneError::PickSpaceExhausted { count: 7 }.message(),
        "pick identity space exhausted: 7 items exceed the 24-bit range"
    );
}

#[test]
fn indexed_u32_unwelds_with_ordinal_colors() {
    let corners = pick_corners(Some(&TWO_TRIANGLES), 4).unwrap();
    assert_eq!(corners.len(), 6);
    let sources: Vec<u32> = corners.iter().map(|c| c.source).collect();
    assert_eq!(sources, vec![0, 1, 2, 1, 2, 3]);
    for corner in &corners[0..3] {
        assert_eq!(corner.rgb, [0, 0, 0]);
    }
    for corner in &corners[3..6] {
        assert_eq!(corner.rgb, [0, 0, 1]);
    }
}

#[test]
fn indexed_u16_is_supported() {
    let run: Vec<u32> = [0_u16, 1, 2, 1, 2, 3].iter().map(|i| u32::from(*i)).collect();
    let corners = pick_corners(Some(&run), 4).unwrap();
    assert_eq!(corners.len(), 6);
    assert_eq!(corners[5], PickCorner { source: 3, rgb: [0, 0, 1] });
}

#[test]
fn non_indexed_soup_takes_consecutive_triples() {
    let corners = pick_corners(None, 3).unwrap();
    assert_eq!(corners.len(), 3);
    for (j, corner) in corners.iter().enumerate() {
        assert_eq!(corner.source, j as u32);
        assert_eq!(corner.rgb, [0, 0, 0]);
    }
}

#[test]
fn ragged_soups_are_rejected() {
    assert_eq!(
        pick_corners(Some(&[0, 1, 2, 3]), 4).unwrap_err(),
        SceneError::UnpickableMesh
    );
    assert_eq!(pick_corners(None, 4).unwrap_err(), SceneError::UnpickableMesh);
}

#[test]
fn dangling_index_fails_loudly() {
    assert_eq!(
        pick_corners(Some(&[0, 1, 9]), 4).unwrap_err(),
        SceneError::IndexOutOfBounds {
            index: 9,
            vertex_count: 4,
        }
    );
}

#[test]
fn painted_frame_detection_and_texel_indexing() {
    let clear = vec![0u8; 8 * 4];
    let mut painted = clear.clone();
    painted[5 * 4..6 * 4].copy_from_slice(&[0x12, 0x34, 0x56, HIT_ALPHA]);
    assert!(!frame_painted(&clear));
    assert!(!frame_painted(&[]));
    assert!(frame_painted(&painted));
    assert_eq!(
        pick_pixel(&painted, 5, 0, 8),
        Some([0x12, 0x34, 0x56, HIT_ALPHA])
    );
    assert_eq!(pick_pixel(&painted, 0, 0, 8), Some([0, 0, 0, 0]));
    assert_eq!(pick_pixel(&painted, 8, 0, 8), None);
    assert_eq!(pick_pixel(&painted, 0, 1, 8), None);
}

#[test]
fn coverage_gate_accepts_only_full_alpha() {
    assert!(is_full_coverage_hit([0x12, 0x34, 0x56, HIT_ALPHA]));
    assert!(is_full_coverage_hit([0, 0, 0, HIT_ALPHA]));
    assert!(!is_full_coverage_hit(MISS_PIXEL));
    assert!(!is_full_coverage_hit([0x12, 0x34, 0x56, MISS_ALPHA]));
    assert!(!is_full_coverage_hit([0, 0, 0, 128]));
    assert!(!is_full_coverage_hit([0x7F, 0, 0, 200]));
    assert_eq!(HIT_ALPHA, 255);
    assert_eq!(MISS_ALPHA, 0);
}

#[test]
fn mask_writer_tints_only_hit_face_vertices() {
    let (triangles, mask) = selection_mask(&TWO_TRIANGLES, 4, 1, &[0, 1]).unwrap();
    assert_eq!(triangles, 2);
    assert_eq!(mask, vec![false, true, true, true]);
}

#[test]
fn out_of_range_face_fails_loudly() {
    assert_eq!(
        selection_mask(&TWO_TRIANGLES, 4, 2, &[0, 1]),
        Err(SceneError::SelectionFaceOutOfRange {
            face: 2,
            triangles: 2
        })
    );
    assert_eq!(
        SceneError::SelectionFaceOutOfRange {
            face: 2,
            triangles: 2
        }
        .message(),
        "selection face 2 is out of range for 2 triangles"
    );
}

#[test]
fn gapped_grouping_fails_loudly_without_torn_write() {
    assert_eq!(
        selection_mask(&TWO_TRIANGLES, 4, 1, &[0, 0, 2, 2]),
        Err(SceneError::SelectionFaceOutOfRange {
            face: 1,
            triangles: 2
        })
    );
}

#[test]
fn set_selection_missing_node_fails_loudly() {
    let error = SceneError::NoCookedSelectionTarget { node: NodeId(1) };
    assert_eq!(
        error.message(),
        "no cooked mesh for selection target NodeId(1)"
    );
    assert_eq!(Selection::new().get(), None);
}

#[test]
fn mask_writer_expands_grouped_polygon_to_all_member_triangles() {
    let (triangles, mask) = selection_mask(&TWO_TRIANGLES, 4, 7, &[7, 7]).unwrap();
    assert_eq!(triangles, 2);
    assert_eq!(mask, vec![true; 4]);
}

#[test]
fn missing_normal_names_the_channel() {
    assert_eq!(
        check_handoff(None, Some(ChannelShape::Vec2(24)), &cube_indices(), 24),
        Err(SceneError::MissingAttribute {
            name: "normal".to_owned(),
        })
    );
}

#[test]
fn wrong_channel_shape_names_expected() {
    assert_eq!(
        check_handoff(
            Some(ChannelShape::Float(24)),
            Some(ChannelShape::Vec2(24)),
            &cube_indices(),
            24
        ),
        Err(SceneError::AttributeShape {
            name: "normal".to_owned(),
            expected: "a vec3 channel",
        })
    );
}

#[test]
fn short_normals_name_counts() {
    assert_eq!(
        check_handoff(
            Some(ChannelShape::Vec3(3)),
            Some(ChannelShape::Vec2(24)),
            &cube_indices(),
            24
        ),
        Err(SceneError::AttributeLength {
            name: "normal".to_owned(),
            expected: 24,
            actual: 3,
        })
    );
}

#[test]
fn mistyped_uv_names_expected() {
    assert_eq!(
        check_handoff(
            Some(ChannelShape::Vec3(24)),
            Some(ChannelShape::Float(24)),
            &cube_indices(),
            24
        ),
        Err(SceneError::AttributeShape {
            name: "uv".to_owned(),
            expected: "a vec2 channel",
        })
    );
}

#[test]
fn short_channel_names_counts() {
    assert_eq!(
        check_handoff(
            Some(ChannelShape::Vec3(24)),
            Some(ChannelShape::Vec2(3)),
            &cube_indices(),
            24
        ),
        Err(SceneError::AttributeLength {
            name: "uv".to_owned(),
            expected: 24,
            actual: 3,
        })
    );
}

#[test]
fn handoff_accepts_a_whole_cube_and_names_the_first_dangling_index() {
    assert_eq!(
        check_handoff(
            Some(ChannelShape::Vec3(24)),
            Some(ChannelShape::Vec2(24)),
            &cube_indices(),
            24
        ),
        Ok(())
    );
    assert_eq!(
        check_handoff(
            Some(ChannelShape::Vec3(4)),
            Some(ChannelShape::Vec2(4)),
            &[0, 1, 7, 9],
            4
        ),
        Err(SceneError::IndexOutOfBounds {
            index: 7,
            vertex_count: 4
        })
    );
}

#[test]
fn viewport_size_validation_and_idempotency() {
    for (width, height) in [
        (0, 200),
        (320, 0),
        (MAX_VIEWPORT_EDGE + 1, 100),
        (100, MAX_VIEWPORT_EDGE + 1),
    ] {
        assert_eq!(
            check_viewport_size(width, height),
            Err(SceneError::InvalidViewportSize { width, height }),
            "extents {width}x{height} must be rejected"
        );
    }
    assert_eq!(check_viewport_size(256, 192), Ok(()));
    assert_eq!(check_viewport_size(256, 192), Ok(()));
    assert_eq!(check_viewport_size(MAX_VIEWPORT_EDGE, MAX_VIEWPORT_EDGE), Ok(()));
    assert_eq!(check_viewport_size(FRAME_WIDTH, FRAME_HEIGHT), Ok(()));
}

#[test]
fn frames_hold_exactly_four_bytes_per_pixel() {
    let frame = RenderFrame::from_raw_parts(2, 3, vec![7; 2 * 3 * FRAME_BYTES_PER_PIXEL]).unwrap();
    assert_eq!(frame.width(), 2);
    assert_eq!(frame.height(), 3);
    assert_eq!(frame.pixels(), &[7; 24][..]);
    assert_eq!(
        RenderFrame::from_raw_parts(2, 3, vec![0; 23]).unwrap_err(),
        SceneError::FrameLengthMismatch {
            expected: 24,
            actual: 23
        }
    );
    assert_eq!(
        SceneError::FrameLengthMismatch {
            expected: 24,
            actual: 23
        }
        .message(),
        "raw frame has 23 bytes, expected 24"
    );
}

#[test]
fn scene_error_messages_read_as_documented() {
    assert_eq!(
        SceneError::InvalidViewportSize {
            width: 0,
            height: 9
        }
        .message(),
        "invalid viewport size 0x9: extents must be nonzero with longest edge <= 2048"
    );
    assert_eq!(
        SceneError::IndexOutOfBounds {
            index: 9,
            vertex_count: 4
        }
        .message(),
        "index 9 is out of bounds for 4 vertices"
    );
    assert_eq!(
        SceneError::AttributeLength {
            name: "uv".to_owned(),
            expected: 24,
            actual: 3
        }
        .message(),
        "attribute \"uv\" has 3 elements for 24 vertices"
    );
    assert_eq!(
        SceneError::Cook(CookError::Cycle).message(),
        "cannot cook a graph containing a dependency cycle"
    );
    assert_eq!(
        SceneError::PickPassNotReady { attempts: 10 }.message(),
        "pick pass produced no painted pixel after 10 updates"
    );
}

#[test]
fn taps_resolve_only_full_coverage_codes_inside_the_painted_range() {
    let mut frame = vec![0u8; 4 * 4];
    frame[4..8].copy_from_slice(&[0, 0, 2, HIT_ALPHA]);
    frame[8..12].copy_from_slice(&[0, 0, 9, HIT_ALPHA]);
    frame[12..16].copy_from_slice(&[0, 0, 1, 200]);
    assert_eq!(resolve_tap(&frame, 1, 0, 4, 3), Some(2));
    assert_eq!(resolve_tap(&frame, 2, 0, 4, 3), None);
    assert_eq!(resolve_tap(&frame, 2, 0, 4, 10), Some(9));
    assert_eq!(resolve_tap(&frame, 3, 0, 4, 10), None);
    assert_eq!(resolve_tap(&frame, 0, 0, 4, 10), None);
    assert_eq!(resolve_tap(&frame, 0, 1, 4, 10), None);
}

#[test]
fn pick_passes_give_up_only_after_the_budget() {
    assert_eq!(pick_wait_step(1, true), PickWait::Ready);
    assert_eq!(pick_wait_step(1, false), PickWait::Retry);
    assert_eq!(pick_wait_step(PICK_PASS_UPDATE_BUDGET - 1, false), PickWait::Retry);
    assert_eq!(pick_wait_step(PICK_PASS_UPDATE_BUDGET, false), PickWait::GiveUp);
    assert_eq!(pick_wait_step(PICK_PASS_UPDATE_BUDGET, true), PickWait::Ready);
}

#[test]
fn polygon_totals_count_the_grouping() {
    assert_eq!(polygon_total(5, &[]), 5);
    assert_eq!(polygon_total(4, &[0, 0, 1, 1]), 2);
    assert_eq!(polygon_total(2, &[7, 7]), 8);
}

#[test]
fn selection_retains_a_pick_only_while_the_polygon_total_holds() {
    let mut selection = Selection::new();
    assert_eq!(selection.retained(Some(2)), None);
    let pick = Pick {
        node: NodeId(1),
        face: 1,
    };
    selection.store(pick, 2);
    assert_eq!(selection.get(), Some(pick));
    assert_eq!(selection.retained(Some(2)), Some(pick));
    assert_eq!(selection.retained(Some(3)), None);
    assert_eq!(selection.retained(None), None);
    selection.clear();
    assert_eq!(selection.get(), None);
}

#[test]
fn ungrouped_meshes_select_their_own_triangle() {
    let (triangles, mask) = selection_mask(&TWO_TRIANGLES, 4, 0, &[]).unwrap();
    assert_eq!(triangles, 2);
    assert_eq!(mask, vec![true, true, true, false]);
    assert_eq!(
        selection_mask(&TWO_TRIANGLES, 3, 1, &[]),
        Err(SceneError::UnpickableMesh)
    );
    assert_eq!(
        selection_mask(&TWO_TRIANGLES, 4, 0, &[0, 1, 0]),
        Err(SceneError::UnpickableMesh)
    );
}

/// Triangle-to-polygon grouping of a realized cube: two triangles a face.
fn cube_grouping() -> Vec<u32> {
    (0..12u32).map(|k| k / 2).collect()
}

#[test]
fn changed_count_clears_selection_on_recook() {
    let mut selection = Selection::new();
    let pick = Pick {
        node: NodeId(1),
        face: 0,
    };
    selection.store(pick, 999);
    let live = polygon_total(12, &cube_grouping());
    assert_eq!(live, 6);
    assert_eq!(selection.retained(Some(live)), None);
}

#[test]
fn unrestorable_face_clears_selection_on_recook() {
    let mut selection = Selection::new();
    let pick = Pick {
        node: NodeId(1),
        face: 40,
    };
    selection.store(pick, 6);
    let live = polygon_total(12, &cube_grouping());
    let kept = selection.retained(Some(live)).unwrap();
    assert_eq!(
        selection_mask(&cube_indices(), 24, kept.face, &cube_grouping()),
        Err(SceneError::SelectionFaceOutOfRange {
            face: 40,
            triangles: 12
        })
    );
}

#[test]
fn readback_rows_lose_their_copy_padding() {
    // Two rows of two pixels (8 bytes each), padded to 12-byte rows.
    let padded: Vec<u8> = (0..24).collect();
    assert_eq!(
        unpad_rows(&padded, 12, 8),
        vec![0, 1, 2, 3, 4, 5, 6, 7, 12, 13, 14, 15, 16, 17, 18, 19]
    );
    // A trailing partial row is dropped, a tight buffer comes back whole.
    assert_eq!(unpad_rows(&padded[..20], 12, 8), (0..8).collect::<Vec<u8>>());
    assert_eq!(unpad_rows(&padded, 8, 8), padded);
    assert!(unpad_rows(&[], 256, 8).is_empty());
}

#[test]
fn staging_stride_must_fit_the_copy_layout() {
    assert_eq!(staging_stride(2_048 * 4), Ok(8_192));
    assert_eq!(staging_stride(u32::MAX as usize), Ok(u32::MAX));
    assert_eq!(
        staging_stride(u32::MAX as usize + 1),
        Err(SceneError::StagingStrideOverflow)
    );
}
