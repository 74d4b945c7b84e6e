use veronica::face_id::{
    decode_face_ordinal, decode_pick_pixel, encode_face_ordinal, selection_survives_recook,
    FaceIdError, FACE_ID_BITS, HIT_ALPHA, MAX_FACE_ORDINAL, MISS_ALPHA, MISS_PIXEL,
};

#[test]
fn face_id_carries_exactly_24_bits() {
    assert_eq!(FACE_ID_BITS, 24);
    assert_eq!(MAX_FACE_ORDINAL, 0x00FF_FFFF);
}

#[test]
fn ordinal_zero_round_trips() {
    let rgb = encode_face_ordinal(0).unwrap();
    assert_eq!(rgb, [0, 0, 0]);
    assert_eq!(decode_face_ordinal(rgb), 0);
}

#[test]
fn ordinal_max_u24_round_trips() {
    let rgb = encode_face_ordinal(MAX_FACE_ORDINAL).unwrap();
    assert_eq!(rgb, [0xFF, 0xFF, 0xFF]);
    assert_eq!(decode_face_ordinal(rgb), MAX_FACE_ORDINAL);
}

#[test]
fn interior_ordinals_round_trip() {
    for ordinal in [1, 0xFF, 0x100, 0xFFFF, 0x01_0000, 0x12_3456, 0xAB_CD_EF] {
        let rgb = encode_face_ordinal(ordinal).unwrap();
        assert_eq!(decode_face_ordinal(rgb), ordinal, "ordinal {ordinal:#X}");
    }
}

#[test]
fn ordinal_above_u24_is_rejected_not_truncated() {
    let result = encode_face_ordinal(MAX_FACE_ORDINAL + 1);
    assert_eq!(
        result,
        Err(FaceIdError::OrdinalOutOfRange {
            ordinal: MAX_FACE_ORDINAL + 1
        })
    );
    assert_eq!(
        result.unwrap_err().message(),
        "face ordinal 16777216 exceeds the 24-bit range (max 16777215)"
    );
}

#[test]
fn miss_pixel_decodes_to_none() {
    assert_eq!(decode_pick_pixel(MISS_PIXEL), None);
    assert_eq!(decode_pick_pixel([0x12, 0x34, 0x56, MISS_ALPHA]), None);
}

#[test]
fn black_with_hit_alpha_is_face_zero_not_miss() {
    assert_eq!(decode_pick_pixel([0, 0, 0, HIT_ALPHA]), Some(0));
}

#[test]
fn hit_pixels_resolve_to_their_encoded_ordinal() {
    for ordinal in [0, 1, 0x12_3456, MAX_FACE_ORDINAL] {
        let rgb = encode_face_ordinal(ordinal).unwrap();
        let pixel = [rgb[0], rgb[1], rgb[2], HIT_ALPHA];
        assert_ne!(pixel, MISS_PIXEL, "hit must differ from miss");
        assert_eq!(decode_pick_pixel(pixel), Some(ordinal));
    }
}

#[test]
fn same_triangle_count_retains_identity() {
    assert!(selection_survives_recook(12, 12));
    assert!(selection_survives_recook(0, 0));
}

#[test]
fn changed_triangle_count_invalidates_identity() {
    assert!(!selection_survives_recook(12, 10));
    assert!(!selection_survives_recook(10, 12));
    assert!(!selection_survives_recook(12, 0));
}

#[test]
fn encoding_puts_the_high_byte_in_red() {
    assert_eq!(encode_face_ordinal(0x12_3456), Ok([0x12, 0x34, 0x56]));
    assert_eq!(encode_face_ordinal(0x00_0100), Ok([0x00, 0x01, 0x00]));
    assert_eq!(
        encode_face_ordinal(u32::MAX),
        Err(FaceIdError::OrdinalOutOfRange { ordinal: u32::MAX })
    );
}

#[test]
fn every_byte_triple_decodes_and_re_encodes_to_itself() {
    for rgb in [[0, 0, 0], [255, 255, 255], [1, 2, 3], [0xAB, 0x00, 0xCD]] {
        let ordinal = decode_face_ordinal(rgb);
        assert!(ordinal <= MAX_FACE_ORDINAL);
        assert_eq!(encode_face_ordinal(ordinal), Ok(rgb));
    }
}

#[test]
fn any_non_miss_alpha_is_a_hit() {
    assert_eq!(decode_pick_pixel([0, 0, 1, 1]), Some(1));
    assert_eq!(decode_pick_pixel([0xFF, 0xFF, 0xFF, 128]), Some(MAX_FACE_ORDINAL));
}
