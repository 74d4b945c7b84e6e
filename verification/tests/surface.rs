use veronica::surface::{check_payload, surface_extent, upload_rows, SurfaceError};

#[test]
fn short_payload_is_an_error() {
    assert_eq!(
        check_payload(4, 2, 8),
        Err(SurfaceError::BadPayload {
            expected: 32,
            actual: 8
        })
    );
}

#[test]
fn oversized_payload_is_an_error() {
    assert_eq!(
        check_payload(4, 2, 33),
        Err(SurfaceError::BadPayload {
            expected: 32,
            actual: 33
        })
    );
}

#[test]
fn exact_payload_is_accepted() {
    assert_eq!(check_payload(4, 2, 32), Ok(()));
    assert_eq!(check_payload(0, 0, 0), Ok(()));
}

#[test]
fn rows_land_at_the_surface_stride() {
    assert_eq!(upload_rows(3, 3, 16), vec![(0, 0), (16, 12), (32, 24)]);
    assert!(upload_rows(5, 0, 32).is_empty());
}

#[test]
fn extents_saturate_into_i32() {
    assert_eq!(surface_extent(512), 512);
    assert_eq!(surface_extent(i32::MAX as u32), i32::MAX);
    assert_eq!(surface_extent(u32::MAX), i32::MAX);
}

#[test]
fn surface_error_messages_name_the_counts() {
    assert_eq!(
        SurfaceError::CreateFailed {
            width: 512,
            height: 320
        }
        .message(),
        "IOSurface creation failed for 512x320"
    );
    assert_eq!(SurfaceError::LockFailed.message(), "IOSurface lock failed");
    assert_eq!(
        SurfaceError::BadPayload {
            expected: 32,
            actual: 8
        }
        .message(),
        "frame payload has 8 bytes, expected 32"
    );
}
