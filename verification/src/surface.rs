//! Frame-surface publishing rules: what a surface upload must be handed,
//! how rows land at the surface's own stride, and how extents are passed
//! to the surface framework.
//!
//! The surfaces themselves are platform objects handled outside this
//! library; the copy they perform is the plan computed here.

use vstd::prelude::*;

use crate::text::{decimal, push_decimal};

verus! {

/// Errors for frame-surface publishing.
#[derive(Debug, Clone, Copy, PartialEq, Eq, Structural)]
pub enum SurfaceError {
    /// The framework refused to create the surface.
    CreateFailed {
        /// Requested width in pixels.
        width: u32,
        /// Requested height in pixels.
        height: u32,
    },
    /// The surface would not lock for CPU upload.
    LockFailed,
    /// The frame payload does not fill the surface exactly.
    BadPayload {
        /// Bytes the surface holds (`width * height * 4`).
        expected: usize,
        /// Bytes the caller supplied.
        actual: usize,
    },
}

impl SurfaceError {
    /// Human-readable message.
    pub fn message(&self) -> (text: String)
        ensures
            text@ == match *self {
                SurfaceError::CreateFailed { width, height } => "IOSurface creation failed for "@
                    + decimal(width as nat) + "x"@ + decimal(height as nat),
                SurfaceError::LockFailed => "IOSurface lock failed"@,
                SurfaceError::BadPayload { expected, actual } => "frame payload has "@ + decimal(
                    actual as nat,
                ) + " bytes, expected "@ + decimal(expected as nat),
            },
    {
        match self {
            SurfaceError::CreateFailed { width, height } => {
                let mut text = String::from_str("IOSurface creation failed for ");
                push_decimal(&mut text, *width as u64);
                text.append("x");
                push_decimal(&mut text, *height as u64);
                text
            },
            SurfaceError::LockFailed => String::from_str("IOSurface lock failed"),
            SurfaceError::BadPayload { expected, actual } => {
                let mut text = String::from_str("frame payload has ");
                push_decimal(&mut text, *actual as u64);
                text.append(" bytes, expected ");
                push_decimal(&mut text, *expected as u64);
                text
            },
        }
    }
}

/// Check an upload payload against a `width` by `height` BGRA8 surface.
///
/// Fails with [`SurfaceError::BadPayload`] unless the payload is exactly
/// `width * height * 4` bytes.
pub fn check_payload(width: u32, height: u32, payload_len: usize) -> (result: Result<(), SurfaceError>)
    requires
        width * height * 4 <= usize::MAX,
    ensures
        result is Ok <==> payload_len == width * height * 4,
        result is Err ==> result == Err::<(), SurfaceError>(
            SurfaceError::BadPayload { expected: (width * height * 4) as usize, actual: payload_len },
        ),
{
    assert((width as usize) * (height as usize) * 4 <= usize::MAX) by (nonlinear_arith)
        requires
            width * height * 4 <= usize::MAX,
    ;
    let expected = width as usize * height as usize * 4;
    if payload_len != expected {
        Err(SurfaceError::BadPayload { expected, actual: payload_len })
    } else {
        Ok(())
    }
}

/// Where each row of a tight `width`-pixel frame lands: row `r` copies
/// `width * 4` bytes from offset `r * width * 4` of the frame to offset
/// `r * stride` of the surface.
pub fn upload_rows(width: u32, height: u32, stride: usize) -> (rows: Vec<(usize, usize)>)
    requires
        width * 4 <= stride,
        height * stride <= usize::MAX,
    ensures
        rows@.len() == height,
        forall|r: int|
            0 <= r < height ==> #[trigger] rows@[r] == ((r * stride) as usize, (r * width * 4) as usize),
{
    let row_bytes = width as usize * 4;
    let mut rows: Vec<(usize, usize)> = Vec::new();
    let mut r: usize = 0;
    while r < height as usize
        invariant
            row_bytes == width * 4,
            row_bytes <= stride,
            height * stride <= usize::MAX,
            r <= height,
            rows@.len() == r,
            forall|i: int|
                0 <= i < r ==> #[trigger] rows@[i] == ((i * stride) as usize, (i * width * 4) as usize),
        decreases height - r,
    {
        assert(r * stride <= height * stride) by (nonlinear_arith)
            requires
                r < height,
        ;
        assert(r * row_bytes <= r * stride) by (nonlinear_arith)
            requires
                row_bytes <= stride,
        ;
        assert(r * row_bytes == r * width * 4) by (nonlinear_arith)
            requires
                row_bytes == width * 4,
        ;
        rows.push((r * stride, r * row_bytes));
        r = r + 1;
    }
    rows
}

/// An extent as the surface framework's signed 32-bit number, holding at
/// `i32::MAX` for values past it.
pub fn surface_extent(value: u32) -> (extent: i32)
    ensures
        extent == if value <= i32::MAX {
            value as int
        } else {
            i32::MAX as int
        },
{
    if value <= i32::MAX as u32 {
        value as i32
    } else {
        i32::MAX
    }
}

} // verus!
