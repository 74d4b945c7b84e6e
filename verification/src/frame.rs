//! Scene-side data contracts: published frames and the un-padding of GPU
//! readbacks, the viewport sizing rule, the render handoff's mesh checks,
//! and the scene's error type.
//!
//! Frames are tight row-major BGRA8 bytes, four per pixel. The engine and
//! GPU work that produces them lives outside this library; what it must
//! satisfy is stated here.

use vstd::prelude::*;

use crate::domain::NodeId;
use crate::geometry::{cook_error_text, CookError};
use crate::text::{decimal, push_decimal};

verus! {

/// Fixed initial frame width in pixels.
pub const FRAME_WIDTH: u32 = 512;

/// Fixed initial frame height in pixels.
pub const FRAME_HEIGHT: u32 = 320;

/// Long-edge cap for the live viewport: any nonzero `width` by `height`
/// with the longer edge at most this is accepted.
pub const MAX_VIEWPORT_EDGE: u32 = 2048;

/// Bytes per pixel in the published frames.
pub const FRAME_BYTES_PER_PIXEL: usize = 4;

/// Errors for scene operations.
#[allow(inconsistent_fields)]
#[derive(Debug, PartialEq, Eq)]
pub enum SceneError {
    /// Requested entity does not exist.
    UnknownEntity,
    /// A standard attribute channel is absent from the evaluated mesh.
    MissingAttribute {
        /// Channel key that was looked up.
        name: String,
    },
    /// A standard attribute channel has the wrong shape.
    AttributeShape {
        /// Channel key that was looked up.
        name: String,
        /// Shape the handoff requires.
        expected: &'static str,
    },
    /// A standard attribute channel's length differs from the vertex count.
    AttributeLength {
        /// Channel key that was looked up.
        name: String,
        /// Vertex count the channel must match.
        expected: usize,
        /// Elements the channel actually holds.
        actual: usize,
    },
    /// A triangle index names no vertex.
    IndexOutOfBounds {
        /// Offending index value.
        index: u32,
        /// Vertices the mesh actually holds.
        vertex_count: usize,
    },
    /// The graph failed to cook before any mesh reached the scene.
    Cook(CookError),
    /// The requested viewport size is zero or exceeds the long-edge cap.
    InvalidViewportSize {
        /// Requested width in pixels.
        width: u32,
        /// Requested height in pixels.
        height: u32,
    },
    /// The GPU render target has no uploaded image yet.
    NoGpuImage,
    /// The viewport camera is missing.
    NoViewportCamera,
    /// The staging stride does not fit in a `u32`.
    StagingStrideOverflow,
    /// The GPU device poll failed during frame readback.
    DevicePollFailed,
    /// The staging buffer map callback never ran.
    MapCallbackLost,
    /// The staging buffer map failed.
    MapFailed,
    /// Raw bytes do not fill a `width` by `height` BGRA8 frame.
    FrameLengthMismatch {
        /// Bytes the frame layout requires.
        expected: usize,
        /// Bytes actually supplied.
        actual: usize,
    },
    /// A cooked mesh cannot be pick-meshed or highlighted as triangles.
    UnpickableMesh,
    /// A pick count exceeds the 24-bit ID-buffer range.
    PickSpaceExhausted {
        /// Items needing distinct IDs.
        count: usize,
    },
    /// A pick pass showed no painted pixel within its update budget.
    PickPassNotReady {
        /// Updates waited before giving up.
        attempts: u32,
    },
    /// A selected face names no polygon of its mesh.
    SelectionFaceOutOfRange {
        /// The requested polygon.
        face: u32,
        /// Triangles the mesh holds.
        triangles: usize,
    },
    /// No live cooked mesh belongs to the selected node.
    NoCookedSelectionTarget {
        /// The requested node.
        node: NodeId,
    },
}

/// `NodeId(n)`, as the id's `Debug` form prints it.
pub open spec fn node_id_text(id: u64) -> Seq<char> {
    "NodeId("@ + decimal(id as nat) + ")"@
}

/// The message of a [`SceneError`].
pub open spec fn scene_error_text(e: SceneError) -> Seq<char> {
    match e {
        SceneError::UnknownEntity => "unknown scene entity"@,
        SceneError::MissingAttribute { name } => "missing attribute \""@ + name@ + "\""@,
        SceneError::AttributeShape { name, expected } => "attribute \""@ + name@ + "\" must be "@
            + expected@,
        SceneError::AttributeLength { name, expected, actual } => "attribute \""@ + name@ + "\" has "@
            + decimal(actual as nat) + " elements for "@ + decimal(expected as nat) + " vertices"@,
        SceneError::IndexOutOfBounds { index, vertex_count } => "index "@ + decimal(index as nat)
            + " is out of bounds for "@ + decimal(vertex_count as nat) + " vertices"@,
        SceneError::Cook(_) => Seq::empty(),
        SceneError::InvalidViewportSize { width, height } => "invalid viewport size "@ + decimal(
            width as nat,
        ) + "x"@ + decimal(height as nat)
            + ": extents must be nonzero with longest edge <= 2048"@,
        SceneError::NoGpuImage => "render target has no GPU image yet"@,
        SceneError::NoViewportCamera => "viewport camera is missing"@,
        SceneError::StagingStrideOverflow => "frame staging stride does not fit in u32"@,
        SceneError::DevicePollFailed => "GPU device poll failed during frame readback"@,
        SceneError::MapCallbackLost => "staging buffer map callback never ran"@,
        SceneError::MapFailed => "staging buffer map failed"@,
        SceneError::FrameLengthMismatch { expected, actual } => "raw frame has "@ + decimal(
            actual as nat,
        ) + " bytes, expected "@ + decimal(expected as nat),
        SceneError::UnpickableMesh => "cooked mesh is not pickable as triangles"@,
        SceneError::PickSpaceExhausted { count } => "pick identity space exhausted: "@ + decimal(
            count as nat,
        ) + " items exceed the 24-bit range"@,
        SceneError::PickPassNotReady { attempts } => "pick pass produced no painted pixel after "@
            + decimal(attempts as nat) + " updates"@,
        SceneError::SelectionFaceOutOfRange { face, triangles } => "selection face "@ + decimal(
            face as nat,
        ) + " is out of range for "@ + decimal(triangles as nat) + " triangles"@,
        SceneError::NoCookedSelectionTarget { node } => "no cooked mesh for selection target "@
            + node_id_text(node.0),
    }
}

/// Append `NodeId(n)`.
fn push_node_id(text: &mut String, id: u64)
    ensures
        final(text)@ == old(text)@ + node_id_text(id),
{
    text.append("NodeId(");
    push_decimal(text, id);
    text.append(")");
    assert(text@ =~= old(text)@ + node_id_text(id));
}

impl SceneError {
    /// Human-readable message; a cook failure reads as the cook error's
    /// own message.
    pub fn message(&self) -> (text: String)
        ensures
            match self {
                SceneError::Cook(inner) => text@ == cook_error_text(inner.view()),
                _ => text@ == scene_error_text(*self),
            },
    {
        match self {
            SceneError::UnknownEntity => String::from_str("unknown scene entity"),
            SceneError::MissingAttribute { name } => {
                let mut text = String::from_str("missing attribute \"");
                text.append(name.as_str());
                text.append("\"");
                text
            },
            SceneError::AttributeShape { name, expected } => {
                let mut text = String::from_str("attribute \"");
                text.append(name.as_str());
                text.append("\" must be ");
                text.append(expected);
                text
            },
            SceneError::AttributeLength { name, expected, actual } => {
                let mut text = String::from_str("attribute \"");
                text.append(name.as_str());
                text.append("\" has ");
                push_decimal(&mut text, *actual as u64);
                text.append(" elements for ");
                push_decimal(&mut text, *expected as u64);
                text.append(" vertices");
                text
            },
            SceneError::IndexOutOfBounds { index, vertex_count } => {
                let mut text = String::from_str("index ");
                push_decimal(&mut text, *index as u64);
                text.append(" is out of bounds for ");
                push_decimal(&mut text, *vertex_count as u64);
                text.append(" vertices");
                text
            },
            SceneError::Cook(inner) => inner.message(),
            SceneError::InvalidViewportSize { width, height } => {
                let mut text = String::from_str("invalid viewport size ");
                push_decimal(&mut text, *width as u64);
                text.append("x");
                push_decimal(&mut text, *height as u64);
                text.append(": extents must be nonzero with longest edge <= 2048");
                text
            },
            SceneError::NoGpuImage => String::from_str("render target has no GPU image yet"),
            SceneError::NoViewportCamera => String::from_str("viewport camera is missing"),
            SceneError::StagingStrideOverflow => String::from_str(
                "frame staging stride does not fit in u32",
            ),
            SceneError::DevicePollFailed => String::from_str(
                "GPU device poll failed during frame readback",
            ),
            SceneError::MapCallbackLost => String::from_str("staging buffer map callback never ran"),
            SceneError::MapFailed => String::from_str("staging buffer map failed"),
            SceneError::FrameLengthMismatch { expected, actual } => {
                let mut text = String::from_str("raw frame has ");
                push_decimal(&mut text, *actual as u64);
                text.append(" bytes, expected ");
                push_decimal(&mut text, *expected as u64);
                text
            },
            SceneError::UnpickableMesh => String::from_str("cooked mesh is not pickable as triangles"),
            SceneError::PickSpaceExhausted { count } => {
                let mut text = String::from_str("pick identity space exhausted: ");
                push_decimal(&mut text, *count as u64);
                text.append(" items exceed the 24-bit range");
                text
            },
            SceneError::PickPassNotReady { attempts } => {
                let mut text = String::from_str("pick pass produced no painted pixel after ");
                push_decimal(&mut text, *attempts as u64);
                text.append(" updates");
                text
            },
            SceneError::SelectionFaceOutOfRange { face, triangles } => {
                let mut text = String::from_str("selection face ");
                push_decimal(&mut text, *face as u64);
                text.append(" is out of range for ");
                push_decimal(&mut text, *triangles as u64);
                text.append(" triangles");
                text
            },
            SceneError::NoCookedSelectionTarget { node } => {
                let mut text = String::from_str("no cooked mesh for selection target ");
                push_node_id(&mut text, node.0);
                text
            },
        }
    }
}

/// Whether a viewport of `width` by `height` is accepted: both extents
/// nonzero and the longer at most [`MAX_VIEWPORT_EDGE`].
pub open spec fn viewport_size_ok(width: u32, height: u32) -> bool {
    width != 0 && height != 0 && width <= MAX_VIEWPORT_EDGE && height <= MAX_VIEWPORT_EDGE
}

/// Check a requested viewport size.
///
/// Fails with [`SceneError::InvalidViewportSize`] when an extent is zero or
/// the longer edge exceeds [`MAX_VIEWPORT_EDGE`].
pub fn check_viewport_size(width: u32, height: u32) -> (result: Result<(), SceneError>)
    ensures
        result is Ok <==> viewport_size_ok(width, height),
        result is Err ==> result == Err::<(), SceneError>(SceneError::InvalidViewportSize { width, height }),
{
    let longest = if width > height {
        width
    } else {
        height
    };
    if width == 0 || height == 0 || longest > MAX_VIEWPORT_EDGE {
        Err(SceneError::InvalidViewportSize { width, height })
    } else {
        Ok(())
    }
}

/// One published frame: `width * height * 4` BGRA8 bytes, row-major,
/// non-premultiplied.
#[derive(Debug, Clone)]
pub struct RenderFrame {
    width: u32,
    height: u32,
    pixels: Vec<u8>,
}

impl RenderFrame {
    /// Frame width in pixels.
    pub closed spec fn spec_width(&self) -> u32 {
        self.width
    }

    /// Frame height in pixels.
    pub closed spec fn spec_height(&self) -> u32 {
        self.height
    }

    /// Frame bytes.
    pub closed spec fn spec_pixels(&self) -> Seq<u8> {
        self.pixels@
    }

    /// The byte count matches the extents.
    pub closed spec fn wf(&self) -> bool {
        self.pixels@.len() == self.width * self.height * FRAME_BYTES_PER_PIXEL
    }

    /// Frame width in pixels.
    pub fn width(&self) -> (width: u32)
        ensures
            width == self.spec_width(),
    {
        self.width
    }

    /// Frame height in pixels.
    pub fn height(&self) -> (height: u32)
        ensures
            height == self.spec_height(),
    {
        self.height
    }

    /// Raw BGRA8 frame bytes, row-major (`width * height * 4` long).
    pub fn pixels(&self) -> (pixels: &[u8])
        requires
            self.wf(),
        ensures
            pixels@ == self.spec_pixels(),
            pixels@.len() == self.spec_width() * self.spec_height() * FRAME_BYTES_PER_PIXEL,
    {
        self.pixels.as_slice()
    }

    /// Assemble a published frame from externally rendered BGRA8 bytes.
    ///
    /// Fails with [`SceneError::FrameLengthMismatch`] when `pixels` is not
    /// exactly `width * height * 4` bytes long.
    pub fn from_raw_parts(width: u32, height: u32, pixels: Vec<u8>) -> (result: Result<
        RenderFrame,
        SceneError,
    >)
        requires
            width * height * FRAME_BYTES_PER_PIXEL <= usize::MAX,
        ensures
            result is Ok <==> pixels@.len() == width * height * FRAME_BYTES_PER_PIXEL,
            result matches Ok(frame) ==> frame.wf() && frame.spec_width() == width
                && frame.spec_height() == height && frame.spec_pixels() == pixels@,
            result is Err ==> result == Err::<RenderFrame, SceneError>(
                SceneError::FrameLengthMismatch {
                    expected: (width * height * FRAME_BYTES_PER_PIXEL) as usize,
                    actual: pixels@.len() as usize,
                },
            ),
    {
        assert((width as usize) * (height as usize) * FRAME_BYTES_PER_PIXEL <= usize::MAX) by (
        nonlinear_arith)
            requires
                width * height * FRAME_BYTES_PER_PIXEL <= usize::MAX,
        ;
        let expected = width as usize * height as usize * FRAME_BYTES_PER_PIXEL;
        if pixels.len() != expected {
            return Err(SceneError::FrameLengthMismatch { expected, actual: pixels.len() });
        }
        Ok(RenderFrame { width, height, pixels })
    }
}


/// The staging buffer's row stride as the GPU copy takes it: the padded
/// row length when it fits in `u32`, else
/// [`SceneError::StagingStrideOverflow`].
pub fn staging_stride(padded_row: usize) -> (result: Result<u32, SceneError>)
    ensures
        padded_row <= u32::MAX ==> result == Ok::<u32, SceneError>(padded_row as u32),
        padded_row > u32::MAX ==> result == Err::<u32, SceneError>(SceneError::StagingStrideOverflow),
{
    if padded_row <= u32::MAX as usize {
        Ok(padded_row as u32)
    } else {
        Err(SceneError::StagingStrideOverflow)
    }
}

/// Row `k` of a padded readback without its padding: its first
/// `row_bytes` bytes.
pub open spec fn readback_row(padded: Seq<u8>, padded_row: int, row_bytes: int, k: int) -> Seq<u8> {
    padded.subrange(k * padded_row, k * padded_row + row_bytes)
}

/// The tight bytes of a padded readback: every whole `padded_row`-byte row
/// cut to its first `row_bytes` bytes, rows in order; a trailing partial
/// row is dropped.
pub open spec fn unpadded(padded: Seq<u8>, padded_row: int, row_bytes: int) -> Seq<u8> {
    Seq::new(
        (padded.len() as int / padded_row) as nat,
        |k: int| readback_row(padded, padded_row, row_bytes, k),
    ).flatten()
}

/// Strip the copy-alignment padding from a GPU readback whose rows are
/// `padded_row` bytes apart and hold `row_bytes` bytes of pixels each.
#[verifier::loop_isolation(false)]
pub fn unpad_rows(padded: &[u8], padded_row: usize, row_bytes: usize) -> (pixels: Vec<u8>)
    requires
        0 < padded_row,
        row_bytes <= padded_row,
    ensures
        pixels@ == unpadded(padded@, padded_row as int, row_bytes as int),
{
    let rows = padded.len() / padded_row;
    let ghost d = padded_row as int;
    let ghost all = Seq::new(rows as nat, |k: int| readback_row(padded@, d, row_bytes as int, k));
    proof {
        let n = padded@.len() as int;
        vstd::arithmetic::div_mod::lemma_fundamental_div_mod(n, d);
        assert(rows * d <= n) by (nonlinear_arith)
            requires
                n == d * (n / d) + n % d,
                rows == n / d,
                0 <= n % d,
        ;
    }
    let mut pixels: Vec<u8> = Vec::new();
    let mut k: usize = 0;
    let mut start: usize = 0;
    while k < rows
        invariant
            k <= rows,
            start == k * d,
            pixels@ == all.take(k as int).flatten(),
        decreases rows - k,
    {
        proof {
            assert((k + 1) * d <= rows * d) by (nonlinear_arith)
                requires
                    k + 1 <= rows,
                    d > 0,
            ;
            assert(k * d + d == (k + 1) * d) by (nonlinear_arith);
        }
        let ghost before = pixels@;
        let mut b: usize = 0;
        while b < row_bytes
            invariant
                b <= row_bytes,
                start + d <= padded@.len(),
                pixels@ == before + padded@.subrange(start as int, start + b),
            decreases row_bytes - b,
        {
            pixels.push(padded[start + b]);
            assert(padded@.subrange(start as int, start + b + 1) =~= padded@.subrange(
                start as int,
                start + b,
            ).push(padded@[start + b]));
            b = b + 1;
        }
        proof {
            assert(all.take(k + 1) =~= all.take(k as int).push(all[k as int]));
            all.take(k as int).lemma_flatten_push(all[k as int]);
        }
        k = k + 1;
        start = start + padded_row;
    }
    assert(all.take(rows as int) =~= all);
    pixels
}

/// Shape of a present attribute channel: its element kind and length.
#[derive(Debug, Clone, Copy, PartialEq, Eq, Structural)]
pub enum ChannelShape {
    /// Scalar channel of this many elements.
    Float(usize),
    /// 2-vector channel of this many elements.
    Vec2(usize),
    /// 3-vector channel of this many elements.
    Vec3(usize),
}

/// Whether `shape` is a 3-vector channel (`vec3` true) or a 2-vector one.
pub open spec fn shape_matches(shape: ChannelShape, vec3: bool) -> bool {
    match shape {
        ChannelShape::Vec3(_) => vec3,
        ChannelShape::Vec2(_) => !vec3,
        ChannelShape::Float(_) => false,
    }
}

/// Element count of a channel.
pub open spec fn shape_len(shape: ChannelShape) -> usize {
    match shape {
        ChannelShape::Float(n) => n,
        ChannelShape::Vec2(n) => n,
        ChannelShape::Vec3(n) => n,
    }
}

/// Check one standard channel for the render handoff: present, of the
/// wanted kind (3-vector when `vec3`, else 2-vector), one element per
/// vertex.
///
/// Fails with [`SceneError::MissingAttribute`],
/// [`SceneError::AttributeShape`] (naming `a vec3 channel` or
/// `a vec2 channel`), or [`SceneError::AttributeLength`].
pub fn check_channel(name: &str, channel: Option<ChannelShape>, vec3: bool, vertex_count: usize) -> (result:
    Result<(), SceneError>)
    ensures
        channel_outcome(result, name@, channel, vec3, vertex_count),
{
    match channel {
        None => Err(SceneError::MissingAttribute { name: String::from_str(name) }),
        Some(shape) => {
            let (right_kind, len) = match shape {
                ChannelShape::Float(n) => (false, n),
                ChannelShape::Vec2(n) => (!vec3, n),
                ChannelShape::Vec3(n) => (vec3, n),
            };
            if !right_kind {
                let expected = if vec3 {
                    "a vec3 channel"
                } else {
                    "a vec2 channel"
                };
                Err(SceneError::AttributeShape { name: String::from_str(name), expected })
            } else if len != vertex_count {
                Err(SceneError::AttributeLength { name: String::from_str(name), expected: vertex_count, actual: len })
            } else {
                Ok(())
            }
        },
    }
}

/// Whether a channel is usable for the handoff.
pub open spec fn channel_ok(channel: Option<ChannelShape>, vec3: bool, vertex_count: usize) -> bool {
    channel matches Some(shape) && shape_matches(shape, vec3) && shape_len(shape) == vertex_count
}

/// What checking channel `name` reports: missing, the wrong kind (naming
/// the wanted shape), the wrong length, or success.
pub open spec fn channel_outcome(
    result: Result<(), SceneError>,
    name: Seq<char>,
    channel: Option<ChannelShape>,
    vec3: bool,
    vertex_count: usize,
) -> bool {
    match channel {
        None => result matches Err(SceneError::MissingAttribute { name: n }) && n@ == name,
        Some(shape) => if !shape_matches(shape, vec3) {
            result matches Err(SceneError::AttributeShape { name: n, expected: e }) && n@ == name && e@
                == (if vec3 {
                "a vec3 channel"@
            } else {
                "a vec2 channel"@
            })
        } else if shape_len(shape) != vertex_count {
            result matches Err(SceneError::AttributeLength { name: n, expected: x, actual: a }) && n@
                == name && x == vertex_count && a == shape_len(shape)
        } else {
            result is Ok
        },
    }
}

/// The first index naming no vertex, if any.
pub fn first_out_of_bounds(indices: &[u32], vertex_count: usize) -> (bad: Option<u32>)
    ensures
        bad is None <==> forall|k: int| 0 <= k < indices@.len() ==> indices@[k] < vertex_count,
        bad matches Some(index) ==> exists|k: int|
            0 <= k < indices@.len() && indices@[k] == index && index >= vertex_count && forall|j: int|
                0 <= j < k ==> indices@[j] < vertex_count,
{
    let mut k: usize = 0;
    while k < indices.len()
        invariant
            k <= indices@.len(),
            forall|j: int| 0 <= j < k ==> indices@[j] < vertex_count,
        decreases indices@.len() - k,
    {
        if indices[k] as usize >= vertex_count {
            return Some(indices[k]);
        }
        k = k + 1;
    }
    None
}

/// Check an evaluated mesh for the render handoff: normals (3-vector)
/// then uvs (2-vector) per [`check_channel`], then every index naming a
/// vertex ([`SceneError::IndexOutOfBounds`] for the first that does not).
pub fn check_handoff(
    normals: Option<ChannelShape>,
    uvs: Option<ChannelShape>,
    indices: &[u32],
    vertex_count: usize,
) -> (result: Result<(), SceneError>)
    ensures
        !channel_ok(normals, true, vertex_count) ==> channel_outcome(result, "normal"@, normals, true, vertex_count),
        channel_ok(normals, true, vertex_count) && !channel_ok(uvs, false, vertex_count) ==> channel_outcome(
            result,
            "uv"@,
            uvs,
            false,
            vertex_count,
        ),
        channel_ok(normals, true, vertex_count) && channel_ok(uvs, false, vertex_count) ==> {
            &&& result is Ok <==> forall|k: int| 0 <= k < indices@.len() ==> indices@[k] < vertex_count
            &&& result matches Err(e) ==> exists|k: int|
                0 <= k < indices@.len() && e == SceneError::IndexOutOfBounds {
                    index: indices@[k],
                    vertex_count,
                } && indices@[k] >= vertex_count && forall|j: int| 0 <= j < k ==> indices@[j] < vertex_count
        },
{
    proof {
        reveal_strlit("normal");
        reveal_strlit("uv");
    }
    match check_channel("normal", normals, true, vertex_count) {
        Ok(()) => {},
        Err(e) => {
            return Err(e);
        },
    }
    match check_channel("uv", uvs, false, vertex_count) {
        Ok(()) => {},
        Err(e) => {
            return Err(e);
        },
    }
    match first_out_of_bounds(indices, vertex_count) {
        Some(index) => Err(SceneError::IndexOutOfBounds { index, vertex_count }),
        None => Ok(()),
    }
}

} // verus!
