//! Pick decisions: the integer logic of the two ID passes that resolve a
//! tap to a face.
//!
//! The entity pass paints every cooked mesh in its slot's 24-bit color;
//! the face pass paints the hit mesh's triangle soup, each triangle in its
//! ordinal's color. Only full-coverage pixels count as hits (MSAA blends
//! silhouette pixels toward the clear color, alpha included), and decoded
//! values past the range actually painted are misses, never guesses.

use vstd::prelude::*;

use crate::domain::NodeId;
use crate::face_id::{
    decode_face_ordinal, encode_face_ordinal, spec_ordinal_of, spec_rgb_of, HIT_ALPHA,
    MAX_FACE_ORDINAL,
};
use crate::frame::{SceneError, FRAME_BYTES_PER_PIXEL};

verus! {

/// Largest triangle total the ID space addresses: one more than the
/// largest ordinal.
pub const MAX_PICK_TRIANGLES: usize = 0x0100_0000;

/// Updates a pick pass may wait for painted pixels before giving up.
pub const PICK_PASS_UPDATE_BUDGET: u32 = 10;

/// A resolved tap: the source operator and the polygon under the tap.
#[derive(Debug, Clone, Copy, PartialEq, Eq, Structural)]
pub struct Pick {
    /// Operator whose cooked mesh was hit.
    pub node: NodeId,
    /// Polygon id into the operator's grouping.
    pub face: u32,
}

/// Narrow an ordinal into the 24-bit ID space.
///
/// Fails with [`SceneError::PickSpaceExhausted`] when `ordinal` exceeds
/// [`MAX_FACE_ORDINAL`].
pub fn u24_checked(ordinal: usize) -> (result: Result<u32, SceneError>)
    ensures
        ordinal <= MAX_FACE_ORDINAL ==> result == Ok::<u32, SceneError>(ordinal as u32),
        ordinal > MAX_FACE_ORDINAL ==> result == Err::<u32, SceneError>(
            SceneError::PickSpaceExhausted { count: ordinal },
        ),
{
    if ordinal <= MAX_FACE_ORDINAL as usize {
        Ok(ordinal as u32)
    } else {
        Err(SceneError::PickSpaceExhausted { count: ordinal })
    }
}

/// Whether a triangle total fits the ID space.
pub fn triangle_total_fits(count: usize) -> (fits: bool)
    ensures
        fits == (count <= MAX_PICK_TRIANGLES),
{
    count <= MAX_PICK_TRIANGLES
}

/// The slot color of an entity-pass overlay: the slot's 24-bit code.
///
/// Fails with [`SceneError::PickSpaceExhausted`] when `slot` exceeds the
/// ID space.
pub fn slot_code(slot: usize) -> (result: Result<[u8; 3], SceneError>)
    ensures
        slot <= MAX_FACE_ORDINAL ==> (result matches Ok(rgb) && (rgb[0], rgb[1], rgb[2]) == spec_rgb_of(
            slot as u32,
        )),
        slot > MAX_FACE_ORDINAL ==> result == Err::<[u8; 3], SceneError>(
            SceneError::PickSpaceExhausted { count: slot },
        ),
{
    let ordinal = match u24_checked(slot) {
        Ok(ordinal) => ordinal,
        Err(e) => {
            return Err(e);
        },
    };
    match encode_face_ordinal(ordinal) {
        Ok(rgb) => Ok(rgb),
        Err(_) => Err(SceneError::PickSpaceExhausted { count: slot }),
    }
}

/// Whether one read-back ID pixel is a full-coverage hit: alpha is
/// [`HIT_ALPHA`]. RGB black with hit alpha is ordinal zero, not a miss.
pub fn is_full_coverage_hit(pixel: [u8; 4]) -> (hit: bool)
    ensures
        hit == (pixel[3] == HIT_ALPHA),
{
    pixel[3] == HIT_ALPHA
}

/// Whether some whole pixel of `frame` differs from the all-zero clear.
pub open spec fn spec_frame_painted(frame: Seq<u8>) -> bool {
    exists|i: int| 0 <= i < (frame.len() / 4) * 4 && frame[i] != 0
}

/// Whether any whole pixel of `frame` is painted (differs from the
/// all-zero clear); a trailing partial pixel is ignored.
pub fn frame_painted(frame: &[u8]) -> (painted: bool)
    ensures
        painted == spec_frame_painted(frame@),
{
    let whole = (frame.len() / 4) * 4;
    let mut i: usize = 0;
    while i < whole
        invariant
            whole == (frame@.len() / 4) * 4,
            whole <= frame@.len(),
            i <= whole,
            forall|k: int| 0 <= k < i ==> frame@[k] == 0,
        decreases whole - i,
    {
        if frame[i] != 0 {
            return true;
        }
        i = i + 1;
    }
    false
}

/// Byte offset of pixel `(x, y)` in a row-major frame `width` wide.
pub open spec fn pixel_offset(x: u32, y: u32, width: u32) -> int {
    (x + y * width) * FRAME_BYTES_PER_PIXEL
}

/// The four bytes of pixel `(x, y)`, or `None` when they lie (even partly)
/// past the end of `frame`.
pub fn pick_pixel(frame: &[u8], pixel_x: u32, pixel_y: u32, width: u32) -> (pixel: Option<[u8; 4]>)
    ensures
        pixel_offset(pixel_x, pixel_y, width) + 4 <= frame@.len() ==> pixel == Some(
            [
                frame@[pixel_offset(pixel_x, pixel_y, width)],
                frame@[pixel_offset(pixel_x, pixel_y, width) + 1],
                frame@[pixel_offset(pixel_x, pixel_y, width) + 2],
                frame@[pixel_offset(pixel_x, pixel_y, width) + 3],
            ],
        ),
        pixel_offset(pixel_x, pixel_y, width) + 4 > frame@.len() ==> pixel is None,
{
    let len = frame.len();
    let row = match (pixel_y as usize).checked_mul(width as usize) {
        Some(row) => row,
        None => {
            assert(pixel_offset(pixel_x, pixel_y, width) + 4 > len);
            return None;
        },
    };
    let index = match (pixel_x as usize).checked_add(row) {
        Some(index) => index,
        None => {
            assert(pixel_offset(pixel_x, pixel_y, width) + 4 > len);
            return None;
        },
    };
    let start = match index.checked_mul(FRAME_BYTES_PER_PIXEL) {
        Some(start) => start,
        None => {
            assert(pixel_offset(pixel_x, pixel_y, width) + 4 > len);
            return None;
        },
    };
    let end = match start.checked_add(FRAME_BYTES_PER_PIXEL) {
        Some(end) => end,
        None => {
            assert(pixel_offset(pixel_x, pixel_y, width) + 4 > len);
            return None;
        },
    };
    if end > frame.len() {
        return None;
    }
    Some([frame[start], frame[start + 1], frame[start + 2], frame[start + 3]])
}

/// Whether a decoded face names a triangle of the painted soup.
pub fn face_in_range(face: u32, triangle_total: usize) -> (in_range: bool)
    ensures
        in_range == (face < triangle_total),
{
    (face as usize) < triangle_total
}

/// What an ID pass reads at the tap: the code of a full-coverage pixel
/// below `painted`, else nothing.
pub open spec fn tap_code(frame: Seq<u8>, x: u32, y: u32, width: u32, painted: int) -> Option<u32> {
    let at = pixel_offset(x, y, width);
    if at + 4 > frame.len() || frame[at + 3] != HIT_ALPHA {
        None
    } else {
        let code = spec_ordinal_of([frame[at], frame[at + 1], frame[at + 2]]);
        if code < painted {
            Some(code as u32)
        } else {
            None
        }
    }
}

/// Resolve the tap in an ID-pass frame to the code painted there, when it
/// is a full-coverage hit naming one of the `painted` codes.
///
/// The entity pass calls this with the overlay count (the code is the hit
/// slot), the face pass with the soup's triangle total (the code is the
/// face ordinal); anything else under the tap is a miss.
pub fn resolve_tap(frame: &[u8], pixel_x: u32, pixel_y: u32, width: u32, painted: usize) -> (code:
    Option<u32>)
    ensures
        code == tap_code(frame@, pixel_x, pixel_y, width, painted as int),
{
    let pixel = match pick_pixel(frame, pixel_x, pixel_y, width) {
        Some(pixel) => pixel,
        None => {
            return None;
        },
    };
    if !is_full_coverage_hit(pixel) {
        return None;
    }
    let code = decode_face_ordinal([pixel[0], pixel[1], pixel[2]]);
    if face_in_range(code, painted) {
        Some(code)
    } else {
        None
    }
}

/// What a pick pass does after one update and readback.
#[derive(Debug, Clone, Copy, PartialEq, Eq, Structural)]
pub enum PickWait {
    /// The frame shows painted pixels: decode the tap.
    Ready,
    /// Not painted yet (or no GPU image yet): update again.
    Retry,
    /// The budget is spent without a painted frame.
    GiveUp,
}

/// Decide after the `attempts`-th update whether the pass is ready, should
/// update again, or has exhausted [`PICK_PASS_UPDATE_BUDGET`].
pub fn pick_wait_step(attempts: u32, painted: bool) -> (step: PickWait)
    ensures
        painted ==> step == PickWait::Ready,
        !painted && attempts >= PICK_PASS_UPDATE_BUDGET ==> step == PickWait::GiveUp,
        !painted && attempts < PICK_PASS_UPDATE_BUDGET ==> step == PickWait::Retry,
{
    if painted {
        PickWait::Ready
    } else if attempts >= PICK_PASS_UPDATE_BUDGET {
        PickWait::GiveUp
    } else {
        PickWait::Retry
    }
}

/// One corner of the face-pass soup: the source vertex it copies and the
/// 24-bit code of its triangle's ordinal.
#[derive(Debug, Clone, Copy, PartialEq, Eq)]
pub struct PickCorner {
    /// Vertex of the cooked mesh this corner copies.
    pub source: u32,
    /// Code of the owning triangle's ordinal.
    pub rgb: [u8; 3],
}

/// Source vertex of soup corner `j`: the index run's entry, or `j` itself
/// for a non-indexed soup.
pub open spec fn corner_source(indices: Option<Seq<u32>>, j: int) -> int {
    match indices {
        Some(run) => run[j] as int,
        None => j,
    }
}

/// Triangles the soup holds.
pub open spec fn soup_triangles(indices: Option<Seq<u32>>, vertex_count: usize) -> int {
    match indices {
        Some(run) => (run.len() / 3) as int,
        None => (vertex_count / 3) as int,
    }
}

/// Why a mesh cannot be turned into a pick soup, checked in this order:
/// a ragged index run or vertex soup, a soup too large to index in `u32`,
/// more triangles than the ID space, then the first corner naming no
/// vertex.
pub open spec fn pick_soup_error(indices: Option<Seq<u32>>, vertex_count: usize) -> Option<SceneError> {
    let triangles = soup_triangles(indices, vertex_count);
    if (match indices {
        Some(run) => run.len() % 3 != 0,
        None => vertex_count % 3 != 0,
    }) {
        Some(SceneError::UnpickableMesh)
    } else if indices is None && vertex_count > u32::MAX {
        Some(SceneError::PickSpaceExhausted { count: vertex_count })
    } else if triangles > MAX_PICK_TRIANGLES {
        Some(SceneError::PickSpaceExhausted { count: triangles as usize })
    } else if exists|j: int| 0 <= j < 3 * triangles && corner_source(indices, j) >= vertex_count {
        let j = choose|j: int|
            0 <= j < 3 * triangles && corner_source(indices, j) >= vertex_count && forall|i: int|
                0 <= i < j ==> corner_source(indices, i) < vertex_count;
        Some(
            SceneError::IndexOutOfBounds {
                index: corner_source(indices, j) as u32,
                vertex_count,
            },
        )
    } else {
        None
    }
}

/// The corners of the face-pass soup for a mesh with `vertex_count`
/// vertices: every triangle of the index run (or, with no run, every
/// consecutive vertex triple) unwelded into three corners carrying the
/// triangle's ordinal code, in triangle order.
///
/// Fails with [`SceneError::UnpickableMesh`] for a ragged run or soup,
/// [`SceneError::PickSpaceExhausted`] past the ID space, and
/// [`SceneError::IndexOutOfBounds`] for the first corner naming no vertex.
pub fn pick_corners(indices: Option<&[u32]>, vertex_count: usize) -> (result: Result<
    Vec<PickCorner>,
    SceneError,
>)
    ensures
        ({
            let run = match indices {
                Some(run) => Some(run@),
                None => None,
            };
            match pick_soup_error(run, vertex_count) {
                Some(e) => result == Err::<Vec<PickCorner>, SceneError>(e),
                None => result matches Ok(corners) && corners@.len() == 3 * soup_triangles(
                    run,
                    vertex_count,
                ) && forall|j: int|
                    0 <= j < corners@.len() ==> (#[trigger] corners@[j]).source == corner_source(run, j)
                        && (corners@[j].rgb[0], corners@[j].rgb[1], corners@[j].rgb[2]) == spec_rgb_of(
                        (j / 3) as u32,
                    ),
            }
        }),
        indices is None ==> (result matches Ok(corners) ==> forall|j: int|
            0 <= j < corners@.len() ==> (#[trigger] corners@[j]).source == j),
        indices matches Some(run) ==> (result matches Ok(corners) ==> forall|j: int|
            0 <= j < corners@.len() ==> (#[trigger] corners@[j]).source == run@[j]),
{
    let ghost run = match indices {
        Some(run) => Some(run@),
        None => None,
    };
    let corner_count = match indices {
        Some(run) => {
            if run.len() % 3 != 0 {
                return Err(SceneError::UnpickableMesh);
            }
            run.len()
        },
        None => {
            if vertex_count % 3 != 0 {
                return Err(SceneError::UnpickableMesh);
            }
            if vertex_count > u32::MAX as usize {
                return Err(SceneError::PickSpaceExhausted { count: vertex_count });
            }
            vertex_count
        },
    };
    let triangles = corner_count / 3;
    assert(triangles == soup_triangles(run, vertex_count));
    if !triangle_total_fits(triangles) {
        return Err(SceneError::PickSpaceExhausted { count: triangles });
    }
    let mut corners: Vec<PickCorner> = Vec::new();
    let mut j: usize = 0;
    while j < corner_count
        invariant
            corner_count == 3 * triangles,
            triangles <= MAX_PICK_TRIANGLES,
            run == match indices {
                Some(run) => Some(run@),
                None => None::<Seq<u32>>,
            },
            indices is None ==> corner_count <= u32::MAX && corner_count == vertex_count,
            triangles == soup_triangles(run, vertex_count),
            indices matches Some(r) ==> r@.len() == corner_count,
            j <= corner_count,
            corners@.len() == j,
            forall|i: int| 0 <= i < j ==> corner_source(run, i) < vertex_count,
            forall|i: int|
                0 <= i < j ==> (#[trigger] corners@[i]).source == corner_source(run, i) && (
                corners@[i].rgb[0],
                corners@[i].rgb[1],
                corners@[i].rgb[2],
            ) == spec_rgb_of((i / 3) as u32),
        decreases corner_count - j,
    {
        let source: u32 = match indices {
            Some(r) => r[j],
            None => j as u32,
        };
        assert(source == corner_source(run, j as int));
        if source as usize >= vertex_count {
            proof {
                let bad = j as int;
                assert(exists|k: int| 0 <= k < 3 * triangles && corner_source(run, k) >= vertex_count) by {
                    assert(corner_source(run, bad) >= vertex_count);
                }
                let chosen = choose|k: int|
                    0 <= k < 3 * triangles && corner_source(run, k) >= vertex_count && forall|i: int|
                        0 <= i < k ==> corner_source(run, i) < vertex_count;
                assert(0 <= bad < 3 * triangles && corner_source(run, bad) >= vertex_count && forall|i: int|
                    0 <= i < bad ==> corner_source(run, i) < vertex_count);
                if chosen < bad {
                } else if chosen > bad {
                    assert(corner_source(run, bad) < vertex_count);
                }
            }
            return Err(SceneError::IndexOutOfBounds { index: source, vertex_count });
        }
        let ordinal = (j / 3) as u32;
        let rgb = match encode_face_ordinal(ordinal) {
            Ok(rgb) => rgb,
            Err(_) => {
                return Err(SceneError::PickSpaceExhausted { count: triangles });
            },
        };
        corners.push(PickCorner { source, rgb });
        j = j + 1;
    }
    Ok(corners)
}

/// A non-indexed soup takes consecutive vertex triples: triangle `k`
/// copies vertices `3k`, `3k + 1` and `3k + 2`, so no two triangles share a
/// vertex; an indexed soup copies the run's entries in order.
pub proof fn lemma_soup_triangles_take_their_own_vertices(run: Seq<u32>, k: int, c: int)
    requires
        0 <= k,
        0 <= c < 3,
    ensures
        corner_source(None, 3 * k + c) == 3 * k + c,
        corner_source(Some(run), 3 * k + c) == run[3 * k + c] as int,
        forall|k2: int, c2: int|
            0 <= k2 && 0 <= c2 < 3 && k2 != k ==> #[trigger] corner_source(None, 3 * k2 + c2)
                != corner_source(None, 3 * k + c),
{
}

} // verus!
