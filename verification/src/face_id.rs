//! Face-ordinal identity for sub-element picking.
//!
//! Identity is a face ordinal: polygon *k* of an operator's realized mesh.
//! The ID pass rasterizes each face in its 24-bit RGB-encoded ordinal and
//! reads back the tapped pixel; this module owns the codec both ends agree
//! on, plus the count-change staleness rule deciding whether a stored pick
//! survives a recook.
//!
//! Miss handling: the RGB channel carries ordinals only, so the hit flag
//! travels in alpha — alpha-zero pixels decode to `None`, every other pixel
//! to its ordinal — keeping the whole 24-bit range round-trippable.

use vstd::prelude::*;

use crate::text::{decimal, push_decimal};

verus! {

/// Bits of face-ordinal identity carried in one ID-buffer pixel (R8G8B8).
pub const FACE_ID_BITS: u32 = 24;

/// Largest encodable face ordinal: the whole 24-bit range is valid identity.
pub const MAX_FACE_ORDINAL: u32 = 0x00FF_FFFF;

/// Alpha marking a hit pixel in the ID-buffer readback.
pub const HIT_ALPHA: u8 = 255;

/// Alpha marking a miss pixel in the ID-buffer readback (the pass clear).
pub const MISS_ALPHA: u8 = 0;

/// Explicit miss encoding: any RGB with [`MISS_ALPHA`].
pub const MISS_PIXEL: [u8; 4] = [0, 0, 0, MISS_ALPHA];

/// Domain errors for face-identity encoding.
#[derive(Debug, Clone, Copy, PartialEq, Eq, Structural)]
pub enum FaceIdError {
    /// The ordinal exceeds the 24-bit ID-buffer range.
    OrdinalOutOfRange {
        /// The rejected ordinal.
        ordinal: u32,
    },
}

impl FaceIdError {
    /// Human-readable message naming the rejected ordinal and the range.
    pub fn message(&self) -> (text: String)
        ensures
            match self {
                FaceIdError::OrdinalOutOfRange { ordinal } => text@ == "face ordinal "@ + decimal(
                    *ordinal as nat,
                ) + " exceeds the 24-bit range (max "@ + decimal(MAX_FACE_ORDINAL as nat) + ")"@,
            },
    {
        match self {
            FaceIdError::OrdinalOutOfRange { ordinal } => {
                let mut text = String::from_str("face ordinal ");
                push_decimal(&mut text, *ordinal as u64);
                text.append(" exceeds the 24-bit range (max ");
                push_decimal(&mut text, MAX_FACE_ORDINAL as u64);
                text.append(")");
                text
            },
        }
    }
}

/// The big-endian byte triple of a 24-bit ordinal, R carrying the high byte.
pub open spec fn spec_rgb_of(ordinal: u32) -> (u8, u8, u8) {
    (
        ((ordinal as int / 65536) % 256) as u8,
        ((ordinal as int / 256) % 256) as u8,
        (ordinal as int % 256) as u8,
    )
}

/// The ordinal a byte triple names: `r * 2^16 + g * 2^8 + b`.
pub open spec fn spec_ordinal_of(rgb: [u8; 3]) -> int {
    rgb[0] as int * 65536 + rgb[1] as int * 256 + rgb[2] as int
}

/// Encode a face ordinal as 24-bit RGB, R carrying the high byte.
///
/// Fails with [`FaceIdError::OrdinalOutOfRange`] exactly when `ordinal`
/// exceeds [`MAX_FACE_ORDINAL`]; never truncates.
pub fn encode_face_ordinal(ordinal: u32) -> (result: Result<[u8; 3], FaceIdError>)
    ensures
        ordinal > MAX_FACE_ORDINAL ==> result == Err::<[u8; 3], FaceIdError>(
            FaceIdError::OrdinalOutOfRange { ordinal },
        ),
        ordinal <= MAX_FACE_ORDINAL ==> (result matches Ok(rgb) && (rgb[0], rgb[1], rgb[2])
            == spec_rgb_of(ordinal)),
        ordinal <= MAX_FACE_ORDINAL ==> (result matches Ok(rgb) && spec_ordinal_of(rgb)
            == ordinal),
{
    if ordinal > MAX_FACE_ORDINAL {
        return Err(FaceIdError::OrdinalOutOfRange { ordinal });
    }
    let r = (ordinal / 65536) as u8;
    let g = ((ordinal / 256) % 256) as u8;
    let b = (ordinal % 256) as u8;
    Ok([r, g, b])
}

/// Decode a 24-bit RGB triple back to its face ordinal.
///
/// Total: every triple is a valid ordinal (miss travels in alpha, never in
/// RGB), so this is the exact inverse of [`encode_face_ordinal`].
pub fn decode_face_ordinal(rgb: [u8; 3]) -> (ordinal: u32)
    ensures
        ordinal == spec_ordinal_of(rgb),
        ordinal <= MAX_FACE_ORDINAL,
{
    (rgb[0] as u32) * 65536 + (rgb[1] as u32) * 256 + (rgb[2] as u32)
}

/// Resolve one read-back ID pixel (RGBA) to a face ordinal, or `None` for a
/// miss. Only [`MISS_ALPHA`] means "tapped nothing"; RGB black with any
/// other alpha is face zero.
pub fn decode_pick_pixel(pixel: [u8; 4]) -> (result: Option<u32>)
    ensures
        pixel[3] == MISS_ALPHA ==> result is None,
        pixel[3] != MISS_ALPHA ==> result == Some(
            spec_ordinal_of([pixel[0], pixel[1], pixel[2]]) as u32,
        ),
{
    if pixel[3] == MISS_ALPHA {
        None
    } else {
        Some(decode_face_ordinal([pixel[0], pixel[1], pixel[2]]))
    }
}

/// Whether a stored face pick survives a recook: equal counts retain the
/// pick, any count change invalidates it.
pub fn selection_survives_recook(
    previous_triangle_count: usize,
    current_triangle_count: usize,
) -> (survives: bool)
    ensures
        survives == (previous_triangle_count == current_triangle_count),
{
    previous_triangle_count == current_triangle_count
}

/// Encoding then decoding gives back every ordinal of the 24-bit range.
pub proof fn lemma_ordinal_round_trip(ordinal: u32)
    requires
        ordinal <= MAX_FACE_ORDINAL,
    ensures
        ({
            let (r, g, b) = spec_rgb_of(ordinal);
            spec_ordinal_of([r, g, b]) == ordinal
        }),
{
}

/// Decoding then encoding gives back every byte triple: the codec is a
/// bijection between triples and the 24-bit ordinal range.
pub proof fn lemma_rgb_round_trip(rgb: [u8; 3])
    ensures
        0 <= spec_ordinal_of(rgb) <= MAX_FACE_ORDINAL,
        spec_rgb_of(spec_ordinal_of(rgb) as u32) == (rgb[0], rgb[1], rgb[2]),
{
}

} // verus!
