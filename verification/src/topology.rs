//! Realization topology: the integer half of turning implicit geometry into
//! a triangle soup.
//!
//! Face ordinals are triangle emission order, so the order in which
//! triangles are emitted, the corners each one joins and the grouping of
//! triangles into modeling polygons are the contract that picking and
//! selection rely on. None of them depends on a size, radius or center:
//! only the sphere's resolution reaches the topology.
//!
//! Cube: six split faces of four corners, each face two triangles
//! `(0, 1, 2)` and `(2, 3, 0)` over its corners and one polygon.
//!
//! Sphere: a fully unwelded soup, south pole to north pole. The south pole
//! fan (`segments` triangles, one polygon each), then each quad band ring
//! by ring (two triangles per quad, one polygon per quad), then the north
//! pole fan (`segments` triangles, one polygon each). Latitude line `j`
//! runs from `0` (the north pole line) to `rings` (the south pole line);
//! longitude step `i` runs to `segments`, which repeats the seam.

use vstd::prelude::*;

use crate::geometry::{SphereParams, SphereParamsView};
use crate::selection::is_polygon_total;

use vstd::arithmetic::div_mod::lemma_fundamental_div_mod_converse;

verus! {

/// Corner offsets of one cube face's two triangles within its four corners.
pub open spec fn cube_corner_offset(c: int) -> int {
    if c == 0 {
        0
    } else if c == 1 {
        1
    } else if c == 2 || c == 3 {
        2
    } else if c == 4 {
        3
    } else {
        0
    }
}

/// Index `k` of the realized cube: face `k / 6`, corner slot `k % 6`.
pub open spec fn cube_index(k: int) -> u32 {
    (4 * (k / 6) + cube_corner_offset(k % 6)) as u32
}

/// Triangle indices of a realized cube: 36 entries, two triangles per face
/// over the face's own four vertices.
pub fn cube_indices() -> (indices: Vec<u32>)
    ensures
        indices@ == Seq::new(36, |k: int| cube_index(k)),
{
    let mut indices: Vec<u32> = Vec::new();
    let mut face: u32 = 0;
    while face < 6
        invariant
            face <= 6,
            indices@ == Seq::new(6 * face as nat, |k: int| cube_index(k)),
        decreases 6 - face,
    {
        let base: u32 = 4 * face;
        let ghost before = indices@;
        indices.push(base);
        indices.push(base + 1);
        indices.push(base + 2);
        indices.push(base + 2);
        indices.push(base + 3);
        indices.push(base);
        proof {
            let f = face as int;
            assert((6 * f) / 6 == f && (6 * f) % 6 == 0);
            assert((6 * f + 1) / 6 == f && (6 * f + 1) % 6 == 1);
            assert((6 * f + 2) / 6 == f && (6 * f + 2) % 6 == 2);
            assert((6 * f + 3) / 6 == f && (6 * f + 3) % 6 == 3);
            assert((6 * f + 4) / 6 == f && (6 * f + 4) % 6 == 4);
            assert((6 * f + 5) / 6 == f && (6 * f + 5) % 6 == 5);
            assert(indices@ =~= Seq::new(6 * (face + 1) as nat, |k: int| cube_index(k)));
        }
        face = face + 1;
    }
    indices
}

/// Polygon of each realized cube triangle: one quad polygon per face.
pub fn cube_polygons() -> (polygons: Vec<u32>)
    ensures
        polygons@ == Seq::new(12, |t: int| (t / 2) as u32),
{
    let mut polygons: Vec<u32> = Vec::new();
    let mut face: u32 = 0;
    while face < 6
        invariant
            face <= 6,
            polygons@ == Seq::new(2 * face as nat, |t: int| (t / 2) as u32),
        decreases 6 - face,
    {
        polygons.push(face);
        polygons.push(face);
        assert(polygons@ =~= Seq::new(2 * (face + 1) as nat, |t: int| (t / 2) as u32));
        face = face + 1;
    }
    polygons
}

/// First triangle of the north pole fan: the south fan plus `rings - 2`
/// quad bands of `2 * segments` triangles.
pub open spec fn north_fan_start(segments: int, rings: int) -> int {
    segments + (rings - 2) * (2 * segments)
}

/// Triangle budget of a sphere: `2 * segments * (rings - 1)`.
pub open spec fn sphere_triangle_total(segments: int, rings: int) -> int {
    2 * segments * (rings - 1)
}

/// Polygon owning sphere triangle `t`: fan triangles are their own
/// polygons, the two triangles of a quad share one.
pub open spec fn sphere_polygon(segments: int, rings: int, t: int) -> u32 {
    (if t < segments {
        t
    } else if t < north_fan_start(segments, rings) {
        segments + (t - segments) / 2
    } else {
        t - (rings - 2) * segments
    }) as u32
}

/// Facts about the sphere layout that every builder below needs.
proof fn lemma_sphere_layout(segments: int, rings: int)
    requires
        3 <= segments <= 128,
        2 <= rings <= 64,
    ensures
        north_fan_start(segments, rings) + segments == sphere_triangle_total(segments, rings),
        0 <= (rings - 2) * segments,
        (rings - 2) * (2 * segments) == 2 * ((rings - 2) * segments),
        sphere_triangle_total(segments, rings) <= 2 * 128 * 63,
        segments * rings <= 128 * 64,
        (rings - 2) * segments + 2 * segments == segments * rings,
{
    assert(north_fan_start(segments, rings) + segments == sphere_triangle_total(segments, rings))
        by (nonlinear_arith)
        requires
            3 <= segments,
            2 <= rings,
    ;
    assert(0 <= (rings - 2) * segments) by (nonlinear_arith)
        requires
            3 <= segments,
            2 <= rings,
    ;
    assert((rings - 2) * (2 * segments) == 2 * ((rings - 2) * segments)) by (nonlinear_arith);
    assert(sphere_triangle_total(segments, rings) <= 2 * 128 * 63) by (nonlinear_arith)
        requires
            3 <= segments <= 128,
            2 <= rings <= 64,
    ;
    assert(segments * rings <= 128 * 64) by (nonlinear_arith)
        requires
            3 <= segments <= 128,
            2 <= rings <= 64,
    ;
    assert((rings - 2) * segments + 2 * segments == segments * rings) by (nonlinear_arith);
}

/// Polygon of each realized sphere triangle, in emission order.
#[verifier::loop_isolation(false)]
pub fn sphere_polygons(params: &SphereParams) -> (polygons: Vec<u32>)
    ensures
        polygons@ == Seq::new(
            sphere_triangle_total(params.view().segments as int, params.view().rings as int) as nat,
            |t: int| sphere_polygon(params.view().segments as int, params.view().rings as int, t),
        ),
{
    let segments = params.segments();
    let rings = params.rings();
    let ghost s = segments as int;
    let ghost r = rings as int;
    proof {
        lemma_sphere_layout(s, r);
    }
    let ghost target = Seq::new(
        sphere_triangle_total(s, r) as nat,
        |t: int| sphere_polygon(s, r, t),
    );
    let mut polygons: Vec<u32> = Vec::new();
    let mut i: u32 = 0;
    while i < segments
        invariant
            i <= segments,
            3 <= s <= 128,
            2 <= r <= 64,
            s == segments,
            r == rings,
            north_fan_start(s, r) >= s,
            polygons@ == target.take(i as int),
        decreases segments - i,
    {
        polygons.push(i);
        assert(polygons@ =~= target.take(i + 1));
        i = i + 1;
    }
    // Quad bands: band `j` spans triangles `s + (j - 1) * 2s ..` and
    // polygons `s + (j - 1) * s ..`.
    let mut j: u32 = 1;
    let mut polygon: u32 = segments;
    while j + 1 < rings
        invariant
            1 <= j <= rings - 1,
            3 <= s <= 128,
            2 <= r <= 64,
            s == segments,
            r == rings,
            polygon == s + (j - 1) * s,
            s + (j - 1) * (2 * s) <= north_fan_start(s, r),
            polygons@ == target.take(s + (j - 1) * (2 * s)),
        decreases rings - j,
    {
        let ghost band_start = s + (j - 1) * (2 * s);
        proof {
            assert(j * (2 * s) <= (r - 2) * (2 * s)) by (nonlinear_arith)
                requires
                    j <= r - 2,
                    s >= 0,
            ;
            assert((j - 1) * (2 * s) + 2 * s == j * (2 * s)) by (nonlinear_arith);
            assert((j - 1) * (2 * s) == 2 * ((j - 1) * s)) by (nonlinear_arith);
            assert((j - 1) * s + s == j * s) by (nonlinear_arith);
            assert(j * s <= 128 * 64) by (nonlinear_arith)
                requires
                    j <= 64,
                    s <= 128,
                    0 <= j,
                    0 <= s,
            ;
        }
        let mut i: u32 = 0;
        while i < segments
            invariant
                i <= segments,
                3 <= s <= 128,
                2 <= r <= 64,
                s == segments,
                r == rings,
                1 <= j <= r - 2,
                polygon == s + (j - 1) * s + i,
                band_start == s + (j - 1) * (2 * s),
                (j - 1) * (2 * s) == 2 * ((j - 1) * s),
                band_start + 2 * s <= north_fan_start(s, r),
                (j - 1) * s + s <= 128 * 64,
                polygons@ == target.take(band_start + 2 * i),
            decreases segments - i,
        {
            proof {
                let t = band_start + 2 * i;
                assert((t - s) / 2 == (j - 1) * s + i);
                assert((t + 1 - s) / 2 == (j - 1) * s + i);
            }
            polygons.push(polygon);
            polygons.push(polygon);
            assert(polygons@ =~= target.take(band_start + 2 * (i + 1)));
            polygon = polygon + 1;
            i = i + 1;
        }
        j = j + 1;
    }
    proof {
        assert(j == r - 1 || r == 2);
        if r == 2 {
            assert(j == 1);
        }
        assert(s + (j - 1) * (2 * s) == north_fan_start(s, r)) by (nonlinear_arith)
            requires
                j == r - 1,
        ;
        assert(polygon == s + (r - 2) * s) by (nonlinear_arith)
            requires
                polygon == s + (j - 1) * s,
                j == r - 1,
        ;
    }
    let ghost north = north_fan_start(s, r);
    let mut i: u32 = 0;
    while i < segments
        invariant
            i <= segments,
            3 <= s <= 128,
            2 <= r <= 64,
            s == segments,
            r == rings,
            north == north_fan_start(s, r),
            north + s == sphere_triangle_total(s, r),
            polygon == s + (r - 2) * s + i,
            (r - 2) * (2 * s) == 2 * ((r - 2) * s),
            (r - 2) * s + 2 * s <= 128 * 64,
            polygons@ == target.take(north + i),
        decreases segments - i,
    {
        polygons.push(polygon);
        assert(polygons@ =~= target.take(north + i + 1));
        polygon = polygon + 1;
        i = i + 1;
    }
    assert(polygons@ =~= target);
    polygons
}

/// Triangle indices of a realized sphere: the soup is fully unwelded, so
/// index `k` is vertex `k`, three per budgeted triangle.
pub fn sphere_indices(params: &SphereParams) -> (indices: Vec<u32>)
    ensures
        indices@ == Seq::new(
            3 * sphere_triangle_total(params.view().segments as int, params.view().rings as int) as nat,
            |k: int| k as u32,
        ),
{
    let segments = params.segments();
    let rings = params.rings();
    proof {
        lemma_sphere_layout(segments as int, rings as int);
    }
    let total = 3 * params.triangle_count();
    let mut indices: Vec<u32> = Vec::new();
    let mut k: u32 = 0;
    while k < total
        invariant
            k <= total,
            indices@ == Seq::new(k as nat, |i: int| i as u32),
        decreases total - k,
    {
        indices.push(k);
        assert(indices@ =~= Seq::new((k + 1) as nat, |i: int| i as u32));
        k = k + 1;
    }
    indices
}

/// Where one corner of a sphere triangle sits.
#[derive(Debug, Clone, Copy, PartialEq, Eq, Structural)]
pub enum SphereCorner {
    /// The south pole, written literally from center and radius.
    SouthPole,
    /// The north pole, written literally from center and radius.
    NorthPole,
    /// A grid vertex: latitude line `line` (`0` north to `rings` south),
    /// longitude step `step` (`segments` repeats the seam).
    Ring { line: u32, step: u32 },
}

/// The three corners of one sphere triangle, counterclockwise seen from
/// outside.
#[derive(Debug, Clone, Copy, PartialEq, Eq, Structural)]
pub struct SphereTriangle {
    pub first: SphereCorner,
    pub second: SphereCorner,
    pub third: SphereCorner,
}

/// The grid vertex on `line` at `step`.
pub open spec fn ring(line: int, step: int) -> SphereCorner {
    SphereCorner::Ring { line: line as u32, step: step as u32 }
}

/// A triangle from its three corners.
pub open spec fn triangle(first: SphereCorner, second: SphereCorner, third: SphereCorner) -> SphereTriangle {
    SphereTriangle { first, second, third }
}

/// Triangle `w` of the quad band below latitude line `line`: quad `w / 2`
/// emits `(upper, lower, lower_next)` then `(upper, lower_next, upper_next)`.
pub open spec fn band_triangle(line: int, w: int) -> SphereTriangle {
    let i = w / 2;
    if w % 2 == 0 {
        triangle(ring(line, i), ring(line + 1, i), ring(line + 1, i + 1))
    } else {
        triangle(ring(line, i), ring(line + 1, i + 1), ring(line, i + 1))
    }
}

/// Sphere triangle `t` in emission order: the south fan joins the south
/// pole to the southernmost ring, the bands follow ring by ring, and the
/// north fan joins the north pole to the northernmost ring.
pub open spec fn sphere_triangle(segments: int, rings: int, t: int) -> SphereTriangle {
    if t < segments {
        triangle(SphereCorner::SouthPole, ring(rings - 1, t + 1), ring(rings - 1, t))
    } else if t < north_fan_start(segments, rings) {
        let u = t - segments;
        band_triangle(u / (2 * segments) + 1, u % (2 * segments))
    } else {
        let i = t - north_fan_start(segments, rings);
        triangle(SphereCorner::NorthPole, ring(1, i), ring(1, i + 1))
    }
}

/// The corners of every realized sphere triangle, in emission order.
#[verifier::loop_isolation(false)]
pub fn sphere_triangles(params: &SphereParams) -> (triangles: Vec<SphereTriangle>)
    ensures
        triangles@ == Seq::new(
            sphere_triangle_total(params.view().segments as int, params.view().rings as int) as nat,
            |t: int| sphere_triangle(params.view().segments as int, params.view().rings as int, t),
        ),
{
    let segments = params.segments();
    let rings = params.rings();
    let ghost s = segments as int;
    let ghost r = rings as int;
    proof {
        lemma_sphere_layout(s, r);
    }
    let ghost target = Seq::new(
        sphere_triangle_total(s, r) as nat,
        |t: int| sphere_triangle(s, r, t),
    );
    let mut triangles: Vec<SphereTriangle> = Vec::new();
    let mut i: u32 = 0;
    while i < segments
        invariant
            i <= segments,
            triangles@ == target.take(i as int),
        decreases segments - i,
    {
        triangles.push(
            SphereTriangle {
                first: SphereCorner::SouthPole,
                second: SphereCorner::Ring { line: rings - 1, step: i + 1 },
                third: SphereCorner::Ring { line: rings - 1, step: i },
            },
        );
        assert(triangles@ =~= target.take(i + 1));
        i = i + 1;
    }
    assert(triangles@ == target.take(s));
    assert((1 - 1) * (2 * s) == 0);
    let mut j: u32 = 1;
    while j + 1 < rings
        invariant
            1 <= j <= rings - 1,
            s + (j - 1) * (2 * s) <= north_fan_start(s, r),
            triangles@ == target.take(s + (j - 1) * (2 * s)),
        decreases rings - j,
    {
        let ghost band_start = s + (j - 1) * (2 * s);
        proof {
            assert(j * (2 * s) <= (r - 2) * (2 * s)) by (nonlinear_arith)
                requires
                    j <= r - 2,
                    s >= 0,
            ;
            assert((j - 1) * (2 * s) + 2 * s == j * (2 * s)) by (nonlinear_arith);
        }
        let mut i: u32 = 0;
        while i < segments
            invariant
                i <= segments,
                1 <= j <= r - 2,
                band_start == s + (j - 1) * (2 * s),
                band_start + 2 * s <= north_fan_start(s, r),
                triangles@ == target.take(band_start + 2 * i),
            decreases segments - i,
        {
            proof {
                lemma_fundamental_div_mod_converse((j - 1) * (2 * s) + 2 * i, 2 * s, j - 1, 2 * i);
                lemma_fundamental_div_mod_converse(
                    (j - 1) * (2 * s) + 2 * i + 1,
                    2 * s,
                    j - 1,
                    2 * i + 1,
                );
            }
            triangles.push(
                SphereTriangle {
                    first: SphereCorner::Ring { line: j, step: i },
                    second: SphereCorner::Ring { line: j + 1, step: i },
                    third: SphereCorner::Ring { line: j + 1, step: i + 1 },
                },
            );
            triangles.push(
                SphereTriangle {
                    first: SphereCorner::Ring { line: j, step: i },
                    second: SphereCorner::Ring { line: j + 1, step: i + 1 },
                    third: SphereCorner::Ring { line: j, step: i + 1 },
                },
            );
            assert(triangles@ =~= target.take(band_start + 2 * (i + 1)));
            i = i + 1;
        }
        j = j + 1;
    }
    proof {
        if r == 2 {
            assert(j == 1);
        }
        assert(s + (j - 1) * (2 * s) == north_fan_start(s, r)) by (nonlinear_arith)
            requires
                j == r - 1,
        ;
    }
    let ghost north = north_fan_start(s, r);
    let mut i: u32 = 0;
    while i < segments
        invariant
            i <= segments,
            triangles@ == target.take(north + i),
        decreases segments - i,
    {
        triangles.push(
            SphereTriangle {
                first: SphereCorner::NorthPole,
                second: SphereCorner::Ring { line: 1, step: i },
                third: SphereCorner::Ring { line: 1, step: i + 1 },
            },
        );
        assert(triangles@ =~= target.take(north + i + 1));
        i = i + 1;
    }
    assert(triangles@ =~= target);
    triangles
}

/// The realized sphere's topology depends on its resolution alone: a
/// radius or center edit keeps every face ordinal, every corner and every
/// polygon.
pub proof fn lemma_topology_ignores_radius_and_center(a: SphereParamsView, b: SphereParamsView)
    requires
        a.segments == b.segments,
        a.rings == b.rings,
    ensures
        Seq::new(
            sphere_triangle_total(a.segments as int, a.rings as int) as nat,
            |t: int| sphere_triangle(a.segments as int, a.rings as int, t),
        ) == Seq::new(
            sphere_triangle_total(b.segments as int, b.rings as int) as nat,
            |t: int| sphere_triangle(b.segments as int, b.rings as int, t),
        ),
        Seq::new(
            sphere_triangle_total(a.segments as int, a.rings as int) as nat,
            |t: int| sphere_polygon(a.segments as int, a.rings as int, t),
        ) == Seq::new(
            sphere_triangle_total(b.segments as int, b.rings as int) as nat,
            |t: int| sphere_polygon(b.segments as int, b.rings as int, t),
        ),
{
}

/// A resolution edit renumbers the faces: two different valid
/// resolutions never realize the same triangle sequence.
pub proof fn lemma_resolution_edit_renumbers(s1: int, r1: int, s2: int, r2: int)
    requires
        3 <= s1 <= 128,
        2 <= r1 <= 64,
        3 <= s2 <= 128,
        2 <= r2 <= 64,
        s1 != s2 || r1 != r2,
    ensures
        Seq::new(sphere_triangle_total(s1, r1) as nat, |t: int| sphere_triangle(s1, r1, t))
            != Seq::new(sphere_triangle_total(s2, r2) as nat, |t: int| sphere_triangle(s2, r2, t)),
{
    let p1 = Seq::new(sphere_triangle_total(s1, r1) as nat, |t: int| sphere_triangle(s1, r1, t));
    let p2 = Seq::new(sphere_triangle_total(s2, r2) as nat, |t: int| sphere_triangle(s2, r2, t));
    lemma_sphere_layout(s1, r1);
    lemma_sphere_layout(s2, r2);
    if p1 == p2 {
        assert(sphere_triangle_total(s1, r1) > 0) by (nonlinear_arith)
            requires
                3 <= s1,
                2 <= r1,
        ;
        assert(p1[0] == p2[0]);
        assert(r1 == r2);
        assert(p1.len() == p2.len());
        assert(2 * s1 * (r1 - 1) == 2 * s2 * (r1 - 1));
        assert(s1 == s2) by (nonlinear_arith)
            requires
                2 * s1 * (r1 - 1) == 2 * s2 * (r1 - 1),
                r1 - 1 >= 1,
        ;
    }
}

/// A realized sphere has `segments * rings` polygons: each fan triangle is
/// a polygon of its own and each quad one polygon of two triangles.
pub proof fn lemma_sphere_polygon_total(segments: int, rings: int)
    requires
        3 <= segments <= 128,
        2 <= rings <= 64,
    ensures
        is_polygon_total(
            sphere_triangle_total(segments, rings),
            Seq::new(
                sphere_triangle_total(segments, rings) as nat,
                |t: int| sphere_polygon(segments, rings, t),
            ),
            segments * rings,
        ),
        forall|t: int|
            segments <= t < north_fan_start(segments, rings) && (t - segments) % 2 == 0
                ==> sphere_polygon(segments, rings, t + 1) == #[trigger] sphere_polygon(
                segments,
                rings,
                t,
            ),
{
    let s = segments;
    let r = rings;
    lemma_sphere_layout(s, r);
    let total = sphere_triangle_total(s, r);
    let polygons = Seq::new(total as nat, |t: int| sphere_polygon(s, r, t));
    assert forall|k: int| 0 <= k < polygons.len() implies polygons[k] < s * r by {
        if k < s {
        } else if k < north_fan_start(s, r) {
            assert((k - s) / 2 < (r - 2) * s);
        } else {
        }
    }
    assert(polygons[total - 1] + 1 == s * r);
    assert forall|t: int|
        s <= t < north_fan_start(s, r) && (t - s) % 2 == 0 implies sphere_polygon(s, r, t + 1)
        == #[trigger] sphere_polygon(s, r, t) by {
        assert((t + 1 - s) / 2 == (t - s) / 2);
    }
}

/// A realized cube has six polygons, two triangles each.
pub proof fn lemma_cube_polygon_total()
    ensures
        is_polygon_total(12, Seq::new(12, |t: int| (t / 2) as u32), 6),
{
    let polygons = Seq::new(12, |t: int| (t / 2) as u32);
    assert(polygons[11] + 1 == 6);
}

/// Pole fans cap their own hemisphere: exactly the first `segments`
/// triangles start at the south pole and exactly the last `segments` at
/// the north pole, and a fan's two grid corners lie on the latitude line
/// next to its own pole (line `rings - 1` for the south pole, line `1`
/// for the north pole), at consecutive longitude steps.
pub proof fn lemma_fans_cap_their_own_pole(segments: int, rings: int, t: int)
    requires
        3 <= segments <= 128,
        2 <= rings <= 64,
        0 <= t < sphere_triangle_total(segments, rings),
    ensures
        (sphere_triangle(segments, rings, t).first == SphereCorner::SouthPole) <==> t < segments,
        (sphere_triangle(segments, rings, t).first == SphereCorner::NorthPole) <==> t
            >= sphere_triangle_total(segments, rings) - segments,
        t < segments ==> {
            &&& sphere_triangle(segments, rings, t).second == (SphereCorner::Ring {
                line: (rings - 1) as u32,
                step: (t + 1) as u32,
            })
            &&& sphere_triangle(segments, rings, t).third == (SphereCorner::Ring {
                line: (rings - 1) as u32,
                step: t as u32,
            })
        },
        t >= sphere_triangle_total(segments, rings) - segments ==> {
            let i = t - (sphere_triangle_total(segments, rings) - segments);
            &&& sphere_triangle(segments, rings, t).second == (SphereCorner::Ring {
                line: 1,
                step: i as u32,
            })
            &&& sphere_triangle(segments, rings, t).third == (SphereCorner::Ring {
                line: 1,
                step: (i + 1) as u32,
            })
        },
{
    lemma_sphere_layout(segments, rings);
}

} // verus!
