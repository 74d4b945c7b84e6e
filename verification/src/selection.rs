//! Selection: the single stored pick, its polygon-granular highlight mask,
//! and the staleness rule applied after every recook.
//!
//! A mesh's triangles may be grouped into modeling polygons by a
//! triangle-to-polygon map (entry `t` names the polygon owning triangle
//! `t`); an empty map means every triangle is its own polygon. Selecting a
//! polygon highlights every corner of every member triangle. A stored pick
//! survives a recook exactly when its node still cooks to the same polygon
//! total.

use vstd::prelude::*;

use crate::domain::NodeId;
use crate::frame::SceneError;
use crate::pick::Pick;

verus! {

/// Whether `total` is the polygon total of a grouping over `triangles`
/// triangles: the triangle total for an empty map, else one past the
/// largest polygon id.
pub open spec fn is_polygon_total(triangles: int, tri_to_poly: Seq<u32>, total: int) -> bool {
    if tri_to_poly.len() == 0 {
        total == triangles
    } else {
        &&& forall|k: int| 0 <= k < tri_to_poly.len() ==> tri_to_poly[k] < total
        &&& exists|k: int| 0 <= k < tri_to_poly.len() && tri_to_poly[k] + 1 == total
    }
}

/// Polygons named by a grouping over `triangles` triangles: one past the
/// highest grouped id, or the triangle total when there is no map.
pub fn polygon_total(triangles: usize, tri_to_poly: &[u32]) -> (total: usize)
    requires
        forall|k: int| 0 <= k < tri_to_poly@.len() ==> tri_to_poly@[k] < usize::MAX,
    ensures
        is_polygon_total(triangles as int, tri_to_poly@, total as int),
{
    if tri_to_poly.len() == 0 {
        return triangles;
    }
    let mut max: u32 = tri_to_poly[0];
    let mut k: usize = 1;
    while k < tri_to_poly.len()
        invariant
            1 <= k <= tri_to_poly@.len(),
            forall|i: int| 0 <= i < k ==> tri_to_poly@[i] <= max,
            exists|i: int| 0 <= i < k && tri_to_poly@[i] == max,
        decreases tri_to_poly@.len() - k,
    {
        if tri_to_poly[k] > max {
            max = tri_to_poly[k];
        }
        k = k + 1;
    }
    assert(max < usize::MAX) by {
        let i = choose|i: int| 0 <= i < k && tri_to_poly@[i] == max;
    }
    max as usize + 1
}

/// Whether triangle `k` belongs to polygon `face`.
pub open spec fn is_member(tri_to_poly: Seq<u32>, face: u32, k: int) -> bool {
    if tri_to_poly.len() == 0 {
        k == face
    } else {
        0 <= k < tri_to_poly.len() && tri_to_poly[k] == face
    }
}

/// Corner `c` of triangle `k` in an index run.
pub open spec fn corner(indices: Seq<u32>, k: int, c: int) -> u32 {
    indices[3 * k + c]
}

/// Whether some corner of a member triangle of `face` is vertex `v`.
pub open spec fn highlights(indices: Seq<u32>, tri_to_poly: Seq<u32>, face: u32, v: int) -> bool {
    exists|k: int, c: int|
        0 <= c < 3 && #[trigger] is_member(tri_to_poly, face, k) && #[trigger] corner(indices, k, c) == v
}

/// Why polygon `face` cannot be highlighted, checked in this order: it is
/// past the polygon total, or no triangle belongs to it; a member triangle
/// lies past the index run, or a member corner names no vertex.
pub open spec fn selection_error(
    indices: Seq<u32>,
    vertex_count: int,
    face: u32,
    tri_to_poly: Seq<u32>,
    total: int,
) -> Option<SceneError> {
    let triangles = indices.len() / 3;
    if face >= total || !(exists|k: int| #[trigger] is_member(tri_to_poly, face, k)) {
        Some(SceneError::SelectionFaceOutOfRange { face, triangles: triangles as usize })
    } else if exists|k: int| #[trigger] is_member(tri_to_poly, face, k) && k >= triangles {
        Some(SceneError::UnpickableMesh)
    } else if exists|k: int, c: int|
        0 <= c < 3 && #[trigger] is_member(tri_to_poly, face, k) && #[trigger] corner(indices, k, c)
            >= vertex_count {
        Some(SceneError::UnpickableMesh)
    } else {
        None
    }
}

/// The highlight for polygon `face` of a mesh with index run `indices`
/// (whole triangles) and `vertex_count` vertices: the triangle total and a
/// per-vertex mask set exactly on the corners of the polygon's member
/// triangles.
///
/// Fails with [`SceneError::SelectionFaceOutOfRange`] when `face` names no
/// polygon (past the total, or a gap in the grouping), and with
/// [`SceneError::UnpickableMesh`] when the grouping or the index run names
/// triangles or vertices the mesh does not hold.
#[verifier::loop_isolation(false)]
pub fn selection_mask(indices: &[u32], vertex_count: usize, face: u32, tri_to_poly: &[u32]) -> (result:
    Result<(usize, Vec<bool>), SceneError>)
    requires
        forall|k: int| 0 <= k < tri_to_poly@.len() ==> tri_to_poly@[k] < usize::MAX,
    ensures
        forall|total: int|
            #[trigger] is_polygon_total((indices@.len() / 3) as int, tri_to_poly@, total) ==> match selection_error(
                indices@,
                vertex_count as int,
                face,
                tri_to_poly@,
                total,
            ) {
                Some(e) => result == Err::<(usize, Vec<bool>), SceneError>(e),
                None => result matches Ok((triangles, mask)) && triangles == indices@.len() / 3
                    && mask@.len() == vertex_count && forall|v: int|
                    0 <= v < vertex_count ==> (mask@[v] <==> highlights(indices@, tri_to_poly@, face, v)),
            },
{
    let triangles = indices.len() / 3;
    let total = polygon_total(triangles, tri_to_poly);
    proof {
        lemma_polygon_total_unique(triangles as int, tri_to_poly@, total as int);
    }
    if face as usize >= total {
        return Err(SceneError::SelectionFaceOutOfRange { face, triangles });
    }
    let mut members: Vec<usize> = Vec::new();
    if tri_to_poly.len() == 0 {
        members.push(face as usize);
    } else {
        let mut k: usize = 0;
        while k < tri_to_poly.len()
            invariant
                tri_to_poly@.len() > 0,
                k <= tri_to_poly@.len(),
                forall|i: int| 0 <= i < members@.len() ==> is_member(tri_to_poly@, face, #[trigger] members@[i] as int),
                forall|m: int| 0 <= m < k && is_member(tri_to_poly@, face, m) ==> members@.contains(m as usize),
            decreases tri_to_poly@.len() - k,
        {
            let ghost before = members@;
            if tri_to_poly[k] == face {
                members.push(k);
            }
            proof {
                assert forall|m: int| 0 <= m < k + 1 && is_member(tri_to_poly@, face, m) implies members@.contains(
                    m as usize,
                ) by {
                    if m == k {
                        assert(members@[members@.len() - 1] == k);
                    } else {
                        assert(before.contains(m as usize));
                        let w = choose|w: int| 0 <= w < before.len() && before[w] == m as usize;
                        assert(members@[w] == m as usize);
                    }
                }
            }
            k = k + 1;
        }
    }
    assert(forall|m: int| #[trigger] is_member(tri_to_poly@, face, m) ==> members@.contains(m as usize)) by {
        if tri_to_poly@.len() == 0 {
            assert forall|m: int| #[trigger] is_member(tri_to_poly@, face, m) implies members@.contains(m as usize) by {
                assert(members@[0] == m);
            }
        }
    }
    assert(forall|i: int| 0 <= i < members@.len() ==> is_member(tri_to_poly@, face, #[trigger] members@[i] as int));
    if members.len() == 0 {
        proof {
            if exists|k: int| #[trigger] is_member(tri_to_poly@, face, k) {
                let k = choose|k: int| #[trigger] is_member(tri_to_poly@, face, k);
                assert(members@.contains(k as usize));
            }
        }
        return Err(SceneError::SelectionFaceOutOfRange { face, triangles });
    }
    let mut corners: Vec<usize> = Vec::new();
    let mut i: usize = 0;
    while i < members.len()
        invariant
            triangles == indices@.len() / 3,
            i <= members@.len(),
            forall|j: int| 0 <= j < members@.len() ==> is_member(tri_to_poly@, face, #[trigger] members@[j] as int),
            forall|j: int| 0 <= j < i ==> #[trigger] members@[j] < triangles,
            corners@.len() == 3 * i,
            forall|j: int, c: int|
                0 <= j < i && 0 <= c < 3 ==> corners@[3 * j + c] == corner(indices@, members@[j] as int, c),
        decreases members@.len() - i,
    {
        let m = members[i];
        if m >= triangles {
            proof {
                assert(is_member(tri_to_poly@, face, m as int));
            }
            return Err(SceneError::UnpickableMesh);
        }
        assert(3 * (indices@.len() / 3) <= indices@.len());
        assert(3 * m + 2 < indices@.len());
        corners.push(indices[3 * m] as usize);
        corners.push(indices[3 * m + 1] as usize);
        corners.push(indices[3 * m + 2] as usize);
        i = i + 1;
    }
    // Every member corner, and nothing else, is in `corners`.
    assert forall|v: int| (exists|n: int| 0 <= n < corners@.len() && corners@[n] == v) <==> highlights(
        indices@,
        tri_to_poly@,
        face,
        v,
    ) by {
        if exists|n: int| 0 <= n < corners@.len() && corners@[n] == v {
            let n = choose|n: int| 0 <= n < corners@.len() && corners@[n] == v;
            let j = n / 3;
            let c = n % 3;
            assert(corners@[3 * j + c] == corner(indices@, members@[j] as int, c));
            assert(is_member(tri_to_poly@, face, members@[j] as int));
        }
        if highlights(indices@, tri_to_poly@, face, v) {
            let (k, c) = choose|k: int, c: int|
                0 <= c < 3 && #[trigger] is_member(tri_to_poly@, face, k) && #[trigger] corner(indices@, k, c) == v;
            assert(members@.contains(k as usize));
            let j = choose|j: int| 0 <= j < members@.len() && members@[j] == k as usize;
            assert(corners@[3 * j + c] == v);
        }
    }
    let mut n: usize = 0;
    while n < corners.len()
        invariant
            n <= corners@.len(),
            forall|j: int| 0 <= j < n ==> corners@[j] < vertex_count,
        decreases corners@.len() - n,
    {
        if corners[n] >= vertex_count {
            proof {
                let v = corners@[n as int] as int;
                assert(highlights(indices@, tri_to_poly@, face, v));
                let (k, c) = choose|k: int, c: int|
                    0 <= c < 3 && #[trigger] is_member(tri_to_poly@, face, k) && #[trigger] corner(indices@, k, c) == v;
                assert(is_member(tri_to_poly@, face, k) && corner(indices@, k, c) >= vertex_count);
            }
            return Err(SceneError::UnpickableMesh);
        }
        n = n + 1;
    }
    let mut mask: Vec<bool> = Vec::new();
    let mut v: usize = 0;
    while v < vertex_count
        invariant
            v <= vertex_count,
            mask@.len() == v,
            forall|u: int| 0 <= u < v ==> !mask@[u],
        decreases vertex_count - v,
    {
        mask.push(false);
        v = v + 1;
    }
    let mut n: usize = 0;
    while n < corners.len()
        invariant
            n <= corners@.len(),
            mask@.len() == vertex_count,
            forall|j: int| 0 <= j < corners@.len() ==> corners@[j] < vertex_count,
            forall|u: int|
                0 <= u < vertex_count ==> (mask@[u] <==> exists|j: int| 0 <= j < n && corners@[j] == u),
        decreases corners@.len() - n,
    {
        let target = corners[n];
        mask.set(target, true);
        proof {
            assert forall|u: int| 0 <= u < vertex_count implies (mask@[u] <==> exists|j: int|
                0 <= j < n + 1 && corners@[j] == u) by {
                if u == target {
                    assert(corners@[n as int] == u);
                }
            }
        }
        n = n + 1;
    }
    proof {
        assert forall|k: int| #[trigger] is_member(tri_to_poly@, face, k) implies k < triangles by {
            assert(members@.contains(k as usize));
            let j = choose|j: int| 0 <= j < members@.len() && members@[j] == k as usize;
        }
        assert forall|k: int, c: int|
            #![trigger corner(indices@, k, c)]
            0 <= c < 3 && is_member(tri_to_poly@, face, k) implies corner(indices@, k, c) < vertex_count by {
            assert(highlights(indices@, tri_to_poly@, face, corner(indices@, k, c) as int));
        }
        assert(is_member(tri_to_poly@, face, members@[0] as int));
        assert(selection_error(indices@, vertex_count as int, face, tri_to_poly@, total as int) is None);
        assert forall|u: int| 0 <= u < vertex_count implies (mask@[u] <==> highlights(
            indices@,
            tri_to_poly@,
            face,
            u,
        )) by {
            if mask@[u] {
                assert(exists|j: int| 0 <= j < corners@.len() && corners@[j] == u);
            }
            if highlights(indices@, tri_to_poly@, face, u) {
                assert(exists|j: int| 0 <= j < corners@.len() && corners@[j] == u);
            }
        }
    }
    Ok((triangles, mask))
}

/// A polygon total is unique.
proof fn lemma_polygon_total_unique(triangles: int, tri_to_poly: Seq<u32>, total: int)
    requires
        is_polygon_total(triangles, tri_to_poly, total),
    ensures
        forall|other: int| is_polygon_total(triangles, tri_to_poly, other) ==> other == total,
{
    assert forall|other: int| is_polygon_total(triangles, tri_to_poly, other) implies other == total by {
        if tri_to_poly.len() > 0 {
            let a = choose|k: int| 0 <= k < tri_to_poly.len() && tri_to_poly[k] + 1 == total;
            let b = choose|k: int| 0 <= k < tri_to_poly.len() && tri_to_poly[k] + 1 == other;
            assert(tri_to_poly[a] < other);
            assert(tri_to_poly[b] < total);
        }
    }
}

/// A stored pick plus the target's polygon total at select time.
#[derive(Debug, Clone, Copy, PartialEq, Eq)]
struct StoredPick {
    node: NodeId,
    face: u32,
    polygons: usize,
}

/// Ephemeral single selection: the resolved tap, if any, with the polygon
/// total its target had when it was selected.
#[derive(Debug)]
pub struct Selection {
    pick: Option<StoredPick>,
}

impl Selection {
    /// Abstract state: the stored pick and its polygon total.
    pub closed spec fn view(&self) -> Option<(Pick, usize)> {
        match self.pick {
            Some(stored) => Some((Pick { node: stored.node, face: stored.face }, stored.polygons)),
            None => None,
        }
    }

    /// Nothing selected.
    pub fn new() -> (selection: Self)
        ensures
            selection.view() is None,
    {
        Selection { pick: None }
    }

    /// Currently selected face identity, if any.
    pub fn get(&self) -> (pick: Option<Pick>)
        ensures
            pick == match self.view() {
                Some((p, _)) => Some(p),
                None => None,
            },
    {
        match self.pick {
            Some(stored) => Some(Pick { node: stored.node, face: stored.face }),
            None => None,
        }
    }

    /// Store `pick` with its target's polygon total, replacing any previous
    /// selection.
    pub fn store(&mut self, pick: Pick, polygons: usize)
        ensures
            final(self).view() == Some((pick, polygons)),
    {
        self.pick = Some(StoredPick { node: pick.node, face: pick.face, polygons });
    }

    /// Clear the selection.
    pub fn clear(&mut self)
        ensures
            final(self).view() is None,
    {
        self.pick = None;
    }

    /// The pick to re-apply after a recook that left its node with
    /// `current_polygons` polygons (`None` when the node no longer cooks a
    /// mappable mesh): the stored pick exactly when the total is unchanged.
    pub fn retained(&self, current_polygons: Option<usize>) -> (kept: Option<Pick>)
        ensures
            kept == match self.view() {
                Some((p, polygons)) => if current_polygons == Some(polygons) {
                    Some(p)
                } else {
                    None
                },
                None => None,
            },
    {
        match self.pick {
            Some(stored) => match current_polygons {
                Some(total) => if total == stored.polygons {
                    Some(Pick { node: stored.node, face: stored.face })
                } else {
                    None
                },
                None => None,
            },
            None => None,
        }
    }
}

impl Default for Selection {
    fn default() -> (selection: Self)
        ensures
            selection.view() is None,
    {
        Selection { pick: None }
    }
}

} // verus!
