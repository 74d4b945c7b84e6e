use veronica::geometry::{SphereParams, DEFAULT_SPHERE_CENTER, F64_HALF_BITS};
use veronica::selection::polygon_total;
use veronica::topology::{
    cube_indices, cube_polygons, sphere_indices, sphere_polygons, sphere_triangles, SphereCorner,
    SphereTriangle,
};

fn sphere(segments: i64, rings: i64) -> SphereParams {
    SphereParams::new(segments, rings, F64_HALF_BITS, DEFAULT_SPHERE_CENTER).unwrap()
}

fn ring(line: u32, step: u32) -> SphereCorner {
    SphereCorner::Ring { line, step }
}

#[test]
fn cube_faces_emit_two_triangles_over_their_own_corners() {
    let indices = cube_indices();
    assert_eq!(indices.len(), 36);
    assert_eq!(&indices[0..6], &[0, 1, 2, 2, 3, 0]);
    assert_eq!(&indices[30..36], &[20, 21, 22, 22, 23, 20]);
    assert_eq!(cube_polygons(), vec![0, 0, 1, 1, 2, 2, 3, 3, 4, 4, 5, 5]);
    assert_eq!(polygon_total(12, &cube_polygons()), 6);
}

#[test]
fn sphere_soup_counts_match_the_triangle_budget_everywhere() {
    for (segments, rings) in [(3, 2), (4, 3), (8, 8), (32, 16), (128, 64)] {
        let params = sphere(segments, rings);
        let budget = params.triangle_count() as usize;
        let indices = sphere_indices(&params);
        assert_eq!(indices.len(), 3 * budget, "segments={segments} rings={rings}");
        assert!(indices.iter().enumerate().all(|(k, index)| *index as usize == k));
        assert_eq!(sphere_triangles(&params).len(), budget);
        let polygons = sphere_polygons(&params);
        assert_eq!(polygons.len(), budget);
        assert_eq!(
            polygon_total(budget, &polygons),
            (segments * rings) as usize,
            "segments={segments} rings={rings}"
        );
    }
}

#[test]
fn default_sphere_groups_its_first_quad_after_the_south_fan() {
    let polygons = sphere_polygons(&SphereParams::default());
    assert_eq!(polygons.len(), 960);
    assert_eq!(polygons[31], 31);
    assert_eq!(polygons[32], 32);
    assert_eq!(polygons[33], 32);
    assert_eq!(polygons[34], 33);
    assert_eq!(polygons[959], 32 * 16 - 1);
}

#[test]
fn quad_band_sphere_has_fifteen_polygons_over_twenty_triangles() {
    let polygons = sphere_polygons(&sphere(5, 3));
    assert_eq!(
        polygons,
        vec![0, 1, 2, 3, 4, 5, 5, 6, 6, 7, 7, 8, 8, 9, 9, 10, 11, 12, 13, 14]
    );
    let coarse = sphere_polygons(&sphere(8, 2));
    assert_eq!(coarse, (0..16).collect::<Vec<u32>>());
}

#[test]
fn poles_open_and_close_the_triangle_sequence() {
    let triangles = sphere_triangles(&sphere(3, 2));
    assert_eq!(triangles.len(), 6);
    assert_eq!(
        triangles[0],
        SphereTriangle {
            first: SphereCorner::SouthPole,
            second: ring(1, 1),
            third: ring(1, 0),
        }
    );
    assert_eq!(
        triangles[5],
        SphereTriangle {
            first: SphereCorner::NorthPole,
            second: ring(1, 2),
            third: ring(1, 3),
        }
    );
}

#[test]
fn quads_wind_upper_lower_then_upper_next() {
    let triangles = sphere_triangles(&sphere(4, 3));
    assert_eq!(
        triangles[4],
        SphereTriangle {
            first: ring(1, 0),
            second: ring(2, 0),
            third: ring(2, 1),
        }
    );
    assert_eq!(
        triangles[5],
        SphereTriangle {
            first: ring(1, 0),
            second: ring(2, 1),
            third: ring(1, 1),
        }
    );
    assert_eq!(
        triangles[0],
        SphereTriangle {
            first: SphereCorner::SouthPole,
            second: ring(2, 1),
            third: ring(2, 0),
        }
    );
}

#[test]
fn topology_ignores_radius_and_center_but_not_resolution() {
    let base = SphereParams::default();
    let resized = SphereParams::new(32, 16, 2.0f64.to_bits(), [1, 2, 3]).unwrap();
    assert_eq!(sphere_triangles(&base), sphere_triangles(&resized));
    assert_eq!(sphere_polygons(&base), sphere_polygons(&resized));
    assert_ne!(sphere_triangles(&base), sphere_triangles(&sphere(33, 16)));
    assert_ne!(sphere_triangles(&base), sphere_triangles(&sphere(32, 17)));
    assert_ne!(sphere_triangles(&sphere(4, 3)), sphere_triangles(&sphere(8, 2)));
}
