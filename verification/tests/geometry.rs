use veronica::geometry::{
    check_resolution, CookError, CubeParams, SphereParams, CUBE_CENTER_KEY, CUBE_SIZE_KEY,
    DEFAULT_CUBE_CENTER, DEFAULT_CUBE_SIZE, DEFAULT_SPHERE_CENTER, DEFAULT_SPHERE_RADIUS,
    DEFAULT_SPHERE_RINGS, DEFAULT_SPHERE_SEGMENTS, SPHERE_CENTER_KEY, SPHERE_RADIUS_KEY,
    SPHERE_RINGS_KEY, SPHERE_SEGMENTS_KEY,
};
use veronica::params::{ParamMap, ParamValue};

const EXPECTED_VEC3: &str = "a vec3 of three f64 numbers";
const EXPECTED_SEGMENTS: &str = "an integer segment count from 3 to 128";
const EXPECTED_RINGS: &str = "an integer ring count from 2 to 64";
const EXPECTED_RADIUS: &str = "a positive finite f64 radius";
const EXPECTED_CENTER: &str = "a vec3 of three f64 numbers";

fn params(pairs: &[(&str, ParamValue)]) -> ParamMap {
    let mut map = ParamMap::new();
    for (key, value) in pairs {
        map.insert((*key).to_owned(), value.clone());
    }
    map
}

fn bits3(values: [f64; 3]) -> [u64; 3] {
    [values[0].to_bits(), values[1].to_bits(), values[2].to_bits()]
}

fn assert_triple_bits_eq(actual: [u64; 3], expected: [f64; 3]) {
    for (index, (a, e)) in actual.iter().zip(expected.iter()).enumerate() {
        assert_eq!(*a, e.to_bits(), "component {index}");
    }
}

fn expect_invalid(result: &Result<SphereParams, CookError>, key: &str, expected: &'static str) {
    assert_eq!(
        result,
        &Err(CookError::InvalidParameter {
            key: key.to_owned(),
            expected,
        }),
        "{key} must fail naming its domain"
    );
}

#[test]
fn display_names_the_key_and_the_expected_shape() {
    let error = CookError::InvalidParameter {
        key: "size".to_owned(),
        expected: "a vec3 of three f64 numbers",
    };
    assert_eq!(
        error.message(),
        "parameter \"size\" must be a vec3 of three f64 numbers"
    );
    assert_eq!(
        CookError::Cycle.message(),
        "cannot cook a graph containing a dependency cycle"
    );
}

#[test]
fn cube_absent_keys_fall_back_to_documented_defaults() {
    assert_eq!(
        CubeParams::parse(&params(&[])).unwrap(),
        CubeParams::default()
    );
    assert_triple_bits_eq(CubeParams::default().size, [1.0, 1.0, 1.0]);
    assert_triple_bits_eq(CubeParams::default().center, [0.0, 0.0, 0.0]);
    assert_eq!(CubeParams::default().size, DEFAULT_CUBE_SIZE);
    assert_eq!(CubeParams::default().center, DEFAULT_CUBE_CENTER);
}

#[test]
fn explicit_triples_are_carried_verbatim() {
    let parsed = CubeParams::parse(&params(&[
        ("size", ParamValue::Vec3(bits3([2.0, 0.5, 3.25]))),
        ("center", ParamValue::Vec3(bits3([0.0, -0.0, 10.0]))),
    ]))
    .unwrap();
    assert_triple_bits_eq(parsed.size, [2.0, 0.5, 3.25]);
    assert_eq!(parsed.center[1], (-0.0_f64).to_bits());
}

#[test]
fn cube_each_wrong_variant_fails_naming_key_and_shape() {
    for key in [CUBE_SIZE_KEY, CUBE_CENTER_KEY] {
        for wrong in [
            ParamValue::Float(1.0_f64.to_bits()),
            ParamValue::Integer(1),
            ParamValue::Text("1".to_owned()),
            ParamValue::Flag(true),
        ] {
            assert_eq!(
                CubeParams::parse(&params(&[(key, wrong)])),
                Err(CookError::InvalidParameter {
                    key: key.to_owned(),
                    expected: EXPECTED_VEC3,
                }),
                "{key} must reject every non-vec3 variant"
            );
        }
    }
}

#[test]
fn cube_unknown_keys_are_ignored_for_forward_tolerance() {
    let parsed = CubeParams::parse(&params(&[
        ("size", ParamValue::Vec3(bits3([2.0, 2.0, 2.0]))),
        ("bevel", ParamValue::Float(0.1_f64.to_bits())),
    ]))
    .unwrap();
    assert_triple_bits_eq(parsed.size, [2.0, 2.0, 2.0]);
    assert_triple_bits_eq(parsed.center, [0.0, 0.0, 0.0]);
}

#[test]
fn non_finite_values_are_carried_not_validated() {
    let parsed = CubeParams::parse(&params(&[(
        "size",
        ParamValue::Vec3(bits3([f64::NAN, f64::INFINITY, 1.0])),
    )]))
    .unwrap();
    assert!(f64::from_bits(parsed.size[0]).is_nan());
    assert_eq!(parsed.size[1], f64::INFINITY.to_bits());
}

#[test]
fn sphere_absent_keys_fall_back_to_documented_defaults() {
    let parsed = SphereParams::parse(&params(&[])).unwrap();
    assert_eq!(parsed, SphereParams::default());
    assert_eq!(parsed.segments(), DEFAULT_SPHERE_SEGMENTS);
    assert_eq!(parsed.rings(), DEFAULT_SPHERE_RINGS);
    assert_eq!(parsed.radius(), 0.5_f64.to_bits());
    assert_eq!(parsed.radius(), DEFAULT_SPHERE_RADIUS);
    assert_triple_bits_eq(parsed.center(), [0.0, 0.0, 0.0]);
    assert_eq!(parsed.center(), DEFAULT_SPHERE_CENTER);
}

#[test]
fn explicit_values_are_carried_verbatim() {
    let parsed = SphereParams::parse(&params(&[
        ("segments", ParamValue::Integer(3)),
        ("rings", ParamValue::Integer(64)),
        ("radius", ParamValue::Float(2.5_f64.to_bits())),
        ("center", ParamValue::Vec3(bits3([1.0, -0.0, -3.0]))),
    ]))
    .unwrap();
    assert_eq!(parsed.segments(), 3);
    assert_eq!(parsed.rings(), 64);
    assert_eq!(parsed.radius(), 2.5_f64.to_bits());
    assert_eq!(parsed.center()[1], (-0.0_f64).to_bits());
}

#[test]
fn sphere_each_wrong_variant_fails_naming_key_and_shape() {
    for wrong in [
        ParamValue::Float(1.0_f64.to_bits()),
        ParamValue::Text("32".to_owned()),
        ParamValue::Flag(true),
        ParamValue::Vec3(bits3([32.0, 16.0, 1.0])),
    ] {
        expect_invalid(
            &SphereParams::parse(&params(&[(SPHERE_SEGMENTS_KEY, wrong.clone())])),
            SPHERE_SEGMENTS_KEY,
            EXPECTED_SEGMENTS,
        );
        expect_invalid(
            &SphereParams::parse(&params(&[(SPHERE_RINGS_KEY, wrong)])),
            SPHERE_RINGS_KEY,
            EXPECTED_RINGS,
        );
    }
    for wrong in [
        ParamValue::Integer(1),
        ParamValue::Text("0.5".to_owned()),
        ParamValue::Flag(false),
    ] {
        expect_invalid(
            &SphereParams::parse(&params(&[(SPHERE_RADIUS_KEY, wrong.clone())])),
            SPHERE_RADIUS_KEY,
            EXPECTED_RADIUS,
        );
    }
    for wrong in [
        ParamValue::Float(0.5_f64.to_bits()),
        ParamValue::Integer(1),
        ParamValue::Text("origin".to_owned()),
        ParamValue::Flag(false),
    ] {
        expect_invalid(
            &SphereParams::parse(&params(&[(SPHERE_CENTER_KEY, wrong)])),
            SPHERE_CENTER_KEY,
            EXPECTED_CENTER,
        );
    }
}

#[test]
fn sphere_unknown_keys_are_ignored_for_forward_tolerance() {
    let parsed = SphereParams::parse(&params(&[
        ("segments", ParamValue::Integer(8)),
        ("smooth_shading", ParamValue::Flag(true)),
    ]))
    .unwrap();
    assert_eq!(parsed.segments(), 8);
    assert_eq!(parsed.rings(), DEFAULT_SPHERE_RINGS);
}

#[test]
fn resolution_bounds_reject_outsiders() {
    for segments in [0, 1, 2, 129, 1_000_000, -3, i64::MIN, i64::MAX] {
        expect_invalid(
            &SphereParams::parse(&params(&[(
                SPHERE_SEGMENTS_KEY,
                ParamValue::Integer(segments),
            )])),
            SPHERE_SEGMENTS_KEY,
            EXPECTED_SEGMENTS,
        );
    }
    for rings in [0, 1, 65, 1_000_000, -2, i64::MIN, i64::MAX] {
        expect_invalid(
            &SphereParams::parse(&params(&[(SPHERE_RINGS_KEY, ParamValue::Integer(rings))])),
            SPHERE_RINGS_KEY,
            EXPECTED_RINGS,
        );
    }
    for (segments, rings) in [(3, 2), (128, 64), (3, 64), (128, 2)] {
        let parsed = SphereParams::parse(&params(&[
            ("segments", ParamValue::Integer(segments)),
            ("rings", ParamValue::Integer(rings)),
        ]))
        .unwrap();
        assert_eq!(parsed.segments(), u32::try_from(segments).unwrap());
        assert_eq!(parsed.rings(), u32::try_from(rings).unwrap());
    }
}

#[test]
fn non_positive_or_non_finite_radius_is_rejected() {
    for radius in [0.0, -0.5, -1.0, f64::NAN, f64::INFINITY, f64::NEG_INFINITY] {
        expect_invalid(
            &SphereParams::parse(&params(&[(
                SPHERE_RADIUS_KEY,
                ParamValue::Float(f64::to_bits(radius)),
            )])),
            SPHERE_RADIUS_KEY,
            EXPECTED_RADIUS,
        );
    }
    let parsed = SphereParams::parse(&params(&[(
        SPHERE_RADIUS_KEY,
        ParamValue::Float(f64::MIN_POSITIVE.to_bits()),
    )]))
    .unwrap();
    assert_eq!(parsed.radius(), f64::MIN_POSITIVE.to_bits());
}

#[test]
fn triangle_count_matches_two_fans_plus_quad_bands() {
    for (segments, rings, expected) in [
        (3, 2, 6),
        (4, 3, 16),
        (8, 8, 112),
        (32, 16, 960),
        (128, 64, 16_128),
    ] {
        let params =
            SphereParams::new(segments, rings, 0.5_f64.to_bits(), DEFAULT_SPHERE_CENTER).unwrap();
        assert_eq!(
            params.triangle_count(),
            expected,
            "segments={segments} rings={rings}"
        );
    }
}

#[test]
fn constructor_rejects_exactly_what_parse_rejects() {
    expect_invalid(
        &SphereParams::new(2, 16, 0.5_f64.to_bits(), DEFAULT_SPHERE_CENTER),
        SPHERE_SEGMENTS_KEY,
        EXPECTED_SEGMENTS,
    );
    expect_invalid(
        &SphereParams::new(32, 1, 0.5_f64.to_bits(), DEFAULT_SPHERE_CENTER),
        SPHERE_RINGS_KEY,
        EXPECTED_RINGS,
    );
    expect_invalid(
        &SphereParams::new(32, 16, 0.0_f64.to_bits(), DEFAULT_SPHERE_CENTER),
        SPHERE_RADIUS_KEY,
        EXPECTED_RADIUS,
    );
}

#[test]
fn radius_gate_matches_f64_positive_finite_on_every_edge() {
    for radius in [
        5e-324,
        f64::MIN_POSITIVE,
        1.0,
        f64::MAX,
        -0.0,
        -5e-324,
        f64::MIN,
        f64::from_bits(0x7FF8_0000_0000_0001),
    ] {
        let accepted = SphereParams::new(8, 4, radius.to_bits(), DEFAULT_SPHERE_CENTER).is_ok();
        assert_eq!(accepted, radius.is_finite() && radius > 0.0, "radius {radius:e}");
    }
}

#[test]
fn resolution_check_converts_exactly() {
    assert_eq!(check_resolution("segments", 3, 3, 128, EXPECTED_SEGMENTS), Ok(3));
    assert_eq!(check_resolution("segments", 128, 3, 128, EXPECTED_SEGMENTS), Ok(128));
    for raw in [2, 129, -1, i64::from(u32::MAX) + 3, i64::MIN] {
        assert_eq!(
            check_resolution("segments", raw, 3, 128, EXPECTED_SEGMENTS),
            Err(CookError::InvalidParameter {
                key: "segments".to_owned(),
                expected: EXPECTED_SEGMENTS,
            })
        );
    }
}

#[test]
fn shape_errors_win_over_domain_errors_in_key_order() {
    expect_invalid(
        &SphereParams::parse(&params(&[
            ("segments", ParamValue::Integer(1)),
            ("center", ParamValue::Flag(true)),
        ])),
        SPHERE_CENTER_KEY,
        EXPECTED_CENTER,
    );
    expect_invalid(
        &SphereParams::parse(&params(&[
            ("rings", ParamValue::Integer(1)),
            ("segments", ParamValue::Integer(1)),
        ])),
        SPHERE_SEGMENTS_KEY,
        EXPECTED_SEGMENTS,
    );
}

#[test]
fn cook_error_messages_name_what_failed() {
    assert_eq!(
        CookError::UnknownOperator(veronica::domain::NodeId(5)).message(),
        "unknown operator: NodeId(5)"
    );
    assert_eq!(
        CookError::InvalidParameter {
            key: "segments".to_owned(),
            expected: EXPECTED_SEGMENTS,
        }
        .message(),
        "parameter \"segments\" must be an integer segment count from 3 to 128"
    );
}
