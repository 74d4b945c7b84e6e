//! Procedural geometry cooking: parameters in, implicit payloads out.
//!
//! [`cook`] walks the graph in dependency-first order and emits
//! [`ImplicitGeometry`]: parameters, not vertices. Containers organize and
//! produce nothing; cubes and spheres parse their typed parameters, with
//! absent keys falling back to documented defaults and present-but-wrong
//! values failing loudly with the key and the expected shape.
//!
//! Floating-point values are `f64` bit patterns; parsing carries them
//! verbatim (cube values are never checked; the sphere radius must be a
//! positive finite number, a condition on its bits).

use vstd::prelude::*;

use crate::domain::NodeId;
use crate::node_graph::{is_topological, raw_ids};
use crate::operator_graph::OperatorGraph;
use crate::params::{OperatorKind, OperatorView, ParamMap, ParamValue, ParamValueView};
use crate::text::{decimal, push_decimal};

verus! {

/// Parameter key for the cube's per-axis size.
pub const CUBE_SIZE_KEY: &'static str = "size";

/// Parameter key for the cube's center.
pub const CUBE_CENTER_KEY: &'static str = "center";

/// Bit pattern of `1.0_f64`.
pub const F64_ONE_BITS: u64 = 0x3FF0_0000_0000_0000;

/// Bit pattern of `0.5_f64`.
pub const F64_HALF_BITS: u64 = 0x3FE0_0000_0000_0000;

/// Bit pattern of `f64::INFINITY`: every positive finite `f64` lies
/// strictly between `0` and this pattern.
pub const F64_INFINITY_BITS: u64 = 0x7FF0_0000_0000_0000;

/// Default cube size: a 1 m box on every axis.
pub const DEFAULT_CUBE_SIZE: [u64; 3] = [F64_ONE_BITS, F64_ONE_BITS, F64_ONE_BITS];

/// Default cube center: the origin.
pub const DEFAULT_CUBE_CENTER: [u64; 3] = [0, 0, 0];

/// Expected shape named for vec3 parameters.
const EXPECTED_VEC3: &'static str = "a vec3 of three f64 numbers";

/// Parameter key for the sphere's width resolution.
pub const SPHERE_SEGMENTS_KEY: &'static str = "segments";

/// Parameter key for the sphere's height resolution.
pub const SPHERE_RINGS_KEY: &'static str = "rings";

/// Parameter key for the sphere's radius in meters.
pub const SPHERE_RADIUS_KEY: &'static str = "radius";

/// Parameter key for the sphere's center in meters.
pub const SPHERE_CENTER_KEY: &'static str = "center";

/// Default width resolution: 32 segments.
pub const DEFAULT_SPHERE_SEGMENTS: u32 = 32;

/// Default height resolution: 16 rings.
pub const DEFAULT_SPHERE_RINGS: u32 = 16;

/// Default radius: 0.5 m (`f64` bits).
pub const DEFAULT_SPHERE_RADIUS: u64 = F64_HALF_BITS;

/// Default sphere center: the origin.
pub const DEFAULT_SPHERE_CENTER: [u64; 3] = [0, 0, 0];

/// Fewest width segments that still close a solid.
pub const MIN_SPHERE_SEGMENTS: u32 = 3;

/// Most width segments the tick loop will cook.
pub const MAX_SPHERE_SEGMENTS: u32 = 128;

/// Fewest height rings that still close a solid.
pub const MIN_SPHERE_RINGS: u32 = 2;

/// Most height rings the tick loop will cook.
pub const MAX_SPHERE_RINGS: u32 = 64;

/// Expected shape named for `segments`.
const EXPECTED_SEGMENTS: &'static str = "an integer segment count from 3 to 128";

/// Expected shape named for `rings`.
const EXPECTED_RINGS: &'static str = "an integer ring count from 2 to 64";

/// Expected shape named for `radius`.
const EXPECTED_RADIUS: &'static str = "a positive finite f64 radius";

/// Errors for [`cook`] and parameter parsing.
#[derive(Debug, PartialEq, Eq)]
pub enum CookError {
    /// The graph contains a dependency cycle, so no evaluation order exists.
    Cycle,
    /// Evaluation order named an operator the graph does not hold.
    UnknownOperator(NodeId),
    /// A present parameter had the wrong variant or an out-of-domain value.
    InvalidParameter {
        /// The offending parameter key.
        key: String,
        /// Human-readable expected shape or domain.
        expected: &'static str,
    },
}

/// Abstract value of a [`CookError`].
pub enum CookErrorView {
    /// A dependency cycle.
    Cycle,
    /// An operator missing from the graph.
    UnknownOperator(u64),
    /// A bad parameter: its key and the expected shape.
    InvalidParameter { key: Seq<char>, expected: Seq<char> },
}

impl CookError {
    /// Abstract value.
    pub open spec fn view(&self) -> CookErrorView {
        match self {
            CookError::Cycle => CookErrorView::Cycle,
            CookError::UnknownOperator(id) => CookErrorView::UnknownOperator(id.0),
            CookError::InvalidParameter { key, expected } => CookErrorView::InvalidParameter {
                key: key@,
                expected: expected@,
            },
        }
    }

    /// Human-readable message: the key and expected shape for a bad
    /// parameter.
    pub fn message(&self) -> (text: String)
        ensures
            text@ == cook_error_text(self.view()),
    {
        match self {
            CookError::Cycle => String::from_str("cannot cook a graph containing a dependency cycle"),
            CookError::UnknownOperator(id) => {
                let mut text = String::from_str("unknown operator: NodeId(");
                push_decimal(&mut text, id.0);
                text.append(")");
                text
            },
            CookError::InvalidParameter { key, expected } => {
                let mut text = String::from_str("parameter \"");
                text.append(key.as_str());
                text.append("\" must be ");
                text.append(expected);
                text
            },
        }
    }
}

/// The message of a cook error.
pub open spec fn cook_error_text(e: CookErrorView) -> Seq<char> {
    match e {
        CookErrorView::Cycle => "cannot cook a graph containing a dependency cycle"@,
        CookErrorView::UnknownOperator(id) => "unknown operator: NodeId("@ + decimal(id as nat) + ")"@,
        CookErrorView::InvalidParameter { key, expected } => "parameter \""@ + key + "\" must be "@
            + expected,
    }
}

/// A result with its error taken by value.
pub open spec fn cook_outcome<T>(result: Result<T, CookError>) -> Result<T, CookErrorView> {
    match result {
        Ok(v) => Ok(v),
        Err(e) => Err(e.view()),
    }
}

/// The error for a bad parameter under `key`.
pub open spec fn invalid(key: Seq<char>, expected: Seq<char>) -> CookErrorView {
    CookErrorView::InvalidParameter { key, expected }
}

/// An optional vec3 parameter: the default when absent, the triple when
/// it is one, `None` when it is another variant.
pub open spec fn vec3_or(
    parameters: Map<Seq<char>, ParamValueView>,
    key: Seq<char>,
    default: [u64; 3],
) -> Option<[u64; 3]> {
    if !parameters.contains_key(key) {
        Some(default)
    } else {
        match parameters[key] {
            ParamValueView::Vec3(triple) => Some(triple),
            _ => None,
        }
    }
}

/// An optional integer parameter, like [`vec3_or`].
pub open spec fn integer_or(parameters: Map<Seq<char>, ParamValueView>, key: Seq<char>, default: i64) -> Option<
    i64,
> {
    if !parameters.contains_key(key) {
        Some(default)
    } else {
        match parameters[key] {
            ParamValueView::Integer(value) => Some(value),
            _ => None,
        }
    }
}

/// An optional float parameter (bits), like [`vec3_or`].
pub open spec fn float_or(parameters: Map<Seq<char>, ParamValueView>, key: Seq<char>, default: u64) -> Option<
    u64,
> {
    if !parameters.contains_key(key) {
        Some(default)
    } else {
        match parameters[key] {
            ParamValueView::Float(bits) => Some(bits),
            _ => None,
        }
    }
}

/// Read one optional vec3, defaulting when absent and failing naming the
/// key and `expected` when present but mistyped.
fn take_vec3(parameters: &ParamMap, key: &str, default: [u64; 3], expected: &'static str) -> (result:
    Result<[u64; 3], CookError>)
    requires
        parameters.wf(),
    ensures
        cook_outcome(result) == match vec3_or(parameters.view(), key@, default) {
            Some(triple) => Ok(triple),
            None => Err(invalid(key@, expected@)),
        },
{
    match parameters.get(key) {
        None => Ok(default),
        Some(ParamValue::Vec3(triple)) => Ok(*triple),
        Some(_) => Err(CookError::InvalidParameter { key: String::from_str(key), expected }),
    }
}

/// Read one optional integer, like [`take_vec3`]; range is the caller's
/// business.
fn take_integer(parameters: &ParamMap, key: &str, default: u32, expected: &'static str) -> (result:
    Result<i64, CookError>)
    requires
        parameters.wf(),
    ensures
        cook_outcome(result) == match integer_or(parameters.view(), key@, default as i64) {
            Some(value) => Ok(value),
            None => Err(invalid(key@, expected@)),
        },
{
    match parameters.get(key) {
        None => Ok(default as i64),
        Some(ParamValue::Integer(value)) => Ok(*value),
        Some(_) => Err(CookError::InvalidParameter { key: String::from_str(key), expected }),
    }
}

/// Read one optional float (bits), like [`take_vec3`].
fn take_float(parameters: &ParamMap, key: &str, default: u64, expected: &'static str) -> (result:
    Result<u64, CookError>)
    requires
        parameters.wf(),
    ensures
        cook_outcome(result) == match float_or(parameters.view(), key@, default) {
            Some(bits) => Ok(bits),
            None => Err(invalid(key@, expected@)),
        },
{
    match parameters.get(key) {
        None => Ok(default),
        Some(ParamValue::Float(bits)) => Ok(*bits),
        Some(_) => Err(CookError::InvalidParameter { key: String::from_str(key), expected }),
    }
}

/// Cooked view of a cube operator's parameters (`f64` bit patterns).
#[derive(Debug, Clone, Copy, PartialEq, Eq)]
pub struct CubeParams {
    /// Full extents per axis in meters (not half-extents).
    pub size: [u64; 3],
    /// Box center in meters.
    pub center: [u64; 3],
}

/// What parsing a cube's parameters gives: size then center, each
/// defaulted when absent.
pub open spec fn cube_parse_spec(parameters: Map<Seq<char>, ParamValueView>) -> Result<
    CubeParams,
    CookErrorView,
> {
    match vec3_or(parameters, CUBE_SIZE_KEY@, DEFAULT_CUBE_SIZE) {
        None => Err(invalid(CUBE_SIZE_KEY@, "a vec3 of three f64 numbers"@)),
        Some(size) => match vec3_or(parameters, CUBE_CENTER_KEY@, DEFAULT_CUBE_CENTER) {
            None => Err(invalid(CUBE_CENTER_KEY@, "a vec3 of three f64 numbers"@)),
            Some(center) => Ok(CubeParams { size, center }),
        },
    }
}

impl CubeParams {
    /// Build parameters from explicit size and center.
    pub fn new(size: [u64; 3], center: [u64; 3]) -> (params: Self)
        ensures
            params == (CubeParams { size, center }),
    {
        CubeParams { size, center }
    }

    /// Parse parameters from an operator's typed map. Absent keys fall
    /// back to [`DEFAULT_CUBE_SIZE`] and [`DEFAULT_CUBE_CENTER`]; unknown
    /// keys are ignored; values travel verbatim.
    ///
    /// Fails with [`CookError::InvalidParameter`] naming the key and the
    /// expected shape when `size` or `center` is present but not a vec3.
    pub fn parse(parameters: &ParamMap) -> (result: Result<Self, CookError>)
        requires
            parameters.wf(),
        ensures
            cook_outcome(result) == cube_parse_spec(parameters.view()),
    {
        let size = take_vec3(parameters, CUBE_SIZE_KEY, DEFAULT_CUBE_SIZE, EXPECTED_VEC3);
        let size = match size {
            Ok(triple) => triple,
            Err(e) => {
                return Err(e);
            },
        };
        let center = take_vec3(parameters, CUBE_CENTER_KEY, DEFAULT_CUBE_CENTER, EXPECTED_VEC3);
        match center {
            Ok(triple) => Ok(CubeParams { size, center: triple }),
            Err(e) => Err(e),
        }
    }
}

impl Default for CubeParams {
    /// The documented defaults: 1 m box at the origin.
    fn default() -> (params: Self)
        ensures
            params == (CubeParams { size: DEFAULT_CUBE_SIZE, center: DEFAULT_CUBE_CENTER }),
    {
        CubeParams { size: DEFAULT_CUBE_SIZE, center: DEFAULT_CUBE_CENTER }
    }
}


/// Whether `bits` is a positive finite `f64`: sign clear, not zero, and
/// below the infinity pattern (so neither infinite nor NaN).
pub open spec fn positive_finite(bits: u64) -> bool {
    0 < bits < F64_INFINITY_BITS
}

/// Abstract value of [`SphereParams`].
pub struct SphereParamsView {
    /// Width resolution.
    pub segments: u32,
    /// Height resolution.
    pub rings: u32,
    /// Radius (`f64` bits).
    pub radius: u64,
    /// Center (`f64` bits).
    pub center: [u64; 3],
}

/// What [`SphereParams::new`] gives: segments checked first, then rings,
/// then the radius; the center travels verbatim.
pub open spec fn sphere_new_spec(segments: i64, rings: i64, radius: u64, center: [u64; 3]) -> Result<
    SphereParamsView,
    CookErrorView,
> {
    if !(MIN_SPHERE_SEGMENTS <= segments <= MAX_SPHERE_SEGMENTS) {
        Err(invalid(SPHERE_SEGMENTS_KEY@, "an integer segment count from 3 to 128"@))
    } else if !(MIN_SPHERE_RINGS <= rings <= MAX_SPHERE_RINGS) {
        Err(invalid(SPHERE_RINGS_KEY@, "an integer ring count from 2 to 64"@))
    } else if !positive_finite(radius) {
        Err(invalid(SPHERE_RADIUS_KEY@, "a positive finite f64 radius"@))
    } else {
        Ok(SphereParamsView { segments: segments as u32, rings: rings as u32, radius, center })
    }
}

/// What parsing a sphere's parameters gives: every present value must
/// have its shape (segments, rings, radius, center, in that order), then
/// the values must pass [`sphere_new_spec`].
pub open spec fn sphere_parse_spec(parameters: Map<Seq<char>, ParamValueView>) -> Result<
    SphereParamsView,
    CookErrorView,
> {
    match integer_or(parameters, SPHERE_SEGMENTS_KEY@, DEFAULT_SPHERE_SEGMENTS as i64) {
        None => Err(invalid(SPHERE_SEGMENTS_KEY@, "an integer segment count from 3 to 128"@)),
        Some(segments) => match integer_or(parameters, SPHERE_RINGS_KEY@, DEFAULT_SPHERE_RINGS as i64) {
            None => Err(invalid(SPHERE_RINGS_KEY@, "an integer ring count from 2 to 64"@)),
            Some(rings) => match float_or(parameters, SPHERE_RADIUS_KEY@, DEFAULT_SPHERE_RADIUS) {
                None => Err(invalid(SPHERE_RADIUS_KEY@, "a positive finite f64 radius"@)),
                Some(radius) => match vec3_or(parameters, SPHERE_CENTER_KEY@, DEFAULT_SPHERE_CENTER) {
                    None => Err(invalid(SPHERE_CENTER_KEY@, "a vec3 of three f64 numbers"@)),
                    Some(center) => sphere_new_spec(segments, rings, radius, center),
                },
            },
        },
    }
}

/// A sphere parse or construction result with values by view.
pub open spec fn sphere_outcome(result: Result<SphereParams, CookError>) -> Result<
    SphereParamsView,
    CookErrorView,
> {
    match result {
        Ok(p) => Ok(p.view()),
        Err(e) => Err(e.view()),
    }
}

/// Cooked view of a sphere operator's parameters. Always valid: segments
/// in `3..=128`, rings in `2..=64`, radius positive finite.
#[derive(Debug, Clone, Copy, PartialEq)]
pub struct SphereParams {
    segments: u32,
    rings: u32,
    radius: u64,
    center: [u64; 3],
}

impl SphereParams {
    #[verifier::type_invariant]
    spec fn valid(self) -> bool {
        &&& MIN_SPHERE_SEGMENTS <= self.segments <= MAX_SPHERE_SEGMENTS
        &&& MIN_SPHERE_RINGS <= self.rings <= MAX_SPHERE_RINGS
        &&& positive_finite(self.radius)
    }

    /// Abstract value.
    pub closed spec fn view(self) -> SphereParamsView {
        SphereParamsView {
            segments: self.segments,
            rings: self.rings,
            radius: self.radius,
            center: self.center,
        }
    }

    /// Build validated parameters from wire-shaped values.
    ///
    /// Fails with [`CookError::InvalidParameter`] naming the key and the
    /// expected domain when a resolution is out of range or the radius is
    /// not a positive finite number.
    pub fn new(segments: i64, rings: i64, radius: u64, center: [u64; 3]) -> (result: Result<
        Self,
        CookError,
    >)
        ensures
            sphere_outcome(result) == sphere_new_spec(segments, rings, radius, center),
            result matches Ok(p) ==> p.view().segments == segments && p.view().rings == rings
                && p.view().radius == radius && p.view().center == center,
    {
        let segments = match check_resolution(
            SPHERE_SEGMENTS_KEY,
            segments,
            MIN_SPHERE_SEGMENTS,
            MAX_SPHERE_SEGMENTS,
            EXPECTED_SEGMENTS,
        ) {
            Ok(value) => value,
            Err(e) => {
                return Err(e);
            },
        };
        let rings = match check_resolution(
            SPHERE_RINGS_KEY,
            rings,
            MIN_SPHERE_RINGS,
            MAX_SPHERE_RINGS,
            EXPECTED_RINGS,
        ) {
            Ok(value) => value,
            Err(e) => {
                return Err(e);
            },
        };
        let radius = match check_radius(radius) {
            Ok(bits) => bits,
            Err(e) => {
                return Err(e);
            },
        };
        Ok(SphereParams { segments, rings, radius, center })
    }

    /// Parse parameters from an operator's typed map. Absent keys fall
    /// back to the documented defaults; unknown keys are ignored;
    /// mistyped values name the expected shape, out-of-domain values the
    /// expected range.
    pub fn parse(parameters: &ParamMap) -> (result: Result<Self, CookError>)
        requires
            parameters.wf(),
        ensures
            sphere_outcome(result) == sphere_parse_spec(parameters.view()),
    {
        let segments = match take_integer(
            parameters,
            SPHERE_SEGMENTS_KEY,
            DEFAULT_SPHERE_SEGMENTS,
            EXPECTED_SEGMENTS,
        ) {
            Ok(value) => value,
            Err(e) => {
                return Err(e);
            },
        };
        let rings = match take_integer(parameters, SPHERE_RINGS_KEY, DEFAULT_SPHERE_RINGS, EXPECTED_RINGS) {
            Ok(value) => value,
            Err(e) => {
                return Err(e);
            },
        };
        let radius = match take_float(parameters, SPHERE_RADIUS_KEY, DEFAULT_SPHERE_RADIUS, EXPECTED_RADIUS) {
            Ok(bits) => bits,
            Err(e) => {
                return Err(e);
            },
        };
        let center = match take_vec3(parameters, SPHERE_CENTER_KEY, DEFAULT_SPHERE_CENTER, EXPECTED_VEC3) {
            Ok(triple) => triple,
            Err(e) => {
                return Err(e);
            },
        };
        SphereParams::new(segments, rings, radius, center)
    }

    /// Width resolution: longitude steps around the equator.
    pub fn segments(&self) -> (segments: u32)
        ensures
            segments == self.view().segments,
            MIN_SPHERE_SEGMENTS <= segments <= MAX_SPHERE_SEGMENTS,
    {
        proof {
            use_type_invariant(self);
        }
        self.segments
    }

    /// Height resolution: latitude lines from pole to pole, inclusive.
    pub fn rings(&self) -> (rings: u32)
        ensures
            rings == self.view().rings,
            MIN_SPHERE_RINGS <= rings <= MAX_SPHERE_RINGS,
    {
        proof {
            use_type_invariant(self);
        }
        self.rings
    }

    /// Sphere radius in meters (`f64` bits); always positive finite.
    pub fn radius(&self) -> (radius: u64)
        ensures
            radius == self.view().radius,
            positive_finite(radius),
    {
        proof {
            use_type_invariant(self);
        }
        self.radius
    }

    /// Sphere center in meters (`f64` bits), carried verbatim.
    pub fn center(&self) -> (center: [u64; 3])
        ensures
            center == self.view().center,
    {
        self.center
    }

    /// Triangle budget: two pole fans of `segments` plus `rings - 2` quad
    /// bands of `2 * segments`, i.e. `2 * segments * (rings - 1)`.
    pub fn triangle_count(&self) -> (count: u32)
        ensures
            count == 2 * self.view().segments * (self.view().rings - 1),
    {
        proof {
            use_type_invariant(self);
            assert(2 * self.segments * (self.rings - 1) <= 2 * 128 * 63) by (nonlinear_arith)
                requires
                    self.segments <= 128,
                    1 <= self.rings <= 64,
            ;
        }
        2 * self.segments * (self.rings - 1)
    }
}

impl Default for SphereParams {
    /// The documented defaults: 32 by 16 resolution, 0.5 m radius, origin.
    fn default() -> (params: Self)
        ensures
            params.view() == (SphereParamsView {
                segments: DEFAULT_SPHERE_SEGMENTS,
                rings: DEFAULT_SPHERE_RINGS,
                radius: DEFAULT_SPHERE_RADIUS,
                center: DEFAULT_SPHERE_CENTER,
            }),
    {
        SphereParams {
            segments: DEFAULT_SPHERE_SEGMENTS,
            rings: DEFAULT_SPHERE_RINGS,
            radius: DEFAULT_SPHERE_RADIUS,
            center: DEFAULT_SPHERE_CENTER,
        }
    }
}

/// Check one resolution against its closed range `min..=max`. The `i64`
/// converts exactly: negatives and huge values fail rather than wrap.
pub fn check_resolution(key: &str, raw: i64, min: u32, max: u32, expected: &'static str) -> (result:
    Result<u32, CookError>)
    ensures
        cook_outcome(result) == if min <= raw <= max {
            Ok::<u32, CookErrorView>(raw as u32)
        } else {
            Err(invalid(key@, expected@))
        },
{
    if raw >= min as i64 && raw <= max as i64 {
        Ok(raw as u32)
    } else {
        Err(CookError::InvalidParameter { key: String::from_str(key), expected })
    }
}

/// Check the radius: positive finite, since realization divides by it.
fn check_radius(radius: u64) -> (result: Result<u64, CookError>)
    ensures
        cook_outcome(result) == if positive_finite(radius) {
            Ok::<u64, CookErrorView>(radius)
        } else {
            Err(invalid(SPHERE_RADIUS_KEY@, "a positive finite f64 radius"@))
        },
{
    if radius > 0 && radius < F64_INFINITY_BITS {
        Ok(radius)
    } else {
        Err(CookError::InvalidParameter { key: String::from_str(SPHERE_RADIUS_KEY), expected: EXPECTED_RADIUS })
    }
}


/// Lightweight, unevaluated geometry: the operator's parameters, verbatim.
#[derive(Debug, Clone, Copy, PartialEq)]
pub enum ImplicitGeometry {
    /// A cube described by size and center.
    Cube(CubeParams),
    /// A sphere described by resolution, radius, and center.
    Sphere(SphereParams),
}

/// Abstract value of an [`ImplicitGeometry`].
pub enum ImplicitView {
    /// A cube.
    Cube(CubeParams),
    /// A sphere, by its view.
    Sphere(SphereParamsView),
}

impl ImplicitGeometry {
    /// Abstract value.
    pub open spec fn view(&self) -> ImplicitView {
        match self {
            ImplicitGeometry::Cube(params) => ImplicitView::Cube(*params),
            ImplicitGeometry::Sphere(params) => ImplicitView::Sphere(params.view()),
        }
    }
}

/// The cook output travelling on graph edges. Realized vertex soups are
/// floating-point data and are produced outside this library, on demand.
#[derive(Debug, Clone, PartialEq)]
pub enum GeometryPayload {
    /// Parameters only; no vertices allocated.
    Implicit(ImplicitGeometry),
}

impl GeometryPayload {
    /// Abstract value.
    pub open spec fn view(&self) -> ImplicitView {
        match self {
            GeometryPayload::Implicit(geometry) => geometry.view(),
        }
    }
}

/// What cooking one operator gives: nothing for a container, the parsed
/// parameters for a cube or a sphere.
pub open spec fn cook_operator_spec(op: OperatorView) -> Result<Option<ImplicitView>, CookErrorView> {
    match op.kind {
        OperatorKind::Container => Ok(None),
        OperatorKind::Cube => match cube_parse_spec(op.parameters) {
            Ok(params) => Ok(Some(ImplicitView::Cube(params))),
            Err(e) => Err(e),
        },
        OperatorKind::Sphere => match sphere_parse_spec(op.parameters) {
            Ok(params) => Ok(Some(ImplicitView::Sphere(params))),
            Err(e) => Err(e),
        },
    }
}

/// What cooking the first `n` ids of `order` gives: `(id, geometry)` for
/// every geometry operator in order, or the first error.
pub open spec fn cook_upto(ops: Map<u64, OperatorView>, order: Seq<u64>, n: nat) -> Result<
    Seq<(u64, ImplicitView)>,
    CookErrorView,
>
    decreases n,
{
    if n == 0 {
        Ok(Seq::empty())
    } else {
        match cook_upto(ops, order, (n - 1) as nat) {
            Err(e) => Err(e),
            Ok(done) => {
                let id = order[n - 1];
                if !ops.contains_key(id) {
                    Err(CookErrorView::UnknownOperator(id))
                } else {
                    match cook_operator_spec(ops[id]) {
                        Err(e) => Err(e),
                        Ok(None) => Ok(done),
                        Ok(Some(geometry)) => Ok(done.push((id, geometry))),
                    }
                }
            },
        }
    }
}

/// Cook output by value: ids and geometry views.
pub open spec fn cooked_view(cooked: Seq<(NodeId, GeometryPayload)>) -> Seq<(u64, ImplicitView)> {
    cooked.map_values(|entry: (NodeId, GeometryPayload)| (entry.0.0, entry.1.view()))
}

/// A cook result by value.
pub open spec fn cook_result_view(result: Result<Vec<(NodeId, GeometryPayload)>, CookError>) -> Result<
    Seq<(u64, ImplicitView)>,
    CookErrorView,
> {
    match result {
        Ok(cooked) => Ok(cooked_view(cooked@)),
        Err(e) => Err(e.view()),
    }
}

proof fn lemma_cook_error_sticks(ops: Map<u64, OperatorView>, order: Seq<u64>, n: nat, m: nat)
    requires
        n <= m,
        cook_upto(ops, order, n) is Err,
    ensures
        cook_upto(ops, order, m) == cook_upto(ops, order, n),
    decreases m - n,
{
    if n < m {
        lemma_cook_error_sticks(ops, order, n, (m - 1) as nat);
    }
}

/// Cook the operators named by `order`, in that order: containers are
/// skipped, cubes and spheres become implicit geometry.
///
/// Fails with [`CookError::UnknownOperator`] for an id the graph does not
/// hold, or with the first operator's [`CookError::InvalidParameter`].
pub fn cook_in_order(graph: &OperatorGraph, order: &[NodeId]) -> (result: Result<
    Vec<(NodeId, GeometryPayload)>,
    CookError,
>)
    requires
        graph.wf(),
    ensures
        cook_result_view(result) == cook_upto(graph.view().operators, raw_ids(order@), order@.len()),
{
    let ghost ops = graph.view().operators;
    let ghost ids = raw_ids(order@);
    let mut cooked: Vec<(NodeId, GeometryPayload)> = Vec::new();
    let mut i: usize = 0;
    assert(cooked_view(cooked@) =~= Seq::<(u64, ImplicitView)>::empty());
    while i < order.len()
        invariant
            graph.wf(),
            ops == graph.view().operators,
            ids == raw_ids(order@),
            i <= order@.len(),
            cook_upto(ops, ids, i as nat) == Ok::<Seq<(u64, ImplicitView)>, CookErrorView>(cooked_view(cooked@)),
        decreases order@.len() - i,
    {
        let id = order[i];
        assert(ids[i as int] == id.0);
        let operator = match graph.operator(id) {
            Some(op) => op,
            None => {
                proof {
                    lemma_cook_error_sticks(ops, ids, (i + 1) as nat, order@.len());
                }
                return Err(CookError::UnknownOperator(id));
            },
        };
        let ghost before = cooked@;
        match operator.kind {
            OperatorKind::Container => {},
            OperatorKind::Cube => {
                match CubeParams::parse(&operator.parameters) {
                    Ok(params) => {
                        cooked.push((id, GeometryPayload::Implicit(ImplicitGeometry::Cube(params))));
                    },
                    Err(e) => {
                        proof {
                            lemma_cook_error_sticks(ops, ids, (i + 1) as nat, order@.len());
                        }
                        return Err(e);
                    },
                }
            },
            OperatorKind::Sphere => {
                match SphereParams::parse(&operator.parameters) {
                    Ok(params) => {
                        cooked.push((id, GeometryPayload::Implicit(ImplicitGeometry::Sphere(params))));
                    },
                    Err(e) => {
                        proof {
                            lemma_cook_error_sticks(ops, ids, (i + 1) as nat, order@.len());
                        }
                        return Err(e);
                    },
                }
            },
        }
        proof {
            assert(cooked_view(cooked@) =~= match cook_operator_spec(ops[id.0]) {
                Ok(Some(geometry)) => cooked_view(before).push((id.0, geometry)),
                _ => cooked_view(before),
            });
        }
        i = i + 1;
    }
    Ok(cooked)
}

/// Cook every geometry operator in dependency-first evaluation order,
/// returning `(operator, payload)` pairs in the order they were cooked.
///
/// Fails with [`CookError::Cycle`] exactly when the graph has a dependency
/// cycle; otherwise gives what [`cook_in_order`] gives for the store's
/// evaluation order, which lists every operator once with each dependency
/// before its dependents.
pub fn cook(graph: &OperatorGraph) -> (result: Result<Vec<(NodeId, GeometryPayload)>, CookError>)
    requires
        graph.wf(),
    ensures
        (result matches Err(e) && e == CookError::Cycle) <==> crate::node_graph::has_cycle(
            graph.view().edges,
        ),
        !crate::node_graph::has_cycle(graph.view().edges) ==> exists|order: Seq<u64>|
            #[trigger] is_topological(graph.view().operators.dom(), graph.view().edges, order)
                && cook_result_view(result) == cook_upto(graph.view().operators, order, order.len()),
{
    let order = match graph.topology().evaluation_order() {
        Ok(order) => order,
        Err(_) => {
            return Err(CookError::Cycle);
        },
    };
    let result = cook_in_order(graph, order.as_slice());
    proof {
        let ids = raw_ids(order@);
        assert(is_topological(graph.view().operators.dom(), graph.view().edges, ids));
        lemma_cook_never_cycles(graph.view().operators, ids, order@.len());
    }
    result
}

proof fn lemma_cook_never_cycles(ops: Map<u64, OperatorView>, order: Seq<u64>, n: nat)
    ensures
        cook_upto(ops, order, n) != Err::<Seq<(u64, ImplicitView)>, CookErrorView>(CookErrorView::Cycle),
    decreases n,
{
    if n > 0 {
        lemma_cook_never_cycles(ops, order, (n - 1) as nat);
    }
}

/// Validation never alters a value: accepted sphere parameters carry the
/// given resolutions, radius bits and center bits verbatim, component for
/// component.
pub proof fn lemma_sphere_values_verbatim(segments: i64, rings: i64, radius: u64, center: [u64; 3])
    ensures
        sphere_new_spec(segments, rings, radius, center) matches Ok(v) ==> {
            &&& v.segments == segments
            &&& v.rings == rings
            &&& v.radius == radius
            &&& v.center[0] == center[0]
            &&& v.center[1] == center[1]
            &&& v.center[2] == center[2]
        },
{
}

} // verus!
