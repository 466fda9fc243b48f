//! Scan-conversion helpers: inside test, barycentric weights, bounding box and
//! attribute interpolation.
//!
//! Edge functions are evaluated exactly in `i128`, so the barycentric weights are exact
//! rationals `w0 / total`, `w1 / total`, `w2 / total`.
use vstd::prelude::*;
use crate::math::{floor_div, saturate, sat, ONE};
use crate::vector::{Vec2, Vec3};
use crate::vertex::RasterPoint;

verus! {

/// Bound on the magnitude of an edge function of `i32` points.
pub const WEIGHT_BOUND: i128 = 0x4_0000_0000_0000_0000;

/// Unnormalised barycentric weights: vertex `i` has weight `wi / total`.
#[derive(Clone, Copy, Debug, PartialEq, Eq, Structural)]
pub struct Barycentric {
    pub w0: i128,
    pub w1: i128,
    pub w2: i128,
    pub total: i128,
}

impl Barycentric {
    pub open spec fn wf(&self) -> bool {
        &&& self.total > 0
        &&& self.w0 + self.w1 + self.w2 == self.total
        &&& -WEIGHT_BOUND <= self.w0 <= WEIGHT_BOUND
        &&& -WEIGHT_BOUND <= self.w1 <= WEIGHT_BOUND
        &&& -WEIGHT_BOUND <= self.w2 <= WEIGHT_BOUND
    }
}

/// Twice the signed area of `(a, b, p)`: the cross product of `b - a` and `p - a`.
pub open spec fn edge(a: Vec2, b: Vec2, p: Vec2) -> int {
    (b.x - a.x) * (p.y - a.y) - (b.y - a.y) * (p.x - a.x)
}

pub open spec fn signed_area(v: [Vec2; 3]) -> int {
    edge(v[0], v[1], v[2])
}

/// `p` lies inside or on the border of the triangle, for either winding.
pub open spec fn inside(v: [Vec2; 3], p: Vec2) -> bool {
    let e0 = edge(v[0], v[1], p);
    let e1 = edge(v[1], v[2], p);
    let e2 = edge(v[2], v[0], p);
    (e0 >= 0 && e1 >= 0 && e2 >= 0) || (e0 <= 0 && e1 <= 0 && e2 <= 0)
}

/// The weights of `p`, signed so that their total is positive; `None` for a triangle of
/// zero area.
pub open spec fn barycentric(v: [Vec2; 3], p: Vec2) -> Option<Barycentric> {
    let area = signed_area(v);
    let a0 = edge(v[1], v[2], p);
    let a1 = edge(v[2], v[0], p);
    let a2 = edge(v[0], v[1], p);
    if area == 0 {
        None
    } else if area > 0 {
        Some(Barycentric { w0: a0 as i128, w1: a1 as i128, w2: a2 as i128, total: area as i128 })
    } else {
        Some(
            Barycentric {
                w0: (-a0) as i128,
                w1: (-a1) as i128,
                w2: (-a2) as i128,
                total: (-area) as i128,
            },
        )
    }
}

/// Weighted mean `(w0 a0 + w1 a1 + w2 a2) / total`, rounded down and saturated.
pub open spec fn lerp3(b: Barycentric, a0: int, a1: int, a2: int) -> int {
    sat((b.w0 * a0 + b.w1 * a1 + b.w2 * a2) / (b.total as int))
}

pub open spec fn lerp_vec3(b: Barycentric, a0: Vec3, a1: Vec3, a2: Vec3) -> Vec3 {
    Vec3 {
        x: lerp3(b, a0.x as int, a1.x as int, a2.x as int) as i32,
        y: lerp3(b, a0.y as int, a1.y as int, a2.y as int) as i32,
        z: lerp3(b, a0.z as int, a1.z as int, a2.z as int) as i32,
    }
}

/// Scale of the fixed-point reciprocals `1/z` used for depth interpolation.
pub const RECIP_SCALE: i128 = 0x400_0000_0000_0000;

/// Depth of a point that has no depth in front of the camera; the depth test rejects it.
pub const NO_DEPTH: i32 = -1;

/// `1/z` on the scale `RECIP_SCALE`, rounded down.
pub open spec fn recip(z: int) -> int {
    (RECIP_SCALE as int) / z
}

/// Weighted sum of the vertex reciprocals `w0/z0 + w1/z1 + w2/z2` (scaled by `total` and
/// `RECIP_SCALE`).
pub open spec fn recip_sum(p: [RasterPoint; 3], b: Barycentric) -> int {
    b.w0 * recip(p[0].z as int) + b.w1 * recip(p[1].z as int) + b.w2 * recip(p[2].z as int)
}

/// Perspective-correct depth: `1/z` is interpolated linearly and inverted, that is
/// `total / (w0/z0 + w1/z1 + w2/z2)`, with the reciprocals on the scale `RECIP_SCALE` and
/// the quotient rounded down. A vertex at or in front of the eye (`z <= 0`), or a point
/// where the interpolated `1/z` is not positive, has no depth: `NO_DEPTH`.
pub open spec fn interp_depth(p: [RasterPoint; 3], b: Barycentric) -> int {
    if p[0].z > 0 && p[1].z > 0 && p[2].z > 0 && recip_sum(p, b) > 0 {
        sat((b.total * RECIP_SCALE) / recip_sum(p, b))
    } else {
        NO_DEPTH as int
    }
}

/// Pixel box `(min_x, min_y, max_x, max_y)`: floor of the minimum and ceiling of the
/// maximum of the vertex coordinates, in whole pixels.
pub open spec fn bounding_box(v: [Vec2; 3]) -> (int, int, int, int) {
    let o = ONE as int;
    (
        min3(v[0].x as int, v[1].x as int, v[2].x as int) / o,
        min3(v[0].y as int, v[1].y as int, v[2].y as int) / o,
        -((-max3(v[0].x as int, v[1].x as int, v[2].x as int)) / o),
        -((-max3(v[0].y as int, v[1].y as int, v[2].y as int)) / o),
    )
}

pub open spec fn min3(a: int, b: int, c: int) -> int {
    if a <= b && a <= c {
        a
    } else if b <= c {
        b
    } else {
        c
    }
}

pub open spec fn max3(a: int, b: int, c: int) -> int {
    if a >= b && a >= c {
        a
    } else if b >= c {
        b
    } else {
        c
    }
}

proof fn lemma_edge_bound(a: Vec2, b: Vec2, p: Vec2)
    ensures
        -WEIGHT_BOUND / 2 <= edge(a, b, p) <= WEIGHT_BOUND / 2,
{
    let dx = b.x - a.x;
    let dy = b.y - a.y;
    let qx = p.x - a.x;
    let qy = p.y - a.y;
    assert(-0x1_0000_0000_0000_0000 <= dx * qy <= 0x1_0000_0000_0000_0000) by (nonlinear_arith)
        requires
            -0x1_0000_0000 <= dx <= 0x1_0000_0000,
            -0x1_0000_0000 <= qy <= 0x1_0000_0000,
    ;
    assert(-0x1_0000_0000_0000_0000 <= dy * qx <= 0x1_0000_0000_0000_0000) by (nonlinear_arith)
        requires
            -0x1_0000_0000 <= dy <= 0x1_0000_0000,
            -0x1_0000_0000 <= qx <= 0x1_0000_0000,
    ;
}

proof fn lemma_edge_expand(a: Vec2, b: Vec2, p: Vec2)
    ensures
        edge(a, b, p) == b.x * p.y - b.x * a.y - a.x * p.y - p.x * b.y + a.x * b.y + p.x * a.y,
{
    let (ax, ay, bx, by, px, py) = (
        a.x as int,
        a.y as int,
        b.x as int,
        b.y as int,
        p.x as int,
        p.y as int,
    );
    assert((bx - ax) * (py - ay) == bx * py - bx * ay - ax * py + ax * ay) by (nonlinear_arith);
    assert((by - ay) * (px - ax) == px * by - ax * by - px * ay + ax * ay) by (nonlinear_arith);
    assert(by * px == px * by) by (nonlinear_arith);
}

/// The three edge functions of a point add up to the triangle's signed area.
pub proof fn lemma_edges_sum(v: [Vec2; 3], p: Vec2)
    ensures
        edge(v[1], v[2], p) + edge(v[2], v[0], p) + edge(v[0], v[1], p) == signed_area(v),
{
    lemma_edge_expand(v[1], v[2], p);
    lemma_edge_expand(v[2], v[0], p);
    lemma_edge_expand(v[0], v[1], p);
    lemma_edge_expand(v[0], v[1], v[2]);
}

fn edge_exec(a: &Vec2, b: &Vec2, p: &Vec2) -> (r: i128)
    ensures
        r == edge(*a, *b, *p),
        -WEIGHT_BOUND / 2 <= r <= WEIGHT_BOUND / 2,
{
    proof {
        lemma_edge_bound(*a, *b, *p);
    }
    let dx: i128 = b.x as i128 - a.x as i128;
    let dy: i128 = b.y as i128 - a.y as i128;
    let qx: i128 = p.x as i128 - a.x as i128;
    let qy: i128 = p.y as i128 - a.y as i128;
    proof {
        assert(-0x1_0000_0000_0000_0000 <= dx * qy <= 0x1_0000_0000_0000_0000) by (nonlinear_arith)
            requires
                -0x1_0000_0000 <= dx <= 0x1_0000_0000,
                -0x1_0000_0000 <= qy <= 0x1_0000_0000,
        ;
        assert(-0x1_0000_0000_0000_0000 <= dy * qx <= 0x1_0000_0000_0000_0000) by (nonlinear_arith)
            requires
                -0x1_0000_0000 <= dy <= 0x1_0000_0000,
                -0x1_0000_0000 <= qx <= 0x1_0000_0000,
        ;
    }
    dx * qy - dy * qx
}

/// Tells whether `p` lies inside the triangle or on its border; either winding is accepted.
pub fn is_inside_triangle(vertices: &[Vec2; 3], p: &Vec2) -> (r: bool)
    ensures
        r == inside(*vertices, *p),
{
    let e0 = edge_exec(&vertices[0], &vertices[1], p);
    let e1 = edge_exec(&vertices[1], &vertices[2], p);
    let e2 = edge_exec(&vertices[2], &vertices[0], p);
    (e0 >= 0 && e1 >= 0 && e2 >= 0) || (e0 <= 0 && e1 <= 0 && e2 <= 0)
}

/// Barycentric weights of `p`, or `None` when the triangle has zero area.
pub fn get_barycentric_coords(vertices: &[Vec2; 3], p: &Vec2) -> (r: Option<Barycentric>)
    ensures
        r == barycentric(*vertices, *p),
        r matches Some(b) ==> b.wf(),
{
    let area = edge_exec(&vertices[0], &vertices[1], &vertices[2]);
    let a0 = edge_exec(&vertices[1], &vertices[2], p);
    let a1 = edge_exec(&vertices[2], &vertices[0], p);
    let a2 = edge_exec(&vertices[0], &vertices[1], p);
    proof {
        lemma_edges_sum(*vertices, *p);
    }
    if area == 0 {
        None
    } else if area > 0 {
        Some(Barycentric { w0: a0, w1: a1, w2: a2, total: area })
    } else {
        Some(Barycentric { w0: -a0, w1: -a1, w2: -a2, total: -area })
    }
}

/// The barycentric weights of a point inside a triangle of nonzero area are each in
/// `[0, 1]` and add up to one; a point outside has a negative weight.
pub proof fn lemma_barycentric_correct(v: [Vec2; 3], p: Vec2)
    requires
        signed_area(v) != 0,
    ensures
        barycentric(v, p) matches Some(b) && b.w0 + b.w1 + b.w2 == b.total && b.total > 0 && (
        inside(v, p) ==> (0 <= b.w0 <= b.total && 0 <= b.w1 <= b.total && 0 <= b.w2
            <= b.total)) && (!inside(v, p) ==> (b.w0 < 0 || b.w1 < 0 || b.w2 < 0)),
{
    lemma_edges_sum(v, p);
    lemma_edge_bound(v[0], v[1], p);
    lemma_edge_bound(v[1], v[2], p);
    lemma_edge_bound(v[2], v[0], p);
    lemma_edge_bound(v[0], v[1], v[2]);
}

/// Pixel bounding box of the three points: floor of the minimum, ceiling of the maximum.
pub fn get_box(vertices: &[Vec2; 3]) -> (r: (i32, i32, i32, i32))
    ensures
        r.0 as int == bounding_box(*vertices).0,
        r.1 as int == bounding_box(*vertices).1,
        r.2 as int == bounding_box(*vertices).2,
        r.3 as int == bounding_box(*vertices).3,
{
    let mut min_x = vertices[0].x;
    let mut max_x = vertices[0].x;
    let mut min_y = vertices[0].y;
    let mut max_y = vertices[0].y;
    if vertices[1].x < min_x {
        min_x = vertices[1].x;
    }
    if vertices[2].x < min_x {
        min_x = vertices[2].x;
    }
    if vertices[1].x > max_x {
        max_x = vertices[1].x;
    }
    if vertices[2].x > max_x {
        max_x = vertices[2].x;
    }
    if vertices[1].y < min_y {
        min_y = vertices[1].y;
    }
    if vertices[2].y < min_y {
        min_y = vertices[2].y;
    }
    if vertices[1].y > max_y {
        max_y = vertices[1].y;
    }
    if vertices[2].y > max_y {
        max_y = vertices[2].y;
    }
    let o = ONE as i128;
    let x0 = floor_div(min_x as i128, o);
    let y0 = floor_div(min_y as i128, o);
    let x1 = floor_div(-(max_x as i128), o);
    let y1 = floor_div(-(max_y as i128), o);
    proof {
        vstd::arithmetic::div_mod::lemma_div_is_ordered(min_x as int, 0x7fff_ffff, o as int);
        vstd::arithmetic::div_mod::lemma_div_is_ordered(-0x8000_0000, min_x as int, o as int);
        vstd::arithmetic::div_mod::lemma_div_is_ordered(min_y as int, 0x7fff_ffff, o as int);
        vstd::arithmetic::div_mod::lemma_div_is_ordered(-0x8000_0000, min_y as int, o as int);
        vstd::arithmetic::div_mod::lemma_div_is_ordered(-(max_x as int), 0x8000_0000, o as int);
        vstd::arithmetic::div_mod::lemma_div_is_ordered(-0x7fff_ffff, -(max_x as int), o as int);
        vstd::arithmetic::div_mod::lemma_div_is_ordered(-(max_y as int), 0x8000_0000, o as int);
        vstd::arithmetic::div_mod::lemma_div_is_ordered(-0x7fff_ffff, -(max_y as int), o as int);
        assert(0x7fff_ffffint / 65536 == 32767);
        assert(0x8000_0000int / 65536 == 32768);
        assert(-0x8000_0000int / 65536 == -32768);
        assert(-0x7fff_ffffint / 65536 == -32768);
    }
    (x0 as i32, y0 as i32, (-x1) as i32, (-y1) as i32)
}

proof fn lemma_lerp_bounds(b: Barycentric, a0: int, a1: int, a2: int)
    requires
        b.wf(),
        i32::MIN <= a0 <= i32::MAX,
        i32::MIN <= a1 <= i32::MAX,
        i32::MIN <= a2 <= i32::MAX,
    ensures
        -0x4_0000_0000_0000_0000 * 0x8000_0000 <= b.w0 * a0 <= 0x4_0000_0000_0000_0000
            * 0x8000_0000,
        -0x4_0000_0000_0000_0000 * 0x8000_0000 <= b.w1 * a1 <= 0x4_0000_0000_0000_0000
            * 0x8000_0000,
        -0x4_0000_0000_0000_0000 * 0x8000_0000 <= b.w2 * a2 <= 0x4_0000_0000_0000_0000
            * 0x8000_0000,
{
    assert(-0x4_0000_0000_0000_0000 * 0x8000_0000 <= b.w0 * a0 <= 0x4_0000_0000_0000_0000
        * 0x8000_0000) by (nonlinear_arith)
        requires
            -0x4_0000_0000_0000_0000 <= b.w0 <= 0x4_0000_0000_0000_0000,
            -0x8000_0000 <= a0 <= 0x8000_0000,
    ;
    assert(-0x4_0000_0000_0000_0000 * 0x8000_0000 <= b.w1 * a1 <= 0x4_0000_0000_0000_0000
        * 0x8000_0000) by (nonlinear_arith)
        requires
            -0x4_0000_0000_0000_0000 <= b.w1 <= 0x4_0000_0000_0000_0000,
            -0x8000_0000 <= a1 <= 0x8000_0000,
    ;
    assert(-0x4_0000_0000_0000_0000 * 0x8000_0000 <= b.w2 * a2 <= 0x4_0000_0000_0000_0000
        * 0x8000_0000) by (nonlinear_arith)
        requires
            -0x4_0000_0000_0000_0000 <= b.w2 <= 0x4_0000_0000_0000_0000,
            -0x8000_0000 <= a2 <= 0x8000_0000,
    ;
}

/// Weighted mean of three fixed-point values.
pub fn lerp(b: &Barycentric, a0: i32, a1: i32, a2: i32) -> (r: i32)
    requires
        b.wf(),
    ensures
        r == lerp3(*b, a0 as int, a1 as int, a2 as int),
{
    proof {
        lemma_lerp_bounds(*b, a0 as int, a1 as int, a2 as int);
    }
    let s: i128 = b.w0 * a0 as i128 + b.w1 * a1 as i128 + b.w2 * a2 as i128;
    saturate(floor_div(s, b.total))
}

fn lerp_v3(b: &Barycentric, a0: &Vec3, a1: &Vec3, a2: &Vec3) -> (r: Vec3)
    requires
        b.wf(),
    ensures
        r == lerp_vec3(*b, *a0, *a1, *a2),
{
    Vec3 {
        x: lerp(b, a0.x, a1.x, a2.x),
        y: lerp(b, a0.y, a1.y, a2.y),
        z: lerp(b, a0.z, a1.z, a2.z),
    }
}

proof fn lemma_recip_term(w: int, z: int)
    requires
        -WEIGHT_BOUND <= w <= WEIGHT_BOUND,
        z > 0,
    ensures
        1 <= z ==> 0 <= recip(z) <= RECIP_SCALE,
        -WEIGHT_BOUND * RECIP_SCALE <= w * recip(z) <= WEIGHT_BOUND * RECIP_SCALE,
{
    vstd::arithmetic::div_mod::lemma_div_is_ordered_by_denominator(RECIP_SCALE as int, 1, z);
    vstd::arithmetic::div_mod::lemma_div_pos_is_pos(RECIP_SCALE as int, z);
    let r = recip(z);
    assert(-WEIGHT_BOUND * RECIP_SCALE <= w * r <= WEIGHT_BOUND * RECIP_SCALE) by (nonlinear_arith)
        requires
            -WEIGHT_BOUND <= w <= WEIGHT_BOUND,
            0 <= r <= RECIP_SCALE,
    ;
}

/// Depth at a point of the triangle, interpolated through `1/z`.
pub fn interpolate_depth(points: &[RasterPoint; 3], bary: &Barycentric) -> (r: i32)
    requires
        bary.wf(),
    ensures
        r == interp_depth(*points, *bary),
{
    let z0 = points[0].z;
    let z1 = points[1].z;
    let z2 = points[2].z;
    if z0 <= 0 || z1 <= 0 || z2 <= 0 {
        return NO_DEPTH;
    }
    let r0 = RECIP_SCALE / z0 as i128;
    let r1 = RECIP_SCALE / z1 as i128;
    let r2 = RECIP_SCALE / z2 as i128;
    proof {
        lemma_recip_term(bary.w0 as int, z0 as int);
        lemma_recip_term(bary.w1 as int, z1 as int);
        lemma_recip_term(bary.w2 as int, z2 as int);
    }
    let den: i128 = bary.w0 * r0 + bary.w1 * r1 + bary.w2 * r2;
    if den <= 0 {
        return NO_DEPTH;
    }
    proof {
        assert(0 < bary.total * RECIP_SCALE <= 0xc_0000_0000_0000_0000 * RECIP_SCALE) by (nonlinear_arith)
            requires
                0 < bary.total <= 0xc_0000_0000_0000_0000,
        ;
    }
    saturate((bary.total * RECIP_SCALE) / den)
}

/// With the same depth `z` in `(0, ONE]` at all three vertices, every point with a
/// positive weighted reciprocal sum gets exactly the depth `z`.
pub proof fn lemma_constant_depth(p: [RasterPoint; 3], b: Barycentric)
    requires
        b.wf(),
        p[0].z == p[1].z,
        p[1].z == p[2].z,
        0 < p[0].z <= ONE,
    ensures
        interp_depth(p, b) == p[0].z,
{
    let z = p[0].z as int;
    let r = recip(z);
    let e = (RECIP_SCALE as int) % z;
    vstd::arithmetic::div_mod::lemma_fundamental_div_mod(RECIP_SCALE as int, z);
    vstd::arithmetic::div_mod::lemma_mod_bound(RECIP_SCALE as int, z);
    assert(recip_sum(p, b) == b.total * r) by (nonlinear_arith)
        requires
            recip_sum(p, b) == b.w0 * r + b.w1 * r + b.w2 * r,
            b.w0 + b.w1 + b.w2 == b.total,
    ;
    assert(r >= 0x400_0000_0000) by {
        vstd::arithmetic::div_mod::lemma_div_is_ordered_by_denominator(RECIP_SCALE as int, z, ONE as int);
        assert((RECIP_SCALE as int) / (ONE as int) == 0x400_0000_0000);
    }
    assert(b.total * r > 0) by (nonlinear_arith)
        requires
            b.total > 0,
            r > 0,
    ;
    // total * RECIP_SCALE = (total * r) * z + total * e with 0 <= total * e < total * r
    assert(b.total * RECIP_SCALE == (b.total * r) * z + b.total * e) by (nonlinear_arith)
        requires
            RECIP_SCALE == z * r + e,
    ;
    assert(0 <= b.total * e < b.total * r) by (nonlinear_arith)
        requires
            0 <= e < z,
            z <= 0x10000,
            r >= 0x400_0000_0000,
            b.total > 0,
    ;
    vstd::arithmetic::div_mod::lemma_fundamental_div_mod_converse(
        b.total * RECIP_SCALE,
        b.total * r,
        z,
        b.total * e,
    );
}

/// Texture coordinates at a point of the triangle, interpolated linearly in screen space
/// (only depth is perspective-corrected).
pub fn interpolate_uv(points: &[RasterPoint; 3], bary: &Barycentric) -> (r: Vec2)
    requires
        bary.wf(),
    ensures
        r.x == lerp3(*bary, points[0].uv.x as int, points[1].uv.x as int, points[2].uv.x as int),
        r.y == lerp3(*bary, points[0].uv.y as int, points[1].uv.y as int, points[2].uv.y as int),
{
    Vec2 {
        x: lerp(bary, points[0].uv.x, points[1].uv.x, points[2].uv.x),
        y: lerp(bary, points[0].uv.y, points[1].uv.y, points[2].uv.y),
    }
}

/// Vertex colour at a point of the triangle, interpolated linearly in screen space.
pub fn interpolate_color(points: &[RasterPoint; 3], bary: &Barycentric) -> (r: Vec3)
    requires
        bary.wf(),
    ensures
        r == lerp_vec3(*bary, points[0].color, points[1].color, points[2].color),
{
    lerp_v3(bary, &points[0].color, &points[1].color, &points[2].color)
}

/// World position at a point of the triangle, interpolated linearly in screen space.
pub fn interpolate_world_pos(points: &[RasterPoint; 3], bary: &Barycentric) -> (r: Vec3)
    requires
        bary.wf(),
    ensures
        r == lerp_vec3(*bary, points[0].world_pos, points[1].world_pos, points[2].world_pos),
{
    lerp_v3(bary, &points[0].world_pos, &points[1].world_pos, &points[2].world_pos)
}

/// Normal at a point of the triangle, interpolated linearly in screen space and
/// renormalised.
pub fn interpolate_normal(points: &[RasterPoint; 3], bary: &Barycentric) -> (r: Vec3)
    requires
        bary.wf(),
    ensures
        r == crate::vector::normalized(
            lerp_vec3(*bary, points[0].normal, points[1].normal, points[2].normal),
        ),
{
    lerp_v3(bary, &points[0].normal, &points[1].normal, &points[2].normal).normalize()
}

} // verus!
