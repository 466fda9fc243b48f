//! The rendering pipeline: backface culling, vertex shading, clipping, viewport mapping,
//! rasterisation with fragment shading, and the outline post-filters.
use vstd::prelude::*;
use crate::framebuffer::{FrameBuffer, FrameView, MAX_DIM};
use crate::math::{floor_div, sat, saturate, HALF, ONE};
use crate::rasterizer::{
    barycentric, bounding_box, get_barycentric_coords, get_box, inside, interp_depth,
    interpolate_color, interpolate_depth, interpolate_normal, interpolate_uv, interpolate_world_pos,
    lerp3, lerp_vec3, signed_area,
};
use crate::texture::Texture;
use crate::vector::{normalized, Vec2, Vec3, Vec4};
use crate::vertex::{backface, extend3, ClipSpaceVertex, Material, RasterPoint, RasterTriangle, Triangle};
use clip::{Clipper, SimpleClipper};
use vertex_shader::{DefaultVertexShader, VertexShader, VertexShaderUniforms};
use fragment_shader::{FragmentData, FragmentShader};

pub mod clip;
pub mod fragment_shader;
pub mod post_effect;
pub mod vertex_shader;

verus! {

/// A light: direction of travel (toward the scene), colour, intensity, and an ambient
/// colour with its strength.
#[derive(Clone, Copy, Debug, PartialEq, Eq, Structural)]
pub struct Light {
    pub direction: Vec3,
    pub color: Vec3,
    pub intensity: i32,
    pub ambient_strength: i32,
    pub ambient_color: Vec3,
}

impl Light {
    /// Sets the colour and the direction, the latter normalised.
    pub fn set_light(&mut self, color: [i32; 3], direction: [i32; 3])
        ensures
            final(self).color == (Vec3 { x: color[0], y: color[1], z: color[2] }),
            final(self).direction == normalized(
                Vec3 { x: direction[0], y: direction[1], z: direction[2] },
            ),
            final(self).intensity == old(self).intensity,
            final(self).ambient_strength == old(self).ambient_strength,
            final(self).ambient_color == old(self).ambient_color,
    {
        self.color = Vec3 { x: color[0], y: color[1], z: color[2] };
        self.direction = Vec3 { x: direction[0], y: direction[1], z: direction[2] }.normalize();
    }
}

impl Light {
    pub open spec fn default_spec() -> Light {
        Light {
            direction: normalized(Vec3 { x: ONE, y: -13107i32, z: -6554i32 }),
            color: Vec3 { x: ONE, y: ONE, z: ONE },
            intensity: ONE,
            ambient_strength: HALF,
            ambient_color: Vec3 { x: ONE, y: ONE, z: ONE },
        }
    }
}

impl Default for Light {
    /// White light of intensity 1 along the normalised `(1, -0.2, -0.1)`, with white ambient
    /// light of strength 0.5.
    fn default() -> (r: Light)
        ensures
            r == Light::default_spec(),
    {
        Light {
            direction: Vec3 { x: ONE, y: -13107, z: -6554 }.normalize(),
            color: Vec3 { x: ONE, y: ONE, z: ONE },
            intensity: ONE,
            ambient_strength: HALF,
            ambient_color: Vec3 { x: ONE, y: ONE, z: ONE },
        }
    }
}


/// Pixel rectangle that normalised device coordinates map onto.
#[derive(Clone, Copy, Debug, PartialEq, Eq, Structural)]
pub struct Viewport {
    pub x: i32,
    pub y: i32,
    pub w: i32,
    pub h: i32,
}

/// `a / w` in fixed point, rounded down and saturated.
pub open spec fn ndc_div(a: int, w: int) -> int {
    if w > 0 {
        sat((a * ONE) / w)
    } else {
        sat((-a * ONE) / (-w))
    }
}

pub open spec fn screen_x(ndc_x: int, vp: Viewport) -> int {
    sat(((ndc_x + ONE) * vp.w) / 2 + vp.x * ONE)
}

/// Screen rows grow downwards while NDC `y` grows upwards.
pub open spec fn screen_y(ndc_y: int, vp: Viewport) -> int {
    sat(vp.h * ONE - ((ndc_y + ONE) * vp.h) / 2 + vp.y * ONE)
}

/// Perspective divide, NDC-to-screen mapping and depth remap from `[-1, 1]` to `[0, 1]`.
pub open spec fn to_raster(v: ClipSpaceVertex, vp: Viewport) -> RasterPoint {
    let w = v.position.w as int;
    RasterPoint {
        pos: Vec2 {
            x: screen_x(ndc_div(v.position.x as int, w), vp) as i32,
            y: screen_y(ndc_div(v.position.y as int, w), vp) as i32,
        },
        z: ((ndc_div(v.position.z as int, w) + ONE) / 2) as i32,
        world_pos: v.world_pos,
        normal: v.normal,
        uv: v.uv,
        color: v.color,
    }
}

/// The raster triangle of a clipped triangle, or `None` when a vertex has `w == 0`.
pub open spec fn viewport_spec(t: [ClipSpaceVertex; 3], material: Material, vp: Viewport) -> Option<RasterTriangle> {
    if t[0].position.w == 0 || t[1].position.w == 0 || t[2].position.w == 0 {
        None
    } else {
        Some(
            RasterTriangle {
                vertices: [to_raster(t[0], vp), to_raster(t[1], vp), to_raster(t[2], vp)],
                material,
            },
        )
    }
}

pub open spec fn positions(t: RasterTriangle) -> [Vec2; 3] {
    [t.vertices[0].pos, t.vertices[1].pos, t.vertices[2].pos]
}

/// Centre of pixel `(x, y)` in fixed point.
pub open spec fn pixel_center(x: int, y: int) -> Vec2 {
    Vec2 { x: (x * ONE + HALF) as i32, y: (y * ONE + HALF) as i32 }
}

/// Pixel `(x, y)` of a `w x h` buffer is covered: it lies in the triangle's bounding box,
/// its centre is inside the triangle, and the triangle has nonzero area.
pub open spec fn covers(t: RasterTriangle, w: int, h: int, x: int, y: int) -> bool {
    let b = bounding_box(positions(t));
    &&& 0 <= x < w
    &&& 0 <= y < h
    &&& b.0 <= x <= b.2
    &&& b.1 <= y <= b.3
    &&& inside(positions(t), pixel_center(x, y))
    &&& barycentric(positions(t), pixel_center(x, y)) is Some
}

/// The interpolated attributes at the centre of pixel `(x, y)`.
pub open spec fn fragment_at(t: RasterTriangle, x: int, y: int, camera_pos: Vec3) -> FragmentData {
    let b = barycentric(positions(t), pixel_center(x, y)).unwrap();
    let p = t.vertices;
    FragmentData {
        world_pos: lerp_vec3(b, p[0].world_pos, p[1].world_pos, p[2].world_pos),
        normal: normalized(lerp_vec3(b, p[0].normal, p[1].normal, p[2].normal)),
        uv: Vec2 {
            x: lerp3(b, p[0].uv.x as int, p[1].uv.x as int, p[2].uv.x as int) as i32,
            y: lerp3(b, p[0].uv.y as int, p[1].uv.y as int, p[2].uv.y as int) as i32,
        },
        color: lerp_vec3(b, p[0].color, p[1].color, p[2].color),
        material: t.material,
        camera_pos,
        x: x as u32,
        y: y as u32,
    }
}

pub open spec fn fragment_depth(t: RasterTriangle, x: int, y: int) -> int {
    interp_depth(t.vertices, barycentric(positions(t), pixel_center(x, y)).unwrap())
}

pub open spec fn fragment_color<S: FragmentShader>(
    t: RasterTriangle,
    x: int,
    y: int,
    camera_pos: Vec3,
    texture: Option<&Texture>,
    shader: S,
) -> Vec4 {
    extend3(shader.shade_spec(fragment_at(t, x, y, camera_pos), texture), ONE)
}

/// The pixel is covered and its fragment passes the depth test.
pub open spec fn fragment_wins(v: FrameView, t: RasterTriangle, x: int, y: int) -> bool {
    covers(t, v.width as int, v.height as int, x, y) && v.accepts(x, y, fragment_depth(t, x, y))
}

pub open spec fn raster_color_at<S: FragmentShader>(
    v: FrameView,
    t: RasterTriangle,
    camera_pos: Vec3,
    texture: Option<&Texture>,
    shader: S,
    x: int,
    y: int,
) -> Vec4 {
    if fragment_wins(v, t, x, y) {
        fragment_color(t, x, y, camera_pos, texture, shader)
    } else {
        v.color[v.index(x, y)]
    }
}

pub open spec fn raster_depth_at(v: FrameView, t: RasterTriangle, x: int, y: int) -> i32 {
    if fragment_wins(v, t, x, y) {
        fragment_depth(t, x, y) as i32
    } else {
        v.depth[v.index(x, y)]
    }
}

/// The buffer after rasterising one triangle into it.
pub open spec fn raster_view<S: FragmentShader>(
    v: FrameView,
    t: RasterTriangle,
    camera_pos: Vec3,
    texture: Option<&Texture>,
    shader: S,
) -> FrameView {
    let w = v.width as int;
    FrameView {
        width: v.width,
        height: v.height,
        color: Seq::new(
            v.color.len(),
            |i: int| raster_color_at(v, t, camera_pos, texture, shader, i % w, i / w),
        ),
        depth: Seq::new(v.depth.len(), |i: int| raster_depth_at(v, t, i % w, i / w)),
    }
}

fn ndc_div_exec(a: i32, w: i32) -> (r: i32)
    requires
        w != 0,
    ensures
        r == ndc_div(a as int, w as int),
{
    let n: i128 = a as i128 * 65536;
    if w > 0 {
        saturate(floor_div(n, w as i128))
    } else {
        saturate(floor_div(-n, -(w as i128)))
    }
}

fn to_raster_exec(v: &ClipSpaceVertex, vp: &Viewport) -> (r: RasterPoint)
    requires
        v.position.w != 0,
    ensures
        r == to_raster(*v, *vp),
{
    let w = v.position.w;
    let nx = ndc_div_exec(v.position.x, w);
    let ny = ndc_div_exec(v.position.y, w);
    let nz = ndc_div_exec(v.position.z, w);
    let o: i128 = 65536;
    proof {
        crate::math::lemma_mul_i32_bound(nx as int, vp.w as int);
        crate::math::lemma_mul_i32_bound(ny as int, vp.h as int);
        assert(-0x8000_0000 * 0x1_0001_0000 <= (nx + o) * vp.w <= 0x8000_0000 * 0x1_0001_0000) by (nonlinear_arith)
            requires
                -0x8000_0000 <= nx + o <= 0x1_0001_0000,
                -0x8000_0000 <= vp.w <= 0x8000_0000,
        ;
        assert(-0x8000_0000 * 0x1_0001_0000 <= (ny + o) * vp.h <= 0x8000_0000 * 0x1_0001_0000) by (nonlinear_arith)
            requires
                -0x8000_0000 <= ny + o <= 0x1_0001_0000,
                -0x8000_0000 <= vp.h <= 0x8000_0000,
        ;
    }
    let sx = saturate(floor_div((nx as i128 + o) * vp.w as i128, 2) + vp.x as i128 * o);
    let sy = saturate(vp.h as i128 * o - floor_div((ny as i128 + o) * vp.h as i128, 2) + vp.y as i128 * o);
    let z = floor_div(nz as i128 + o, 2) as i32;
    RasterPoint {
        pos: Vec2 { x: sx, y: sy },
        z,
        world_pos: v.world_pos,
        normal: v.normal,
        uv: v.uv,
        color: v.color,
    }
}

/// Maps a clipped triangle to the screen; `None` when a vertex has `w == 0`.
pub fn viewport_transform(
    viewport: &Viewport,
    clip_triangle: &[ClipSpaceVertex; 3],
    material: Material,
) -> (r: Option<RasterTriangle>)
    ensures
        r == viewport_spec(*clip_triangle, material, *viewport),
{
    if clip_triangle[0].position.w == 0 || clip_triangle[1].position.w == 0
        || clip_triangle[2].position.w == 0 {
        return None;
    }
    let r = RasterTriangle {
        vertices: [
            to_raster_exec(&clip_triangle[0], viewport),
            to_raster_exec(&clip_triangle[1], viewport),
            to_raster_exec(&clip_triangle[2], viewport),
        ],
        material,
    };
    proof {
        let s = viewport_spec(*clip_triangle, material, *viewport).unwrap();
        assert(r.vertices =~= s.vertices);
    }
    Some(r)
}

proof fn lemma_index_distinct(w: int, x1: int, y1: int, x2: int, y2: int)
    requires
        0 <= x1 < w,
        0 <= x2 < w,
        0 <= y1,
        0 <= y2,
        x1 != x2 || y1 != y2,
    ensures
        y1 * w + x1 != y2 * w + x2,
{
    if y1 < y2 {
        assert(y1 * w + x1 < y2 * w + x2) by (nonlinear_arith)
            requires
                0 <= x1 < w,
                0 <= x2,
                y1 < y2,
        ;
    } else if y2 < y1 {
        assert(y2 * w + x2 < y1 * w + x1) by (nonlinear_arith)
            requires
                0 <= x2 < w,
                0 <= x1,
                y2 < y1,
        ;
    }
}

proof fn lemma_pixel_in(w: int, h: int, x: int, y: int)
    requires
        0 <= x < w,
        0 <= y < h,
        w <= MAX_DIM,
        h <= MAX_DIM,
    ensures
        0 <= y * w + x < w * h,
{
    assert(0 <= y * w + x < w * h) by (nonlinear_arith)
        requires
            0 <= x < w,
            0 <= y < h,
    ;
}


/// Pixels before `(x, y)` in row-major order hold the rasterised result, the others
/// still hold what `v0` held.
pub open spec fn raster_progress<S: FragmentShader>(
    cur: FrameView,
    v0: FrameView,
    t: RasterTriangle,
    camera_pos: Vec3,
    texture: Option<&Texture>,
    shader: S,
    x: int,
    y: int,
) -> bool {
    let w = v0.width as int;
    let h = v0.height as int;
    forall|px: int, py: int|
        0 <= px < w && 0 <= py < h ==> {
            &&& cur.color[#[trigger] (py * w + px)] == (if py < y || (py == y && px < x) {
                raster_color_at(v0, t, camera_pos, texture, shader, px, py)
            } else {
                v0.color[py * w + px]
            })
            &&& cur.depth[py * w + px] == (if py < y || (py == y && px < x) {
                raster_depth_at(v0, t, px, py)
            } else {
                v0.depth[py * w + px]
            })
        }
}

proof fn lemma_progress_skip<S: FragmentShader>(
    cur: FrameView,
    v0: FrameView,
    t: RasterTriangle,
    camera_pos: Vec3,
    texture: Option<&Texture>,
    shader: S,
    x_from: int,
    x_to: int,
    y: int,
)
    requires
        raster_progress(cur, v0, t, camera_pos, texture, shader, x_from, y),
        x_from <= x_to,
        forall|px: int| x_from <= px < x_to ==> !covers(t, v0.width as int, v0.height as int, px, y),
    ensures
        raster_progress(cur, v0, t, camera_pos, texture, shader, x_to, y),
{
}

proof fn lemma_progress_next_row<S: FragmentShader>(
    cur: FrameView,
    v0: FrameView,
    t: RasterTriangle,
    camera_pos: Vec3,
    texture: Option<&Texture>,
    shader: S,
    x: int,
    y: int,
)
    requires
        raster_progress(cur, v0, t, camera_pos, texture, shader, x, y),
        forall|px: int| x <= px < v0.width ==> !covers(t, v0.width as int, v0.height as int, px, y),
    ensures
        raster_progress(cur, v0, t, camera_pos, texture, shader, 0, y + 1),
{
    let w = v0.width as int;
    let h = v0.height as int;
    assert forall|px: int, py: int| 0 <= px < w && 0 <= py < h implies {
        &&& cur.color[#[trigger] (py * w + px)] == (if py < y + 1 || (py == y + 1 && px < 0) {
            raster_color_at(v0, t, camera_pos, texture, shader, px, py)
        } else {
            v0.color[py * w + px]
        })
        &&& cur.depth[py * w + px] == (if py < y + 1 || (py == y + 1 && px < 0) {
            raster_depth_at(v0, t, px, py)
        } else {
            v0.depth[py * w + px]
        })
    } by {
        if py == y && px >= x {
            assert(!covers(t, w, h, px, y));
        }
    }
}

proof fn lemma_raster_step<S: FragmentShader>(
    before: FrameView,
    after: FrameView,
    v0: FrameView,
    t: RasterTriangle,
    camera_pos: Vec3,
    texture: Option<&Texture>,
    shader: S,
    x: int,
    y: int,
)
    requires
        v0.wf(),
        before.wf(),
        before.width == v0.width,
        before.height == v0.height,
        0 <= x < v0.width,
        0 <= y < v0.height,
        raster_progress(before, v0, t, camera_pos, texture, shader, x, y),
        (!covers(t, v0.width as int, v0.height as int, x, y) && after == before) || (covers(
            t,
            v0.width as int,
            v0.height as int,
            x,
            y,
        ) && after == before.put(
            x,
            y,
            fragment_color(t, x, y, camera_pos, texture, shader),
            fragment_depth(t, x, y),
        )),
    ensures
        raster_progress(after, v0, t, camera_pos, texture, shader, x + 1, y),
{
    let w = v0.width as int;
    let h = v0.height as int;
    lemma_pixel_in(w, h, x, y);
    assert(before.depth[y * w + x] == v0.depth[y * w + x]);
    assert forall|px: int, py: int| 0 <= px < w && 0 <= py < h implies {
        &&& after.color[#[trigger] (py * w + px)] == (if py < y || (py == y && px < x + 1) {
            raster_color_at(v0, t, camera_pos, texture, shader, px, py)
        } else {
            v0.color[py * w + px]
        })
        &&& after.depth[py * w + px] == (if py < y || (py == y && px < x + 1) {
            raster_depth_at(v0, t, px, py)
        } else {
            v0.depth[py * w + px]
        })
    } by {
        if px != x || py != y {
            lemma_index_distinct(w, px, py, x, y);
            lemma_pixel_in(w, h, px, py);
        }
    }
}

proof fn lemma_index_split(i: int, w: int, h: int)
    requires
        0 <= i < w * h,
        0 <= w,
        0 <= h,
    ensures
        w > 0,
        0 <= i % w < w,
        0 <= i / w < h,
        (i / w) * w + i % w == i,
{
    if w == 0 {
        assert(w * h == 0) by (nonlinear_arith)
            requires
                w == 0,
        ;
    }
    vstd::arithmetic::div_mod::lemma_fundamental_div_mod(i, w);
    vstd::arithmetic::div_mod::lemma_mod_bound(i, w);
    vstd::arithmetic::div_mod::lemma_div_pos_is_pos(i, w);
    let px = i % w;
    let py = i / w;
    assert(py * w + px == i) by (nonlinear_arith)
        requires
            i == w * py + px,
    ;
    if py >= h {
        assert(py * w + px >= h * w) by (nonlinear_arith)
            requires
                py >= h,
                px >= 0,
                w > 0,
        ;
        assert(h * w == w * h) by (nonlinear_arith);
    }
}

/// Three collinear screen points cover no pixel, so rasterising them changes nothing.
pub proof fn lemma_degenerate_no_writes<S: FragmentShader>(
    v: FrameView,
    t: RasterTriangle,
    camera_pos: Vec3,
    texture: Option<&Texture>,
    shader: S,
)
    requires
        v.wf(),
        signed_area(positions(t)) == 0,
    ensures
        raster_view(v, t, camera_pos, texture, shader) == v,
{
    let rv = raster_view(v, t, camera_pos, texture, shader);
    let w = v.width as int;
    assert forall|i: int| 0 <= i < v.color.len() implies rv.color[i] == v.color[i] && rv.depth[i]
        == v.depth[i] by {
        lemma_index_split(i, w, v.height as int);
    }
    assert(rv.color =~= v.color);
    assert(rv.depth =~= v.depth);
}

proof fn lemma_view_index(v: FrameView, x: int, y: int)
    requires
        v.wf(),
        0 <= x < v.width,
        0 <= y < v.height,
    ensures
        0 <= v.index(x, y) < v.color.len(),
        v.index(x, y) % (v.width as int) == x,
        v.index(x, y) / (v.width as int) == y,
{
    let w = v.width as int;
    lemma_pixel_in(w, v.height as int, x, y);
    assert(v.index(x, y) == y * w + x);
    assert(y * w == w * y) by (nonlinear_arith);
    vstd::arithmetic::div_mod::lemma_fundamental_div_mod_converse(y * w + x, w, y, x);
}

/// Two triangles covering one pixel with fragment depths `d1 < d2`, where `d1` is valid
/// and nearer than what the pixel holds, leave the nearer fragment's colour and depth
/// there whichever is drawn first.
pub proof fn lemma_nearer_fragment_wins<S: FragmentShader>(
    v: FrameView,
    t1: RasterTriangle,
    t2: RasterTriangle,
    camera_pos: Vec3,
    texture: Option<&Texture>,
    shader: S,
    x: int,
    y: int,
)
    requires
        v.wf(),
        covers(t1, v.width as int, v.height as int, x, y),
        covers(t2, v.width as int, v.height as int, x, y),
        0 <= fragment_depth(t1, x, y) < fragment_depth(t2, x, y),
        fragment_depth(t1, x, y) <= ONE,
        fragment_depth(t1, x, y) < v.depth[v.index(x, y)],
    ensures
        ({
            let a = raster_view(raster_view(v, t1, camera_pos, texture, shader), t2, camera_pos, texture, shader);
            let b = raster_view(raster_view(v, t2, camera_pos, texture, shader), t1, camera_pos, texture, shader);
            &&& a.color[v.index(x, y)] == fragment_color(t1, x, y, camera_pos, texture, shader)
            &&& b.color[v.index(x, y)] == fragment_color(t1, x, y, camera_pos, texture, shader)
            &&& a.depth[v.index(x, y)] == fragment_depth(t1, x, y)
            &&& b.depth[v.index(x, y)] == fragment_depth(t1, x, y)
        }),
{
    let v1 = raster_view(v, t1, camera_pos, texture, shader);
    let v2 = raster_view(v, t2, camera_pos, texture, shader);
    lemma_view_index(v, x, y);
    assert(v1.wf());
    assert(v2.wf());
    lemma_view_index(v1, x, y);
    lemma_view_index(v2, x, y);
}

/// The raster triangles of a sequence of clipped triangles: each mapped to the screen,
/// those with a vertex at `w == 0` left out.
pub open spec fn raster_list(ts: Seq<[ClipSpaceVertex; 3]>, material: Material, viewport: Viewport) -> Seq<RasterTriangle>
    decreases ts.len(),
{
    if ts.len() == 0 {
        seq![]
    } else {
        let prev = raster_list(ts.drop_last(), material, viewport);
        match viewport_spec(ts.last(), material, viewport) {
            Some(rt) => prev.push(rt),
            None => prev,
        }
    }
}

/// What one model-space triangle becomes on the screen: nothing when it faces away from
/// the camera, else its vertex-shaded, clipped and viewport-mapped triangles.
pub open spec fn raster_targets<V: VertexShader, C: Clipper>(
    triangle: Triangle,
    uniforms: VertexShaderUniforms,
    viewport: Viewport,
    vertex_shader: V,
    clipper: C,
    camera_pos: Vec3,
) -> Seq<RasterTriangle> {
    if backface(triangle, camera_pos, uniforms.model_matrix, uniforms.normal_matrix) {
        seq![]
    } else {
        raster_list(
            clipper.clip_spec(vertex_shader.shade_spec(triangle, uniforms)),
            triangle.material,
            viewport,
        )
    }
}

/// The buffer after rasterising each triangle in turn.
pub open spec fn raster_all<S: FragmentShader>(
    v: FrameView,
    ts: Seq<RasterTriangle>,
    camera_pos: Vec3,
    texture: Option<&Texture>,
    shader: S,
) -> FrameView
    decreases ts.len(),
{
    if ts.len() == 0 {
        v
    } else {
        raster_view(raster_all(v, ts.drop_last(), camera_pos, texture, shader), ts.last(), camera_pos, texture, shader)
    }
}

/// The buffer after one triangle has gone through the whole pipeline.
pub open spec fn draw_spec<V: VertexShader, C: Clipper, S: FragmentShader>(
    v: FrameView,
    triangle: Triangle,
    uniforms: VertexShaderUniforms,
    viewport: Viewport,
    vertex_shader: V,
    clipper: C,
    camera_pos: Vec3,
    texture: Option<&Texture>,
    shader: S,
) -> FrameView {
    raster_all(
        v,
        raster_targets(triangle, uniforms, viewport, vertex_shader, clipper, camera_pos),
        camera_pos,
        texture,
        shader,
    )
}

/// The geometry half of the pipeline for one triangle: backface culling, vertex shading,
/// clipping and the viewport transform.
pub fn prepare_triangle<V: VertexShader, C: Clipper>(
    viewport: &Viewport,
    triangle: &Triangle,
    uniforms: &VertexShaderUniforms,
    vertex_shader: &V,
    clipper: &C,
    camera_pos: Vec3,
) -> (r: Vec<RasterTriangle>)
    ensures
        r@ == raster_targets(*triangle, *uniforms, *viewport, *vertex_shader, *clipper, camera_pos),
        backface(*triangle, camera_pos, uniforms.model_matrix, uniforms.normal_matrix) ==> r@.len() == 0,
{
    let mut out: Vec<RasterTriangle> = Vec::new();
    if triangle.is_backface_world_space(camera_pos, &uniforms.model_matrix, &uniforms.normal_matrix) {
        proof {
            assert(out@ =~= seq![]);
        }
        return out;
    }
    let clip_space = vertex_shader.shade_triangle(triangle, uniforms);
    let clipped = clipper.clip_triangle(&clip_space);
    let ghost ts = clipped@;
    let mut i: usize = 0;
    while i < clipped.len()
        invariant
            ts == clipped@,
            0 <= i <= clipped@.len(),
            out@ == raster_list(ts.subrange(0, i as int), triangle.material, *viewport),
        decreases clipped.len() - i,
    {
        proof {
            assert(ts.subrange(0, i + 1).drop_last() =~= ts.subrange(0, i as int));
            assert(ts.subrange(0, i + 1).last() == ts[i as int]);
        }
        match viewport_transform(viewport, &clipped[i], triangle.material) {
            Some(rt) => {
                out.push(rt);
            },
            None => {},
        }
        i = i + 1;
    }
    proof {
        assert(ts.subrange(0, ts.len() as int) =~= ts);
    }
    out
}

/// Draws one model-space triangle through the whole pipeline.
pub fn render_triangle<V: VertexShader, C: Clipper, S: FragmentShader>(
    framebuffer: &mut FrameBuffer,
    viewport: &Viewport,
    triangle: &Triangle,
    uniforms: &VertexShaderUniforms,
    vertex_shader: &V,
    clipper: &C,
    texture: Option<&Texture>,
    shader: &S,
    camera_pos: Vec3,
)
    requires
        old(framebuffer).wf(),
        texture matches Some(t) ==> t.wf(),
    ensures
        final(framebuffer).wf(),
        final(framebuffer)@ == draw_spec(
            old(framebuffer)@,
            *triangle,
            *uniforms,
            *viewport,
            *vertex_shader,
            *clipper,
            camera_pos,
            texture,
            *shader,
        ),
        backface(*triangle, camera_pos, uniforms.model_matrix, uniforms.normal_matrix)
            ==> final(framebuffer)@ == old(framebuffer)@,
{
    let ghost v0 = framebuffer@;
    let targets = prepare_triangle(viewport, triangle, uniforms, vertex_shader, clipper, camera_pos);
    let ghost ts = targets@;
    let mut i: usize = 0;
    while i < targets.len()
        invariant
            framebuffer.wf(),
            ts == targets@,
            0 <= i <= targets@.len(),
            texture matches Some(t) ==> t.wf(),
            framebuffer@ == raster_all(v0, ts.subrange(0, i as int), camera_pos, texture, *shader),
        decreases targets.len() - i,
    {
        proof {
            assert(ts.subrange(0, i + 1).drop_last() =~= ts.subrange(0, i as int));
            assert(ts.subrange(0, i + 1).last() == ts[i as int]);
        }
        Renderer::rasterize_triangle(framebuffer, &targets[i], texture, shader, camera_pos);
        i = i + 1;
    }
    proof {
        assert(ts.subrange(0, ts.len() as int) =~= ts);
    }
}

/// The buffer after drawing each triangle in turn with the default vertex shader and
/// the simple clipper.
pub open spec fn draw_all<S: FragmentShader>(
    v: FrameView,
    ts: Seq<Triangle>,
    uniforms: VertexShaderUniforms,
    viewport: Viewport,
    camera_pos: Vec3,
    texture: Option<&Texture>,
    shader: S,
) -> FrameView
    decreases ts.len(),
{
    if ts.len() == 0 {
        v
    } else {
        draw_spec(
            draw_all(v, ts.drop_last(), uniforms, viewport, camera_pos, texture, shader),
            ts.last(),
            uniforms,
            viewport,
            DefaultVertexShader,
            SimpleClipper,
            camera_pos,
            texture,
            shader,
        )
    }
}

/// A frame buffer with the viewport covering it, a light and a camera position.
pub struct Renderer {
    pub framebuffer: FrameBuffer,
    pub viewport: Viewport,
    pub light: Light,
    pub camera_pos: Vec3,
}

impl Renderer {
    pub open spec fn wf(&self) -> bool {
        self.framebuffer.wf()
    }

    /// Scan-converts one triangle: every pixel of its bounding box (within the buffer) whose
    /// centre is inside the triangle is shaded and written through the depth test.
    pub fn rasterize_triangle<S: FragmentShader>(
        framebuffer: &mut FrameBuffer,
        triangle: &RasterTriangle,
        texture: Option<&Texture>,
        shader: &S,
        camera_pos: Vec3,
    )
        requires
            old(framebuffer).wf(),
            texture matches Some(t) ==> t.wf(),
        ensures
            final(framebuffer).wf(),
            final(framebuffer)@ == raster_view(old(framebuffer)@, *triangle, camera_pos, texture, *shader),
    {
        let ghost v0 = framebuffer@;
        let pos = [triangle.vertices[0].pos, triangle.vertices[1].pos, triangle.vertices[2].pos];
        let (min_x, min_y, max_x, max_y) = get_box(&pos);
        let w = framebuffer.width as i64;
        let h = framebuffer.height as i64;
        let ghost gw = w as int;
        let ghost gh = h as int;
        let xlo: i64 = if min_x < 0 { 0 } else { min_x as i64 };
        let ylo: i64 = if min_y < 0 { 0 } else { min_y as i64 };
        let xhi: i64 = if (max_x as i64) < w - 1 { max_x as i64 } else { w - 1 };
        let yhi: i64 = if (max_y as i64) < h - 1 { max_y as i64 } else { h - 1 };
        assert(pos == positions(*triangle));
        proof {
            assert(framebuffer@ == v0);
            assert forall|px: int, py: int| 0 <= px < gw && 0 <= py < gh && py < ylo implies !covers(
                *triangle,
                gw,
                gh,
                px,
                py,
            ) by {}
        }
        let mut y: i64 = ylo;
        while y <= yhi
            invariant
                framebuffer.wf(),
                framebuffer.width == v0.width,
                framebuffer.height == v0.height,
                gw == v0.width,
                gh == v0.height,
                v0.wf(),
                pos == positions(*triangle),
                min_x == bounding_box(pos).0,
                min_y == bounding_box(pos).1,
                max_x == bounding_box(pos).2,
                max_y == bounding_box(pos).3,
                xlo == (if min_x < 0 { 0 } else { min_x as int }),
                ylo == (if min_y < 0 { 0 } else { min_y as int }),
                xhi == (if max_x < gw - 1 { max_x as int } else { gw - 1 }),
                yhi == (if max_y < gh - 1 { max_y as int } else { gh - 1 }),
                ylo <= y,
                y <= yhi + 1 || y == ylo,
                texture matches Some(t) ==> t.wf(),
                raster_progress(framebuffer@, v0, *triangle, camera_pos, texture, *shader, 0, y as int),
            decreases yhi + 1 - y,
        {
            proof {
                lemma_progress_skip(framebuffer@, v0, *triangle, camera_pos, texture, *shader, 0, xlo as int, y as int);
            }
            let mut x: i64 = xlo;
            while x <= xhi
                invariant
                    framebuffer.wf(),
                    framebuffer.width == v0.width,
                    framebuffer.height == v0.height,
                    gw == v0.width,
                    gh == v0.height,
                    v0.wf(),
                    pos == positions(*triangle),
                    min_x == bounding_box(pos).0,
                    min_y == bounding_box(pos).1,
                    max_x == bounding_box(pos).2,
                    max_y == bounding_box(pos).3,
                    xlo == (if min_x < 0 { 0 } else { min_x as int }),
                    ylo == (if min_y < 0 { 0 } else { min_y as int }),
                    xhi == (if max_x < gw - 1 { max_x as int } else { gw - 1 }),
                    yhi == (if max_y < gh - 1 { max_y as int } else { gh - 1 }),
                    ylo <= y <= yhi,
                    xlo <= x,
                    x <= xhi + 1 || x == xlo,
                    texture matches Some(t) ==> t.wf(),
                    raster_progress(framebuffer@, v0, *triangle, camera_pos, texture, *shader, x as int, y as int),
                decreases xhi + 1 - x,
            {
                let ghost before = framebuffer@;
                let p = Vec2 { x: (x * 65536 + 32768) as i32, y: (y * 65536 + 32768) as i32 };
                assert(p == pixel_center(x as int, y as int));
                if crate::rasterizer::is_inside_triangle(&pos, &p) {
                    match get_barycentric_coords(&pos, &p) {
                        Some(b) => {
                            let points = &triangle.vertices;
                            let depth = interpolate_depth(points, &b);
                            let data = FragmentData {
                                world_pos: interpolate_world_pos(points, &b),
                                normal: interpolate_normal(points, &b),
                                uv: interpolate_uv(points, &b),
                                color: interpolate_color(points, &b),
                                material: triangle.material,
                                camera_pos,
                                x: x as u32,
                                y: y as u32,
                            };
                            assert(data == fragment_at(*triangle, x as int, y as int, camera_pos));
                            let c = shader.shade(&data, texture);
                            proof {
                                lemma_pixel_in(gw, gh, x as int, y as int);
                            }
                            framebuffer.put_pixel(x as usize, y as usize, c.extend(ONE), depth);
                            proof {
                                assert(covers(*triangle, gw, gh, x as int, y as int));
                                lemma_raster_step(before, framebuffer@, v0, *triangle, camera_pos, texture, *shader, x as int, y as int);
                            }
                        },
                        None => {
                            proof {
                                lemma_raster_step(before, framebuffer@, v0, *triangle, camera_pos, texture, *shader, x as int, y as int);
                            }
                        },
                    }
                } else {
                    proof {
                        lemma_raster_step(before, framebuffer@, v0, *triangle, camera_pos, texture, *shader, x as int, y as int);
                    }
                }
                x = x + 1;
            }
            proof {
                lemma_progress_next_row(framebuffer@, v0, *triangle, camera_pos, texture, *shader, x as int, y as int);
            }
            y = y + 1;
        }
        proof {
            let rv = raster_view(v0, *triangle, camera_pos, texture, *shader);
            assert forall|px: int, py: int| 0 <= px < gw && 0 <= py < gh implies
                framebuffer@.color[#[trigger] (py * gw + px)] == raster_color_at(v0, *triangle, camera_pos, texture, *shader, px, py)
                && framebuffer@.depth[py * gw + px] == raster_depth_at(v0, *triangle, px, py) by {
                if py >= y {
                    assert(!covers(*triangle, gw, gh, px, py));
                }
            }
            assert forall|i: int| 0 <= i < v0.color.len() implies framebuffer@.color[i] == rv.color[i]
                && framebuffer@.depth[i] == rv.depth[i] by {
                if gw > 0 {
                    vstd::arithmetic::div_mod::lemma_fundamental_div_mod(i, gw);
                    vstd::arithmetic::div_mod::lemma_mod_bound(i, gw);
                    vstd::arithmetic::div_mod::lemma_div_pos_is_pos(i, gw);
                    let px = i % gw;
                    let py = i / gw;
                    assert(py * gw + px == i) by (nonlinear_arith)
                        requires
                            i == gw * py + px,
                    ;
                    if py >= gh {
                        assert(py * gw + px >= gh * gw) by (nonlinear_arith)
                            requires
                                py >= gh,
                                px >= 0,
                                gw > 0,
                        ;
                        assert(gh * gw == gw * gh) by (nonlinear_arith);
                    }
                } else {
                    assert(gw * gh == 0) by (nonlinear_arith)
                        requires
                            gw == 0,
                    ;
                }
            }
            assert(framebuffer@.color =~= rv.color);
            assert(framebuffer@.depth =~= rv.depth);
        }
    }

    /// A `w x h` renderer: cleared buffer, full-buffer viewport, default light.
    pub fn new(camera_pos: Vec3, w: usize, h: usize) -> (r: Renderer)
        requires
            w <= MAX_DIM,
            h <= MAX_DIM,
        ensures
            r.wf(),
            r.framebuffer.width == w,
            r.framebuffer.height == h,
            forall|i: int| 0 <= i < w * h ==> r.framebuffer.depth@[i] == ONE,
            r.viewport == (Viewport { x: 0, y: 0, w: w as i32, h: h as i32 }),
            r.camera_pos == camera_pos,
            r.light == Light::default_spec(),
    {
        Renderer {
            framebuffer: FrameBuffer::new(w, h),
            viewport: Viewport { x: 0, y: 0, w: w as i32, h: h as i32 },
            light: Light::default(),
            camera_pos,
        }
    }

    /// Draws every triangle of a mesh in order.
    pub fn render_colored_triangles<S: FragmentShader>(
        &mut self,
        triangles: &Vec<Triangle>,
        uniforms: &VertexShaderUniforms,
        texture: Option<&Texture>,
        shader: &S,
    )
        requires
            old(self).wf(),
            texture matches Some(t) ==> t.wf(),
        ensures
            final(self).wf(),
            final(self).framebuffer@ == draw_all(
                old(self).framebuffer@,
                triangles@,
                *uniforms,
                old(self).viewport,
                old(self).camera_pos,
                texture,
                *shader,
            ),
            final(self).viewport == old(self).viewport,
            final(self).light == old(self).light,
            final(self).camera_pos == old(self).camera_pos,
    {
        let ghost v0 = self.framebuffer@;
        let vertex_shader = DefaultVertexShader;
        let clipper = SimpleClipper;
        let mut i: usize = 0;
        while i < triangles.len()
            invariant
                self.wf(),
                self.viewport == old(self).viewport,
                self.light == old(self).light,
                self.camera_pos == old(self).camera_pos,
                0 <= i <= triangles@.len(),
                texture matches Some(t) ==> t.wf(),
                self.framebuffer@ == draw_all(
                    v0,
                    triangles@.subrange(0, i as int),
                    *uniforms,
                    self.viewport,
                    self.camera_pos,
                    texture,
                    *shader,
                ),
            decreases triangles.len() - i,
        {
            proof {
                assert(triangles@.subrange(0, i + 1).drop_last() =~= triangles@.subrange(0, i as int));
                assert(triangles@.subrange(0, i + 1).last() == triangles@[i as int]);
            }
            render_triangle(
                &mut self.framebuffer,
                &self.viewport,
                &triangles[i],
                uniforms,
                &vertex_shader,
                &clipper,
                texture,
                shader,
                self.camera_pos,
            );
            i = i + 1;
        }
        proof {
            assert(triangles@.subrange(0, triangles@.len() as int) =~= triangles@);
        }
    }
    /// Outlines depth discontinuities: Sobel on the depth buffer, edges above `threshold`
    /// stamped with `line_width` squares of the outline colour.
    pub fn draw_depth_outline_sobel(&mut self, threshold: i32, line_width: usize)
        requires
            old(self).wf(),
        ensures
            final(self).wf(),
            final(self).framebuffer.width == old(self).framebuffer.width,
            final(self).framebuffer.height == old(self).framebuffer.height,
            final(self).framebuffer.depth@ == old(self).framebuffer.depth@,
            forall|px: int, py: int|
                0 <= px < old(self).framebuffer.width && 0 <= py < old(self).framebuffer.height
                    ==> final(self).framebuffer.data@[py * old(self).framebuffer.width + px]
                    == post_effect::outline_result(
                    old(self).framebuffer@,
                    true,
                    threshold as int,
                    line_width as int,
                    px,
                    py,
                ),
    {
        post_effect::draw_outline(&mut self.framebuffer, true, threshold, line_width);
    }

    /// Outlines colour discontinuities: Sobel on each colour channel, the largest
    /// magnitude compared with `threshold`, edges stamped with `line_width` squares.
    pub fn draw_color_outline_sobel(&mut self, threshold: i32, line_width: usize)
        requires
            old(self).wf(),
        ensures
            final(self).wf(),
            final(self).framebuffer.width == old(self).framebuffer.width,
            final(self).framebuffer.height == old(self).framebuffer.height,
            final(self).framebuffer.depth@ == old(self).framebuffer.depth@,
            forall|px: int, py: int|
                0 <= px < old(self).framebuffer.width && 0 <= py < old(self).framebuffer.height
                    ==> final(self).framebuffer.data@[py * old(self).framebuffer.width + px]
                    == post_effect::outline_result(
                    old(self).framebuffer@,
                    false,
                    threshold as int,
                    line_width as int,
                    px,
                    py,
                ),
    {
        post_effect::draw_outline(&mut self.framebuffer, false, threshold, line_width);
    }
}

} // verus!
