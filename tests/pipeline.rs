use soft_raster::framebuffer::FrameBuffer;
use soft_raster::math::{HALF, ONE};
use soft_raster::rasterizer::{get_barycentric_coords, get_box, interpolate_depth, is_inside_triangle, NO_DEPTH};
use soft_raster::renderer::clip::{Clipper, SimpleClipper};
use soft_raster::renderer::fragment_shader::NormalDebugShader;
use soft_raster::renderer::vertex_shader::{DefaultVertexShader, VertexShader, VertexShaderUniforms};
use soft_raster::renderer::{render_triangle, viewport_transform, Renderer, Viewport};
use soft_raster::vector::{Mat4, Vec2, Vec3, Vec4};
use soft_raster::vertex::{ClipSpaceVertex, ColoredVertex, Material, RasterPoint, RasterTriangle, Triangle};

fn px(v: i32) -> i32 {
    v * ONE
}

fn point(x: i32, y: i32, z: i32, normal: Vec3, color: Vec3) -> RasterPoint {
    RasterPoint {
        pos: Vec2::new(px(x), px(y)),
        world_pos: Vec3::zero(),
        color,
        normal,
        z,
        uv: Vec2::new(0, 0),
    }
}

fn flat_triangle(a: (i32, i32), b: (i32, i32), c: (i32, i32), z: i32, color: Vec3) -> RasterTriangle {
    let n = Vec3::new(0, 0, ONE);
    RasterTriangle {
        vertices: [point(a.0, a.1, z, n, color), point(b.0, b.1, z, n, color), point(c.0, c.1, z, n, color)],
        material: Material::plastic(),
    }
}

fn tilted_triangle(z: i32, normal: Vec3) -> RasterTriangle {
    let c = Vec3::zero();
    RasterTriangle {
        vertices: [point(0, 0, z, normal, c), point(8, 0, z, normal, c), point(0, 8, z, normal, c)],
        material: Material::plastic(),
    }
}

#[test]
fn barycentric_inside_weights_sum_to_total() {
    let v = [Vec2::new(0, 0), Vec2::new(px(10), 0), Vec2::new(0, px(10))];
    let p = Vec2::new(px(2), px(3));
    assert!(is_inside_triangle(&v, &p));
    let b = get_barycentric_coords(&v, &p).unwrap();
    assert_eq!(b.w0 + b.w1 + b.w2, b.total);
    assert!(b.w0 >= 0 && b.w1 >= 0 && b.w2 >= 0);
    // p = 0.5 * v0 + 0.2 * v1 + 0.3 * v2
    assert_eq!(b.w0 * 10, b.total * 5);
    assert_eq!(b.w1 * 10, b.total * 2);
    assert_eq!(b.w2 * 10, b.total * 3);
}

#[test]
fn barycentric_outside_has_negative_weight() {
    let v = [Vec2::new(0, 0), Vec2::new(0, px(10)), Vec2::new(px(10), 0)];
    let p = Vec2::new(px(8), px(8));
    assert!(!is_inside_triangle(&v, &p));
    let b = get_barycentric_coords(&v, &p).unwrap();
    assert!(b.total > 0);
    assert!(b.w0 < 0 || b.w1 < 0 || b.w2 < 0);
}

#[test]
fn barycentric_of_collinear_points_is_none() {
    let v = [Vec2::new(0, 0), Vec2::new(px(5), px(5)), Vec2::new(px(10), px(10))];
    assert!(get_barycentric_coords(&v, &Vec2::new(px(1), px(1))).is_none());
}

#[test]
fn box_rounds_outward() {
    let v = [Vec2::new(ONE / 2, -ONE / 2), Vec2::new(px(3) + 1, px(2)), Vec2::new(px(1), px(4) - 1)];
    assert_eq!(get_box(&v), (0, -1, 4, 4));
}

#[test]
fn depth_interpolates_reciprocals() {
    let n = Vec3::new(0, 0, ONE);
    let c = Vec3::zero();
    let points = [point(0, 0, ONE / 4, n, c), point(10, 0, ONE / 2, n, c), point(0, 10, ONE / 2, n, c)];
    let v = [points[0].pos, points[1].pos, points[2].pos];
    let b = get_barycentric_coords(&v, &Vec2::new(px(5), 0)).unwrap();
    // halfway between depths 1/4 and 1/2 in 1/z is 1/3
    assert_eq!(interpolate_depth(&points, &b), 21845);
}

#[test]
fn depth_beyond_far_plane_still_interpolates_reciprocals() {
    let n = Vec3::new(0, 0, ONE);
    let c = Vec3::zero();
    let points = [point(0, 0, 2 * ONE, n, c), point(10, 0, HALF, n, c), point(0, 10, HALF, n, c)];
    let v = [points[0].pos, points[1].pos, points[2].pos];
    let b = get_barycentric_coords(&v, &Vec2::new(px(5), 0)).unwrap();
    // 1 / ((1/2 + 2) / 2) = 0.8
    assert_eq!(interpolate_depth(&points, &b), 52428);
    let same = [point(0, 0, 40000, n, c), point(10, 0, 40000, n, c), point(0, 10, 40000, n, c)];
    assert_eq!(interpolate_depth(&same, &b), 40000);
}

#[test]
fn vertex_at_eye_has_no_depth() {
    let n = Vec3::new(0, 0, ONE);
    let c = Vec3::zero();
    let points = [point(0, 0, 0, n, c), point(10, 0, HALF, n, c), point(0, 10, HALF, n, c)];
    let v = [points[0].pos, points[1].pos, points[2].pos];
    let b = get_barycentric_coords(&v, &Vec2::new(px(2), px(2))).unwrap();
    assert_eq!(interpolate_depth(&points, &b), NO_DEPTH);
    let mut fb = FrameBuffer::new(12, 12);
    let t = RasterTriangle { vertices: points, material: Material::plastic() };
    Renderer::rasterize_triangle(&mut fb, &t, None, &NormalDebugShader, Vec3::zero());
    assert!(fb.depth.iter().all(|d| *d == ONE));
}

#[test]
fn depth_test_keeps_nearer_write() {
    let mut fb = FrameBuffer::new(4, 4);
    let red = Vec4::new(ONE, 0, 0, ONE);
    let blue = Vec4::new(0, 0, ONE, ONE);
    fb.put_pixel(1, 2, red, HALF);
    fb.put_pixel(1, 2, blue, HALF);
    fb.put_pixel(1, 2, blue, HALF + 1);
    assert_eq!(fb.data[2 * 4 + 1], red);
    assert_eq!(fb.depth[2 * 4 + 1], HALF);
    fb.put_pixel(1, 2, blue, HALF - 1);
    assert_eq!(fb.data[2 * 4 + 1], blue);
    assert_eq!(fb.depth[2 * 4 + 1], HALF - 1);
}

#[test]
fn depth_out_of_range_or_off_buffer_is_rejected() {
    let mut fb = FrameBuffer::new(2, 2);
    let red = Vec4::new(ONE, 0, 0, ONE);
    fb.put_pixel(0, 0, red, -1);
    fb.put_pixel(5, 0, red, 0);
    fb.put_pixel(1, 1, red, ONE);
    for i in 0..4 {
        assert_eq!(fb.data[i], Vec4::new(0, 0, 0, 0));
        assert_eq!(fb.depth[i], ONE);
    }
}

#[test]
fn clear_resets_color_and_depth() {
    let mut fb = FrameBuffer::new(3, 2);
    fb.put_pixel(1, 1, Vec4::new(1, 2, 3, 4), 10);
    let c = Vec4::new(7, 8, 9, ONE);
    fb.clear(c);
    assert!(fb.data.iter().all(|p| *p == c));
    assert!(fb.depth.iter().all(|d| *d == ONE));
}

#[test]
fn ssaa_of_uniform_buffer_is_uniform() {
    let c = Vec4::new(12345, 777, ONE, HALF);
    let mut fb = FrameBuffer::new(7, 5);
    fb.clear(c);
    for f in 1..=5usize {
        let small = fb.ssaa(f);
        assert_eq!(small.width, 7 / f);
        assert_eq!(small.height, 5 / f);
        assert!(small.data.iter().all(|p| *p == c));
    }
}

#[test]
fn ssaa_averages_each_block() {
    let mut fb = FrameBuffer::new(4, 2);
    let values = [0, 4, 8, 12, 1, 3, 5, 7];
    for (i, v) in values.iter().enumerate() {
        fb.data[i] = Vec4::new(*v, -*v, 0, ONE);
    }
    let small = fb.ssaa(2);
    assert_eq!(small.width, 2);
    assert_eq!(small.height, 1);
    // (0 + 4 + 1 + 3) / 4 = 2, (8 + 12 + 5 + 7) / 4 = 8
    assert_eq!(small.data[0], Vec4::new(2, -2, 0, ONE));
    assert_eq!(small.data[1], Vec4::new(8, -8, 0, ONE));
    assert!(small.depth.iter().all(|d| *d == ONE));
}

#[test]
fn ssaa_rounds_down() {
    let mut fb = FrameBuffer::new(2, 1);
    fb.data[0] = Vec4::new(1, -1, 0, 0);
    fb.data[1] = Vec4::new(2, -2, 0, 0);
    let small = fb.ssaa(2);
    assert_eq!(small.width, 1);
    assert_eq!(small.height, 0);
    let mut tall = FrameBuffer::new(2, 2);
    tall.data[0] = Vec4::new(1, -1, 0, 0);
    tall.data[1] = Vec4::new(2, -2, 0, 0);
    let s = tall.ssaa(2);
    assert_eq!(s.data[0], Vec4::new(0, -1, 0, 0));
}

#[test]
fn ssaa_by_one_copies() {
    let mut fb = FrameBuffer::new(3, 3);
    fb.put_pixel(2, 1, Vec4::new(5, 6, 7, 8), 100);
    let copy = fb.ssaa(1);
    assert_eq!(copy.data, fb.data);
    assert_eq!(copy.depth, fb.depth);
}

#[test]
fn normal_debug_triangle_scenario() {
    let mut fb = FrameBuffer::new(16, 16);
    let t = flat_triangle((0, 0), (10, 0), (0, 10), HALF, Vec3::zero());
    Renderer::rasterize_triangle(&mut fb, &t, None, &NormalDebugShader, Vec3::zero());
    let expected = Vec4::new(HALF, HALF, ONE, ONE);
    let mut covered = 0;
    for y in 0..16usize {
        for x in 0..16usize {
            let i = y * 16 + x;
            // pixel centre (x + 0.5, y + 0.5) inside x + y <= 10
            if 2 * (x + y) + 2 <= 20 {
                covered += 1;
                assert_eq!(fb.data[i], expected);
                assert_eq!(fb.depth[i], HALF);
            } else {
                assert_eq!(fb.data[i], Vec4::new(0, 0, 0, 0));
                assert_eq!(fb.depth[i], ONE);
            }
        }
    }
    assert_eq!(covered, 55);
}

#[test]
fn overlapping_triangles_nearer_wins_in_either_order() {
    let near = tilted_triangle(13107, Vec3::new(ONE, 0, 0));
    let far = tilted_triangle(52429, Vec3::new(0, ONE, 0));
    let shader = NormalDebugShader;
    let mut a = FrameBuffer::new(8, 8);
    Renderer::rasterize_triangle(&mut a, &near, None, &shader, Vec3::zero());
    Renderer::rasterize_triangle(&mut a, &far, None, &shader, Vec3::zero());
    let mut b = FrameBuffer::new(8, 8);
    Renderer::rasterize_triangle(&mut b, &far, None, &shader, Vec3::zero());
    Renderer::rasterize_triangle(&mut b, &near, None, &shader, Vec3::zero());
    assert_eq!(a.data, b.data);
    assert_eq!(a.depth, b.depth);
    assert_eq!(a.data[8 + 1], Vec4::new(ONE, HALF, HALF, ONE));
    assert_eq!(a.depth[8 + 1], 13107);
}

#[test]
fn collinear_triangle_writes_nothing() {
    let mut fb = FrameBuffer::new(8, 8);
    let t = flat_triangle((0, 0), (4, 4), (8, 8), HALF, Vec3::zero());
    Renderer::rasterize_triangle(&mut fb, &t, None, &NormalDebugShader, Vec3::zero());
    assert!(fb.depth.iter().all(|d| *d == ONE));
    assert!(fb.data.iter().all(|p| *p == Vec4::new(0, 0, 0, 0)));
}

#[test]
fn clockwise_and_counter_clockwise_cover_the_same_pixels() {
    let mut a = FrameBuffer::new(12, 12);
    let mut b = FrameBuffer::new(12, 12);
    let t1 = flat_triangle((1, 1), (11, 2), (3, 10), HALF, Vec3::zero());
    let t2 = flat_triangle((1, 1), (3, 10), (11, 2), HALF, Vec3::zero());
    Renderer::rasterize_triangle(&mut a, &t1, None, &NormalDebugShader, Vec3::zero());
    Renderer::rasterize_triangle(&mut b, &t2, None, &NormalDebugShader, Vec3::zero());
    assert_eq!(a.depth, b.depth);
    assert!(a.depth.iter().any(|d| *d == HALF));
}

fn clip_vertex(w: i32) -> ClipSpaceVertex {
    ClipSpaceVertex {
        position: Vec4::new(0, 0, 0, w),
        world_pos: Vec3::zero(),
        normal: Vec3::zero(),
        uv: Vec2::new(0, 0),
        color: Vec3::zero(),
    }
}

#[test]
fn clipper_rejects_triangle_behind_camera() {
    let t = [clip_vertex(-1), clip_vertex(-ONE), clip_vertex(-5)];
    assert!(SimpleClipper.clip_triangle(&t).is_empty());
}

#[test]
fn clipper_keeps_partly_visible_triangle() {
    let t = [clip_vertex(-1), clip_vertex(ONE), clip_vertex(-5)];
    let r = SimpleClipper.clip_triangle(&t);
    assert_eq!(r.len(), 1);
    assert_eq!(r[0], t);
}

#[test]
fn viewport_maps_ndc_to_pixels() {
    let vp = Viewport { x: 0, y: 0, w: 100, h: 50 };
    let mut a = clip_vertex(2 * ONE);
    a.position = Vec4::new(-2 * ONE, 2 * ONE, 0, 2 * ONE);
    let mut b = clip_vertex(ONE);
    b.position = Vec4::new(ONE, -ONE, ONE, ONE);
    let mut c = clip_vertex(ONE);
    c.position = Vec4::new(0, 0, -ONE, ONE);
    let r = viewport_transform(&vp, &[a, b, c], Material::wood()).unwrap();
    assert_eq!(r.vertices[0].pos, Vec2::new(0, 0));
    assert_eq!(r.vertices[0].z, HALF);
    assert_eq!(r.vertices[1].pos, Vec2::new(100 * ONE, 50 * ONE));
    assert_eq!(r.vertices[1].z, ONE);
    assert_eq!(r.vertices[2].pos, Vec2::new(50 * ONE, 25 * ONE));
    assert_eq!(r.vertices[2].z, 0);
    assert!(viewport_transform(&vp, &[a, b, clip_vertex(0)], Material::wood()).is_none());
}

fn scaled_identity(s: i32) -> Mat4 {
    Mat4 {
        r0: Vec4::new(s, 0, 0, 0),
        r1: Vec4::new(0, s, 0, 0),
        r2: Vec4::new(0, 0, s, 0),
        r3: Vec4::new(0, 0, 0, ONE),
    }
}

fn vertex(x: i32, y: i32, z: i32) -> ColoredVertex {
    ColoredVertex {
        pos: Vec3::new(x, y, z),
        color: Vec3::new(ONE, ONE, ONE),
        normal: Vec3::new(0, 0, 2 * ONE),
        uv: Vec2::new(0, 0),
    }
}

#[test]
fn vertex_shader_applies_matrices() {
    let t = Triangle::new(vertex(ONE, 0, 0), vertex(0, ONE, 0), vertex(0, 0, ONE), &Material::metal());
    let u = VertexShaderUniforms {
        model_matrix: scaled_identity(2 * ONE),
        mvp_matrix: scaled_identity(3 * ONE),
        normal_matrix: Mat4::identity(),
    };
    let out = DefaultVertexShader.shade_triangle(&t, &u);
    assert_eq!(out[0].position, Vec4::new(3 * ONE, 0, 0, ONE));
    assert_eq!(out[1].world_pos, Vec3::new(0, 2 * ONE, 0));
    assert_eq!(out[2].normal, Vec3::new(0, 0, ONE));
    assert_eq!(out[2].color, Vec3::new(ONE, ONE, ONE));
}

fn facing_triangle(normal_z: i32) -> Triangle {
    // screen-filling triangle in the plane z = 0; the camera looks from +z
    let a = vertex(-ONE, -ONE, 0);
    let b = vertex(ONE, -ONE, 0);
    let c = vertex(-ONE, ONE, 0);
    let mut t = Triangle::new(a, b, c, &Material::plastic());
    t.normal = Vec3::new(0, 0, normal_z);
    t
}

#[test]
fn backfacing_triangle_writes_nothing() {
    let u = VertexShaderUniforms {
        model_matrix: Mat4::identity(),
        mvp_matrix: Mat4::identity(),
        normal_matrix: Mat4::identity(),
    };
    let vp = Viewport { x: 0, y: 0, w: 8, h: 8 };
    let eye = Vec3::new(0, 0, 5 * ONE);
    let mut fb = FrameBuffer::new(8, 8);
    let back = facing_triangle(-ONE);
    assert!(back.is_backface_world_space(eye, &u.model_matrix, &u.normal_matrix));
    render_triangle(&mut fb, &vp, &back, &u, &DefaultVertexShader, &SimpleClipper, None, &NormalDebugShader, eye);
    assert!(fb.depth.iter().all(|d| *d == ONE));
    let front = facing_triangle(ONE);
    assert!(!front.is_backface_world_space(eye, &u.model_matrix, &u.normal_matrix));
    render_triangle(&mut fb, &vp, &front, &u, &DefaultVertexShader, &SimpleClipper, None, &NormalDebugShader, eye);
    assert_eq!(fb.depth[0], HALF);
    // NDC y grows upwards, so the triangle covers the lower-left half of the screen
    assert_eq!(fb.data[7], Vec4::new(0, 0, 0, 0));
    assert_eq!(fb.data[7 * 8], Vec4::new(HALF, HALF, ONE, ONE));
}
