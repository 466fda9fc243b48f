use soft_raster::framebuffer::FrameBuffer;
use soft_raster::math::{HALF, ONE};
use soft_raster::mesh::{build_mesh, create_floor, vertex_normals};
use soft_raster::renderer::clip::SimpleClipper;
use soft_raster::renderer::fragment_shader::NormalDebugShader;
use soft_raster::renderer::post_effect::{apply_band_row, apply_jitter_row, draw_outline, glitch_effect, Jitter, PixelTweak};
use soft_raster::renderer::vertex_shader::{DefaultVertexShader, VertexShaderUniforms};
use soft_raster::renderer::{prepare_triangle, render_triangle, Renderer};
use soft_raster::vector::{Mat4, Vec2, Vec3, Vec4};
use soft_raster::vertex::{ColoredVertex, Material, Triangle};

const BLACK: Vec4 = Vec4 { x: 0, y: 0, z: 0, w: ONE };

/// Left half at depth 0.2 with one colour, right half either at depth 0.8 with another
/// colour or left as background.
fn split_buffer(right_drawn: bool) -> FrameBuffer {
    let mut fb = FrameBuffer::new(8, 8);
    for y in 0..8 {
        for x in 0..8 {
            if x < 4 {
                fb.put_pixel(x, y, Vec4::new(ONE, 0, 0, ONE), 13107);
            } else if right_drawn {
                fb.put_pixel(x, y, Vec4::new(0, 0, ONE, ONE), 52429);
            }
        }
    }
    fb
}

#[test]
fn depth_outline_marks_depth_steps() {
    let mut fb = split_buffer(true);
    let before = fb.clone();
    draw_outline(&mut fb, true, 6554, 1);
    for y in 0..8 {
        for x in 0..8 {
            let i = y * 8 + x;
            let edge = (x == 3 || x == 4) && (1..7).contains(&y);
            assert_eq!(fb.data[i], if edge { BLACK } else { before.data[i] }, "pixel {} {}", x, y);
        }
    }
    assert_eq!(fb.depth, before.depth);
}

#[test]
fn outline_skips_background_and_stamps_squares() {
    let mut fb = split_buffer(false);
    let before = fb.clone();
    draw_outline(&mut fb, true, 6554, 2);
    for y in 0..8 {
        for x in 0..8 {
            let i = y * 8 + x;
            // edges: column 3 in rows 2..6 (border 2); each stamps a 2 x 2 square
            let edge = (3..5).contains(&x) && (2..7).contains(&y);
            assert_eq!(fb.data[i], if edge { BLACK } else { before.data[i] }, "pixel {} {}", x, y);
        }
    }
}

#[test]
fn color_outline_uses_channel_gradients() {
    let mut fb = split_buffer(true);
    let before = fb.clone();
    draw_outline(&mut fb, false, 39322, 1);
    assert_eq!(fb.data[3 * 8 + 3], BLACK);
    assert_eq!(fb.data[3 * 8 + 4], BLACK);
    assert_eq!(fb.data[3 * 8 + 1], before.data[3 * 8 + 1]);
    // no gradient is large enough for a threshold of 5.0
    let mut calm = split_buffer(true);
    draw_outline(&mut calm, false, 5 * ONE, 1);
    assert_eq!(calm.data, before.data);
}

#[test]
fn renderer_outline_methods_match_the_filter() {
    let mut r = Renderer::new(Vec3::zero(), 8, 8);
    r.framebuffer = split_buffer(true);
    let mut expected = split_buffer(true);
    draw_outline(&mut expected, true, 6554, 1);
    r.draw_depth_outline_sobel(6554, 1);
    assert_eq!(r.framebuffer.data, expected.data);
    let mut expected2 = expected.clone();
    draw_outline(&mut expected2, false, 39322, 1);
    r.draw_color_outline_sobel(39322, 1);
    assert_eq!(r.framebuffer.data, expected2.data);
}

#[test]
fn glitch_only_moves_and_recolours_pixels() {
    let c = Vec4::new(ONE, HALF, 0, ONE);
    let variants = [
        c,
        Vec4::new(0, HALF, ONE, ONE),
        Vec4::new(HALF, ONE, 0, ONE),
        Vec4::new(0, HALF, ONE, ONE),
        Vec4::new(ONE, 0, HALF, ONE),
    ];
    let mut fb = FrameBuffer::new(64, 32);
    fb.clear(c);
    for _ in 0..5 {
        glitch_effect(&mut fb);
    }
    assert_eq!(fb.data.len(), 64 * 32);
    assert!(fb.depth.iter().all(|d| *d == ONE));
    let mut one_pass = FrameBuffer::new(64, 32);
    one_pass.clear(c);
    glitch_effect(&mut one_pass);
    assert!(one_pass.data.iter().all(|p| variants.contains(p)));
    let mut empty = FrameBuffer::new(0, 0);
    glitch_effect(&mut empty);
    assert!(empty.data.is_empty());
}

#[test]
fn rgba_bytes_round_and_clamp() {
    let mut fb = FrameBuffer::new(2, 1);
    fb.data[0] = Vec4::new(ONE, HALF, 0, -5);
    fb.data[1] = Vec4::new(2 * ONE, 1, 255, ONE);
    assert_eq!(fb.to_rgba8(), vec![255, 128, 0, 0, 255, 0, 1, 255]);
}

#[test]
fn depth_bytes_are_bright_when_near() {
    let mut fb = FrameBuffer::new(3, 1);
    fb.put_pixel(0, 0, Vec4::new(0, 0, 0, 0), 0);
    fb.put_pixel(1, 0, Vec4::new(0, 0, 0, 0), HALF);
    assert_eq!(fb.depth_to_gray8(), vec![255, 127, 0]);
}

#[test]
fn vertex_normals_average_faces() {
    let positions = vec![
        Vec3::new(0, 0, 0),
        Vec3::new(ONE, 0, 0),
        Vec3::new(ONE, ONE, 0),
        Vec3::new(0, ONE, 0),
        Vec3::new(0, 0, ONE),
        Vec3::new(9, 9, 9),
    ];
    let faces = vec![[0, 1, 2], [0, 2, 3], [0, 4, 1]];
    let n = vertex_normals(&positions, &faces);
    assert_eq!(n[2], Vec3::new(0, 0, ONE));
    assert_eq!(n[4], Vec3::new(0, ONE, 0));
    // vertex 0 sums (0, 0, 2) and (0, 1, 0)
    assert_eq!(n[0], Vec3::new(0, 29308, 58617));
    assert_eq!(n[5], Vec3::zero());
    let mesh = build_mesh(&positions, &faces, &Material::plastic());
    assert_eq!(mesh.len(), 3);
    assert_eq!(mesh[1].vertices[2].pos, positions[3]);
    assert_eq!(mesh[1].vertices[0].normal, n[0]);
    assert_eq!(mesh[1].vertices[0].color, Vec3::new(52429, 52429, 52429));
    assert_eq!(mesh[2].normal, Vec3::new(0, ONE, 0));
}

#[test]
fn floor_is_a_checkerboard() {
    let floor = create_floor();
    assert_eq!(floor.len(), 200);
    let first = floor[0];
    assert_eq!(first.vertices[0].pos, Vec3::new(-20 * ONE, -3 * ONE, -20 * ONE));
    assert_eq!(first.vertices[1].pos, Vec3::new(-16 * ONE, -3 * ONE, -16 * ONE));
    assert_eq!(first.vertices[2].pos, Vec3::new(-16 * ONE, -3 * ONE, -20 * ONE));
    assert_eq!(first.vertices[2].uv, Vec2::new(ONE, 0));
    // the stored normal agrees with the winding
    assert_eq!(first.get_normal(), Vec3::new(0, ONE, 0));
    assert_eq!(floor[1].get_normal(), Vec3::new(0, ONE, 0));
    assert_eq!(first.vertices[0].color, Vec3::new(HALF, HALF, HALF));
    assert_eq!(floor[1].vertices[1].pos, Vec3::new(-20 * ONE, -3 * ONE, -20 * ONE));
    assert_eq!(floor[1].vertices[2].pos, Vec3::new(-20 * ONE, -3 * ONE, -16 * ONE));
    assert_eq!(floor[2].vertices[0].color, Vec3::new(19661, 19661, 19661));
    assert_eq!(floor[199].vertices[0].pos, Vec3::new(20 * ONE, -3 * ONE, 20 * ONE));
    assert!(floor.iter().all(|t| t.normal == Vec3::new(0, ONE, 0) && t.material.shininess == 128));
}

fn vertex(x: i32, y: i32) -> ColoredVertex {
    ColoredVertex { pos: Vec3::new(x, y, 0), color: Vec3::zero(), normal: Vec3::new(0, 0, ONE), uv: Vec2::new(0, 0) }
}

#[test]
fn renderer_draws_meshes_in_order() {
    let eye = Vec3::new(0, 0, 5 * ONE);
    let mut r = Renderer::new(eye, 8, 8);
    assert_eq!(r.viewport.w, 8);
    assert!(r.framebuffer.depth.iter().all(|d| *d == ONE));
    let u = VertexShaderUniforms {
        model_matrix: Mat4::identity(),
        mvp_matrix: Mat4::identity(),
        normal_matrix: Mat4::identity(),
    };
    let tri = Triangle::new(vertex(-ONE, -ONE), vertex(ONE, -ONE), vertex(-ONE, ONE), &Material::metal());
    let flipped = Triangle::new(vertex(-ONE, -ONE), vertex(-ONE, ONE), vertex(ONE, -ONE), &Material::metal());
    r.render_colored_triangles(&vec![flipped, tri], &u, None, &NormalDebugShader);
    let mut fb = FrameBuffer::new(8, 8);
    render_triangle(&mut fb, &r.viewport, &tri, &u, &DefaultVertexShader, &SimpleClipper, None, &NormalDebugShader, eye);
    assert_eq!(r.framebuffer.data, fb.data);
    assert_eq!(r.framebuffer.depth, fb.depth);
    assert_eq!(fb.data[7 * 8], Vec4::new(HALF, HALF, ONE, ONE));
}

fn numbered(w: usize, h: usize) -> (FrameBuffer, Vec<Vec4>) {
    let mut fb = FrameBuffer::new(w, h);
    for i in 0..w * h {
        fb.data[i] = Vec4::new(i as i32, 0, ONE, ONE);
    }
    let snapshot = fb.data.clone();
    (fb, snapshot)
}

#[test]
fn band_row_shifts_and_tweaks() {
    let (mut fb, snapshot) = numbered(6, 3);
    let tweaks = vec![PixelTweak::Keep, PixelTweak::Invert, PixelTweak::Swap(1)];
    apply_band_row(&mut fb, &snapshot, 1, 2, 2, 5, false, &tweaks);
    // row 1, columns 2..5 take columns 4, 5, 5 (clamped)
    assert_eq!(fb.data[6 + 2], Vec4::new(10, 0, ONE, ONE));
    assert_eq!(fb.data[6 + 3], Vec4::new(ONE - 11, ONE, 0, ONE));
    assert_eq!(fb.data[6 + 4], Vec4::new(ONE, 0, 11, ONE));
    for i in (0..18).filter(|i| !(8..11).contains(i)) {
        assert_eq!(fb.data[i], snapshot[i]);
    }
    let (mut inv, snap2) = numbered(6, 3);
    apply_band_row(&mut inv, &snap2, 0, -3, 0, 2, true, &vec![PixelTweak::Keep, PixelTweak::Keep]);
    assert_eq!(inv.data[0], Vec4::new(ONE, ONE, 0, ONE));
    assert_eq!(inv.data[1], Vec4::new(ONE, ONE, 0, ONE));
}

#[test]
fn jitter_row_takes_nearby_pixels() {
    let (mut fb, snapshot) = numbered(4, 3);
    let jitter = vec![None, Some(Jitter { dx: -3, dy: -1 }), Some(Jitter { dx: 1, dy: 1 }), Some(Jitter { dx: 2, dy: 5 })];
    apply_jitter_row(&mut fb, &snapshot, 1, &jitter);
    assert_eq!(fb.data[4], snapshot[4]);
    assert_eq!(fb.data[5], snapshot[0]);
    assert_eq!(fb.data[6], snapshot[2 * 4 + 3]);
    assert_eq!(fb.data[7], snapshot[2 * 4 + 3]);
    assert_eq!(fb.data[0], snapshot[0]);
}

#[test]
fn prepare_culls_and_maps_to_screen() {
    let eye = Vec3::new(0, 0, 5 * ONE);
    let u = VertexShaderUniforms {
        model_matrix: Mat4::identity(),
        mvp_matrix: Mat4::identity(),
        normal_matrix: Mat4::identity(),
    };
    let vp = soft_raster::renderer::Viewport { x: 0, y: 0, w: 8, h: 8 };
    let tri = Triangle::new(vertex(-ONE, -ONE), vertex(ONE, -ONE), vertex(-ONE, ONE), &Material::metal());
    let flipped = Triangle::new(vertex(-ONE, -ONE), vertex(-ONE, ONE), vertex(ONE, -ONE), &Material::metal());
    assert!(prepare_triangle(&vp, &flipped, &u, &DefaultVertexShader, &SimpleClipper, eye).is_empty());
    let r = prepare_triangle(&vp, &tri, &u, &DefaultVertexShader, &SimpleClipper, eye);
    assert_eq!(r.len(), 1);
    assert_eq!(r[0].vertices[0].pos, Vec2::new(0, 8 * ONE));
    assert_eq!(r[0].vertices[1].pos, Vec2::new(8 * ONE, 8 * ONE));
    assert_eq!(r[0].vertices[2].pos, Vec2::new(0, 0));
    assert_eq!(r[0].vertices[0].z, HALF);
}
