use soft_raster::math::{floor_div, fx_mul, isqrt, HALF, ONE};
use soft_raster::renderer::fragment_shader::{
    FragmentData, FragmentShader, InkShader, NormalDebugShader, PhongShader, ToonShader,
};
use soft_raster::renderer::Light;
use soft_raster::texture::Texture;
use soft_raster::vector::{Mat4, Vec2, Vec3, Vec4};
use soft_raster::vertex::{ColoredVertex, Material, Triangle};

fn grey(v: i32) -> Vec3 {
    Vec3::new(v, v, v)
}

/// White light shining along -z, no ambient light.
fn light() -> Light {
    Light {
        direction: Vec3::new(0, 0, -ONE),
        color: grey(ONE),
        intensity: ONE,
        ambient_strength: 0,
        ambient_color: grey(0),
    }
}

fn matte() -> Material {
    Material { ambient: grey(0), diffuse: grey(ONE), specular: grey(0), specular_strength: 0, shininess: 1 }
}

fn glossy(strength: i32) -> Material {
    Material { ambient: grey(0), diffuse: grey(ONE), specular: grey(ONE), specular_strength: strength, shininess: 2 }
}

fn fragment(normal: Vec3, color: Vec3, material: Material) -> FragmentData {
    FragmentData {
        world_pos: Vec3::zero(),
        normal,
        uv: Vec2::new(0, 0),
        color,
        material,
        camera_pos: Vec3::new(0, 0, 10 * ONE),
        x: 3,
        y: 4,
    }
}

#[test]
fn fixed_point_basics() {
    assert_eq!(floor_div(-7, 2), -4);
    assert_eq!(floor_div(7, 2), 3);
    assert_eq!(fx_mul(-HALF, HALF), -16384);
    assert_eq!(fx_mul(i32::MAX, 2 * ONE), i32::MAX);
    assert_eq!(fx_mul(i32::MIN, 2 * ONE), i32::MIN);
    assert_eq!(isqrt(0), 0);
    assert_eq!(isqrt(10), 3);
    assert_eq!(isqrt(16), 4);
}

#[test]
fn vector_operations() {
    let a = Vec3::new(3 * ONE, 4 * ONE, 0);
    assert_eq!(a.normalize(), Vec3::new(39321, 52428, 0));
    assert_eq!(a.neg().normalize(), Vec3::new(-39321, -52428, 0));
    assert_eq!(Vec3::zero().normalize(), Vec3::zero());
    let x = Vec3::new(ONE, 0, 0);
    let y = Vec3::new(0, ONE, 0);
    assert_eq!(x.cross(&y), Vec3::new(0, 0, ONE));
    assert_eq!(Vec3::new(ONE, 2 * ONE, 3 * ONE).dot(&Vec3::new(4 * ONE, 5 * ONE, 6 * ONE)), 32 * ONE);
    assert_eq!(x.add(&y).sub(&x), y);
    assert_eq!(grey(HALF).mul_element_wise(&grey(HALF)), grey(16384));
    let v = Vec4::new(1, 2, 3, 4);
    assert_eq!(Mat4::identity().mul_vec(&v), v);
    assert_eq!(Mat4::identity().mul_vec(&Vec4::new(ONE, 2 * ONE, 3 * ONE, ONE)), Vec4::new(ONE, 2 * ONE, 3 * ONE, ONE));
    assert_eq!(v.truncate(), Vec3::new(1, 2, 3));
}

#[test]
fn triangle_normal_and_center() {
    let v = |x: i32, y: i32| ColoredVertex { pos: Vec3::new(x, y, 0), ..ColoredVertex::zero() };
    let t = Triangle::new(v(0, 0), v(ONE, 0), v(0, ONE), &Material::wood());
    assert_eq!(t.normal, Vec3::new(0, 0, ONE));
    assert_eq!(t.get_normal(), Vec3::new(0, 0, ONE));
    assert_eq!(t.get_center(), Vec3::new(21845, 21845, 0));
    let flipped = Triangle::new(v(0, 0), v(0, ONE), v(ONE, 0), &Material::wood());
    assert_eq!(flipped.normal, Vec3::new(0, 0, -ONE));
    assert_eq!(ColoredVertex::default().normal, Vec3::new(0, ONE, 0));
}

#[test]
fn material_presets() {
    let m = Material::metal();
    assert_eq!(m.ambient, grey(13107));
    assert_eq!(m.specular, grey(ONE));
    assert_eq!(m.shininess, 128);
    assert_eq!(Material::plastic().diffuse, grey(HALF));
    assert_eq!(Material::wood().ambient, Vec3::new(19661, 13107, 6554));
}

#[test]
fn light_defaults_and_setting() {
    let mut l = Light::default();
    assert_eq!(l.direction, Vec3::new(63956, -12791, -6396));
    assert_eq!(l.ambient_strength, HALF);
    l.set_light([ONE, 0, 0], [0, -2 * ONE, 0]);
    assert_eq!(l.color, Vec3::new(ONE, 0, 0));
    assert_eq!(l.direction, Vec3::new(0, -ONE, 0));
    assert_eq!(l.intensity, ONE);
}

#[test]
fn normal_debug_maps_normal_to_color() {
    let s = NormalDebugShader;
    assert_eq!(s.shade(&fragment(Vec3::new(0, 0, ONE), grey(0), matte()), None), Vec3::new(HALF, HALF, ONE));
    assert_eq!(s.shade(&fragment(Vec3::new(-ONE, 0, 0), grey(0), matte()), None), Vec3::new(0, HALF, HALF));
}

#[test]
fn toon_bands_diffuse_light() {
    let s = ToonShader { light: light() };
    // facing the light: factor 1.1 on a base of 0.5
    assert_eq!(s.shade(&fragment(Vec3::new(0, 0, ONE), grey(HALF), matte()), None), grey(36045));
    // edge-on: factor 0.5
    assert_eq!(s.shade(&fragment(Vec3::new(ONE, 0, 0), grey(HALF), matte()), None), grey(16384));
    // highlight adds the specular term before clamping
    assert_eq!(s.shade(&fragment(Vec3::new(0, 0, ONE), grey(16384), glossy(ONE)), None), grey(34406));
    assert_eq!(s.shade(&fragment(Vec3::new(0, 0, ONE), grey(16384), glossy(19661)), None), grey(22937));
    assert_eq!(s.shade(&fragment(Vec3::new(0, 0, ONE), grey(ONE), glossy(ONE)), None), grey(ONE));
}

#[test]
fn phong_quantizes_highlight() {
    let s = PhongShader { light: light() };
    assert_eq!(s.shade(&fragment(Vec3::new(0, 0, ONE), grey(HALF), matte()), None), grey(HALF));
    assert_eq!(s.shade(&fragment(Vec3::new(ONE, 0, 0), grey(HALF), matte()), None), grey(0));
    // highlight 0.3 is cut down to 1/6
    assert_eq!(s.shade(&fragment(Vec3::new(0, 0, ONE), grey(16384), glossy(19661)), None), grey(19114));
}

#[test]
fn ink_shades_in_grey_with_speckle() {
    let s = InkShader { light: light(), seed: 7 };
    let lit = fragment(Vec3::new(0, 0, ONE), Vec3::new(ONE, 0, 0), matte());
    assert_eq!(s.shade_with_roll(&lit, None, 50), grey(21554));
    assert_eq!(s.shade_with_roll(&lit, None, 0), grey(21554));
    assert_eq!(s.shade_with_roll(&lit, None, 10), grey(43108));
    let dark = fragment(Vec3::new(ONE, 0, 0), Vec3::new(ONE, 0, 0), matte());
    assert_eq!(s.shade_with_roll(&dark, None, 50), grey(979));
    assert_eq!(s.shade_with_roll(&dark, None, 1), grey(97));
    let c = s.shade(&lit, None);
    assert!(c == grey(21554) || c == grey(43108));
    assert_eq!(s.shade(&lit, None), c);
}

#[test]
fn ink_shader_with_fresh_seed_keeps_light() {
    let s = InkShader::new(light());
    assert_eq!(s.light, light());
    let c = s.shade(&fragment(Vec3::new(0, 0, ONE), grey(ONE), matte()), None);
    assert!(0 <= c.x && c.x <= ONE);
    assert_eq!(c.x, c.y);
}

#[test]
fn texture_packs_and_samples() {
    let bytes = vec![255, 0, 0, 255, 0, 255, 0, 255, 0, 0, 255, 255, 255, 255, 255, 0];
    let t = Texture::from_rgba8(2, 2, &bytes).unwrap();
    assert_eq!(t.data, vec![0xFF00_00FF, 0x00FF_00FF, 0x0000_FFFF, 0xFFFF_FF00]);
    // v = 0 is the bottom row
    assert_eq!(t.sample(Vec2::new(0, 0)), Vec3::new(0, 0, ONE));
    assert_eq!(t.sample(Vec2::new(HALF, 0)), Vec3::new(ONE, ONE, ONE));
    assert_eq!(t.sample(Vec2::new(0, 49152)), Vec3::new(ONE, 0, 0));
    // coordinates wrap by their fractional part
    assert_eq!(t.sample(Vec2::new(3 * ONE + HALF, 49152)), Vec3::new(0, ONE, 0));
    assert_eq!(t.sample(Vec2::new(-HALF, 49152)), Vec3::new(0, ONE, 0));
    assert!(Texture::from_rgba8(2, 2, &bytes[..12].to_vec()).is_none());
    assert!(Texture::from_rgba8(3, 1, &bytes[..8].to_vec()).is_none());
    let white = Texture::new(2, 3);
    assert_eq!(white.data.len(), 6);
    assert_eq!(white.sample(Vec2::new(HALF, HALF)), grey(ONE));
}

#[test]
fn textured_toon_uses_texture_color() {
    let t = Texture::from_rgba8(1, 1, &vec![128, 0, 255, 255]).unwrap();
    let s = ToonShader { light: light() };
    let f = fragment(Vec3::new(0, 0, ONE), grey(0), matte());
    // 128 / 255 of full scale, times 1.1
    assert_eq!(s.shade(&f, Some(&t)), Vec3::new(36185, 0, ONE));
}
