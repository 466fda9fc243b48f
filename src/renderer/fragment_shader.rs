//! The fragment-shading stage: toon, Phong, ink and normal-visualisation shaders.
use vstd::prelude::*;
use crate::math::{clamp01, floor_div, fmul, fx_clamp01, fx_mul, rescale, rescale_exec, sat, saturate, ONE};
use crate::renderer::Light;
use crate::texture::Texture;
use crate::vector::{
    dot3, normalized, v3, v3_add, v3_mul, v3_neg, v3_scale, v3_sub, Vec2, Vec3,
};
use crate::vertex::Material;

verus! {

/// What a shader sees of one covered pixel: interpolated world position, normal,
/// texture coordinates and vertex colour, the material, the camera position and the
/// pixel itself.
#[derive(Clone, Copy, Debug, PartialEq, Eq, Structural)]
pub struct FragmentData {
    pub world_pos: Vec3,
    pub normal: Vec3,
    pub uv: Vec2,
    pub color: Vec3,
    pub material: Material,
    pub camera_pos: Vec3,
    pub x: u32,
    pub y: u32,
}

/// Computes the colour of a fragment, each channel in fixed point.
pub trait FragmentShader {
    spec fn shade_spec(&self, data: FragmentData, texture: Option<&Texture>) -> Vec3;

    fn shade(&self, data: &FragmentData, texture: Option<&Texture>) -> (r: Vec3)
        requires
            texture matches Some(t) ==> t.wf(),
        ensures
            r == self.shade_spec(*data, texture),
    ;
}

/// The texture colour at the fragment when there is a texture, else the vertex colour.
pub open spec fn base_color(data: FragmentData, texture: Option<&Texture>) -> Vec3 {
    match texture {
        Some(t) => t.sample_spec(data.uv),
        None => data.color,
    }
}

pub open spec fn ambient_term(l: Light) -> Vec3 {
    v3_scale(l.ambient_color, l.ambient_strength as int)
}

/// Light colour scaled by intensity.
pub open spec fn light_strength(l: Light) -> Vec3 {
    v3_scale(l.color, l.intensity as int)
}

pub open spec fn max0(v: int) -> int {
    if v > 0 {
        v
    } else {
        0
    }
}

/// Lambert factor: the normal against the direction toward the light, at least zero.
pub open spec fn diffuse_amount(l: Light, data: FragmentData) -> int {
    max0(dot3(data.normal, v3_neg(normalized(l.direction))))
}

/// `b` raised to the power `n` by repeated fixed-point multiplication.
pub open spec fn fx_pow(b: int, n: nat) -> int
    decreases n,
{
    if n == 0 {
        ONE as int
    } else {
        fmul(fx_pow(b, (n - 1) as nat), b)
    }
}

/// Blinn-Phong highlight: the normal against the half vector of light and view, raised
/// to the shininess, times light colour, material specular colour and strength.
pub open spec fn specular_term(l: Light, data: FragmentData) -> Vec3 {
    let to_light = v3_neg(normalized(l.direction));
    let view_dir = normalized(v3_sub(data.camera_pos, data.world_pos));
    let half_dir = normalized(v3_add(to_light, view_dir));
    let s = fx_pow(max0(dot3(data.normal, half_dir)), data.material.shininess as nat);
    v3_scale(
        v3_scale(v3_mul(l.color, data.material.specular), data.material.specular_strength as int),
        s,
    )
}

/// A channel rounded down to a multiple of `1 / levels`.
pub open spec fn quantize(c: int, levels: int) -> int {
    sat(((c * levels) / (ONE as int) * (ONE as int)) / levels)
}

pub open spec fn quantize_v3(v: Vec3, levels: int) -> Vec3 {
    v3(quantize(v.x as int, levels), quantize(v.y as int, levels), quantize(v.z as int, levels))
}

pub open spec fn clamp_v3(v: Vec3) -> Vec3 {
    v3(clamp01(v.x as int), clamp01(v.y as int), clamp01(v.z as int))
}

/// Base colour times the summed lighting, clamped to `[0, ONE]`.
pub open spec fn combine(base: Vec3, ambient: Vec3, diffuse: Vec3, specular: Vec3) -> Vec3 {
    clamp_v3(v3_mul(base, v3_add(v3_add(ambient, diffuse), specular)))
}

/// Toon diffuse bands: above 0.6 the factor is 1.1, above 0.2 it is 0.8, else 0.5.
pub open spec fn toon_band(d: int) -> int {
    if d > 39322 {
        72090
    } else if d > 13107 {
        52429
    } else {
        32768
    }
}

/// Ink diffuse bands: above 0.8 the factor is 1.1, above 0.3 it is 0.6, else 0.05.
pub open spec fn ink_band(d: int) -> int {
    if d > 52429 {
        72090
    } else if d > 19661 {
        39322
    } else {
        3277
    }
}

/// Luma with weights 0.299, 0.587 and 0.114.
pub open spec fn luma(c: Vec3) -> int {
    rescale(c.x * 19595 + c.y * 38470 + c.z * 7471)
}

/// Ink speckle: on a roll below 2 a dark pixel (red below 0.2) is darkened to a tenth;
/// on a roll of 10 the pixel is doubled; otherwise it is left alone.
pub open spec fn speckle(c: Vec3, roll: int) -> Vec3 {
    if roll < 2 {
        if c.x < 13107 {
            v3_scale(c, 6554)
        } else {
            c
        }
    } else if roll == 10 {
        v3_scale(c, 2 * ONE as int)
    } else {
        c
    }
}

/// A number in `0 ..= 100` mixed from the seed and the pixel.
pub open spec fn speckle_roll(seed: u64, x: u32, y: u32) -> int {
    let h = (seed * 6364136223846793005 + x * 0x9E37_79B9 + y * 0x85EB_CA6B) % 0x1_0000_0000_0000_0000;
    (h / 0x2_0000_0000) % 101
}

pub open spec fn toon_color(l: Light, data: FragmentData, texture: Option<&Texture>) -> Vec3 {
    combine(
        base_color(data, texture),
        ambient_term(l),
        v3_scale(light_strength(l), toon_band(diffuse_amount(l, data))),
        specular_term(l, data),
    )
}

pub open spec fn phong_color(l: Light, data: FragmentData, texture: Option<&Texture>) -> Vec3 {
    combine(
        base_color(data, texture),
        ambient_term(l),
        v3_scale(light_strength(l), diffuse_amount(l, data)),
        quantize_v3(specular_term(l, data), 6),
    )
}

pub open spec fn ink_color(l: Light, data: FragmentData, texture: Option<&Texture>, roll: int) -> Vec3 {
    let g = luma(base_color(data, texture));
    let lighting = v3_add(
        v3_add(ambient_term(l), v3_scale(light_strength(l), ink_band(diffuse_amount(l, data)))),
        quantize_v3(specular_term(l, data), 4),
    );
    clamp_v3(speckle(v3_mul(v3(g, g, g), lighting), roll))
}

/// `(n + 1) / 2` per channel, rounded down.
pub open spec fn normal_color(n: Vec3) -> Vec3 {
    v3((n.x + ONE) / 2, (n.y + ONE) / 2, (n.z + ONE) / 2)
}

fn base_color_exec(data: &FragmentData, texture: Option<&Texture>) -> (r: Vec3)
    requires
        texture matches Some(t) ==> t.wf(),
    ensures
        r == base_color(*data, texture),
{
    match texture {
        Some(t) => t.sample(data.uv),
        None => data.color,
    }
}

fn max0_exec(v: i32) -> (r: i32)
    ensures
        r == max0(v as int),
{
    if v > 0 {
        v
    } else {
        0
    }
}

fn pow_exec(b: i32, n: u32) -> (r: i32)
    ensures
        r == fx_pow(b as int, n as nat),
{
    let mut acc: i32 = ONE;
    let mut i: u32 = 0;
    while i < n
        invariant
            0 <= i <= n,
            acc == fx_pow(b as int, i as nat),
        decreases n - i,
    {
        acc = fx_mul(acc, b);
        i = i + 1;
    }
    acc
}

fn diffuse_exec(l: &Light, data: &FragmentData) -> (r: i32)
    ensures
        r == diffuse_amount(*l, *data),
{
    let to_light = l.direction.normalize().neg();
    max0_exec(data.normal.dot(&to_light))
}

fn specular_exec(l: &Light, data: &FragmentData) -> (r: Vec3)
    ensures
        r == specular_term(*l, *data),
{
    let to_light = l.direction.normalize().neg();
    let view_dir = data.camera_pos.sub(&data.world_pos).normalize();
    let half_dir = to_light.add(&view_dir).normalize();
    let s = pow_exec(max0_exec(data.normal.dot(&half_dir)), data.material.shininess);
    l.color.mul_element_wise(&data.material.specular).scale(data.material.specular_strength).scale(s)
}

fn quantize_exec(c: i32, levels: i32) -> (r: i32)
    requires
        1 <= levels <= 16,
    ensures
        r == quantize(c as int, levels as int),
{
    proof {
        assert(-0x8000_0000 * 16 <= c * levels <= 0x8000_0000 * 16) by (nonlinear_arith)
            requires
                -0x8000_0000 <= c <= 0x8000_0000,
                1 <= levels <= 16,
        ;
        vstd::arithmetic::div_mod::lemma_div_is_ordered(c * levels, 0x8000_0000int * 16, ONE as int);
        vstd::arithmetic::div_mod::lemma_div_is_ordered(-0x8000_0000int * 16, c * levels, ONE as int);
    }
    let steps = floor_div(c as i128 * levels as i128, ONE as i128);
    saturate(floor_div(steps * ONE as i128, levels as i128))
}

fn quantize_v3_exec(v: &Vec3, levels: i32) -> (r: Vec3)
    requires
        1 <= levels <= 16,
    ensures
        r == quantize_v3(*v, levels as int),
{
    Vec3 {
        x: quantize_exec(v.x, levels),
        y: quantize_exec(v.y, levels),
        z: quantize_exec(v.z, levels),
    }
}

fn clamp_v3_exec(v: &Vec3) -> (r: Vec3)
    ensures
        r == clamp_v3(*v),
{
    Vec3 { x: fx_clamp01(v.x), y: fx_clamp01(v.y), z: fx_clamp01(v.z) }
}

fn combine_exec(base: &Vec3, ambient: &Vec3, diffuse: &Vec3, specular: &Vec3) -> (r: Vec3)
    ensures
        r == combine(*base, *ambient, *diffuse, *specular),
{
    clamp_v3_exec(&base.mul_element_wise(&ambient.add(diffuse).add(specular)))
}

fn ambient_exec(l: &Light) -> (r: Vec3)
    ensures
        r == ambient_term(*l),
{
    l.ambient_color.scale(l.ambient_strength)
}

fn light_strength_exec(l: &Light) -> (r: Vec3)
    ensures
        r == light_strength(*l),
{
    l.color.scale(l.intensity)
}

pub struct ToonShader {
    pub light: Light,
}

impl FragmentShader for ToonShader {
    open spec fn shade_spec(&self, data: FragmentData, texture: Option<&Texture>) -> Vec3 {
        toon_color(self.light, data, texture)
    }

    fn shade(&self, data: &FragmentData, texture: Option<&Texture>) -> (r: Vec3) {
        let base = base_color_exec(data, texture);
        let diff = diffuse_exec(&self.light, data);
        let band: i32 = if diff > 39322 {
            72090
        } else if diff > 13107 {
            52429
        } else {
            32768
        };
        let diffuse = light_strength_exec(&self.light).scale(band);
        let specular = specular_exec(&self.light, data);
        combine_exec(&base, &ambient_exec(&self.light), &diffuse, &specular)
    }
}

pub struct PhongShader {
    pub light: Light,
}

impl FragmentShader for PhongShader {
    open spec fn shade_spec(&self, data: FragmentData, texture: Option<&Texture>) -> Vec3 {
        phong_color(self.light, data, texture)
    }

    fn shade(&self, data: &FragmentData, texture: Option<&Texture>) -> (r: Vec3) {
        let base = base_color_exec(data, texture);
        let diffuse = light_strength_exec(&self.light).scale(diffuse_exec(&self.light, data));
        let specular = quantize_v3_exec(&specular_exec(&self.light, data), 6);
        combine_exec(&base, &ambient_exec(&self.light), &diffuse, &specular)
    }
}

/// Colours each fragment by its normal, `(n + 1) / 2`, without lighting.
pub struct NormalDebugShader;

impl FragmentShader for NormalDebugShader {
    open spec fn shade_spec(&self, data: FragmentData, texture: Option<&Texture>) -> Vec3 {
        normal_color(data.normal)
    }

    fn shade(&self, data: &FragmentData, texture: Option<&Texture>) -> (r: Vec3) {
        let n = data.normal;
        Vec3 {
            x: floor_div(n.x as i128 + ONE as i128, 2) as i32,
            y: floor_div(n.y as i128 + ONE as i128, 2) as i32,
            z: floor_div(n.z as i128 + ONE as i128, 2) as i32,
        }
    }
}

/// Greyscale shading with hard diffuse bands, a banded highlight and a sparse speckle
/// whose pattern is fixed by `seed`.
pub struct InkShader {
    pub light: Light,
    pub seed: u64,
}

/// Relies on `rand::random`: a fresh seed from the thread-local generator.
#[verifier::external_body]
fn random_seed() -> u64 {
    rand::random::<u64>()
}

fn speckle_roll_exec(seed: u64, x: u32, y: u32) -> (r: u32)
    ensures
        r == speckle_roll(seed, x, y),
        r <= 100,
{
    proof {
        assert(seed * 6364136223846793005 <= 0xFFFF_FFFF_FFFF_FFFF * 6364136223846793005) by (nonlinear_arith)
            requires
                seed <= 0xFFFF_FFFF_FFFF_FFFF,
        ;
        assert(x * 0x9E37_79B9 <= 0xFFFF_FFFF * 0x9E37_79B9) by (nonlinear_arith)
            requires
                x <= 0xFFFF_FFFF,
        ;
        assert(y * 0x85EB_CA6B <= 0xFFFF_FFFF * 0x85EB_CA6B) by (nonlinear_arith)
            requires
                y <= 0xFFFF_FFFF,
        ;
    }
    let h: u128 = (seed as u128 * 6364136223846793005u128 + x as u128 * 0x9E37_79B9u128 + y as u128
        * 0x85EB_CA6Bu128) % 0x1_0000_0000_0000_0000u128;
    ((h / 0x2_0000_0000u128) % 101) as u32
}

impl InkShader {
    /// An ink shader with a freshly drawn speckle seed.
    pub fn new(light: Light) -> (r: InkShader)
        ensures
            r.light == light,
    {
        InkShader { light, seed: random_seed() }
    }

    /// The ink colour of a fragment for a given speckle roll.
    pub fn shade_with_roll(&self, data: &FragmentData, texture: Option<&Texture>, roll: u32) -> (r: Vec3)
        requires
            texture matches Some(t) ==> t.wf(),
        ensures
            r == ink_color(self.light, *data, texture, roll as int),
    {
        let base = base_color_exec(data, texture);
        proof {
            crate::math::lemma_mul_i32_bound(base.x as int, 19595);
            crate::math::lemma_mul_i32_bound(base.y as int, 38470);
            crate::math::lemma_mul_i32_bound(base.z as int, 7471);
        }
        let g = rescale_exec(base.x as i128 * 19595 + base.y as i128 * 38470 + base.z as i128 * 7471);
        let diff = diffuse_exec(&self.light, data);
        let band: i32 = if diff > 52429 {
            72090
        } else if diff > 19661 {
            39322
        } else {
            3277
        };
        let diffuse = light_strength_exec(&self.light).scale(band);
        let specular = quantize_v3_exec(&specular_exec(&self.light, data), 4);
        let lighting = ambient_exec(&self.light).add(&diffuse).add(&specular);
        let c = Vec3 { x: g, y: g, z: g }.mul_element_wise(&lighting);
        let speckled = if roll < 2 {
            if c.x < 13107 {
                c.scale(6554)
            } else {
                c
            }
        } else if roll == 10 {
            c.scale(2 * ONE)
        } else {
            c
        };
        clamp_v3_exec(&speckled)
    }
}

impl FragmentShader for InkShader {
    open spec fn shade_spec(&self, data: FragmentData, texture: Option<&Texture>) -> Vec3 {
        ink_color(self.light, data, texture, speckle_roll(self.seed, data.x, data.y))
    }

    fn shade(&self, data: &FragmentData, texture: Option<&Texture>) -> (r: Vec3) {
        let roll = speckle_roll_exec(self.seed, data.x, data.y);
        self.shade_with_roll(data, texture, roll)
    }
}

} // verus!
