//! Textures of packed `0xRRGGBBAA` texels, sampled by wrapped texture coordinates.
use vstd::prelude::*;
use crate::math::{floor_div, ONE};
use crate::vector::{Vec2, Vec3};

verus! {

pub struct Texture {
    pub width: usize,
    pub height: usize,
    pub data: Vec<u32>,
}

/// A texel from four bytes, red in the highest byte and alpha in the lowest.
pub open spec fn pack_rgba(r: int, g: int, b: int, a: int) -> int {
    r * 0x100_0000 + g * 0x1_0000 + b * 0x100 + a
}

/// Byte `k` of a texel counted from the highest (`0` red, `1` green, `2` blue).
pub open spec fn texel_byte(c: u32, k: int) -> int {
    if k == 0 {
        (c as int / 0x100_0000) % 256
    } else if k == 1 {
        (c as int / 0x1_0000) % 256
    } else {
        (c as int / 0x100) % 256
    }
}

/// A byte as a fixed-point channel: `b * ONE / 255`, rounded down.
pub open spec fn byte_to_fx(b: int) -> int {
    b * (ONE as int) / 255
}

pub open spec fn texel_color(c: u32) -> Vec3 {
    Vec3 {
        x: byte_to_fx(texel_byte(c, 0)) as i32,
        y: byte_to_fx(texel_byte(c, 1)) as i32,
        z: byte_to_fx(texel_byte(c, 2)) as i32,
    }
}

/// Texel column for a coordinate: its fractional part (wrapped into `[0, 1)`) scaled to
/// the width, kept inside the texture.
pub open spec fn texel_x(u: int, width: int) -> int {
    let f = u % (ONE as int);
    let x = f * width / (ONE as int);
    if x < width - 1 {
        x
    } else {
        width - 1
    }
}

/// Texel row for a coordinate: rows run downwards while `v` runs upwards, so `v = 0` is
/// the bottom row.
pub open spec fn texel_y(v: int, height: int) -> int {
    let f = v % (ONE as int);
    let y = ((ONE as int) - f) * height / (ONE as int);
    if y < height - 1 {
        y
    } else {
        height - 1
    }
}

impl Texture {
    pub open spec fn wf(&self) -> bool {
        &&& self.width >= 1
        &&& self.height >= 1
        &&& self.data@.len() == self.width * self.height
    }

    pub open spec fn sample_spec(&self, uv: Vec2) -> Vec3 {
        let x = texel_x(uv.x as int, self.width as int);
        let y = texel_y(uv.y as int, self.height as int);
        texel_color(self.data@[y * self.width + x])
    }

    /// A texture of opaque white texels.
    pub fn new(width: usize, height: usize) -> (r: Texture)
        requires
            width * height <= usize::MAX,
        ensures
            r.width == width,
            r.height == height,
            r.data@.len() == width * height,
            forall|i: int| 0 <= i < width * height ==> r.data@[i] == 0xFFFF_FFFFu32,
    {
        Texture { width, height, data: vec![0xFFFF_FFFFu32; width * height] }
    }

    /// A texture from rows of 8-bit RGBA pixels, top row first; `None` when the byte count
    /// is not `4 * width * height`.
    pub fn from_rgba8(width: usize, height: usize, bytes: &Vec<u8>) -> (r: Option<Texture>)
        ensures
            r is None <==> bytes@.len() != 4 * width * height,
            r matches Some(t) ==> {
                &&& t.width == width
                &&& t.height == height
                &&& t.data@.len() == width * height
                &&& forall|i: int|
                    0 <= i < width * height ==> t.data@[i] as int == pack_rgba(
                        bytes@[4 * i] as int,
                        bytes@[4 * i + 1] as int,
                        bytes@[4 * i + 2] as int,
                        bytes@[4 * i + 3] as int,
                    )
            },
    {
        let n = bytes.len() / 4;
        if bytes.len() % 4 != 0 || width == 0 || height == 0 || n / width != height || n
            % width != 0 {
            proof {
                if bytes@.len() == 4 * width * height {
                    assert(width * height == (width * height) as int);
                    if width > 0 && height > 0 {
                        assert(4 * width * height == 4 * (width * height)) by (nonlinear_arith);
                        assert(n == width * height);
                        assert(height * width == width * height) by (nonlinear_arith);
                        vstd::arithmetic::div_mod::lemma_div_multiples_vanish(height as int, width as int);
                        vstd::arithmetic::div_mod::lemma_mod_multiples_basic(height as int, width as int);
                    } else {
                        assert(width * height == 0) by (nonlinear_arith)
                            requires
                                width == 0 || height == 0,
                        ;
                        assert(4 * width * height == 0) by (nonlinear_arith)
                            requires
                                width == 0 || height == 0,
                        ;
                    }
                }
            }
            if bytes.len() == 0 && (width == 0 || height == 0) {
                proof {
                    assert(width * height == 0) by (nonlinear_arith)
                        requires
                            width == 0 || height == 0,
                    ;
                    assert(4 * width * height == 0) by (nonlinear_arith)
                        requires
                            width == 0 || height == 0,
                    ;
                }
                return Some(Texture { width, height, data: Vec::new() });
            }
            return None;
        }
        proof {
            vstd::arithmetic::div_mod::lemma_fundamental_div_mod(n as int, width as int);
            vstd::arithmetic::div_mod::lemma_fundamental_div_mod(bytes@.len() as int, 4);
            assert(n == width * height) by (nonlinear_arith)
                requires
                    n == width * (n / width) + n % width,
                    n % width == 0,
                    n / width == height,
            ;
            assert(4 * width * height == 4 * (width * height)) by (nonlinear_arith);
        }
        assert(bytes@.len() == bytes.len());
        let mut data: Vec<u32> = Vec::new();
        let mut i: usize = 0;
        while i < n
            invariant
                n == width * height,
                bytes@.len() == 4 * n,
                4 * n <= usize::MAX,
                0 <= i <= n,
                data@.len() == i,
                forall|j: int|
                    0 <= j < i ==> data@[j] as int == pack_rgba(
                        bytes@[4 * j] as int,
                        bytes@[4 * j + 1] as int,
                        bytes@[4 * j + 2] as int,
                        bytes@[4 * j + 3] as int,
                    ),
            decreases n - i,
        {
            let r = bytes[4 * i] as u32;
            let g = bytes[4 * i + 1] as u32;
            let b = bytes[4 * i + 2] as u32;
            let a = bytes[4 * i + 3] as u32;
            data.push(r * 0x100_0000 + g * 0x1_0000 + b * 0x100 + a);
            i = i + 1;
        }
        Some(Texture { width, height, data })
    }

    /// Colour of the texel at `(x, y)`, each channel scaled to `[0, ONE]`.
    fn get_pixel_color(&self, x: usize, y: usize) -> (r: Vec3)
        requires
            self.wf(),
            x < self.width,
            y < self.height,
        ensures
            r == texel_color(self.data@[y * self.width + x]),
    {
        proof {
            assert(0 <= y * self.width + x < self.width * self.height) by (nonlinear_arith)
                requires
                    x < self.width,
                    y < self.height,
            ;
        }
        assert(self.data@.len() == self.data.len());
        let c = self.data[y * self.width + x];
        let r = (c / 0x100_0000) % 256;
        let g = (c / 0x1_0000) % 256;
        let b = (c / 0x100) % 256;
        Vec3 {
            x: (r as i32 * ONE / 255) as i32,
            y: (g as i32 * ONE / 255) as i32,
            z: (b as i32 * ONE / 255) as i32,
        }
    }

    /// Colour at texture coordinates `uv`, wrapped by their fractional part; `v` runs
    /// upwards, so `(0, 0)` is the bottom-left texel.
    pub fn sample(&self, uv: Vec2) -> (r: Vec3)
        requires
            self.wf(),
        ensures
            r == self.sample_spec(uv),
    {
        let o: i128 = ONE as i128;
        let fu: i128 = uv.x as i128 - floor_div(uv.x as i128, o) * o;
        let fv: i128 = uv.y as i128 - floor_div(uv.y as i128, o) * o;
        proof {
            vstd::arithmetic::div_mod::lemma_fundamental_div_mod(uv.x as int, o as int);
            vstd::arithmetic::div_mod::lemma_fundamental_div_mod(uv.y as int, o as int);
            vstd::arithmetic::div_mod::lemma_mod_bound(uv.x as int, o as int);
            vstd::arithmetic::div_mod::lemma_mod_bound(uv.y as int, o as int);
            assert(fu == (uv.x as int) % (o as int));
            assert(fv == (uv.y as int) % (o as int));
        }
        let w = self.width as u128;
        let h = self.height as u128;
        proof {
            assert(fu * w <= o * w) by (nonlinear_arith)
                requires
                    0 <= fu < o,
                    w >= 0,
            ;
            assert((o - fv) * h <= o * h) by (nonlinear_arith)
                requires
                    0 <= fv < o,
                    h >= 0,
            ;
            vstd::arithmetic::div_mod::lemma_div_is_ordered((fu * w) as int, (o * w) as int, o as int);
            vstd::arithmetic::div_mod::lemma_div_is_ordered(((o - fv) * h) as int, (o * h) as int, o as int);
            vstd::arithmetic::div_mod::lemma_div_multiples_vanish(w as int, o as int);
            vstd::arithmetic::div_mod::lemma_div_multiples_vanish(h as int, o as int);
        }
        let x0 = (fu as u128 * w / o as u128) as usize;
        let y0 = ((o - fv) as u128 * h / o as u128) as usize;
        let x = if x0 < self.width - 1 { x0 } else { self.width - 1 };
        let y = if y0 < self.height - 1 { y0 } else { self.height - 1 };
        self.get_pixel_color(x, y)
    }
}

} // verus!
