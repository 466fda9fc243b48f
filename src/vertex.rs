//! Geometry data: materials, vertices at each pipeline stage, and triangles.
use vstd::prelude::*;
use crate::math::{floor_div, ONE};
use crate::vector::{
    cross3, dot3, mat_vec, normalized, v3, v3_sub, Mat4, Vec2, Vec3, Vec4,
};

verus! {

/// Surface reflectances: fixed-point colours, a fixed-point specular strength and an
/// integer shininess exponent.
#[derive(Clone, Copy, Debug, PartialEq, Eq, Structural)]
pub struct Material {
    pub ambient: Vec3,
    pub diffuse: Vec3,
    pub specular: Vec3,
    pub specular_strength: i32,
    pub shininess: u32,
}

pub open spec fn grey(v: i32) -> Vec3 {
    Vec3 { x: v, y: v, z: v }
}

impl Material {
    pub open spec fn metal_spec() -> Material {
        Material {
            ambient: grey(13107),
            diffuse: grey(52429),
            specular: grey(ONE),
            specular_strength: 58982,
            shininess: 128,
        }
    }

    /// Metal: ambient 0.2, diffuse 0.8, specular 1.0, strength 0.9, shininess 128.
    pub fn metal() -> (r: Material)
        ensures
            r == Material::metal_spec(),
    {
        Material {
            ambient: Vec3 { x: 13107, y: 13107, z: 13107 },
            diffuse: Vec3 { x: 52429, y: 52429, z: 52429 },
            specular: Vec3 { x: ONE, y: ONE, z: ONE },
            specular_strength: 58982,
            shininess: 128,
        }
    }

    /// Plastic: ambient 0.1, diffuse 0.5, specular 0.8, strength 0.5, shininess 32.
    pub fn plastic() -> (r: Material)
        ensures
            r == (Material {
                ambient: grey(6554),
                diffuse: grey(32768),
                specular: grey(52429),
                specular_strength: 32768,
                shininess: 32,
            }),
    {
        Material {
            ambient: Vec3 { x: 6554, y: 6554, z: 6554 },
            diffuse: Vec3 { x: 32768, y: 32768, z: 32768 },
            specular: Vec3 { x: 52429, y: 52429, z: 52429 },
            specular_strength: 32768,
            shininess: 32,
        }
    }

    /// Wood: ambient (0.3, 0.2, 0.1), diffuse (0.6, 0.4, 0.2), specular 0.2, strength 0.1,
    /// shininess 8.
    pub fn wood() -> (r: Material)
        ensures
            r == (Material {
                ambient: Vec3 { x: 19661, y: 13107, z: 6554 },
                diffuse: Vec3 { x: 39322, y: 26214, z: 13107 },
                specular: grey(13107),
                specular_strength: 6554,
                shininess: 8,
            }),
    {
        Material {
            ambient: Vec3 { x: 19661, y: 13107, z: 6554 },
            diffuse: Vec3 { x: 39322, y: 26214, z: 13107 },
            specular: Vec3 { x: 13107, y: 13107, z: 13107 },
            specular_strength: 6554,
            shininess: 8,
        }
    }
}

/// A model-space vertex.
#[derive(Clone, Copy, Debug, PartialEq, Eq, Structural)]
pub struct ColoredVertex {
    pub pos: Vec3,
    pub color: Vec3,
    pub normal: Vec3,
    pub uv: Vec2,
}

impl ColoredVertex {
    /// Every attribute zero.
    pub fn zero() -> (r: ColoredVertex)
        ensures
            r == (ColoredVertex {
                pos: v3(0, 0, 0),
                color: v3(0, 0, 0),
                normal: v3(0, 0, 0),
                uv: Vec2 { x: 0, y: 0 },
            }),
    {
        ColoredVertex {
            pos: Vec3 { x: 0, y: 0, z: 0 },
            color: Vec3 { x: 0, y: 0, z: 0 },
            normal: Vec3 { x: 0, y: 0, z: 0 },
            uv: Vec2 { x: 0, y: 0 },
        }
    }
}

impl Default for ColoredVertex {
    /// A black vertex at the origin with normal +Y.
    fn default() -> (r: ColoredVertex)
        ensures
            r == (ColoredVertex {
                pos: v3(0, 0, 0),
                color: v3(0, 0, 0),
                normal: v3(0, ONE as int, 0),
                uv: Vec2 { x: 0, y: 0 },
            }),
    {
        ColoredVertex {
            pos: Vec3 { x: 0, y: 0, z: 0 },
            color: Vec3 { x: 0, y: 0, z: 0 },
            normal: Vec3 { x: 0, y: ONE, z: 0 },
            uv: Vec2 { x: 0, y: 0 },
        }
    }
}

/// Output of vertex shading: homogeneous clip position plus world-space attributes.
#[derive(Clone, Copy, Debug, PartialEq, Eq, Structural)]
pub struct ClipSpaceVertex {
    pub position: Vec4,
    pub world_pos: Vec3,
    pub normal: Vec3,
    pub uv: Vec2,
    pub color: Vec3,
}

/// A vertex after the viewport transform: screen position in pixels (fixed point),
/// normalised depth (`0` near, `ONE` far) and the carried attributes.
#[derive(Clone, Copy, Debug, PartialEq, Eq, Structural)]
pub struct RasterPoint {
    pub pos: Vec2,
    pub world_pos: Vec3,
    pub color: Vec3,
    pub normal: Vec3,
    pub z: i32,
    pub uv: Vec2,
}

#[derive(Clone, Copy, Debug)]
pub struct Triangle {
    pub vertices: [ColoredVertex; 3],
    pub normal: Vec3,
    pub material: Material,
}

#[derive(Clone, Copy, Debug)]
pub struct RasterTriangle {
    pub vertices: [RasterPoint; 3],
    pub material: Material,
}

/// Unit normal of the plane through three points, by the cross product of the edges.
pub open spec fn face_normal(p0: Vec3, p1: Vec3, p2: Vec3) -> Vec3 {
    normalized(cross3(v3_sub(p1, p0), v3_sub(p2, p0)))
}

/// The mean of the three vertex positions, rounded down.
pub open spec fn centroid(t: Triangle) -> Vec3 {
    let p = t.vertices;
    v3(
        (p[0].pos.x + p[1].pos.x + p[2].pos.x) / 3,
        (p[0].pos.y + p[1].pos.y + p[2].pos.y) / 3,
        (p[0].pos.z + p[1].pos.z + p[2].pos.z) / 3,
    )
}

pub open spec fn truncate4(v: Vec4) -> Vec3 {
    Vec3 { x: v.x, y: v.y, z: v.z }
}

pub open spec fn extend3(v: Vec3, w: i32) -> Vec4 {
    Vec4 { x: v.x, y: v.y, z: v.z, w }
}

/// The triangle faces away from the camera: the world-space face normal and the
/// direction from the centroid to the eye make a non-positive dot product.
pub open spec fn backface(t: Triangle, camera_pos: Vec3, model: Mat4, normal_matrix: Mat4) -> bool {
    let world_normal = normalized(truncate4(mat_vec(normal_matrix, extend3(t.normal, 0))));
    let center = truncate4(mat_vec(model, extend3(centroid(t), ONE)));
    let view_dir = normalized(v3_sub(camera_pos, center));
    dot3(view_dir, world_normal) <= 0
}

fn mean3(a: i32, b: i32, c: i32) -> (r: i32)
    ensures
        r == (a + b + c) / 3,
{
    let m = floor_div(a as i128 + b as i128 + c as i128, 3);
    proof {
        vstd::arithmetic::div_mod::lemma_div_is_ordered(a + b + c, 3 * 0x7fff_ffffint, 3);
        vstd::arithmetic::div_mod::lemma_div_is_ordered(3 * -0x8000_0000int, a + b + c, 3);
    }
    m as i32
}

impl Triangle {
    /// Unit normal of the plane through three points.
    pub fn face_normal_exec(p0: &Vec3, p1: &Vec3, p2: &Vec3) -> (r: Vec3)
        ensures
            r == face_normal(*p0, *p1, *p2),
    {
        p1.sub(p0).cross(&p2.sub(p0)).normalize()
    }

    fn compute_normal(v0: &ColoredVertex, v1: &ColoredVertex, v2: &ColoredVertex) -> (r: Vec3)
        ensures
            r == face_normal(v0.pos, v1.pos, v2.pos),
    {
        let edge1 = v1.pos.sub(&v0.pos);
        let edge2 = v2.pos.sub(&v0.pos);
        edge1.cross(&edge2).normalize()
    }

    /// Builds a triangle; its normal is the unit face normal of the three positions.
    pub fn new(v0: ColoredVertex, v1: ColoredVertex, v2: ColoredVertex, material: &Material) -> (r:
        Triangle)
        ensures
            r.vertices == [v0, v1, v2],
            r.normal == face_normal(v0.pos, v1.pos, v2.pos),
            r.material == *material,
    {
        let normal = Self::compute_normal(&v0, &v1, &v2);
        Triangle { vertices: [v0, v1, v2], normal, material: *material }
    }

    pub fn get_center(&self) -> (r: Vec3)
        ensures
            r == centroid(*self),
    {
        let p = &self.vertices;
        Vec3 {
            x: mean3(p[0].pos.x, p[1].pos.x, p[2].pos.x),
            y: mean3(p[0].pos.y, p[1].pos.y, p[2].pos.y),
            z: mean3(p[0].pos.z, p[1].pos.z, p[2].pos.z),
        }
    }

    pub fn get_normal(&self) -> (r: Vec3)
        ensures
            r == face_normal(self.vertices[0].pos, self.vertices[1].pos, self.vertices[2].pos),
    {
        Self::compute_normal(&self.vertices[0], &self.vertices[1], &self.vertices[2])
    }

    /// Tells whether the triangle faces away from a camera at `camera_pos`, with the
    /// normal taken to world space by `normal_matrix` and the centroid by `model_matrix`.
    pub fn is_backface_world_space(
        &self,
        camera_pos: Vec3,
        model_matrix: &Mat4,
        normal_matrix: &Mat4,
    ) -> (r: bool)
        ensures
            r == backface(*self, camera_pos, *model_matrix, *normal_matrix),
    {
        let world_normal = normal_matrix.mul_vec(&self.normal.extend(0)).truncate().normalize();
        let center = model_matrix.mul_vec(&self.get_center().extend(ONE)).truncate();
        let view_dir = camera_pos.sub(&center).normalize();
        view_dir.dot(&world_normal) <= 0
    }
}

} // verus!
