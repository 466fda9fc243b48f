//! The vertex-shading stage.
use vstd::prelude::*;
use crate::math::ONE;
use crate::vector::{mat_vec, normalized, Mat4};
use crate::vertex::{extend3, truncate4, ClipSpaceVertex, ColoredVertex, Triangle};

verus! {

/// The per-draw transforms: model, model-view-projection, and the normal matrix (the
/// inverse transpose of the model matrix).
#[derive(Clone, Copy, Debug, PartialEq, Eq, Structural)]
pub struct VertexShaderUniforms {
    pub model_matrix: Mat4,
    pub mvp_matrix: Mat4,
    pub normal_matrix: Mat4,
}

/// Maps a model-space triangle to clip space, keeping the vertex order.
pub trait VertexShader {
    spec fn shade_spec(&self, triangle: Triangle, uniforms: VertexShaderUniforms) -> [ClipSpaceVertex; 3];

    fn shade_triangle(&self, triangle: &Triangle, uniforms: &VertexShaderUniforms) -> (r: [ClipSpaceVertex; 3])
        ensures
            r == self.shade_spec(*triangle, *uniforms),
    ;
}

/// Clip position `MVP (p, 1)`, world position `M (p, 1)`, world normal
/// `normalize(N (n, 0))`; texture coordinates and colour pass through.
pub open spec fn shade_vertex(v: ColoredVertex, u: VertexShaderUniforms) -> ClipSpaceVertex {
    ClipSpaceVertex {
        position: mat_vec(u.mvp_matrix, extend3(v.pos, ONE)),
        world_pos: truncate4(mat_vec(u.model_matrix, extend3(v.pos, ONE))),
        normal: normalized(truncate4(mat_vec(u.normal_matrix, extend3(v.normal, 0)))),
        uv: v.uv,
        color: v.color,
    }
}

pub struct DefaultVertexShader;

fn shade_one(v: &ColoredVertex, u: &VertexShaderUniforms) -> (r: ClipSpaceVertex)
    ensures
        r == shade_vertex(*v, *u),
{
    ClipSpaceVertex {
        position: u.mvp_matrix.mul_vec(&v.pos.extend(ONE)),
        world_pos: u.model_matrix.mul_vec(&v.pos.extend(ONE)).truncate(),
        normal: u.normal_matrix.mul_vec(&v.normal.extend(0)).truncate().normalize(),
        uv: v.uv,
        color: v.color,
    }
}

impl VertexShader for DefaultVertexShader {
    open spec fn shade_spec(&self, triangle: Triangle, uniforms: VertexShaderUniforms) -> [ClipSpaceVertex; 3] {
        [
            shade_vertex(triangle.vertices[0], uniforms),
            shade_vertex(triangle.vertices[1], uniforms),
            shade_vertex(triangle.vertices[2], uniforms),
        ]
    }

    fn shade_triangle(&self, triangle: &Triangle, uniforms: &VertexShaderUniforms) -> (r: [ClipSpaceVertex; 3]) {
        [
            shade_one(&triangle.vertices[0], uniforms),
            shade_one(&triangle.vertices[1], uniforms),
            shade_one(&triangle.vertices[2], uniforms),
        ]
    }
}

} // verus!
