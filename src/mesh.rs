//! Mesh assembly: smooth vertex normals from indexed faces, and a procedural floor.
use vstd::prelude::*;
use crate::math::ONE;
use crate::vector::{normalized, v3, v3_add, Vec2, Vec3};
use crate::vertex::{face_normal, ColoredVertex, Material, Triangle};

verus! {

pub open spec fn faces_in_range(n: int, faces: Seq<[usize; 3]>) -> bool {
    forall|k: int, j: int| 0 <= k < faces.len() && 0 <= j < 3 ==> #[trigger] faces[k][j] < n
}

pub open spec fn face_normal_of(positions: Seq<Vec3>, f: [usize; 3]) -> Vec3 {
    face_normal(positions[f[0] as int], positions[f[1] as int], positions[f[2] as int])
}

pub open spec fn add_at(acc: Seq<Vec3>, i: int, n: Vec3) -> Seq<Vec3> {
    acc.update(i, v3_add(acc[i], n))
}

/// Per vertex, the sum of the unit normals of the faces that use it, face by face.
pub open spec fn accumulated_normals(positions: Seq<Vec3>, faces: Seq<[usize; 3]>) -> Seq<Vec3>
    decreases faces.len(),
{
    if faces.len() == 0 {
        Seq::new(positions.len(), |i: int| v3(0, 0, 0))
    } else {
        let prev = accumulated_normals(positions, faces.drop_last());
        let f = faces.last();
        let n = face_normal_of(positions, f);
        add_at(add_at(add_at(prev, f[0] as int, n), f[1] as int, n), f[2] as int, n)
    }
}

/// Smooth normals: each vertex gets the normalised sum of the face normals around it
/// (zero for a vertex no face uses).
pub fn vertex_normals(positions: &Vec<Vec3>, faces: &Vec<[usize; 3]>) -> (r: Vec<Vec3>)
    requires
        faces_in_range(positions@.len() as int, faces@),
    ensures
        r@.len() == positions@.len(),
        forall|i: int|
            0 <= i < positions@.len() ==> r@[i] == normalized(
                accumulated_normals(positions@, faces@)[i],
            ),
{
    let n = positions.len();
    let mut acc: Vec<Vec3> = Vec::new();
    let mut i: usize = 0;
    while i < n
        invariant
            n == positions@.len(),
            0 <= i <= n,
            acc@.len() == i,
            forall|j: int| 0 <= j < i ==> acc@[j] == v3(0, 0, 0),
        decreases n - i,
    {
        acc.push(Vec3 { x: 0, y: 0, z: 0 });
        i = i + 1;
    }
    proof {
        assert(acc@ =~= accumulated_normals(positions@, faces@.subrange(0, 0)));
    }
    let mut k: usize = 0;
    while k < faces.len()
        invariant
            n == positions@.len(),
            faces_in_range(n as int, faces@),
            0 <= k <= faces@.len(),
            acc@ == accumulated_normals(positions@, faces@.subrange(0, k as int)),
            acc@.len() == n,
        decreases faces.len() - k,
    {
        let f = faces[k];
        assert(f == faces@[k as int]);
        assert(f[0] < n && f[1] < n && f[2] < n) by {
            assert(faces@[k as int][0] < n);
            assert(faces@[k as int][1] < n);
            assert(faces@[k as int][2] < n);
        }
        let fnorm = Triangle::face_normal_exec(&positions[f[0]], &positions[f[1]], &positions[f[2]]);
        let a = acc[f[0]].add(&fnorm);
        acc.set(f[0], a);
        let b = acc[f[1]].add(&fnorm);
        acc.set(f[1], b);
        let c = acc[f[2]].add(&fnorm);
        acc.set(f[2], c);
        proof {
            let s = faces@.subrange(0, k + 1);
            assert(s.drop_last() =~= faces@.subrange(0, k as int));
            assert(s.last() == f);
            assert(acc@ =~= accumulated_normals(positions@, s));
        }
        k = k + 1;
    }
    proof {
        assert(faces@.subrange(0, faces@.len() as int) =~= faces@);
    }
    let mut out: Vec<Vec3> = Vec::new();
    let mut j: usize = 0;
    while j < n
        invariant
            n == positions@.len(),
            acc@.len() == n,
            acc@ == accumulated_normals(positions@, faces@),
            0 <= j <= n,
            out@.len() == j,
            forall|q: int| 0 <= q < j ==> out@[q] == normalized(acc@[q]),
        decreases n - j,
    {
        out.push(acc[j].normalize());
        j = j + 1;
    }
    out
}

/// Mesh vertex colour: grey 0.8.
pub open spec fn mesh_vertex(p: Vec3, n: Vec3) -> ColoredVertex {
    ColoredVertex { pos: p, color: v3(52429, 52429, 52429), normal: n, uv: Vec2 { x: 0, y: 0 } }
}

pub open spec fn mesh_triangle(
    positions: Seq<Vec3>,
    normals: Seq<Vec3>,
    f: [usize; 3],
    material: Material,
) -> Triangle {
    Triangle {
        vertices: [
            mesh_vertex(positions[f[0] as int], normals[f[0] as int]),
            mesh_vertex(positions[f[1] as int], normals[f[1] as int]),
            mesh_vertex(positions[f[2] as int], normals[f[2] as int]),
        ],
        normal: face_normal_of(positions, f),
        material,
    }
}

/// Grey triangles of an indexed mesh, one per face, with smooth vertex normals.
pub fn build_mesh(positions: &Vec<Vec3>, faces: &Vec<[usize; 3]>, material: &Material) -> (r: Vec<Triangle>)
    requires
        faces_in_range(positions@.len() as int, faces@),
    ensures
        r@.len() == faces@.len(),
        forall|k: int|
            0 <= k < faces@.len() ==> r@[k] == mesh_triangle(
                positions@,
                Seq::new(
                    positions@.len(),
                    |i: int| normalized(accumulated_normals(positions@, faces@)[i]),
                ),
                faces@[k],
                *material,
            ),
{
    let normals = vertex_normals(positions, faces);
    let ghost ns = Seq::new(
        positions@.len(),
        |i: int| normalized(accumulated_normals(positions@, faces@)[i]),
    );
    assert(normals@ =~= ns);
    let grey = Vec3 { x: 52429, y: 52429, z: 52429 };
    let mut out: Vec<Triangle> = Vec::new();
    let mut k: usize = 0;
    while k < faces.len()
        invariant
            faces_in_range(positions@.len() as int, faces@),
            normals@ == ns,
            normals@.len() == positions@.len(),
            grey == v3(52429, 52429, 52429),
            0 <= k <= faces@.len(),
            out@.len() == k,
            forall|q: int| 0 <= q < k ==> out@[q] == mesh_triangle(positions@, ns, faces@[q], *material),
        decreases faces.len() - k,
    {
        let f = faces[k];
        assert(f == faces@[k as int]);
        assert(f[0] < positions@.len() && f[1] < positions@.len() && f[2] < positions@.len()) by {
            assert(faces@[k as int][0] < positions@.len());
            assert(faces@[k as int][1] < positions@.len());
            assert(faces@[k as int][2] < positions@.len());
        }
        let v0 = ColoredVertex { pos: positions[f[0]], color: grey, normal: normals[f[0]], uv: Vec2 { x: 0, y: 0 } };
        let v1 = ColoredVertex { pos: positions[f[1]], color: grey, normal: normals[f[1]], uv: Vec2 { x: 0, y: 0 } };
        let v2 = ColoredVertex { pos: positions[f[2]], color: grey, normal: normals[f[2]], uv: Vec2 { x: 0, y: 0 } };
        let t = Triangle::new(v0, v1, v2, material);
        proof {
            assert(t.vertices =~= mesh_triangle(positions@, ns, f, *material).vertices);
        }
        out.push(t);
        k = k + 1;
    }
    out
}


/// Left (or near) edge of floor cell `i`: the floor spans `[-20, 20]` in cells of 4.
pub open spec fn floor_edge(i: int) -> int {
    (-20 + 4 * i) * ONE
}

/// Checkerboard shade of a floor cell: grey 0.5 or grey 0.3.
pub open spec fn floor_shade(xi: int, zi: int) -> Vec3 {
    if (xi + zi) % 2 == 0 {
        v3(32768, 32768, 32768)
    } else {
        v3(19661, 19661, 19661)
    }
}

pub open spec fn floor_vertex(x: int, z: int, color: Vec3, u: int, v: int) -> ColoredVertex {
    ColoredVertex {
        pos: v3(x, -3 * ONE, z),
        color,
        normal: v3(0, ONE as int, 0),
        uv: Vec2 { x: u as i32, y: v as i32 },
    }
}

/// The two metal triangles of floor cell `(xi, zi)` in the plane `y = -3`, wound so that
/// their face normal points up.
pub open spec fn floor_cell(xi: int, zi: int) -> (Triangle, Triangle) {
    let (x0, x1, z0, z1) = (floor_edge(xi), floor_edge(xi + 1), floor_edge(zi), floor_edge(zi + 1));
    let c = floor_shade(xi, zi);
    let o = ONE as int;
    let a = floor_vertex(x0, z0, c, 0, 0);
    let b = floor_vertex(x1, z0, c, o, 0);
    let d = floor_vertex(x1, z1, c, o, o);
    let e = floor_vertex(x0, z1, c, 0, o);
    (
        Triangle {
            vertices: [a, d, b],
            normal: face_normal(a.pos, d.pos, b.pos),
            material: Material::metal_spec(),
        },
        Triangle {
            vertices: [d, a, e],
            normal: face_normal(d.pos, a.pos, e.pos),
            material: Material::metal_spec(),
        },
    )
}

/// The face normal of both triangles of a floor cell is `+Y`.
pub proof fn lemma_floor_faces_up(xi: int, zi: int)
    requires
        0 <= xi < 10,
        0 <= zi < 10,
    ensures
        floor_cell(xi, zi).0.normal == v3(0, ONE as int, 0),
        floor_cell(xi, zi).1.normal == v3(0, ONE as int, 0),
{
    let n = v3(0, 0x10_0000, 0);
    let (x0, x1, z0, z1) = (floor_edge(xi), floor_edge(xi + 1), floor_edge(zi), floor_edge(zi + 1));
    let c = floor_shade(xi, zi);
    let o = ONE as int;
    let a = floor_vertex(x0, z0, c, 0, 0);
    let b = floor_vertex(x1, z0, c, o, 0);
    let d = floor_vertex(x1, z1, c, o, o);
    let e = floor_vertex(x0, z1, c, 0, o);
    assert(x1 - x0 == 0x4_0000 && z1 - z0 == 0x4_0000);
    assert(-0x14_0000 <= x0 && x1 <= 0x14_0000 && -0x14_0000 <= z0 && z1 <= 0x14_0000);
    let p = crate::vector::v3(0x4_0000, 0, 0x4_0000);
    let q = crate::vector::v3(0x4_0000, 0, 0);
    let m = crate::vector::v3(-0x4_0000, 0, -0x4_0000);
    let k = crate::vector::v3(-0x4_0000, 0, 0);
    assert(crate::vector::v3_sub(d.pos, a.pos) == p);
    assert(crate::vector::v3_sub(b.pos, a.pos) == q);
    assert(crate::vector::v3_sub(a.pos, d.pos) == m);
    assert(crate::vector::v3_sub(e.pos, d.pos) == k);
    assert(crate::math::rescale(0x10_0000_0000int) == 0x10_0000);
    assert(crate::math::rescale(0) == 0);
    assert(p.x == 0x4_0000 && p.y == 0 && p.z == 0x4_0000);
    assert(q.x == 0x4_0000 && q.y == 0 && q.z == 0);
    assert(m.x == -0x4_0000 && m.y == 0 && m.z == -0x4_0000);
    assert(k.x == -0x4_0000 && k.y == 0 && k.z == 0);
    assert(p.y * q.z - p.z * q.y == 0 && p.x * q.y - p.y * q.x == 0) by (nonlinear_arith)
        requires
            p.y == 0,
            q.y == 0,
            q.z == 0,
    ;
    assert(p.z * q.x - p.x * q.z == 0x10_0000_0000) by (nonlinear_arith)
        requires
            p.z == 0x4_0000,
            q.x == 0x4_0000,
            q.z == 0,
    ;
    assert(m.y * k.z - m.z * k.y == 0 && m.x * k.y - m.y * k.x == 0) by (nonlinear_arith)
        requires
            m.y == 0,
            k.y == 0,
            k.z == 0,
    ;
    assert(m.z * k.x - m.x * k.z == 0x10_0000_0000) by (nonlinear_arith)
        requires
            m.z == -0x4_0000,
            k.x == -0x4_0000,
            k.z == 0,
    ;
    assert(crate::vector::cross3(p, q) == n);
    assert(crate::vector::cross3(m, k) == n);
    assert(n.x * n.x + n.y * n.y + n.z * n.z == 0x100_0000_0000) by (nonlinear_arith)
        requires
            n.x == 0,
            n.y == 0x10_0000,
            n.z == 0,
    ;
    assert(crate::vector::norm_sq(n) == 0x100_0000_0000);
    assert(crate::math::is_isqrt(0x100_0000_0000, 0x10_0000));
    crate::vector::lemma_sqrt_floor(0x100_0000_0000, 0x10_0000);
    assert(crate::math::unit_comp(0x10_0000, 0x10_0000) == ONE);
    assert(crate::math::unit_comp(0, 0x10_0000) == 0);
}

/// A 40 x 40 checkerboard floor of 10 x 10 cells, two triangles per cell, row by row.
pub fn create_floor() -> (r: Vec<Triangle>)
    ensures
        r@.len() == 200,
        forall|xi: int, zi: int|
            0 <= xi < 10 && 0 <= zi < 10 ==> r@[2 * (zi * 10 + xi)] == floor_cell(xi, zi).0
                && r@[2 * (zi * 10 + xi) + 1] == floor_cell(xi, zi).1,
        forall|k: int| 0 <= k < 200 ==> #[trigger] r@[k].normal == v3(0, ONE as int, 0),
{
    let mut out: Vec<Triangle> = Vec::new();
    let metal = Material::metal();
    let up = Vec3 { x: 0, y: ONE, z: 0 };
    let mut zi: i32 = 0;
    while zi < 10
        invariant
            0 <= zi <= 10,
            metal == Material::metal_spec(),
            up == v3(0, ONE as int, 0),
            out@.len() == 2 * (zi * 10),
            forall|a: int, b: int|
                0 <= a < 10 && 0 <= b < zi ==> out@[2 * (b * 10 + a)] == floor_cell(a, b).0
                    && out@[2 * (b * 10 + a) + 1] == floor_cell(a, b).1,
        decreases 10 - zi,
    {
        let mut xi: i32 = 0;
        while xi < 10
            invariant
                0 <= zi < 10,
                0 <= xi <= 10,
                metal == Material::metal_spec(),
                up == v3(0, ONE as int, 0),
                out@.len() == 2 * (zi * 10 + xi),
                forall|a: int, b: int|
                    0 <= a < 10 && 0 <= b < zi ==> out@[2 * (b * 10 + a)] == floor_cell(a, b).0
                        && out@[2 * (b * 10 + a) + 1] == floor_cell(a, b).1,
                forall|a: int|
                    0 <= a < xi ==> out@[2 * (zi * 10 + a)] == floor_cell(a, zi as int).0
                        && out@[2 * (zi * 10 + a) + 1] == floor_cell(a, zi as int).1,
            decreases 10 - xi,
        {
            let x0 = (-20 + 4 * xi) * ONE;
            let x1 = (-20 + 4 * (xi + 1)) * ONE;
            let z0 = (-20 + 4 * zi) * ONE;
            let z1 = (-20 + 4 * (zi + 1)) * ONE;
            let shade: i32 = if (xi + zi) % 2 == 0 { 32768 } else { 19661 };
            let c = Vec3 { x: shade, y: shade, z: shade };
            let y = -3 * ONE;
            let a = ColoredVertex { pos: Vec3 { x: x0, y, z: z0 }, color: c, normal: up, uv: Vec2 { x: 0, y: 0 } };
            let b = ColoredVertex { pos: Vec3 { x: x1, y, z: z0 }, color: c, normal: up, uv: Vec2 { x: ONE, y: 0 } };
            let d = ColoredVertex { pos: Vec3 { x: x1, y, z: z1 }, color: c, normal: up, uv: Vec2 { x: ONE, y: ONE } };
            let e = ColoredVertex { pos: Vec3 { x: x0, y, z: z1 }, color: c, normal: up, uv: Vec2 { x: 0, y: ONE } };
            let t1 = Triangle::new(a, d, b, &metal);
            let t2 = Triangle::new(d, a, e, &metal);
            proof {
                let cell = floor_cell(xi as int, zi as int);
                assert(t1.vertices =~= cell.0.vertices);
                assert(t2.vertices =~= cell.1.vertices);
            }
            let ghost before = out@;
            out.push(t1);
            out.push(t2);
            proof {
                assert forall|a2: int, b2: int|
                    0 <= a2 < 10 && 0 <= b2 < zi implies out@[2 * (b2 * 10 + a2)] == floor_cell(a2, b2).0
                    && out@[2 * (b2 * 10 + a2) + 1] == floor_cell(a2, b2).1 by {
                    assert(out@[2 * (b2 * 10 + a2)] == before[2 * (b2 * 10 + a2)]);
                    assert(out@[2 * (b2 * 10 + a2) + 1] == before[2 * (b2 * 10 + a2) + 1]);
                }
                assert forall|a2: int|
                    0 <= a2 < xi + 1 implies out@[2 * (zi * 10 + a2)] == floor_cell(a2, zi as int).0
                    && out@[2 * (zi * 10 + a2) + 1] == floor_cell(a2, zi as int).1 by {
                    if a2 < xi {
                        assert(out@[2 * (zi * 10 + a2)] == before[2 * (zi * 10 + a2)]);
                        assert(out@[2 * (zi * 10 + a2) + 1] == before[2 * (zi * 10 + a2) + 1]);
                    }
                }
            }
            xi = xi + 1;
        }
        zi = zi + 1;
    }
    proof {
        assert forall|k: int| 0 <= k < 200 implies #[trigger] out@[k].normal == v3(0, ONE as int, 0) by {
            let q = k / 2;
            let xi = q % 10;
            let zi = q / 10;
            lemma_floor_faces_up(xi, zi);
            assert(k == 2 * (zi * 10 + xi) || k == 2 * (zi * 10 + xi) + 1);
        }
    }
    out
}

} // verus!
