//! Mesh topology: a shared vertex buffer indexed by faces, whole-mesh
//! transforms that mutate that buffer in place, and the procedural
//! terrain and diamond builders.
//!
//! A face never holds positions, only indices into its mesh's vertex
//! buffer, so translating or rotating the mesh once moves every face
//! that shares a vertex.

use vstd::prelude::*;

use crate::camera::Camera;
use crate::lights::LightSource;
use crate::math::Euler;
use crate::math::div_trunc;
use crate::math::div_trunc_i64;
use crate::math::lemma_div_trunc_within;
use crate::math::lemma_mul_mag;
use crate::math::mat_rotation;
use crate::math::mat_rotation_spec;
use crate::math::rotate_around_spec;
use crate::math::vec3_add_spec;
use crate::math::vec3_cross;
use crate::math::vec3_cross_spec;
use crate::math::vec3_dot;
use crate::math::vec3_dot_spec;
use crate::math::vec3_normalize_spec;
use crate::math::vec3_normalized;
use crate::math::vec3_rotate_around;
use crate::math::vec3_sub;
use crate::math::vec3_sub_spec;
use crate::types::COORD_LIMIT;
use crate::types::Color;
use crate::types::DrawCmd;
use crate::types::LINE_WIDTH;
use crate::types::ONE;
use crate::types::Point2;
use crate::types::Vec3;

verus! {

/// A vertex of a mesh: a position in the shared buffer.
#[derive(Clone, Copy, PartialEq, Eq, Structural, Debug)]
pub struct Vertex {
    /// Position in world units.
    pub r: Vec3,
}

/// A triangular face: three indices into the owning mesh's vertex buffer
/// and a flat colour. It is a view over the shared buffer, never a copy
/// of the positions.
#[derive(Clone, Copy, PartialEq, Eq, Structural, Debug)]
pub struct Face {
    /// Index of the first vertex.
    pub a: usize,
    /// Index of the second vertex.
    pub b: usize,
    /// Index of the third vertex.
    pub c: usize,
    /// Flat colour of the face.
    pub color: Color,
}

/// The shared contents of a mesh: the vertex buffer and the faces that
/// index into it.
#[derive(Clone, PartialEq, Eq, Debug)]
pub struct MeshContents {
    pub vertices: Vec<Vertex>,
    pub faces: Vec<Face>,
}

impl MeshContents {
    /// Every face's three indices land inside the vertex buffer, and
    /// every face colour is a valid colour.
    pub open spec fn wf(self) -> bool {
        forall|i: int|
            0 <= i < self.faces@.len() ==> (#[trigger] self.faces@[i]).valid_for(
                self.vertices@.len() as int,
            )
    }

    /// Every vertex position has components within `bound`.
    pub open spec fn coords_in_range(self, bound: int) -> bool {
        forall|i: int|
            0 <= i < self.vertices@.len() ==> (#[trigger] self.vertices@[i]).r.in_range(bound)
    }
}

impl Face {
    /// The face's indices fit a vertex buffer of length `n`, and its
    /// colour is well formed.
    pub open spec fn valid_for(self, n: int) -> bool {
        self.a < n && self.b < n && self.c < n && self.color.wf()
    }

    /// A face over vertices `a`, `b`, `c`, in a neutral mid grey.
    pub fn new(a: usize, b: usize, c: usize) -> (f: Face)
        ensures
            f.a == a && f.b == b && f.c == c,
            f.color == (Color { r: 500_000, g: 500_000, b: 500_000, a: 500_000 }),
            f.color.wf(),
    {
        Face { a, b, c, color: Color { r: 500_000, g: 500_000, b: 500_000, a: 500_000 } }
    }

    /// The same face, recoloured.
    pub fn color(self, color: Color) -> (f: Face)
        requires
            color.wf(),
        ensures
            f == (Face { color, ..self }),
    {
        Face { color, ..self }
    }

    /// The face's three vertex positions, read from the shared buffer.
    pub open spec fn points_spec(self, m: MeshContents) -> (Vec3, Vec3, Vec3) {
        (m.vertices@[self.a as int].r, m.vertices@[self.b as int].r, m.vertices@[self.c as int].r)
    }

    /// Reads the face's three vertex positions from the shared buffer.
    pub fn get_points(&self, m: &MeshContents) -> (r: (Vec3, Vec3, Vec3))
        requires
            self.valid_for(m.vertices@.len() as int),
        ensures
            r == self.points_spec(*m),
    {
        (m.vertices[self.a].r, m.vertices[self.b].r, m.vertices[self.c].r)
    }

    /// The canvas positions of the face's three corners.
    pub open spec fn project_spec(self, m: MeshContents, camera: Camera) -> (
        Option<Point2>,
        Option<Point2>,
        Option<Point2>,
    ) {
        let (p0, p1, p2) = self.points_spec(m);
        (camera.projected_spec(p0), camera.projected_spec(p1), camera.projected_spec(p2))
    }

    /// Projects the face's three corners; a corner behind the camera
    /// plane projects to `None` and is skipped at draw time.
    pub fn project(&self, m: &MeshContents, camera: &Camera) -> (r: (
        Option<Point2>,
        Option<Point2>,
        Option<Point2>,
    ))
        requires
            self.valid_for(m.vertices@.len() as int),
            m.coords_in_range(COORD_LIMIT as int),
            camera.wf(),
        ensures
            r == self.project_spec(*m, *camera),
    {
        let (p0, p1, p2) = self.get_points(m);
        (camera.projected(p0), camera.projected(p1), camera.projected(p2))
    }

    /// The face's three edges on the canvas, each present only when both
    /// of its endpoints project.
    pub open spec fn project_lines_spec(self, m: MeshContents, camera: Camera) -> (
        Option<(Point2, Point2)>,
        Option<(Point2, Point2)>,
        Option<(Point2, Point2)>,
    ) {
        let (q0, q1, q2) = self.project_spec(m, camera);
        (edge_of(q0, q1), edge_of(q1, q2), edge_of(q2, q0))
    }

    /// Projects the face's three edges for wireframe drawing.
    pub fn project_lines(&self, m: &MeshContents, camera: &Camera) -> (r: (
        Option<(Point2, Point2)>,
        Option<(Point2, Point2)>,
        Option<(Point2, Point2)>,
    ))
        requires
            self.valid_for(m.vertices@.len() as int),
            m.coords_in_range(COORD_LIMIT as int),
            camera.wf(),
        ensures
            r == self.project_lines_spec(*m, *camera),
    {
        let (q0, q1, q2) = self.project(m, camera);
        (edge_exec(q0, q1), edge_exec(q1, q2), edge_exec(q2, q0))
    }

    /// The unit normal of the face: the normalized cross product of its
    /// two edge vectors `b - a` and `c - a`.
    pub open spec fn normal_spec(self, m: MeshContents) -> Vec3 {
        let (p0, p1, p2) = self.points_spec(m);
        triangle_normal_spec(p0, p1, p2)
    }

    /// The face's unit normal (`ONE`-scaled), from its edge vectors.
    pub fn normal(&self, m: &MeshContents) -> (r: Vec3)
        requires
            self.valid_for(m.vertices@.len() as int),
            m.coords_in_range(COORD_LIMIT as int),
        ensures
            r == self.normal_spec(*m),
            r.in_range(ONE as int),
    {
        let (p0, p1, p2) = self.get_points(m);
        let e1 = vec3_sub(p1, p0);
        let e2 = vec3_sub(p2, p0);
        vec3_normalized(vec3_cross(e1, e2))
    }

    /// The flat-shaded colour of the face under the first light.
    pub open spec fn shade_spec(self, m: MeshContents, light: LightSource) -> Color {
        let (p0, p1, p2) = self.points_spec(m);
        shade_color_spec(self.color, p0, p1, p2, light)
    }

    /// Shades the face's colour by the first light.
    pub fn shade(&self, m: &MeshContents, lights: &Vec<LightSource>) -> (r: Color)
        requires
            self.valid_for(m.vertices@.len() as int),
            m.coords_in_range(COORD_LIMIT as int),
            lights@.len() >= 1,
        ensures
            r == self.shade_spec(*m, lights@[0]),
            r.wf(),
    {
        let (p0, p1, p2) = self.get_points(m);
        shade_color(self.color, p0, p1, p2, &lights[0])
    }
}

/// The unit normal of the triangle `p0 p1 p2`: the normalized cross
/// product of its edge vectors `p1 - p0` and `p2 - p0`.
pub open spec fn triangle_normal_spec(p0: Vec3, p1: Vec3, p2: Vec3) -> Vec3 {
    vec3_normalize_spec(vec3_cross_spec(vec3_sub_spec(p1, p0), vec3_sub_spec(p2, p0)))
}

/// A flat colour shaded by a light over a triangle: with `k` the
/// `ONE`-scaled magnitude of the cosine between the triangle normal and
/// the normalized light direction, the RGB channels are scaled by
/// `1 - 0.4 * k` (never below zero); alpha is kept.
pub open spec fn shade_color_spec(
    color: Color,
    p0: Vec3,
    p1: Vec3,
    p2: Vec3,
    light: LightSource,
) -> Color {
    let d = vec3_dot_spec(triangle_normal_spec(p0, p1, p2), vec3_normalize_spec(light.direction));
    let k = div_trunc(if d >= 0 {
        d
    } else {
        -d
    }, ONE as int);
    let factor = shade_factor_spec(k);
    Color {
        r: div_trunc(color.r * factor, ONE as int) as i64,
        g: div_trunc(color.g * factor, ONE as int) as i64,
        b: div_trunc(color.b * factor, ONE as int) as i64,
        a: color.a,
    }
}

/// Shades a flat colour by the light over the triangle `p0 p1 p2`.
pub fn shade_color(color: Color, p0: Vec3, p1: Vec3, p2: Vec3, light: &LightSource) -> (r: Color)
    requires
        color.wf(),
        p0.in_range(COORD_LIMIT as int),
        p1.in_range(COORD_LIMIT as int),
        p2.in_range(COORD_LIMIT as int),
    ensures
        r == shade_color_spec(color, p0, p1, p2, *light),
        r.wf(),
{
    let e1 = vec3_sub(p1, p0);
    let e2 = vec3_sub(p2, p0);
    let norm = vec3_normalized(vec3_cross(e1, e2));
    let ldir = vec3_normalized(light.direction);
    let d = vec3_dot(norm, ldir);
    proof {
        lemma_mul_mag(norm.x as int, ldir.x as int, ONE as int, ONE as int);
        lemma_mul_mag(norm.y as int, ldir.y as int, ONE as int, ONE as int);
        lemma_mul_mag(norm.z as int, ldir.z as int, ONE as int, ONE as int);
    }
    let mag = if d >= 0 {
        d
    } else {
        -d
    };
    let k = div_trunc_i64(mag, ONE);
    proof {
        lemma_div_trunc_within(mag as int, ONE as int, 3 * ONE);
    }
    let factor = shade_factor(k);
    proof {
        lemma_mul_mag(color.r as int, factor as int, ONE as int, ONE as int);
        lemma_mul_mag(color.g as int, factor as int, ONE as int, ONE as int);
        lemma_mul_mag(color.b as int, factor as int, ONE as int, ONE as int);
        lemma_div_trunc_within(color.r * factor, ONE as int, ONE as int);
        lemma_div_trunc_within(color.g * factor, ONE as int, ONE as int);
        lemma_div_trunc_within(color.b * factor, ONE as int, ONE as int);
        crate::math::lemma_div_trunc_bound(color.r * factor, ONE as int);
        crate::math::lemma_div_trunc_bound(color.g * factor, ONE as int);
        crate::math::lemma_div_trunc_bound(color.b * factor, ONE as int);
    }
    Color {
        r: div_trunc_i64(color.r * factor, ONE),
        g: div_trunc_i64(color.g * factor, ONE),
        b: div_trunc_i64(color.b * factor, ONE),
        a: color.a,
    }
}

/// A 3D mesh: the shared vertex/face buffer, an offset, the cumulative
/// rotation applied so far, and the per-mesh draw mode.
#[derive(Clone, PartialEq, Eq, Debug)]
pub struct Mesh {
    /// The shared vertex and face buffer.
    pub mesh: MeshContents,
    /// Offset of the mesh; rotations pivot around it.
    pub r: Vec3,
    /// Cumulative rotation, for bookkeeping; transforms use only their
    /// own increment.
    pub theta: Euler,
    /// Draw edges only instead of filled faces.
    pub wireframe: bool,
}

impl Mesh {
    /// Every face indexes inside the vertex buffer, the offset is
    /// bounded, and the cumulative rotation is sound.
    pub open spec fn wf(self) -> bool {
        &&& self.mesh.wf()
        &&& self.r.in_range(COORD_LIMIT as int)
        &&& self.theta.wf()
    }

    /// An empty mesh at the origin, filled, with no rotation.
    pub fn new() -> (m: Mesh)
        ensures
            m.mesh.vertices@.len() == 0,
            m.mesh.faces@.len() == 0,
            m.r == Vec3::zero_spec(),
            m.theta == Euler::identity_spec(),
            !m.wireframe,
            m.wf(),
    {
        Mesh {
            mesh: MeshContents { vertices: Vec::new(), faces: Vec::new() },
            r: Vec3::zero(),
            theta: Euler::identity(),
            wireframe: false,
        }
    }

    /// Appends a vertex to the shared buffer and returns its index.
    pub fn add_vertex(&mut self, r: Vec3) -> (idx: usize)
        requires
            old(self).wf(),
            old(self).mesh.vertices@.len() < usize::MAX,
        ensures
            idx == old(self).mesh.vertices@.len(),
            final(self).mesh.vertices@ == old(self).mesh.vertices@.push(Vertex { r }),
            final(self).mesh.faces@ == old(self).mesh.faces@,
            final(self).r == old(self).r,
            final(self).theta == old(self).theta,
            final(self).wireframe == old(self).wireframe,
            final(self).wf(),
    {
        let idx = self.mesh.vertices.len();
        self.mesh.vertices.push(Vertex { r });
        idx
    }

    /// Appends a face. The three indices must already exist in the
    /// vertex buffer; a face may never dangle.
    pub fn add_face(&mut self, face: Face) -> (idx: usize)
        requires
            old(self).wf(),
            face.valid_for(old(self).mesh.vertices@.len() as int),
            old(self).mesh.faces@.len() < usize::MAX,
        ensures
            idx == old(self).mesh.faces@.len(),
            final(self).mesh.faces@ == old(self).mesh.faces@.push(face),
            final(self).mesh.vertices@ == old(self).mesh.vertices@,
            final(self).r == old(self).r,
            final(self).theta == old(self).theta,
            final(self).wireframe == old(self).wireframe,
            final(self).wf(),
    {
        let idx = self.mesh.faces.len();
        self.mesh.faces.push(face);
        idx
    }

    /// Moves the whole mesh by `delta`: the offset and every vertex in
    /// the shared buffer, so every face sees the move.
    pub fn translate(&mut self, delta: Vec3)
        requires
            old(self).wf(),
            delta.in_range(COORD_LIMIT as int),
            old(self).mesh.coords_in_range(COORD_LIMIT as int),
            -COORD_LIMIT <= old(self).r.x + delta.x <= COORD_LIMIT,
            -COORD_LIMIT <= old(self).r.y + delta.y <= COORD_LIMIT,
            -COORD_LIMIT <= old(self).r.z + delta.z <= COORD_LIMIT,
        ensures
            mesh_translated(*old(self), *final(self), delta),
            final(self).wf(),
    {
        let n = self.mesh.vertices.len();
        let mut moved: Vec<Vertex> = Vec::new();
        let mut i: usize = 0;
        while i < n
            invariant
                *self == *old(self),
                n == self.mesh.vertices@.len(),
                self.wf(),
                self.mesh.coords_in_range(COORD_LIMIT as int),
                delta.in_range(COORD_LIMIT as int),
                i <= n,
                moved@.len() == i as int,
                forall|j: int|
                    0 <= j < i ==> (#[trigger] moved@[j]).r == vec3_add_spec(
                        self.mesh.vertices@[j].r,
                        delta,
                    ),
            decreases n - i,
        {
            let p = self.mesh.vertices[i].r;
            moved.push(Vertex { r: crate::math::vec3_add(p, delta) });
            i = i + 1;
        }
        self.mesh.vertices = moved;
        self.r = crate::math::vec3_add(self.r, delta);
    }

    /// Rotates the whole mesh by the angle increment `delta` about its
    /// own offset: every vertex is carried around the pivot by the
    /// rotation matrix for `delta` alone, and `delta` is added onto the
    /// cumulative `theta`.
    pub fn rotate(&mut self, delta: Euler)
        requires
            old(self).wf(),
            delta.wf(),
            old(self).mesh.coords_in_range(COORD_LIMIT as int),
        ensures
            final(self).mesh.vertices@.len() == old(self).mesh.vertices@.len(),
            forall|j: int|
                0 <= j < old(self).mesh.vertices@.len() ==> (
                #[trigger] final(self).mesh.vertices@[j]).r == rotate_around_spec(
                    old(self).mesh.vertices@[j].r,
                    mat_rotation_spec(delta),
                    old(self).r,
                ),
            final(self).mesh.faces@ == old(self).mesh.faces@,
            final(self).r == old(self).r,
            final(self).theta == old(self).theta.plus_spec(delta),
            final(self).wireframe == old(self).wireframe,
            final(self).wf(),
    {
        self.theta = self.theta.plus(delta);
        let rotation = mat_rotation(delta);
        let n = self.mesh.vertices.len();
        let mut turned: Vec<Vertex> = Vec::new();
        let mut i: usize = 0;
        while i < n
            invariant
                self.mesh == old(self).mesh,
                self.r == old(self).r,
                n == self.mesh.vertices@.len(),
                old(self).wf(),
                self.mesh.coords_in_range(COORD_LIMIT as int),
                rotation == mat_rotation_spec(delta),
                rotation.in_range(crate::math::MAT_LIMIT as int),
                i <= n,
                turned@.len() == i as int,
                forall|j: int|
                    0 <= j < i ==> (#[trigger] turned@[j]).r == rotate_around_spec(
                        self.mesh.vertices@[j].r,
                        mat_rotation_spec(delta),
                        self.r,
                    ),
            decreases n - i,
        {
            let p = self.mesh.vertices[i].r;
            turned.push(Vertex { r: vec3_rotate_around(p, rotation, self.r) });
            i = i + 1;
        }
        self.mesh.vertices = turned;
    }

    /// Chooses between wireframe and filled drawing for this mesh.
    pub fn wireframe(&mut self, wireframe: bool)
        ensures
            *final(self) == (Mesh { wireframe, ..*old(self) }),
    {
        self.wireframe = wireframe;
    }

    /// The same mesh, placed at offset `r`. The vertices do not move;
    /// only future rotations pivot around the new offset.
    pub fn position(self, r: Vec3) -> (m: Mesh)
        requires
            r.in_range(COORD_LIMIT as int),
        ensures
            m == (Mesh { r, ..self }),
    {
        Mesh { r, ..self }
    }

    /// Emits this mesh's draw commands, wireframe or filled according to
    /// the mesh's own flag.
    pub fn draw(&self, camera: &Camera, lights: &Vec<LightSource>, out: &mut Vec<DrawCmd>)
        requires
            self.wf(),
            self.mesh.coords_in_range(COORD_LIMIT as int),
            camera.wf(),
            lights@.len() >= 1,
        ensures
            final(out)@ == old(out)@ + if self.wireframe {
                wire_cmds_upto(*self, *camera, self.mesh.faces@.len() as int)
            } else {
                filled_cmds_upto(*self, *camera, lights@[0], self.mesh.faces@.len() as int)
            },
    {
        if self.wireframe {
            self.draw_wireframe(camera, lights, out)
        } else {
            self.draw_filled(camera, lights, out)
        }
    }

    /// Emits one shaded, filled polygon per face whose three corners all
    /// project; a face with any corner behind the camera plane is
    /// skipped, as the projection's policy demands.
    pub fn draw_filled(&self, camera: &Camera, lights: &Vec<LightSource>, out: &mut Vec<DrawCmd>)
        requires
            self.wf(),
            self.mesh.coords_in_range(COORD_LIMIT as int),
            camera.wf(),
            lights@.len() >= 1,
        ensures
            final(out)@ == old(out)@ + filled_cmds_upto(
                *self,
                *camera,
                lights@[0],
                self.mesh.faces@.len() as int,
            ),
    {
        let n = self.mesh.faces.len();
        let mut k: usize = 0;
        while k < n
            invariant
                self.wf(),
                self.mesh.coords_in_range(COORD_LIMIT as int),
                camera.wf(),
                lights@.len() >= 1,
                n == self.mesh.faces@.len(),
                k <= n,
                out@ == old(out)@ + filled_cmds_upto(*self, *camera, lights@[0], k as int),
            decreases n - k,
        {
            let face = self.mesh.faces[k];
            let shaded = face.shade(&self.mesh, lights);
            let (q0, q1, q2) = face.project(&self.mesh, camera);
            match (q0, q1, q2) {
                (Some(a), Some(b), Some(c)) => {
                    out.push(DrawCmd::Polygon { a, b, c, color: shaded });
                },
                _ => {},
            }
            proof {
                assert(out@ =~= old(out)@ + filled_cmds_upto(
                    *self,
                    *camera,
                    lights@[0],
                    k + 1,
                ));
            }
            k = k + 1;
        }
    }

    /// Emits up to three flat-coloured line segments per face, one per
    /// edge whose two endpoints both project.
    pub fn draw_wireframe(&self, camera: &Camera, lights: &Vec<LightSource>, out: &mut Vec<
        DrawCmd,
    >)
        requires
            self.wf(),
            self.mesh.coords_in_range(COORD_LIMIT as int),
            camera.wf(),
        ensures
            final(out)@ == old(out)@ + wire_cmds_upto(*self, *camera, self.mesh.faces@.len() as int),
    {
        let n = self.mesh.faces.len();
        let mut k: usize = 0;
        while k < n
            invariant
                self.wf(),
                self.mesh.coords_in_range(COORD_LIMIT as int),
                camera.wf(),
                n == self.mesh.faces@.len(),
                k <= n,
                out@ == old(out)@ + wire_cmds_upto(*self, *camera, k as int),
            decreases n - k,
        {
            let face = self.mesh.faces[k];
            let (e0, e1, e2) = face.project_lines(&self.mesh, camera);
            push_edge(out, e0, face.color);
            push_edge(out, e1, face.color);
            push_edge(out, e2, face.color);
            proof {
                assert(out@ =~= old(out)@ + wire_cmds_upto(*self, *camera, k + 1));
            }
            k = k + 1;
        }
    }

    /// Tessellates a `size x size` grid, sampled every `res` units, into
    /// two triangles per cell. The grid has `n = size / res` points per
    /// side centred on the origin; `heights` gives the height of each
    /// grid point, row by row, as sampled from the host's height
    /// function. Exactly `2 * (n - 1) * (n - 1)` faces are added.
    pub fn add_terrain(&mut self, size: i64, res: i64, heights: &Vec<i64>)
        requires
            old(self).wf(),
            0 < res <= size <= COORD_LIMIT,
            heights@.len() == (size / res) * (size / res),
            old(self).mesh.vertices@.len() + heights@.len() <= usize::MAX,
            old(self).mesh.faces@.len() + 2 * ((size / res - 1) * (size / res - 1)) <= usize::MAX,
        ensures
            terrain_extended(*old(self), *final(self), size as int, res as int, heights@),
            final(self).r == old(self).r,
            final(self).theta == old(self).theta,
            final(self).wireframe == old(self).wireframe,
            final(self).wf(),
    {
        let n: usize = ((size as u64) / (res as u64)) as usize;
        let half: i64 = ((size as u64) / 2) as i64;
        let base: usize = self.mesh.vertices.len();
        let fbase: usize = self.mesh.faces.len();
        proof {
            assert(n * res <= size) by (nonlinear_arith)
                requires
                    res > 0,
                    n == size / res,
                    size >= 0,
            ;
            assert(n >= 1) by (nonlinear_arith)
                requires
                    0 < res <= size,
                    n == size / res,
            ;
            assert((n - 1) * n + (n - 1) < n * n) by (nonlinear_arith)
                requires
                    n >= 1,
            ;
        }
        let mut j: usize = 0;
        while j < n
            invariant
                self.r == old(self).r,
                self.theta == old(self).theta,
                self.wireframe == old(self).wireframe,
                self.mesh.faces@ == old(self).mesh.faces@,
                self.wf(),
                0 < res <= size <= COORD_LIMIT,
                n == size / res,
                n * res <= size,
                n >= 1,
                half == size / 2,
                heights@.len() == n * n,
                base == old(self).mesh.vertices@.len(),
                base + n * n <= usize::MAX,
                j <= n,
                self.mesh.vertices@.len() == base + j * n,
                forall|v: int| 0 <= v < base ==> self.mesh.vertices@[v] == old(self).mesh.vertices@[v],
                forall|j2: int, i2: int|
                    0 <= j2 < j && 0 <= i2 < n ==> #[trigger] grid_vertex_at(
                        self.mesh.vertices@,
                        base as int,
                        n as int,
                        j2,
                        i2,
                        size as int,
                        res as int,
                        heights@,
                    ),
            decreases n - j,
        {
            proof {
                assert(j * n + n <= n * n && (j + 1) * n == j * n + n) by (nonlinear_arith)
                    requires
                        0 <= j < n,
                ;
            }
            let mut i: usize = 0;
            while i < n
                invariant
                    self.r == old(self).r,
                    self.theta == old(self).theta,
                    self.wireframe == old(self).wireframe,
                    self.mesh.faces@ == old(self).mesh.faces@,
                    self.wf(),
                    0 < res <= size <= COORD_LIMIT,
                    n == size / res,
                    n * res <= size,
                    half == size / 2,
                    heights@.len() == n * n,
                    base == old(self).mesh.vertices@.len(),
                    base + n * n <= usize::MAX,
                    j < n,
                    j * n + n <= n * n,
                    i <= n,
                    self.mesh.vertices@.len() == base + j * n + i,
                    forall|v: int| 0 <= v < base ==> self.mesh.vertices@[v] == old(self).mesh.vertices@[v],
                    forall|j2: int, i2: int|
                        (0 <= j2 < j && 0 <= i2 < n) || (j2 == j && 0 <= i2 < i)
                            ==> #[trigger] grid_vertex_at(
                            self.mesh.vertices@,
                            base as int,
                            n as int,
                            j2,
                            i2,
                            size as int,
                            res as int,
                            heights@,
                        ),
                decreases n - i,
            {
                proof {
                    assert(i * res < n * res && j * res < n * res) by (nonlinear_arith)
                        requires
                            0 <= i < n,
                            0 <= j < n,
                            res > 0,
                    ;
                    assert(j * n + i < n * n) by (nonlinear_arith)
                        requires
                            0 <= i < n,
                            0 <= j < n,
                    ;
                }
                let x: i64 = (i as i64) * res - half;
                let z: i64 = (j as i64) * res - half;
                let y: i64 = heights[j * n + i];
                let ghost before = self.mesh.vertices@;
                self.add_vertex(Vec3 { x, y, z });
                proof {
                    let vs = self.mesh.vertices@;
                    let prev = base + j * n + i;
                    assert forall|j2: int, i2: int|
                        (0 <= j2 < j && 0 <= i2 < n) || (j2 == j && 0 <= i2 <= i) implies
                        #[trigger] grid_vertex_at(
                            vs,
                            base as int,
                            n as int,
                            j2,
                            i2,
                            size as int,
                            res as int,
                            heights@,
                        ) by {
                        if j2 == j && i2 == i {
                            assert(base + j2 * n + i2 == prev) by (nonlinear_arith)
                                requires
                                    j2 == j,
                                    i2 == i,
                                    prev == base + j * n + i,
                            ;
                        } else {
                            assert(base + j2 * n + i2 < prev && 0 <= base + j2 * n
                                + i2) by (nonlinear_arith)
                                requires
                                    (0 <= j2 < j && 0 <= i2 < n) || (j2 == j && 0 <= i2 < i),
                                    prev == base + j * n + i,
                                    0 <= i,
                                    0 <= base,
                                    j < n,
                            ;
                            assert(grid_vertex_at(
                                before,
                                base as int,
                                n as int,
                                j2,
                                i2,
                                size as int,
                                res as int,
                                heights@,
                            ));
                            assert(vs[base + j2 * n + i2] == before[base + j2 * n + i2]);
                        }
                    }
                }
                i = i + 1;
            }
            j = j + 1;
        }
        proof {
            assert(j * n == n * n) by (nonlinear_arith)
                requires
                    j == n,
            ;
        }
        let color = Color { r: 0, g: 250_000, b: 0, a: ONE };
        let m: usize = n - 1;
        let mut i: usize = 0;
        while i < m
            invariant
                self.r == old(self).r,
                self.theta == old(self).theta,
                self.wireframe == old(self).wireframe,
                self.wf(),
                0 < res <= size <= COORD_LIMIT,
                n == size / res,
                n >= 1,
                m == n - 1,
                half == size / 2,
                heights@.len() == n * n,
                base == old(self).mesh.vertices@.len(),
                fbase == old(self).mesh.faces@.len(),
                fbase + 2 * (m * m) <= usize::MAX,
                base + n * n <= usize::MAX,
                color == (Color { r: 0, g: 250_000, b: 0, a: ONE }),
                self.mesh.vertices@.len() == base + n * n,
                forall|v: int| 0 <= v < base ==> self.mesh.vertices@[v] == old(self).mesh.vertices@[v],
                forall|j2: int, i2: int|
                    0 <= j2 < n && 0 <= i2 < n ==> #[trigger] grid_vertex_at(
                        self.mesh.vertices@,
                        base as int,
                        n as int,
                        j2,
                        i2,
                        size as int,
                        res as int,
                        heights@,
                    ),
                i <= m,
                self.mesh.faces@.len() == fbase + 2 * (i * m),
                forall|f: int| 0 <= f < fbase ==> self.mesh.faces@[f] == old(self).mesh.faces@[f],
                forall|i2: int, j2: int|
                    0 <= i2 < i && 0 <= j2 < m ==> #[trigger] grid_faces_at(
                        self.mesh.faces@,
                        base as int,
                        fbase as int,
                        n as int,
                        i2,
                        j2,
                    ),
            decreases m - i,
        {
            proof {
                assert(i * m + m <= m * m && (i + 1) * m == i * m + m && 2 * (i * m) + 2 * m <= 2
                    * (m * m)) by (nonlinear_arith)
                    requires
                        0 <= i < m,
                ;
            }
            let mut j: usize = 0;
            while j < m
                invariant
                    self.r == old(self).r,
                    self.theta == old(self).theta,
                    self.wireframe == old(self).wireframe,
                    self.wf(),
                    n >= 1,
                    m == n - 1,
                    heights@.len() == n * n,
                    base == old(self).mesh.vertices@.len(),
                    fbase == old(self).mesh.faces@.len(),
                    fbase + 2 * (m * m) <= usize::MAX,
                    base + n * n <= usize::MAX,
                    color == (Color { r: 0, g: 250_000, b: 0, a: ONE }),
                    self.mesh.vertices@.len() == base + n * n,
                    forall|v: int|
                        0 <= v < base ==> self.mesh.vertices@[v] == old(self).mesh.vertices@[v],
                    forall|j2: int, i2: int|
                        0 <= j2 < n && 0 <= i2 < n ==> #[trigger] grid_vertex_at(
                            self.mesh.vertices@,
                            base as int,
                            n as int,
                            j2,
                            i2,
                            size as int,
                            res as int,
                            heights@,
                        ),
                    0 < res <= size <= COORD_LIMIT,
                    n == size / res,
                    half == size / 2,
                    i < m,
                    i * m + m <= m * m,
                    j <= m,
                    self.mesh.faces@.len() == fbase + 2 * (i * m + j),
                    forall|f: int| 0 <= f < fbase ==> self.mesh.faces@[f] == old(self).mesh.faces@[f],
                    forall|i2: int, j2: int|
                        (0 <= i2 < i && 0 <= j2 < m) || (i2 == i && 0 <= j2 < j)
                            ==> #[trigger] grid_faces_at(
                            self.mesh.faces@,
                            base as int,
                            fbase as int,
                            n as int,
                            i2,
                            j2,
                        ),
                decreases m - j,
            {
                proof {
                    assert(j * n + i + 1 < n * n && (j + 1) * n + i + 1 < n * n && i * m + j < m
                        * m) by (nonlinear_arith)
                        requires
                            0 <= i < m,
                            0 <= j < m,
                            m == n - 1,
                            n >= 1,
                    ;
                }
                let a: usize = base + j * n + i;
                let b: usize = base + j * n + i + 1;
                let c: usize = base + (j + 1) * n + i;
                let d: usize = base + (j + 1) * n + i + 1;
                let ghost before = self.mesh.faces@;
                self.add_face(Face::new(a, b, c).color(color));
                self.add_face(Face::new(d, b, c).color(color));
                proof {
                    let fs = self.mesh.faces@;
                    let prev = fbase + 2 * (i * m + j);
                    assert(fs.len() == prev + 2);
                    assert(fs[prev].a == a && fs[prev].b == b && fs[prev].c == c);
                    assert(fs[prev + 1].a == d && fs[prev + 1].b == b && fs[prev + 1].c == c);
                    assert forall|i2: int, j2: int|
                        (0 <= i2 < i && 0 <= j2 < m) || (i2 == i && 0 <= j2 <= j) implies
                        #[trigger] grid_faces_at(
                            fs,
                            base as int,
                            fbase as int,
                            n as int,
                            i2,
                            j2,
                        ) by {
                        if i2 == i && j2 == j {
                            assert(fbase + 2 * (i2 * (n - 1) + j2) == prev) by (nonlinear_arith)
                                requires
                                    i2 == i,
                                    j2 == j,
                                    m == n - 1,
                                    prev == fbase + 2 * (i * m + j),
                            ;
                        } else {
                            let k = fbase + 2 * (i2 * (n - 1) + j2);
                            assert(fbase <= k && k + 1 < prev) by (nonlinear_arith)
                                requires
                                    (0 <= i2 < i && 0 <= j2 < m) || (i2 == i && 0 <= j2 < j),
                                    m == n - 1,
                                    prev == fbase + 2 * (i * m + j),
                                    k == fbase + 2 * (i2 * (n - 1) + j2),
                                    0 <= j,
                                    0 <= fbase,
                            ;
                            assert(grid_faces_at(before, base as int, fbase as int, n as int, i2, j2));
                            assert(fs[k] == before[k] && fs[k + 1] == before[k + 1]);
                        }
                    }
                }
                j = j + 1;
            }
            proof {
                assert(i * m + m == (i + 1) * m) by (nonlinear_arith);
            }
            i = i + 1;
        }
        proof {
            assert(i * m == m * m) by (nonlinear_arith)
                requires
                    i == m,
            ;
        }
    }

    /// An eight-faced bipyramid: four equatorial vertices `size` units
    /// from the centre, and an apex `2 * size` above and below, every
    /// face sharing one apex.
    pub fn new_diamond(size: i64) -> (m: Mesh)
        requires
            0 <= size <= COORD_LIMIT / 2,
        ensures
            m.mesh.vertices@.len() == 6,
            m.mesh.faces@.len() == 8,
            diamond_vertices(m.mesh.vertices@, size as int),
            diamond_faces(m.mesh.faces@),
            m.r == Vec3::zero_spec(),
            m.theta == Euler::identity_spec(),
            !m.wireframe,
            m.wf(),
    {
        let mut mesh = Mesh::new();
        let a = mesh.add_vertex(Vec3 { x: -size, y: 0, z: 0 });
        let b = mesh.add_vertex(Vec3 { x: 0, y: 0, z: size });
        let c = mesh.add_vertex(Vec3 { x: size, y: 0, z: 0 });
        let d = mesh.add_vertex(Vec3 { x: 0, y: 0, z: -size });
        let e = mesh.add_vertex(Vec3 { x: 0, y: 2 * size, z: 0 });
        let f = mesh.add_vertex(Vec3 { x: 0, y: -(2 * size), z: 0 });
        let color = Color { r: 100_000, g: 100_000, b: 900_000, a: 400_000 };
        mesh.add_face(Face::new(a, e, b).color(color));
        mesh.add_face(Face::new(b, e, c).color(color));
        mesh.add_face(Face::new(c, e, d).color(color));
        mesh.add_face(Face::new(d, e, a).color(color));
        mesh.add_face(Face::new(a, f, b).color(color));
        mesh.add_face(Face::new(b, f, c).color(color));
        mesh.add_face(Face::new(c, f, d).color(color));
        mesh.add_face(Face::new(d, f, a).color(color));
        mesh
    }
}

/// What `Mesh::translate` does: the offset and every vertex move by
/// `delta`, and everything else stays.
pub open spec fn mesh_translated(before: Mesh, after: Mesh, delta: Vec3) -> bool {
    &&& after.mesh.vertices@.len() == before.mesh.vertices@.len()
    &&& forall|j: int|
        0 <= j < before.mesh.vertices@.len() ==> (#[trigger] after.mesh.vertices@[j]).r
            == vec3_add_spec(before.mesh.vertices@[j].r, delta)
    &&& after.mesh.faces@ == before.mesh.faces@
    &&& after.r == vec3_add_spec(before.r, delta)
    &&& after.theta == before.theta
    &&& after.wireframe == before.wireframe
}

/// Moving `v` by `d` stays representable in the machine integers.
pub open spec fn translation_fits(v: Vec3, d: Vec3) -> bool {
    &&& i64::MIN <= v.x + d.x <= i64::MAX
    &&& i64::MIN <= v.y + d.y <= i64::MAX
    &&& i64::MIN <= v.z + d.z <= i64::MAX
}

/// Law: translating a mesh by `d` and then by `-d` restores every
/// vertex position, and the offset, exactly — the integer world has no
/// rounding to lose. It holds for any `d` for which the two moves are
/// representable at all: `-d` exists and no position overflows on the
/// way out.
pub proof fn lemma_translate_round_trip(m0: Mesh, m1: Mesh, m2: Mesh, d: Vec3)
    requires
        d.x > i64::MIN && d.y > i64::MIN && d.z > i64::MIN,
        forall|j: int|
            0 <= j < m0.mesh.vertices@.len() ==> translation_fits(
                (#[trigger] m0.mesh.vertices@[j]).r,
                d,
            ),
        translation_fits(m0.r, d),
        mesh_translated(m0, m1, d),
        mesh_translated(
            m1,
            m2,
            Vec3 { x: (-d.x) as i64, y: (-d.y) as i64, z: (-d.z) as i64 },
        ),
    ensures
        m2.mesh.vertices@.len() == m0.mesh.vertices@.len(),
        forall|j: int|
            0 <= j < m0.mesh.vertices@.len() ==> (#[trigger] m2.mesh.vertices@[j]).r
                == m0.mesh.vertices@[j].r,
        m2.r == m0.r,
        m2.mesh.faces@ == m0.mesh.faces@,
        m2.theta == m0.theta,
        m2.wireframe == m0.wireframe,
{
    assert forall|j: int|
        0 <= j < m0.mesh.vertices@.len() implies (#[trigger] m2.mesh.vertices@[j]).r
        == m0.mesh.vertices@[j].r by {
        assert(translation_fits(m0.mesh.vertices@[j].r, d));
        assert(m1.mesh.vertices@[j].r == vec3_add_spec(m0.mesh.vertices@[j].r, d));
    }
}

/// Law: rotating a mesh by the identity angles leaves every vertex
/// position unchanged.
pub proof fn lemma_mesh_rotate_identity(m0: Mesh, m1: Mesh)
    requires
        m0.wf(),
        m0.mesh.coords_in_range(COORD_LIMIT as int),
        m1.mesh.vertices@.len() == m0.mesh.vertices@.len(),
        forall|j: int|
            0 <= j < m0.mesh.vertices@.len() ==> (#[trigger] m1.mesh.vertices@[j]).r
                == rotate_around_spec(
                m0.mesh.vertices@[j].r,
                mat_rotation_spec(Euler::identity_spec()),
                m0.r,
            ),
    ensures
        forall|j: int|
            0 <= j < m0.mesh.vertices@.len() ==> (#[trigger] m1.mesh.vertices@[j]).r
                == m0.mesh.vertices@[j].r,
{
    assert forall|j: int|
        0 <= j < m0.mesh.vertices@.len() implies (#[trigger] m1.mesh.vertices@[j]).r
        == m0.mesh.vertices@[j].r by {
        assert(m0.mesh.vertices@[j].r.in_range(COORD_LIMIT as int));
        crate::math::lemma_rotate_identity(m0.mesh.vertices@[j].r, m0.r);
    }
}

/// Law: the shading factor is the full `ONE` exactly when the light
/// grazes the face (cosine zero), drops to exactly `0.6 * ONE` when the
/// light strikes it square on (cosine magnitude one), and for any
/// cosine in between stays within those two bounds.
pub proof fn lemma_shade_factor_bounds(k: int)
    ensures
        shade_factor_spec(0) == ONE,
        shade_factor_spec(ONE as int) == 600_000,
        0 <= k ==> 0 <= shade_factor_spec(k) <= ONE,
        0 <= k <= ONE ==> 600_000 <= shade_factor_spec(k) <= ONE,
{
    if 0 <= k {
        crate::math::lemma_div_trunc_bound(2 * k, 5);
        if k <= ONE {
            assert((2 * k) / 5 <= (2 * ONE as int) / 5) by (nonlinear_arith)
                requires
                    0 <= k <= ONE,
            ;
        }
    }
}

/// Law: a face whose normal is orthogonal to the light keeps its colour
/// exactly; one square to the light has its RGB channels scaled by
/// exactly 0.6.
pub proof fn lemma_shade_extremes(color: Color, p0: Vec3, p1: Vec3, p2: Vec3, light: LightSource)
    requires
        color.wf(),
    ensures
        vec3_dot_spec(triangle_normal_spec(p0, p1, p2), vec3_normalize_spec(light.direction)) == 0
            ==> shade_color_spec(color, p0, p1, p2, light) == color,
        crate::math::abs(
            vec3_dot_spec(triangle_normal_spec(p0, p1, p2), vec3_normalize_spec(light.direction)),
        ) == ONE * ONE ==> shade_color_spec(color, p0, p1, p2, light) == (Color {
            r: div_trunc(color.r * 600_000, ONE as int) as i64,
            g: div_trunc(color.g * 600_000, ONE as int) as i64,
            b: div_trunc(color.b * 600_000, ONE as int) as i64,
            a: color.a,
        }),
{
    let d = vec3_dot_spec(triangle_normal_spec(p0, p1, p2), vec3_normalize_spec(light.direction));
    if d == 0 {
        lemma_shade_factor_bounds(0);
        crate::math::lemma_div_trunc_exact(0, ONE as int);
        crate::math::lemma_div_trunc_exact(color.r as int, ONE as int);
        crate::math::lemma_div_trunc_exact(color.g as int, ONE as int);
        crate::math::lemma_div_trunc_exact(color.b as int, ONE as int);
    } else if crate::math::abs(d) == ONE * ONE {
        let m = if d >= 0 {
            d
        } else {
            -d
        };
        assert(m == ONE * ONE);
        crate::math::lemma_div_trunc_exact(ONE as int, ONE as int);
        assert(div_trunc(m, ONE as int) == ONE);
        lemma_shade_factor_bounds(ONE as int);
    }
}

/// The filled-mode command for one face: a shaded polygon when all three
/// corners project, nothing otherwise.
pub open spec fn face_filled_cmds(
    f: Face,
    m: MeshContents,
    camera: Camera,
    light: LightSource,
) -> Seq<DrawCmd> {
    let (q0, q1, q2) = f.project_spec(m, camera);
    match (q0, q1, q2) {
        (Some(a), Some(b), Some(c)) => seq![
            DrawCmd::Polygon { a, b, c, color: f.shade_spec(m, light) },
        ],
        _ => Seq::empty(),
    }
}

/// The command for one projected edge: a line in the face's flat colour,
/// or nothing when an endpoint fails to project.
pub open spec fn edge_cmds(e: Option<(Point2, Point2)>, color: Color) -> Seq<DrawCmd> {
    match e {
        Some(pq) => seq![
            DrawCmd::Line {
                x0: pq.0.x,
                y0: pq.0.y,
                x1: pq.1.x,
                y1: pq.1.y,
                color,
                width: LINE_WIDTH,
            },
        ],
        None => Seq::empty(),
    }
}

/// The wireframe commands for one face: its projectable edges in order.
pub open spec fn face_wire_cmds(f: Face, m: MeshContents, camera: Camera) -> Seq<DrawCmd> {
    let (e0, e1, e2) = f.project_lines_spec(m, camera);
    edge_cmds(e0, f.color) + edge_cmds(e1, f.color) + edge_cmds(e2, f.color)
}

/// The filled-mode commands of the mesh's first `k` faces, in face order.
pub open spec fn filled_cmds_upto(mesh: Mesh, camera: Camera, light: LightSource, k: int) -> Seq<
    DrawCmd,
>
    decreases k,
{
    if k <= 0 {
        Seq::empty()
    } else {
        filled_cmds_upto(mesh, camera, light, k - 1) + face_filled_cmds(
            mesh.mesh.faces@[k - 1],
            mesh.mesh,
            camera,
            light,
        )
    }
}

/// The wireframe commands of the mesh's first `k` faces, in face order.
pub open spec fn wire_cmds_upto(mesh: Mesh, camera: Camera, k: int) -> Seq<DrawCmd>
    decreases k,
{
    if k <= 0 {
        Seq::empty()
    } else {
        wire_cmds_upto(mesh, camera, k - 1) + face_wire_cmds(
            mesh.mesh.faces@[k - 1],
            mesh.mesh,
            camera,
        )
    }
}

/// Appends the line command for one projectable edge.
pub(crate) fn push_edge(out: &mut Vec<DrawCmd>, e: Option<(Point2, Point2)>, color: Color)
    ensures
        final(out)@ == old(out)@ + edge_cmds(e, color),
{
    match e {
        Some(pq) => {
            out.push(
                DrawCmd::Line {
                    x0: pq.0.x,
                    y0: pq.0.y,
                    x1: pq.1.x,
                    y1: pq.1.y,
                    color,
                    width: LINE_WIDTH,
                },
            );
            proof {
                assert(out@ =~= old(out)@ + edge_cmds(e, color));
            }
        },
        None => {
            proof {
                assert(out@ =~= old(out)@ + edge_cmds(e, color));
            }
        },
    }
}

/// The vertex for grid point `(j2, i2)` sits at index
/// `base + j2 * n + i2` with the position the height field dictates.
pub open spec fn grid_vertex_at(
    vertices: Seq<Vertex>,
    base: int,
    n: int,
    j2: int,
    i2: int,
    size: int,
    res: int,
    heights: Seq<i64>,
) -> bool {
    vertices[base + j2 * n + i2].r == (Vec3 {
        x: (i2 * res - size / 2) as i64,
        y: heights[j2 * n + i2],
        z: (j2 * res - size / 2) as i64,
    })
}

/// The two faces for grid cell `(i2, j2)` triangulate the quad between
/// grid rows `j2` and `j2 + 1` at column `i2`.
pub open spec fn grid_faces_at(
    faces: Seq<Face>,
    base: int,
    fbase: int,
    n: int,
    i2: int,
    j2: int,
) -> bool {
    let a = base + j2 * n + i2;
    let b = a + 1;
    let c = base + (j2 + 1) * n + i2;
    let d = c + 1;
    let k = fbase + 2 * (i2 * (n - 1) + j2);
    &&& faces[k].a == a && faces[k].b == b && faces[k].c == c
    &&& faces[k + 1].a == d && faces[k + 1].b == b && faces[k + 1].c == c
}

/// What `add_terrain` leaves behind: the old vertices and faces intact,
/// `n * n` grid vertices appended, and `2 * (n - 1) * (n - 1)` faces
/// triangulating the grid.
pub open spec fn terrain_extended(
    before: Mesh,
    after: Mesh,
    size: int,
    res: int,
    heights: Seq<i64>,
) -> bool {
    let n = size / res;
    let base = before.mesh.vertices@.len() as int;
    let fbase = before.mesh.faces@.len() as int;
    &&& after.mesh.vertices@.len() == base + n * n
    &&& after.mesh.faces@.len() == fbase + 2 * ((n - 1) * (n - 1))
    &&& forall|v: int| 0 <= v < base ==> after.mesh.vertices@[v] == before.mesh.vertices@[v]
    &&& forall|f: int| 0 <= f < fbase ==> after.mesh.faces@[f] == before.mesh.faces@[f]
    &&& forall|j2: int, i2: int|
        0 <= j2 < n && 0 <= i2 < n ==> #[trigger] grid_vertex_at(
            after.mesh.vertices@,
            base,
            n,
            j2,
            i2,
            size,
            res,
            heights,
        )
    &&& forall|i2: int, j2: int|
        0 <= i2 < n - 1 && 0 <= j2 < n - 1 ==> #[trigger] grid_faces_at(
            after.mesh.faces@,
            base,
            fbase,
            n,
            i2,
            j2,
        )
}

/// The eight faces of a diamond, in builder order: each one triangulates
/// an apex (vertex 4 above, 5 below) with two adjacent equatorial
/// corners, in the diamond's translucent blue.
pub open spec fn diamond_faces(faces: Seq<Face>) -> bool {
    let color = Color { r: 100_000, g: 100_000, b: 900_000, a: 400_000 };
    &&& faces.len() == 8
    &&& faces[0] == (Face { a: 0, b: 4, c: 1, color })
    &&& faces[1] == (Face { a: 1, b: 4, c: 2, color })
    &&& faces[2] == (Face { a: 2, b: 4, c: 3, color })
    &&& faces[3] == (Face { a: 3, b: 4, c: 0, color })
    &&& faces[4] == (Face { a: 0, b: 5, c: 1, color })
    &&& faces[5] == (Face { a: 1, b: 5, c: 2, color })
    &&& faces[6] == (Face { a: 2, b: 5, c: 3, color })
    &&& faces[7] == (Face { a: 3, b: 5, c: 0, color })
}

/// The six vertices of a diamond of the given size, in builder order.
pub open spec fn diamond_vertices(vertices: Seq<Vertex>, size: int) -> bool {
    &&& vertices.len() == 6
    &&& vertices[0].r == (Vec3 { x: (-size) as i64, y: 0, z: 0 })
    &&& vertices[1].r == (Vec3 { x: 0, y: 0, z: size as i64 })
    &&& vertices[2].r == (Vec3 { x: size as i64, y: 0, z: 0 })
    &&& vertices[3].r == (Vec3 { x: 0, y: 0, z: (-size) as i64 })
    &&& vertices[4].r == (Vec3 { x: 0, y: (2 * size) as i64, z: 0 })
    &&& vertices[5].r == (Vec3 { x: 0, y: (-(2 * size)) as i64, z: 0 })
}

/// An edge of projected endpoints, present only when both project.
pub open spec fn edge_of(p: Option<Point2>, q: Option<Point2>) -> Option<(Point2, Point2)> {
    match (p, q) {
        (Some(p), Some(q)) => Some((p, q)),
        _ => None,
    }
}

pub(crate) fn edge_exec(p: Option<Point2>, q: Option<Point2>) -> (r: Option<(Point2, Point2)>)
    ensures
        r == edge_of(p, q),
{
    match (p, q) {
        (Some(p), Some(q)) => Some((p, q)),
        _ => None,
    }
}

/// The shading factor for a `ONE`-scaled cosine magnitude `k`:
/// `1 - 0.4 * k`, floored at zero.
pub open spec fn shade_factor_spec(k: int) -> int {
    if ONE - div_trunc(2 * k, 5) >= 0 {
        ONE - div_trunc(2 * k, 5)
    } else {
        0
    }
}

/// Computes the shading factor; the result lies in `[0, ONE]` for any
/// nonnegative `k`.
pub fn shade_factor(k: i64) -> (r: i64)
    requires
        0 <= k <= 3 * ONE,
    ensures
        r == shade_factor_spec(k as int),
        0 <= r <= ONE,
{
    let cut = div_trunc_i64(2 * k, 5);
    proof {
        crate::math::lemma_div_trunc_bound(2 * k as int, 5);
    }
    if ONE - cut >= 0 {
        ONE - cut
    } else {
        0
    }
}

} // verus!
