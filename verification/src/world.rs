//! The world and its per-frame renderer: face collection, depth
//! ordering (painter's algorithm) and draw-command emission.

use vstd::assert_multisets_equal;
use vstd::prelude::*;

use crate::camera::Camera;
use crate::lights::LightSource;
use crate::math::vec3_add_spec;
use crate::math::vec3_len;
use crate::math::vec3_len_spec;
use crate::math::vec3_sub;
use crate::math::vec3_sub_spec;
use crate::mesh::Mesh;
use crate::mesh::shade_color;
use crate::mesh::shade_color_spec;
use crate::mesh::edge_of;
use crate::types::COORD_LIMIT;
use crate::types::Color;
use crate::types::DrawCmd;
use crate::types::ONE;
use crate::types::Vec3;

verus! {

/// A named grouping of meshes with a shared offset.
#[derive(Clone, PartialEq, Eq, Debug)]
pub struct WorldObject {
    /// The meshes owned by this object.
    pub meshes: Vec<Mesh>,
    /// Offset of the object.
    pub r: Vec3,
}

impl WorldObject {
    pub open spec fn wf(self) -> bool {
        &&& forall|i: int| 0 <= i < self.meshes@.len() ==> (#[trigger] self.meshes@[i]).wf()
        &&& self.r.in_range(COORD_LIMIT as int)
    }

    /// An empty object at the origin.
    pub fn new() -> (o: WorldObject)
        ensures
            o.meshes@.len() == 0,
            o.r == Vec3::zero_spec(),
            o.wf(),
    {
        WorldObject { meshes: Vec::new(), r: Vec3::zero() }
    }

    /// The object with `mesh` appended.
    pub fn mesh(self, mesh: Mesh) -> (o: WorldObject)
        requires
            self.wf(),
            mesh.wf(),
        ensures
            o.meshes@ == self.meshes@.push(mesh),
            o.r == self.r,
            o.wf(),
    {
        let mut meshes = self.meshes;
        meshes.push(mesh);
        WorldObject { meshes, r: self.r }
    }
}

/// One face snapshot staged for depth-ordered drawing: a copy of the
/// three corner positions taken at collection time, the face's flat
/// colour, the owning mesh's draw mode, and the camera distance of the
/// face's first corner. Later mesh mutation cannot reach it.
#[derive(Clone, Copy, PartialEq, Eq, Debug)]
pub struct DepthTriangle {
    pub p0: Vec3,
    pub p1: Vec3,
    pub p2: Vec3,
    /// Flat colour of the face.
    pub color: Color,
    /// Whether the owning mesh draws as wireframe.
    pub wireframe: bool,
    /// Camera distance of the first corner; `None` stands for a distance
    /// that could not be measured and orders before every other.
    pub dist: Option<u64>,
}

impl DepthTriangle {
    /// The snapshot's corners lie within the world's coordinate bounds
    /// and its colour is valid.
    pub open spec fn in_range(self) -> bool {
        &&& self.p0.in_range(COORD_LIMIT as int)
        &&& self.p1.in_range(COORD_LIMIT as int)
        &&& self.p2.in_range(COORD_LIMIT as int)
        &&& self.color.wf()
    }
}

/// The total draw order on depths: an unmeasured distance comes before
/// everything, measured distances order by value. This is the fixed
/// tie-break policy the painter's algorithm needs; comparing never
/// fails.
pub open spec fn depth_le(a: Option<u64>, b: Option<u64>) -> bool {
    match (a, b) {
        (Option::None, _) => true,
        (Option::Some(_), Option::None) => false,
        (Option::Some(x), Option::Some(y)) => x <= y,
    }
}

/// Compares two depths in the draw order.
pub fn depth_le_exec(a: Option<u64>, b: Option<u64>) -> (r: bool)
    ensures
        r == depth_le(a, b),
{
    match (a, b) {
        (Option::None, _) => true,
        (Option::Some(_), Option::None) => false,
        (Option::Some(x), Option::Some(y)) => x <= y,
    }
}

/// The snapshots are in draw order: nearer (or unmeasured) first.
pub open spec fn sorted_by_depth(s: Seq<DepthTriangle>) -> bool {
    forall|i: int, j: int| 0 <= i <= j < s.len() ==> depth_le(s[i].dist, s[j].dist)
}

/// Inserting anywhere into a sequence adds exactly one occurrence to its
/// multiset.
proof fn lemma_insert_to_multiset(s: Seq<DepthTriangle>, pos: int, x: DepthTriangle)
    requires
        0 <= pos <= s.len(),
    ensures
        s.insert(pos, x).to_multiset() == s.to_multiset().insert(x),
{
    broadcast use vstd::seq_lib::group_to_multiset_ensures;

    let l = s.subrange(0, pos);
    let r = s.subrange(pos, s.len() as int);
    assert(s.insert(pos, x) =~= l.push(x) + r);
    assert(s =~= l + r);
    vstd::seq_lib::lemma_multiset_commutative(l.push(x), r);
    vstd::seq_lib::lemma_multiset_commutative(l, r);
    assert(l.push(x).to_multiset() =~= l.to_multiset().insert(x));
    assert_multisets_equal!(s.insert(pos, x).to_multiset(), s.to_multiset().insert(x));
}

/// Sorts the snapshots by distance, ascending, with unmeasured
/// distances first: the staged faces end up in painter's order. The
/// result holds exactly the snapshots that went in.
pub fn sort_triangles(tris: &mut Vec<DepthTriangle>)
    ensures
        sorted_by_depth(final(tris)@),
        final(tris)@.to_multiset() == old(tris)@.to_multiset(),
        final(tris)@.len() == old(tris)@.len(),
{
    broadcast use vstd::seq_lib::group_to_multiset_ensures;

    let n = tris.len();
    let mut out: Vec<DepthTriangle> = Vec::new();
    let mut i: usize = 0;
    while i < n
        invariant
            *tris == *old(tris),
            n == tris@.len(),
            i <= n,
            out@.len() == i as int,
            sorted_by_depth(out@),
            out@.to_multiset() == tris@.subrange(0, i as int).to_multiset(),
        decreases n - i,
    {
        broadcast use vstd::seq_lib::group_to_multiset_ensures;

        let t = tris[i];
        let mut pos: usize = 0;
        while pos < out.len() && depth_le_exec(out[pos].dist, t.dist)
            invariant
                pos <= out@.len(),
                forall|q: int| 0 <= q < pos ==> depth_le(out@[q].dist, t.dist),
            decreases out@.len() - pos,
        {
            pos = pos + 1;
        }
        proof {
            if pos < out@.len() {
                assert(!depth_le(out@[pos as int].dist, t.dist));
                assert(depth_le(t.dist, out@[pos as int].dist));
            }
            lemma_insert_to_multiset(out@, pos as int, t);
            assert(tris@.subrange(0, i + 1) =~= tris@.subrange(0, i as int).push(t));
        }
        let ghost prev = out@;
        out.insert(pos, t);
        proof {
            assert forall|a: int, b: int| 0 <= a <= b < out@.len() implies depth_le(
                out@[a].dist,
                out@[b].dist,
            ) by {
                if a < pos && b == pos {
                    assert(depth_le(prev[a].dist, t.dist));
                } else if a == pos && b > pos {
                    assert(depth_le(t.dist, prev[pos as int].dist));
                    assert(depth_le(prev[pos as int].dist, prev[b - 1].dist));
                } else if a < pos && b > pos {
                    assert(depth_le(prev[a].dist, prev[b - 1].dist));
                } else if a > pos && b > pos {
                    assert(depth_le(prev[a - 1].dist, prev[b - 1].dist));
                }
            }
        }
        i = i + 1;
    }
    proof {
        assert(tris@.subrange(0, n as int) =~= tris@);
    }
    *tris = out;
}

/// How far the camera sits from a face's reference corner. Every face
/// uses the same reference point — its first corner — so the depth
/// metric is consistent across the whole frame.
pub open spec fn face_dist_spec(p0: Vec3, cam_pos: Vec3) -> Option<u64> {
    Some(vec3_len_spec(vec3_sub_spec(p0, cam_pos)) as u64)
}

/// The snapshot staged for face `i` of a mesh: a copy of its corner
/// positions, its colour, the mesh's draw mode, and its camera distance.
pub open spec fn snapshot_spec(m: Mesh, i: int, cam_pos: Vec3) -> DepthTriangle {
    let f = m.mesh.faces@[i];
    let (p0, p1, p2) = f.points_spec(m.mesh);
    DepthTriangle { p0, p1, p2, color: f.color, wireframe: m.wireframe, dist: face_dist_spec(p0, cam_pos) }
}

/// The snapshots of every face of one mesh, in face order.
pub open spec fn mesh_snaps(m: Mesh, cam_pos: Vec3) -> Seq<DepthTriangle> {
    Seq::new(m.mesh.faces@.len(), |i: int| snapshot_spec(m, i, cam_pos))
}

/// The snapshots of the first `k` meshes of an object, in order.
pub open spec fn object_snaps_upto(meshes: Seq<Mesh>, cam_pos: Vec3, k: int) -> Seq<DepthTriangle>
    decreases k,
{
    if k <= 0 {
        Seq::empty()
    } else {
        object_snaps_upto(meshes, cam_pos, k - 1) + mesh_snaps(meshes[k - 1], cam_pos)
    }
}

/// The snapshots of the first `k` objects of the world, in order.
pub open spec fn world_snaps_upto(objects: Seq<WorldObject>, cam_pos: Vec3, k: int) -> Seq<
    DepthTriangle,
>
    decreases k,
{
    if k <= 0 {
        Seq::empty()
    } else {
        world_snaps_upto(objects, cam_pos, k - 1) + object_snaps_upto(
            objects[k - 1].meshes@,
            cam_pos,
            objects[k - 1].meshes@.len() as int,
        )
    }
}

/// Every face of every mesh of every object, staged with its camera
/// distance: what one frame collects before sorting.
pub open spec fn world_snaps(w: World) -> Seq<DepthTriangle> {
    world_snaps_upto(w.objects@, w.camera.r, w.objects@.len() as int)
}

/// Every snapshot of the sequence has bounded corners and a valid
/// colour.
pub open spec fn tris_in_range(s: Seq<DepthTriangle>) -> bool {
    forall|i: int| 0 <= i < s.len() ==> (#[trigger] s[i]).in_range()
}

/// A face is drawn when its distance is under the cutoff; an unmeasured
/// distance is always drawn (it sorted first).
pub open spec fn depth_within(d: Option<u64>, limit: u64) -> bool {
    match d {
        Option::None => true,
        Option::Some(x) => x < limit,
    }
}

fn depth_within_exec(d: Option<u64>, limit: u64) -> (r: bool)
    ensures
        r == depth_within(d, limit),
{
    match d {
        Option::None => true,
        Option::Some(x) => x < limit,
    }
}

/// The draw commands of one staged face: nothing beyond the distance
/// cutoff; otherwise its projectable wireframe edges, or one shaded
/// polygon when all three corners project.
pub open spec fn tri_cmds(t: DepthTriangle, cam: Camera, light: LightSource, limit: u64) -> Seq<
    DrawCmd,
> {
    if !depth_within(t.dist, limit) {
        Seq::empty()
    } else {
        let q0 = cam.projected_spec(t.p0);
        let q1 = cam.projected_spec(t.p1);
        let q2 = cam.projected_spec(t.p2);
        if t.wireframe {
            crate::mesh::edge_cmds(edge_of(q0, q1), t.color) + crate::mesh::edge_cmds(
                edge_of(q1, q2),
                t.color,
            ) + crate::mesh::edge_cmds(edge_of(q2, q0), t.color)
        } else {
            match (q0, q1, q2) {
                (Some(a), Some(b), Some(c)) => seq![
                    DrawCmd::Polygon {
                        a,
                        b,
                        c,
                        color: shade_color_spec(t.color, t.p0, t.p1, t.p2, light),
                    },
                ],
                _ => Seq::empty(),
            }
        }
    }
}

/// The draw commands of the first `k` staged faces, in order.
pub open spec fn tri_cmds_upto(
    ts: Seq<DepthTriangle>,
    cam: Camera,
    light: LightSource,
    limit: u64,
    k: int,
) -> Seq<DrawCmd>
    decreases k,
{
    if k <= 0 {
        Seq::empty()
    } else {
        tri_cmds_upto(ts, cam, light, limit, k - 1) + tri_cmds(ts[k - 1], cam, light, limit)
    }
}

/// The world: every object, the camera, the lights, the clock, and the
/// per-frame scratch buffer of staged faces.
#[derive(Clone, Debug)]
pub struct World {
    /// The drawable objects.
    pub objects: Vec<WorldObject>,
    /// Elapsed time, in the host's tick units.
    pub t: i64,
    /// The camera every frame projects through.
    pub camera: Camera,
    /// The lights; the first one shades every face.
    pub lights: Vec<LightSource>,
    /// Per-frame scratch: rebuilt by every render pass, holding no
    /// authority over the mesh data.
    pub triangles: Vec<DepthTriangle>,
    /// Faces at or beyond this camera distance are skipped.
    pub draw_limit: u64,
    /// The colour the canvas is cleared to.
    pub background: Color,
}

impl World {
    pub open spec fn wf(self) -> bool {
        &&& self.camera.wf()
        &&& forall|i: int| 0 <= i < self.objects@.len() ==> (#[trigger] self.objects@[i]).wf()
        &&& self.lights@.len() >= 1
    }

    /// Every vertex of every mesh lies within the world bounds, so a
    /// frame can be measured and projected without overflow.
    pub open spec fn coords_in_range(self) -> bool {
        forall|o: int, m: int|
            0 <= o < self.objects@.len() && 0 <= m < self.objects@[o].meshes@.len()
                ==> (#[trigger] self.objects@[o].meshes@[m]).mesh.coords_in_range(
                COORD_LIMIT as int,
            )
    }

    /// An empty world with the default camera, one white light above and
    /// beside the origin, and a 600-unit draw cutoff over a black
    /// background.
    pub fn new() -> (w: World)
        ensures
            w.objects@.len() == 0,
            w.t == 0,
            w.camera == Camera::default_spec(),
            w.lights@.len() == 1,
            w.lights@[0] == (LightSource {
                r: Vec3 { x: 200, y: 100, z: 0 },
                direction: Vec3 { x: 200, y: 100, z: 0 },
                intensity: ONE,
                color: Vec3 { x: ONE, y: ONE, z: ONE },
                point_source: true,
            }),
            w.triangles@.len() == 0,
            w.draw_limit == 600,
            w.background == (Color { r: 0, g: 0, b: 0, a: ONE }),
            w.wf(),
    {
        let light = LightSource::new(Vec3 { x: 200, y: 100, z: 0 });
        let mut lights: Vec<LightSource> = Vec::new();
        lights.push(light);
        World {
            objects: Vec::new(),
            t: 0,
            camera: Camera::default(),
            lights,
            triangles: Vec::new(),
            draw_limit: 600,
            background: Color { r: 0, g: 0, b: 0, a: ONE },
        }
    }

    /// The world with `object` appended.
    pub fn object(self, object: WorldObject) -> (w: World)
        requires
            self.wf(),
            object.wf(),
        ensures
            w.objects@ == self.objects@.push(object),
            w.t == self.t && w.camera == self.camera && w.lights == self.lights,
            w.draw_limit == self.draw_limit && w.background == self.background,
            w.triangles == self.triangles,
            w.wf(),
    {
        let mut objects = self.objects;
        objects.push(object);
        World { objects, ..self }
    }

    /// Advances the clock by one host tick. Scripted motion is the
    /// host's policy: it calls [`World::translate_object`] (or the mesh
    /// transforms) with whatever function of the clock it wants.
    pub fn update(&mut self, dt: i64)
        requires
            i64::MIN <= old(self).t + dt <= i64::MAX,
        ensures
            final(self).t == old(self).t + dt,
            *final(self) == (World { t: (old(self).t + dt) as i64, ..*old(self) }),
    {
        self.t = self.t + dt;
    }

    /// Sets the camera viewport after a host resize.
    pub fn resize(&mut self, width: i64, height: i64)
        requires
            old(self).wf(),
            0 < width <= crate::types::VIEW_LIMIT,
            0 < height <= crate::types::VIEW_LIMIT,
        ensures
            final(self).camera == (Camera { width, height, ..old(self).camera }),
            *final(self) == (World { camera: final(self).camera, ..*old(self) }),
            final(self).wf(),
    {
        self.camera.resize(width, height);
    }

    /// The mutation hook for scripted per-object motion: moves one mesh
    /// of one object, leaving everything else untouched.
    pub fn translate_object(&mut self, oi: usize, mi: usize, delta: Vec3)
        requires
            old(self).wf(),
            oi < old(self).objects@.len(),
            mi < old(self).objects@[oi as int].meshes@.len(),
            delta.in_range(COORD_LIMIT as int),
            old(self).objects@[oi as int].meshes@[mi as int].mesh.coords_in_range(
                COORD_LIMIT as int,
            ),
            -COORD_LIMIT <= old(self).objects@[oi as int].meshes@[mi as int].r.x + delta.x
                <= COORD_LIMIT,
            -COORD_LIMIT <= old(self).objects@[oi as int].meshes@[mi as int].r.y + delta.y
                <= COORD_LIMIT,
            -COORD_LIMIT <= old(self).objects@[oi as int].meshes@[mi as int].r.z + delta.z
                <= COORD_LIMIT,
        ensures
            final(self).objects@.len() == old(self).objects@.len(),
            forall|o: int|
                0 <= o < old(self).objects@.len() && o != oi ==> final(self).objects@[o] == old(self).objects@[o],
            final(self).objects@[oi as int].r == old(self).objects@[oi as int].r,
            final(self).objects@[oi as int].meshes@.len() == old(self).objects@[oi as int].meshes@.len(),
            forall|m: int|
                0 <= m < old(self).objects@[oi as int].meshes@.len() && m != mi ==> final(self).objects@[oi as int].meshes@[m] == old(self).objects@[oi as int].meshes@[m],
            crate::mesh::mesh_translated(
                old(self).objects@[oi as int].meshes@[mi as int],
                final(self).objects@[oi as int].meshes@[mi as int],
                delta,
            ),
            final(self).t == old(self).t && final(self).camera == old(self).camera,
            final(self).lights == old(self).lights,
            final(self).triangles == old(self).triangles,
            final(self).draw_limit == old(self).draw_limit,
            final(self).background == old(self).background,
            final(self).wf(),
    {
        let obj = &mut self.objects[oi];
        let mesh = &mut obj.meshes[mi];
        mesh.translate(delta);
    }

    /// Moves the camera one step for a key press, using the fixed
    /// bindings: `a`/`d` sideways, `s`/`w` back and forward, `x`/`2`
    /// down and up. Any other key does nothing.
    pub fn move_camera(&mut self, key: char)
        requires
            old(self).wf(),
            -COORD_LIMIT + MOVE_STEP <= old(self).camera.r.x <= COORD_LIMIT - MOVE_STEP,
            -COORD_LIMIT + MOVE_STEP <= old(self).camera.r.y <= COORD_LIMIT - MOVE_STEP,
            -COORD_LIMIT + MOVE_STEP <= old(self).camera.r.z <= COORD_LIMIT - MOVE_STEP,
        ensures
            final(self).camera == (Camera {
                r: vec3_add_spec(old(self).camera.r, camera_key_delta(key)),
                ..old(self).camera
            }),
            *final(self) == (World { camera: final(self).camera, ..*old(self) }),
            final(self).wf(),
    {
        let delta = camera_key_delta_exec(key);
        self.camera.trans(delta);
    }

    /// Moves one mesh of one object one step for a key press, using the
    /// bindings `a`/`d` sideways and `s`/`w` back and forward. Any other
    /// key does nothing.
    pub fn move_object(&mut self, oi: usize, mi: usize, key: char)
        requires
            old(self).wf(),
            oi < old(self).objects@.len(),
            mi < old(self).objects@[oi as int].meshes@.len(),
            old(self).objects@[oi as int].meshes@[mi as int].mesh.coords_in_range(
                COORD_LIMIT as int,
            ),
            -COORD_LIMIT + MOVE_STEP <= old(self).objects@[oi as int].meshes@[mi as int].r.x
                <= COORD_LIMIT - MOVE_STEP,
            -COORD_LIMIT + MOVE_STEP <= old(self).objects@[oi as int].meshes@[mi as int].r.y
                <= COORD_LIMIT - MOVE_STEP,
            -COORD_LIMIT + MOVE_STEP <= old(self).objects@[oi as int].meshes@[mi as int].r.z
                <= COORD_LIMIT - MOVE_STEP,
        ensures
            final(self).objects@.len() == old(self).objects@.len(),
            forall|o: int|
                0 <= o < old(self).objects@.len() && o != oi ==> final(self).objects@[o] == old(self).objects@[o],
            final(self).objects@[oi as int].r == old(self).objects@[oi as int].r,
            final(self).objects@[oi as int].meshes@.len() == old(self).objects@[oi as int].meshes@.len(),
            forall|m: int|
                0 <= m < old(self).objects@[oi as int].meshes@.len() && m != mi ==> final(self).objects@[oi as int].meshes@[m] == old(self).objects@[oi as int].meshes@[m],
            crate::mesh::mesh_translated(
                old(self).objects@[oi as int].meshes@[mi as int],
                final(self).objects@[oi as int].meshes@[mi as int],
                object_key_delta(key),
            ),
            final(self).t == old(self).t && final(self).camera == old(self).camera,
            final(self).lights == old(self).lights,
            final(self).wf(),
    {
        let delta = object_key_delta_exec(key);
        self.translate_object(oi, mi, delta);
    }

    /// One frame of the painter's algorithm. In strict order: snapshot
    /// every face of every mesh of every object with its camera
    /// distance into the freshly cleared scratch buffer; sort the
    /// snapshots by distance, nearest (or unmeasured) first; then emit a
    /// clear of the background followed by each surviving face's
    /// commands in sorted order. The snapshots hold copies of the
    /// positions, so mesh mutation after this frame cannot disturb what
    /// was staged.
    pub fn render(&mut self) -> (cmds: Vec<DrawCmd>)
        requires
            old(self).wf(),
            old(self).coords_in_range(),
        ensures
            final(self).objects == old(self).objects,
            final(self).camera == old(self).camera,
            final(self).lights == old(self).lights,
            final(self).t == old(self).t,
            final(self).draw_limit == old(self).draw_limit,
            final(self).background == old(self).background,
            final(self).triangles@.to_multiset() == world_snaps(*old(self)).to_multiset(),
            sorted_by_depth(final(self).triangles@),
            cmds@ == seq![DrawCmd::Clear { color: old(self).background }] + tri_cmds_upto(
                final(self).triangles@,
                old(self).camera,
                old(self).lights@[0],
                old(self).draw_limit,
                final(self).triangles@.len() as int,
            ),
            final(self).wf(),
    {
        self.triangles.clear();
        let n_obj = self.objects.len();
        let mut oi: usize = 0;
        while oi < n_obj
            invariant
                self.objects == old(self).objects,
                self.camera == old(self).camera,
                self.lights == old(self).lights,
                self.t == old(self).t,
                self.draw_limit == old(self).draw_limit,
                self.background == old(self).background,
                self.wf(),
                self.coords_in_range(),
                n_obj == self.objects@.len(),
                oi <= n_obj,
                self.triangles@ == world_snaps_upto(self.objects@, self.camera.r, oi as int),
            decreases n_obj - oi,
        {
            let n_mesh = self.objects[oi].meshes.len();
            let mut mi: usize = 0;
            while mi < n_mesh
                invariant
                    self.objects == old(self).objects,
                    self.camera == old(self).camera,
                    self.lights == old(self).lights,
                    self.t == old(self).t,
                    self.draw_limit == old(self).draw_limit,
                    self.background == old(self).background,
                    self.wf(),
                    self.coords_in_range(),
                    n_obj == self.objects@.len(),
                    oi < n_obj,
                    n_mesh == self.objects@[oi as int].meshes@.len(),
                    mi <= n_mesh,
                    self.triangles@ == world_snaps_upto(self.objects@, self.camera.r, oi as int)
                        + object_snaps_upto(
                        self.objects@[oi as int].meshes@,
                        self.camera.r,
                        mi as int,
                    ),
                decreases n_mesh - mi,
            {
                let n_face = self.objects[oi].meshes[mi].mesh.faces.len();
                let mut fi: usize = 0;
                while fi < n_face
                    invariant
                        self.objects == old(self).objects,
                        self.camera == old(self).camera,
                        self.lights == old(self).lights,
                        self.t == old(self).t,
                        self.draw_limit == old(self).draw_limit,
                        self.background == old(self).background,
                        self.wf(),
                        self.coords_in_range(),
                        n_obj == self.objects@.len(),
                        oi < n_obj,
                        n_mesh == self.objects@[oi as int].meshes@.len(),
                        mi < n_mesh,
                        n_face == self.objects@[oi as int].meshes@[mi as int].mesh.faces@.len(),
                        fi <= n_face,
                        self.triangles@ == world_snaps_upto(
                            self.objects@,
                            self.camera.r,
                            oi as int,
                        ) + object_snaps_upto(
                            self.objects@[oi as int].meshes@,
                            self.camera.r,
                            mi as int,
                        ) + mesh_snaps(
                            self.objects@[oi as int].meshes@[mi as int],
                            self.camera.r,
                        ).subrange(0, fi as int),
                    decreases n_face - fi,
                {
                    proof {
                        assert(self.objects@[oi as int].wf());
                        assert(self.objects@[oi as int].meshes@[mi as int].wf());
                        assert(self.objects@[oi as int].meshes@[mi as int].mesh.coords_in_range(
                            COORD_LIMIT as int,
                        ));
                        assert(self.objects@[oi as int].meshes@[mi as int].mesh.faces@[fi as int]
                            .valid_for(
                            self.objects@[oi as int].meshes@[mi as int].mesh.vertices@.len()
                                as int,
                        ));
                    }
                    let face = self.objects[oi].meshes[mi].mesh.faces[fi];
                    let (p0, p1, p2) = face.get_points(&self.objects[oi].meshes[mi].mesh);
                    proof {
                        assert(p0.in_range(COORD_LIMIT as int));
                    }
                    let d = vec3_len(vec3_sub(p0, self.camera.r));
                    let wire = self.objects[oi].meshes[mi].wireframe;
                    self.triangles.push(
                        DepthTriangle {
                            p0,
                            p1,
                            p2,
                            color: face.color,
                            wireframe: wire,
                            dist: Some(d),
                        },
                    );
                    proof {
                        let m = self.objects@[oi as int].meshes@[mi as int];
                        assert(mesh_snaps(m, self.camera.r)[fi as int] == snapshot_spec(
                            m,
                            fi as int,
                            self.camera.r,
                        ));
                        assert(self.triangles@ =~= world_snaps_upto(
                            self.objects@,
                            self.camera.r,
                            oi as int,
                        ) + object_snaps_upto(
                            self.objects@[oi as int].meshes@,
                            self.camera.r,
                            mi as int,
                        ) + mesh_snaps(m, self.camera.r).subrange(0, fi + 1));
                    }
                    fi = fi + 1;
                }
                proof {
                    let m = self.objects@[oi as int].meshes@[mi as int];
                    assert(mesh_snaps(m, self.camera.r).subrange(0, n_face as int) =~= mesh_snaps(
                        m,
                        self.camera.r,
                    ));
                    assert(object_snaps_upto(
                        self.objects@[oi as int].meshes@,
                        self.camera.r,
                        mi + 1,
                    ) == object_snaps_upto(
                        self.objects@[oi as int].meshes@,
                        self.camera.r,
                        mi as int,
                    ) + mesh_snaps(m, self.camera.r));
                    assert(self.triangles@ =~= world_snaps_upto(
                        self.objects@,
                        self.camera.r,
                        oi as int,
                    ) + object_snaps_upto(
                        self.objects@[oi as int].meshes@,
                        self.camera.r,
                        mi + 1,
                    ));
                }
                mi = mi + 1;
            }
            proof {
                assert(self.triangles@ =~= world_snaps_upto(
                    self.objects@,
                    self.camera.r,
                    oi + 1,
                ));
            }
            oi = oi + 1;
        }
        proof {
            assert(self.triangles@ == world_snaps(*old(self)));
            lemma_world_snaps_in_range(self.objects@, self.camera.r, n_obj as int);
        }
        sort_triangles(&mut self.triangles);
        proof {
            broadcast use vstd::seq_lib::group_to_multiset_ensures;

            assert forall|idx: int| 0 <= idx < self.triangles@.len() implies (
            #[trigger] self.triangles@[idx]).in_range() by {
                let t = self.triangles@[idx];
                assert(self.triangles@.contains(t));
                assert(world_snaps(*old(self)).to_multiset().count(t) > 0);
                assert(world_snaps(*old(self)).contains(t));
                let j = choose|j: int|
                    0 <= j < world_snaps(*old(self)).len() && world_snaps(*old(self))[j] == t;
                assert(world_snaps(*old(self))[j].in_range());
            }
        }
        let mut cmds: Vec<DrawCmd> = Vec::new();
        cmds.push(DrawCmd::Clear { color: self.background });
        let nt = self.triangles.len();
        let mut k: usize = 0;
        while k < nt
            invariant
                self.objects == old(self).objects,
                self.camera == old(self).camera,
                self.lights == old(self).lights,
                self.t == old(self).t,
                self.draw_limit == old(self).draw_limit,
                self.background == old(self).background,
                self.wf(),
                sorted_by_depth(self.triangles@),
                self.triangles@.to_multiset() == world_snaps(*old(self)).to_multiset(),
                forall|idx: int|
                    0 <= idx < self.triangles@.len() ==> (#[trigger] self.triangles@[idx])
                        .in_range(),
                nt == self.triangles@.len(),
                k <= nt,
                cmds@ == seq![DrawCmd::Clear { color: self.background }] + tri_cmds_upto(
                    self.triangles@,
                    self.camera,
                    self.lights@[0],
                    self.draw_limit,
                    k as int,
                ),
            decreases nt - k,
        {
            let t = self.triangles[k];
            if depth_within_exec(t.dist, self.draw_limit) {
                let q0 = self.camera.projected(t.p0);
                let q1 = self.camera.projected(t.p1);
                let q2 = self.camera.projected(t.p2);
                if t.wireframe {
                    crate::mesh::push_edge(&mut cmds, crate::mesh::edge_exec(q0, q1), t.color);
                    crate::mesh::push_edge(&mut cmds, crate::mesh::edge_exec(q1, q2), t.color);
                    crate::mesh::push_edge(&mut cmds, crate::mesh::edge_exec(q2, q0), t.color);
                } else {
                    let shaded = shade_color(t.color, t.p0, t.p1, t.p2, &self.lights[0]);
                    match (q0, q1, q2) {
                        (Some(a), Some(b), Some(c)) => {
                            cmds.push(DrawCmd::Polygon { a, b, c, color: shaded });
                        },
                        _ => {},
                    }
                }
            }
            proof {
                assert(cmds@ =~= seq![DrawCmd::Clear { color: self.background }] + tri_cmds_upto(
                    self.triangles@,
                    self.camera,
                    self.lights@[0],
                    self.draw_limit,
                    k + 1,
                ));
            }
            k = k + 1;
        }
        cmds
    }
}

/// One key press worth of movement, in world units.
pub const MOVE_STEP: i64 = 10;

/// The camera's translation for a key press: `a`/`d` along X, `s`/`w`
/// along Z, `x`/`2` along Y, each by `MOVE_STEP`; anything else stays
/// put.
pub open spec fn camera_key_delta(key: char) -> Vec3 {
    if key == 'a' {
        Vec3 { x: (-MOVE_STEP) as i64, y: 0, z: 0 }
    } else if key == 'd' {
        Vec3 { x: MOVE_STEP, y: 0, z: 0 }
    } else if key == 's' {
        Vec3 { x: 0, y: 0, z: (-MOVE_STEP) as i64 }
    } else if key == 'w' {
        Vec3 { x: 0, y: 0, z: MOVE_STEP }
    } else if key == 'x' {
        Vec3 { x: 0, y: MOVE_STEP, z: 0 }
    } else if key == '2' {
        Vec3 { x: 0, y: (-MOVE_STEP) as i64, z: 0 }
    } else {
        Vec3::zero_spec()
    }
}

fn camera_key_delta_exec(key: char) -> (r: Vec3)
    ensures
        r == camera_key_delta(key),
        r.in_range(MOVE_STEP as int),
{
    if key == 'a' {
        Vec3 { x: -MOVE_STEP, y: 0, z: 0 }
    } else if key == 'd' {
        Vec3 { x: MOVE_STEP, y: 0, z: 0 }
    } else if key == 's' {
        Vec3 { x: 0, y: 0, z: -MOVE_STEP }
    } else if key == 'w' {
        Vec3 { x: 0, y: 0, z: MOVE_STEP }
    } else if key == 'x' {
        Vec3 { x: 0, y: MOVE_STEP, z: 0 }
    } else if key == '2' {
        Vec3 { x: 0, y: -MOVE_STEP, z: 0 }
    } else {
        Vec3::zero()
    }
}

/// An object's translation for a key press: `a`/`d` along X and `s`/`w`
/// along Z, each by `MOVE_STEP`; anything else stays put.
pub open spec fn object_key_delta(key: char) -> Vec3 {
    if key == 'a' {
        Vec3 { x: (-MOVE_STEP) as i64, y: 0, z: 0 }
    } else if key == 'd' {
        Vec3 { x: MOVE_STEP, y: 0, z: 0 }
    } else if key == 's' {
        Vec3 { x: 0, y: 0, z: (-MOVE_STEP) as i64 }
    } else if key == 'w' {
        Vec3 { x: 0, y: 0, z: MOVE_STEP }
    } else {
        Vec3::zero_spec()
    }
}

fn object_key_delta_exec(key: char) -> (r: Vec3)
    ensures
        r == object_key_delta(key),
        r.in_range(MOVE_STEP as int),
{
    if key == 'a' {
        Vec3 { x: -MOVE_STEP, y: 0, z: 0 }
    } else if key == 'd' {
        Vec3 { x: MOVE_STEP, y: 0, z: 0 }
    } else if key == 's' {
        Vec3 { x: 0, y: 0, z: -MOVE_STEP }
    } else if key == 'w' {
        Vec3 { x: 0, y: 0, z: MOVE_STEP }
    } else {
        Vec3::zero()
    }
}

/// Every snapshot of one mesh stays within the world bounds.
proof fn lemma_mesh_snaps_in_range(m: Mesh, cam_pos: Vec3)
    requires
        m.wf(),
        m.mesh.coords_in_range(COORD_LIMIT as int),
    ensures
        tris_in_range(mesh_snaps(m, cam_pos)),
{
    assert forall|i: int| 0 <= i < mesh_snaps(m, cam_pos).len() implies (#[trigger] mesh_snaps(
        m,
        cam_pos,
    )[i]).in_range() by {
        let f = m.mesh.faces@[i];
        assert(f.valid_for(m.mesh.vertices@.len() as int));
        assert(m.mesh.vertices@[f.a as int].r.in_range(COORD_LIMIT as int));
        assert(m.mesh.vertices@[f.b as int].r.in_range(COORD_LIMIT as int));
        assert(m.mesh.vertices@[f.c as int].r.in_range(COORD_LIMIT as int));
    }
}

/// Every snapshot of an object's first `k` meshes stays within the
/// world bounds.
proof fn lemma_object_snaps_in_range(meshes: Seq<Mesh>, cam_pos: Vec3, k: int)
    requires
        k <= meshes.len(),
        forall|i: int| 0 <= i < meshes.len() ==> (#[trigger] meshes[i]).wf(),
        forall|i: int|
            0 <= i < meshes.len() ==> (#[trigger] meshes[i]).mesh.coords_in_range(
                COORD_LIMIT as int,
            ),
    ensures
        tris_in_range(object_snaps_upto(meshes, cam_pos, k)),
    decreases k,
{
    if k > 0 {
        lemma_object_snaps_in_range(meshes, cam_pos, k - 1);
        lemma_mesh_snaps_in_range(meshes[k - 1], cam_pos);
        let pre = object_snaps_upto(meshes, cam_pos, k - 1);
        let ms = mesh_snaps(meshes[k - 1], cam_pos);
        assert forall|i: int| 0 <= i < object_snaps_upto(meshes, cam_pos, k).len() implies (
        #[trigger] object_snaps_upto(meshes, cam_pos, k)[i]).in_range() by {
            if i < pre.len() {
                assert(pre[i].in_range());
            } else {
                assert(ms[i - pre.len()].in_range());
            }
        }
    }
}

/// Every snapshot of the world's first `k` objects stays within the
/// world bounds.
proof fn lemma_world_snaps_in_range(objects: Seq<WorldObject>, cam_pos: Vec3, k: int)
    requires
        k <= objects.len(),
        forall|i: int| 0 <= i < objects.len() ==> (#[trigger] objects[i]).wf(),
        forall|o: int, m: int|
            0 <= o < objects.len() && 0 <= m < objects[o].meshes@.len()
                ==> (#[trigger] objects[o].meshes@[m]).mesh.coords_in_range(COORD_LIMIT as int),
    ensures
        tris_in_range(world_snaps_upto(objects, cam_pos, k)),
    decreases k,
{
    if k > 0 {
        lemma_world_snaps_in_range(objects, cam_pos, k - 1);
        let o = objects[k - 1];
        assert(o.wf());
        assert forall|i: int| 0 <= i < o.meshes@.len() implies (#[trigger] o.meshes@[i]).wf() by {}
        assert forall|i: int|
            0 <= i < o.meshes@.len() implies (#[trigger] o.meshes@[i]).mesh.coords_in_range(
            COORD_LIMIT as int,
        ) by {
            assert(objects[k - 1].meshes@[i].mesh.coords_in_range(COORD_LIMIT as int));
        }
        lemma_object_snaps_in_range(o.meshes@, cam_pos, o.meshes@.len() as int);
        let pre = world_snaps_upto(objects, cam_pos, k - 1);
        let os = object_snaps_upto(o.meshes@, cam_pos, o.meshes@.len() as int);
        assert forall|i: int| 0 <= i < world_snaps_upto(objects, cam_pos, k).len() implies (
        #[trigger] world_snaps_upto(objects, cam_pos, k)[i]).in_range() by {
            if i < pre.len() {
                assert(pre[i].in_range());
            } else {
                assert(os[i - pre.len()].in_range());
            }
        }
    }
}

} // verus!
