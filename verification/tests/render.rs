//! Depth ordering, shading, and whole frames of the renderer.

use esparia::lights::LightSource;
use esparia::mesh::Mesh;
use esparia::mesh::shade_color;
use esparia::types::Color;
use esparia::types::DrawCmd;
use esparia::types::ONE;
use esparia::types::Vec3;
use esparia::world::DepthTriangle;
use esparia::world::World;
use esparia::world::WorldObject;
use esparia::world::sort_triangles;

fn staged(dist: Option<u64>) -> DepthTriangle {
    DepthTriangle {
        p0: Vec3::new(0, 0, 0),
        p1: Vec3::new(1, 0, 0),
        p2: Vec3::new(0, 1, 0),
        color: Color::new(ONE, ONE, ONE, ONE),
        wireframe: false,
        dist,
    }
}

#[test]
fn depth_sort_orders_ascending() {
    // Distances [5, 1, 3] come out in draw order [1, 3, 5].
    let mut tris = vec![staged(Some(5)), staged(Some(1)), staged(Some(3))];
    sort_triangles(&mut tris);
    let dists: Vec<Option<u64>> = tris.iter().map(|t| t.dist).collect();
    assert_eq!(dists, vec![Some(1), Some(3), Some(5)]);
}

#[test]
fn depth_sort_puts_unmeasured_first() {
    // An unmeasured distance sorts before everything and nothing
    // panics.
    let mut tris = vec![staged(Some(5)), staged(None), staged(Some(3))];
    sort_triangles(&mut tris);
    let dists: Vec<Option<u64>> = tris.iter().map(|t| t.dist).collect();
    assert_eq!(dists, vec![None, Some(3), Some(5)]);
}

#[test]
fn depth_sort_keeps_every_entry() {
    let mut tris = vec![staged(Some(2)), staged(Some(2)), staged(Some(1))];
    sort_triangles(&mut tris);
    assert_eq!(tris.len(), 3);
    assert_eq!(tris.iter().filter(|t| t.dist == Some(2)).count(), 2);
}

#[test]
fn shading_keeps_colour_at_grazing_light() {
    // Normal +Z, light along +X: the cosine is zero, the factor one.
    let color = Color::new(800_000, 600_000, 400_000, ONE);
    let light = LightSource::new(Vec3::new(1000, 0, 0));
    let shaded = shade_color(
        color,
        Vec3::new(0, 0, 0),
        Vec3::new(1, 0, 0),
        Vec3::new(0, 1, 0),
        &light,
    );
    assert_eq!(shaded, color);
}

#[test]
fn shading_scales_by_point_six_when_square_on() {
    // Normal +Z, light along +Z: cosine magnitude one, factor 0.6.
    let color = Color::new(ONE, 500_000, 0, ONE);
    let light = LightSource::new(Vec3::new(0, 0, 1000));
    let shaded = shade_color(
        color,
        Vec3::new(0, 0, 0),
        Vec3::new(1, 0, 0),
        Vec3::new(0, 1, 0),
        &light,
    );
    assert_eq!(shaded, Color::new(600_000, 300_000, 0, ONE));
}

#[test]
fn world_new_has_defaults() {
    let w = World::new();
    assert_eq!(w.objects.len(), 0);
    assert_eq!(w.t, 0);
    assert_eq!(w.lights.len(), 1);
    assert_eq!(w.lights[0].r, Vec3::new(200, 100, 0));
    assert_eq!(w.draw_limit, 600);
    assert_eq!(w.camera.r, Vec3::new(0, -200, -250));
    // The default camera pitches -0.4 radians about X and is level
    // about the other axes.
    assert_eq!(w.camera.theta.x.sin, esparia::camera::DEFAULT_PITCH_SIN);
    assert_eq!(w.camera.theta.x.cos, esparia::camera::DEFAULT_PITCH_COS);
    assert_eq!(w.camera.theta.y, esparia::math::Angle::identity());
    assert_eq!(w.camera.theta.z, esparia::math::Angle::identity());
}

#[test]
fn update_accumulates_time() {
    let mut w = World::new();
    w.update(16);
    w.update(16);
    assert_eq!(w.t, 32);
}

#[test]
fn resize_updates_camera_viewport() {
    let mut w = World::new();
    w.resize(800, 800);
    assert_eq!(w.camera.width, 800);
    assert_eq!(w.camera.height, 800);
}

#[test]
fn move_camera_follows_key_bindings() {
    let mut w = World::new();
    let start = w.camera.r;
    w.move_camera('a');
    assert_eq!(w.camera.r, Vec3::new(start.x - 10, start.y, start.z));
    w.move_camera('d');
    w.move_camera('w');
    assert_eq!(w.camera.r, Vec3::new(start.x, start.y, start.z + 10));
    w.move_camera('s');
    w.move_camera('x');
    assert_eq!(w.camera.r, Vec3::new(start.x, start.y + 10, start.z));
    w.move_camera('2');
    // An unbound key does nothing.
    w.move_camera('q');
    assert_eq!(w.camera.r, start);
}

#[test]
fn move_object_translates_one_mesh() {
    let w = World::new();
    let mut w = w.object(WorldObject::new().mesh(Mesh::new_diamond(15)));
    w.move_object(0, 0, 'd');
    assert_eq!(w.objects[0].meshes[0].r, Vec3::new(10, 0, 0));
    assert_eq!(w.objects[0].meshes[0].mesh.vertices[0].r, Vec3::new(-5, 0, 0));
    // The s binding moves along -Z.
    w.move_object(0, 0, 's');
    assert_eq!(w.objects[0].meshes[0].r, Vec3::new(10, 0, -10));
}

#[test]
fn render_emits_clear_then_sorted_polygons() {
    let mut w = World::new().object(WorldObject::new().mesh(Mesh::new_diamond(15)));
    let cmds = w.render();
    // One clear plus one filled polygon per diamond face: all eight are
    // ahead of the camera and inside the draw cutoff.
    assert_eq!(cmds.len(), 9);
    assert!(matches!(cmds[0], DrawCmd::Clear { .. }));
    for cmd in cmds.iter().skip(1) {
        assert!(matches!(cmd, DrawCmd::Polygon { .. }));
    }
    // The scratch buffer is sorted nearest-first.
    for pair in w.triangles.windows(2) {
        assert!(pair[0].dist <= pair[1].dist);
    }
    assert_eq!(w.triangles.len(), 8);
}

#[test]
fn render_draws_wireframe_meshes_as_lines() {
    let mut mesh = Mesh::new_diamond(15);
    mesh.wireframe(true);
    let mut w = World::new().object(WorldObject::new().mesh(mesh));
    let cmds = w.render();
    // One clear, then three edges for each of the eight faces.
    assert_eq!(cmds.len(), 1 + 8 * 3);
    for cmd in cmds.iter().skip(1) {
        assert!(matches!(cmd, DrawCmd::Line { .. }));
    }
}

#[test]
fn render_skips_faces_beyond_the_cutoff() {
    let mut w = World::new().object(WorldObject::new().mesh(Mesh::new_diamond(15)));
    // 5000 units away: beyond the 600-unit draw limit.
    w.camera.put(Vec3::new(0, 0, -5000));
    let cmds = w.render();
    assert_eq!(cmds.len(), 1);
    assert!(matches!(cmds[0], DrawCmd::Clear { .. }));
    // The faces were still collected and sorted, only not drawn.
    assert_eq!(w.triangles.len(), 8);
}

#[test]
fn render_skips_faces_behind_the_camera() {
    let mut w = World::new().object(WorldObject::new().mesh(Mesh::new_diamond(15)));
    // 300 units past the scene, looking further away: the diamond is
    // within the draw limit but behind the camera plane.
    w.camera.put(Vec3::new(0, 0, 300));
    let cmds = w.render();
    assert_eq!(cmds.len(), 1);
    assert!(matches!(cmds[0], DrawCmd::Clear { .. }));
}

#[test]
fn render_leaves_scene_untouched() {
    let mut w = World::new().object(WorldObject::new().mesh(Mesh::new_diamond(15)));
    let before = w.objects[0].meshes[0].mesh.vertices.clone();
    let t_before = w.t;
    let _ = w.render();
    assert_eq!(w.objects[0].meshes[0].mesh.vertices, before);
    assert_eq!(w.t, t_before);
}

#[test]
fn translate_object_is_the_scripted_motion_hook() {
    let mut w = World::new().object(WorldObject::new().mesh(Mesh::new_diamond(15)));
    w.translate_object(0, 0, Vec3::new(3, 0, -4));
    assert_eq!(w.objects[0].meshes[0].r, Vec3::new(3, 0, -4));
    assert_eq!(w.objects[0].meshes[0].mesh.vertices[2].r, Vec3::new(18, 0, -4));
}

fn flat_triangle_at_depth_300() -> Mesh {
    let mut m = Mesh::new();
    m.add_vertex(Vec3::new(0, 0, 300));
    m.add_vertex(Vec3::new(1, 0, 300));
    m.add_vertex(Vec3::new(0, 1, 300));
    m.add_face(esparia::mesh::Face::new(0, 1, 2));
    m
}

#[test]
fn face_project_maps_each_corner() {
    let mut camera = esparia::camera::Camera::default();
    camera.orient(esparia::math::Euler::identity());
    camera.put(Vec3::new(0, 0, 0));
    let m = flat_triangle_at_depth_300();
    let face = m.mesh.faces[0];
    let (q0, q1, q2) = face.project(&m.mesh, &camera);
    assert_eq!(q0, Some(esparia::types::Point2 { x: 100, y: 100 }));
    assert_eq!(q1, Some(esparia::types::Point2 { x: 101, y: 100 }));
    assert_eq!(q2, Some(esparia::types::Point2 { x: 100, y: 101 }));
}

#[test]
fn face_project_lines_pairs_the_corners() {
    let mut camera = esparia::camera::Camera::default();
    camera.orient(esparia::math::Euler::identity());
    camera.put(Vec3::new(0, 0, 0));
    let m = flat_triangle_at_depth_300();
    let face = m.mesh.faces[0];
    let (e0, e1, e2) = face.project_lines(&m.mesh, &camera);
    let a = esparia::types::Point2 { x: 100, y: 100 };
    let b = esparia::types::Point2 { x: 101, y: 100 };
    let c = esparia::types::Point2 { x: 100, y: 101 };
    assert_eq!(e0, Some((a, b)));
    assert_eq!(e1, Some((b, c)));
    assert_eq!(e2, Some((c, a)));
}

#[test]
fn mesh_draw_emits_one_polygon_per_face() {
    let mut camera = esparia::camera::Camera::default();
    camera.orient(esparia::math::Euler::identity());
    camera.put(Vec3::new(0, 0, 0));
    let lights = vec![LightSource::new(Vec3::new(200, 100, 0))];
    let m = flat_triangle_at_depth_300();
    let mut out: Vec<DrawCmd> = Vec::new();
    m.draw(&camera, &lights, &mut out);
    assert_eq!(out.len(), 1);
    assert!(matches!(out[0], DrawCmd::Polygon { .. }));
}

#[test]
fn mesh_draw_wireframe_emits_three_lines_per_face() {
    let mut camera = esparia::camera::Camera::default();
    camera.orient(esparia::math::Euler::identity());
    camera.put(Vec3::new(0, 0, 0));
    let lights = vec![LightSource::new(Vec3::new(200, 100, 0))];
    let mut m = flat_triangle_at_depth_300();
    m.wireframe(true);
    let mut out: Vec<DrawCmd> = Vec::new();
    m.draw(&camera, &lights, &mut out);
    assert_eq!(out.len(), 3);
    for cmd in out.iter() {
        assert!(matches!(cmd, DrawCmd::Line { .. }));
    }
}

#[test]
fn mesh_draw_skips_faces_behind_the_camera() {
    let mut camera = esparia::camera::Camera::default();
    camera.orient(esparia::math::Euler::identity());
    camera.put(Vec3::new(0, 0, 600));
    let lights = vec![LightSource::new(Vec3::new(200, 100, 0))];
    let m = flat_triangle_at_depth_300();
    let mut out: Vec<DrawCmd> = Vec::new();
    m.draw_filled(&camera, &lights, &mut out);
    assert_eq!(out.len(), 0);
}

#[test]
fn light_source_shines_along_its_position() {
    let light = LightSource::new(Vec3::new(7, -8, 9));
    assert_eq!(light.direction, Vec3::new(7, -8, 9));
    assert_eq!(light.intensity, ONE);
    assert!(light.point_source);
}
