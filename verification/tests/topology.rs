//! Mesh construction, whole-mesh transforms, and the procedural
//! builders.

use esparia::math::Angle;
use esparia::math::Euler;
use esparia::mesh::Face;
use esparia::mesh::Mesh;
use esparia::types::Color;
use esparia::types::ONE;
use esparia::types::Vec3;

fn triangle_mesh() -> Mesh {
    let mut m = Mesh::new();
    m.add_vertex(Vec3::new(0, 0, 0));
    m.add_vertex(Vec3::new(1, 0, 0));
    m.add_vertex(Vec3::new(0, 1, 0));
    m.add_face(Face::new(0, 1, 2));
    m
}

#[test]
fn new_mesh_is_empty() {
    let m = Mesh::new();
    assert_eq!(m.mesh.vertices.len(), 0);
    assert_eq!(m.mesh.faces.len(), 0);
    assert!(!m.wireframe);
    assert_eq!(m.r, Vec3::new(0, 0, 0));
}

#[test]
fn add_vertex_and_face_return_indices() {
    let mut m = Mesh::new();
    assert_eq!(m.add_vertex(Vec3::new(1, 2, 3)), 0);
    assert_eq!(m.add_vertex(Vec3::new(4, 5, 6)), 1);
    assert_eq!(m.add_vertex(Vec3::new(7, 8, 9)), 2);
    assert_eq!(m.add_face(Face::new(0, 1, 2)), 0);
    assert_eq!(m.mesh.vertices[1].r, Vec3::new(4, 5, 6));
    assert_eq!(m.mesh.faces[0].b, 1);
}

#[test]
fn face_color_builder_recolours() {
    let c = Color::new(0, 250_000, 0, ONE);
    let f = Face::new(0, 1, 2).color(c);
    assert_eq!(f.color, c);
    assert_eq!(f.a, 0);
    assert_eq!(f.c, 2);
}

#[test]
fn translate_moves_offset_and_every_vertex() {
    let mut m = triangle_mesh();
    m.translate(Vec3::new(10, -20, 30));
    assert_eq!(m.r, Vec3::new(10, -20, 30));
    assert_eq!(m.mesh.vertices[0].r, Vec3::new(10, -20, 30));
    assert_eq!(m.mesh.vertices[1].r, Vec3::new(11, -20, 30));
    assert_eq!(m.mesh.vertices[2].r, Vec3::new(10, -19, 30));
}

#[test]
fn translate_round_trip_restores_positions() {
    // Moving by d and then by -d restores every vertex exactly.
    let mut m = triangle_mesh();
    let original: Vec<Vec3> = m.mesh.vertices.iter().map(|v| v.r).collect();
    let d = Vec3::new(123, -456, 789);
    m.translate(d);
    m.translate(Vec3::new(-d.x, -d.y, -d.z));
    for (vertex, expected) in m.mesh.vertices.iter().zip(original.iter()) {
        assert_eq!(vertex.r, *expected);
    }
    assert_eq!(m.r, Vec3::new(0, 0, 0));
}

#[test]
fn identity_rotation_leaves_vertices_unchanged() {
    let mut m = Mesh::new_diamond(15);
    let original: Vec<Vec3> = m.mesh.vertices.iter().map(|v| v.r).collect();
    m.rotate(Euler::identity());
    for (vertex, expected) in m.mesh.vertices.iter().zip(original.iter()) {
        assert_eq!(vertex.r, *expected);
    }
}

#[test]
fn rotation_turns_vertices_about_the_offset() {
    let mut m = Mesh::new();
    m.add_vertex(Vec3::new(1, 0, 0));
    let quarter_z = Euler {
        x: Angle::identity(),
        y: Angle::identity(),
        z: Angle::quarter_turn(),
    };
    m.rotate(quarter_z);
    assert_eq!(m.mesh.vertices[0].r, Vec3::new(0, 1, 0));
}

#[test]
fn rotation_accumulates_theta() {
    let mut m = Mesh::new();
    let quarter_z = Euler {
        x: Angle::identity(),
        y: Angle::identity(),
        z: Angle::quarter_turn(),
    };
    m.rotate(quarter_z);
    m.rotate(quarter_z);
    // Two quarter turns add up to a half turn in the cumulative theta.
    assert_eq!(m.theta.z, Angle { sin: 0, cos: -ONE });
    assert_eq!(m.theta.x, Angle::identity());
}

#[test]
fn face_normal_of_unit_right_triangle() {
    // Vertices (0,0,0), (1,0,0), (0,1,0): the edge-vector cross product
    // gives the +Z unit normal, at the ONE scale.
    let m = triangle_mesh();
    let normal = m.mesh.faces[0].normal(&m.mesh);
    assert_eq!(normal, Vec3::new(0, 0, ONE));
}

#[test]
fn face_normal_uses_edge_vectors_not_positions() {
    // The same triangle moved away from the origin keeps its normal:
    // only edge vectors enter the computation.
    let mut m = triangle_mesh();
    m.translate(Vec3::new(50, 60, 70));
    let normal = m.mesh.faces[0].normal(&m.mesh);
    assert_eq!(normal, Vec3::new(0, 0, ONE));
}

#[test]
fn terrain_face_count_and_index_validity() {
    // size 600 at resolution 20: a 30x30 grid, (30-1)^2 * 2 faces.
    let mut m = Mesh::new();
    let n = 600 / 20;
    let heights = vec![0i64; (n * n) as usize];
    m.add_terrain(600, 20, &heights);
    assert_eq!(m.mesh.vertices.len(), 900);
    assert_eq!(m.mesh.faces.len(), (n as usize - 1) * (n as usize - 1) * 2);
    assert_eq!(m.mesh.faces.len(), 1682);
    for face in m.mesh.faces.iter() {
        assert!(face.a < m.mesh.vertices.len());
        assert!(face.b < m.mesh.vertices.len());
        assert!(face.c < m.mesh.vertices.len());
    }
}

#[test]
fn terrain_samples_the_height_field() {
    let mut m = Mesh::new();
    // A 2x2 grid: size 40, resolution 20.
    let heights = vec![5, 6, 7, 8];
    m.add_terrain(40, 20, &heights);
    assert_eq!(m.mesh.vertices.len(), 4);
    assert_eq!(m.mesh.faces.len(), 2);
    // Row-major: vertex (j, i) sits at (i*res - size/2, h, j*res - size/2).
    assert_eq!(m.mesh.vertices[0].r, Vec3::new(-20, 5, -20));
    assert_eq!(m.mesh.vertices[1].r, Vec3::new(0, 6, -20));
    assert_eq!(m.mesh.vertices[2].r, Vec3::new(-20, 7, 0));
    assert_eq!(m.mesh.vertices[3].r, Vec3::new(0, 8, 0));
}

#[test]
fn diamond_is_a_bipyramid() {
    let m = Mesh::new_diamond(15);
    assert_eq!(m.mesh.vertices.len(), 6);
    assert_eq!(m.mesh.faces.len(), 8);
    // Four equatorial corners, one apex above, one below.
    assert_eq!(m.mesh.vertices[0].r, Vec3::new(-15, 0, 0));
    assert_eq!(m.mesh.vertices[4].r, Vec3::new(0, 30, 0));
    assert_eq!(m.mesh.vertices[5].r, Vec3::new(0, -30, 0));
    // The eight faces, in builder order: each joins one apex (vertex
    // 4 above, 5 below) with two adjacent equatorial corners.
    let expected = [
        (0, 4, 1),
        (1, 4, 2),
        (2, 4, 3),
        (3, 4, 0),
        (0, 5, 1),
        (1, 5, 2),
        (2, 5, 3),
        (3, 5, 0),
    ];
    for (face, want) in m.mesh.faces.iter().zip(expected.iter()) {
        assert_eq!((face.a, face.b, face.c), *want);
    }
}

#[test]
fn wireframe_flag_toggles() {
    let mut m = Mesh::new();
    m.wireframe(true);
    assert!(m.wireframe);
    m.wireframe(false);
    assert!(!m.wireframe);
}

#[test]
fn position_builder_sets_offset_only() {
    let m = triangle_mesh().position(Vec3::new(9, 9, 9));
    assert_eq!(m.r, Vec3::new(9, 9, 9));
    // The vertices do not move.
    assert_eq!(m.mesh.vertices[1].r, Vec3::new(1, 0, 0));
}
