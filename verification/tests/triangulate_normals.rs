use trivalibs::fvec::Vec3Bits;
use trivalibs::mesh::MeshGeometry;
use trivalibs::mesh::face_normal;
use trivalibs::payload::PosVertex;

fn bits(x: f32, y: f32, z: f32) -> Vec3Bits {
    Vec3Bits { x: x.to_bits(), y: y.to_bits(), z: z.to_bits() }
}

fn v(x: f32, y: f32, z: f32) -> PosVertex {
    PosVertex { pos: bits(x, y, z) }
}

fn f32_of(b: u32) -> f32 {
    f32::from_bits(b)
}

#[test]
fn triangulating_quads_doubles_the_face_count() {
    let mut g: MeshGeometry<PosVertex> = MeshGeometry::new();
    // a mesh of only quads
    g.add_face4(v(0.0, 0.0, 0.0), v(1.0, 0.0, 0.0), v(1.0, 1.0, 0.0), v(0.0, 1.0, 0.0))
        .unwrap();
    g.add_face4(v(1.0, 0.0, 0.0), v(2.0, 0.0, 0.0), v(2.0, 1.0, 0.0), v(1.0, 1.0, 0.0))
        .unwrap();
    g.add_face4(v(2.0, 0.0, 0.0), v(3.0, 0.0, 0.0), v(3.0, 1.0, 0.0), v(2.0, 1.0, 0.0))
        .unwrap();
    let verts_before = g.vertices.len();

    g.triangulate();
    assert_eq!(g.sections[0].faces.len(), 6);
    for f in &g.sections[0].faces {
        assert_eq!(f.vertices.len(), 3);
    }
    assert_eq!(g.vertices.len(), verts_before);

    // a second call is a no-op
    let snapshot: Vec<Vec<usize>> =
        g.sections[0].faces.iter().map(|f| f.vertices.clone()).collect();
    g.triangulate();
    assert_eq!(g.sections[0].faces.len(), 6);
    let after: Vec<Vec<usize>> =
        g.sections[0].faces.iter().map(|f| f.vertices.clone()).collect();
    assert_eq!(snapshot, after);
}

#[test]
fn quads_split_along_the_first_diagonal() {
    let mut g: MeshGeometry<PosVertex> = MeshGeometry::new();
    g.add_face4(v(0.0, 0.0, 0.0), v(1.0, 0.0, 0.0), v(1.0, 1.0, 0.0), v(0.0, 1.0, 0.0))
        .unwrap();
    g.triangulate();
    let mut tris: Vec<Vec<usize>> =
        g.sections[0].faces.iter().map(|f| f.vertices.clone()).collect();
    tris.sort();
    assert_eq!(tris, vec![vec![0, 1, 2], vec![0, 2, 3]]);
}

#[test]
fn triangulation_keeps_explicit_normals_and_sections() {
    let mut g: MeshGeometry<PosVertex> = MeshGeometry::new();
    let n = bits(0.0, 0.0, -1.0);
    g.add_face4_data(
        v(0.0, 0.0, 0.0),
        v(1.0, 0.0, 0.0),
        v(1.0, 1.0, 0.0),
        v(0.0, 1.0, 0.0),
        face_normal(n).with_section(4),
    )
    .unwrap();
    g.triangulate();
    assert_eq!(g.sections[0].id, 4);
    assert_eq!(g.sections[0].faces.len(), 2);
    for f in &g.sections[0].faces {
        assert_eq!(f.face_normal, Some(n));
    }
}

#[test]
fn unit_quad_normal_points_up() {
    let mut g: MeshGeometry<PosVertex> = MeshGeometry::new();
    g.add_face4(v(0.0, 0.0, 0.0), v(1.0, 0.0, 0.0), v(1.0, 1.0, 0.0), v(0.0, 1.0, 0.0))
        .unwrap();
    g.generate_face_normals();
    // regression value: the documented winding pins the sign to +z
    let n = g.sections[0].faces[0].face_normal.expect("normal generated");
    assert_eq!(n, bits(0.0, 0.0, 1.0));
}

#[test]
fn explicit_normal_skips_generation() {
    let mut g: MeshGeometry<PosVertex> = MeshGeometry::new();
    let n = bits(0.7, 0.7, 0.0);
    g.add_face3_data(
        v(0.0, 0.0, 0.0),
        v(1.0, 0.0, 0.0),
        v(0.0, 1.0, 0.0),
        face_normal(n),
    )
    .unwrap();
    g.generate_face_normals();
    assert_eq!(g.sections[0].faces[0].face_normal, Some(n));
}

#[test]
fn degenerate_edge_falls_back_to_fourth_corner() {
    let mut g: MeshGeometry<PosVertex> = MeshGeometry::new();
    // the first two corners nearly coincide (further apart than a bit, but
    // closer than the degeneracy threshold), and the fourth corner rescues
    // the normal
    g.add_face4(
        v(0.0, 0.0, 0.0),
        v(1e-5, 0.0, 0.0),
        v(1.0, 1.0, 0.0),
        v(0.0, 1.0, 0.0),
    )
    .unwrap();
    g.generate_face_normals();
    let n = g.sections[0].faces[0].face_normal.expect("normal generated");
    let (nx, ny, nz) = (f32_of(n.x), f32_of(n.y), f32_of(n.z));
    let len = (nx * nx + ny * ny + nz * nz).sqrt();
    assert!((len - 1.0).abs() < 1e-3, "fallback normal must be unit length, got {len}");
    assert!(nz > 0.99, "fallback normal should still point up, got ({nx}, {ny}, {nz})");
}

#[test]
fn antiparallel_edges_use_the_fallback() {
    let mut g: MeshGeometry<PosVertex> = MeshGeometry::new();
    // the first three corners are collinear with opposite edge directions:
    // the cosine is -1, so only its absolute value trips the parallel test
    g.add_face4(
        v(0.0, 0.0, 0.0),
        v(1.0, 0.0, 0.0),
        v(-1.0, 0.0, 0.0),
        v(0.0, 1.0, 0.0),
    )
    .unwrap();
    g.generate_face_normals();
    let n = g.sections[0].faces[0].face_normal.expect("normal generated");
    assert_eq!(n, bits(0.0, 0.0, 1.0));
}

#[test]
fn degenerate_triangle_keeps_its_degenerate_normal() {
    let mut g: MeshGeometry<PosVertex> = MeshGeometry::new();
    // collinear corners and no fourth vertex: the documented limitation
    g.add_face3(v(0.0, 0.0, 0.0), v(1.0, 0.0, 0.0), v(2.0, 0.0, 0.0)).unwrap();
    g.generate_face_normals();
    let n = g.sections[0].faces[0].face_normal.expect("normal generated");
    let (nx, ny, nz) = (f32_of(n.x), f32_of(n.y), f32_of(n.z));
    assert!(
        !(nx * nx + ny * ny + nz * nz).is_finite() || (nx, ny, nz) == (0.0, 0.0, 0.0)
            || (nx * nx + ny * ny + nz * nz) == 0.0
            || nx.is_nan()
            || ny.is_nan()
            || nz.is_nan(),
        "a degenerate triangle normal is ill-defined, got ({nx}, {ny}, {nz})"
    );
}
