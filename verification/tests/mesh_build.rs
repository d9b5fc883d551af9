use trivalibs::fvec::Vec3Bits;
use trivalibs::mesh::FaceDataProps;
use trivalibs::mesh::MeshError;
use trivalibs::mesh::MeshGeometry;
use trivalibs::mesh::SectionIndex;
use trivalibs::mesh::face_data;
use trivalibs::mesh::face_normal;
use trivalibs::mesh::face_section;
use trivalibs::payload::ColorVertex;
use trivalibs::payload::PosVertex;

fn bits(x: f32, y: f32, z: f32) -> Vec3Bits {
    Vec3Bits { x: x.to_bits(), y: y.to_bits(), z: z.to_bits() }
}

fn v(x: f32, y: f32, z: f32) -> PosVertex {
    PosVertex { pos: bits(x, y, z) }
}

#[test]
fn positions_deduplicate_bit_exactly() {
    let mut g: MeshGeometry<PosVertex> = MeshGeometry::new();
    g.add_face3(v(0.0, 0.0, 0.0), v(1.0, 0.0, 0.0), v(0.0, 1.0, 0.0)).unwrap();
    assert_eq!(g.vertices.len(), 3);
    // two corners coincide with known positions: only one vertex is new
    g.add_face3(v(1.0, 0.0, 0.0), v(0.0, 1.0, 0.0), v(1.0, 1.0, 0.0)).unwrap();
    assert_eq!(g.vertices.len(), 4);
    // near-duplicate but not bit-identical positions are kept apart
    g.add_face3(v(1.0 + 1e-7, 0.0, 0.0), v(5.0, 0.0, 0.0), v(0.0, 5.0, 0.0)).unwrap();
    assert_eq!(g.vertices.len(), 7);
    assert_eq!(g.sections[0].faces.len(), 3);
}

#[test]
fn negative_zero_is_a_distinct_position() {
    let mut g: MeshGeometry<PosVertex> = MeshGeometry::new();
    g.add_face3(v(0.0, 0.0, 0.0), v(-0.0, 0.0, 0.0), v(1.0, 0.0, 0.0)).unwrap();
    // 0.0 and -0.0 differ in their bit patterns, so three vertices exist
    assert_eq!(g.vertices.len(), 3);
}

#[test]
fn coincident_corners_are_rejected_unchanged() {
    let mut g: MeshGeometry<PosVertex> = MeshGeometry::new();
    let r = g.add_face3(v(2.0, 0.0, 0.0), v(2.0, 0.0, 0.0), v(0.0, 1.0, 0.0));
    assert_eq!(r, Err(MeshError::InvalidFace));
    assert_eq!(g.vertices.len(), 0);
    assert_eq!(g.sections.len(), 0);

    let r4 = g.add_face4(
        v(0.0, 0.0, 0.0),
        v(1.0, 0.0, 0.0),
        v(1.0, 1.0, 0.0),
        v(1.0, 0.0, 0.0),
    );
    assert_eq!(r4, Err(MeshError::InvalidFace));
    assert_eq!(g.vertices.len(), 0);
}

#[test]
fn quad_occupies_one_face_with_four_corners() {
    let mut g: MeshGeometry<PosVertex> = MeshGeometry::new();
    g.add_face4(v(0.0, 0.0, 0.0), v(1.0, 0.0, 0.0), v(1.0, 1.0, 0.0), v(0.0, 1.0, 0.0))
        .unwrap();
    assert_eq!(g.vertices.len(), 4);
    assert_eq!(g.sections[0].faces.len(), 1);
    assert_eq!(g.sections[0].faces[0].vertices.len(), 4);
    assert_eq!(g.sections[0].faces[0].vertices, vec![0, 1, 2, 3]);
}

#[test]
fn sections_keep_separate_face_lists() {
    let mut g: MeshGeometry<PosVertex> = MeshGeometry::new();
    g.add_face3_data(
        v(0.0, 0.0, 0.0),
        v(1.0, 0.0, 0.0),
        v(0.0, 1.0, 0.0),
        face_section(7),
    )
    .unwrap();
    g.add_face3(v(0.0, 0.0, 2.0), v(1.0, 0.0, 2.0), v(0.0, 1.0, 2.0)).unwrap();
    g.add_face3_data(
        v(0.0, 0.0, 3.0),
        v(1.0, 0.0, 3.0),
        v(0.0, 1.0, 3.0),
        face_section(2),
    )
    .unwrap();
    // sections stand in ascending id order and share the vertex pool
    assert_eq!(g.sections.len(), 3);
    assert_eq!(g.sections[0].id, 0);
    assert_eq!(g.sections[1].id, 2);
    assert_eq!(g.sections[2].id, 7);
    assert_eq!(g.vertices.len(), 9);
    assert_eq!(g.sections[0].faces.len(), 1);
    assert_eq!(g.sections[1].faces.len(), 1);
    assert_eq!(g.sections[2].faces.len(), 1);
}

#[test]
fn face_props_carry_normal_data_and_section() {
    let n = bits(0.0, 0.0, 1.0);
    let d = ColorVertex { pos: bits(9.0, 9.0, 9.0), color: 0xff00ff00 };
    let props: FaceDataProps<ColorVertex> =
        FaceDataProps::default().with_normal(n).with_data(d).with_section(3);
    assert_eq!(props.normal, Some(n));
    assert_eq!(props.data.unwrap().color, 0xff00ff00);
    assert_eq!(props.section, Some(3));

    let p1: FaceDataProps<ColorVertex> = face_normal(n);
    assert_eq!(p1.normal, Some(n));
    assert!(p1.data.is_none() && p1.section.is_none());
    let p2: FaceDataProps<ColorVertex> = face_data(d);
    assert!(p2.normal.is_none() && p2.section.is_none());
    assert_eq!(p2.data.unwrap().pos, d.pos);
    let p3: FaceDataProps<ColorVertex> = face_section(5);
    assert_eq!(p3.section, Some(5));
}

#[test]
fn last_payload_write_wins() {
    let mut g: MeshGeometry<ColorVertex> = MeshGeometry::new();
    let red = ColorVertex { pos: bits(0.0, 0.0, 0.0), color: 1 };
    let b = ColorVertex { pos: bits(1.0, 0.0, 0.0), color: 2 };
    let c = ColorVertex { pos: bits(0.0, 1.0, 0.0), color: 3 };
    g.add_face3(red, b, c).unwrap();
    assert_eq!(g.vertices[0].data.color, 1);
    // a later face referencing the same position overwrites the payload
    let blue = ColorVertex { pos: bits(0.0, 0.0, 0.0), color: 9 };
    let d = ColorVertex { pos: bits(2.0, 0.0, 0.0), color: 4 };
    let e = ColorVertex { pos: bits(0.0, 2.0, 0.0), color: 5 };
    g.add_face3(blue, d, e).unwrap();
    assert_eq!(g.vertices[0].data.color, 9);
    assert_eq!(g.vertices.len(), 5);
}

#[test]
fn set_vertex_overwrites_in_range_only() {
    let mut g: MeshGeometry<ColorVertex> = MeshGeometry::new();
    let a = ColorVertex { pos: bits(0.0, 0.0, 0.0), color: 1 };
    let b = ColorVertex { pos: bits(1.0, 0.0, 0.0), color: 2 };
    let c = ColorVertex { pos: bits(0.0, 1.0, 0.0), color: 3 };
    g.add_face3(a, b, c).unwrap();
    g.set_vertex(1, ColorVertex { pos: bits(1.0, 0.0, 0.0), color: 42 });
    assert_eq!(g.vertices[1].data.color, 42);
    // an out-of-range id is ignored
    g.set_vertex(99, ColorVertex { pos: bits(1.0, 0.0, 0.0), color: 7 });
    assert_eq!(g.vertices.len(), 3);
}

#[test]
fn get_vertex_index_assigns_sequential_ids() {
    let mut g: MeshGeometry<PosVertex> = MeshGeometry::new();
    let i0 = g.get_vertex_index(bits(0.0, 0.0, 0.0));
    let i1 = g.get_vertex_index(bits(1.0, 0.0, 0.0));
    let again = g.get_vertex_index(bits(0.0, 0.0, 0.0));
    assert_eq!(i0, 0);
    assert_eq!(i1, 1);
    assert_eq!(again, 0);
    // the next face addition materializes the pending ids
    g.add_face3(v(0.0, 0.0, 0.0), v(1.0, 0.0, 0.0), v(0.0, 1.0, 0.0)).unwrap();
    assert_eq!(g.vertices.len(), 3);
}

#[test]
fn vertex_and_face_accessors() {
    let mut g: MeshGeometry<PosVertex> = MeshGeometry::new();
    g.add_face3(v(0.0, 0.0, 0.0), v(1.0, 0.0, 0.0), v(0.0, 1.0, 0.0)).unwrap();
    assert_eq!(g.vertex(2).data.pos, bits(0.0, 1.0, 0.0));
    let f = g.face(SectionIndex::from(0));
    assert_eq!(f.vertices, vec![0, 1, 2]);
    assert!(f.face_normal.is_none());
    let si = SectionIndex { section: 0, index: 0 };
    assert_eq!(g.face(si).vertices.len(), 3);
}

#[test]
fn vertex_count_stays_within_three_per_triangle() {
    let mut g: MeshGeometry<PosVertex> = MeshGeometry::new();
    let mut tris = 0u32;
    for i in 0..10 {
        let o = i as f32;
        g.add_face3(v(o, 0.0, 0.0), v(o + 0.5, 0.0, 0.0), v(o, 0.5, 0.0)).unwrap();
        tris += 1;
        assert!(g.vertices.len() as u32 <= 3 * tris);
    }
    // all corner positions distinct so far: the bound is met exactly
    assert_eq!(g.vertices.len() as u32, 3 * tris);
    // one duplicated position makes the count drop strictly below the bound
    g.add_face3(v(0.0, 0.0, 0.0), v(90.0, 0.0, 0.0), v(0.0, 90.0, 0.0)).unwrap();
    tris += 1;
    assert!((g.vertices.len() as u32) < 3 * tris);
}
