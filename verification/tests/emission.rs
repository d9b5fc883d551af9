use trivalibs::emit::MeshBufferType;
use trivalibs::fvec::Vec3Bits;
use trivalibs::mesh::MeshGeometry;
use trivalibs::mesh::face_data;
use trivalibs::payload::ColorVertex;
use trivalibs::payload::PosVertex;

fn bits(x: f32, y: f32, z: f32) -> Vec3Bits {
    Vec3Bits { x: x.to_bits(), y: y.to_bits(), z: z.to_bits() }
}

fn v(x: f32, y: f32, z: f32) -> PosVertex {
    PosVertex { pos: bits(x, y, z) }
}

fn read_u32(bytes: &[u8], at: usize) -> u32 {
    u32::from_le_bytes([bytes[at], bytes[at + 1], bytes[at + 2], bytes[at + 3]])
}

fn read_vec3(bytes: &[u8], at: usize) -> (f32, f32, f32) {
    (
        f32::from_bits(read_u32(bytes, at)),
        f32::from_bits(read_u32(bytes, at + 4)),
        f32::from_bits(read_u32(bytes, at + 8)),
    )
}

#[test]
fn no_normals_counts_follow_unique_vertices_and_triangles() {
    let mut g: MeshGeometry<PosVertex> = MeshGeometry::new();
    // two triangles sharing an edge: four unique vertices
    g.add_face3(v(0.0, 0.0, 0.0), v(1.0, 0.0, 0.0), v(0.0, 1.0, 0.0)).unwrap();
    g.add_face3(v(1.0, 0.0, 0.0), v(1.0, 1.0, 0.0), v(0.0, 1.0, 0.0)).unwrap();
    let buf = g.to_renderable_buffer_by_type(MeshBufferType::NoNormals);
    assert_eq!(buf.vertex_count, 4);
    assert_eq!(buf.index_count, 6);
    // payload-only records: twelve bytes per unique vertex
    assert_eq!(buf.vertex_buffer.len(), 4 * 12);
    let indices = buf.index_buffer.expect("indexed mode");
    assert_eq!(indices.len(), 6 * 4);
    let ids: Vec<u32> = (0..6).map(|i| read_u32(&indices, i * 4)).collect();
    assert_eq!(ids, vec![0, 1, 2, 1, 3, 2]);
    // the first record holds the first position's bit patterns
    let (x0, y0, z0) = read_vec3(&buf.vertex_buffer, 0);
    assert_eq!((x0, y0, z0), (0.0, 0.0, 0.0));
    let (x1, _, _) = read_vec3(&buf.vertex_buffer, 12);
    assert_eq!(x1, 1.0);
}

#[test]
fn unrolled_modes_duplicate_per_corner() {
    let mut g: MeshGeometry<PosVertex> = MeshGeometry::new();
    // one quad: after triangulation two triangles, six corners
    g.add_face4(v(0.0, 0.0, 0.0), v(1.0, 0.0, 0.0), v(1.0, 1.0, 0.0), v(0.0, 1.0, 0.0))
        .unwrap();
    let buf = g.to_renderable_buffer_by_type(MeshBufferType::FaceNormals);
    assert_eq!(buf.vertex_count, 6);
    assert_eq!(buf.index_count, 0);
    assert!(buf.index_buffer.is_none());
    // each record is the payload plus a three-float normal
    assert_eq!(buf.vertex_buffer.len(), 6 * (12 + 12));
    // the face normal is broadcast: every record ends with (0, 0, 1)
    for c in 0..6 {
        let n = read_vec3(&buf.vertex_buffer, c * 24 + 12);
        assert_eq!(n, (0.0, 0.0, 1.0));
    }

    let mut g2: MeshGeometry<PosVertex> = MeshGeometry::new();
    g2.add_face4(v(0.0, 0.0, 0.0), v(1.0, 0.0, 0.0), v(1.0, 1.0, 0.0), v(0.0, 1.0, 0.0))
        .unwrap();
    let buf2 = g2.to_renderable_buffer_by_type(MeshBufferType::VertexNormalFaceData);
    assert_eq!(buf2.vertex_count, 6);
    assert_eq!(buf2.index_count, 0);
    assert!(buf2.index_buffer.is_none());
    assert_eq!(buf2.vertex_buffer.len(), 6 * 24);
}

#[test]
fn vertex_normals_share_one_record_per_quad_corner() {
    let mut g: MeshGeometry<PosVertex> = MeshGeometry::new();
    g.add_face4(v(0.0, 0.0, 0.0), v(1.0, 0.0, 0.0), v(1.0, 1.0, 0.0), v(0.0, 1.0, 0.0))
        .unwrap();
    let buf = g.to_renderable_buffer_by_type(MeshBufferType::VertexNormals);
    // the flat quad shares its four vertices and needs six indices
    assert_eq!(buf.vertex_count, 4);
    assert_eq!(buf.index_count, 6);
    assert_eq!(buf.vertex_buffer.len(), 4 * 24);
    let indices = buf.index_buffer.expect("indexed mode");
    assert_eq!(indices.len(), 6 * 4);
    for i in 0..6 {
        assert!(read_u32(&indices, i * 4) < 4);
    }
    // all four averaged normals agree on the flat quad
    let n0 = read_vec3(&buf.vertex_buffer, 12);
    assert_eq!(n0, (0.0, 0.0, 1.0));
    for c in 1..4 {
        let n = read_vec3(&buf.vertex_buffer, c * 24 + 12);
        assert_eq!(n, n0, "normals of a flat shared quad must all agree");
    }
}

#[test]
fn face_override_payload_replaces_the_color() {
    let mut g: MeshGeometry<ColorVertex> = MeshGeometry::new();
    let a = ColorVertex { pos: bits(0.0, 0.0, 0.0), color: 0x11111111 };
    let b = ColorVertex { pos: bits(1.0, 0.0, 0.0), color: 0x22222222 };
    let c = ColorVertex { pos: bits(0.0, 1.0, 0.0), color: 0x33333333 };
    let over = ColorVertex { pos: bits(0.0, 0.0, 0.0), color: 0xdeadbeef };
    g.add_face3_data(a, b, c, face_data(over)).unwrap();
    let buf = g.to_renderable_buffer_by_type(MeshBufferType::FaceNormals);
    assert_eq!(buf.vertex_count, 3);
    // record: position (12) + color (4) + normal (12)
    assert_eq!(buf.vertex_buffer.len(), 3 * 28);
    for corner in 0..3 {
        let color = read_u32(&buf.vertex_buffer, corner * 28 + 12);
        assert_eq!(color, 0xdeadbeef, "the override color wins at emission");
    }
    // the stored payloads keep their own colors
    assert_eq!(g.vertices[0].data.color, 0x11111111);
}

#[test]
fn buffered_geometry_reports_layout_and_counts() {
    let mut g: MeshGeometry<ColorVertex> = MeshGeometry::new();
    let a = ColorVertex { pos: bits(0.0, 0.0, 0.0), color: 1 };
    let b = ColorVertex { pos: bits(1.0, 0.0, 0.0), color: 2 };
    let c = ColorVertex { pos: bits(0.0, 1.0, 0.0), color: 3 };
    g.add_face3(a, b, c).unwrap();
    let geom = g.to_buffered_geometry_by_type(MeshBufferType::VertexNormals);
    // layout: position (12 bytes), color (4), normal (12)
    assert_eq!(geom.vertex_layout.len(), 3);
    assert_eq!(geom.vertex_layout[0].name, "position");
    assert_eq!(geom.vertex_layout[0].offset, 0);
    assert_eq!(geom.vertex_layout[1].name, "color");
    assert_eq!(geom.vertex_layout[1].offset, 12);
    assert_eq!(geom.vertex_layout[2].name, "normal");
    assert_eq!(geom.vertex_layout[2].offset, 16);
    assert_eq!(geom.vertex_size, 28);
    // with an index buffer present the reported count is the index count
    assert_eq!(geom.vertex_count, 3);
    assert!(geom.indices.is_some());
    assert_eq!(geom.buffer.len(), 3 * 28);

    let mut g2: MeshGeometry<ColorVertex> = MeshGeometry::new();
    g2.add_face3(a, b, c).unwrap();
    let geom2 = g2.to_buffered_geometry_by_type(MeshBufferType::NoNormals);
    assert_eq!(geom2.vertex_layout.len(), 2);
    assert_eq!(geom2.vertex_size, 16);
    assert_eq!(geom2.vertex_count, 3);
}

#[test]
fn emission_accumulates_triangulation_side_effects() {
    let mut g: MeshGeometry<PosVertex> = MeshGeometry::new();
    g.add_face4(v(0.0, 0.0, 0.0), v(1.0, 0.0, 0.0), v(1.0, 1.0, 0.0), v(0.0, 1.0, 0.0))
        .unwrap();
    assert_eq!(g.sections[0].faces.len(), 1);
    let _ = g.to_renderable_buffer_by_type(MeshBufferType::NoNormals);
    // emission triangulated the builder in place
    assert_eq!(g.sections[0].faces.len(), 2);
    let _ = g.to_renderable_buffer_by_type(MeshBufferType::NoNormals);
    assert_eq!(g.sections[0].faces.len(), 2);
}
