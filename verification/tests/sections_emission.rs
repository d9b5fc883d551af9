use trivalibs::emit::MeshBufferType;
use trivalibs::fvec::Vec3Bits;
use trivalibs::mesh::MeshGeometry;
use trivalibs::mesh::face_section;
use trivalibs::payload::PosVertex;

fn bits(x: f32, y: f32, z: f32) -> Vec3Bits {
    Vec3Bits { x: x.to_bits(), y: y.to_bits(), z: z.to_bits() }
}

fn v(x: f32, y: f32, z: f32) -> PosVertex {
    PosVertex { pos: bits(x, y, z) }
}

fn read_u32(bytes: &[u8], at: usize) -> u32 {
    u32::from_le_bytes([bytes[at], bytes[at + 1], bytes[at + 2], bytes[at + 3]])
}

#[test]
fn sections_emit_in_ascending_id_order_with_offsets() {
    let mut g: MeshGeometry<PosVertex> = MeshGeometry::new();
    // section 5 first, then section 1: emission still orders 1 before 5
    g.add_face3_data(
        v(10.0, 0.0, 0.0),
        v(11.0, 0.0, 0.0),
        v(10.0, 1.0, 0.0),
        face_section(5),
    )
    .unwrap();
    g.add_face3_data(
        v(0.0, 0.0, 0.0),
        v(1.0, 0.0, 0.0),
        v(0.0, 1.0, 0.0),
        face_section(1),
    )
    .unwrap();
    let buf = g.to_renderable_buffer_by_type(MeshBufferType::VertexNormals);
    // each section emits its own three vertex records
    assert_eq!(buf.vertex_count, 6);
    assert_eq!(buf.index_count, 6);
    let indices = buf.index_buffer.expect("indexed mode");
    let ids: Vec<u32> = (0..6).map(|i| read_u32(&indices, i * 4)).collect();
    // the first three indices address section 1's block, the next three
    // stand behind the running offset of three records
    assert_eq!(ids, vec![0, 1, 2, 3, 4, 5]);
    // section 1's vertices come first in the shared vertex buffer: its
    // first record starts at position (0, 0, 0)
    let x0 = f32::from_bits(read_u32(&buf.vertex_buffer, 0));
    assert_eq!(x0, 0.0);
    // section 5's block starts after three 24-byte records, at x == 10
    let x3 = f32::from_bits(read_u32(&buf.vertex_buffer, 3 * 24));
    assert_eq!(x3, 10.0);
}

#[test]
fn vertex_normals_average_across_a_section_only() {
    let mut g: MeshGeometry<PosVertex> = MeshGeometry::new();
    // two faces meeting at a right angle share the edge (0,0,0)-(1,0,0)
    g.add_face3(v(0.0, 0.0, 0.0), v(1.0, 0.0, 0.0), v(0.0, 1.0, 0.0)).unwrap();
    g.add_face3(v(0.0, 0.0, 0.0), v(0.0, 0.0, 1.0), v(1.0, 0.0, 0.0)).unwrap();
    let buf = g.to_renderable_buffer_by_type(MeshBufferType::VertexNormals);
    assert_eq!(buf.vertex_count, 4);
    // the shared corner's normal is the normalized sum of (0,0,1) and
    // (0,1,0): both components weigh in equally
    let ny = f32::from_bits(read_u32(&buf.vertex_buffer, 12 + 4));
    let nz = f32::from_bits(read_u32(&buf.vertex_buffer, 12 + 8));
    assert!((ny - nz).abs() < 1e-6, "shared normal must mix both faces");
    assert!(nz > 0.5 && ny > 0.5);
}
