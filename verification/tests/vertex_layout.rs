use trivalibs::layout::AttributeType;
use trivalibs::layout::RenderingPrimitive;
use trivalibs::layout::VertexFormat;
use trivalibs::layout::VertexType;
use trivalibs::layout::attr_idx;
use trivalibs::layout::create_buffered_geometry_layout;
use trivalibs::payload::PosVertex;
use trivalibs::payload::ColorVertex;
use trivalibs::payload::BufferedVertexData;

#[test]
fn format_byte_sizes() {
    assert_eq!(VertexFormat::Uint8x2.byte_size(), 2);
    assert_eq!(VertexFormat::Snorm8x4.byte_size(), 4);
    assert_eq!(VertexFormat::Uint16x2.byte_size(), 4);
    assert_eq!(VertexFormat::Float32.byte_size(), 4);
    assert_eq!(VertexFormat::Float32x2.byte_size(), 8);
    assert_eq!(VertexFormat::Unorm16x4.byte_size(), 8);
    assert_eq!(VertexFormat::Float32x3.byte_size(), 12);
    assert_eq!(VertexFormat::Float32x4.byte_size(), 16);
}

#[test]
fn format_component_counts() {
    assert_eq!(VertexFormat::Float32.count(), 1);
    assert_eq!(VertexFormat::Sint16x2.count(), 2);
    assert_eq!(VertexFormat::Float32x3.count(), 3);
    assert_eq!(VertexFormat::Uint8x4.count(), 4);
    assert_eq!(VertexFormat::Float16x4.count(), 4);
}

#[test]
fn format_normalization_flags() {
    assert!(VertexFormat::Unorm8x4.normalized());
    assert!(VertexFormat::Snorm16x2.normalized());
    assert!(!VertexFormat::Uint8x4.normalized());
    assert!(!VertexFormat::Float32x3.normalized());
}

#[test]
fn format_attribute_types_and_codes() {
    assert_eq!(VertexFormat::Uint8x2.attr_type(), AttributeType::UnsignedByte);
    assert_eq!(VertexFormat::Snorm8x2.attr_type(), AttributeType::Byte);
    assert_eq!(VertexFormat::Unorm16x4.attr_type(), AttributeType::UnsignedShort);
    assert_eq!(VertexFormat::Sint16x4.attr_type(), AttributeType::Short);
    assert_eq!(VertexFormat::Float16x2.attr_type(), AttributeType::HalfFloat);
    assert_eq!(VertexFormat::Float32x3.attr_type(), AttributeType::Float);
    assert_eq!(AttributeType::Byte.code(), 0x1400);
    assert_eq!(AttributeType::UnsignedByte.code(), 0x1401);
    assert_eq!(AttributeType::Short.code(), 0x1402);
    assert_eq!(AttributeType::UnsignedShort.code(), 0x1403);
    assert_eq!(AttributeType::Float.code(), 0x1406);
    assert_eq!(AttributeType::HalfFloat.code(), 0x140B);
}

#[test]
fn rendering_primitive_codes_and_default() {
    assert_eq!(RenderingPrimitive::Points.code(), 0x0000);
    assert_eq!(RenderingPrimitive::Triangles.code(), 0x0004);
    assert_eq!(RenderingPrimitive::TriangleFan.code(), 0x0006);
    assert_eq!(RenderingPrimitive::default(), RenderingPrimitive::Triangles);
}

#[test]
fn attribute_index_builder() {
    let a = attr_idx("position", VertexFormat::Float32x2, 0);
    assert_eq!(a.name, "position");
    assert_eq!(a.format, VertexFormat::Float32x2);
    assert_eq!(a.index, 0);
}

#[test]
fn layout_offsets_accumulate() {
    let layout = vec![
        VertexType { name: "position", format: VertexFormat::Float32x3 },
        VertexType { name: "uv", format: VertexFormat::Float32x2 },
        VertexType { name: "tint", format: VertexFormat::Unorm8x4 },
    ];
    let out = create_buffered_geometry_layout(layout);
    assert_eq!(out.vertex_size, 24);
    assert_eq!(out.vertex_layout.len(), 3);
    assert_eq!(out.vertex_layout[0].offset, 0);
    assert_eq!(out.vertex_layout[0].size, 3);
    assert_eq!(out.vertex_layout[0].attr_type, AttributeType::Float);
    assert!(!out.vertex_layout[0].normalized);
    assert_eq!(out.vertex_layout[1].offset, 12);
    assert_eq!(out.vertex_layout[2].offset, 20);
    assert!(out.vertex_layout[2].normalized);
}

#[test]
fn payload_byte_encodings() {
    let p = PosVertex { pos: trivalibs::fvec::Vec3Bits { x: 0x01020304, y: 0x05060708, z: 0x090a0b0c } };
    assert_eq!(
        p.to_bytes(),
        vec![0x04, 0x03, 0x02, 0x01, 0x08, 0x07, 0x06, 0x05, 0x0c, 0x0b, 0x0a, 0x09]
    );
    let c = ColorVertex { pos: p.pos, color: 0xaabbccdd };
    let mut expected = p.to_bytes();
    expected.extend_from_slice(&[0xdd, 0xcc, 0xbb, 0xaa]);
    assert_eq!(c.to_bytes(), expected);
    assert_eq!(PosVertex::vertex_layout().len(), 1);
    assert_eq!(ColorVertex::vertex_layout().len(), 2);
    assert_eq!(ColorVertex::vertex_layout()[1].format, VertexFormat::Unorm8x4);
}
