//! Vertex attribute formats and buffer layout descriptions.
//!
//! A vertex record is a sequence of attributes, each with a name and a
//! format. `create_buffered_geometry_layout` turns such a sequence into the
//! flat description a render pipeline needs: per attribute the component
//! count, the component type, whether it is normalized, and the byte offset
//! inside one vertex record, together with the total record size.

use vstd::prelude::*;

verus! {

/// The component type of a vertex attribute, as a graphics API knows it.
#[derive(Clone, Copy, Debug, Hash, PartialEq, Eq, Structural)]
pub enum AttributeType {
    Byte,
    UnsignedByte,
    Short,
    UnsignedShort,
    Float,
    HalfFloat,
}

impl AttributeType {
    pub open spec fn spec_code(self) -> u32 {
        match self {
            AttributeType::Byte => 0x1400,
            AttributeType::UnsignedByte => 0x1401,
            AttributeType::Short => 0x1402,
            AttributeType::UnsignedShort => 0x1403,
            AttributeType::Float => 0x1406,
            AttributeType::HalfFloat => 0x140B,
        }
    }

    /// The numeric value of this component type in WebGL.
    pub fn code(&self) -> (r: u32)
        ensures
            r == self.spec_code(),
    {
        match self {
            AttributeType::Byte => 0x1400,
            AttributeType::UnsignedByte => 0x1401,
            AttributeType::Short => 0x1402,
            AttributeType::UnsignedShort => 0x1403,
            AttributeType::Float => 0x1406,
            AttributeType::HalfFloat => 0x140B,
        }
    }
}

/// How the vertices of a buffer are assembled into primitives.
#[derive(Clone, Copy, Debug, Hash, PartialEq, Eq, Structural)]
pub enum RenderingPrimitive {
    Points,
    Lines,
    LineLoop,
    LineStrip,
    Triangles,
    TriangleStrip,
    TriangleFan,
}

impl RenderingPrimitive {
    pub open spec fn spec_code(self) -> u32 {
        match self {
            RenderingPrimitive::Points => 0x0000,
            RenderingPrimitive::Lines => 0x0001,
            RenderingPrimitive::LineLoop => 0x0002,
            RenderingPrimitive::LineStrip => 0x0003,
            RenderingPrimitive::Triangles => 0x0004,
            RenderingPrimitive::TriangleStrip => 0x0005,
            RenderingPrimitive::TriangleFan => 0x0006,
        }
    }

    /// The numeric value of this primitive mode in WebGL.
    pub fn code(&self) -> (r: u32)
        ensures
            r == self.spec_code(),
    {
        match self {
            RenderingPrimitive::Points => 0x0000,
            RenderingPrimitive::Lines => 0x0001,
            RenderingPrimitive::LineLoop => 0x0002,
            RenderingPrimitive::LineStrip => 0x0003,
            RenderingPrimitive::Triangles => 0x0004,
            RenderingPrimitive::TriangleStrip => 0x0005,
            RenderingPrimitive::TriangleFan => 0x0006,
        }
    }
}

impl Default for RenderingPrimitive {
    fn default() -> (r: Self)
        ensures
            r == RenderingPrimitive::Triangles,
    {
        RenderingPrimitive::Triangles
    }
}

/// The data format of one vertex attribute.
#[derive(Clone, Copy, Debug, Hash, PartialEq, Eq, Structural)]
pub enum VertexFormat {
    /// Two unsigned bytes. `uvec2` in shaders.
    Uint8x2,
    /// Four unsigned bytes. `uvec4` in shaders.
    Uint8x4,
    /// Two signed bytes. `ivec2` in shaders.
    Sint8x2,
    /// Four signed bytes. `ivec4` in shaders.
    Sint8x4,
    /// Two unsigned bytes, [0, 255] mapped to [0, 1]. `vec2` in shaders.
    Unorm8x2,
    /// Four unsigned bytes, [0, 255] mapped to [0, 1]. `vec4` in shaders.
    Unorm8x4,
    /// Two signed bytes, [-127, 127] mapped to [-1, 1]. `vec2` in shaders.
    Snorm8x2,
    /// Four signed bytes, [-127, 127] mapped to [-1, 1]. `vec4` in shaders.
    Snorm8x4,
    /// Two unsigned 16-bit integers. `uvec2` in shaders.
    Uint16x2,
    /// Four unsigned 16-bit integers. `uvec4` in shaders.
    Uint16x4,
    /// Two signed 16-bit integers. `ivec2` in shaders.
    Sint16x2,
    /// Four signed 16-bit integers. `ivec4` in shaders.
    Sint16x4,
    /// Two unsigned 16-bit integers, [0, 65535] mapped to [0, 1]. `vec2` in shaders.
    Unorm16x2,
    /// Four unsigned 16-bit integers, [0, 65535] mapped to [0, 1]. `vec4` in shaders.
    Unorm16x4,
    /// Two signed 16-bit integers, [-32767, 32767] mapped to [-1, 1]. `vec2` in shaders.
    Snorm16x2,
    /// Four signed 16-bit integers, [-32767, 32767] mapped to [-1, 1]. `vec4` in shaders.
    Snorm16x4,
    /// Two half-precision floats. `vec2` in shaders.
    Float16x2,
    /// Four half-precision floats. `vec4` in shaders.
    Float16x4,
    /// One single-precision float. `float` in shaders.
    Float32,
    /// Two single-precision floats. `vec2` in shaders.
    Float32x2,
    /// Three single-precision floats. `vec3` in shaders.
    Float32x3,
    /// Four single-precision floats. `vec4` in shaders.
    Float32x4,
}

impl VertexFormat {
    pub open spec fn spec_byte_size(self) -> u32 {
        match self {
            VertexFormat::Uint8x2
            | VertexFormat::Sint8x2
            | VertexFormat::Unorm8x2
            | VertexFormat::Snorm8x2 => 2,
            VertexFormat::Uint8x4
            | VertexFormat::Sint8x4
            | VertexFormat::Unorm8x4
            | VertexFormat::Snorm8x4
            | VertexFormat::Uint16x2
            | VertexFormat::Sint16x2
            | VertexFormat::Unorm16x2
            | VertexFormat::Snorm16x2
            | VertexFormat::Float16x2
            | VertexFormat::Float32 => 4,
            VertexFormat::Uint16x4
            | VertexFormat::Sint16x4
            | VertexFormat::Unorm16x4
            | VertexFormat::Snorm16x4
            | VertexFormat::Float16x4
            | VertexFormat::Float32x2 => 8,
            VertexFormat::Float32x3 => 12,
            VertexFormat::Float32x4 => 16,
        }
    }

    /// The byte size of one attribute of this format.
    pub fn byte_size(&self) -> (r: u32)
        ensures
            r == self.spec_byte_size(),
    {
        match self {
            VertexFormat::Uint8x2
            | VertexFormat::Sint8x2
            | VertexFormat::Unorm8x2
            | VertexFormat::Snorm8x2 => 2,
            VertexFormat::Uint8x4
            | VertexFormat::Sint8x4
            | VertexFormat::Unorm8x4
            | VertexFormat::Snorm8x4
            | VertexFormat::Uint16x2
            | VertexFormat::Sint16x2
            | VertexFormat::Unorm16x2
            | VertexFormat::Snorm16x2
            | VertexFormat::Float16x2
            | VertexFormat::Float32 => 4,
            VertexFormat::Uint16x4
            | VertexFormat::Sint16x4
            | VertexFormat::Unorm16x4
            | VertexFormat::Snorm16x4
            | VertexFormat::Float16x4
            | VertexFormat::Float32x2 => 8,
            VertexFormat::Float32x3 => 12,
            VertexFormat::Float32x4 => 16,
        }
    }

    pub open spec fn spec_normalized(self) -> bool {
        match self {
            VertexFormat::Unorm16x2
            | VertexFormat::Unorm16x4
            | VertexFormat::Unorm8x2
            | VertexFormat::Unorm8x4
            | VertexFormat::Snorm16x2
            | VertexFormat::Snorm16x4
            | VertexFormat::Snorm8x2
            | VertexFormat::Snorm8x4 => true,
            _ => false,
        }
    }

    /// Whether integer data of this format is normalized to [0, 1] or
    /// [-1, 1] when read as floats.
    pub fn normalized(&self) -> (r: bool)
        ensures
            r == self.spec_normalized(),
    {
        match self {
            VertexFormat::Unorm16x2
            | VertexFormat::Unorm16x4
            | VertexFormat::Unorm8x2
            | VertexFormat::Unorm8x4
            | VertexFormat::Snorm16x2
            | VertexFormat::Snorm16x4
            | VertexFormat::Snorm8x2
            | VertexFormat::Snorm8x4 => true,
            _ => false,
        }
    }

    pub open spec fn spec_count(self) -> u32 {
        match self {
            VertexFormat::Float32 => 1,
            VertexFormat::Uint8x2
            | VertexFormat::Sint8x2
            | VertexFormat::Unorm8x2
            | VertexFormat::Snorm8x2
            | VertexFormat::Uint16x2
            | VertexFormat::Sint16x2
            | VertexFormat::Unorm16x2
            | VertexFormat::Snorm16x2
            | VertexFormat::Float16x2
            | VertexFormat::Float32x2 => 2,
            VertexFormat::Float32x3 => 3,
            VertexFormat::Uint8x4
            | VertexFormat::Sint8x4
            | VertexFormat::Unorm8x4
            | VertexFormat::Snorm8x4
            | VertexFormat::Uint16x4
            | VertexFormat::Sint16x4
            | VertexFormat::Unorm16x4
            | VertexFormat::Snorm16x4
            | VertexFormat::Float16x4
            | VertexFormat::Float32x4 => 4,
        }
    }

    /// The number of components of this format.
    pub fn count(&self) -> (r: u32)
        ensures
            r == self.spec_count(),
    {
        match self {
            VertexFormat::Float32 => 1,
            VertexFormat::Uint8x2
            | VertexFormat::Sint8x2
            | VertexFormat::Unorm8x2
            | VertexFormat::Snorm8x2
            | VertexFormat::Uint16x2
            | VertexFormat::Sint16x2
            | VertexFormat::Unorm16x2
            | VertexFormat::Snorm16x2
            | VertexFormat::Float16x2
            | VertexFormat::Float32x2 => 2,
            VertexFormat::Float32x3 => 3,
            VertexFormat::Uint8x4
            | VertexFormat::Sint8x4
            | VertexFormat::Unorm8x4
            | VertexFormat::Snorm8x4
            | VertexFormat::Uint16x4
            | VertexFormat::Sint16x4
            | VertexFormat::Unorm16x4
            | VertexFormat::Snorm16x4
            | VertexFormat::Float16x4
            | VertexFormat::Float32x4 => 4,
        }
    }

    pub open spec fn spec_attr_type(self) -> AttributeType {
        match self {
            VertexFormat::Uint8x2
            | VertexFormat::Unorm8x2
            | VertexFormat::Uint8x4
            | VertexFormat::Unorm8x4 => AttributeType::UnsignedByte,
            VertexFormat::Sint8x2
            | VertexFormat::Snorm8x2
            | VertexFormat::Sint8x4
            | VertexFormat::Snorm8x4 => AttributeType::Byte,
            VertexFormat::Uint16x2
            | VertexFormat::Uint16x4
            | VertexFormat::Unorm16x2
            | VertexFormat::Unorm16x4 => AttributeType::UnsignedShort,
            VertexFormat::Sint16x2
            | VertexFormat::Sint16x4
            | VertexFormat::Snorm16x2
            | VertexFormat::Snorm16x4 => AttributeType::Short,
            VertexFormat::Float16x2 | VertexFormat::Float16x4 => AttributeType::HalfFloat,
            VertexFormat::Float32x2
            | VertexFormat::Float32x3
            | VertexFormat::Float32x4
            | VertexFormat::Float32 => AttributeType::Float,
        }
    }

    /// The component type of this format.
    pub fn attr_type(&self) -> (r: AttributeType)
        ensures
            r == self.spec_attr_type(),
    {
        match self {
            VertexFormat::Uint8x2
            | VertexFormat::Unorm8x2
            | VertexFormat::Uint8x4
            | VertexFormat::Unorm8x4 => AttributeType::UnsignedByte,
            VertexFormat::Sint8x2
            | VertexFormat::Snorm8x2
            | VertexFormat::Sint8x4
            | VertexFormat::Snorm8x4 => AttributeType::Byte,
            VertexFormat::Uint16x2
            | VertexFormat::Uint16x4
            | VertexFormat::Unorm16x2
            | VertexFormat::Unorm16x4 => AttributeType::UnsignedShort,
            VertexFormat::Sint16x2
            | VertexFormat::Sint16x4
            | VertexFormat::Snorm16x2
            | VertexFormat::Snorm16x4 => AttributeType::Short,
            VertexFormat::Float16x2 | VertexFormat::Float16x4 => AttributeType::HalfFloat,
            VertexFormat::Float32x2
            | VertexFormat::Float32x3
            | VertexFormat::Float32x4
            | VertexFormat::Float32 => AttributeType::Float,
        }
    }
}

/// One named attribute of a vertex record, as a payload type declares it.
#[derive(Clone, Copy, Debug)]
pub struct VertexType {
    pub name: &'static str,
    pub format: VertexFormat,
}

/// A named attribute pinned to a fixed slot index.
#[derive(Clone, Copy, Debug)]
pub struct AttributeIndex {
    pub name: &'static str,
    pub format: VertexFormat,
    pub index: usize,
}

impl AttributeIndex {
    pub fn new(name: &'static str, format: VertexFormat, index: usize) -> (r: AttributeIndex)
        ensures
            r == (AttributeIndex { name, format, index }),
    {
        AttributeIndex { name, format, index }
    }
}

pub fn attr_idx(name: &'static str, format: VertexFormat, index: usize) -> (r: AttributeIndex)
    ensures
        r == (AttributeIndex { name, format, index }),
{
    AttributeIndex::new(name, format, index)
}

/// One attribute of a vertex record, resolved to its position in the record:
/// component count, component type, normalization, and byte offset.
#[derive(Clone, Copy, Debug)]
pub struct AttributeLayout {
    pub name: &'static str,
    pub size: u32,
    pub attr_type: AttributeType,
    pub normalized: bool,
    pub offset: u32,
}

/// The sum of the byte sizes of the formats in `layout`.
pub open spec fn spec_layout_size(layout: Seq<VertexType>, n: int) -> int
    decreases n,
{
    if n <= 0 {
        0
    } else {
        spec_layout_size(layout, n - 1) + layout[n - 1].format.spec_byte_size()
    }
}

/// A full vertex record description: the per-attribute layouts and the byte
/// size of one record.
pub struct BufferedGeometryLayout {
    pub vertex_layout: Vec<AttributeLayout>,
    pub vertex_size: u32,
}

pub proof fn lemma_layout_size_nonneg(layout: Seq<VertexType>, n: int)
    ensures
        0 <= spec_layout_size(layout, n),
    decreases n,
{
    if n > 0 {
        lemma_layout_size_nonneg(layout, n - 1);
    }
}

/// Resolves a declared attribute list into per-attribute byte offsets (each
/// attribute starts where the previous one ended) and the total record size.
pub fn create_buffered_geometry_layout(layout: Vec<VertexType>) -> (r: BufferedGeometryLayout)
    requires
        spec_layout_size(layout@, layout@.len() as int) <= u32::MAX,
    ensures
        r.vertex_layout@.len() == layout@.len(),
        r.vertex_size == spec_layout_size(layout@, layout@.len() as int),
        forall|i: int|
            0 <= i < layout@.len() ==> {
                let a = #[trigger] r.vertex_layout@[i];
                &&& a.name == layout@[i].name
                &&& a.size == layout@[i].format.spec_count()
                &&& a.attr_type == layout@[i].format.spec_attr_type()
                &&& a.normalized == layout@[i].format.spec_normalized()
                &&& a.offset == spec_layout_size(layout@, i)
            },
{
    let mut vertex_layout: Vec<AttributeLayout> = Vec::new();
    let mut vertex_size: u32 = 0;
    let mut i: usize = 0;
    while i < layout.len()
        invariant
            0 <= i <= layout@.len(),
            spec_layout_size(layout@, layout@.len() as int) <= u32::MAX,
            vertex_size == spec_layout_size(layout@, i as int),
            vertex_layout@.len() == i,
            forall|j: int|
                0 <= j < i ==> {
                    let a = #[trigger] vertex_layout@[j];
                    &&& a.name == layout@[j].name
                    &&& a.size == layout@[j].format.spec_count()
                    &&& a.attr_type == layout@[j].format.spec_attr_type()
                    &&& a.normalized == layout@[j].format.spec_normalized()
                    &&& a.offset == spec_layout_size(layout@, j)
                },
        decreases layout@.len() - i,
    {
        let vt = layout[i];
        proof {
            lemma_layout_size_monotone(layout@, i + 1 as int, layout@.len() as int);
            lemma_layout_size_nonneg(layout@, i as int);
        }
        vertex_layout.push(
            AttributeLayout {
                name: vt.name,
                size: vt.format.count(),
                attr_type: vt.format.attr_type(),
                normalized: vt.format.normalized(),
                offset: vertex_size,
            },
        );
        vertex_size = vertex_size + vt.format.byte_size();
        i = i + 1;
    }
    BufferedGeometryLayout { vertex_layout, vertex_size }
}

proof fn lemma_layout_size_monotone(layout: Seq<VertexType>, m: int, n: int)
    requires
        m <= n,
    ensures
        spec_layout_size(layout, m) <= spec_layout_size(layout, n),
    decreases n - m,
{
    if m < n {
        lemma_layout_size_monotone(layout, m, n - 1);
    }
}

/// A pushed attribute leaves every prefix sum alone.
pub proof fn lemma_layout_size_push_prefix(layout: Seq<VertexType>, x: VertexType, n: int)
    requires
        0 <= n <= layout.len(),
    ensures
        spec_layout_size(layout.push(x), n) == spec_layout_size(layout, n),
    decreases n,
{
    if n > 0 {
        lemma_layout_size_push_prefix(layout, x, n - 1);
        assert(layout.push(x)[n - 1] == layout[n - 1]);
    }
}

/// Appending an attribute extends the record size by its byte size.
pub proof fn lemma_layout_size_push(layout: Seq<VertexType>, x: VertexType)
    ensures
        spec_layout_size(layout.push(x), layout.len() as int + 1) == spec_layout_size(
            layout,
            layout.len() as int,
        ) + x.format.spec_byte_size(),
{
    lemma_layout_size_push_prefix(layout, x, layout.len() as int);
    assert(layout.push(x)[layout.len() as int] == x);
}

/// The flat output of buffer emission: raw vertex bytes, optional raw index
/// bytes (4 bytes per index, little endian), and the two element counts.
pub struct RenderableBuffer {
    pub vertex_buffer: Vec<u8>,
    pub index_buffer: Option<Vec<u8>>,
    pub vertex_count: u32,
    pub index_count: u32,
}

/// A renderable buffer together with its record layout and primitive mode.
pub struct BufferedGeometry {
    pub buffer: Vec<u8>,
    /// Index values converted to bytes, 4 bytes per index, little endian.
    pub indices: Option<Vec<u8>>,
    pub vertex_size: u32,
    pub vertex_count: u32,
    pub rendering_primitive: RenderingPrimitive,
    pub vertex_layout: Vec<AttributeLayout>,
}

} // verus!
