//! Vertex payloads: what a caller hands in per face corner.
//!
//! A payload must expose its position (for deduplication), a field-level
//! override merge (for per-face data overrides at emission), and its flat
//! byte representation together with the attribute layout that describes it.

use vstd::prelude::*;
use crate::fvec::Vec3Bits;
use crate::layout::VertexFormat;
use crate::layout::VertexType;

verus! {

/// The four little-endian bytes of a 32-bit word.
pub open spec fn spec_u32_le(x: u32) -> Seq<u8> {
    seq![
        (x & 0xff) as u8,
        ((x >> 8) & 0xff) as u8,
        ((x >> 16) & 0xff) as u8,
        ((x >> 24) & 0xff) as u8,
    ]
}

/// The twelve little-endian bytes of a bit-pattern vector: x, then y, then z.
pub open spec fn spec_vec3_le(v: Vec3Bits) -> Seq<u8> {
    spec_u32_le(v.x) + spec_u32_le(v.y) + spec_u32_le(v.z)
}

/// Appends the four little-endian bytes of `x` to `out`.
pub fn push_u32_le(out: &mut Vec<u8>, x: u32)
    ensures
        final(out)@ == old(out)@ + spec_u32_le(x),
{
    proof {
        assert((x & 0xff) < 256 && ((x >> 8) & 0xff) < 256 && ((x >> 16) & 0xff) < 256 && ((x
            >> 24) & 0xff) < 256) by (bit_vector);
    }
    out.push((x & 0xff) as u8);
    out.push(((x >> 8) & 0xff) as u8);
    out.push(((x >> 16) & 0xff) as u8);
    out.push(((x >> 24) & 0xff) as u8);
    assert(out@ =~= old(out)@ + spec_u32_le(x));
}

/// Appends the twelve little-endian bytes of `v` to `out`.
pub fn push_vec3_le(out: &mut Vec<u8>, v: Vec3Bits)
    ensures
        final(out)@ == old(out)@ + spec_vec3_le(v),
{
    push_u32_le(out, v.x);
    push_u32_le(out, v.y);
    push_u32_le(out, v.z);
    assert(out@ =~= old(out)@ + spec_vec3_le(v));
}

/// A payload from which a 3D position can be extracted. The position is the
/// deduplication key: two payloads with bit-identical positions share one
/// vertex id.
pub trait Position3D: Sized {
    spec fn spec_position(&self) -> Vec3Bits;

    fn position(&self) -> (p: Vec3Bits)
        ensures
            p == self.spec_position(),
    ;
}

/// A payload supporting a field-level merge: `a.override_with(b)` keeps the
/// fields of `a` that `b` does not override and takes the rest from `b`.
pub trait OverrideAttributesWith: Sized {
    spec fn spec_override_with(&self, attribs: &Self) -> Self;

    fn override_with(&self, attribs: &Self) -> (r: Self)
        ensures
            r == self.spec_override_with(attribs),
    ;
}

/// A payload that can be written into a flat vertex buffer: its bytes, and
/// the attribute layout that tells a consumer how to read them.
pub trait BufferedVertexData: Sized {
    spec fn spec_bytes(&self) -> Seq<u8>;

    fn to_bytes(&self) -> (r: Vec<u8>)
        ensures
            r@ == self.spec_bytes(),
    ;

    spec fn spec_layout() -> Seq<VertexType>;

    fn vertex_layout() -> (r: Vec<VertexType>)
        ensures
            r@ == Self::spec_layout(),
    ;
}

/// A minimal payload: a position and nothing else.
#[derive(Clone, Copy, PartialEq, Eq, Structural, Debug, Default)]
pub struct PosVertex {
    pub pos: Vec3Bits,
}

impl Position3D for PosVertex {
    open spec fn spec_position(&self) -> Vec3Bits {
        self.pos
    }

    fn position(&self) -> (p: Vec3Bits)
        ensures
            p == self.spec_position(),
    {
        self.pos
    }
}

impl OverrideAttributesWith for PosVertex {
    /// There is only the position, which an override never replaces.
    open spec fn spec_override_with(&self, attribs: &Self) -> Self {
        *self
    }

    fn override_with(&self, attribs: &Self) -> (r: Self)
        ensures
            r == self.spec_override_with(attribs),
    {
        *self
    }
}

impl BufferedVertexData for PosVertex {
    open spec fn spec_bytes(&self) -> Seq<u8> {
        spec_vec3_le(self.pos)
    }

    fn to_bytes(&self) -> (r: Vec<u8>)
        ensures
            r@ == self.spec_bytes(),
    {
        let mut out: Vec<u8> = Vec::new();
        push_vec3_le(&mut out, self.pos);
        out
    }

    open spec fn spec_layout() -> Seq<VertexType> {
        seq![VertexType { name: "position", format: VertexFormat::Float32x3 }]
    }

    fn vertex_layout() -> (r: Vec<VertexType>)
        ensures
            r@ == Self::spec_layout(),
    {
        let mut out: Vec<VertexType> = Vec::new();
        out.push(VertexType { name: "position", format: VertexFormat::Float32x3 });
        assert(out@ =~= Self::spec_layout());
        out
    }
}

/// A payload of a position and one packed color word (four 8-bit channels).
#[derive(Clone, Copy, PartialEq, Eq, Structural, Debug, Default)]
pub struct ColorVertex {
    pub pos: Vec3Bits,
    pub color: u32,
}

impl Position3D for ColorVertex {
    open spec fn spec_position(&self) -> Vec3Bits {
        self.pos
    }

    fn position(&self) -> (p: Vec3Bits)
        ensures
            p == self.spec_position(),
    {
        self.pos
    }
}

impl OverrideAttributesWith for ColorVertex {
    /// An override keeps the position and replaces the color.
    open spec fn spec_override_with(&self, attribs: &Self) -> Self {
        ColorVertex { pos: self.pos, color: attribs.color }
    }

    fn override_with(&self, attribs: &Self) -> (r: Self)
        ensures
            r == self.spec_override_with(attribs),
    {
        ColorVertex { pos: self.pos, color: attribs.color }
    }
}

impl BufferedVertexData for ColorVertex {
    open spec fn spec_bytes(&self) -> Seq<u8> {
        spec_vec3_le(self.pos) + spec_u32_le(self.color)
    }

    fn to_bytes(&self) -> (r: Vec<u8>)
        ensures
            r@ == self.spec_bytes(),
    {
        let mut out: Vec<u8> = Vec::new();
        push_vec3_le(&mut out, self.pos);
        push_u32_le(&mut out, self.color);
        assert(out@ =~= self.spec_bytes());
        out
    }

    open spec fn spec_layout() -> Seq<VertexType> {
        seq![
            VertexType { name: "position", format: VertexFormat::Float32x3 },
            VertexType { name: "color", format: VertexFormat::Unorm8x4 },
        ]
    }

    fn vertex_layout() -> (r: Vec<VertexType>)
        ensures
            r@ == Self::spec_layout(),
    {
        let mut out: Vec<VertexType> = Vec::new();
        out.push(VertexType { name: "position", format: VertexFormat::Float32x3 });
        out.push(VertexType { name: "color", format: VertexFormat::Unorm8x4 });
        assert(out@ =~= Self::spec_layout());
        out
    }
}

} // verus!
