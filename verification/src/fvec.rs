//! Three-component float vectors, carried as `u32` bit patterns.
//!
//! The library never computes with floats itself: every floating-point
//! operation is delegated to `glam` (or a primitive operation in core)
//! through a trusted wrapper whose result is named by an uninterpreted spec
//! function. All decisions taken on those results (degeneracy tests,
//! fallbacks) are verified code. Values cross the boundary as IEEE 754 bit
//! patterns via `bytemuck::cast`, which reinterprets the bytes one for one.
//!
//! IEEE 754 arithmetic is a function of the operand bits on any one build;
//! only the NaN payloads of invalid operations may differ across
//! architectures. Nothing in this library reads those bits beyond
//! bit-equality, so no stated result depends on them.

use vstd::prelude::*;

verus! {

/// A 3D vector of 32-bit floats, stored as their IEEE 754 bit patterns.
///
/// Equality of two `Vec3Bits` values is bit-exact equality of the three
/// components, which is exactly the notion of equality the mesh builder
/// deduplicates positions by.
#[derive(Clone, Copy, PartialEq, Eq, Structural, Debug, Default)]
pub struct Vec3Bits {
    pub x: u32,
    pub y: u32,
    pub z: u32,
}

impl Vec3Bits {
    /// The zero vector: all three components are the bit pattern of
    /// positive zero.
    pub fn zero() -> (r: Vec3Bits)
        ensures
            r == (Vec3Bits { x: 0, y: 0, z: 0 }),
    {
        Vec3Bits { x: 0, y: 0, z: 0 }
    }

    pub fn new(x: u32, y: u32, z: u32) -> (r: Vec3Bits)
        ensures
            r == (Vec3Bits { x, y, z }),
    {
        Vec3Bits { x, y, z }
    }
}

/// Bit pattern of the 32-bit float `1e-4`, the edge-length threshold under
/// which an edge counts as degenerate.
pub const DEGENERATE_EDGE_BITS: u32 = 0x38d1b717;

/// Bit pattern of the 32-bit float `0.9999`, the |cos| threshold over which
/// two edges count as nearly parallel.
pub const PARALLEL_COS_BITS: u32 = 0x3f7ff972;

/// Clearing a 32-bit float's sign bit is its absolute value, NaN included,
/// so no call leaves the library for it.
pub const ABS_MASK: u32 = 0x7fff_ffff;

/// What `glam::Vec3` subtraction returns, componentwise `a - b`.
pub uninterp spec fn sub_bits(a: Vec3Bits, b: Vec3Bits) -> Vec3Bits;

/// What `glam::Vec3` addition returns, componentwise `a + b`.
pub uninterp spec fn add_bits(a: Vec3Bits, b: Vec3Bits) -> Vec3Bits;

/// What `glam::Vec3::cross` returns.
pub uninterp spec fn cross_bits(a: Vec3Bits, b: Vec3Bits) -> Vec3Bits;

/// What `glam::Vec3::dot` returns.
pub uninterp spec fn dot_bits(a: Vec3Bits, b: Vec3Bits) -> u32;

/// What `glam::Vec3::length` returns.
pub uninterp spec fn length_bits(a: Vec3Bits) -> u32;

/// What componentwise `glam::Vec3` division by a splatted scalar returns.
pub uninterp spec fn div_bits(a: Vec3Bits, s: u32) -> Vec3Bits;

/// What `glam::Vec3::normalize` returns.
pub uninterp spec fn normalize_bits(a: Vec3Bits) -> Vec3Bits;

/// What `glam::Vec3::normalize_or_zero` returns.
pub uninterp spec fn normalize_or_zero_bits(a: Vec3Bits) -> Vec3Bits;

/// What the primitive 32-bit float `<` returns on the two bit patterns.
pub uninterp spec fn f32_lt_bits(a: u32, b: u32) -> bool;

/// What the primitive 32-bit float `>` returns on the two bit patterns.
pub uninterp spec fn f32_gt_bits(a: u32, b: u32) -> bool;

/// Relies on `glam::Vec3`'s `Sub` impl: componentwise float subtraction,
/// a function of the two operands' bits alone.
#[verifier::external_body]
pub fn v3_sub(a: Vec3Bits, b: Vec3Bits) -> (r: Vec3Bits)
    ensures
        r == sub_bits(a, b),
{
    let va: glam::Vec3 = bytemuck::cast([a.x, a.y, a.z]);
    let vb: glam::Vec3 = bytemuck::cast([b.x, b.y, b.z]);
    let rv: [u32; 3] = bytemuck::cast(va - vb);
    Vec3Bits { x: rv[0], y: rv[1], z: rv[2] }
}

/// Relies on `glam::Vec3`'s `Add` impl: componentwise float addition,
/// a function of the two operands' bits alone.
#[verifier::external_body]
pub fn v3_add(a: Vec3Bits, b: Vec3Bits) -> (r: Vec3Bits)
    ensures
        r == add_bits(a, b),
{
    let va: glam::Vec3 = bytemuck::cast([a.x, a.y, a.z]);
    let vb: glam::Vec3 = bytemuck::cast([b.x, b.y, b.z]);
    let rv: [u32; 3] = bytemuck::cast(va + vb);
    Vec3Bits { x: rv[0], y: rv[1], z: rv[2] }
}

/// Relies on `glam::Vec3::cross`: the cross product is a function of the
/// two operands' bits alone.
#[verifier::external_body]
pub fn v3_cross(a: Vec3Bits, b: Vec3Bits) -> (r: Vec3Bits)
    ensures
        r == cross_bits(a, b),
{
    let va: glam::Vec3 = bytemuck::cast([a.x, a.y, a.z]);
    let vb: glam::Vec3 = bytemuck::cast([b.x, b.y, b.z]);
    let rv: [u32; 3] = bytemuck::cast(va.cross(vb));
    Vec3Bits { x: rv[0], y: rv[1], z: rv[2] }
}

/// Relies on `glam::Vec3::dot`: a function of the two operands' bits alone.
#[verifier::external_body]
pub fn v3_dot(a: Vec3Bits, b: Vec3Bits) -> (r: u32)
    ensures
        r == dot_bits(a, b),
{
    let va: glam::Vec3 = bytemuck::cast([a.x, a.y, a.z]);
    let vb: glam::Vec3 = bytemuck::cast([b.x, b.y, b.z]);
    let rv: [u32; 3] = bytemuck::cast(glam::Vec3::splat(va.dot(vb)));
    rv[0]
}

/// Relies on `glam::Vec3::length`: a function of the operand's bits alone.
#[verifier::external_body]
pub fn v3_length(a: Vec3Bits) -> (r: u32)
    ensures
        r == length_bits(a),
{
    let va: glam::Vec3 = bytemuck::cast([a.x, a.y, a.z]);
    let rv: [u32; 3] = bytemuck::cast(glam::Vec3::splat(va.length()));
    rv[0]
}

/// Relies on `glam::Vec3`'s `Div<Vec3>` impl: componentwise float division
/// by the splatted scalar, a function of the operands' bits alone.
#[verifier::external_body]
pub fn v3_div(a: Vec3Bits, s: u32) -> (r: Vec3Bits)
    ensures
        r == div_bits(a, s),
{
    let va: glam::Vec3 = bytemuck::cast([a.x, a.y, a.z]);
    let vs: glam::Vec3 = bytemuck::cast([s, s, s]);
    let rv: [u32; 3] = bytemuck::cast(va / vs);
    Vec3Bits { x: rv[0], y: rv[1], z: rv[2] }
}

/// Relies on `glam::Vec3::normalize`: a function of the operand's bits alone.
#[verifier::external_body]
pub fn v3_normalize(a: Vec3Bits) -> (r: Vec3Bits)
    ensures
        r == normalize_bits(a),
{
    let va: glam::Vec3 = bytemuck::cast([a.x, a.y, a.z]);
    let rv: [u32; 3] = bytemuck::cast(va.normalize());
    Vec3Bits { x: rv[0], y: rv[1], z: rv[2] }
}

/// Relies on `glam::Vec3::normalize_or_zero`: a function of the operand's
/// bits alone; returns the zero vector where the input cannot be normalized.
#[verifier::external_body]
pub fn v3_normalize_or_zero(a: Vec3Bits) -> (r: Vec3Bits)
    ensures
        r == normalize_or_zero_bits(a),
{
    let va: glam::Vec3 = bytemuck::cast([a.x, a.y, a.z]);
    let rv: [u32; 3] = bytemuck::cast(va.normalize_or_zero());
    Vec3Bits { x: rv[0], y: rv[1], z: rv[2] }
}

/// Relies on the primitive 32-bit float `<` (`PartialOrd::lt`): a function
/// of the operands' bits alone.
#[verifier::external_body]
pub fn f32_lt(a: u32, b: u32) -> (r: bool)
    ensures
        r == f32_lt_bits(a, b),
{
    let va: glam::Vec3 = bytemuck::cast([a, a, a]);
    let vb: glam::Vec3 = bytemuck::cast([b, b, b]);
    va.x < vb.x
}

/// Relies on the primitive 32-bit float `>` (`PartialOrd::gt`): a function
/// of the operands' bits alone.
#[verifier::external_body]
pub fn f32_gt(a: u32, b: u32) -> (r: bool)
    ensures
        r == f32_gt_bits(a, b),
{
    let va: glam::Vec3 = bytemuck::cast([a, a, a]);
    let vb: glam::Vec3 = bytemuck::cast([b, b, b]);
    va.x > vb.x
}

} // verus!
