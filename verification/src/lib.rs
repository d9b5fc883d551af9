//! An indexed 3D mesh-geometry builder.
//!
//! Faces are added with per-vertex payloads; vertices are deduplicated by
//! exact (bit-identical) position, and every vertex keeps back-references to
//! the faces that use it. Quads can be triangulated in place, face and vertex
//! normals are generated with a degenerate-geometry fallback, and the mesh is
//! emitted as flat byte buffers in four layout modes.
//!
//! Positions and normals are carried as `u32` bit patterns of 32-bit floats;
//! the floating-point operations themselves are performed by `glam` behind a
//! small set of trusted wrappers.

pub mod fvec;
pub mod grid;
pub mod emit;
pub mod layout;
pub mod mesh;
pub mod normal;
pub mod tri;
pub mod payload;
