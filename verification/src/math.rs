//! Fixed-size value types shared by the decoders.
//!
//! Positions, normals, rotations and texture coordinates are IEEE 754
//! single-precision values on disk.  This library carries each such value as
//! its raw 32-bit pattern (`u32`); the embedding application reinterprets the
//! patterns as floating-point numbers.  Compressed bone rotations stay as the
//! signed 16-bit triples stored on disk.

use vstd::prelude::*;

verus! {

/// Three single-precision components (x, y, z), as raw bit patterns.
pub type Vec3Bits = [u32; 3];

/// Two texture coordinates (u, v), as raw bit patterns.
pub type UvBits = [u32; 2];

/// Four color channels (r, g, b, a), one byte each, as stored on disk.
pub type ColorBytes = [u8; 4];

/// A compressed rotation: three signed 16-bit quaternion components.
pub type RotRaw = [i16; 3];

/// Three vertex indices, local to the structure that produced them.
pub type Triangle = [u16; 3];

/// Builds a triangle from a vector of exactly three indices.
pub fn triangle_from_vec(v: Vec<u16>) -> (r: Option<Triangle>)
    ensures
        v@.len() == 3 ==> (r matches Some(t) && t@ == seq![v@[0], v@[1], v@[2]]),
        v@.len() != 3 ==> r is None,
{
    if v.len() != 3 {
        return None;
    }
    let t: Triangle = [v[0], v[1], v[2]];
    proof {
        assert(t@ =~= seq![v@[0], v@[1], v@[2]]);
    }
    Some(t)
}

/// Builds a three-component bit-pattern vector from exactly three values.
pub fn vec3_from_vec(v: Vec<u32>) -> (r: Option<Vec3Bits>)
    ensures
        v@.len() == 3 ==> (r matches Some(t) && t@ == seq![v@[0], v@[1], v@[2]]),
        v@.len() != 3 ==> r is None,
{
    if v.len() != 3 {
        return None;
    }
    let t: Vec3Bits = [v[0], v[1], v[2]];
    proof {
        assert(t@ =~= seq![v@[0], v@[1], v@[2]]);
    }
    Some(t)
}

/// Builds a texture-coordinate pair from exactly two values.
pub fn uv_from_vec(v: Vec<u32>) -> (r: Option<UvBits>)
    ensures
        v@.len() == 2 ==> (r matches Some(t) && t@ == seq![v@[0], v@[1]]),
        v@.len() != 2 ==> r is None,
{
    if v.len() != 2 {
        return None;
    }
    let t: UvBits = [v[0], v[1]];
    proof {
        assert(t@ =~= seq![v@[0], v@[1]]);
    }
    Some(t)
}

/// Builds a color from exactly four channel bytes.
pub fn color_from_vec(v: Vec<u8>) -> (r: Option<ColorBytes>)
    ensures
        v@.len() == 4 ==> (r matches Some(t) && t@ == seq![v@[0], v@[1], v@[2], v@[3]]),
        v@.len() != 4 ==> r is None,
{
    if v.len() != 4 {
        return None;
    }
    let t: ColorBytes = [v[0], v[1], v[2], v[3]];
    proof {
        assert(t@ =~= seq![v@[0], v@[1], v@[2], v@[3]]);
    }
    Some(t)
}

} // verus!
