//! Vertices as exact keys: float bit patterns made canonical the way ordered
//! floats compare them (all NaNs equal, both zeros equal).

use vstd::prelude::*;

use crate::registry::VertexKey;

verus! {

/// The bit pattern is a NaN: all exponent bits set and a nonzero mantissa.
pub open spec fn bits_is_nan(bits: u32) -> bool {
    (bits & 0x7f80_0000u32) == 0x7f80_0000u32 && (bits & 0x007f_ffffu32) != 0u32
}

/// IEEE equality of two non-NaN floats given by their bits: the same bits, or
/// two zeros of any sign.
pub open spec fn bits_float_eq(a: u32, b: u32) -> bool {
    a == b || ((a & 0x7fff_ffffu32) == 0u32 && (b & 0x7fff_ffffu32) == 0u32)
}

/// Ordered-float equality: NaNs equal each other and nothing else; other
/// values compare as floats.
pub open spec fn bits_ordered_eq(a: u32, b: u32) -> bool {
    if bits_is_nan(a) {
        bits_is_nan(b)
    } else {
        !bits_is_nan(b) && bits_float_eq(a, b)
    }
}

/// The canonical representative: one NaN, and negative zero folded into zero.
pub open spec fn canonical_bits_spec(bits: u32) -> u32 {
    if bits_is_nan(bits) {
        0x7fc0_0000u32
    } else if bits == 0x8000_0000u32 {
        0u32
    } else {
        bits
    }
}

/// The canonical bit pattern of a float given by its bits.
pub fn canonical_float_bits(bits: u32) -> (r: u32)
    ensures
        r == canonical_bits_spec(bits),
{
    if (bits & 0x7f80_0000u32) == 0x7f80_0000u32 && (bits & 0x007f_ffffu32) != 0u32 {
        0x7fc0_0000u32
    } else if bits == 0x8000_0000u32 {
        0u32
    } else {
        bits
    }
}

/// Two floats have the same canonical bits exactly when they are equal as
/// ordered floats.
pub proof fn lemma_canonical_matches_ordered_eq(a: u32, b: u32)
    ensures
        (canonical_bits_spec(a) == canonical_bits_spec(b)) == bits_ordered_eq(a, b),
{
    assert((canonical_bits_spec(a) == canonical_bits_spec(b)) == bits_ordered_eq(a, b)) by (bit_vector);
}

/// Canonicalizing twice is canonicalizing once.
pub proof fn lemma_canonical_idempotent(a: u32)
    ensures
        canonical_bits_spec(canonical_bits_spec(a)) == canonical_bits_spec(a),
{
    assert(canonical_bits_spec(canonical_bits_spec(a)) == canonical_bits_spec(a)) by (bit_vector);
}

/// A vertex of the visualization: the bit patterns of its position and of
/// its color components.
#[derive(Clone, Copy, Debug)]
pub struct VertexObject {
    pub point: [u32; 3],
    pub color: [u32; 4],
}

/// The key of a vertex: each component made canonical.
pub open spec fn vertex_key_spec(point: [u32; 3], color: [u32; 4]) -> VertexKey {
    (
        canonical_bits_spec(point[0]),
        canonical_bits_spec(point[1]),
        canonical_bits_spec(point[2]),
        canonical_bits_spec(color[0]),
        canonical_bits_spec(color[1]),
        canonical_bits_spec(color[2]),
        canonical_bits_spec(color[3]),
    )
}

/// The registry key of a vertex object.
pub open spec fn key_of(v: VertexObject) -> VertexKey {
    vertex_key_spec(v.point, v.color)
}

impl VertexObject {
    /// A vertex from the bit patterns of its position and color.
    pub fn new(point: [u32; 3], color: [u32; 4]) -> (r: VertexObject)
        ensures
            r.point == point,
            r.color == color,
    {
        VertexObject { point, color }
    }

    /// The registry key of this vertex.
    pub fn key(&self) -> (k: VertexKey)
        ensures
            k == vertex_key_spec(self.point, self.color),
    {
        (
            canonical_float_bits(self.point[0]),
            canonical_float_bits(self.point[1]),
            canonical_float_bits(self.point[2]),
            canonical_float_bits(self.color[0]),
            canonical_float_bits(self.color[1]),
            canonical_float_bits(self.color[2]),
            canonical_float_bits(self.color[3]),
        )
    }
}

/// Two vertices get the same key exactly when every component is equal as an
/// ordered float.
pub proof fn lemma_vertex_key_matches_ordered_eq(p1: [u32; 3], c1: [u32; 4], p2: [u32; 3], c2: [u32; 4])
    ensures
        (vertex_key_spec(p1, c1) == vertex_key_spec(p2, c2)) == (
            bits_ordered_eq(p1[0], p2[0]) && bits_ordered_eq(p1[1], p2[1])
            && bits_ordered_eq(p1[2], p2[2]) && bits_ordered_eq(c1[0], c2[0])
            && bits_ordered_eq(c1[1], c2[1]) && bits_ordered_eq(c1[2], c2[2])
            && bits_ordered_eq(c1[3], c2[3])),
{
    lemma_canonical_matches_ordered_eq(p1[0], p2[0]);
    lemma_canonical_matches_ordered_eq(p1[1], p2[1]);
    lemma_canonical_matches_ordered_eq(p1[2], p2[2]);
    lemma_canonical_matches_ordered_eq(c1[0], c2[0]);
    lemma_canonical_matches_ordered_eq(c1[1], c2[1]);
    lemma_canonical_matches_ordered_eq(c1[2], c2[2]);
    lemma_canonical_matches_ordered_eq(c1[3], c2[3]);
}

} // verus!
