//! Slicing directions of the color grid and the index arithmetic used to walk it.

use vstd::prelude::*;

verus! {

/// The grid axis that a slicing method names (0 for X, 1 for Y, 2 for Z).
#[derive(Debug, Clone, Copy, PartialEq, Eq, Structural)]
pub enum SlicingMethod {
    X,
    Y,
    Z,
}

/// Which kind of element the 3D visualization is drawn with.
#[derive(Debug, Clone, Copy, PartialEq, Eq, Structural)]
pub enum Dimensionality {
    Vertex,
    Edge,
    Face,
    Volume,
}

/// A direction in which a color model can be rotated.
#[derive(Debug, Clone, Copy, PartialEq, Eq, Structural)]
pub enum RotationDirection {
    NoRotation,
    Clockwise,
    Counterclockwise,
}

/// The family a color model belongs to.
#[derive(Debug, Clone, Copy, PartialEq, Eq, Structural)]
pub enum ColorModelCategory {
    Spherical,
    Cubic,
    LumaChroma,
}

/// The grid axis of a slicing method.
pub open spec fn axis_of(s: SlicingMethod) -> int {
    match s {
        SlicingMethod::X => 0,
        SlicingMethod::Y => 1,
        SlicingMethod::Z => 2,
    }
}

/// The first of the two axes other than the slicing axis.
pub open spec fn first_other_axis(s: SlicingMethod) -> int {
    if axis_of(s) == 0 { 1 } else { 0 }
}

/// Offset of corner `corner` (0..4) of a unit quad along `axis`: the quad lies
/// in the plane where the slicing axis is 0, its first corner is the origin,
/// and its corners go round the unit square (first along the first other
/// axis, then along the second one, then back).
pub open spec fn face_offset(s: SlicingMethod, corner: int, axis: int) -> usize {
    if axis == axis_of(s) {
        0
    } else if axis == first_other_axis(s) {
        if corner == 1 || corner == 2 { 1 } else { 0 }
    } else {
        if corner == 2 || corner == 3 { 1 } else { 0 }
    }
}

/// Offset of end `end` (0..2) of a unit edge along `axis`: the edge starts at
/// the origin and steps one along the slicing axis.
pub open spec fn edge_offset(s: SlicingMethod, end: int, axis: int) -> usize {
    if end == 1 && axis == axis_of(s) { 1 } else { 0 }
}

impl SlicingMethod {
    /// The four corner offsets of the unit quad of this slicing.
    pub fn get_face_offsets(&self) -> (r: [[usize; 3]; 4])
        ensures
            forall|c: int, a: int| 0 <= c < 4 && 0 <= a < 3 ==> #[trigger] r[c][a] == face_offset(*self, c, a),
    {
        match self {
            SlicingMethod::X => [[0, 0, 0], [0, 1, 0], [0, 1, 1], [0, 0, 1]],
            SlicingMethod::Y => [[0, 0, 0], [1, 0, 0], [1, 0, 1], [0, 0, 1]],
            SlicingMethod::Z => [[0, 0, 0], [1, 0, 0], [1, 1, 0], [0, 1, 0]],
        }
    }

    /// The two end offsets of the unit edge of this slicing.
    pub fn get_edge_offsets(&self) -> (r: [[usize; 3]; 2])
        ensures
            forall|e: int, a: int| 0 <= e < 2 && 0 <= a < 3 ==> #[trigger] r[e][a] == edge_offset(*self, e, a),
    {
        match self {
            SlicingMethod::X => [[0, 0, 0], [1, 0, 0]],
            SlicingMethod::Y => [[0, 0, 0], [0, 1, 0]],
            SlicingMethod::Z => [[0, 0, 0], [0, 0, 1]],
        }
    }

    /// The single offset of a vertex: the origin.
    pub fn get_vertex_offset(&self) -> (r: [[usize; 3]; 1])
        ensures
            r[0][0] == 0 && r[0][1] == 0 && r[0][2] == 0,
    {
        [[0, 0, 0]]
    }
}

/// `index + offset`, wrapped around `length`.
pub fn wrap_index(index: usize, offset: usize, length: usize) -> (r: usize)
    requires
        length > 0,
        index + offset <= usize::MAX,
    ensures
        r == (index + offset) % (length as int),
        r < length,
{
    let raw = index + offset;
    raw % length
}

/// Each pair of consecutive corners of a slicing's quad (the last one back to
/// the first) differs by one step along exactly one axis, and no corner leaves
/// the plane of the slicing axis.
pub proof fn lemma_face_is_unit_cycle(s: SlicingMethod, c: int)
    requires
        0 <= c < 4,
    ensures
        face_offset(s, c, axis_of(s)) == 0,
        ({
            let n = if c == 3 { 0 } else { c + 1 };
            let d0 = face_offset(s, n, 0) - face_offset(s, c, 0);
            let d1 = face_offset(s, n, 1) - face_offset(s, c, 1);
            let d2 = face_offset(s, n, 2) - face_offset(s, c, 2);
            &&& (d0 == 0 || d0 == 1 || d0 == -1)
            &&& (d1 == 0 || d1 == 1 || d1 == -1)
            &&& (d2 == 0 || d2 == 1 || d2 == -1)
            &&& (if d0 != 0 { 1int } else { 0 }) + (if d1 != 0 { 1int } else { 0 }) + (if d2 != 0 { 1int } else { 0 }) == 1
        }),
{
}

/// The edge of a slicing runs along the slicing axis, which is the axis its
/// quads are flat in: edges are normal to the quads of the same slicing.
pub proof fn lemma_edge_is_normal_to_face(s: SlicingMethod)
    ensures
        edge_offset(s, 1, axis_of(s)) == 1,
        forall|a: int| 0 <= a < 3 && a != axis_of(s) ==> edge_offset(s, 1, a) == 0,
        forall|c: int| 0 <= c < 4 ==> face_offset(s, c, axis_of(s)) == 0,
        forall|a: int| 0 <= a < 3 ==> edge_offset(s, 0, a) == 0 && face_offset(s, 0, a) == 0,
{
}

} // verus!
