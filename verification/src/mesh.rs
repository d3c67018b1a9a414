//! How a quad becomes triangles in a mesh, and which corner colors it.

use vstd::prelude::*;

verus! {

/// The indices of the two triangles of a quad whose four corners are stored
/// from position `base` on: corners (0, 1, 2) and (0, 2, 3).
pub fn quad_triangle_indices(base: u32) -> (r: [u32; 6])
    requires
        base + 3 <= u32::MAX,
    ensures
        r[0] == base,
        r[1] == base + 1,
        r[2] == base + 2,
        r[3] == base,
        r[4] == base + 2,
        r[5] == base + 3,
{
    [base, base + 1, base + 2, base, base + 2, base + 3]
}

/// The corner whose color a quad corner takes: with discrete colors every
/// corner takes the first corner's color, otherwise its own.
pub fn quad_color_corner(discrete_color: bool, corner: usize) -> (r: usize)
    ensures
        r == (if discrete_color { 0 } else { corner }),
{
    if discrete_color { 0 } else { corner }
}

/// Law: the two triangles of a quad cover all four corners, share exactly
/// the diagonal from corner 0 to corner 2, and go round the quad in the same
/// direction.
pub proof fn lemma_quad_triangles(base: int)
    ensures
        ({
            let t = seq![base, base + 1, base + 2, base, base + 2, base + 3];
            &&& forall|c: int| 0 <= c < 4 ==> #[trigger] t.contains(base + c)
            &&& t[0] == t[3] && t[2] == t[4]
            &&& t[1] != t[5]
            &&& t[0] < t[1] < t[2] && t[3] < t[4] < t[5]
        }),
{
    let t = seq![base, base + 1, base + 2, base, base + 2, base + 3];
    assert(t[0] == base);
    assert(t[1] == base + 1);
    assert(t[2] == base + 2);
    assert(t[5] == base + 3);
}

} // verus!
