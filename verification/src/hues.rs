//! The named hues of the hue wheel and its rings.

use vstd::prelude::*;

verus! {

/// A named color of the wheel, white at its center and 24 hues round it.
#[derive(Debug, Clone, Copy, PartialEq, Eq, Structural)]
pub enum HueName {
    White,
    Red,
    Vermillion,
    Orange,
    Amber,
    Yellow,
    Becquerel,
    Chartreuse,
    Lime,
    Green,
    Emerald,
    Mint,
    Turquoise,
    Cyan,
    Capri,
    Azure,
    Cerulean,
    Blue,
    Indigo,
    Violet,
    Purple,
    Magenta,
    Fuschia,
    Rose,
    Ruby,
}

/// The 24 hues round the wheel, starting at red.
pub open spec fn wheel() -> Seq<HueName> {
    seq![
        HueName::Red, HueName::Vermillion, HueName::Orange, HueName::Amber,
        HueName::Yellow, HueName::Becquerel, HueName::Chartreuse, HueName::Lime,
        HueName::Green, HueName::Emerald, HueName::Mint, HueName::Turquoise,
        HueName::Cyan, HueName::Capri, HueName::Azure, HueName::Cerulean,
        HueName::Blue, HueName::Indigo, HueName::Violet, HueName::Purple,
        HueName::Magenta, HueName::Fuschia, HueName::Rose, HueName::Ruby,
    ]
}

/// Every `stride`-th hue of the wheel, from red.
pub open spec fn wheel_every(stride: int) -> Seq<HueName> {
    Seq::new((24int / stride) as nat, |i: int| wheel()[i * stride])
}

/// The rings of the hue wheel from the center out: white, then the 3
/// primary, 6 secondary, 12 tertiary and 24 quaternary hues.
pub open spec fn hue_rings() -> Seq<Seq<HueName>> {
    seq![seq![HueName::White], wheel_every(8), wheel_every(4), wheel_every(2), wheel()]
}

/// The rings of the hue wheel from the center out.
pub fn generate_hues() -> (r: Vec<Vec<HueName>>)
    ensures
        r@.len() == 5,
        forall|k: int| 0 <= k < 5 ==> #[trigger] r@[k]@ == hue_rings()[k],
{
    let mut protoary: Vec<HueName> = Vec::new();
    protoary.push(HueName::White);

    let mut primary: Vec<HueName> = Vec::new();
    primary.push(HueName::Red);
    primary.push(HueName::Green);
    primary.push(HueName::Blue);

    let mut secondary: Vec<HueName> = Vec::new();
    secondary.push(HueName::Red);
    secondary.push(HueName::Yellow);
    secondary.push(HueName::Green);
    secondary.push(HueName::Cyan);
    secondary.push(HueName::Blue);
    secondary.push(HueName::Magenta);

    let mut tertiary: Vec<HueName> = Vec::new();
    tertiary.push(HueName::Red);
    tertiary.push(HueName::Orange);
    tertiary.push(HueName::Yellow);
    tertiary.push(HueName::Chartreuse);
    tertiary.push(HueName::Green);
    tertiary.push(HueName::Mint);
    tertiary.push(HueName::Cyan);
    tertiary.push(HueName::Azure);
    tertiary.push(HueName::Blue);
    tertiary.push(HueName::Violet);
    tertiary.push(HueName::Magenta);
    tertiary.push(HueName::Rose);

    let mut quaternary: Vec<HueName> = Vec::new();
    quaternary.push(HueName::Red);
    quaternary.push(HueName::Vermillion);
    quaternary.push(HueName::Orange);
    quaternary.push(HueName::Amber);
    quaternary.push(HueName::Yellow);
    quaternary.push(HueName::Becquerel);
    quaternary.push(HueName::Chartreuse);
    quaternary.push(HueName::Lime);
    quaternary.push(HueName::Green);
    quaternary.push(HueName::Emerald);
    quaternary.push(HueName::Mint);
    quaternary.push(HueName::Turquoise);
    quaternary.push(HueName::Cyan);
    quaternary.push(HueName::Capri);
    quaternary.push(HueName::Azure);
    quaternary.push(HueName::Cerulean);
    quaternary.push(HueName::Blue);
    quaternary.push(HueName::Indigo);
    quaternary.push(HueName::Violet);
    quaternary.push(HueName::Purple);
    quaternary.push(HueName::Magenta);
    quaternary.push(HueName::Fuschia);
    quaternary.push(HueName::Rose);
    quaternary.push(HueName::Ruby);

    proof {
        assert(protoary@ =~= hue_rings()[0]);
        assert(primary@ =~= hue_rings()[1]);
        assert(secondary@ =~= hue_rings()[2]);
        assert(tertiary@ =~= hue_rings()[3]);
        assert(quaternary@ =~= hue_rings()[4]);
    }

    let mut rings: Vec<Vec<HueName>> = Vec::new();
    rings.push(protoary);
    rings.push(primary);
    rings.push(secondary);
    rings.push(tertiary);
    rings.push(quaternary);
    rings
}

/// Law: each hue ring from the primary one out has twice as many hues as the
/// ring inside it, and keeps the inner ring's hues, in order, at its even
/// positions, with a new hue between each pair of neighbours.
pub proof fn lemma_rings_refine(k: int, i: int)
    requires
        1 <= k < 4,
        0 <= i < hue_rings()[k].len(),
    ensures
        hue_rings()[1].len() == 3,
        hue_rings()[k + 1].len() == 2 * hue_rings()[k].len(),
        hue_rings()[k + 1][2 * i] == hue_rings()[k][i],
{
    if k == 1 {
        assert(i * 8 == 2 * i * 4);
    } else if k == 2 {
        assert(i * 4 == 2 * i * 2);
    } else {
        assert(wheel_every(2)[i] == wheel()[i * 2]);
    }
}

/// The hue angle of a named color, in degrees round the wheel from red;
/// white, at the center, has none and is given -1.
pub open spec fn hue_degrees(h: HueName) -> int {
    match h {
        HueName::White => -1,
        HueName::Red => 0,
        HueName::Vermillion => 15,
        HueName::Orange => 30,
        HueName::Amber => 45,
        HueName::Yellow => 60,
        HueName::Becquerel => 75,
        HueName::Chartreuse => 90,
        HueName::Lime => 105,
        HueName::Green => 120,
        HueName::Emerald => 135,
        HueName::Mint => 150,
        HueName::Turquoise => 165,
        HueName::Cyan => 180,
        HueName::Capri => 195,
        HueName::Azure => 210,
        HueName::Cerulean => 225,
        HueName::Blue => 240,
        HueName::Indigo => 255,
        HueName::Violet => 270,
        HueName::Purple => 285,
        HueName::Magenta => 300,
        HueName::Fuschia => 315,
        HueName::Rose => 330,
        HueName::Ruby => 345,
    }
}

/// Law: the center ring is white alone, and ring `k` from 1 out holds
/// `3 * 2^(k-1)` hues; its `i`-th hue, whose sector is turned `i` parts of
/// the full circle round the wheel, is the hue at exactly that angle, so
/// every ring goes round the wheel in hue order from red, evenly spaced.
pub proof fn lemma_rings_in_hue_order(k: int, i: int)
    requires
        0 <= k < 5,
    ensures
        hue_rings()[0] == seq![HueName::White],
        hue_rings()[1].len() == 3,
        hue_rings()[2].len() == 6,
        hue_rings()[3].len() == 12,
        hue_rings()[4].len() == 24,
        1 <= k && 0 <= i < hue_rings()[k].len()
            ==> hue_degrees(hue_rings()[k][i]) * hue_rings()[k].len() == 360 * i,
{
    let w = wheel();
    assert forall|t: int| 0 <= t < 24 implies #[trigger] hue_degrees(w[t]) == 15 * t by {
        if t < 12 {
            if t < 6 {
                if t < 3 {
                    assert(t == 0 || t == 1 || t == 2);
                } else {
                    assert(t == 3 || t == 4 || t == 5);
                }
            } else if t < 9 {
                assert(t == 6 || t == 7 || t == 8);
            } else {
                assert(t == 9 || t == 10 || t == 11);
            }
        } else if t < 18 {
            if t < 15 {
                assert(t == 12 || t == 13 || t == 14);
            } else {
                assert(t == 15 || t == 16 || t == 17);
            }
        } else if t < 21 {
            assert(t == 18 || t == 19 || t == 20);
        } else {
            assert(t == 21 || t == 22 || t == 23);
        }
    }
    if 1 <= k && 0 <= i < hue_rings()[k].len() {
        if k == 1 {
            assert(hue_rings()[k][i] == w[i * 8]);
        } else if k == 2 {
            assert(hue_rings()[k][i] == w[i * 4]);
        } else if k == 3 {
            assert(hue_rings()[k][i] == w[i * 2]);
        }
    }
}

/// Which two corners of a tile bound the triangle of the tile's `i`-th color:
/// corner `i` and the next one round the tile (top left, top right, bottom
/// right, bottom left).
pub fn tile_triangle_corners(i: usize) -> (r: (usize, usize))
    requires
        i < 4,
    ensures
        r.0 == i,
        r.1 == (if i + 1 < 4 { i + 1 } else { 0 }),
{
    (i, if i + 1 < 4 { i + 1 } else { 0 })
}

} // verus!
