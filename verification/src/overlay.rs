//! Overlay painting: recolors each contour point on a color grid, encoding the
//! border kind in the hue and the position along the traversal in a gradient.

use vstd::prelude::*;
use crate::contour::{BorderType, Contour, ContourModel};
use crate::grid::{Rgb, RgbGrid};

verus! {

/// The gradient brightness for position `i` of `n` along a boundary: the
/// nearest integer to `255 * i / n`, halves rounding up. It lies in 0..=255
/// whenever `0 <= i < n`.
pub open spec fn gradient_level(i: int, n: int) -> int {
    (510 * i + n) / (2 * n)
}

/// The overlay color for position `i` of `n` along a boundary of kind
/// `border`: red-to-yellow for an outer border, green-to-yellow for a hole.
pub open spec fn overlay_color(border: BorderType, i: int, n: int) -> Rgb {
    let v = gradient_level(i, n) as u8;
    match border {
        BorderType::Outer => Rgb { r: 255, g: v, b: 0 },
        BorderType::Hole => Rgb { r: v, g: 255, b: 0 },
    }
}

/// The image `img` (row-major, `width` columns) after painting the first `k`
/// points of contour `c`, each with its gradient color.
pub open spec fn painted_prefix(img: Seq<Rgb>, width: int, c: ContourModel, k: int) -> Seq<Rgb>
    decreases k,
{
    if k <= 0 {
        img
    } else {
        let p = c.points[k - 1];
        painted_prefix(img, width, c, k - 1).update(
            p.1 * width + p.0,
            overlay_color(c.border_type, k - 1, c.points.len() as int),
        )
    }
}

/// The image `img` after painting every point of contour `c`.
pub open spec fn painted(img: Seq<Rgb>, width: int, c: ContourModel) -> Seq<Rgb> {
    painted_prefix(img, width, c, c.points.len() as int)
}

/// Computes the gradient brightness for position `i` of `n`.
fn gradient_value(i: usize, n: usize) -> (v: u8)
    requires
        i < n,
    ensures
        v as int == gradient_level(i as int, n as int),
{
    let num: u128 = 510u128 * (i as u128) + (n as u128);
    let den: u128 = 2u128 * (n as u128);
    proof {
        assert(num / den < 256) by (nonlinear_arith)
            requires
                num < 256 * den && den > 0,
        ;
    }
    (num / den) as u8
}

/// Paints every point of `c` onto `img`: point `i` of `n` gets the gradient
/// color for its position, outer borders running red to yellow and holes green
/// to yellow. Every pixel off the contour keeps its color.
pub fn paint(img: &mut RgbGrid, c: &Contour)
    requires
        old(img).wf(),
        c.in_bounds(old(img).width as int, old(img).height as int),
    ensures
        final(img).wf(),
        final(img).width == old(img).width,
        final(img).height == old(img).height,
        final(img)@ == painted(old(img)@, old(img).width as int, c@),
{
    let n: usize = c.points.len();
    let mut i: usize = 0;
    while i < n
        invariant
            img.wf(),
            img.width == old(img).width,
            img.height == old(img).height,
            c.in_bounds(img.width as int, img.height as int),
            n == c.points@.len(),
            0 <= i <= n,
            img@ == painted_prefix(old(img)@, old(img).width as int, c@, i as int),
        decreases n - i,
    {
        let p = c.points[i];
        let v = gradient_value(i, n);
        let color = match c.border_type {
            BorderType::Outer => Rgb { r: 255, g: v, b: 0 },
            BorderType::Hole => Rgb { r: v, g: 255, b: 0 },
        };
        proof {
            assert(color == overlay_color(c@.border_type, i as int, n as int));
            assert(c@.points[i as int] == (p.x as int, p.y as int));
        }
        img.put_pixel(p.x, p.y, color);
        i = i + 1;
    }
}

} // verus!
