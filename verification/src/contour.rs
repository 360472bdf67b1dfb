//! Boundary contours: ordered closed point sequences with a border kind.

use vstd::prelude::*;

verus! {

/// A pixel coordinate: `x` grows rightward, `y` grows downward, origin top-left.
#[derive(Clone, Copy, PartialEq, Eq, Structural, Debug)]
pub struct Pt {
    pub x: usize,
    pub y: usize,
}

/// Whether a boundary separates a foreground region from the background outside
/// it, or from a background region enclosed within it.
#[derive(Clone, Copy, PartialEq, Eq, Structural, Debug)]
pub enum BorderType {
    /// Boundary of a foreground region, seen from the enclosing background.
    Outer,
    /// Boundary of a background region enclosed within a foreground region.
    Hole,
}

/// An ordered, implicitly closed boundary: the last point connects back to the
/// first.
#[derive(Debug)]
pub struct Contour {
    /// The boundary points, in traversal order.
    pub points: Vec<Pt>,
    /// The kind of boundary this contour traces.
    pub border_type: BorderType,
}

/// The mathematical model of a contour: its points as integer pairs, plus its
/// border kind.
pub ghost struct ContourModel {
    pub points: Seq<(int, int)>,
    pub border_type: BorderType,
}

impl View for Contour {
    type V = ContourModel;

    open spec fn view(&self) -> ContourModel {
        ContourModel {
            points: self.points@.map_values(|p: Pt| (p.x as int, p.y as int)),
            border_type: self.border_type,
        }
    }
}

impl Contour {
    /// Every point lies strictly inside a `width` by `height` canvas.
    pub open spec fn in_bounds(self, width: int, height: int) -> bool {
        forall|i: int|
            0 <= i < self.points@.len() ==> self.points@[i].x < width && self.points@[i].y < height
    }

    /// Every coordinate fits in 32 bits, so that area arithmetic cannot
    /// overflow.
    pub open spec fn coords_bounded(self) -> bool {
        forall|i: int|
            0 <= i < self.points@.len() ==> self.points@[i].x < 0x1_0000_0000
                && self.points@[i].y < 0x1_0000_0000
    }

    /// In-bounds points on a canvas no larger than 32-bit dimensions have
    /// 32-bit coordinates.
    pub proof fn lemma_in_bounds_coords_bounded(self, width: int, height: int)
        requires
            self.in_bounds(width, height),
            width <= 0x1_0000_0000,
            height <= 0x1_0000_0000,
        ensures
            self.coords_bounded(),
    {
    }
}

} // verus!
