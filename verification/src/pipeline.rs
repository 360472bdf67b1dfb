//! The measurement pipeline: binarize a grayscale grid, trace its contours,
//! discard the canvas-frame contour, measure every remaining contour's doubled
//! area, and paint the overlay.

use vstd::prelude::*;
use crate::contour::ContourModel;
use crate::geometry::{polygon_area_doubled, twice_area};
use crate::grid::{binarize, mask_spec, GrayGrid, RgbGrid, Rgb};
use crate::overlay::{paint, painted};
use crate::trace::{trace, traced};

verus! {

/// The doubled area recorded for one traced contour: the shoelace area of its
/// points, or 0 for a contour too long for exact 128-bit arithmetic.
pub open spec fn recorded_area(c: ContourModel) -> int {
    if c.points.len() < 0x1_0000_0000 {
        polygon_area_doubled(c.points)
    } else {
        0
    }
}

/// The image `img` after painting every contour of `cs` in order, later
/// contours over earlier ones.
pub open spec fn painted_all(img: Seq<Rgb>, width: int, cs: Seq<ContourModel>) -> Seq<Rgb>
    decreases cs.len(),
{
    if cs.len() == 0 {
        img
    } else {
        painted(painted_all(img, width, cs.drop_last()), width, cs.last())
    }
}

/// Runs the measurement pipeline on one image. `gray` is the grayscale source,
/// `img` a color copy of it that receives the overlay. Binarizes `gray` at
/// `threshold`, traces the foreground contours of the mask, discards the
/// canvas-frame contour, and for each remaining contour in traced order
/// records its doubled enclosed area and paints its points onto `img`. The
/// returned areas are doubled so they stay exact integers; halving them gives
/// the geometric pixel areas.
pub fn analyze(gray: &GrayGrid, threshold: u8, img: &mut RgbGrid) -> (areas: Vec<u128>)
    requires
        gray.wf(),
        old(img).wf(),
        old(img).width == gray.width,
        old(img).height == gray.height,
    ensures
        final(img).wf(),
        final(img).width == gray.width,
        final(img).height == gray.height,
        ({
            let cs = traced(gray.width as int, gray.height as int, mask_spec(gray@, threshold));
            &&& areas@.len() == cs.len()
            &&& forall|i: int| 0 <= i < cs.len() ==> areas@[i] == recorded_area(cs[i])
            &&& final(img)@ == painted_all(old(img)@, gray.width as int, cs)
        }),
        (forall|j: int| 0 <= j < gray@.len() ==> !mask_spec(gray@, threshold)[j]) ==> areas@.len()
            == 0 && final(img)@ == old(img)@,
{
    let mask = binarize(gray, threshold);
    let contours = trace(&mask);
    let ghost cs = traced(gray.width as int, gray.height as int, mask_spec(gray@, threshold));
    let ghost img0 = img@;
    let total: usize = contours.len();
    let mut areas: Vec<u128> = Vec::new();
    let mut k: usize = 1;
    while k < total
        invariant
            gray.wf(),
            img.wf(),
            img.width == gray.width,
            img.height == gray.height,
            cs == traced(gray.width as int, gray.height as int, mask_spec(gray@, threshold)),
            total == contours@.len(),
            contours@.len() == 1 + cs.len(),
            forall|i: int| 1 <= i < contours@.len() ==> contours@[i]@ == cs[i - 1],
            forall|i: int|
                0 <= i < contours@.len() ==> contours@[i].in_bounds(
                    gray.width as int,
                    gray.height as int,
                ),
            1 <= k <= total,
            areas@.len() == k - 1,
            forall|i: int| 0 <= i < k - 1 ==> areas@[i] == recorded_area(cs[i]),
            img@ == painted_all(img0, gray.width as int, cs.take(k - 1)),
        decreases total - k,
    {
        let c = &contours[k];
        proof {
            c.lemma_in_bounds_coords_bounded(gray.width as int, gray.height as int);
        }
        if (c.points.len() as u64) < 0x1_0000_0000u64 {
            areas.push(twice_area(c));
        } else {
            areas.push(0);
        }
        paint(img, c);
        proof {
            assert(cs.take(k as int).drop_last() =~= cs.take(k - 1));
            assert(cs.take(k as int).last() == cs[k - 1]);
        }
        k = k + 1;
    }
    proof {
        assert(cs.take(cs.len() as int) =~= cs);
        if forall|j: int| 0 <= j < gray@.len() ==> !mask_spec(gray@, threshold)[j] {
            assert(mask@.len() == gray@.len());
            assert(forall|j: int| 0 <= j < mask@.len() ==> !mask@[j]);
            assert(cs.len() == 0);
            assert(painted_all(img0, gray.width as int, cs) == img0);
        }
    }
    areas
}

} // verus!
