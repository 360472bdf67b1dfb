//! Contour tracing: extracts the ordered boundary of every 8-connected
//! foreground region of a binary mask, tagging each boundary as an outer
//! border or a hole border, and always emits the degenerate contour bounding
//! the whole canvas frame first, which downstream callers discard.

use vstd::prelude::*;
use crate::contour::{BorderType, Contour, ContourModel, Pt};
use crate::geometry::{cross, edge_terms, next_index, polygon_area_doubled, shoelace};
use crate::grid::Mask;
use crate::seq_sum::{lemma_sum_concat, lemma_sum_const};

verus! {

/// The boundary contours of the foreground regions of a `width` by `height`
/// mask whose row-major foreground cells are `fg`: one contour per outer
/// border and per hole border, in raster-scan order of their starting pixel.
/// The exact point sequences are fixed by the border-following algorithm and
/// are a function of the mask alone.
pub uninterp spec fn traced(width: int, height: int, fg: Seq<bool>) -> Seq<ContourModel>;

/// Relies on imageproc::contours::find_contours (Suzuki-Abe border following):
/// its result is a function of the pixel raster alone; every returned contour
/// holds at least one point; every point is a pixel position inside the image;
/// and an image with no foreground pixel yields no contour.
#[verifier::external_body]
fn find_foreground_contours(mask: &Mask) -> (r: Vec<Contour>)
    requires
        mask.wf(),
    ensures
        r@.map_values(|c: Contour| c@) == traced(mask.width as int, mask.height as int, mask@),
        forall|i: int|
            0 <= i < r@.len() ==> r@[i].points@.len() >= 1 && r@[i].in_bounds(
                mask.width as int,
                mask.height as int,
            ),
        (forall|j: int| 0 <= j < mask@.len() ==> !mask@[j]) ==> r@.len() == 0,
{
    let img = image::GrayImage::from_raw(mask.width as u32, mask.height as u32, mask.cells.clone())
        .expect("mask cell count matches its dimensions");
    let found: Vec<imageproc::contours::Contour<usize>> = imageproc::contours::find_contours(&img);
    found.into_iter().map(|c| Contour {
        points: c.points.into_iter().map(|p| Pt { x: p.x, y: p.y }).collect(),
        border_type: match c.border_type {
            imageproc::contours::BorderType::Outer => BorderType::Outer,
            imageproc::contours::BorderType::Hole => BorderType::Hole,
        },
    }).collect()
}

/// How many pixels lie on the border of a `w` by `h` canvas.
pub open spec fn frame_len(w: int, h: int) -> int {
    if w <= 0 || h <= 0 {
        0
    } else if w == 1 {
        h
    } else if h == 1 {
        w
    } else {
        2 * w + 2 * h - 4
    }
}

/// The `i`-th border pixel of a `w` by `h` canvas, walking the top row
/// rightward, the right column downward, the bottom row leftward and the left
/// column upward.
pub open spec fn frame_point_at(w: int, h: int, i: int) -> (int, int) {
    if i < w {
        (i, 0)
    } else if i < w + h - 1 {
        (w - 1, i - w + 1)
    } else if i < 2 * w + h - 2 {
        (w - 2 - (i - (w + h - 1)), h - 1)
    } else {
        (0, h - 2 - (i - (2 * w + h - 2)))
    }
}

/// The closed boundary of the whole `w` by `h` canvas, one point per border
/// pixel, traversed clockwise from the origin.
pub open spec fn frame_points(w: int, h: int) -> Seq<(int, int)> {
    Seq::new(frame_len(w, h) as nat, |i: int| frame_point_at(w, h, i))
}

/// Builds the contour bounding the entire canvas frame.
pub fn frame_contour(width: usize, height: usize) -> (c: Contour)
    requires
        width <= 0xFFFF_FFFF,
        height <= 0xFFFF_FFFF,
    ensures
        c.border_type == BorderType::Outer,
        c@.points == frame_points(width as int, height as int),
        c.points@.len() == frame_len(width as int, height as int),
        c.in_bounds(width as int, height as int),
{
    let w: u64 = width as u64;
    let h: u64 = height as u64;
    let total: u64 = if w == 0 || h == 0 {
        0
    } else if w == 1 {
        h
    } else if h == 1 {
        w
    } else {
        2 * w + 2 * h - 4
    };
    let mut pts: Vec<Pt> = Vec::new();
    let mut i: u64 = 0;
    while i < total
        invariant
            w == width,
            h == height,
            w <= 0xFFFF_FFFF,
            h <= 0xFFFF_FFFF,
            total == frame_len(w as int, h as int),
            0 <= i <= total,
            pts@.len() == i,
            forall|j: int|
                0 <= j < i ==> (pts@[j].x as int, pts@[j].y as int) == frame_point_at(
                    w as int,
                    h as int,
                    j,
                ) && pts@[j].x < w && pts@[j].y < h,
        decreases total - i,
    {
        let (x, y): (u64, u64) = if i < w {
            (i, 0)
        } else if i < w + h - 1 {
            (w - 1, i - w + 1)
        } else if i < 2 * w + h - 2 {
            (w - 2 - (i - (w + h - 1)), h - 1)
        } else {
            (0, h - 2 - (i - (2 * w + h - 2)))
        };
        pts.push(Pt { x: x as usize, y: y as usize });
        i = i + 1;
    }
    let c = Contour { points: pts, border_type: BorderType::Outer };
    proof {
        assert(c@.points =~= frame_points(width as int, height as int));
        assert forall|j: int| 0 <= j < c.points@.len() implies c.points@[j].x < width
            && c.points@[j].y < height by {
            assert((pts@[j].x as int, pts@[j].y as int) == frame_point_at(w as int, h as int, j));
        }
    }
    c
}

/// Traces all boundary contours of `mask`. The first contour returned is
/// always the degenerate outer contour bounding the entire canvas frame; after
/// it come the contours of the foreground regions, in raster-scan order of
/// their starting pixel. A mask with no foreground pixel yields only the frame
/// contour.
pub fn trace(mask: &Mask) -> (r: Vec<Contour>)
    requires
        mask.wf(),
    ensures
        r@.len() == 1 + traced(mask.width as int, mask.height as int, mask@).len(),
        r@[0].border_type == BorderType::Outer,
        r@[0]@.points == frame_points(mask.width as int, mask.height as int),
        forall|i: int|
            1 <= i < r@.len() ==> r@[i]@ == traced(mask.width as int, mask.height as int, mask@)[i
                - 1],
        forall|i: int|
            0 <= i < r@.len() ==> r@[i].in_bounds(mask.width as int, mask.height as int),
        forall|i: int| 1 <= i < r@.len() ==> r@[i].points@.len() >= 1,
        (forall|j: int| 0 <= j < mask@.len() ==> !mask@[j]) ==> r@.len() == 1,
{
    let ghost cs = traced(mask.width as int, mask.height as int, mask@);
    let mut r: Vec<Contour> = Vec::new();
    r.push(frame_contour(mask.width, mask.height));
    let mut found = find_foreground_contours(mask);
    let ghost found0 = found@;
    proof {
        assert(found0.map_values(|c: Contour| c@).len() == cs.len());
    }
    r.append(&mut found);
    proof {
        assert forall|i: int| 1 <= i < r@.len() implies r@[i]@ == cs[i - 1] && r@[i].in_bounds(
            mask.width as int,
            mask.height as int,
        ) && r@[i].points@.len() >= 1 by {
            assert(r@[i] == found0[i - 1]);
            assert(found0.map_values(|c: Contour| c@)[i - 1] == cs[i - 1]);
        }
    }
    r
}

/// Law: the unit-spaced boundary of an axis-aligned `w` by `h` pixel canvas
/// encloses the exact rectangle area spanned by its corners: the doubled area
/// is `2 * (w - 1) * (h - 1)`. With `w == h == k + 1` this is the unit-spaced
/// square boundary of side length `k`, whose area is exactly `k * k`.
pub proof fn lemma_frame_area(w: int, h: int)
    requires
        w >= 1,
        h >= 1,
    ensures
        shoelace(frame_points(w, h)) == 2 * (w - 1) * (h - 1),
        polygon_area_doubled(frame_points(w, h)) == 2 * (w - 1) * (h - 1),
{
    let fp = frame_points(w, h);
    let n: int = frame_len(w, h);
    let t = edge_terms(fp);
    if w == 1 || h == 1 {
        let z = Seq::new(n as nat, |i: int| 0);
        assert forall|i: int| 0 <= i < n implies t[i] == z[i] by {
            let a = fp[i];
            let b = fp[next_index(i, n)];
            if w == 1 {
                assert(a.0 == 0 && b.0 == 0);
            } else {
                assert(a.1 == 0 && b.1 == 0);
            }
        }
        assert(t =~= z);
        lemma_sum_const(n as nat, 0);
        assert(2 * (w - 1) * (h - 1) == 0) by (nonlinear_arith)
            requires
                w == 1 || h == 1,
        ;
    } else {
        let s = Seq::new((w - 1) as nat, |i: int| 0) + Seq::new((h - 1) as nat, |i: int| w - 1)
            + Seq::new((w - 1) as nat, |i: int| h - 1) + Seq::new((h - 1) as nat, |i: int| 0);
        assert forall|i: int| 0 <= i < n implies t[i] == s[i] by {
            let a = fp[i];
            let b = fp[next_index(i, n)];
            assert(fp.len() == n);
            assert(t[i] == cross(a, b));
            if i < w - 1 {
                assert(a == (i, 0int) && b == (i + 1, 0int));
                assert(a.0 * b.1 - b.0 * a.1 == 0) by (nonlinear_arith)
                    requires
                        a.1 == 0 && b.1 == 0,
                ;
                assert(s[i] == 0);
            } else if i <= w + h - 3 {
                assert(a == (w - 1, i - w + 1) && b == (w - 1, i - w + 2));
                assert(a.0 * b.1 - b.0 * a.1 == w - 1) by (nonlinear_arith)
                    requires
                        a.0 == w - 1 && b.0 == w - 1 && b.1 == a.1 + 1,
                ;
                assert(s[i] == w - 1);
            } else if i <= 2 * w + h - 4 {
                let x0: int = w - 2 - (i - (w + h - 1));
                assert(a == (x0, h - 1));
                assert(b == (x0 - 1, h - 1));
                assert(a.0 * b.1 - b.0 * a.1 == h - 1) by (nonlinear_arith)
                    requires
                        a.1 == h - 1 && b.1 == h - 1 && b.0 == a.0 - 1,
                ;
                assert(s[i] == h - 1);
            } else {
                assert(a.0 == 0 && b.0 == 0);
                assert(a.0 * b.1 - b.0 * a.1 == 0) by (nonlinear_arith)
                    requires
                        a.0 == 0 && b.0 == 0,
                ;
                assert(s[i] == 0);
            }
            assert(t[i] == a.0 * b.1 - b.0 * a.1);
        }
        assert(t =~= s);
        let s1 = Seq::new((w - 1) as nat, |i: int| 0);
        let s2 = Seq::new((h - 1) as nat, |i: int| w - 1);
        let s3 = Seq::new((w - 1) as nat, |i: int| h - 1);
        let s4 = Seq::new((h - 1) as nat, |i: int| 0);
        lemma_sum_concat(s1 + s2 + s3, s4);
        lemma_sum_concat(s1 + s2, s3);
        lemma_sum_concat(s1, s2);
        lemma_sum_const((w - 1) as nat, 0);
        lemma_sum_const((h - 1) as nat, w - 1);
        lemma_sum_const((w - 1) as nat, h - 1);
        lemma_sum_const((h - 1) as nat, 0);
        assert((h - 1) * (w - 1) + (w - 1) * (h - 1) == 2 * (w - 1) * (h - 1))
            by (nonlinear_arith);
    }
}

} // verus!
