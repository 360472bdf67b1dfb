use particle_areas::contour::BorderType;
use particle_areas::geometry::twice_area;
use particle_areas::grid::{binarize, GrayGrid};
use particle_areas::trace::trace;

fn gray(width: usize, height: usize, bright: &[(usize, usize)]) -> GrayGrid {
    let mut data = vec![0u8; width * height];
    for &(x, y) in bright {
        data[y * width + x] = 255;
    }
    GrayGrid::from_data(width, height, data).expect("consistent dimensions")
}

fn square_cells(x0: usize, y0: usize, side: usize) -> Vec<(usize, usize)> {
    let mut cells = vec![];
    for y in y0..y0 + side {
        for x in x0..x0 + side {
            cells.push((x, y));
        }
    }
    cells
}

#[test]
fn binarize_threshold_is_inclusive() {
    let g = GrayGrid::from_data(3, 1, vec![169, 170, 171]).unwrap();
    let m = binarize(&g, 170);
    assert_eq!(m.cells, vec![0, 255, 255]);
}

#[test]
fn solid_square_yields_frame_then_square_outer() {
    // One solid foreground square of side 5: exactly two contours, the
    // canvas-frame contour first, then the square's outer boundary.
    let g = gray(12, 12, &square_cells(3, 3, 5));
    let m = binarize(&g, 170);
    let contours = trace(&m);
    assert_eq!(contours.len(), 2);
    assert_eq!(contours[0].border_type, BorderType::Outer);
    assert_eq!(contours[0].points.len(), 2 * 12 + 2 * 12 - 4);
    assert_eq!(contours[0].points[0].x, 0);
    assert_eq!(contours[0].points[0].y, 0);
    assert_eq!(contours[1].border_type, BorderType::Outer);
    // The square's boundary pixels span side 4 corner to corner: area 16.
    assert_eq!(twice_area(&contours[1]), 2 * 16);
}

#[test]
fn annulus_yields_frame_ring_outer_and_hole() {
    // A square ring: foreground square of side 9 with a background hole of
    // side 3 in its middle. Three contours: frame, ring outer, ring hole.
    let mut fg = vec![];
    for y in 2..11usize {
        for x in 2..11usize {
            let in_hole = (5..8).contains(&x) && (5..8).contains(&y);
            if !in_hole {
                fg.push((x, y));
            }
        }
    }
    let g = gray(14, 14, &fg);
    let m = binarize(&g, 170);
    let contours = trace(&m);
    assert_eq!(contours.len(), 3);
    assert_eq!(contours[0].border_type, BorderType::Outer);
    assert_eq!(contours[0].points.len(), 2 * 14 + 2 * 14 - 4);
    assert_eq!(contours[1].border_type, BorderType::Outer);
    assert_eq!(contours[2].border_type, BorderType::Hole);
    let ring_outer = twice_area(&contours[1]);
    let ring_hole = twice_area(&contours[2]);
    assert_eq!(ring_outer, 2 * 64);
    assert!(ring_outer > ring_hole);
    assert!(ring_hole > 0);
}

#[test]
fn all_background_yields_only_frame() {
    // An all-zero grid binarized at any positive threshold has no foreground,
    // so tracing yields exactly the frame contour.
    for threshold in [1u8, 128, 170, 255] {
        let g = GrayGrid::from_data(8, 6, vec![0u8; 48]).unwrap();
        let m = binarize(&g, threshold);
        assert!(m.cells.iter().all(|&c| c == 0));
        let contours = trace(&m);
        assert_eq!(contours.len(), 1);
        assert_eq!(contours[0].border_type, BorderType::Outer);
        assert_eq!(contours[0].points.len(), 2 * 8 + 2 * 6 - 4);
    }
}

#[test]
fn bright_background_dark_particle() {
    // A bright canvas with one dark 2x2 particle: after thresholding, the
    // whole canvas is foreground and the particle is a hole in it. The canvas
    // foreground touches no background from outside, so the only region
    // boundary is the hole border around the particle.
    let mut data = vec![255u8; 36];
    for y in 2..4usize {
        for x in 2..4usize {
            data[y * 6 + x] = 0;
        }
    }
    let g = GrayGrid::from_data(6, 6, data).unwrap();
    let m = binarize(&g, 170);
    let contours = trace(&m);
    assert_eq!(contours.len(), 2);
    assert_eq!(contours[0].border_type, BorderType::Outer);
    assert_eq!(contours[1].border_type, BorderType::Hole);
    // The hole border runs through the ring of foreground pixels around the
    // particle, spanning (1,1) to (4,4) with the four corners cut diagonally:
    // enclosed area 3 * 3 - 4 * 1/2 = 7.
    assert_eq!(twice_area(&contours[1]), 14);
}

#[test]
fn single_pixel_contour() {
    let g = gray(5, 5, &[(2, 2)]);
    let m = binarize(&g, 170);
    let contours = trace(&m);
    assert_eq!(contours.len(), 2);
    assert_eq!(contours[1].points.len(), 1);
    assert_eq!(contours[1].points[0].x, 2);
    assert_eq!(contours[1].points[0].y, 2);
    assert_eq!(twice_area(&contours[1]), 0);
}
