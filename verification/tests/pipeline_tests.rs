use particle_areas::grid::{GrayGrid, Rgb, RgbGrid};
use particle_areas::pipeline::analyze;

const WHITE: Rgb = Rgb { r: 255, g: 255, b: 255 };

fn white_grid(width: usize, height: usize) -> RgbGrid {
    RgbGrid::from_data(width, height, vec![WHITE; width * height]).expect("consistent dimensions")
}

#[test]
fn analyze_measures_square_and_discards_frame() {
    // A dark canvas with one bright square of side 5: the frame contour is
    // discarded, leaving exactly one measured area.
    let mut data = vec![0u8; 12 * 12];
    for y in 3..8usize {
        for x in 3..8usize {
            data[y * 12 + x] = 255;
        }
    }
    let gray = GrayGrid::from_data(12, 12, data).unwrap();
    let mut overlay = white_grid(12, 12);
    let areas = analyze(&gray, 170, &mut overlay);
    assert_eq!(areas, vec![2 * 16]);
    // Halved, that is the square's geometric pixel area.
    assert_eq!(areas[0] as f64 / 2.0, 16.0);
}

#[test]
fn analyze_paints_contour_points_only() {
    let mut data = vec![0u8; 12 * 12];
    for y in 3..8usize {
        for x in 3..8usize {
            data[y * 12 + x] = 255;
        }
    }
    let gray = GrayGrid::from_data(12, 12, data).unwrap();
    let mut overlay = white_grid(12, 12);
    analyze(&gray, 170, &mut overlay);
    // The traversal starts at the square's first raster-order boundary pixel,
    // painted with the gradient start color for an outer border.
    assert_eq!(overlay.get(3, 3), Rgb { r: 255, g: 0, b: 0 });
    // The frame contour is discarded, not painted.
    assert_eq!(overlay.get(0, 0), WHITE);
    // The square's interior is not on the contour.
    assert_eq!(overlay.get(5, 5), WHITE);
    // A far-away background pixel keeps its color.
    assert_eq!(overlay.get(10, 10), WHITE);
}

#[test]
fn analyze_all_background_gives_no_areas() {
    let gray = GrayGrid::from_data(9, 7, vec![0u8; 63]).unwrap();
    let mut overlay = white_grid(9, 7);
    let areas = analyze(&gray, 170, &mut overlay);
    assert!(areas.is_empty());
    for y in 0..7usize {
        for x in 0..9usize {
            assert_eq!(overlay.get(x, y), WHITE);
        }
    }
}

#[test]
fn analyze_two_particles_in_raster_order() {
    // Two bright squares, sides 3 and 4: two areas, scan order first.
    let mut data = vec![0u8; 16 * 10];
    for y in 1..4usize {
        for x in 1..4usize {
            data[y * 16 + x] = 255;
        }
    }
    for y in 5..9usize {
        for x in 8..12usize {
            data[y * 16 + x] = 255;
        }
    }
    let gray = GrayGrid::from_data(16, 10, data).unwrap();
    let mut overlay = white_grid(16, 10);
    let areas = analyze(&gray, 170, &mut overlay);
    assert_eq!(areas, vec![2 * 4, 2 * 9]);
}

#[test]
fn grid_construction_checks_dimensions() {
    assert!(GrayGrid::from_data(2, 2, vec![0u8; 3]).is_none());
    assert!(GrayGrid::from_data(2, 2, vec![0u8; 4]).is_some());
    assert!(RgbGrid::from_data(3, 1, vec![WHITE; 4]).is_none());
    assert!(RgbGrid::from_data(3, 1, vec![WHITE; 3]).is_some());
}
