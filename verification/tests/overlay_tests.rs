use particle_areas::contour::{BorderType, Contour, Pt};
use particle_areas::grid::{Rgb, RgbGrid};
use particle_areas::overlay::paint;

const GRAY: Rgb = Rgb { r: 9, g: 9, b: 9 };

fn square_path(border_type: BorderType) -> Contour {
    Contour {
        points: vec![
            Pt { x: 1, y: 1 },
            Pt { x: 2, y: 1 },
            Pt { x: 2, y: 2 },
            Pt { x: 1, y: 2 },
        ],
        border_type,
    }
}

#[test]
fn paint_outer_red_to_yellow_gradient() {
    let mut img = RgbGrid::from_data(4, 4, vec![GRAY; 16]).unwrap();
    paint(&mut img, &square_path(BorderType::Outer));
    // Four points: brightness is the nearest integer to 255 * i / 4.
    assert_eq!(img.get(1, 1), Rgb { r: 255, g: 0, b: 0 });
    assert_eq!(img.get(2, 1), Rgb { r: 255, g: 64, b: 0 });
    assert_eq!(img.get(2, 2), Rgb { r: 255, g: 128, b: 0 });
    assert_eq!(img.get(1, 2), Rgb { r: 255, g: 191, b: 0 });
    // Off-contour pixels keep their color.
    assert_eq!(img.get(0, 0), GRAY);
    assert_eq!(img.get(3, 3), GRAY);
}

#[test]
fn paint_hole_green_to_yellow_gradient() {
    let mut img = RgbGrid::from_data(4, 4, vec![GRAY; 16]).unwrap();
    paint(&mut img, &square_path(BorderType::Hole));
    assert_eq!(img.get(1, 1), Rgb { r: 0, g: 255, b: 0 });
    assert_eq!(img.get(2, 1), Rgb { r: 64, g: 255, b: 0 });
    assert_eq!(img.get(2, 2), Rgb { r: 128, g: 255, b: 0 });
    assert_eq!(img.get(1, 2), Rgb { r: 191, g: 255, b: 0 });
}

#[test]
fn paint_empty_contour_changes_nothing() {
    let mut img = RgbGrid::from_data(2, 2, vec![GRAY; 4]).unwrap();
    paint(
        &mut img,
        &Contour { points: vec![], border_type: BorderType::Outer },
    );
    for y in 0..2usize {
        for x in 0..2usize {
            assert_eq!(img.get(x, y), GRAY);
        }
    }
}

#[test]
fn put_pixel_overwrites_one_cell() {
    let mut img = RgbGrid::from_data(3, 2, vec![GRAY; 6]).unwrap();
    img.put_pixel(2, 1, Rgb { r: 1, g: 2, b: 3 });
    assert_eq!(img.get(2, 1), Rgb { r: 1, g: 2, b: 3 });
    assert_eq!(img.get(2, 0), GRAY);
    assert_eq!(img.get(1, 1), GRAY);
}
