use bezier_lines::canvas::{is_drawable, Canvas, Color, MAX_COORDINATE, MAX_SIDE};
use bezier_lines::segment::Position;
use image::{ImageBuffer, Rgb};
use imageproc::drawing::{draw_filled_circle_mut, draw_polygon_mut};
use imageproc::point::Point;

const BLACK: Color = Color { r: 0, g: 0, b: 0 };
const RED: Color = Color { r: 255, g: 100, b: 100 };
const BLUE: Color = Color { r: 0, g: 0, b: 100 };

#[test]
fn canvas_without_pixels_is_refused() {
    assert!(Canvas::new(0, 10).is_none());
    assert!(Canvas::new(10, 0).is_none());
    assert!(Canvas::new(0, 0).is_none());
}

#[test]
fn canvas_with_too_long_a_side_is_refused() {
    assert_eq!(MAX_SIDE, 2_147_483_647);
    assert!(Canvas::new(MAX_SIDE + 1, 1).is_none());
    assert!(Canvas::new(1, u32::MAX).is_none());
}

#[test]
fn new_canvas_is_black() {
    let canvas = Canvas::new(4, 3).unwrap();
    assert_eq!(canvas.size(), (4, 3));
    for y in 0..3 {
        for x in 0..4 {
            assert_eq!(canvas.pixel(x, y), Some(BLACK));
        }
    }
}

#[test]
fn pixel_outside_the_canvas_is_none() {
    let canvas = Canvas::new(4, 3).unwrap();
    assert_eq!(canvas.pixel(4, 0), None);
    assert_eq!(canvas.pixel(0, 3), None);
    assert_eq!(canvas.pixel(3, 2), Some(BLACK));
}

#[test]
fn background_covers_every_pixel() {
    let mut canvas = Canvas::new(5, 4).unwrap();
    canvas.fill_background(BLUE);
    assert_eq!(canvas.size(), (5, 4));
    for y in 0..4 {
        for x in 0..5 {
            assert_eq!(canvas.pixel(x, y), Some(BLUE));
        }
    }
}

#[test]
fn raw_bytes_hold_three_channels_per_pixel() {
    let mut canvas = Canvas::new(3, 2).unwrap();
    canvas.fill_background(Color { r: 1, g: 2, b: 3 });
    canvas.fill_circle(Position { x: 2, y: 1 }, 0, Color { r: 7, g: 8, b: 9 });
    let bytes = canvas.into_raw();
    assert_eq!(bytes, vec![1, 2, 3, 1, 2, 3, 1, 2, 3, 1, 2, 3, 1, 2, 3, 7, 8, 9]);
}

#[test]
fn polygon_is_filled_inside_only() {
    let mut canvas = Canvas::new(20, 20).unwrap();
    let corners = [
        Position { x: 2, y: 3 },
        Position { x: 2, y: 7 },
        Position { x: 12, y: 7 },
        Position { x: 12, y: 3 },
    ];
    canvas.fill_polygon(&corners, RED);
    assert_eq!(canvas.pixel(2, 3), Some(RED));
    assert_eq!(canvas.pixel(7, 5), Some(RED));
    assert_eq!(canvas.pixel(12, 7), Some(RED));
    assert_eq!(canvas.pixel(13, 5), Some(BLACK));
    assert_eq!(canvas.pixel(7, 8), Some(BLACK));
    assert_eq!(canvas.pixel(1, 5), Some(BLACK));
}

#[test]
fn polygon_is_clipped_to_the_canvas() {
    let mut canvas = Canvas::new(6, 6).unwrap();
    let corners = [
        Position { x: 0, y: -2 },
        Position { x: 0, y: 2 },
        Position { x: 10, y: 2 },
        Position { x: 10, y: -2 },
    ];
    canvas.fill_polygon(&corners, RED);
    assert_eq!(canvas.size(), (6, 6));
    assert_eq!(canvas.pixel(0, 0), Some(RED));
    assert_eq!(canvas.pixel(5, 2), Some(RED));
    assert_eq!(canvas.pixel(5, 3), Some(BLACK));
}

#[test]
fn polygon_matches_the_drawing_routine() {
    let mut canvas = Canvas::new(40, 30).unwrap();
    let corners = [
        Position { x: 5, y: 2 },
        Position { x: 1, y: 9 },
        Position { x: 30, y: 25 },
        Position { x: 35, y: 17 },
    ];
    canvas.fill_polygon(&corners, RED);
    let mut expected: ImageBuffer<Rgb<u8>, Vec<u8>> = ImageBuffer::new(40, 30);
    let polygon = [Point::new(5, 2), Point::new(1, 9), Point::new(30, 25), Point::new(35, 17)];
    draw_polygon_mut(&mut expected, &polygon, Rgb([255, 100, 100]));
    assert_eq!(canvas.into_raw(), expected.into_raw());
}

#[test]
fn far_away_polygon_leaves_the_canvas_alone() {
    let mut canvas = Canvas::new(8, 8).unwrap();
    let corners = [
        Position { x: MAX_COORDINATE - 10, y: MAX_COORDINATE - 4 },
        Position { x: MAX_COORDINATE - 10, y: MAX_COORDINATE },
        Position { x: MAX_COORDINATE, y: MAX_COORDINATE },
        Position { x: MAX_COORDINATE, y: MAX_COORDINATE - 4 },
    ];
    canvas.fill_polygon(&corners, RED);
    assert_eq!(canvas.into_raw(), vec![0u8; 8 * 8 * 3]);
}

#[test]
fn disc_is_filled_up_to_its_radius() {
    let mut canvas = Canvas::new(21, 21).unwrap();
    canvas.fill_circle(Position { x: 10, y: 10 }, 5, RED);
    assert_eq!(canvas.pixel(10, 10), Some(RED));
    assert_eq!(canvas.pixel(15, 10), Some(RED));
    assert_eq!(canvas.pixel(10, 5), Some(RED));
    assert_eq!(canvas.pixel(16, 10), Some(BLACK));
    assert_eq!(canvas.pixel(10, 4), Some(BLACK));
    assert_eq!(canvas.pixel(15, 15), Some(BLACK));
}

#[test]
fn disc_of_radius_zero_is_one_pixel() {
    let mut canvas = Canvas::new(3, 3).unwrap();
    canvas.fill_circle(Position { x: 1, y: 1 }, 0, RED);
    for y in 0..3 {
        for x in 0..3 {
            let expected = if x == 1 && y == 1 { RED } else { BLACK };
            assert_eq!(canvas.pixel(x, y), Some(expected));
        }
    }
}

#[test]
fn disc_matches_the_drawing_routine() {
    let mut canvas = Canvas::new(30, 30).unwrap();
    canvas.fill_circle(Position { x: 3, y: 27 }, 9, BLUE);
    let mut expected: ImageBuffer<Rgb<u8>, Vec<u8>> = ImageBuffer::new(30, 30);
    draw_filled_circle_mut(&mut expected, (3, 27), 9, Rgb([0, 0, 100]));
    assert_eq!(canvas.into_raw(), expected.into_raw());
}

#[test]
fn disc_with_the_widest_radius_far_away_is_accepted() {
    let mut canvas = Canvas::new(4, 4).unwrap();
    canvas.fill_circle(Position { x: -MAX_COORDINATE, y: -MAX_COORDINATE }, 0, RED);
    canvas.fill_circle(Position { x: MAX_COORDINATE, y: 2 }, 3, RED);
    assert_eq!(canvas.into_raw(), vec![0u8; 4 * 4 * 3]);
}

#[test]
fn positions_up_to_the_limit_are_drawable() {
    assert_eq!(MAX_COORDINATE, 16_777_216);
    assert!(is_drawable(Position { x: 0, y: 0 }));
    assert!(is_drawable(Position { x: MAX_COORDINATE, y: -MAX_COORDINATE }));
    assert!(is_drawable(Position { x: -MAX_COORDINATE, y: MAX_COORDINATE }));
}

#[test]
fn positions_beyond_the_limit_are_not_drawable() {
    assert!(!is_drawable(Position { x: MAX_COORDINATE + 1, y: 0 }));
    assert!(!is_drawable(Position { x: 0, y: MAX_COORDINATE + 1 }));
    assert!(!is_drawable(Position { x: -MAX_COORDINATE - 1, y: 0 }));
    assert!(!is_drawable(Position { x: 0, y: -MAX_COORDINATE - 1 }));
    assert!(!is_drawable(Position { x: i32::MAX, y: i32::MIN }));
}
