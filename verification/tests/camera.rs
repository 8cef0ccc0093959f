use pixpox::camera::{Camera, Direction};

#[test]
fn new_computes_minima_from_aspect() {
    let cam = Camera::new(0, 0, 100, 200, 500, 1000);
    assert_eq!(cam.get_width(), 200);
    assert_eq!(cam.get_height(), 100);
    assert_eq!(cam.min_width, 20);
    assert_eq!(cam.min_height, 10);
    assert_eq!(cam.aspect_w, 200);
    assert_eq!(cam.aspect_h, 100);
}

#[test]
fn zoom_halves_and_clamps_at_the_minimum() {
    // A square camera over a 1000x800 grid with explicit minima.
    let mut cam = Camera::new_with_limits(0, 0, 400, 400, 800, 1000, 100, 100);
    cam.zoom(1, 2);
    assert_eq!((cam.get_width(), cam.get_height()), (200, 200));
    assert_eq!((cam.get_x(), cam.get_y()), (100, 100));
    cam.zoom(1, 2);
    // 200 / 2 == 100 is exactly the minimum: clamped there.
    assert_eq!((cam.get_width(), cam.get_height()), (100, 100));
    // Centered on the previous rectangle's center, clamped to the grid.
    assert_eq!((cam.get_x(), cam.get_y()), (150, 150));
}

#[test]
fn zoom_round_trip_restores_within_one() {
    let mut cam = Camera::new_with_limits(100, 100, 300, 300, 800, 1000, 10, 10);
    cam.zoom(4, 5);
    assert_eq!(cam.get_width(), 240);
    cam.zoom(5, 4);
    assert!((cam.get_width() as i64 - 300).abs() <= 1);
    assert!((cam.get_height() as i64 - 300).abs() <= 1);
    assert!((cam.get_x() as i64 - 100).abs() <= 1);
    assert!((cam.get_y() as i64 - 100).abs() <= 1);
}

#[test]
fn zoom_out_clamps_to_the_grid() {
    let mut cam = Camera::new_with_limits(0, 0, 700, 900, 800, 1000, 10, 10);
    cam.zoom(3, 1);
    assert_eq!((cam.get_width(), cam.get_height()), (1000, 800));
    assert_eq!((cam.get_x(), cam.get_y()), (0, 0));
}

#[test]
fn camera_invariant_holds_after_arbitrary_ops() {
    let mut cam = Camera::new(5, 5, 50, 50, 300, 400);
    for i in 0..30u32 {
        match i % 4 {
            0 => cam.zoom(4, 5),
            1 => cam.move_direction(Direction::Right),
            2 => cam.zoom(6, 5),
            _ => cam.move_delta((-7, 13)),
        }
        assert!(cam.min_width <= cam.get_width() && cam.get_width() <= cam.max_width);
        assert!(cam.min_height <= cam.get_height() && cam.get_height() <= cam.max_height);
        assert!(cam.get_x() + cam.get_width() <= cam.max_width);
        assert!(cam.get_y() + cam.get_height() <= cam.max_height);
    }
}

#[test]
fn move_direction_steps_by_one_and_clamps() {
    let mut cam = Camera::new_with_limits(0, 0, 10, 10, 20, 20, 1, 1);
    cam.move_direction(Direction::Left);
    assert_eq!((cam.get_x(), cam.get_y()), (0, 0));
    cam.move_direction(Direction::Right);
    assert_eq!((cam.get_x(), cam.get_y()), (1, 0));
    cam.move_direction(Direction::Down);
    assert_eq!((cam.get_x(), cam.get_y()), (1, 1));
    cam.move_direction(Direction::Up);
    cam.move_direction(Direction::Up);
    assert_eq!((cam.get_x(), cam.get_y()), (1, 0));
}

#[test]
fn move_delta_clamps_to_the_grid() {
    let mut cam = Camera::new_with_limits(5, 5, 10, 10, 40, 40, 1, 1);
    cam.move_delta((-100, -100));
    assert_eq!((cam.get_x(), cam.get_y()), (0, 0));
    cam.move_delta((100, 100));
    assert_eq!((cam.get_x(), cam.get_y()), (30, 30));
}

#[test]
fn mouse_positions_map_to_cells() {
    let cam = Camera::new_with_limits(10, 20, 50, 100, 500, 1000, 10, 10);
    // Scale factors: 1000/100 = 10 horizontally, 500/50 = 10 vertically.
    assert_eq!(cam.mouse_to_cell(500, 250), (60, 45));
    assert_eq!(cam.mouse_to_cell(0, 0), (10, 20));
    assert_eq!(cam.mouse_to_cell(999, 499), (109, 69));
}
