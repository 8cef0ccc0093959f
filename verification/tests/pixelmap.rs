use pixpox::camera::Camera;
use pixpox::color::Rgba;
use pixpox::input::InputHandler;
use pixpox::pixelmap::GlobalPixelMap;

fn square_map(side: u32, cam_side: u32) -> GlobalPixelMap {
    let cam = Camera::new_with_limits(0, 0, cam_side, cam_side, side, side, 1, 1);
    GlobalPixelMap::new_empty(side, side, cam)
}

#[test]
fn new_empty_is_transparent_black() {
    let pm = square_map(4, 4);
    assert_eq!(pm.pixelmap.len(), 16);
    assert!(pm.pixelmap.iter().all(|p| *p == Rgba::new(0, 0, 0, 0)));
}

#[test]
fn draw_pos_writes_one_pixel() {
    let mut pm = square_map(4, 4);
    pm.draw_pos((1, 2), Rgba::new(9, 8, 7, 6));
    assert_eq!(pm.pixelmap[2 * 4 + 1], Rgba::new(9, 8, 7, 6));
    assert_eq!(pm.get_idx((1, 2)), 9);
    let untouched = pm.pixelmap.iter().filter(|p| **p == Rgba::new(0, 0, 0, 0)).count();
    assert_eq!(untouched, 15);
}

#[test]
fn draw_flat_vec_swaps_the_raster() {
    let mut pm = square_map(2, 2);
    let mut v = vec![Rgba::new(1, 2, 3, 4); 4];
    pm.draw_flat_vec(&mut v);
    assert!(pm.pixelmap.iter().all(|p| *p == Rgba::new(1, 2, 3, 4)));
    assert!(v.iter().all(|p| *p == Rgba::new(0, 0, 0, 0)));
}

#[test]
fn render_scales_the_camera_rectangle() {
    // A 4x4 window showing a 2x2 camera: scale factor 2 on both axes.
    let mut pm = square_map(4, 2);
    pm.draw_pos((0, 0), Rgba::new(255, 0, 0, 255));
    pm.draw_pos((1, 1), Rgba::new(0, 0, 255, 255));
    let mut out: Vec<u8> = Vec::new();
    pm.render(&mut out);
    assert_eq!(out.len(), 64);
    let px = |tx: usize, ty: usize| {
        let base = 4 * (ty * 4 + tx);
        (out[base], out[base + 1], out[base + 2], out[base + 3])
    };
    // The top-left 2x2 block shows source (0, 0).
    assert_eq!(px(0, 0), (255, 0, 0, 255));
    assert_eq!(px(1, 1), (255, 0, 0, 255));
    // The bottom-right 2x2 block shows source (1, 1).
    assert_eq!(px(2, 2), (0, 0, 255, 255));
    assert_eq!(px(3, 3), (0, 0, 255, 255));
    // Off-diagonal blocks show the empty sources.
    assert_eq!(px(3, 0), (0, 0, 0, 0));
    assert_eq!(px(0, 3), (0, 0, 0, 0));
}

#[test]
fn render_with_offset_camera_reads_inside_the_rectangle() {
    let cam = Camera::new_with_limits(2, 2, 2, 2, 4, 4, 1, 1);
    let mut pm = GlobalPixelMap::new_empty(4, 4, cam);
    pm.draw_pos((2, 2), Rgba::new(7, 7, 7, 7));
    pm.draw_pos((0, 0), Rgba::new(9, 9, 9, 9));
    let mut out: Vec<u8> = Vec::new();
    pm.render(&mut out);
    // The camera starts at (2, 2), so (0, 0) is never read.
    assert_eq!(out[0], 7);
    assert!(out.iter().all(|b| *b != 9));
}

#[test]
fn scroll_up_zooms_the_camera_in() {
    let cam = Camera::new_with_limits(0, 0, 400, 400, 800, 1000, 10, 10);
    let mut pm = GlobalPixelMap::new_empty(800, 1000, cam);
    let mut inp = InputHandler::new();
    inp.scroll = 1;
    pm.update(&inp);
    // 400 * 4 / 5 == 320.
    assert_eq!(pm.get_camera().get_width(), 320);
    assert_eq!(pm.get_camera().get_height(), 320);
}

#[test]
fn scroll_down_zooms_the_camera_out() {
    let cam = Camera::new_with_limits(0, 0, 400, 400, 800, 1000, 10, 10);
    let mut pm = GlobalPixelMap::new_empty(800, 1000, cam);
    let mut inp = InputHandler::new();
    inp.scroll = -1;
    pm.update(&inp);
    // 400 * 6 / 5 == 480.
    assert_eq!(pm.get_camera().get_width(), 480);
}

#[test]
fn held_direction_keys_pan_the_camera() {
    let cam = Camera::new_with_limits(5, 5, 10, 10, 40, 40, 1, 1);
    let mut pm = GlobalPixelMap::new_empty(40, 40, cam);
    let mut inp = InputHandler::new();
    inp.right_held = true;
    inp.down_held = true;
    pm.update(&inp);
    assert_eq!(pm.get_camera().get_x(), 6);
    assert_eq!(pm.get_camera().get_y(), 6);
}

#[test]
fn input_snapshot_scales_mouse_positions() {
    let mut inp = InputHandler::new();
    inp.update((10, -7), (3, 4));
    assert_eq!(inp.mouse, (10, -7));
    assert_eq!(inp.mouse_prev, (3, 4));
    inp.update_scale(2);
    assert_eq!(inp.get_mouse_pos(), (5, -3));
}
