use pixpox::component::{CellRealmComponent, ConwayGridComponent};
use pixpox::input::InputHandler;
use pixpox::sand::Cell;
use pixpox::storage::Storage;

#[test]
fn conway_update_toggles_pause_and_draws_a_line() {
    let mut c = ConwayGridComponent::new(5, 5, 0);
    assert!(c.paused);
    let mut s = Storage::new();
    let mut inp = InputHandler::new();
    inp.pause_pressed = true;
    inp.mouse_left_held = true;
    inp.mouse = (0, 0);
    inp.mouse_prev = (3, 3);
    c.update(&mut s, &inp);
    assert!(!c.paused);
    // The Bresenham walk toward (3, 3), end point excluded.
    assert!(c.inner.cells[0]);
    assert!(c.inner.cells[5 + 1]);
    assert!(c.inner.cells[2 * 5 + 2]);
    assert!(!c.inner.cells[3 * 5 + 3]);
}

#[test]
fn conway_update_clears_on_request() {
    let mut c = ConwayGridComponent::new(4, 4, 1000);
    let mut s = Storage::new();
    let mut inp = InputHandler::new();
    inp.clear_pressed = true;
    c.update(&mut s, &inp);
    assert!(c.inner.cells.iter().all(|b| !b));
}

#[test]
fn cells_update_paints_brushes_and_walls() {
    let mut c = CellRealmComponent::new(9, 9);
    let mut s = Storage::new();
    let mut inp = InputHandler::new();
    inp.mouse_right_held = true;
    inp.mouse = (4, 4);
    c.update(&mut s, &inp);
    // A water brush of radius 10 floods the whole 9x9 grid.
    assert!(c.inner.cells.iter().all(|x| *x == Cell::WATER));

    let mut inp2 = InputHandler::new();
    inp2.clear_pressed = true;
    c.update(&mut s, &inp2);
    assert!(c.inner.cells.iter().all(|x| *x == Cell::EMPTY));

    let mut inp3 = InputHandler::new();
    inp3.mouse_middle_held = true;
    inp3.mouse = (0, 0);
    inp3.mouse_prev = (0, 8);
    c.update(&mut s, &inp3);
    let solids = c.inner.cells.iter().filter(|x| **x == Cell::SOLID).count();
    assert_eq!(solids, 8);
}

#[test]
fn off_grid_mouse_input_is_ignored() {
    let mut c = ConwayGridComponent::new(5, 5, 0);
    let mut s = Storage::new();
    let mut inp = InputHandler::new();
    inp.mouse_left_held = true;
    inp.mouse = (-3, 2);
    inp.mouse_prev = (9, 9);
    c.update(&mut s, &inp);
    assert!(c.inner.cells.iter().all(|b| !b));
}
