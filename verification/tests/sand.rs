use pixpox::sand::{Cell, CellRealm};

fn cell_at(g: &CellRealm, x: usize, y: usize) -> Cell {
    g.cells[y * g.width as usize + x]
}

fn count(g: &CellRealm, k: Cell) -> usize {
    g.cells.iter().filter(|c| **c == k).count()
}

#[test]
fn new_realm_is_empty() {
    let g = CellRealm::new(5, 4);
    assert_eq!(g.cells.len(), 20);
    assert!(g.cells.iter().all(|c| *c == Cell::EMPTY));
}

#[test]
fn single_sand_drop_falls_to_the_floor() {
    let mut g = CellRealm::new(5, 5);
    g.set_pos((2, 0), Cell::SAND);
    for t in 1..=4 {
        g.next_state();
        assert_eq!(cell_at(&g, 2, t), Cell::SAND, "tick {}", t);
        assert_eq!(count(&g, Cell::SAND), 1);
    }
    // On the floor the grain stays put.
    g.next_state();
    assert_eq!(cell_at(&g, 2, 4), Cell::SAND);
    assert_eq!(count(&g, Cell::SAND), 1);
}

#[test]
fn sand_on_sand_stacks() {
    let mut g = CellRealm::new(5, 5);
    g.set_pos((2, 0), Cell::SAND);
    g.set_pos((2, 1), Cell::SAND);
    for _ in 0..4 {
        g.next_state();
    }
    assert_eq!(cell_at(&g, 2, 3), Cell::SAND);
    assert_eq!(cell_at(&g, 2, 4), Cell::SAND);
    assert_eq!(count(&g, Cell::SAND), 2);
}

#[test]
fn water_reaches_the_floor_row_and_is_conserved() {
    let mut g = CellRealm::new(5, 5);
    for x in 0..5 {
        g.set_pos((x, 4), Cell::SOLID);
    }
    g.set_pos((2, 0), Cell::WATER);
    for _ in 0..10 {
        g.next_state();
        assert_eq!(count(&g, Cell::WATER), 1);
        assert_eq!(count(&g, Cell::SOLID), 5);
    }
    // The single drop ends up spreading along the row above the floor.
    let row3 = (0..5).filter(|&x| cell_at(&g, x, 3) == Cell::WATER).count();
    assert_eq!(row3, 1);
}

#[test]
fn sand_sinks_through_trapped_water() {
    let mut g = CellRealm::new(5, 5);
    for x in 0..5 {
        g.set_pos((x, 4), Cell::SOLID);
    }
    g.set_pos((1, 3), Cell::SOLID);
    g.set_pos((3, 3), Cell::SOLID);
    g.set_pos((2, 3), Cell::WATER);
    g.set_pos((2, 2), Cell::SAND);
    g.next_state();
    assert_eq!(cell_at(&g, 2, 3), Cell::SAND);
    assert_eq!(cell_at(&g, 2, 2), Cell::WATER);
    assert_eq!(count(&g, Cell::SAND), 1);
    assert_eq!(count(&g, Cell::WATER), 1);
    assert_eq!(count(&g, Cell::SOLID), 7);
}

#[test]
fn counts_are_preserved_across_ticks() {
    let mut g = CellRealm::new(8, 8);
    g.set_pos((1, 0), Cell::SAND);
    g.set_pos((2, 0), Cell::SAND);
    g.set_pos((3, 1), Cell::WATER);
    g.set_pos((5, 2), Cell::WATER);
    g.set_pos((4, 6), Cell::SOLID);
    let sand = count(&g, Cell::SAND);
    let water = count(&g, Cell::WATER);
    let solid = count(&g, Cell::SOLID);
    for _ in 0..12 {
        g.next_state();
        assert_eq!(count(&g, Cell::SAND), sand);
        assert_eq!(count(&g, Cell::WATER), water);
        assert_eq!(count(&g, Cell::SOLID), solid);
    }
}

#[test]
fn solids_do_not_move() {
    let mut g = CellRealm::new(6, 6);
    g.set_pos((3, 1), Cell::SOLID);
    g.set_pos((2, 0), Cell::SAND);
    for _ in 0..6 {
        g.next_state();
        assert_eq!(cell_at(&g, 3, 1), Cell::SOLID);
    }
}

#[test]
fn set_circle_paints_a_disc_and_skips_off_grid() {
    let mut g = CellRealm::new(5, 5);
    g.set_circle((2, 2), 1, Cell::SAND);
    assert_eq!(cell_at(&g, 2, 2), Cell::SAND);
    assert_eq!(cell_at(&g, 1, 2), Cell::SAND);
    assert_eq!(cell_at(&g, 3, 2), Cell::SAND);
    assert_eq!(cell_at(&g, 2, 1), Cell::SAND);
    assert_eq!(cell_at(&g, 2, 3), Cell::SAND);
    assert_eq!(count(&g, Cell::SAND), 5);
    // A brush centered at the corner only paints in-bounds cells.
    let mut h = CellRealm::new(5, 5);
    h.set_circle((0, 0), 1, Cell::WATER);
    assert_eq!(count(&h, Cell::WATER), 3);
}

#[test]
fn set_line_draws_solid_walls() {
    let mut g = CellRealm::new(5, 5);
    g.set_line((0, 2), (4, 2), Cell::SOLID);
    for x in 0..4 {
        assert_eq!(cell_at(&g, x, 2), Cell::SOLID);
    }
    // The end point is not part of the line.
    assert_eq!(cell_at(&g, 4, 2), Cell::EMPTY);
}

#[test]
fn sand_line_twice_is_idempotent() {
    let mut g = CellRealm::new(6, 6);
    g.set_line((0, 0), (5, 3), Cell::SAND);
    let once = g.cells.clone();
    g.set_line((0, 0), (5, 3), Cell::SAND);
    assert_eq!(g.cells, once);
}

#[test]
fn sand_clear_twice_is_idempotent() {
    let mut g = CellRealm::new(4, 4);
    g.set_circle((1, 1), 2, Cell::WATER);
    g.clear_grid();
    let once = g.cells.clone();
    g.clear_grid();
    assert_eq!(g.cells, once);
    assert!(g.cells.iter().all(|c| *c == Cell::EMPTY));
}

#[test]
fn cell_colors_are_the_documented_ones() {
    let e = Cell::EMPTY.get_color();
    let s = Cell::SAND.get_color();
    let w = Cell::WATER.get_color();
    let o = Cell::SOLID.get_color();
    assert_eq!((e.r, e.g, e.b, e.a), (0, 0, 0, 0));
    assert_eq!((s.r, s.g, s.b, s.a), (255, 255, 0, 255));
    assert_eq!((w.r, w.g, w.b, w.a), (0, 0, 255, 255));
    assert_eq!((o.r, o.g, o.b, o.a), (255, 255, 255, 255));
}

#[test]
fn get_cell_count_reports_every_kind() {
    let mut g = CellRealm::new(4, 4);
    g.set_pos((0, 0), Cell::SAND);
    g.set_pos((1, 0), Cell::SAND);
    g.set_pos((2, 0), Cell::WATER);
    let counts = g.get_cell_count();
    assert_eq!(counts.len(), 4);
    assert_eq!(counts[0], (Cell::EMPTY, 13));
    assert_eq!(counts[1], (Cell::SAND, 2));
    assert_eq!(counts[2], (Cell::WATER, 1));
    assert_eq!(counts[3], (Cell::SOLID, 0));
}

#[test]
fn realm_indexing_round_trips() {
    let g = CellRealm::new(6, 4);
    assert!(g.is_valid_pos(3, 5));
    assert!(!g.is_valid_pos(4, 0));
    assert!(!g.is_valid_pos(-1, 0));
    let idx = g.get_idx((3, 5));
    assert_eq!(idx, 5 * 4 + 3);
    assert_eq!(g.get_pos(idx as isize), (3, 5));
}
