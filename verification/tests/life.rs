use pixpox::life::ConwayGrid;
use pixpox::letters;

fn alive_cells(g: &ConwayGrid) -> Vec<(isize, isize)> {
    let w = g.width as isize;
    let h = g.height as isize;
    let mut out = Vec::new();
    for y in 0..h {
        for x in 0..w {
            if g.cells[(y * w + x) as usize] {
                out.push((x, y));
            }
        }
    }
    out
}

#[test]
fn new_empty_grid_is_dead() {
    let g = ConwayGrid::new(4, 6, 0);
    assert_eq!(g.cells.len(), 24);
    assert!(g.cells.iter().all(|c| !c));
}

#[test]
fn new_full_grid_is_alive() {
    let g = ConwayGrid::new(3, 3, 1000);
    assert!(g.cells.iter().all(|c| *c));
}

#[test]
fn blinker_oscillates() {
    let mut g = ConwayGrid::new(5, 5, 0);
    g.set_cell((1, 2), true);
    g.set_cell((2, 2), true);
    g.set_cell((3, 2), true);
    g.next_state();
    assert_eq!(alive_cells(&g), vec![(2, 1), (2, 2), (2, 3)]);
    g.next_state();
    assert_eq!(alive_cells(&g), vec![(1, 2), (2, 2), (3, 2)]);
}

#[test]
fn block_is_still() {
    let mut g = ConwayGrid::new(6, 6, 0);
    for &(x, y) in &[(2, 2), (2, 3), (3, 2), (3, 3)] {
        g.set_cell((x, y), true);
    }
    let before = g.cells.clone();
    for _ in 0..5 {
        g.next_state();
        assert_eq!(g.cells, before);
    }
}

#[test]
fn grid_size_is_preserved_by_ticks() {
    let mut g = ConwayGrid::new(7, 9, 500);
    for _ in 0..3 {
        g.next_state();
        assert_eq!(g.cells.len(), 63);
    }
}

#[test]
fn count_neibs_counts_eight_neighbors() {
    let mut g = ConwayGrid::new(5, 5, 0);
    for y in 1..4 {
        for x in 1..4 {
            g.set_cell((x, y), true);
        }
    }
    assert_eq!(g.count_neibs((2, 2)), 8);
    // Border cells short-circuit to zero.
    assert_eq!(g.count_neibs((0, 2)), 0);
    assert_eq!(g.count_neibs((2, 0)), 0);
    assert_eq!(g.count_neibs((4, 2)), 0);
}

#[test]
fn set_line_draws_bresenham_without_endpoint() {
    let mut g = ConwayGrid::new(5, 5, 0);
    g.set_line((0, 0), (3, 3), true);
    assert_eq!(alive_cells(&g), vec![(0, 0), (1, 1), (2, 2)]);
}

#[test]
fn set_line_twice_is_idempotent() {
    let mut g = ConwayGrid::new(5, 5, 0);
    g.set_line((0, 4), (4, 0), true);
    let once = g.cells.clone();
    g.set_line((0, 4), (4, 0), true);
    assert_eq!(g.cells, once);
}

#[test]
fn clear_grid_kills_everything() {
    let mut g = ConwayGrid::new(5, 5, 1000);
    g.clear_grid();
    assert!(g.cells.iter().all(|c| !c));
    let once = g.cells.clone();
    g.clear_grid();
    assert_eq!(g.cells, once);
}

#[test]
fn get_idx_and_get_pos_are_inverse() {
    let g = ConwayGrid::new(7, 5, 0);
    let idx = g.get_idx((3, 4));
    assert_eq!(idx, 4 * 5 + 3);
    assert_eq!(g.get_pos(idx as isize), (3, 4));
}

#[test]
fn color_vec_matches_cells() {
    let mut g = ConwayGrid::new(2, 2, 0);
    g.set_cell((1, 0), true);
    let v = g.get_color_vec();
    assert_eq!(v.len(), 4);
    assert_eq!((v[1].r, v[1].g, v[1].b, v[1].a), (0, 0, 200, 255));
    assert_eq!((v[0].r, v[0].g, v[0].b, v[0].a), (0, 0, 0, 255));
}

#[test]
fn draw_p_stamps_pattern() {
    let mut cells = vec![false; 5 * 7];
    letters::draw_p(&mut cells, 7, 1, 0);
    // Row 0 of P is on-on-off.
    assert!(cells[1] && cells[2] && !cells[3]);
    // Row 1 is on-off-on.
    assert!(cells[7 + 1] && !cells[7 + 2] && cells[7 + 3]);
    // Row 4 is on-off-off.
    assert!(cells[4 * 7 + 1] && !cells[4 * 7 + 2] && !cells[4 * 7 + 3]);
}

#[test]
fn draw_i_and_o_and_x_stamp_patterns() {
    let mut cells = vec![false; 5 * 3];
    letters::draw_i(&mut cells, 3, 0, 0);
    assert!(!cells[0] && cells[1] && !cells[2]);

    let mut cells = vec![false; 5 * 3];
    letters::draw_o(&mut cells, 3, 0, 0);
    assert!(cells[0] && cells[1] && cells[2]);
    assert!(cells[3] && !cells[4] && cells[5]);

    let mut cells = vec![false; 5 * 3];
    letters::draw_x(&mut cells, 3, 0, 0);
    assert!(cells[0] && !cells[1] && cells[2]);
    assert!(!cells[3] && cells[4] && !cells[5]);
}

#[test]
fn pixpox_seed_stamps_letters_and_blanks_band() {
    let g = ConwayGrid::new_pixpox(220, 320, 1000);
    let w = 320usize;
    let sx = (320 - 35) / 2; // 142
    let sy = (220 - 5) / 2; // 107
    // Top-left of the letter P is alive, its third column head is dead.
    assert!(g.cells[sy * w + sx]);
    assert!(!g.cells[sy * w + sx + 2]);
    // The letter I has a dead first column and a live middle column.
    assert!(!g.cells[sy * w + sx + 6]);
    assert!(g.cells[sy * w + sx + 7]);
    // The blanked band is dead away from the letters.
    assert!(!g.cells[75 * w + 150]);
    assert!(!g.cells[120 * w + 199]);
}
