//! Helpers that stamp 3x5 letter glyphs into a row-major boolean grid,
//! used to seed a demo pattern into the life engine.

use vstd::prelude::*;
use crate::grid::{lemma_row_major_inverse, row_major};

verus! {

/// The letters that can be stamped.
#[derive(Clone, Copy, PartialEq, Eq, Structural)]
pub enum Glyph {
    P,
    I,
    O,
    X,
}

/// The 3x5 dot pattern of a glyph; `(dx, dy)` ranges over `[0,3) x [0,5)`.
pub open spec fn glyph_pattern(g: Glyph, dx: int, dy: int) -> bool {
    match g {
        Glyph::P => (dy == 0 && dx <= 1) || (dy == 1 && (dx == 0 || dx == 2)) || (dy == 2 && dx
            <= 1) || (dy >= 3 && dx == 0),
        Glyph::I => dx == 1,
        Glyph::O => dy == 0 || dy == 4 || dx == 0 || dx == 2,
        Glyph::X => if dy == 0 || dy == 4 {
            dx == 0 || dx == 2
        } else {
            dx == 1
        },
    }
}

/// Whether row-major index `j` of a grid `w` wide falls inside the 3x5 box
/// whose top-left corner is `(sx, sy)`.
pub open spec fn glyph_covers(w: int, sx: int, sy: int, j: int) -> bool {
    &&& sx <= j % w < sx + 3
    &&& sy <= j / w < sy + 5
}

/// The grid after stamping glyph `g` at `(sx, sy)`: box cells take the
/// pattern, every other cell keeps its value.
pub open spec fn stamped(cells: Seq<bool>, w: int, sx: int, sy: int, g: Glyph) -> Seq<bool> {
    Seq::new(
        cells.len(),
        |j: int|
            if glyph_covers(w, sx, sy, j) {
                glyph_pattern(g, j % w - sx, j / w - sy)
            } else {
                cells[j]
            },
    )
}

fn glyph_at(g: Glyph, dx: usize, dy: usize) -> (r: bool)
    requires
        dx < 3,
        dy < 5,
    ensures
        r == glyph_pattern(g, dx as int, dy as int),
{
    match g {
        Glyph::P => (dy == 0 && dx <= 1) || (dy == 1 && (dx == 0 || dx == 2)) || (dy == 2 && dx
            <= 1) || (dy >= 3 && dx == 0),
        Glyph::I => dx == 1,
        Glyph::O => dy == 0 || dy == 4 || dx == 0 || dx == 2,
        Glyph::X => if dy == 0 || dy == 4 {
            dx == 0 || dx == 2
        } else {
            dx == 1
        },
    }
}

fn draw_glyph(cells: &mut Vec<bool>, width: usize, start_x: usize, start_y: usize, g: Glyph)
    requires
        1 <= width,
        start_x + 3 <= width,
        (start_y + 5) * width <= old(cells).len(),
    ensures
        final(cells)@ == stamped(old(cells)@, width as int, start_x as int, start_y as int, g),
{
    let total: usize = cells.len();
    let ghost cells0 = cells@;
    let ghost w = width as int;
    let ghost sx = start_x as int;
    let ghost sy = start_y as int;
    let mut dy: usize = 0;
    while dy < 5
        invariant
            dy <= 5,
            1 <= width,
            start_x + 3 <= width,
            (start_y + 5) * width <= cells0.len(),
            w == width && sx == start_x && sy == start_y,
            cells0.len() == total,
            cells@.len() == cells0.len(),
            forall|j: int|
                0 <= j < cells0.len() ==> cells@[j] == (if glyph_covers(w, sx, sy, j) && j / w
                    < sy + dy {
                    glyph_pattern(g, j % w - sx, j / w - sy)
                } else {
                    cells0[j]
                }),
        decreases 5 - dy,
    {
        let mut dx: usize = 0;
        while dx < 3
            invariant
                dy < 5,
                dx <= 3,
                1 <= width,
                start_x + 3 <= width,
                (start_y + 5) * width <= cells0.len(),
                w == width && sx == start_x && sy == start_y,
                cells0.len() == total,
                cells@.len() == cells0.len(),
                forall|j: int|
                    0 <= j < cells0.len() ==> cells@[j] == (if glyph_covers(w, sx, sy, j) && (j / w
                        < sy + dy || (j / w == sy + dy && j % w < sx + dx)) {
                        glyph_pattern(g, j % w - sx, j / w - sy)
                    } else {
                        cells0[j]
                    }),
            decreases 3 - dx,
        {
            proof {
                assert(start_y + dy <= (start_y + 5) * width && (start_y + dy) * width <= (start_y
                    + 5) * width && (start_y + dy) * width + start_x + dx < (start_y + 5) * width)
                    by (nonlinear_arith)
                    requires
                        dy < 5,
                        dx < 3,
                        start_x + 3 <= width,
                        1 <= width,
                ;
                assert(cells@.len() <= usize::MAX);
            }
            let j: usize = (start_y + dy) * width + start_x + dx;
            let v: bool = glyph_at(g, dx, dy);
            let ghost prev = cells@;
            cells.set(j, v);
            proof {
                lemma_row_major_inverse(w, sx + dx, sy + dy);
                assert(j == row_major(w, sx + dx, sy + dy));
                assert forall|jj: int| 0 <= jj < cells0.len() implies cells@[jj] == (if glyph_covers(
                    w,
                    sx,
                    sy,
                    jj,
                ) && (jj / w < sy + dy || (jj / w == sy + dy && jj % w < sx + dx + 1)) {
                    glyph_pattern(g, jj % w - sx, jj / w - sy)
                } else {
                    cells0[jj]
                }) by {
                    vstd::arithmetic::div_mod::lemma_fundamental_div_mod(jj, w);
                    lemma_row_major_inverse(w, sx + dx, sy + dy);
                    assert(j == (sy + dy) * w + (sx + dx));
                    assert(jj == w * (jj / w) + (jj % w));
                    if jj != j {
                        assert(cells@[jj] == prev[jj]);
                        assert(prev[jj] == (if glyph_covers(w, sx, sy, jj) && (jj / w < sy + dy || (
                        jj / w == sy + dy && jj % w < sx + dx)) {
                            glyph_pattern(g, jj % w - sx, jj / w - sy)
                        } else {
                            cells0[jj]
                        }));
                        if jj / w == sy + dy && jj % w == sx + dx {
                            assert(jj == w * (sy + dy) + (sx + dx));
                            vstd::arithmetic::mul::lemma_mul_is_commutative(w, sy + dy);
                            assert(jj == j);
                        }
                        assert(!(jj / w == sy + dy && jj % w == sx + dx));
                        assert(cells@[jj] == (if glyph_covers(w, sx, sy, jj) && (jj / w < sy + dy
                            || (jj / w == sy + dy && jj % w < sx + dx + 1)) {
                            glyph_pattern(g, jj % w - sx, jj / w - sy)
                        } else {
                            cells0[jj]
                        }));
                    } else {
                        assert(cells@[jj] == v);
                        assert(jj % w == sx + dx && jj / w == sy + dy);
                        assert(glyph_covers(w, sx, sy, jj));
                        assert(cells@[jj] == glyph_pattern(g, jj % w - sx, jj / w - sy));
                    }
                }
            }
            dx = dx + 1;
        }
        dy = dy + 1;
    }
    proof {
        assert(cells@ =~= stamped(cells0, w, sx, sy, g));
    }
}

/// Stamp the letter P.
pub fn draw_p(cells: &mut Vec<bool>, width: usize, start_x: usize, start_y: usize)
    requires
        1 <= width,
        start_x + 3 <= width,
        (start_y + 5) * width <= old(cells).len(),
    ensures
        final(cells)@ == stamped(
            old(cells)@,
            width as int,
            start_x as int,
            start_y as int,
            Glyph::P,
        ),
{
    draw_glyph(cells, width, start_x, start_y, Glyph::P);
}

/// Stamp the letter I.
pub fn draw_i(cells: &mut Vec<bool>, width: usize, start_x: usize, start_y: usize)
    requires
        1 <= width,
        start_x + 3 <= width,
        (start_y + 5) * width <= old(cells).len(),
    ensures
        final(cells)@ == stamped(
            old(cells)@,
            width as int,
            start_x as int,
            start_y as int,
            Glyph::I,
        ),
{
    draw_glyph(cells, width, start_x, start_y, Glyph::I);
}

/// Stamp the letter O.
pub fn draw_o(cells: &mut Vec<bool>, width: usize, start_x: usize, start_y: usize)
    requires
        1 <= width,
        start_x + 3 <= width,
        (start_y + 5) * width <= old(cells).len(),
    ensures
        final(cells)@ == stamped(
            old(cells)@,
            width as int,
            start_x as int,
            start_y as int,
            Glyph::O,
        ),
{
    draw_glyph(cells, width, start_x, start_y, Glyph::O);
}

/// Stamp the letter X.
pub fn draw_x(cells: &mut Vec<bool>, width: usize, start_x: usize, start_y: usize)
    requires
        1 <= width,
        start_x + 3 <= width,
        (start_y + 5) * width <= old(cells).len(),
    ensures
        final(cells)@ == stamped(
            old(cells)@,
            width as int,
            start_x as int,
            start_y as int,
            Glyph::X,
        ),
{
    draw_glyph(cells, width, start_x, start_y, Glyph::X);
}

} // verus!
