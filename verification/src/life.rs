//! Conway's life (B3/S23) on a row-major boolean grid with a pre-allocated
//! double buffer: a tick writes the whole next generation into the scratch
//! buffer and commits it with one swap.

use vstd::prelude::*;
use crate::color::{rgba, Rgba};
use crate::grid::{lemma_row_major_bound, row_major};
use crate::letters;
use crate::letters::{glyph_pattern, stamped, Glyph};
use crate::rng::random_u32;

verus! {

pub open spec fn b2i(b: bool) -> int {
    if b {
        1
    } else {
        0
    }
}

/// The number of live 8-neighbors of `(x, y)`; cells on the outermost rows
/// and columns short-circuit to 0, which keeps the border dead.
pub open spec fn neighbor_count(g: Seq<bool>, w: int, h: int, x: int, y: int) -> int {
    if x == 0 || y == 0 || x == w - 1 || y == h - 1 {
        0
    } else {
        b2i(g[row_major(w, x - 1, y - 1)]) + b2i(g[row_major(w, x, y - 1)]) + b2i(
            g[row_major(w, x + 1, y - 1)],
        ) + b2i(g[row_major(w, x - 1, y)]) + b2i(g[row_major(w, x + 1, y)]) + b2i(
            g[row_major(w, x - 1, y + 1)],
        ) + b2i(g[row_major(w, x, y + 1)]) + b2i(g[row_major(w, x + 1, y + 1)])
    }
}

/// B3/S23: a live cell survives with 2 or 3 neighbors, a dead cell is born
/// with exactly 3.
pub open spec fn life_rule(alive: bool, neighbors: int) -> bool {
    if alive {
        neighbors == 2 || neighbors == 3
    } else {
        neighbors == 3
    }
}

/// One whole generation of the grid.
pub open spec fn life_step(g: Seq<bool>, w: int, h: int) -> Seq<bool> {
    Seq::new(g.len(), |j: int| life_rule(g[j], neighbor_count(g, w, h, j % w, j / w)))
}

/// The color a cell is drawn with.
pub open spec fn life_color(alive: bool) -> Rgba {
    if alive {
        rgba(0, 0, 200, 255)
    } else {
        rgba(0, 0, 0, 255)
    }
}

/// The color map of a whole grid.
pub open spec fn life_colors(g: Seq<bool>) -> Seq<Rgba> {
    Seq::new(g.len(), |j: int| life_color(g[j]))
}

/// What the "PIXPOX" stamp decides for row-major index `j`: `Some(v)` inside
/// one of the six 3x5 letter boxes starting at `(sx, sy)` with stride 6,
/// `None` elsewhere.
pub open spec fn pixpox_overlay(w: int, sx: int, sy: int, j: int) -> Option<bool> {
    let x = j % w;
    let y = j / w;
    if !(sy <= y < sy + 5) {
        None
    } else if sx <= x < sx + 3 {
        Some(glyph_pattern(Glyph::P, x - sx, y - sy))
    } else if sx + 6 <= x < sx + 9 {
        Some(glyph_pattern(Glyph::I, x - (sx + 6), y - sy))
    } else if sx + 12 <= x < sx + 15 {
        Some(glyph_pattern(Glyph::X, x - (sx + 12), y - sy))
    } else if sx + 18 <= x < sx + 21 {
        Some(glyph_pattern(Glyph::P, x - (sx + 18), y - sy))
    } else if sx + 24 <= x < sx + 27 {
        Some(glyph_pattern(Glyph::O, x - (sx + 24), y - sy))
    } else if sx + 30 <= x < sx + 33 {
        Some(glyph_pattern(Glyph::X, x - (sx + 30), y - sy))
    } else {
        None
    }
}

/// The rectangle the demo seed keeps clear of random cells.
pub open spec fn in_blank_band(w: int, j: int) -> bool {
    &&& 100 < j % w < 200
    &&& 70 < j / w < 140
}

pub struct ConwayGrid {
    pub height: u32,
    pub width: u32,
    pub cells: Vec<bool>,
    /// Scratch buffer for the next generation.
    pub next: Vec<bool>,
}

impl ConwayGrid {
    /// The grid invariant: positive dimensions, and both buffers hold
    /// exactly `width * height` cells.
    pub open spec fn wf(&self) -> bool {
        &&& 1 <= self.width
        &&& 1 <= self.height
        &&& self.cells@.len() == self.width * self.height
        &&& self.width * self.height <= isize::MAX
        &&& self.next@.len() == self.cells@.len()
    }

    /// A fresh grid; each cell is drawn alive with probability
    /// `chance_permille / 1000` (clamped into `[0, 1]`).
    pub fn new(height: u32, width: u32, chance_permille: u32) -> (g: ConwayGrid)
        requires
            1 <= height,
            1 <= width,
            height * width <= isize::MAX,
        ensures
            g.wf(),
            g.width == width,
            g.height == height,
            chance_permille == 0 ==> forall|j: int| 0 <= j < g.cells@.len() ==> !g.cells@[j],
            chance_permille >= 1000 ==> forall|j: int| 0 <= j < g.cells@.len() ==> g.cells@[j],
    {
        let len: usize = (height as usize) * (width as usize);
        let mut cells: Vec<bool> = Vec::new();
        let mut i: usize = 0;
        while i < len
            invariant
                i <= len,
                cells@.len() == i,
                chance_permille == 0 ==> forall|j: int| 0 <= j < i ==> !cells@[j],
                chance_permille >= 1000 ==> forall|j: int| 0 <= j < i ==> cells@[j],
            decreases len - i,
        {
            let alive: bool = random_u32() % 1000 < chance_permille;
            cells.push(alive);
            i = i + 1;
        }
        let next: Vec<bool> = vec![false; len];
        proof {
            vstd::arithmetic::mul::lemma_mul_is_commutative(height as int, width as int);
        }
        ConwayGrid { height, width, cells, next }
    }

    /// A demo grid: random cells with a blanked rectangle, with the word
    /// "PIXPOX" stamped in the middle in 3x5 letters. The result is pinned
    /// wherever a letter or the blanked band decides a cell; the rest is
    /// random.
    pub fn new_pixpox(height: u32, width: u32, chance_permille: u32) -> (g: ConwayGrid)
        requires
            35 <= width,
            5 <= height,
            height * width <= isize::MAX,
        ensures
            g.wf(),
            g.width == width,
            g.height == height,
            forall|j: int|
                0 <= j < g.cells@.len() ==> match #[trigger] pixpox_overlay(
                    width as int,
                    (width - 35) as int / 2,
                    (height - 5) as int / 2,
                    j,
                ) {
                    Some(v) => g.cells@[j] == v,
                    None => in_blank_band(width as int, j) ==> !g.cells@[j],
                },
    {
        let ghost wi = width as int;
        let ghost hi = height as int;
        let wus: usize = width as usize;
        let len: usize = (height as usize) * wus;
        let mut cells: Vec<bool> = Vec::new();
        let mut j: usize = 0;
        while j < len
            invariant
                j <= len,
                cells@.len() == j,
                wi == width,
                1 <= wus == width,
                forall|jj: int| 0 <= jj < j ==> (in_blank_band(wi, jj) ==> !cells@[jj]),
            decreases len - j,
        {
            let x: usize = j % wus;
            let y: usize = j / wus;
            let mut alive: bool = random_u32() % 1000 < chance_permille;
            if x > 100 && x < 200 && y > 70 && y < 140 {
                alive = false;
            }
            cells.push(alive);
            j = j + 1;
        }
        let start_x: usize = (wus - 35) / 2;
        let start_y: usize = ((height as usize) - 5) / 2;
        proof {
            vstd::arithmetic::div_mod::lemma_div_nonincreasing(wus - 35, 2);
            vstd::arithmetic::div_mod::lemma_div_pos_is_pos(wus - 35, 2);
            vstd::arithmetic::div_mod::lemma_div_nonincreasing(hi - 5, 2);
            vstd::arithmetic::div_mod::lemma_div_pos_is_pos(hi - 5, 2);
            assert((start_y + 5) * width <= height * width) by (nonlinear_arith)
                requires
                    start_y + 5 <= height,
                    0 <= width,
            ;
            vstd::arithmetic::mul::lemma_mul_is_commutative(hi, wi);
        }
        let ghost c0 = cells@;
        letters::draw_p(&mut cells, wus, start_x, start_y);
        letters::draw_i(&mut cells, wus, start_x + 6, start_y);
        letters::draw_x(&mut cells, wus, start_x + 12, start_y);
        letters::draw_p(&mut cells, wus, start_x + 18, start_y);
        letters::draw_o(&mut cells, wus, start_x + 24, start_y);
        letters::draw_x(&mut cells, wus, start_x + 30, start_y);
        let next: Vec<bool> = vec![false; len];
        proof {
            let sx = start_x as int;
            let sy = start_y as int;
            assert forall|jj: int| 0 <= jj < cells@.len() implies match #[trigger] pixpox_overlay(
                wi,
                sx,
                sy,
                jj,
            ) {
                Some(v) => cells@[jj] == v,
                None => in_blank_band(wi, jj) ==> !cells@[jj],
            } by {
                assert(c0.len() == len);
            }
        }
        ConwayGrid { height, width, cells, next }
    }

    /// Row-major index of an in-bounds position.
    pub fn get_idx(&self, pos: (isize, isize)) -> (r: usize)
        requires
            self.wf(),
            0 <= pos.0 < self.width,
            0 <= pos.1 < self.height,
        ensures
            r == row_major(self.width as int, pos.0 as int, pos.1 as int),
            r < self.cells@.len(),
    {
        let glen: usize = self.cells.len();
        proof {
            assert(glen == self.cells@.len());
            lemma_row_major_bound(self.width as int, self.height as int, pos.0 as int, pos.1 as int);
            vstd::arithmetic::mul::lemma_mul_is_commutative(
                self.width as int,
                self.height as int,
            );
        }
        (pos.1 as usize) * (self.width as usize) + (pos.0 as usize)
    }

    /// The position of a row-major index.
    pub fn get_pos(&self, idx: isize) -> (r: (isize, isize))
        requires
            self.wf(),
            0 <= idx < self.cells@.len(),
        ensures
            r.0 == (idx as int) % (self.width as int),
            r.1 == (idx as int) / (self.width as int),
            0 <= r.0 < self.width,
            0 <= r.1 < self.height,
    {
        proof {
            assert(self.width <= self.width * self.height) by (nonlinear_arith)
                requires
                    1 <= self.height,
                    0 <= self.width,
            ;
        }
        let w: isize = self.width as isize;
        proof {
            vstd::arithmetic::div_mod::lemma_mod_bound(idx as int, self.width as int);
            vstd::arithmetic::div_mod::lemma_div_pos_is_pos(idx as int, self.width as int);
            vstd::arithmetic::div_mod::lemma_fundamental_div_mod(idx as int, self.width as int);
            assert((idx as int) / (self.width as int) < (self.height as int)) by (nonlinear_arith)
                requires
                    1 <= self.width,
                    0 <= idx,
                    idx < self.width * self.height,
                    (self.width as int) * ((idx as int) / (self.width as int)) + (idx as int) % (
                    self.width as int) == idx,
                    0 <= (idx as int) % (self.width as int) < self.width,
            ;
        }
        (idx % w, idx / w)
    }

    /// Kill every cell.
    pub fn clear_grid(&mut self)
        requires
            old(self).wf(),
        ensures
            final(self).wf(),
            final(self).width == old(self).width,
            final(self).height == old(self).height,
            final(self).cells@ == crate::grid::filled(old(self).cells@.len(), false),
    {
        let len: usize = self.cells.len();
        self.cells = vec![false; len];
        proof {
            assert(self.cells@ =~= crate::grid::filled(old(self).cells@.len(), false));
        }
    }

    /// Write one cell.
    pub fn set_cell(&mut self, pos: (isize, isize), state: bool)
        requires
            old(self).wf(),
            0 <= pos.0 < old(self).width,
            0 <= pos.1 < old(self).height,
        ensures
            final(self).wf(),
            final(self).width == old(self).width,
            final(self).height == old(self).height,
            final(self).cells@ == old(self).cells@.update(
                row_major(old(self).width as int, pos.0 as int, pos.1 as int),
                state,
            ),
    {
        let idx: usize = self.get_idx(pos);
        self.cells.set(idx, state);
    }

    /// Write one cell (alias kept for the drawing helpers).
    pub fn set_pos(&mut self, pos: (isize, isize), cell: bool)
        requires
            old(self).wf(),
            0 <= pos.0 < old(self).width,
            0 <= pos.1 < old(self).height,
        ensures
            final(self).wf(),
            final(self).width == old(self).width,
            final(self).height == old(self).height,
            final(self).cells@ == old(self).cells@.update(
                row_major(old(self).width as int, pos.0 as int, pos.1 as int),
                cell,
            ),
    {
        self.set_cell(pos, cell);
    }

    /// Draw a Bresenham line from `pos1` toward `pos2` (the end point
    /// excluded, as in the walk itself).
    pub fn set_line(&mut self, pos1: (isize, isize), pos2: (isize, isize), cell: bool)
        requires
            old(self).wf(),
            0 <= pos1.0 < old(self).width,
            0 <= pos1.1 < old(self).height,
            0 <= pos2.0 < old(self).width,
            0 <= pos2.1 < old(self).height,
            pos1.0 <= 500000000 && pos1.1 <= 500000000,
            pos2.0 <= 500000000 && pos2.1 <= 500000000,
        ensures
            final(self).wf(),
            final(self).width == old(self).width,
            final(self).height == old(self).height,
            final(self).cells@ == crate::bresenham::line_overwrite(
                old(self).cells@,
                old(self).width as int,
                crate::bresenham::line_points_spec(
                    pos1.0 as int,
                    pos1.1 as int,
                    pos2.0 as int,
                    pos2.1 as int,
                ),
                cell,
            ),
    {
        let ghost g0 = self.cells@;
        let ghost wi = self.width as int;
        let pts: Vec<(isize, isize)> = crate::bresenham::line_points(pos1, pos2);
        let ghost spts = crate::bresenham::line_points_spec(
            pos1.0 as int,
            pos1.1 as int,
            pos2.0 as int,
            pos2.1 as int,
        );
        let n: usize = pts.len();
        let mut k: usize = 0;
        while k < n
            invariant
                self.wf(),
                self.width == old(self).width,
                self.height == old(self).height,
                wi == self.width,
                g0.len() == self.cells@.len(),
                0 <= pos1.0 < self.width && 0 <= pos1.1 < self.height,
                0 <= pos2.0 < self.width && 0 <= pos2.1 < self.height,
                n == pts@.len(),
                k <= n,
                crate::bresenham::points_view(pts@) == spts,
                forall|i: int|
                    0 <= i < pts@.len() ==> crate::bresenham::in_box(
                        #[trigger] pts@[i],
                        pos1.0,
                        pos1.1,
                        pos2.0,
                        pos2.1,
                    ),
                self.cells@ == crate::bresenham::line_overwrite(
                    g0,
                    wi,
                    spts.take(k as int),
                    cell,
                ),
            decreases n - k,
        {
            let p: (isize, isize) = pts[k];
            proof {
                assert(crate::bresenham::in_box(p, pos1.0, pos1.1, pos2.0, pos2.1));
                assert(spts[k as int] == (p.0 as int, p.1 as int));
            }
            let ghost prev = self.cells@;
            self.set_pos(p, cell);
            proof {
                let idx = row_major(wi, p.0 as int, p.1 as int);
                lemma_row_major_bound(wi, self.height as int, p.0 as int, p.1 as int);
                vstd::arithmetic::mul::lemma_mul_is_commutative(wi, self.height as int);
                assert(0 <= idx < g0.len());
                assert(self.cells@ == prev.update(idx, cell));
                assert forall|j: int|
                    0 <= j < g0.len() implies crate::bresenham::line_overwrite(
                    g0,
                    wi,
                    spts.take(k + 1),
                    cell,
                )[j] == self.cells@[j] by {
                    crate::bresenham::lemma_line_covers_extend(spts, wi, k as int, j);
                    if j != idx {
                        assert(self.cells@[j] == prev[j]);
                    }
                }
                assert(self.cells@ =~= crate::bresenham::line_overwrite(
                    g0,
                    wi,
                    spts.take(k + 1),
                    cell,
                ));
            }
            k = k + 1;
        }
        proof {
            assert(spts.take(spts.len() as int) =~= spts);
        }
    }

    fn count_at(&self, x: usize, y: usize) -> (n: usize)
        requires
            self.wf(),
            x < self.width,
            y < self.height,
        ensures
            n == neighbor_count(
                self.cells@,
                self.width as int,
                self.height as int,
                x as int,
                y as int,
            ),
    {
        let w: usize = self.width as usize;
        let h: usize = self.height as usize;
        if x == 0 || y == 0 || x == w - 1 || y == h - 1 {
            return 0;
        }
        let glen: usize = self.cells.len();
        proof {
            let wi = self.width as int;
            let hi = self.height as int;
            assert(glen == self.cells@.len());
            lemma_row_major_bound(wi, hi, x - 1, y - 1);
            lemma_row_major_bound(wi, hi, x as int, y - 1);
            lemma_row_major_bound(wi, hi, x + 1, y - 1);
            lemma_row_major_bound(wi, hi, x - 1, y as int);
            lemma_row_major_bound(wi, hi, x + 1, y as int);
            lemma_row_major_bound(wi, hi, x - 1, y + 1);
            lemma_row_major_bound(wi, hi, x as int, y + 1);
            lemma_row_major_bound(wi, hi, x + 1, y + 1);
            vstd::arithmetic::mul::lemma_mul_is_commutative(wi, hi);
        }
        let mut n: usize = 0;
        if self.cells[(y - 1) * w + (x - 1)] {
            n = n + 1;
        }
        if self.cells[(y - 1) * w + x] {
            n = n + 1;
        }
        if self.cells[(y - 1) * w + (x + 1)] {
            n = n + 1;
        }
        if self.cells[y * w + (x - 1)] {
            n = n + 1;
        }
        if self.cells[y * w + (x + 1)] {
            n = n + 1;
        }
        if self.cells[(y + 1) * w + (x - 1)] {
            n = n + 1;
        }
        if self.cells[(y + 1) * w + x] {
            n = n + 1;
        }
        if self.cells[(y + 1) * w + (x + 1)] {
            n = n + 1;
        }
        n
    }

    /// The live 8-neighbor count of an in-bounds position.
    pub fn count_neibs(&self, pos: (isize, isize)) -> (n: usize)
        requires
            self.wf(),
            0 <= pos.0 < self.width,
            0 <= pos.1 < self.height,
        ensures
            n == neighbor_count(
                self.cells@,
                self.width as int,
                self.height as int,
                pos.0 as int,
                pos.1 as int,
            ),
    {
        self.count_at(pos.0 as usize, pos.1 as usize)
    }

    /// Advance the whole grid one generation and commit it atomically: the
    /// new generation is computed into the scratch buffer against the old
    /// cells, then swapped in.
    pub fn next_state(&mut self)
        requires
            old(self).wf(),
        ensures
            final(self).wf(),
            final(self).width == old(self).width,
            final(self).height == old(self).height,
            final(self).cells@ == life_step(
                old(self).cells@,
                old(self).width as int,
                old(self).height as int,
            ),
    {
        let ghost g0 = self.cells@;
        let ghost wi = self.width as int;
        let ghost hi = self.height as int;
        let w: usize = self.width as usize;
        let len: usize = self.cells.len();
        let mut i: usize = 0;
        while i < len
            invariant
                self.wf(),
                self.cells@ == g0,
                self.width == wi,
                self.height == hi,
                len == g0.len(),
                w == self.width,
                i <= len,
                forall|j: int| 0 <= j < i ==> self.next@[j] == life_step(g0, wi, hi)[j],
            decreases len - i,
        {
            let x: usize = i % w;
            let y: usize = i / w;
            proof {
                vstd::arithmetic::div_mod::lemma_mod_bound(i as int, w as int);
                vstd::arithmetic::div_mod::lemma_div_pos_is_pos(i as int, w as int);
                vstd::arithmetic::div_mod::lemma_fundamental_div_mod(i as int, w as int);
                assert((i as int) / (w as int) < hi) by (nonlinear_arith)
                    requires
                        1 <= w,
                        0 <= i,
                        i < wi * hi,
                        w == wi,
                        w * ((i as int) / (w as int)) + (i as int) % (w as int) == i,
                        0 <= (i as int) % (w as int) < w,
                ;
            }
            let n: usize = self.count_at(x, y);
            let alive: bool = self.cells[i];
            let newstate: bool = if alive {
                n == 2 || n == 3
            } else {
                n == 3
            };
            self.next.set(i, newstate);
            i = i + 1;
        }
        core::mem::swap(&mut self.cells, &mut self.next);
        proof {
            assert(self.cells@ =~= life_step(g0, wi, hi));
        }
    }

    /// One color per cell, row-major.
    pub fn get_color_vec(&mut self) -> (v: Vec<Rgba>)
        requires
            old(self).wf(),
        ensures
            *final(self) == *old(self),
            v@ == life_colors(old(self).cells@),
    {
        let len: usize = self.cells.len();
        let mut v: Vec<Rgba> = Vec::new();
        let mut i: usize = 0;
        while i < len
            invariant
                i <= len,
                len == self.cells@.len(),
                self.wf(),
                v@.len() == i,
                forall|j: int| 0 <= j < i ==> v@[j] == life_color(self.cells@[j]),
            decreases len - i,
        {
            let c: Rgba = if self.cells[i] {
                Rgba::new(0, 0, 200, 255)
            } else {
                Rgba::new(0, 0, 0, 255)
            };
            v.push(c);
            i = i + 1;
        }
        proof {
            assert(v@ =~= life_colors(self.cells@));
        }
        v
    }
}

} // verus!
