//! Falling-sand/liquid automaton. A tick scans rows bottom-up and moves each
//! cell by swapping it with its destination; a claim bitmap marks both ends
//! of every move, so no cell moves twice in a tick, no destination is taken
//! twice, and nothing falls into a slot vacated this tick by a lower cell.
//! Because every mutation is a swap, the number of cells of each kind is
//! preserved across a tick.

use vstd::prelude::*;
use crate::color::{rgba, Rgba};
use crate::grid::{lemma_row_major_bound, lemma_row_major_inverse, row_major};
use crate::rng::random_u32;

verus! {

#[allow(non_camel_case_types)]
#[derive(Clone, Copy, Debug, PartialEq, Eq, Structural)]
pub enum Cell {
    EMPTY,
    SAND,
    WATER,
    SOLID,
}

/// The color a cell kind is drawn with.
pub open spec fn cell_color(c: Cell) -> Rgba {
    match c {
        Cell::EMPTY => rgba(0, 0, 0, 0),
        Cell::SAND => rgba(255, 255, 0, 255),
        Cell::WATER => rgba(0, 0, 255, 255),
        Cell::SOLID => rgba(255, 255, 255, 255),
    }
}

impl Cell {
    pub fn get_color(&self) -> (c: Rgba)
        ensures
            c == cell_color(*self),
    {
        match self {
            Cell::EMPTY => Rgba::new(0, 0, 0, 0),
            Cell::SAND => Rgba::new(255, 255, 0, 255),
            Cell::WATER => Rgba::new(0, 0, 255, 255),
            Cell::SOLID => Rgba::new(255, 255, 255, 255),
        }
    }
}

/// How many cells of `s` are of kind `k`.
pub open spec fn count_cells(s: Seq<Cell>, k: Cell) -> nat
    decreases s.len(),
{
    if s.len() == 0 {
        0nat
    } else {
        count_cells(s.drop_last(), k) + (if s.last() == k {
            1nat
        } else {
            0nat
        })
    }
}

/// Writing one element moves the count by the difference of old and new
/// values, stated additively.
pub proof fn lemma_count_update(s: Seq<Cell>, i: int, v: Cell, k: Cell)
    requires
        0 <= i < s.len(),
    ensures
        count_cells(s.update(i, v), k) + (if s[i] == k {
            1nat
        } else {
            0nat
        }) == count_cells(s, k) + (if v == k {
            1nat
        } else {
            0nat
        }),
    decreases s.len(),
{
    let t = s.update(i, v);
    if i == s.len() - 1 {
        assert(t.drop_last() =~= s.drop_last());
        assert(t.last() == v);
    } else {
        assert(t.drop_last() =~= s.drop_last().update(i, v));
        assert(t.last() == s.last());
        lemma_count_update(s.drop_last(), i, v, k);
    }
}

/// Swapping two elements leaves every count unchanged.
pub proof fn lemma_count_swap(s: Seq<Cell>, i: int, j: int, k: Cell)
    requires
        0 <= i < s.len(),
        0 <= j < s.len(),
    ensures
        count_cells(s.update(i, s[j]).update(j, s[i]), k) == count_cells(s, k),
{
    if i == j {
        assert(s.update(i, s[j]).update(j, s[i]) =~= s);
    } else {
        let u = s.update(i, s[j]);
        lemma_count_update(s, i, s[j], k);
        assert(u[j] == s[j]);
        assert(u[i] == s[j]);
        lemma_count_update(u, j, s[i], k);
    }
}

/// Counting a prefix one element longer adds that element's contribution.
pub proof fn lemma_count_take_step(s: Seq<Cell>, i: int, k: Cell)
    requires
        0 <= i < s.len(),
    ensures
        count_cells(s.take(i + 1), k) == count_cells(s.take(i), k) + (if s[i] == k {
            1nat
        } else {
            0nat
        }),
{
    assert(s.take(i + 1).drop_last() =~= s.take(i));
    assert(s.take(i + 1).last() == s[i]);
}

/// The color map of a whole grid.
pub open spec fn cell_colors(g: Seq<Cell>) -> Seq<Rgba> {
    Seq::new(g.len(), |j: int| cell_color(g[j]))
}

/// Whether `(x, y)` lies within distance `r` of `(cx, cy)`, by the
/// squared-distance test.
pub open spec fn in_disc(cx: int, cy: int, r: int, x: int, y: int) -> bool {
    (x - cx) * (x - cx) + (y - cy) * (y - cy) <= r * r
}

/// A point of the disc lies within the bounding square of the disc.
pub proof fn lemma_disc_bounds(cx: int, cy: int, r: int, x: int, y: int)
    requires
        0 <= r,
        in_disc(cx, cy, r, x, y),
    ensures
        cx - r <= x <= cx + r,
        cy - r <= y <= cy + r,
{
    assert(cx - r <= x <= cx + r && cy - r <= y <= cy + r) by (nonlinear_arith)
        requires
            0 <= r,
            (x - cx) * (x - cx) + (y - cy) * (y - cy) <= r * r,
    ;
}

/// The grid after painting every cell of the disc around `(cx, cy)`.
pub open spec fn disc_overwrite(g: Seq<Cell>, w: int, cx: int, cy: int, r: int, v: Cell) -> Seq<
    Cell,
> {
    Seq::new(
        g.len(),
        |j: int|
            if in_disc(cx, cy, r, j % w, j / w) {
                v
            } else {
                g[j]
            },
    )
}

pub struct CellRealm {
    pub height: u32,
    pub width: u32,
    pub cells: Vec<Cell>,
}

impl CellRealm {
    /// The grid invariant: positive dimensions and a full row-major buffer.
    pub open spec fn wf(&self) -> bool {
        &&& 1 <= self.width
        &&& 1 <= self.height
        &&& self.cells@.len() == self.width * self.height
        &&& self.width * self.height <= isize::MAX
    }

    /// A fresh, all-empty grid.
    pub fn new(height: u32, width: u32) -> (g: CellRealm)
        requires
            1 <= height,
            1 <= width,
            height * width <= isize::MAX,
        ensures
            g.wf(),
            g.width == width,
            g.height == height,
            forall|j: int| 0 <= j < g.cells@.len() ==> g.cells@[j] == Cell::EMPTY,
    {
        let len: usize = (height as usize) * (width as usize);
        let cells: Vec<Cell> = vec![Cell::EMPTY; len];
        proof {
            vstd::arithmetic::mul::lemma_mul_is_commutative(height as int, width as int);
        }
        CellRealm { height, width, cells }
    }

    fn cidx(&self, x: usize, y: usize) -> (r: usize)
        requires
            self.wf(),
            x < self.width,
            y < self.height,
        ensures
            r == row_major(self.width as int, x as int, y as int),
            r < self.cells@.len(),
    {
        let glen: usize = self.cells.len();
        proof {
            assert(glen == self.cells@.len());
            lemma_row_major_bound(self.width as int, self.height as int, x as int, y as int);
            vstd::arithmetic::mul::lemma_mul_is_commutative(
                self.width as int,
                self.height as int,
            );
        }
        y * (self.width as usize) + x
    }

    /// Row-major index of an in-bounds position.
    pub fn get_idx(&self, pos: (isize, isize)) -> (r: usize)
        requires
            self.wf(),
            0 <= pos.0 < self.width,
            0 <= pos.1 < self.height,
        ensures
            r == row_major(self.width as int, pos.0 as int, pos.1 as int),
            r < self.cells@.len(),
    {
        self.cidx(pos.0 as usize, pos.1 as usize)
    }

    /// The position of a row-major index.
    pub fn get_pos(&self, idx: isize) -> (r: (isize, isize))
        requires
            self.wf(),
            0 <= idx < self.cells@.len(),
        ensures
            r.0 == (idx as int) % (self.width as int),
            r.1 == (idx as int) / (self.width as int),
            0 <= r.0 < self.width,
            0 <= r.1 < self.height,
    {
        proof {
            assert(self.width <= self.width * self.height) by (nonlinear_arith)
                requires
                    1 <= self.height,
                    0 <= self.width,
            ;
        }
        let w: isize = self.width as isize;
        proof {
            vstd::arithmetic::div_mod::lemma_mod_bound(idx as int, self.width as int);
            vstd::arithmetic::div_mod::lemma_div_pos_is_pos(idx as int, self.width as int);
            vstd::arithmetic::div_mod::lemma_fundamental_div_mod(idx as int, self.width as int);
            assert((idx as int) / (self.width as int) < (self.height as int)) by (nonlinear_arith)
                requires
                    1 <= self.width,
                    0 <= idx,
                    idx < self.width * self.height,
                    (self.width as int) * ((idx as int) / (self.width as int)) + (idx as int) % (
                    self.width as int) == idx,
                    0 <= (idx as int) % (self.width as int) < self.width,
            ;
        }
        (idx % w, idx / w)
    }

    /// Whether a position lies on the grid.
    pub fn is_valid_pos(&self, x: isize, y: isize) -> (r: bool)
        requires
            self.wf(),
        ensures
            r == (0 <= x < self.width && 0 <= y < self.height),
    {
        x >= 0 && y >= 0 && (x as i64) < (self.width as i64) && (y as i64) < (self.height as i64)
    }

    /// Write one cell.
    pub fn set_pos(&mut self, pos: (isize, isize), cell: Cell)
        requires
            old(self).wf(),
            0 <= pos.0 < old(self).width,
            0 <= pos.1 < old(self).height,
        ensures
            final(self).wf(),
            final(self).width == old(self).width,
            final(self).height == old(self).height,
            final(self).cells@ == old(self).cells@.update(
                row_major(old(self).width as int, pos.0 as int, pos.1 as int),
                cell,
            ),
    {
        let idx: usize = self.get_idx(pos);
        self.cells.set(idx, cell);
    }

    /// Draw a Bresenham line from `pos1` toward `pos2` (the end point
    /// excluded, as in the walk itself).
    pub fn set_line(&mut self, pos1: (isize, isize), pos2: (isize, isize), cell: Cell)
        requires
            old(self).wf(),
            0 <= pos1.0 < old(self).width,
            0 <= pos1.1 < old(self).height,
            0 <= pos2.0 < old(self).width,
            0 <= pos2.1 < old(self).height,
            pos1.0 <= 500000000 && pos1.1 <= 500000000,
            pos2.0 <= 500000000 && pos2.1 <= 500000000,
        ensures
            final(self).wf(),
            final(self).width == old(self).width,
            final(self).height == old(self).height,
            final(self).cells@ == crate::bresenham::line_overwrite(
                old(self).cells@,
                old(self).width as int,
                crate::bresenham::line_points_spec(
                    pos1.0 as int,
                    pos1.1 as int,
                    pos2.0 as int,
                    pos2.1 as int,
                ),
                cell,
            ),
    {
        let ghost g0 = self.cells@;
        let ghost wi = self.width as int;
        let pts: Vec<(isize, isize)> = crate::bresenham::line_points(pos1, pos2);
        let ghost spts = crate::bresenham::line_points_spec(
            pos1.0 as int,
            pos1.1 as int,
            pos2.0 as int,
            pos2.1 as int,
        );
        let n: usize = pts.len();
        let mut k: usize = 0;
        while k < n
            invariant
                self.wf(),
                self.width == old(self).width,
                self.height == old(self).height,
                wi == self.width,
                g0.len() == self.cells@.len(),
                0 <= pos1.0 < self.width && 0 <= pos1.1 < self.height,
                0 <= pos2.0 < self.width && 0 <= pos2.1 < self.height,
                n == pts@.len(),
                k <= n,
                crate::bresenham::points_view(pts@) == spts,
                forall|i: int|
                    0 <= i < pts@.len() ==> crate::bresenham::in_box(
                        #[trigger] pts@[i],
                        pos1.0,
                        pos1.1,
                        pos2.0,
                        pos2.1,
                    ),
                self.cells@ == crate::bresenham::line_overwrite(
                    g0,
                    wi,
                    spts.take(k as int),
                    cell,
                ),
            decreases n - k,
        {
            let p: (isize, isize) = pts[k];
            proof {
                assert(crate::bresenham::in_box(p, pos1.0, pos1.1, pos2.0, pos2.1));
                assert(spts[k as int] == (p.0 as int, p.1 as int));
            }
            let ghost prev = self.cells@;
            self.set_pos(p, cell);
            proof {
                let idx = row_major(wi, p.0 as int, p.1 as int);
                lemma_row_major_bound(wi, self.height as int, p.0 as int, p.1 as int);
                vstd::arithmetic::mul::lemma_mul_is_commutative(wi, self.height as int);
                assert(0 <= idx < g0.len());
                assert(self.cells@ == prev.update(idx, cell));
                assert forall|j: int|
                    0 <= j < g0.len() implies crate::bresenham::line_overwrite(
                    g0,
                    wi,
                    spts.take(k + 1),
                    cell,
                )[j] == self.cells@[j] by {
                    crate::bresenham::lemma_line_covers_extend(spts, wi, k as int, j);
                    if j != idx {
                        assert(self.cells@[j] == prev[j]);
                    }
                }
                assert(self.cells@ =~= crate::bresenham::line_overwrite(
                    g0,
                    wi,
                    spts.take(k + 1),
                    cell,
                ));
            }
            k = k + 1;
        }
        proof {
            assert(spts.take(spts.len() as int) =~= spts);
        }
    }

    /// Paint every grid cell within distance `radius` of `center`;
    /// positions of the disc that fall off the grid are skipped.
    pub fn set_circle(&mut self, center: (isize, isize), radius: isize, cell: Cell)
        requires
            old(self).wf(),
            0 <= radius <= 500000000,
            -500000000 <= center.0 <= 500000000,
            -500000000 <= center.1 <= 500000000,
        ensures
            final(self).wf(),
            final(self).width == old(self).width,
            final(self).height == old(self).height,
            final(self).cells@ == disc_overwrite(
                old(self).cells@,
                old(self).width as int,
                center.0 as int,
                center.1 as int,
                radius as int,
                cell,
            ),
    {
        let ghost g0 = self.cells@;
        let ghost wi = self.width as int;
        let cx: i64 = center.0 as i64;
        let cy: i64 = center.1 as i64;
        let r: i64 = radius as i64;
        let w64: i64 = self.width as i64;
        let h64: i64 = self.height as i64;
        let mut y: i64 = cy - r;
        proof {
            assert forall|j: int|
                0 <= j < self.cells@.len() implies self.cells@[j] == (if in_disc(
                cx as int,
                cy as int,
                r as int,
                j % wi,
                j / wi,
            ) && j / wi < y {
                cell
            } else {
                g0[j]
            }) by {
                if in_disc(cx as int, cy as int, r as int, j % wi, j / wi) {
                    lemma_disc_bounds(cx as int, cy as int, r as int, j % wi, j / wi);
                }
            }
        }
        while y <= cy + r
            invariant
                self.wf(),
                self.width == old(self).width,
                self.height == old(self).height,
                wi == self.width,
                w64 == self.width,
                h64 == self.height,
                g0.len() == self.cells@.len(),
                cx == center.0 && cy == center.1 && r == radius,
                0 <= r <= 500000000,
                -500000000 <= cx <= 500000000,
                -500000000 <= cy <= 500000000,
                cy - r <= y <= cy + r + 1,
                forall|j: int|
                    0 <= j < self.cells@.len() ==> self.cells@[j] == (if in_disc(
                        cx as int,
                        cy as int,
                        r as int,
                        j % wi,
                        j / wi,
                    ) && j / wi < y {
                        cell
                    } else {
                        g0[j]
                    }),
            decreases cy + r + 1 - y,
        {
            let mut x: i64 = cx - r;
            proof {
                assert forall|j: int|
                    0 <= j < self.cells@.len() implies self.cells@[j] == (if in_disc(
                    cx as int,
                    cy as int,
                    r as int,
                    j % wi,
                    j / wi,
                ) && (j / wi < y || (j / wi == y && j % wi < x)) {
                    cell
                } else {
                    g0[j]
                }) by {
                    if in_disc(cx as int, cy as int, r as int, j % wi, j / wi) {
                        lemma_disc_bounds(cx as int, cy as int, r as int, j % wi, j / wi);
                    }
                }
            }
            while x <= cx + r
                invariant
                    self.wf(),
                    self.width == old(self).width,
                    self.height == old(self).height,
                    wi == self.width,
                    w64 == self.width,
                    h64 == self.height,
                    g0.len() == self.cells@.len(),
                    cx == center.0 && cy == center.1 && r == radius,
                    0 <= r <= 500000000,
                    -500000000 <= cx <= 500000000,
                    -500000000 <= cy <= 500000000,
                    cy - r <= y <= cy + r,
                    cx - r <= x <= cx + r + 1,
                    forall|j: int|
                        0 <= j < self.cells@.len() ==> self.cells@[j] == (if in_disc(
                            cx as int,
                            cy as int,
                            r as int,
                            j % wi,
                            j / wi,
                        ) && (j / wi < y || (j / wi == y && j % wi < x)) {
                            cell
                        } else {
                            g0[j]
                        }),
                decreases cx + r + 1 - x,
            {
                let dx: i64 = x - cx;
                let dy: i64 = y - cy;
                let ghost prev = self.cells@;
                proof {
                    assert(0 <= dx * dx <= 260000000000000000 && 0 <= dy * dy
                        <= 260000000000000000 && 0 <= r * r <= 260000000000000000)
                        by (nonlinear_arith)
                        requires
                            -500000001 <= dx <= 500000001,
                            -500000001 <= dy <= 500000001,
                            0 <= r <= 500000000,
                    ;
                }
                let hit: bool = dx * dx + dy * dy <= r * r && x >= 0 && y >= 0 && x < w64 && y
                    < h64;
                if hit {
                    self.set_pos((x as isize, y as isize), cell);
                }
                proof {
                    if hit {
                        let idx = row_major(wi, x as int, y as int);
                        lemma_row_major_inverse(wi, x as int, y as int);
                        lemma_row_major_bound(wi, self.height as int, x as int, y as int);
                        vstd::arithmetic::mul::lemma_mul_is_commutative(wi, self.height as int);
                        assert(self.cells@ == prev.update(idx, cell));
                    }
                    assert forall|j: int|
                        0 <= j < self.cells@.len() implies self.cells@[j] == (if in_disc(
                        cx as int,
                        cy as int,
                        r as int,
                        j % wi,
                        j / wi,
                    ) && (j / wi < y || (j / wi == y && j % wi < x + 1)) {
                        cell
                    } else {
                        g0[j]
                    }) by {
                        vstd::arithmetic::div_mod::lemma_fundamental_div_mod(j, wi);
                        vstd::arithmetic::div_mod::lemma_mod_bound(j, wi);
                        vstd::arithmetic::div_mod::lemma_div_pos_is_pos(j, wi);
                        vstd::arithmetic::mul::lemma_mul_is_commutative(wi, j / wi);
                        assert((j / wi) < self.height) by (nonlinear_arith)
                            requires
                                1 <= wi,
                                0 <= j,
                                j < wi * (self.height as int),
                                wi * (j / wi) + j % wi == j,
                                0 <= j % wi < wi,
                        ;
                        if j / wi == y && j % wi == x {
                            // This is exactly the visited position.
                            if in_disc(cx as int, cy as int, r as int, j % wi, j / wi) {
                                assert(hit);
                                assert(j == row_major(wi, x as int, y as int));
                                assert(self.cells@[j] == cell);
                            } else {
                                if hit {
                                    assert(false);
                                }
                                assert(self.cells@[j] == prev[j]);
                            }
                        } else {
                            if hit {
                                lemma_row_major_inverse(wi, x as int, y as int);
                                assert(j != row_major(wi, x as int, y as int));
                                assert(self.cells@[j] == prev[j]);
                            } else {
                                assert(self.cells@[j] == prev[j]);
                            }
                        }
                    }
                }
                x = x + 1;
            }
            proof {
                assert forall|j: int|
                    0 <= j < self.cells@.len() implies self.cells@[j] == (if in_disc(
                    cx as int,
                    cy as int,
                    r as int,
                    j % wi,
                    j / wi,
                ) && j / wi < y + 1 {
                    cell
                } else {
                    g0[j]
                }) by {
                    if in_disc(cx as int, cy as int, r as int, j % wi, j / wi) {
                        lemma_disc_bounds(cx as int, cy as int, r as int, j % wi, j / wi);
                    }
                }
            }
            y = y + 1;
        }
        proof {
            assert forall|j: int|
                0 <= j < self.cells@.len() implies self.cells@[j] == (if in_disc(
                cx as int,
                cy as int,
                r as int,
                j % wi,
                j / wi,
            ) {
                cell
            } else {
                g0[j]
            }) by {
                if in_disc(cx as int, cy as int, r as int, j % wi, j / wi) {
                    lemma_disc_bounds(cx as int, cy as int, r as int, j % wi, j / wi);
                }
            }
            assert(self.cells@ =~= disc_overwrite(g0, wi, cx as int, cy as int, r as int, cell));
        }
    }

    /// Kill every cell.
    pub fn clear_grid(&mut self)
        requires
            old(self).wf(),
        ensures
            final(self).wf(),
            final(self).width == old(self).width,
            final(self).height == old(self).height,
            final(self).cells@ == crate::grid::filled(old(self).cells@.len(), Cell::EMPTY),
    {
        let len: usize = self.cells.len();
        self.cells = vec![Cell::EMPTY; len];
        proof {
            assert(self.cells@ =~= crate::grid::filled(old(self).cells@.len(), Cell::EMPTY));
        }
    }

    /// How many cells of kind `k` the grid holds.
    pub fn count_kind(&self, k: Cell) -> (n: usize)
        requires
            self.wf(),
        ensures
            n == count_cells(self.cells@, k),
    {
        let len: usize = self.cells.len();
        let mut n: usize = 0;
        let mut i: usize = 0;
        while i < len
            invariant
                i <= len,
                len == self.cells@.len(),
                n == count_cells(self.cells@.take(i as int), k),
                n <= i,
            decreases len - i,
        {
            proof {
                lemma_count_take_step(self.cells@, i as int, k);
            }
            if self.cells[i] == k {
                n = n + 1;
            }
            i = i + 1;
        }
        proof {
            assert(self.cells@.take(len as int) =~= self.cells@);
        }
        n
    }

    /// The count of every kind, for telemetry.
    pub fn get_cell_count(&self) -> (counts: Vec<(Cell, usize)>)
        requires
            self.wf(),
        ensures
            counts@.len() == 4,
            counts@[0] == (Cell::EMPTY, count_cells(self.cells@, Cell::EMPTY) as usize),
            counts@[1] == (Cell::SAND, count_cells(self.cells@, Cell::SAND) as usize),
            counts@[2] == (Cell::WATER, count_cells(self.cells@, Cell::WATER) as usize),
            counts@[3] == (Cell::SOLID, count_cells(self.cells@, Cell::SOLID) as usize),
    {
        let mut counts: Vec<(Cell, usize)> = Vec::new();
        counts.push((Cell::EMPTY, self.count_kind(Cell::EMPTY)));
        counts.push((Cell::SAND, self.count_kind(Cell::SAND)));
        counts.push((Cell::WATER, self.count_kind(Cell::WATER)));
        counts.push((Cell::SOLID, self.count_kind(Cell::SOLID)));
        counts
    }

    /// Swap the cells at two indices; every kind keeps its count.
    fn swap_cells(&mut self, i: usize, j: usize)
        requires
            old(self).wf(),
            i < old(self).cells@.len(),
            j < old(self).cells@.len(),
        ensures
            final(self).wf(),
            final(self).width == old(self).width,
            final(self).height == old(self).height,
            final(self).cells@ == old(self).cells@.update(i as int, old(self).cells@[j as int]).update(
                j as int,
                old(self).cells@[i as int],
            ),
            forall|k: Cell|
                count_cells(final(self).cells@, k) == count_cells(old(self).cells@, k),
    {
        let a: Cell = self.cells[i];
        let b: Cell = self.cells[j];
        self.cells.set(i, b);
        self.cells.set(j, a);
        proof {
            assert forall|k: Cell|
                count_cells(self.cells@, k) == count_cells(old(self).cells@, k) by {
                lemma_count_swap(old(self).cells@, i as int, j as int, k);
            }
        }
    }

    /// Move the cell at `i` to `d` (a swap), claiming both slots for the
    /// rest of the tick.
    fn claim_swap(&mut self, claimed: &mut Vec<bool>, i: usize, d: usize)
        requires
            old(self).wf(),
            i < old(self).cells@.len(),
            d < old(self).cells@.len(),
            old(claimed)@.len() == old(self).cells@.len(),
            old(self).cells@[i as int] != Cell::SOLID,
            old(self).cells@[d as int] != Cell::SOLID,
            old(self).cells@[i as int] != old(self).cells@[d as int],
        ensures
            final(self).wf(),
            final(self).width == old(self).width,
            final(self).height == old(self).height,
            final(claimed)@.len() == old(claimed)@.len(),
            final(claimed)@ == old(claimed)@.update(i as int, true).update(d as int, true),
            final(self).cells@ == old(self).cells@.update(
                i as int,
                old(self).cells@[d as int],
            ).update(d as int, old(self).cells@[i as int]),
            forall|k: Cell|
                count_cells(final(self).cells@, k) == count_cells(old(self).cells@, k),
            forall|j: int|
                0 <= j < final(self).cells@.len() ==> ((old(self).cells@[j] == Cell::SOLID) <==> (
                final(self).cells@[j] == Cell::SOLID)),
    {
        self.swap_cells(i, d);
        claimed.set(i, true);
        claimed.set(d, true);
    }

    /// Decide and perform the move of the cell at `(x, y)` against the
    /// current buffer and the tick's claim bitmap. Every outcome is either
    /// no change or one swap, so counts are preserved and solid cells
    /// stay exactly where they are.
    fn next_state_cell(&mut self, claimed: &mut Vec<bool>, x: isize, y: isize)
        requires
            old(self).wf(),
            0 <= x < old(self).width,
            0 <= y < old(self).height,
            old(claimed)@.len() == old(self).cells@.len(),
        ensures
            final(self).wf(),
            final(self).width == old(self).width,
            final(self).height == old(self).height,
            final(claimed)@.len() == old(claimed)@.len(),
            forall|k: Cell|
                count_cells(final(self).cells@, k) == count_cells(old(self).cells@, k),
            forall|j: int|
                0 <= j < final(self).cells@.len() ==> ((old(self).cells@[j] == Cell::SOLID) <==> (
                final(self).cells@[j] == Cell::SOLID)),
            forall|j: int| 0 <= j < old(claimed)@.len() && old(claimed)@[j] ==> final(claimed)@[j],
            forall|j: int|
                0 <= j < final(self).cells@.len() && old(claimed)@[j] ==> final(self).cells@[j]
                    == old(self).cells@[j],
            forall|j: int|
                0 <= j < final(self).cells@.len() && !final(claimed)@[j] ==> final(self).cells@[j]
                    == old(self).cells@[j],
            forall|j: int|
                0 <= j < final(self).cells@.len() && final(claimed)@[j] && !old(claimed)@[j]
                    ==> final(self).cells@[j] != old(self).cells@[j],
            ({
                let i = row_major(old(self).width as int, x as int, y as int);
                let dd = row_major(old(self).width as int, x as int, y + 1);
                let falls = y + 1 < old(self).height && !old(claimed)@[i] && !old(claimed)@[dd]
                    && (old(self).cells@[i] == Cell::SAND || old(self).cells@[i] == Cell::WATER)
                    && old(self).cells@[dd] == Cell::EMPTY;
                falls ==> final(self).cells@[dd] == old(self).cells@[i]
            }),
    {
        let xu: usize = x as usize;
        let yu: usize = y as usize;
        let w: usize = self.width as usize;
        let h: usize = self.height as usize;
        let i: usize = self.cidx(xu, yu);
        if claimed[i] {
            return ;
        }
        let c: Cell = self.cells[i];
        if c == Cell::EMPTY || c == Cell::SOLID {
            return ;
        }
        if yu + 1 >= h {
            // The bottom row: every destination is off-grid, so the cell
            // stays.
            return ;
        }
        if c == Cell::SAND {
            // Straight down.
            let d: usize = self.cidx(xu, yu + 1);
            if claimed[d] {
                return ;
            }
            let dc: Cell = self.cells[d];
            if dc == Cell::EMPTY || dc == Cell::WATER {
                self.claim_swap(claimed, i, d);
                return ;
            }
            // Down-left.
            if xu >= 1 {
                let d2: usize = self.cidx(xu - 1, yu + 1);
                if claimed[d2] {
                    return ;
                }
                let dc2: Cell = self.cells[d2];
                if dc2 == Cell::EMPTY || dc2 == Cell::WATER {
                    self.claim_swap(claimed, i, d2);
                    return ;
                }
            }
            // Down-right.
            if xu + 1 < w {
                let d3: usize = self.cidx(xu + 1, yu + 1);
                if claimed[d3] {
                    return ;
                }
                let dc3: Cell = self.cells[d3];
                if dc3 == Cell::EMPTY || dc3 == Cell::WATER {
                    self.claim_swap(claimed, i, d3);
                    return ;
                }
            }
            return ;
        }
        // Water: only empty destinations, falling first, then spreading.
        let d: usize = self.cidx(xu, yu + 1);
        if !claimed[d] && self.cells[d] == Cell::EMPTY {
            self.claim_swap(claimed, i, d);
            return ;
        }
        if xu >= 1 {
            let d2: usize = self.cidx(xu - 1, yu + 1);
            if !claimed[d2] && self.cells[d2] == Cell::EMPTY {
                self.claim_swap(claimed, i, d2);
                return ;
            }
        }
        if xu + 1 < w {
            let d3: usize = self.cidx(xu + 1, yu + 1);
            if !claimed[d3] && self.cells[d3] == Cell::EMPTY {
                self.claim_swap(claimed, i, d3);
                return ;
            }
        }
        let left_ok: bool = if xu >= 1 {
            let dl: usize = self.cidx(xu - 1, yu);
            !claimed[dl] && self.cells[dl] == Cell::EMPTY
        } else {
            false
        };
        let right_ok: bool = if xu + 1 < w {
            let dr: usize = self.cidx(xu + 1, yu);
            !claimed[dr] && self.cells[dr] == Cell::EMPTY
        } else {
            false
        };
        if left_ok && right_ok {
            // Both sides are open: pick one uniformly at random.
            if random_u32() % 2 == 0 {
                let dl: usize = self.cidx(xu - 1, yu);
                self.claim_swap(claimed, i, dl);
            } else {
                let dr: usize = self.cidx(xu + 1, yu);
                self.claim_swap(claimed, i, dr);
            }
        } else if left_ok {
            let dl: usize = self.cidx(xu - 1, yu);
            self.claim_swap(claimed, i, dl);
        } else if right_ok {
            let dr: usize = self.cidx(xu + 1, yu);
            self.claim_swap(claimed, i, dr);
        }
    }

    /// One tick: scan rows bottom-up, left to right, moving each unclaimed
    /// cell once. The count of every kind is preserved, and solid cells do
    /// not move.
    pub fn next_state(&mut self)
        requires
            old(self).wf(),
        ensures
            final(self).wf(),
            final(self).width == old(self).width,
            final(self).height == old(self).height,
            final(self).cells@.len() == old(self).cells@.len(),
            forall|k: Cell|
                count_cells(final(self).cells@, k) == count_cells(old(self).cells@, k),
            forall|j: int|
                0 <= j < final(self).cells@.len() ==> ((old(self).cells@[j] == Cell::SOLID) <==> (
                final(self).cells@[j] == Cell::SOLID)),
            (exists|px: int, py: int|
                {
                    &&& 0 <= px < old(self).width
                    &&& 0 <= py && py + 1 < old(self).height
                    &&& (old(self).cells@[row_major(old(self).width as int, px, py)] == Cell::SAND
                        || old(self).cells@[row_major(old(self).width as int, px, py)]
                        == Cell::WATER)
                    &&& #[trigger] old(self).cells@[row_major(old(self).width as int, px, py + 1)]
                        == Cell::EMPTY
                }) ==> final(self).cells@ != old(self).cells@,
    {
        let ghost g0 = self.cells@;
        let len: usize = self.cells.len();
        let mut claimed: Vec<bool> = vec![false; len];
        let w: usize = self.width as usize;
        let h: usize = self.height as usize;
        proof {
            assert(self.width <= self.width * self.height && self.height <= self.width
                * self.height) by (nonlinear_arith)
                requires
                    1 <= self.height,
                    1 <= self.width,
            ;
        }
        let mut yy: usize = h;
        while yy > 0
            invariant
                yy <= h,
                self.wf(),
                self.width == old(self).width,
                self.height == old(self).height,
                w == self.width,
                h == self.height,
                self.width <= isize::MAX,
                self.height <= isize::MAX,
                claimed@.len() == self.cells@.len(),
                g0.len() == self.cells@.len(),
                forall|k: Cell| count_cells(self.cells@, k) == count_cells(g0, k),
                forall|j: int|
                    0 <= j < self.cells@.len() ==> ((g0[j] == Cell::SOLID) <==> (self.cells@[j]
                        == Cell::SOLID)),
                forall|j: int|
                    0 <= j < self.cells@.len() && !claimed@[j] ==> self.cells@[j] == g0[j],
                forall|j: int|
                    0 <= j < self.cells@.len() && claimed@[j] ==> self.cells@[j] != g0[j],
                forall|px: int, py: int|
                    (0 <= px < w && yy <= py && py + 1 < h && (g0[row_major(w as int, px, py)]
                        == Cell::SAND || g0[row_major(w as int, px, py)] == Cell::WATER)
                        && #[trigger] g0[row_major(w as int, px, py + 1)] == Cell::EMPTY)
                        ==> exists|j: int| 0 <= j < claimed@.len() && claimed@[j],
            decreases yy,
        {
            yy = yy - 1;
            let mut x: usize = 0;
            while x < w
                invariant
                    x <= w,
                    yy < h,
                    self.wf(),
                    self.width == old(self).width,
                    self.height == old(self).height,
                    w == self.width,
                    h == self.height,
                    self.width <= isize::MAX,
                    self.height <= isize::MAX,
                    claimed@.len() == self.cells@.len(),
                    g0.len() == self.cells@.len(),
                    forall|k: Cell| count_cells(self.cells@, k) == count_cells(g0, k),
                    forall|j: int|
                        0 <= j < self.cells@.len() ==> ((g0[j] == Cell::SOLID) <==> (
                        self.cells@[j] == Cell::SOLID)),
                    forall|j: int|
                        0 <= j < self.cells@.len() && !claimed@[j] ==> self.cells@[j] == g0[j],
                    forall|j: int|
                        0 <= j < self.cells@.len() && claimed@[j] ==> self.cells@[j] != g0[j],
                    forall|px: int, py: int|
                        (0 <= px < w && (yy < py || (yy == py && px < x)) && py + 1 < h && (g0[
                        row_major(w as int, px, py)] == Cell::SAND || g0[row_major(w as int, px, py)]
                            == Cell::WATER) && #[trigger] g0[row_major(
                            w as int,
                            px,
                            py + 1,
                        )] == Cell::EMPTY) ==> exists|j: int|
                            0 <= j < claimed@.len() && claimed@[j],
                decreases w - x,
            {
                let ghost cells_pre = self.cells@;
                let ghost claimed_pre = claimed@;
                self.next_state_cell(&mut claimed, x as isize, yy as isize);
                proof {
                    let ghost i0 = row_major(w as int, x as int, yy as int);
                    let ghost dd = row_major(w as int, x as int, yy + 1);
                    assert forall|px: int, py: int|
                        (0 <= px < w && (yy < py || (yy == py && px < x + 1)) && py + 1 < h && (g0[
                        row_major(w as int, px, py)] == Cell::SAND || g0[row_major(w as int, px, py)]
                            == Cell::WATER) && #[trigger] g0[row_major(
                            w as int,
                            px,
                            py + 1,
                        )] == Cell::EMPTY) implies exists|j: int|
                        0 <= j < claimed@.len() && claimed@[j] by {
                        if py == yy && px == x {
                            lemma_row_major_bound(w as int, h as int, px, py);
                            lemma_row_major_bound(w as int, h as int, px, py + 1);
                            vstd::arithmetic::mul::lemma_mul_is_commutative(w as int, h as int);
                            if claimed_pre[i0] || claimed_pre[dd] {
                                assert(claimed@[i0] || claimed@[dd]);
                            } else {
                                assert(cells_pre[i0] == g0[i0] && cells_pre[dd] == Cell::EMPTY);
                                assert(self.cells@[dd] == g0[i0]);
                                assert(claimed@[dd]);
                            }
                        }
                    }
                }
                x = x + 1;
            }
        }
        proof {
            let wi = w as int;
            let hi = h as int;
            if exists|px: int, py: int|
                {
                    &&& 0 <= px < wi
                    &&& 0 <= py && py + 1 < hi
                    &&& (g0[row_major(wi, px, py)] == Cell::SAND || g0[row_major(wi, px, py)]
                        == Cell::WATER)
                    &&& #[trigger] g0[row_major(wi, px, py + 1)] == Cell::EMPTY
                } {
                let (px, py) = choose|px: int, py: int|
                    {
                        &&& 0 <= px < wi
                        &&& 0 <= py && py + 1 < hi
                        &&& (g0[row_major(wi, px, py)] == Cell::SAND || g0[row_major(wi, px, py)]
                            == Cell::WATER)
                        &&& #[trigger] g0[row_major(wi, px, py + 1)] == Cell::EMPTY
                    };
                assert(exists|j: int| 0 <= j < claimed@.len() && claimed@[j]);
                let j = choose|j: int| 0 <= j < claimed@.len() && claimed@[j];
                assert(self.cells@[j] != g0[j]);
                assert(self.cells@ != g0);
            }
        }
    }

    /// One color per cell, row-major.
    pub fn get_color_vec(&mut self) -> (v: Vec<Rgba>)
        requires
            old(self).wf(),
        ensures
            *final(self) == *old(self),
            v@ == cell_colors(old(self).cells@),
    {
        let len: usize = self.cells.len();
        let mut v: Vec<Rgba> = Vec::new();
        let mut i: usize = 0;
        while i < len
            invariant
                i <= len,
                len == self.cells@.len(),
                self.wf(),
                v@.len() == i,
                forall|j: int| 0 <= j < i ==> v@[j] == cell_color(self.cells@[j]),
            decreases len - i,
        {
            let c: Rgba = self.cells[i].get_color();
            v.push(c);
            i = i + 1;
        }
        proof {
            assert(v@ =~= cell_colors(self.cells@));
        }
        v
    }
}

} // verus!
