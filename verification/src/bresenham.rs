//! Bresenham's integer line algorithm, shared by the grid engines' drawing
//! helpers. The walk is specified step by step; a fuel bound equal to the
//! taxicab distance makes termination structural, and guarded steps never
//! overshoot the target, so every visited point stays inside the bounding
//! box of the endpoints. As in the editing helpers this serves, the end
//! point itself is not part of the line.

use vstd::prelude::*;
use crate::grid::row_major;

verus! {

/// One step of the walk: `(x, y, err)` to the next `(x, y, err)`.
pub open spec fn bres_step(
    x: int,
    y: int,
    x2: int,
    y2: int,
    err: int,
    dx: int,
    dy: int,
    sx: int,
    sy: int,
) -> (int, int, int) {
    let e2 = 2 * err;
    let xn = if e2 > -dy && x != x2 {
        x + sx
    } else {
        x
    };
    let err1 = if e2 > -dy && x != x2 {
        err - dy
    } else {
        err
    };
    let yn = if e2 < dx && y != y2 {
        y + sy
    } else {
        y
    };
    let err2 = if e2 < dx && y != y2 {
        err1 + dx
    } else {
        err1
    };
    (xn, yn, err2)
}

/// The points the walk visits before reaching the target (or running out of
/// fuel), the target itself excluded.
pub open spec fn bres_points(
    x: int,
    y: int,
    x2: int,
    y2: int,
    err: int,
    dx: int,
    dy: int,
    sx: int,
    sy: int,
    fuel: nat,
) -> Seq<(int, int)>
    decreases fuel,
{
    if fuel == 0 || (x == x2 && y == y2) {
        Seq::empty()
    } else {
        let next = bres_step(x, y, x2, y2, err, dx, dy, sx, sy);
        seq![(x, y)] + bres_points(next.0, next.1, x2, y2, next.2, dx, dy, sx, sy, (fuel - 1) as nat)
    }
}

pub open spec fn abs_int(a: int) -> int {
    if a < 0 {
        -a
    } else {
        a
    }
}

/// The Bresenham line from `(x1, y1)` toward `(x2, y2)`.
pub open spec fn line_points_spec(x1: int, y1: int, x2: int, y2: int) -> Seq<(int, int)> {
    let dx = abs_int(x2 - x1);
    let dy = abs_int(y2 - y1);
    let sx: int = if x1 < x2 {
        1
    } else {
        -1
    };
    let sy: int = if y1 < y2 {
        1
    } else {
        -1
    };
    bres_points(x1, y1, x2, y2, dx - dy, dx, dy, sx, sy, (dx + dy) as nat)
}

/// Every visited point lies in the closed bounding box of start and target.
pub proof fn lemma_bres_in_rect(
    x: int,
    y: int,
    x2: int,
    y2: int,
    err: int,
    dx: int,
    dy: int,
    sx: int,
    sy: int,
    fuel: nat,
)
    requires
        sx == 1 || sx == -1,
        sy == 1 || sy == -1,
        sx == 1 ==> x <= x2,
        sx == -1 ==> x2 <= x,
        sy == 1 ==> y <= y2,
        sy == -1 ==> y2 <= y,
    ensures
        forall|i: int|
            0 <= i < bres_points(x, y, x2, y2, err, dx, dy, sx, sy, fuel).len() ==> {
                let p = #[trigger] bres_points(x, y, x2, y2, err, dx, dy, sx, sy, fuel)[i];
                &&& (if sx == 1 {
                    x <= p.0 <= x2
                } else {
                    x2 <= p.0 <= x
                })
                &&& (if sy == 1 {
                    y <= p.1 <= y2
                } else {
                    y2 <= p.1 <= y
                })
            },
    decreases fuel,
{
    if fuel == 0 || (x == x2 && y == y2) {
    } else {
        let next = bres_step(x, y, x2, y2, err, dx, dy, sx, sy);
        lemma_bres_in_rect(next.0, next.1, x2, y2, next.2, dx, dy, sx, sy, (fuel - 1) as nat);
        let pts = bres_points(x, y, x2, y2, err, dx, dy, sx, sy, fuel);
        let tail = bres_points(next.0, next.1, x2, y2, next.2, dx, dy, sx, sy, (fuel - 1) as nat);
        assert(pts == seq![(x, y)] + tail);
        assert forall|i: int| 0 <= i < pts.len() implies {
            let p = #[trigger] pts[i];
            &&& (if sx == 1 {
                x <= p.0 <= x2
            } else {
                x2 <= p.0 <= x
            })
            &&& (if sy == 1 {
                y <= p.1 <= y2
            } else {
                y2 <= p.1 <= y
            })
        } by {
            if i == 0 {
                assert(pts[i] == (x, y));
            } else {
                assert(pts[i] == tail[i - 1]);
            }
        }
    }
}

/// Whether some point of `pts` has row-major index `j` in a grid `w` wide.
pub open spec fn line_covers(pts: Seq<(int, int)>, w: int, j: int) -> bool {
    exists|k: int| 0 <= k < pts.len() && row_major(w, pts[k].0, pts[k].1) == j
}

/// The grid after writing `v` at every point of `pts`.
pub open spec fn line_overwrite<T>(g: Seq<T>, w: int, pts: Seq<(int, int)>, v: T) -> Seq<T> {
    Seq::new(
        g.len(),
        |j: int|
            if line_covers(pts, w, j) {
                v
            } else {
                g[j]
            },
    )
}

/// Writing the same line twice is the same as writing it once.
pub proof fn lemma_line_overwrite_idempotent<T>(g: Seq<T>, w: int, pts: Seq<(int, int)>, v: T)
    ensures
        line_overwrite(line_overwrite(g, w, pts, v), w, pts, v) == line_overwrite(g, w, pts, v),
{
    assert(line_overwrite(line_overwrite(g, w, pts, v), w, pts, v) =~= line_overwrite(
        g,
        w,
        pts,
        v,
    ));
}

/// Covering by one more point covers exactly the new point's index as well.
pub proof fn lemma_line_covers_extend(pts: Seq<(int, int)>, w: int, k: int, j: int)
    requires
        0 <= k < pts.len(),
    ensures
        line_covers(pts.take(k + 1), w, j) <==> (line_covers(pts.take(k), w, j) || row_major(
            w,
            pts[k].0,
            pts[k].1,
        ) == j),
{
    let short = pts.take(k);
    let long = pts.take(k + 1);
    if line_covers(long, w, j) {
        let kk = choose|kk: int| 0 <= kk < long.len() && row_major(w, long[kk].0, long[kk].1) == j;
        if kk < k {
            assert(short[kk] == long[kk]);
            assert(line_covers(short, w, j));
        } else {
            assert(long[kk] == pts[k]);
        }
    }
    if line_covers(short, w, j) {
        let kk = choose|kk: int| 0 <= kk < short.len() && row_major(w, short[kk].0, short[kk].1)
            == j;
        assert(long[kk] == short[kk]);
        assert(line_covers(long, w, j));
    }
    if row_major(w, pts[k].0, pts[k].1) == j {
        assert(long[k] == pts[k]);
        assert(line_covers(long, w, j));
    }
}

/// Whether point `p` lies in the closed bounding box of `(x1, y1)` and
/// `(x2, y2)`.
pub open spec fn in_box(p: (isize, isize), x1: isize, y1: isize, x2: isize, y2: isize) -> bool {
    &&& (if x1 <= x2 {
        x1 <= p.0 <= x2
    } else {
        x2 <= p.0 <= x1
    })
    &&& (if y1 <= y2 {
        y1 <= p.1 <= y2
    } else {
        y2 <= p.1 <= y1
    })
}

/// The integer view of a vector of points.
pub open spec fn points_view(s: Seq<(isize, isize)>) -> Seq<(int, int)> {
    Seq::new(s.len(), |i: int| (s[i].0 as int, s[i].1 as int))
}

/// Walk the Bresenham line from `pos1` toward `pos2` and collect the
/// visited points (the target excluded).
pub fn line_points(pos1: (isize, isize), pos2: (isize, isize)) -> (r: Vec<(isize, isize)>)
    requires
        -500000000 <= pos1.0 <= 500000000,
        -500000000 <= pos1.1 <= 500000000,
        -500000000 <= pos2.0 <= 500000000,
        -500000000 <= pos2.1 <= 500000000,
    ensures
        points_view(r@) == line_points_spec(
            pos1.0 as int,
            pos1.1 as int,
            pos2.0 as int,
            pos2.1 as int,
        ),
        forall|i: int| 0 <= i < r@.len() ==> in_box(#[trigger] r@[i], pos1.0, pos1.1, pos2.0, pos2.1),
{
    let (x1, y1) = pos1;
    let (x2, y2) = pos2;
    let dx: i64 = if x2 >= x1 {
        (x2 - x1) as i64
    } else {
        (x1 - x2) as i64
    };
    let dy: i64 = if y2 >= y1 {
        (y2 - y1) as i64
    } else {
        (y1 - y2) as i64
    };
    let sx: isize = if x1 < x2 {
        1
    } else {
        -1
    };
    let sy: isize = if y1 < y2 {
        1
    } else {
        -1
    };
    let mut err: i64 = dx - dy;
    let mut x: isize = x1;
    let mut y: isize = y1;
    let mut fuel: i64 = dx + dy;
    let mut r: Vec<(isize, isize)> = Vec::new();
    let ghost full = line_points_spec(x1 as int, y1 as int, x2 as int, y2 as int);
    proof {
        lemma_bres_in_rect(
            x1 as int,
            y1 as int,
            x2 as int,
            y2 as int,
            dx - dy,
            dx as int,
            dy as int,
            sx as int,
            sy as int,
            (dx + dy) as nat,
        );
    }
    while fuel > 0 && !(x == x2 && y == y2)
        invariant
            sx == 1 || sx == -1,
            sy == 1 || sy == -1,
            sx == 1 ==> x1 <= x <= x2,
            sx == -1 ==> x2 <= x <= x1,
            sy == 1 ==> y1 <= y <= y2,
            sy == -1 ==> y2 <= y <= y1,
            dx == abs_int(x2 - x1),
            dy == abs_int(y2 - y1),
            -500000000 <= x1 <= 500000000,
            -500000000 <= y1 <= 500000000,
            -500000000 <= x2 <= 500000000,
            -500000000 <= y2 <= 500000000,
            0 <= fuel <= dx + dy,
            abs_int(err as int) <= (dx + dy) * (1 + dx + dy - fuel),
            full == points_view(r@) + bres_points(
                x as int,
                y as int,
                x2 as int,
                y2 as int,
                err as int,
                dx as int,
                dy as int,
                sx as int,
                sy as int,
                fuel as nat,
            ),
            forall|i: int| 0 <= i < r@.len() ==> in_box(#[trigger] r@[i], x1, y1, x2, y2),
        decreases fuel,
    {
        proof {
            assert((dx + dy) * (1 + dx + dy - fuel) <= 4100000000000000000 && 0 <= (dx + dy) * (1
                + dx + dy - fuel) && (dx + dy) * (1 + dx + dy - fuel) + (dx + dy) <= (dx + dy) * (1
                + dx + dy - (fuel - 1)) && (dx + dy) * (1 + dx + dy - (fuel - 1))
                <= 4100000000000000000) by (nonlinear_arith)
                requires
                    0 <= dx + dy <= 2000000000,
                    0 < fuel <= dx + dy,
            ;
        }
        let ghost prex = x;
        let ghost prey = y;
        let ghost r0 = r@;
        r.push((x, y));
        let e2: i64 = 2 * err;
        let ghost pre = (x as int, y as int, err as int);
        if e2 > -dy && x != x2 {
            err = err - dy;
            x = x + sx;
        }
        if e2 < dx && y != y2 {
            err = err + dx;
            y = y + sy;
        }
        fuel = fuel - 1;
        proof {
            let step = bres_step(
                pre.0,
                pre.1,
                x2 as int,
                y2 as int,
                pre.2,
                dx as int,
                dy as int,
                sx as int,
                sy as int,
            );
            assert(step == (x as int, y as int, err as int));
            assert(points_view(r@) =~= points_view(r@.take(r@.len() - 1)) + seq![
                (pre.0, pre.1),
            ]);
            assert(full == points_view(r@) + bres_points(
                x as int,
                y as int,
                x2 as int,
                y2 as int,
                err as int,
                dx as int,
                dy as int,
                sx as int,
                sy as int,
                fuel as nat,
            )) by {
                assert(points_view(r@.take(r@.len() - 1)) + (seq![(pre.0, pre.1)] + bres_points(
                    x as int,
                    y as int,
                    x2 as int,
                    y2 as int,
                    err as int,
                    dx as int,
                    dy as int,
                    sx as int,
                    sy as int,
                    fuel as nat,
                )) =~= points_view(r@) + bres_points(
                    x as int,
                    y as int,
                    x2 as int,
                    y2 as int,
                    err as int,
                    dx as int,
                    dy as int,
                    sx as int,
                    sy as int,
                    fuel as nat,
                ));
            }
            assert forall|i: int| 0 <= i < r@.len() implies in_box(
                #[trigger] r@[i],
                x1,
                y1,
                x2,
                y2,
            ) by {
                if i == r@.len() - 1 {
                    assert(r@[i] == (prex, prey));
                } else {
                    assert(r@[i] == r0[i]);
                }
            }
        }
    }
    proof {
        assert(bres_points(
            x as int,
            y as int,
            x2 as int,
            y2 as int,
            err as int,
            dx as int,
            dy as int,
            sx as int,
            sy as int,
            fuel as nat,
        ) =~= Seq::<(int, int)>::empty());
        assert(full =~= points_view(r@));
    }
    r
}

} // verus!
