//! Axis-aligned camera window over a logical pixel grid, with clamped panning
//! and aspect-preserving zoom. All arithmetic is integral: the aspect ratio is
//! kept as the rational `aspect_w / aspect_h`, and zoom factors are rationals
//! `num / den`.

use vstd::prelude::*;

verus! {

pub enum Direction {
    Up,
    Down,
    Left,
    Right,
}

#[derive(Clone, Copy, Debug)]
pub struct Camera {
    pub x: u32,
    pub y: u32,
    pub width: u32,
    pub height: u32,
    pub max_width: u32,
    pub max_height: u32,
    pub min_width: u32,
    pub min_height: u32,
    pub aspect_w: u32,
    pub aspect_h: u32,
}

/// Clamp `v` into `[lo, hi]` (mathematical; callers establish `lo <= hi`).
pub open spec fn clamp_int(v: int, lo: int, hi: int) -> int {
    if v < lo {
        lo
    } else if v > hi {
        hi
    } else {
        v
    }
}

/// Round `a / b` to the nearest integer, halves up (`b > 0`).
pub open spec fn round_div(a: int, b: int) -> int {
    (2 * a + b) / (2 * b)
}

/// Rounding division on `u128` words, bounded so that the scaled numerator
/// cannot overflow.
fn rdiv_u128(a: u128, b: u128) -> (r: u128)
    requires
        1 <= b,
        b <= u32::MAX,
        a <= 1000000000000000000000000000000u128,
    ensures
        r == round_div(a as int, b as int),
        r <= a + b as int / 2,
{
    proof {
        // (2a + b) / (2b) <= (2a + b) / 2 == a + b / 2.
        vstd::arithmetic::div_mod::lemma_div_is_ordered_by_denominator(
            2 * a + b,
            2,
            2 * b as int,
        );
        vstd::arithmetic::div_mod::lemma_fundamental_div_mod(b as int, 2);
        vstd::arithmetic::div_mod::lemma_fundamental_div_mod_converse_div(
            2 * a + b,
            2,
            a + b as int / 2,
            b as int % 2,
        );
    }
    (2 * a + b) / (2 * b)
}

impl Camera {
    /// The camera invariant: dimensions sit between their minima and maxima
    /// and the origin keeps the whole rectangle inside the logical grid.
    pub open spec fn wf(&self) -> bool {
        &&& 1 <= self.min_width <= self.width <= self.max_width
        &&& 1 <= self.min_height <= self.height <= self.max_height
        &&& self.x + self.width <= self.max_width
        &&& self.y + self.height <= self.max_height
        &&& 1 <= self.aspect_w
        &&& 1 <= self.aspect_h
    }

    /// A camera over a `max_width x max_height` grid, showing the
    /// `width x height` rectangle at `(x, y)`. The aspect ratio is fixed to
    /// `width / height`; the minimal height is 10 and the minimal width is
    /// scaled by the aspect ratio.
    pub fn new(x: u32, y: u32, height: u32, width: u32, max_height: u32, max_width: u32) -> (cam:
        Camera)
        requires
            10 <= height,
            height <= 10 * width,
            width <= max_width,
            height <= max_height,
            x + width <= max_width,
            y + height <= max_height,
        ensures
            cam.wf(),
            cam.x == x,
            cam.y == y,
            cam.width == width,
            cam.height == height,
            cam.max_width == max_width,
            cam.max_height == max_height,
            cam.min_height == 10,
            cam.min_width == 10 * width as int / height as int,
            cam.aspect_w == width && cam.aspect_h == height,
    {
        let min_w64: u64 = 10u64 * (width as u64) / (height as u64);
        proof {
            assert(10 * width as int / height as int >= 1) by {
                assert(10 * width as int >= height as int);
                assert(10 * width as int / height as int >= height as int / height as int) by {
                    vstd::arithmetic::div_mod::lemma_div_is_ordered(
                        height as int,
                        10 * width as int,
                        height as int,
                    );
                };
                assert(height as int / height as int == 1) by {
                    vstd::arithmetic::div_mod::lemma_div_by_self(height as int);
                };
            };
            assert(10 * width as int / height as int <= width as int) by {
                assert(10 * width as int <= width as int * height as int) by {
                    vstd::arithmetic::mul::lemma_mul_inequality(
                        10,
                        height as int,
                        width as int,
                    );
                    vstd::arithmetic::mul::lemma_mul_is_commutative(height as int, width as int);
                };
                vstd::arithmetic::div_mod::lemma_div_multiples_vanish_quotient(
                    height as int,
                    10 * width as int,
                    width as int,
                );
                assert(10 * width as int / height as int <= width as int * height as int
                    / height as int) by {
                    vstd::arithmetic::div_mod::lemma_div_is_ordered(
                        10 * width as int,
                        width as int * height as int,
                        height as int,
                    );
                };
                assert(width as int * height as int / height as int == width as int) by {
                    vstd::arithmetic::div_mod::lemma_div_multiples_vanish(
                        width as int,
                        height as int,
                    );
                    vstd::arithmetic::mul::lemma_mul_is_commutative(width as int, height as int);
                };
            };
        }
        Camera {
            x,
            y,
            width,
            height,
            max_width,
            max_height,
            min_width: min_w64 as u32,
            min_height: 10,
            aspect_w: width,
            aspect_h: height,
        }
    }

    /// A camera with explicit minimal dimensions; the aspect ratio is fixed
    /// to `width / height`.
    pub fn new_with_limits(
        x: u32,
        y: u32,
        height: u32,
        width: u32,
        max_height: u32,
        max_width: u32,
        min_height: u32,
        min_width: u32,
    ) -> (cam: Camera)
        requires
            1 <= min_width <= width <= max_width,
            1 <= min_height <= height <= max_height,
            x + width <= max_width,
            y + height <= max_height,
        ensures
            cam.wf(),
            cam.x == x,
            cam.y == y,
            cam.width == width,
            cam.height == height,
            cam.max_width == max_width,
            cam.max_height == max_height,
            cam.min_width == min_width,
            cam.min_height == min_height,
            cam.aspect_w == width && cam.aspect_h == height,
    {
        Camera {
            x,
            y,
            width,
            height,
            max_width,
            max_height,
            min_width,
            min_height,
            aspect_w: width,
            aspect_h: height,
        }
    }

    /// The origin after a pan by `(dx, dy)`, clamped to keep the rectangle
    /// inside the grid.
    pub open spec fn moved_spec(self, dx: int, dy: int) -> Camera {
        Camera {
            x: clamp_int(self.x + dx, 0, self.max_width - self.width) as u32,
            y: clamp_int(self.y + dy, 0, self.max_height - self.height) as u32,
            ..self
        }
    }

    fn move_origin(&mut self, dx: i32, dy: i32)
        requires
            old(self).wf(),
        ensures
            final(self).wf(),
            *final(self) == old(self).moved_spec(dx as int, dy as int),
    {
        let nx: i64 = self.x as i64 + dx as i64;
        let ny: i64 = self.y as i64 + dy as i64;
        let hx: i64 = (self.max_width - self.width) as i64;
        let hy: i64 = (self.max_height - self.height) as i64;
        self.x = if nx < 0 {
            0
        } else if nx > hx {
            hx as u32
        } else {
            nx as u32
        };
        self.y = if ny < 0 {
            0
        } else if ny > hy {
            hy as u32
        } else {
            ny as u32
        };
    }

    /// Pan by an explicit delta; the origin clamps silently.
    pub fn move_delta(&mut self, delta: (i32, i32))
        requires
            old(self).wf(),
        ensures
            final(self).wf(),
            *final(self) == old(self).moved_spec(delta.0 as int, delta.1 as int),
    {
        self.move_origin(delta.0, delta.1);
    }

    /// The pan step: `ceil(width / max_width)`, which is 1 for every
    /// well-formed camera.
    pub open spec fn step_spec(self) -> int {
        (self.width + self.max_width - 1) as int / self.max_width as int
    }

    /// Pan one step in the given direction; the origin clamps silently.
    pub fn move_direction(&mut self, direction: Direction)
        requires
            old(self).wf(),
        ensures
            final(self).wf(),
            *final(self) == match direction {
                Direction::Up => old(self).moved_spec(0, -old(self).step_spec()),
                Direction::Down => old(self).moved_spec(0, old(self).step_spec()),
                Direction::Left => old(self).moved_spec(-old(self).step_spec(), 0),
                Direction::Right => old(self).moved_spec(old(self).step_spec(), 0),
            },
    {
        let step64: u64 = ((self.width as u64) + (self.max_width as u64) - 1) / (self.max_width
            as u64);
        proof {
            // width + max_width - 1 == 1 * max_width + (width - 1), so the step is 1.
            vstd::arithmetic::div_mod::lemma_fundamental_div_mod_converse_div(
                (self.width + self.max_width - 1) as int,
                self.max_width as int,
                1,
                (self.width - 1) as int,
            );
            assert(step64 == 1);
            assert(self.step_spec() == 1);
        }
        let speed: i32 = step64 as i32;
        match direction {
            Direction::Up => self.move_origin(0, -speed),
            Direction::Down => self.move_origin(0, speed),
            Direction::Left => self.move_origin(-speed, 0),
            Direction::Right => self.move_origin(speed, 0),
        }
    }

    /// The camera after a zoom by `num / den`: both dimensions are scaled
    /// and rounded, the larger one is reduced to restore the aspect ratio,
    /// both are clamped to their limits, and the rectangle is recentered on
    /// the previous center with the origin clamped into the grid.
    pub open spec fn zoom_spec(self, num: int, den: int) -> Camera {
        let w0 = round_div(self.width * num, den);
        let h0 = round_div(self.height * num, den);
        let wide = w0 * self.aspect_h > h0 * self.aspect_w;
        let w1 = if wide {
            round_div(h0 * self.aspect_w, self.aspect_h as int)
        } else {
            w0
        };
        let h1 = if wide {
            h0
        } else {
            round_div(w0 * self.aspect_h, self.aspect_w as int)
        };
        let w2 = clamp_int(w1, self.min_width as int, self.max_width as int);
        let h2 = clamp_int(h1, self.min_height as int, self.max_height as int);
        let cx = self.x + self.width as int / 2;
        let cy = self.y + self.height as int / 2;
        Camera {
            x: clamp_int(cx - w2 / 2, 0, self.max_width - w2) as u32,
            y: clamp_int(cy - h2 / 2, 0, self.max_height - h2) as u32,
            width: w2 as u32,
            height: h2 as u32,
            ..self
        }
    }

    /// Zoom by the rational factor `num / den` (for example `4 / 5` zooms
    /// in, `6 / 5` zooms out), keeping the aspect ratio and the center.
    pub fn zoom(&mut self, num: u32, den: u32)
        requires
            old(self).wf(),
            1 <= num,
            1 <= den,
        ensures
            final(self).wf(),
            *final(self) == old(self).zoom_spec(num as int, den as int),
    {
        let aw: u128 = self.aspect_w as u128;
        let ah: u128 = self.aspect_h as u128;
        proof {
            assert(self.width * num < 18446744073709551616 && self.height * num
                < 18446744073709551616) by (nonlinear_arith)
                requires
                    self.width <= u32::MAX,
                    self.height <= u32::MAX,
                    num <= u32::MAX,
            ;
        }
        let w0: u128 = rdiv_u128(self.width as u128 * num as u128, den as u128);
        let h0: u128 = rdiv_u128(self.height as u128 * num as u128, den as u128);
        proof {
            assert(w0 * ah <= 1000000000000000000000000000000u128 && h0 * aw
                <= 1000000000000000000000000000000u128) by (nonlinear_arith)
                requires
                    w0 <= 20000000000000000000u128,
                    h0 <= 20000000000000000000u128,
                    ah <= u32::MAX,
                    aw <= u32::MAX,
            ;
        }
        let wide: bool = w0 * ah > h0 * aw;
        let w1: u128 = if wide {
            rdiv_u128(h0 * aw, ah)
        } else {
            w0
        };
        let h1: u128 = if wide {
            h0
        } else {
            rdiv_u128(w0 * ah, aw)
        };
        let w2: u32 = if w1 < self.min_width as u128 {
            self.min_width
        } else if w1 > self.max_width as u128 {
            self.max_width
        } else {
            w1 as u32
        };
        let h2: u32 = if h1 < self.min_height as u128 {
            self.min_height
        } else if h1 > self.max_height as u128 {
            self.max_height
        } else {
            h1 as u32
        };
        let cx: u32 = self.x + self.width / 2;
        let cy: u32 = self.y + self.height / 2;
        let nx: i64 = cx as i64 - (w2 / 2) as i64;
        let ny: i64 = cy as i64 - (h2 / 2) as i64;
        let hx: i64 = (self.max_width - w2) as i64;
        let hy: i64 = (self.max_height - h2) as i64;
        self.width = w2;
        self.height = h2;
        self.x = if nx < 0 {
            0
        } else if nx > hx {
            hx as u32
        } else {
            nx as u32
        };
        self.y = if ny < 0 {
            0
        } else if ny > hy {
            hy as u32
        } else {
            ny as u32
        };
    }

    /// Map a window pixel position to grid coordinates: divide by the
    /// window-to-camera scale factor and offset by the camera origin.
    pub fn mouse_to_cell(&self, px: u32, py: u32) -> (r: (isize, isize))
        requires
            self.wf(),
            px <= 1000000000,
            py <= 1000000000,
            self.max_width <= 1000000000,
            self.max_height <= 1000000000,
        ensures
            r.0 == self.x + (px * self.width) as int / (self.max_width as int),
            r.1 == self.y + (py * self.height) as int / (self.max_height as int),
    {
        proof {
            assert(px * self.width <= 1000000000000000000 && px * self.width <= px
                * self.max_width && py * self.height <= 1000000000000000000 && py * self.height
                <= py * self.max_height) by (nonlinear_arith)
                requires
                    0 <= px <= 1000000000,
                    0 <= py <= 1000000000,
                    0 <= self.width <= self.max_width <= 1000000000,
                    0 <= self.height <= self.max_height <= 1000000000,
            ;
        }
        let cx: u64 = (px as u64) * (self.width as u64) / (self.max_width as u64);
        let cy: u64 = (py as u64) * (self.height as u64) / (self.max_height as u64);
        proof {
            vstd::arithmetic::div_mod::lemma_div_pos_is_pos(
                (px * self.width) as int,
                self.max_width as int,
            );
            vstd::arithmetic::div_mod::lemma_div_pos_is_pos(
                (py * self.height) as int,
                self.max_height as int,
            );
            assert(cx <= px) by {
                vstd::arithmetic::div_mod::lemma_div_is_ordered(
                    (px * self.width) as int,
                    (px * self.max_width) as int,
                    self.max_width as int,
                );
                vstd::arithmetic::div_mod::lemma_div_multiples_vanish(
                    px as int,
                    self.max_width as int,
                );
                vstd::arithmetic::mul::lemma_mul_is_commutative(px as int, self.max_width as int);
            };
            assert(cy <= py) by {
                vstd::arithmetic::div_mod::lemma_div_is_ordered(
                    (py * self.height) as int,
                    (py * self.max_height) as int,
                    self.max_height as int,
                );
                vstd::arithmetic::div_mod::lemma_div_multiples_vanish(
                    py as int,
                    self.max_height as int,
                );
                vstd::arithmetic::mul::lemma_mul_is_commutative(
                    py as int,
                    self.max_height as int,
                );
            };
        }
        let rx: u64 = (self.x as u64) + cx;
        let ry: u64 = (self.y as u64) + cy;
        (rx as isize, ry as isize)
    }

    pub fn get_x(&self) -> (r: u32)
        ensures
            r == self.x,
    {
        self.x
    }

    pub fn get_y(&self) -> (r: u32)
        ensures
            r == self.y,
    {
        self.y
    }

    pub fn get_width(&self) -> (r: u32)
        ensures
            r == self.width,
    {
        self.width
    }

    pub fn get_height(&self) -> (r: u32)
        ensures
            r == self.height,
    {
        self.height
    }
}

/// Whether a zoom by `n / d` stays strictly inside the camera's limits:
/// the scaled dimension needs no clamping and neither does the recentered
/// origin. (Stated for a square camera, whose two dimensions scale alike.)
pub open spec fn zoom_fits(cam: Camera, n: int, d: int) -> bool {
    let w1 = round_div(cam.width * n, d);
    &&& cam.min_width <= w1 <= cam.max_width
    &&& cam.min_height <= w1 <= cam.max_height
    &&& 0 <= cam.x + cam.width as int / 2 - w1 / 2
    &&& cam.x + cam.width as int / 2 - w1 / 2 <= cam.max_width - w1
    &&& 0 <= cam.y + cam.height as int / 2 - w1 / 2
    &&& cam.y + cam.height as int / 2 - w1 / 2 <= cam.max_height - w1
}

/// Scaling by `n / d` and rounding, then by `d / n` and rounding, comes
/// back to within one of the start, provided neither factor is more than
/// twice the other.
pub proof fn lemma_round_div_round_trip(w: int, n: int, d: int)
    requires
        1 <= w,
        1 <= n,
        1 <= d,
        n <= 2 * d,
        d <= 2 * n,
    ensures
        -1 <= round_div(round_div(w * n, d) * d, n) - w <= 1,
{
    let w1 = round_div(w * n, d);
    vstd::arithmetic::div_mod::lemma_fundamental_div_mod(2 * (w * n) + d, 2 * d);
    let r = (2 * (w * n) + d) % (2 * d);
    vstd::arithmetic::div_mod::lemma_mod_bound(2 * (w * n) + d, 2 * d);
    let e1 = d - r;
    assert(2 * (w * n) + d == (2 * d) * w1 + r);
    assert((2 * d) * w1 == 2 * (w * n) + e1);
    assert(-d < e1 <= d);
    let num = 2 * (w1 * d) + n;
    assert(2 * (w1 * d) == (2 * d) * w1) by (nonlinear_arith);
    assert(num == 2 * (w * n) + e1 + n);
    if 0 <= e1 + n < 2 * n {
        assert(num == w * (2 * n) + (e1 + n)) by (nonlinear_arith)
            requires
                num == 2 * (w * n) + e1 + n,
        ;
        vstd::arithmetic::div_mod::lemma_fundamental_div_mod_converse_div(num, 2 * n, w, e1 + n);
        assert(round_div(w1 * d, n) == w);
    } else if e1 + n >= 2 * n {
        assert(num == (w + 1) * (2 * n) + (e1 - n)) by (nonlinear_arith)
            requires
                num == 2 * (w * n) + e1 + n,
        ;
        assert(0 <= e1 - n < 2 * n);
        vstd::arithmetic::div_mod::lemma_fundamental_div_mod_converse_div(
            num,
            2 * n,
            w + 1,
            e1 - n,
        );
        assert(round_div(w1 * d, n) == w + 1);
    } else {
        assert(num == (w - 1) * (2 * n) + (e1 + 3 * n)) by (nonlinear_arith)
            requires
                num == 2 * (w * n) + e1 + n,
        ;
        assert(0 <= e1 + 3 * n < 2 * n);
        vstd::arithmetic::div_mod::lemma_fundamental_div_mod_converse_div(
            num,
            2 * n,
            w - 1,
            e1 + 3 * n,
        );
        assert(round_div(w1 * d, n) == w - 1);
    }
}

/// Halving differs by at most one across adjacent integers.
proof fn lemma_halves(w: int)
    requires
        0 <= w,
    ensures
        0 <= (w + 1) / 2 - w / 2 <= 1,
{
    vstd::arithmetic::div_mod::lemma_fundamental_div_mod(w, 2);
    vstd::arithmetic::div_mod::lemma_mod_bound(w, 2);
    let q = w / 2;
    if w % 2 == 0 {
        vstd::arithmetic::div_mod::lemma_fundamental_div_mod_converse_div(w + 1, 2, q, 1);
    } else {
        vstd::arithmetic::div_mod::lemma_fundamental_div_mod_converse_div(w + 1, 2, q + 1, 0);
    }
}

/// Scaling a square aspect by the factor itself is exact.
proof fn lemma_round_div_self(v: int, a: int)
    requires
        0 <= v,
        1 <= a,
    ensures
        round_div(v * a, a) == v,
{
    assert(2 * (v * a) + a == v * (2 * a) + a) by (nonlinear_arith);
    vstd::arithmetic::div_mod::lemma_fundamental_div_mod_converse_div(
        2 * (v * a) + a,
        2 * a,
        v,
        a,
    );
}

/// Zooming by `n / d` and then by `d / n` restores a square camera's
/// dimensions and origin up to one unit each, as long as both zooms stay
/// inside the camera's limits and neither factor is more than twice the
/// other.
pub proof fn lemma_zoom_round_trip(cam: Camera, n: int, d: int)
    requires
        cam.wf(),
        cam.aspect_w == cam.aspect_h,
        cam.width == cam.height,
        1 <= n,
        1 <= d,
        n <= 2 * d,
        d <= 2 * n,
        zoom_fits(cam, n, d),
        zoom_fits(cam.zoom_spec(n, d), d, n),
    ensures
        ({
            let c2 = cam.zoom_spec(n, d).zoom_spec(d, n);
            &&& -1 <= c2.width - cam.width <= 1
            &&& -1 <= c2.height - cam.height <= 1
            &&& -1 <= c2.x - cam.x <= 1
            &&& -1 <= c2.y - cam.y <= 1
        }),
{
    let a = cam.aspect_w as int;
    let w = cam.width as int;
    let w1 = round_div(w * n, d);
    let c1 = cam.zoom_spec(n, d);
    vstd::arithmetic::div_mod::lemma_div_pos_is_pos(2 * (w * n) + d, 2 * d);
    lemma_round_div_self(w1, a);
    assert(c1.width == w1 && c1.height == w1);
    assert(c1.x == cam.x + w / 2 - w1 / 2);
    assert(c1.y == cam.y + w / 2 - w1 / 2);
    assert(c1.aspect_w == cam.aspect_w && c1.aspect_h == cam.aspect_h);
    let w2 = round_div(w1 * d, n);
    let c2 = c1.zoom_spec(d, n);
    vstd::arithmetic::div_mod::lemma_div_pos_is_pos(2 * (w1 * d) + n, 2 * n);
    lemma_round_div_self(w2, a);
    assert(c2.width == w2 && c2.height == w2);
    assert(c1.x + c1.width as int / 2 == cam.x + w / 2);
    assert(c2.x == cam.x + w / 2 - w2 / 2);
    assert(c2.y == cam.y + w / 2 - w2 / 2);
    lemma_round_div_round_trip(w, n, d);
    assert(-1 <= w2 - w <= 1);
    if w2 == w + 1 {
        lemma_halves(w);
    } else if w2 == w - 1 {
        lemma_halves(w - 1);
    }
}

} // verus!
