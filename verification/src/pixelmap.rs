//! The logical pixel buffer: a row-major RGBA raster paired with a camera.
//! Projection extracts the camera rectangle and scales it by integer factors
//! into a window-sized RGBA byte framebuffer.

use vstd::prelude::*;
use crate::camera::Camera;
use crate::color::{rgba, Rgba};
use crate::grid::{lemma_row_major_bound, row_major};
use crate::input::InputHandler;

verus! {

/// `ceil(a / b)` for positive `b`.
pub open spec fn ceil_div(a: int, b: int) -> int {
    (a + b - 1) / b
}

#[derive(Debug)]
pub struct GlobalPixelMap {
    pub pixelmap: Vec<Rgba>,
    pub window_width: u32,
    pub window_height: u32,
    pub camera: Camera,
}

impl GlobalPixelMap {
    /// The buffer invariant: a full raster, byte length within address
    /// range, and a well-formed camera whose grid is exactly the raster.
    pub open spec fn wf(&self) -> bool {
        &&& 1 <= self.window_width
        &&& 1 <= self.window_height
        &&& self.pixelmap@.len() == self.window_width * self.window_height
        &&& 4 * (self.window_width * self.window_height) <= usize::MAX
        &&& self.window_width * self.window_height <= isize::MAX
        &&& self.camera.wf()
        &&& self.camera.max_width == self.window_width
        &&& self.camera.max_height == self.window_height
    }

    /// The horizontal scale factor of the projection.
    pub open spec fn scale_w(&self) -> int {
        ceil_div(self.window_width as int, self.camera.width as int)
    }

    /// The vertical scale factor of the projection.
    pub open spec fn scale_h(&self) -> int {
        ceil_div(self.window_height as int, self.camera.height as int)
    }

    /// The source pixel that target pixel `(tx, ty)` shows: nearest-neighbor
    /// inside the camera rectangle.
    pub open spec fn projected_pixel(&self, tx: int, ty: int) -> Rgba {
        self.pixelmap@[row_major(
            self.window_width as int,
            self.camera.x + tx / self.scale_w(),
            self.camera.y + ty / self.scale_h(),
        )]
    }

    /// A fresh transparent-black pixelmap under the given camera.
    pub fn new_empty(window_height: u32, window_width: u32, camera: Camera) -> (pm: GlobalPixelMap)
        requires
            camera.wf(),
            camera.max_width == window_width,
            camera.max_height == window_height,
            4 * (window_width * window_height) <= usize::MAX,
            window_width * window_height <= isize::MAX,
        ensures
            pm.wf(),
            pm.window_width == window_width,
            pm.window_height == window_height,
            pm.camera == camera,
            forall|j: int| 0 <= j < pm.pixelmap@.len() ==> pm.pixelmap@[j] == rgba(0, 0, 0, 0),
    {
        proof {
            assert(window_width * window_height <= 4 * (window_width * window_height))
                by (nonlinear_arith)
                requires
                    1 <= window_width,
                    1 <= window_height,
            ;
        }
        let len: usize = (window_width as usize) * (window_height as usize);
        let pixelmap: Vec<Rgba> = vec![Rgba::new(0, 0, 0, 0); len];
        GlobalPixelMap { pixelmap, window_width, window_height, camera }
    }

    /// Row-major index of an in-bounds position.
    pub fn get_idx(&self, pos: (isize, isize)) -> (r: usize)
        requires
            self.wf(),
            0 <= pos.0 < self.window_width,
            0 <= pos.1 < self.window_height,
        ensures
            r == row_major(self.window_width as int, pos.0 as int, pos.1 as int),
            r < self.pixelmap@.len(),
    {
        let glen: usize = self.pixelmap.len();
        proof {
            assert(glen == self.pixelmap@.len());
            lemma_row_major_bound(
                self.window_width as int,
                self.window_height as int,
                pos.0 as int,
                pos.1 as int,
            );
            vstd::arithmetic::mul::lemma_mul_is_commutative(
                self.window_width as int,
                self.window_height as int,
            );
        }
        (pos.1 as usize) * (self.window_width as usize) + (pos.0 as usize)
    }

    /// Write one pixel.
    pub fn draw_pos(&mut self, pos: (isize, isize), color: Rgba)
        requires
            old(self).wf(),
            0 <= pos.0 < old(self).window_width,
            0 <= pos.1 < old(self).window_height,
        ensures
            final(self).wf(),
            final(self).window_width == old(self).window_width,
            final(self).window_height == old(self).window_height,
            final(self).camera == old(self).camera,
            final(self).pixelmap@ == old(self).pixelmap@.update(
                row_major(old(self).window_width as int, pos.0 as int, pos.1 as int),
                color,
            ),
    {
        let idx: usize = self.get_idx(pos);
        self.pixelmap.set(idx, color);
    }

    /// Swap the whole raster with an externally prepared one of identical
    /// length.
    pub fn draw_flat_vec(&mut self, vec: &mut Vec<Rgba>)
        requires
            old(self).wf(),
            old(vec)@.len() == old(self).pixelmap@.len(),
        ensures
            final(self).wf(),
            final(self).window_width == old(self).window_width,
            final(self).window_height == old(self).window_height,
            final(self).camera == old(self).camera,
            final(self).pixelmap@ == old(vec)@,
            final(vec)@ == old(self).pixelmap@,
    {
        core::mem::swap(&mut self.pixelmap, vec);
    }

    pub fn get_camera(&self) -> (c: Camera)
        ensures
            c == self.camera,
    {
        self.camera
    }

    /// Project the camera rectangle into a window-sized RGBA byte buffer:
    /// each target pixel takes the color of its nearest-neighbor source
    /// inside the camera rectangle, and every one of the
    /// `window_width * window_height` target pixels is written.
    pub fn render(&self, pixels: &mut Vec<u8>)
        requires
            self.wf(),
        ensures
            final(pixels)@.len() == 4 * (self.window_width * self.window_height),
            forall|tx: int, ty: int|
                0 <= tx < self.window_width && 0 <= ty < self.window_height ==> {
                    let sp = #[trigger] self.projected_pixel(tx, ty);
                    let base = 4 * row_major(self.window_width as int, tx, ty);
                    &&& final(pixels)@[base] == sp.r
                    &&& final(pixels)@[base + 1] == sp.g
                    &&& final(pixels)@[base + 2] == sp.b
                    &&& final(pixels)@[base + 3] == sp.a
                },
    {
        let w: u32 = self.window_width;
        let h: u32 = self.window_height;
        let cw: u32 = self.camera.get_width();
        let ch: u32 = self.camera.get_height();
        let sw: u64 = ((w as u64) + (cw as u64) - 1) / (cw as u64);
        let sh: u64 = ((h as u64) + (ch as u64) - 1) / (ch as u64);
        proof {
            lemma_ceil_div_covers(w as int, cw as int);
            lemma_ceil_div_covers(h as int, ch as int);
            assert(w <= w * h && h <= w * h) by (nonlinear_arith)
                requires
                    1 <= w,
                    1 <= h,
            ;
        }
        let mut out: Vec<u8> = Vec::new();
        let mut ty: u32 = 0;
        while ty < h
            invariant
                self.wf(),
                ty <= h,
                w == self.window_width,
                h == self.window_height,
                cw == self.camera.width,
                ch == self.camera.height,
                sw == self.scale_w(),
                sh == self.scale_h(),
                1 <= sw && 1 <= sh,
                w <= isize::MAX && h <= isize::MAX,
                cw * sw >= w,
                ch * sh >= h,
                out@.len() == 4 * (ty * w),
                forall|px: int, py: int|
                    0 <= px < w && 0 <= py < ty ==> {
                        let sp = #[trigger] self.projected_pixel(px, py);
                        let base = 4 * row_major(w as int, px, py);
                        &&& out@[base] == sp.r
                        &&& out@[base + 1] == sp.g
                        &&& out@[base + 2] == sp.b
                        &&& out@[base + 3] == sp.a
                    },
            decreases h - ty,
        {
            let sy64: u64 = (self.camera.get_y() as u64) + (ty as u64) / sh;
            proof {
                lemma_scaled_coord_in_camera(h as int, ch as int, sh as int, ty as int);
                assert(sy64 == self.camera.y + ty as int / self.scale_h());
                assert(sy64 < self.window_height);
            }
            let sy: u32 = sy64 as u32;
            let mut tx: u32 = 0;
            while tx < w
                invariant
                    self.wf(),
                    ty < h,
                    tx <= w,
                    w == self.window_width,
                    h == self.window_height,
                    cw == self.camera.width,
                    ch == self.camera.height,
                    sw == self.scale_w(),
                    sh == self.scale_h(),
                    1 <= sw && 1 <= sh,
                    w <= isize::MAX && h <= isize::MAX,
                    cw * sw >= w,
                    ch * sh >= h,
                    sy == self.camera.y + ty as int / self.scale_h(),
                    sy < self.window_height,
                    out@.len() == 4 * (ty * w) + 4 * tx,
                    forall|px: int, py: int|
                        0 <= px < w && 0 <= py < h && (py < ty || (py == ty && px < tx)) ==> {
                            let sp = #[trigger] self.projected_pixel(px, py);
                            let base = 4 * row_major(w as int, px, py);
                            &&& out@[base] == sp.r
                            &&& out@[base + 1] == sp.g
                            &&& out@[base + 2] == sp.b
                            &&& out@[base + 3] == sp.a
                        },
                decreases w - tx,
            {
                let sx64: u64 = (self.camera.get_x() as u64) + (tx as u64) / sw;
                proof {
                    lemma_scaled_coord_in_camera(w as int, cw as int, sw as int, tx as int);
                    assert(sx64 == self.camera.x + tx as int / self.scale_w());
                    assert(sx64 < self.window_width);
                }
                let sx: u32 = sx64 as u32;
                let sidx: usize = self.get_idx((sx as isize, sy as isize));
                let sp: Rgba = self.pixelmap[sidx];
                proof {
                    lemma_row_major_bound(w as int, h as int, tx as int, ty as int);
                    vstd::arithmetic::mul::lemma_mul_is_commutative(w as int, h as int);
                    assert(4 * row_major(w as int, tx as int, ty as int) == out@.len());
                    assert(sp == self.projected_pixel(tx as int, ty as int));
                }
                let ghost out0 = out@;
                out.push(sp.r);
                out.push(sp.g);
                out.push(sp.b);
                out.push(sp.a);
                proof {
                    assert forall|px: int, py: int|
                        0 <= px < w && 0 <= py < h && (py < ty || (py == ty && px < tx + 1)) implies {
                        let q = #[trigger] self.projected_pixel(px, py);
                        let base = 4 * row_major(w as int, px, py);
                        &&& out@[base] == q.r
                        &&& out@[base + 1] == q.g
                        &&& out@[base + 2] == q.b
                        &&& out@[base + 3] == q.a
                    } by {
                        lemma_row_major_bound(w as int, h as int, px, py);
                        if py < ty || (py == ty && px < tx) {
                            assert(4 * row_major(w as int, px, py) + 3 < out0.len()) by (nonlinear_arith)
                                requires
                                    0 <= px < w,
                                    0 <= py < h,
                                    py < ty || (py == ty && px < tx),
                                    row_major(w as int, px, py) == py * w + px,
                                    out0.len() == 4 * (ty * w) + 4 * tx,
                            ;
                        } else {
                            assert(px == tx && py == ty);
                        }
                    }
                }
                tx = tx + 1;
            }
            proof {
                assert(4 * (ty * w) + 4 * w == 4 * ((ty + 1) * w)) by (nonlinear_arith);
            }
            ty = ty + 1;
        }
        *pixels = out;
        proof {
            vstd::arithmetic::mul::lemma_mul_is_commutative(h as int, w as int);
        }
    }

    /// The camera after this tick's input: scroll zooms (up zooms in by
    /// 4/5, down zooms out by 6/5), held direction keys pan one step each,
    /// applied in the order right, left, up, down.
    pub open spec fn camera_after_update(cam: Camera, inp: InputHandler) -> Camera {
        let c0 = if inp.scroll >= 1 {
            cam.zoom_spec(4, 5)
        } else if inp.scroll <= -1 {
            cam.zoom_spec(6, 5)
        } else {
            cam
        };
        let c1 = if inp.right_held {
            c0.moved_spec(c0.step_spec(), 0)
        } else {
            c0
        };
        let c2 = if inp.left_held {
            c1.moved_spec(-c1.step_spec(), 0)
        } else {
            c1
        };
        let c3 = if inp.up_held {
            c2.moved_spec(0, -c2.step_spec())
        } else {
            c2
        };
        if inp.down_held {
            c3.moved_spec(0, c3.step_spec())
        } else {
            c3
        }
    }

    /// Apply this tick's input to the camera: scroll zooms, held direction
    /// keys pan.
    pub fn update(&mut self, input: &InputHandler)
        requires
            old(self).wf(),
        ensures
            final(self).wf(),
            *final(self) == (GlobalPixelMap {
                camera: GlobalPixelMap::camera_after_update(old(self).camera, *input),
                ..*old(self)
            }),
    {
        if input.scroll >= 1 {
            self.camera.zoom(4, 5);
        } else if input.scroll <= -1 {
            self.camera.zoom(6, 5);
        }
        if input.right_held {
            self.camera.move_direction(crate::camera::Direction::Right);
        }
        if input.left_held {
            self.camera.move_direction(crate::camera::Direction::Left);
        }
        if input.up_held {
            self.camera.move_direction(crate::camera::Direction::Up);
        }
        if input.down_held {
            self.camera.move_direction(crate::camera::Direction::Down);
        }
    }
}

/// The projection reads only inside the camera rectangle: for every target
/// pixel, the source coordinates lie within the camera's span.
pub proof fn lemma_projection_reads_inside_camera(pm: GlobalPixelMap, tx: int, ty: int)
    requires
        pm.wf(),
        0 <= tx < pm.window_width,
        0 <= ty < pm.window_height,
    ensures
        pm.camera.x <= pm.camera.x + tx / pm.scale_w() < pm.camera.x + pm.camera.width,
        pm.camera.y <= pm.camera.y + ty / pm.scale_h() < pm.camera.y + pm.camera.height,
{
    lemma_ceil_div_covers(pm.window_width as int, pm.camera.width as int);
    lemma_ceil_div_covers(pm.window_height as int, pm.camera.height as int);
    lemma_scaled_coord_in_camera(
        pm.window_width as int,
        pm.camera.width as int,
        pm.scale_w(),
        tx,
    );
    lemma_scaled_coord_in_camera(
        pm.window_height as int,
        pm.camera.height as int,
        pm.scale_h(),
        ty,
    );
}

/// `b * ceil_div(a, b) >= a`: the scaled camera rectangle covers the window.
pub proof fn lemma_ceil_div_covers(a: int, b: int)
    requires
        1 <= a,
        1 <= b,
    ensures
        1 <= ceil_div(a, b),
        b * ceil_div(a, b) >= a,
{
    vstd::arithmetic::div_mod::lemma_fundamental_div_mod(a + b - 1, b);
    vstd::arithmetic::div_mod::lemma_div_pos_is_pos(a + b - 1, b);
    vstd::arithmetic::div_mod::lemma_mod_bound(a + b - 1, b);
    assert(1 <= (a + b - 1) / b) by {
        vstd::arithmetic::div_mod::lemma_div_is_ordered(b, a + b - 1, b);
        vstd::arithmetic::div_mod::lemma_div_by_self(b);
    }
}

/// A target coordinate divided by the scale factor lands inside the camera
/// span: `t / s < c` whenever `t < n <= c * s`.
pub proof fn lemma_scaled_coord_in_camera(n: int, c: int, s: int, t: int)
    requires
        1 <= c,
        1 <= s,
        c * s >= n,
        0 <= t < n,
    ensures
        0 <= t / s < c,
    {
    vstd::arithmetic::div_mod::lemma_div_pos_is_pos(t, s);
    vstd::arithmetic::div_mod::lemma_div_is_ordered(t, c * s - 1, s);
    assert(c * s - 1 == (c - 1) * s + (s - 1)) by (nonlinear_arith);
    vstd::arithmetic::div_mod::lemma_fundamental_div_mod_converse_div(c * s - 1, s, c - 1, s - 1);
}

} // verus!
