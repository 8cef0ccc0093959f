//! The per-tick input snapshot the core consumes: key edges and holds,
//! mouse buttons, scroll steps, and the mouse position in grid coordinates.
//! The windowing driver fills one of these from its own event source.

use vstd::prelude::*;

verus! {

/// Truncating division (toward zero), as the hardware operator computes it.
pub open spec fn div_trunc(a: int, b: int) -> int {
    if a >= 0 {
        a / b
    } else {
        -((-a) / b)
    }
}

#[derive(Clone, Copy, Debug)]
pub struct InputHandler {
    /// Held direction keys, for camera panning.
    pub up_held: bool,
    pub down_held: bool,
    pub left_held: bool,
    pub right_held: bool,
    /// Key edges consumed by the components.
    pub pause_pressed: bool,
    pub clear_pressed: bool,
    /// Held mouse buttons, for the editing brushes.
    pub mouse_left_held: bool,
    pub mouse_right_held: bool,
    pub mouse_middle_held: bool,
    /// Scroll steps this tick; positive is up.
    pub scroll: i32,
    /// Mouse position in grid coordinates, current and previous.
    pub mouse: (isize, isize),
    pub mouse_prev: (isize, isize),
    /// Window scale factor.
    pub scale: u32,
}

impl InputHandler {
    pub open spec fn wf(&self) -> bool {
        1 <= self.scale
    }

    /// An empty snapshot: nothing pressed, mouse at the origin, scale 1.
    pub fn new() -> (inp: InputHandler)
        ensures
            inp.wf(),
            !inp.up_held && !inp.down_held && !inp.left_held && !inp.right_held,
            !inp.pause_pressed && !inp.clear_pressed,
            !inp.mouse_left_held && !inp.mouse_right_held && !inp.mouse_middle_held,
            inp.scroll == 0,
            inp.mouse == (0isize, 0isize),
            inp.mouse_prev == (0isize, 0isize),
            inp.scale == 1,
    {
        InputHandler {
            up_held: false,
            down_held: false,
            left_held: false,
            right_held: false,
            pause_pressed: false,
            clear_pressed: false,
            mouse_left_held: false,
            mouse_right_held: false,
            mouse_middle_held: false,
            scroll: 0,
            mouse: (0, 0),
            mouse_prev: (0, 0),
            scale: 1,
        }
    }

    /// Record this tick's mouse positions; everything else is written by
    /// the driver through the public fields.
    pub fn update(&mut self, mouse_pos: (isize, isize), prev_mouse_pos: (isize, isize))
        ensures
            *final(self) == (InputHandler { mouse: mouse_pos, mouse_prev: prev_mouse_pos, ..*old(
                self,
            ) }),
    {
        self.mouse = mouse_pos;
        self.mouse_prev = prev_mouse_pos;
    }

    pub fn update_scale(&mut self, scale: u32)
        requires
            1 <= scale,
        ensures
            *final(self) == (InputHandler { scale: scale, ..*old(self) }),
    {
        self.scale = scale;
    }

    /// The mouse position scaled down by the window scale factor.
    pub fn get_mouse_pos(&self) -> (r: (isize, isize))
        requires
            self.wf(),
            -1000000000 <= self.mouse.0 <= 1000000000,
            -1000000000 <= self.mouse.1 <= 1000000000,
        ensures
            r.0 == div_trunc(self.mouse.0 as int, self.scale as int),
            r.1 == div_trunc(self.mouse.1 as int, self.scale as int),
    {
        let s: i64 = self.scale as i64;
        let mx: i64 = self.mouse.0 as i64;
        let my: i64 = self.mouse.1 as i64;
        let rx: i64 = if mx >= 0 {
            mx / s
        } else {
            -((-mx) / s)
        };
        let ry: i64 = if my >= 0 {
            my / s
        } else {
            -((-my) / s)
        };
        (rx as isize, ry as isize)
    }
}

} // verus!
