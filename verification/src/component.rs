//! Components and their capability set. A component declares `Label`, `Run`
//! and `Update`; `Texture` marks a framebuffer producer. The registry holds
//! a closed set of component kinds, so dispatch is a match instead of a
//! runtime downcast.

use vstd::prelude::*;
use crate::bresenham::{line_overwrite, line_points_spec};
use crate::color::Rgba;
use crate::grid::{filled, row_major};
use crate::input::InputHandler;
use crate::life::{life_colors, life_step, ConwayGrid};
use crate::pixelmap::GlobalPixelMap;
use crate::sand::{cell_colors, count_cells, disc_overwrite, Cell, CellRealm};
use crate::storage::{has_pixel_map, pixel_map_of, Storage};

verus! {

/// A human-readable label.
pub trait Label {
    fn label(&mut self) -> &'static str;
}

/// The compute capability: runs once per tick with shared storage, so a
/// `Run` body cannot write the storage at all.
pub trait Run {
    fn run(&mut self, storage: &Storage);
}

/// The publish capability: runs once per tick after every `Run`, with the
/// exclusive side of the storage.
pub trait Update {
    fn update(&mut self, storage: &mut Storage, input: &InputHandler);
}

/// A framebuffer producer.
pub trait Texture {
    spec fn tex_wf(&self) -> bool;

    fn render(&self, pixels: &mut Vec<u8>)
        requires
            self.tex_wf(),
    ;

    fn size(&self) -> (u32, u32);
}

impl Texture for GlobalPixelMap {
    open spec fn tex_wf(&self) -> bool {
        self.wf()
    }

    fn render(&self, pixels: &mut Vec<u8>) {
        GlobalPixelMap::render(self, pixels);
    }

    fn size(&self) -> (u32, u32) {
        (self.window_width, self.window_height)
    }
}

/// The simplest component: a label and an idle tick.
pub struct BaseComponent {
    pub label: &'static str,
}

impl Label for BaseComponent {
    fn label(&mut self) -> &'static str {
        self.label
    }
}

impl Run for BaseComponent {
    fn run(&mut self, _storage: &Storage) {
    }
}

/// What a tick's worth of storage traffic from one component looks like:
/// only the "pixelmap" binding may change, and when a matching pixel buffer
/// is bound it ends up holding exactly `colors`.
pub open spec fn publish_rel(s0: Storage, s1: Storage, colors: Seq<Rgba>) -> bool {
    &&& s1.wf()
    &&& has_pixel_map(s0) == has_pixel_map(s1)
    &&& forall|key: Seq<char>| key != "pixelmap"@ ==> s1.spec_get(key) == s0.spec_get(key)
    &&& (has_pixel_map(s0) && pixel_map_of(s0).pixelmap@.len() == colors.len()) ==> {
        &&& pixel_map_of(s1) == (GlobalPixelMap {
            pixelmap: pixel_map_of(s1).pixelmap,
            ..pixel_map_of(s0)
        })
        &&& pixel_map_of(s1).pixelmap@ == colors
    }
    &&& !(has_pixel_map(s0) && pixel_map_of(s0).pixelmap@.len() == colors.len())
        ==> s1.buckets@ == s0.buckets@
}

/// Whether some sand grain or water drop in the grid has an empty cell
/// directly below it, so that a tick must move something.
pub open spec fn cell_can_fall(g: Seq<Cell>, w: int, h: int) -> bool {
    exists|px: int, py: int|
        {
            &&& 0 <= px < w
            &&& 0 <= py && py + 1 < h
            &&& (g[row_major(w, px, py)] == Cell::SAND || g[row_major(w, px, py)] == Cell::WATER)
            &&& #[trigger] g[row_major(w, px, py + 1)] == Cell::EMPTY
        }
}

/// The life engine as a component: `run` steps the automaton, `update`
/// consumes edit input and publishes its colors.
pub struct ConwayGridComponent {
    pub inner: ConwayGrid,
    pub paused: bool,
}

/// Whether this tick's input draws a life line: the left button is held
/// and both mouse cells are on the grid (within the drawing range).
pub open spec fn life_line_ok(c: ConwayGridComponent, inp: InputHandler) -> bool {
    &&& inp.mouse_left_held
    &&& 0 <= inp.mouse.0 < c.inner.width && 0 <= inp.mouse.1 < c.inner.height
    &&& 0 <= inp.mouse_prev.0 < c.inner.width && 0 <= inp.mouse_prev.1 < c.inner.height
    &&& inp.mouse.0 <= 500000000 && inp.mouse.1 <= 500000000
    &&& inp.mouse_prev.0 <= 500000000 && inp.mouse_prev.1 <= 500000000
}

/// The grid contents after `update` consumes the input: first a clear if
/// asked, then a drawn line if the left button is held on the grid.
pub open spec fn life_after_edits(c: ConwayGridComponent, inp: InputHandler) -> Seq<bool> {
    let g1 = if inp.clear_pressed {
        filled(c.inner.cells@.len(), false)
    } else {
        c.inner.cells@
    };
    if life_line_ok(c, inp) {
        line_overwrite(
            g1,
            c.inner.width as int,
            line_points_spec(
                inp.mouse.0 as int,
                inp.mouse.1 as int,
                inp.mouse_prev.0 as int,
                inp.mouse_prev.1 as int,
            ),
            true,
        )
    } else {
        g1
    }
}

impl ConwayGridComponent {
    pub open spec fn wf(&self) -> bool {
        self.inner.wf()
    }

    /// A paused life world seeded with the given density.
    pub fn new(height: u32, width: u32, chance_permille: u32) -> (c: ConwayGridComponent)
        requires
            1 <= height,
            1 <= width,
            height * width <= isize::MAX,
        ensures
            c.wf(),
            c.inner.width == width,
            c.inner.height == height,
            c.paused,
    {
        ConwayGridComponent { inner: ConwayGrid::new(height, width, chance_permille), paused: true }
    }

    /// The run phase: step one generation unless paused. The storage is
    /// shared, so it cannot change here.
    pub fn run(&mut self, _storage: &Storage)
        requires
            old(self).wf(),
        ensures
            final(self).wf(),
            final(self).paused == old(self).paused,
            final(self).inner.width == old(self).inner.width,
            final(self).inner.height == old(self).inner.height,
            old(self).paused ==> final(self).inner.cells@ == old(self).inner.cells@,
            !old(self).paused ==> final(self).inner.cells@ == life_step(
                old(self).inner.cells@,
                old(self).inner.width as int,
                old(self).inner.height as int,
            ),
    {
        if self.paused {
            return ;
        }
        self.inner.next_state();
    }

    /// The update phase: toggle pause, apply edits, publish the colors.
    pub fn update(&mut self, storage: &mut Storage, input: &InputHandler)
        requires
            old(self).wf(),
            old(storage).wf(),
        ensures
            final(self).wf(),
            final(self).inner.width == old(self).inner.width,
            final(self).inner.height == old(self).inner.height,
            final(self).paused == (if input.pause_pressed {
                !old(self).paused
            } else {
                old(self).paused
            }),
            final(self).inner.cells@ == life_after_edits(*old(self), *input),
            publish_rel(*old(storage), *final(storage), life_colors(final(self).inner.cells@)),
    {
        if input.pause_pressed {
            self.paused = !self.paused;
        }
        if input.clear_pressed {
            self.inner.clear_grid();
        }
        if input.mouse_left_held {
            let (mx, my) = input.mouse;
            let (px, py) = input.mouse_prev;
            let w64: i64 = self.inner.width as i64;
            let h64: i64 = self.inner.height as i64;
            let on_grid: bool = mx >= 0 && my >= 0 && px >= 0 && py >= 0 && (mx as i64) < w64 && (
            my as i64) < h64 && (px as i64) < w64 && (py as i64) < h64;
            let in_range: bool = (mx as i64) <= 500000000 && (my as i64) <= 500000000 && (px
                as i64) <= 500000000 && (py as i64) <= 500000000;
            if on_grid && in_range {
                self.inner.set_line((mx, my), (px, py), true);
            }
        }
        let mut colors: Vec<Rgba> = self.inner.get_color_vec();
        storage.publish_pixel_map(&mut colors);
    }
}

impl Label for ConwayGridComponent {
    fn label(&mut self) -> &'static str {
        "ConwayGrid"
    }
}

/// The sand engine as a component: `run` steps the automaton, `update`
/// consumes brush input and publishes its colors.
pub struct CellRealmComponent {
    pub inner: CellRealm,
    pub paused: bool,
}

/// Whether the mouse cells are usable as brush centers this tick.
pub open spec fn brush_ok(inp: InputHandler) -> bool {
    &&& -500000000 <= inp.mouse.0 <= 500000000
    &&& -500000000 <= inp.mouse.1 <= 500000000
}

/// Whether this tick's input draws a solid line.
pub open spec fn sand_line_ok(c: CellRealmComponent, inp: InputHandler) -> bool {
    &&& inp.mouse_middle_held
    &&& 0 <= inp.mouse.0 < c.inner.width && 0 <= inp.mouse.1 < c.inner.height
    &&& 0 <= inp.mouse_prev.0 < c.inner.width && 0 <= inp.mouse_prev.1 < c.inner.height
    &&& inp.mouse.0 <= 500000000 && inp.mouse.1 <= 500000000
    &&& inp.mouse_prev.0 <= 500000000 && inp.mouse_prev.1 <= 500000000
}

/// The grid contents after `update` consumes the input: a sand brush, a
/// water brush, a solid line, then a clear, in that order.
pub open spec fn sand_after_edits(c: CellRealmComponent, inp: InputHandler) -> Seq<Cell> {
    let w = c.inner.width as int;
    let g1 = if inp.mouse_left_held && brush_ok(inp) {
        disc_overwrite(c.inner.cells@, w, inp.mouse.0 as int, inp.mouse.1 as int, 30, Cell::SAND)
    } else {
        c.inner.cells@
    };
    let g2 = if inp.mouse_right_held && brush_ok(inp) {
        disc_overwrite(g1, w, inp.mouse.0 as int, inp.mouse.1 as int, 10, Cell::WATER)
    } else {
        g1
    };
    let g3 = if sand_line_ok(c, inp) {
        line_overwrite(
            g2,
            w,
            line_points_spec(
                inp.mouse.0 as int,
                inp.mouse.1 as int,
                inp.mouse_prev.0 as int,
                inp.mouse_prev.1 as int,
            ),
            Cell::SOLID,
        )
    } else {
        g2
    };
    if inp.clear_pressed {
        filled(c.inner.cells@.len(), Cell::EMPTY)
    } else {
        g3
    }
}

impl CellRealmComponent {
    pub open spec fn wf(&self) -> bool {
        self.inner.wf()
    }

    /// A running sand world, initially empty.
    pub fn new(height: u32, width: u32) -> (c: CellRealmComponent)
        requires
            1 <= height,
            1 <= width,
            height * width <= isize::MAX,
        ensures
            c.wf(),
            c.inner.width == width,
            c.inner.height == height,
            !c.paused,
            forall|j: int| 0 <= j < c.inner.cells@.len() ==> c.inner.cells@[j] == Cell::EMPTY,
    {
        CellRealmComponent { inner: CellRealm::new(height, width), paused: false }
    }

    /// The run phase: one bottom-up scan unless paused; counts of every
    /// kind are preserved and solid cells do not move.
    pub fn run(&mut self, _storage: &Storage)
        requires
            old(self).wf(),
        ensures
            final(self).wf(),
            final(self).paused == old(self).paused,
            final(self).inner.width == old(self).inner.width,
            final(self).inner.height == old(self).inner.height,
            final(self).inner.cells@.len() == old(self).inner.cells@.len(),
            old(self).paused ==> final(self).inner.cells@ == old(self).inner.cells@,
            (!old(self).paused && cell_can_fall(
                old(self).inner.cells@,
                old(self).inner.width as int,
                old(self).inner.height as int,
            )) ==> final(self).inner.cells@ != old(self).inner.cells@,
            forall|k: Cell|
                count_cells(final(self).inner.cells@, k) == count_cells(
                    old(self).inner.cells@,
                    k,
                ),
            forall|j: int|
                0 <= j < final(self).inner.cells@.len() ==> ((old(self).inner.cells@[j]
                    == Cell::SOLID) <==> (final(self).inner.cells@[j] == Cell::SOLID)),
    {
        if self.paused {
            return ;
        }
        self.inner.next_state();
    }

    /// The update phase: toggle pause, apply the brushes, publish colors.
    pub fn update(&mut self, storage: &mut Storage, input: &InputHandler)
        requires
            old(self).wf(),
            old(storage).wf(),
        ensures
            final(self).wf(),
            final(self).inner.width == old(self).inner.width,
            final(self).inner.height == old(self).inner.height,
            final(self).paused == (if input.pause_pressed {
                !old(self).paused
            } else {
                old(self).paused
            }),
            final(self).inner.cells@ == sand_after_edits(*old(self), *input),
            publish_rel(*old(storage), *final(storage), cell_colors(final(self).inner.cells@)),
    {
        if input.pause_pressed {
            self.paused = !self.paused;
        }
        let (mx, my) = input.mouse;
        let in_range: bool = mx >= -500000000 && mx <= 500000000 && my >= -500000000 && my
            <= 500000000;
        if input.mouse_left_held && in_range {
            self.inner.set_circle((mx, my), 30, Cell::SAND);
        }
        if input.mouse_right_held && in_range {
            self.inner.set_circle((mx, my), 10, Cell::WATER);
        }
        if input.mouse_middle_held {
            let (px, py) = input.mouse_prev;
            let w64: i64 = self.inner.width as i64;
            let h64: i64 = self.inner.height as i64;
            let on_grid: bool = mx >= 0 && my >= 0 && px >= 0 && py >= 0 && (mx as i64) < w64 && (
            my as i64) < h64 && (px as i64) < w64 && (py as i64) < h64;
            let line_range: bool = (mx as i64) <= 500000000 && (my as i64) <= 500000000 && (px
                as i64) <= 500000000 && (py as i64) <= 500000000;
            if on_grid && line_range {
                self.inner.set_line((mx, my), (px, py), Cell::SOLID);
            }
        }
        if input.clear_pressed {
            self.inner.clear_grid();
        }
        let mut colors: Vec<Rgba> = self.inner.get_color_vec();
        storage.publish_pixel_map(&mut colors);
    }
}

impl Label for CellRealmComponent {
    fn label(&mut self) -> &'static str {
        "CellRealm"
    }
}

/// The closed set of attachable component kinds; each declares both `Run`
/// and `Update`.
#[derive(Clone, Copy, PartialEq, Eq, Structural)]
pub enum ComponentKind {
    Conway,
    Cells,
}

/// An attached component.
pub enum Component {
    Conway(ConwayGridComponent),
    Cells(CellRealmComponent),
}

/// The kind of a component.
pub open spec fn kind_of(c: Component) -> ComponentKind {
    match c {
        Component::Conway(_) => ComponentKind::Conway,
        Component::Cells(_) => ComponentKind::Cells,
    }
}

/// What one component's run phase may do to it.
pub open spec fn run_rel(a: Component, b: Component) -> bool {
    match (a, b) {
        (Component::Conway(x), Component::Conway(y)) => {
            &&& y.wf()
            &&& y.paused == x.paused
            &&& y.inner.width == x.inner.width
            &&& y.inner.height == x.inner.height
            &&& (x.paused ==> y.inner.cells@ == x.inner.cells@)
            &&& (!x.paused ==> y.inner.cells@ == life_step(
                x.inner.cells@,
                x.inner.width as int,
                x.inner.height as int,
            ))
        },
        (Component::Cells(x), Component::Cells(y)) => {
            &&& y.wf()
            &&& y.paused == x.paused
            &&& y.inner.width == x.inner.width
            &&& y.inner.height == x.inner.height
            &&& y.inner.cells@.len() == x.inner.cells@.len()
            &&& (x.paused ==> y.inner.cells@ == x.inner.cells@)
            &&& ((!x.paused && cell_can_fall(
                x.inner.cells@,
                x.inner.width as int,
                x.inner.height as int,
            )) ==> y.inner.cells@ != x.inner.cells@)
            &&& forall|k: Cell| count_cells(y.inner.cells@, k) == count_cells(x.inner.cells@, k)
            &&& forall|j: int|
                0 <= j < y.inner.cells@.len() ==> ((x.inner.cells@[j] == Cell::SOLID) <==> (
                y.inner.cells@[j] == Cell::SOLID))
        },
        _ => false,
    }
}

/// What one component's update phase does to its own contents.
pub open spec fn update_content_rel(a: Component, b: Component, inp: InputHandler) -> bool {
    match (a, b) {
        (Component::Conway(x), Component::Conway(y)) => {
            &&& y.wf()
            &&& y.inner.width == x.inner.width
            &&& y.inner.height == x.inner.height
            &&& y.paused == (if inp.pause_pressed {
                !x.paused
            } else {
                x.paused
            })
            &&& y.inner.cells@ == life_after_edits(x, inp)
        },
        (Component::Cells(x), Component::Cells(y)) => {
            &&& y.wf()
            &&& y.inner.width == x.inner.width
            &&& y.inner.height == x.inner.height
            &&& y.paused == (if inp.pause_pressed {
                !x.paused
            } else {
                x.paused
            })
            &&& y.inner.cells@ == sand_after_edits(x, inp)
        },
        _ => false,
    }
}

/// The colors a component publishes.
pub open spec fn colors_of(c: Component) -> Seq<Rgba> {
    match c {
        Component::Conway(x) => life_colors(x.inner.cells@),
        Component::Cells(x) => cell_colors(x.inner.cells@),
    }
}

impl Component {
    pub open spec fn wf(&self) -> bool {
        match self {
            Component::Conway(c) => c.wf(),
            Component::Cells(c) => c.wf(),
        }
    }

    pub fn label(&mut self) -> (r: &'static str) {
        match self {
            Component::Conway(c) => c.label(),
            Component::Cells(c) => c.label(),
        }
    }

    /// The run phase of one component: pure computation against shared
    /// storage.
    pub fn run(&mut self, storage: &Storage)
        requires
            old(self).wf(),
        ensures
            final(self).wf(),
            run_rel(*old(self), *final(self)),
    {
        match self {
            Component::Conway(c) => c.run(storage),
            Component::Cells(c) => c.run(storage),
        }
    }

    /// The update phase of one component: edits and publishing.
    pub fn update(&mut self, storage: &mut Storage, input: &InputHandler)
        requires
            old(self).wf(),
            old(storage).wf(),
        ensures
            final(self).wf(),
            update_content_rel(*old(self), *final(self), *input),
            publish_rel(*old(storage), *final(storage), colors_of(*final(self))),
    {
        match self {
            Component::Conway(c) => c.update(storage, input),
            Component::Cells(c) => c.update(storage, input),
        }
    }
}

} // verus!
