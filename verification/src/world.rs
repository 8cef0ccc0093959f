//! The entity/component registry and the two-phase tick orchestrator.
//! `run` drives one tick: every component's `Run` with shared storage (no
//! storage writes are possible there), then every component's `Update` with
//! the exclusive storage and the input snapshot, then the pixel buffer's
//! own input handling, with wall-clock sectors recorded around each phase.

use vstd::prelude::*;
use crate::component::{
    kind_of, run_rel, update_content_rel, Component, ComponentKind,
};
use crate::entity::{Entity, EntityManager};
use crate::input::InputHandler;
use crate::stats::{clock_micros, Stats};
use crate::storage::{has_pixel_map, pixel_map_of, Storage};

verus! {

/// A process-wide world identifier; ids are handed out by counting.
pub struct WorldId(pub usize);

impl WorldId {
    /// The id after `prev` ids have been created, if one is left.
    pub fn new(prev: usize) -> (r: Option<WorldId>)
        ensures
            prev < usize::MAX ==> r == Some(WorldId((prev + 1) as usize)),
            prev == usize::MAX ==> r == None::<WorldId>,
    {
        if prev < usize::MAX {
            Some(WorldId(prev + 1))
        } else {
            None
        }
    }
}

pub enum BucketAction {
    GET,
    PUT,
}

/// One dense per-kind component array, indexed by entity id.
pub struct ComponentArray {
    pub kind: ComponentKind,
    pub slots: Vec<Option<Component>>,
}

/// How one slot may change across the run phase.
pub open spec fn slot_run_related(x: Option<Component>, y: Option<Component>) -> bool {
    match (x, y) {
        (Option::None, Option::None) => true,
        (Option::Some(a), Option::Some(b)) => run_rel(a, b),
        _ => false,
    }
}

/// How one slot changes across the update phase.
pub open spec fn slot_update_related(
    x: Option<Component>,
    y: Option<Component>,
    inp: InputHandler,
) -> bool {
    match (x, y) {
        (Option::None, Option::None) => true,
        (Option::Some(a), Option::Some(b)) => update_content_rel(a, b, inp),
        _ => false,
    }
}

/// How one slot changes across a whole tick: a run step followed by an
/// update step.
pub open spec fn slot_tick_related(
    x: Option<Component>,
    y: Option<Component>,
    inp: InputHandler,
) -> bool {
    exists|m: Option<Component>| slot_run_related(x, m) && slot_update_related(m, y, inp)
}

/// Across one tick, a sand component that receives no editing input keeps
/// the count of every cell kind: sand, water and solid are conserved.
pub proof fn lemma_tick_preserves_sand_counts(
    x: Option<Component>,
    y: Option<Component>,
    inp: InputHandler,
    k: crate::sand::Cell,
)
    requires
        slot_tick_related(x, y, inp),
        match x {
            Option::Some(c) => c is Cells,
            Option::None => false,
        },
        !inp.mouse_left_held,
        !inp.mouse_right_held,
        !inp.mouse_middle_held,
        !inp.clear_pressed,
    ensures
        match (x, y) {
            (Option::Some(Component::Cells(a)), Option::Some(Component::Cells(b))) =>
                crate::sand::count_cells(b.inner.cells@, k) == crate::sand::count_cells(
                a.inner.cells@,
                k,
            ),
            _ => false,
        },
{
    let m = choose|m: Option<Component>|
        slot_run_related(x, m) && slot_update_related(m, y, inp);
    match (x, m, y) {
        (
            Option::Some(Component::Cells(a)),
            Option::Some(Component::Cells(mm)),
            Option::Some(Component::Cells(b)),
        ) => {
            assert(crate::sand::count_cells(mm.inner.cells@, k) == crate::sand::count_cells(
                a.inner.cells@,
                k,
            ));
            assert(b.inner.cells@ == crate::component::sand_after_edits(mm, inp));
            assert(b.inner.cells@ == mm.inner.cells@);
        },
        _ => {
            assert(false);
        },
    }
}

/// Across one tick, both grid engines keep their dimensions, so the cell
/// buffers keep their `width * height` lengths.
pub proof fn lemma_tick_preserves_grid_size(
    x: Option<Component>,
    y: Option<Component>,
    inp: InputHandler,
)
    requires
        slot_tick_related(x, y, inp),
        x.is_some(),
    ensures
        match (x, y) {
            (Option::Some(Component::Conway(a)), Option::Some(Component::Conway(b))) => {
                &&& b.inner.width == a.inner.width
                &&& b.inner.height == a.inner.height
                &&& b.inner.cells@.len() == b.inner.width * b.inner.height
            },
            (Option::Some(Component::Cells(a)), Option::Some(Component::Cells(b))) => {
                &&& b.inner.width == a.inner.width
                &&& b.inner.height == a.inner.height
                &&& b.inner.cells@.len() == b.inner.width * b.inner.height
            },
            _ => false,
        },
{
    let m = choose|m: Option<Component>|
        slot_run_related(x, m) && slot_update_related(m, y, inp);
    assert(slot_run_related(x, m) && slot_update_related(m, y, inp));
}

/// The components present in `slots` at the given entities' ids, in input
/// order, skipping entities whose slot is empty.
pub open spec fn gathered(slots: Seq<Option<Component>>, ents: Seq<Entity>) -> Seq<Component>
    decreases ents.len(),
{
    if ents.len() == 0 {
        Seq::empty()
    } else {
        gathered(slots, ents.drop_last()) + (match slots[ents.last().id as int] {
            Option::Some(c) => seq![c],
            Option::None => Seq::empty(),
        })
    }
}

pub struct World {
    pub id: WorldId,
    pub entities: EntityManager,
    pub component_vecs: Vec<ComponentArray>,
    pub storage: Storage,
    pub stats: Stats,
    pub input: InputHandler,
    pub paused: bool,
}

impl World {
    /// The registry invariant: every array is dense over all ids ever
    /// created, kinds are unique, and every attached component is
    /// well-formed and of its array's kind.
    pub open spec fn wf(&self) -> bool {
        &&& self.entities.wf()
        &&& self.storage.wf()
        &&& self.stats.wf()
        &&& self.input.wf()
        &&& forall|a: int|
            0 <= a < self.component_vecs@.len() ==> (#[trigger] self.component_vecs@[a]).slots@.len()
                == self.entities.id_counter
        &&& forall|a: int, b: int|
            0 <= a < b < self.component_vecs@.len() ==> self.component_vecs@[a].kind
                != self.component_vecs@[b].kind
        &&& forall|a: int, s: int|
            0 <= a < self.component_vecs@.len() && 0 <= s < self.component_vecs@[a].slots@.len()
                ==> match #[trigger] self.component_vecs@[a].slots@[s] {
                Option::Some(c) => c.wf() && kind_of(c) == self.component_vecs@[a].kind,
                Option::None => true,
            }
    }

    /// Whether an array of this kind exists.
    pub open spec fn spec_has_kind(&self, kind: ComponentKind) -> bool {
        exists|a: int|
            0 <= a < self.component_vecs@.len() && (#[trigger] self.component_vecs@[a]).kind
                == kind
    }

    /// A fresh world: no entities, no components, empty storage.
    pub fn new() -> (w: World)
        ensures
            w.wf(),
            w.entities.id_counter == 0,
            w.component_vecs@.len() == 0,
            w.storage.buckets@.len() == 0,
            !w.paused,
    {
        let id: WorldId = match WorldId::new(0) {
            Option::Some(id) => id,
            Option::None => {
                proof {
                    assert(false);
                }
                vstd::pervasive::unreached()
            },
        };
        World {
            id,
            entities: EntityManager::new(),
            component_vecs: Vec::new(),
            storage: Storage::new(),
            stats: Stats::new(),
            input: InputHandler::new(),
            paused: false,
        }
    }

    /// Create a new entity; every existing component array grows by one
    /// empty slot.
    #[verifier::loop_isolation(false)]
    pub fn spawn(&mut self) -> (e: Entity)
        requires
            old(self).wf(),
            old(self).entities.id_counter < usize::MAX,
        ensures
            final(self).wf(),
            e.id == old(self).entities.id_counter,
            final(self).entities.id_counter == old(self).entities.id_counter + 1,
            final(self).component_vecs@.len() == old(self).component_vecs@.len(),
            forall|a: int|
                0 <= a < old(self).component_vecs@.len() ==> {
                    &&& (#[trigger] final(self).component_vecs@[a]).kind
                        == old(self).component_vecs@[a].kind
                    &&& final(self).component_vecs@[a].slots@ == old(
                        self,
                    ).component_vecs@[a].slots@.push(Option::None)
                },
            final(self).storage == old(self).storage,
    {
        self.new_entity()
    }

    #[verifier::loop_isolation(false)]
    fn new_entity(&mut self) -> (e: Entity)
        requires
            old(self).wf(),
            old(self).entities.id_counter < usize::MAX,
        ensures
            final(self).wf(),
            e.id == old(self).entities.id_counter,
            final(self).entities.id_counter == old(self).entities.id_counter + 1,
            final(self).component_vecs@.len() == old(self).component_vecs@.len(),
            forall|a: int|
                0 <= a < old(self).component_vecs@.len() ==> {
                    &&& (#[trigger] final(self).component_vecs@[a]).kind
                        == old(self).component_vecs@[a].kind
                    &&& final(self).component_vecs@[a].slots@ == old(
                        self,
                    ).component_vecs@[a].slots@.push(Option::None)
                },
            final(self).storage == old(self).storage,
    {
        let entity: Entity = self.entities.create();
        let ghost cv0 = self.component_vecs@;
        let n: usize = self.component_vecs.len();
        let mut a: usize = 0;
        while a < n
            invariant
                a <= n,
                n == self.component_vecs@.len(),
                cv0.len() == n,
                self.entities.wf(),
                self.entities.id_counter == old(self).entities.id_counter + 1,
                entity.id == old(self).entities.id_counter,
                self.storage == old(self).storage,
                self.stats == old(self).stats,
                self.input == old(self).input,
                self.storage.wf(),
                self.stats.wf(),
                self.input.wf(),
                forall|i: int|
                    0 <= i < a ==> {
                        &&& (#[trigger] self.component_vecs@[i]).kind == cv0[i].kind
                        &&& self.component_vecs@[i].slots@ == cv0[i].slots@.push(Option::None)
                    },
                forall|i: int| a <= i < n ==> self.component_vecs@[i] == cv0[i],
            decreases n - a,
        {
            self.component_vecs[a].slots.push(None);
            a = a + 1;
        }
        proof {
            assert forall|i: int, s: int|
                0 <= i < self.component_vecs@.len() && 0 <= s
                    < self.component_vecs@[i].slots@.len() implies match #[trigger] self.component_vecs@[i].slots@[s] {
                Option::Some(c) => c.wf() && kind_of(c) == self.component_vecs@[i].kind,
                Option::None => true,
            } by {
                if s < cv0[i].slots@.len() {
                    assert(self.component_vecs@[i].slots@[s] == cv0[i].slots@[s]);
                }
            }
        }
        entity
    }

    /// Attach a component to an entity. If an array of its kind exists,
    /// the entity's slot is written; otherwise a new dense array is
    /// installed holding only this component.
    #[verifier::loop_isolation(false)]
    pub fn add_component_to_entity(&mut self, entity: Entity, component: Component)
        requires
            old(self).wf(),
            entity.id < old(self).entities.id_counter,
            component.wf(),
        ensures
            final(self).wf(),
            final(self).entities == old(self).entities,
            final(self).storage == old(self).storage,
            old(self).spec_has_kind(kind_of(component)) ==> {
                &&& final(self).component_vecs@.len() == old(self).component_vecs@.len()
                &&& exists|a: int|
                    {
                        &&& 0 <= a < old(self).component_vecs@.len()
                        &&& old(self).component_vecs@[a].kind == kind_of(component)
                        &&& final(self).component_vecs@ == old(self).component_vecs@.update(
                            a,
                            ComponentArray {
                                kind: old(self).component_vecs@[a].kind,
                                slots: final(self).component_vecs@[a].slots,
                            },
                        )
                        &&& final(self).component_vecs@[a].slots@ == old(
                            self,
                        ).component_vecs@[a].slots@.update(entity.id as int, Option::Some(component))
                    }
            },
            !old(self).spec_has_kind(kind_of(component)) ==> {
                &&& final(self).component_vecs@.len() == old(self).component_vecs@.len() + 1
                &&& forall|a: int|
                    0 <= a < old(self).component_vecs@.len() ==> final(self).component_vecs@[a]
                        == old(self).component_vecs@[a]
                &&& final(self).component_vecs@.last().kind == kind_of(component)
                &&& final(self).component_vecs@.last().slots@ == Seq::new(
                    old(self).entities.id_counter as nat,
                    |j: int|
                        if j == entity.id {
                            Option::Some(component)
                        } else {
                            Option::None
                        },
                )
            },
    {
        let kind: ComponentKind = match &component {
            Component::Conway(_) => ComponentKind::Conway,
            Component::Cells(_) => ComponentKind::Cells,
        };
        let ghost cv0 = self.component_vecs@;
        let n: usize = self.component_vecs.len();
        let mut a: usize = 0;
        while a < n
            invariant
                a <= n,
                n == self.component_vecs@.len(),
                self.component_vecs@ == cv0,
                *self == *old(self),
                kind == kind_of(component),
                forall|i: int| 0 <= i < a ==> (#[trigger] cv0[i]).kind != kind,
            decreases n - a,
        {
            if self.component_vecs[a].kind == kind {
                self.component_vecs[a].slots.set(entity.id, Some(component));
                proof {
                    assert(final(self).component_vecs@[a as int].slots@ == cv0[a as int].slots@.update(
                        entity.id as int,
                        Option::Some(component),
                    ));
                    assert(self.component_vecs@ =~= cv0.update(
                        a as int,
                        ComponentArray {
                            kind: cv0[a as int].kind,
                            slots: self.component_vecs@[a as int].slots,
                        },
                    ));
                    assert(old(self).spec_has_kind(kind));
                    assert forall|i: int, s: int|
                        0 <= i < self.component_vecs@.len() && 0 <= s
                            < self.component_vecs@[i].slots@.len() implies match #[trigger] self.component_vecs@[i].slots@[s] {
                        Option::Some(c) => c.wf() && kind_of(c) == self.component_vecs@[i].kind,
                        Option::None => true,
                    } by {
                        if i != a || s != entity.id {
                            assert(self.component_vecs@[i].slots@[s] == cv0[i].slots@[s]);
                        }
                    }
                }
                return ;
            }
            a = a + 1;
        }
        let count: usize = self.entities.id_counter;
        let mut slots: Vec<Option<Component>> = Vec::new();
        let mut j: usize = 0;
        while j < count
            invariant
                j <= count,
                slots@.len() == j,
                forall|i: int| 0 <= i < j ==> slots@[i] == Option::<Component>::None,
            decreases count - j,
        {
            slots.push(None);
            j = j + 1;
        }
        slots.set(entity.id, Some(component));
        let arr: ComponentArray = ComponentArray { kind, slots };
        self.component_vecs.push(arr);
        proof {
            assert(!old(self).spec_has_kind(kind)) by {
                assert forall|i: int|
                    0 <= i < cv0.len() implies (#[trigger] cv0[i]).kind != kind by {}
            }
            assert(final(self).component_vecs@.last().slots@ =~= Seq::new(
                old(self).entities.id_counter as nat,
                |jj: int|
                    if jj == entity.id {
                        Option::Some(component)
                    } else {
                        Option::<Component>::None
                    },
            ));
            assert forall|i: int, s: int|
                0 <= i < self.component_vecs@.len() && 0 <= s
                    < self.component_vecs@[i].slots@.len() implies match #[trigger] self.component_vecs@[i].slots@[s] {
                Option::Some(c) => c.wf() && kind_of(c) == self.component_vecs@[i].kind,
                Option::None => true,
            } by {
                if i < cv0.len() {
                    assert(self.component_vecs@[i] == cv0[i]);
                }
            }
        }
    }

    /// The components of the given kind attached to the given entities, in
    /// input order, skipping entities without one; `None` when no array of
    /// that kind exists.
    #[verifier::loop_isolation(false)]
    pub fn query_components(&self, entities: &Vec<Entity>, kind: ComponentKind) -> (r: Option<
        Vec<&Component>,
    >)
        requires
            self.wf(),
            forall|i: int| 0 <= i < entities@.len() ==> (#[trigger] entities@[i]).id
                < self.entities.id_counter,
        ensures
            r.is_some() == self.spec_has_kind(kind),
            match r {
                Option::Some(v) => exists|a: int|
                    {
                        &&& 0 <= a < self.component_vecs@.len()
                        &&& (#[trigger] self.component_vecs@[a]).kind == kind
                        &&& v@.map_values(|c: &Component| *c) == gathered(
                            self.component_vecs@[a].slots@,
                            entities@,
                        )
                    },
                Option::None => true,
            },
    {
        let n: usize = self.component_vecs.len();
        let mut a: usize = 0;
        while a < n
            invariant
                a <= n,
                self.wf(),
                n == self.component_vecs@.len(),
                forall|i: int| 0 <= i < entities@.len() ==> (#[trigger] entities@[i]).id
                    < self.entities.id_counter,
                forall|i: int| 0 <= i < a ==> (#[trigger] self.component_vecs@[i]).kind != kind,
            decreases n - a,
        {
            if self.component_vecs[a].kind == kind {
                let slots: &Vec<Option<Component>> = &self.component_vecs[a].slots;
                let m: usize = entities.len();
                let mut v: Vec<&Component> = Vec::new();
                let mut i: usize = 0;
                while i < m
                    invariant
                        i <= m,
                        m == entities@.len(),
                        a < self.component_vecs@.len(),
                        self.wf(),
                        slots == self.component_vecs@[a as int].slots,
                        self.component_vecs@[a as int].kind == kind,
                        forall|ii: int| 0 <= ii < entities@.len() ==> (#[trigger] entities@[ii]).id
                            < self.entities.id_counter,
                        v@.map_values(|c: &Component| *c) == gathered(
                            slots@,
                            entities@.take(i as int),
                        ),
                    decreases m - i,
                {
                    let e: Entity = entities[i];
                    let ghost v0 = v@;
                    match &slots[e.id] {
                        Some(c) => {
                            v.push(c);
                        },
                        None => {},
                    }
                    proof {
                        assert(entities@.take(i + 1).drop_last() =~= entities@.take(i as int));
                        assert(entities@.take(i + 1).last() == entities@[i as int]);
                        assert(v@.map_values(|c: &Component| *c) =~= gathered(
                            slots@,
                            entities@.take(i + 1),
                        ));
                    }
                    i = i + 1;
                }
                proof {
                    assert(entities@.take(m as int) =~= entities@);
                }
                return Some(v);
            }
            a = a + 1;
        }
        None
    }

    pub fn toggle_paused(&mut self)
        ensures
            final(self).paused == !old(self).paused,
            *final(self) == (World { paused: !old(self).paused, ..*old(self) }),
    {
        self.paused = !self.paused;
    }

    /// Pause-toggle input handling; this runs even while paused.
    pub fn handle_input(&mut self)
        ensures
            final(self).paused == (if old(self).input.pause_pressed {
                !old(self).paused
            } else {
                old(self).paused
            }),
            *final(self) == (World { paused: final(self).paused, ..*old(self) }),
    {
        if self.input.pause_pressed {
            self.toggle_paused();
        }
    }

    /// The run phase: every attached component computes against the shared
    /// storage. The storage cannot change here: this is what keeps every
    /// update of this tick from observing a run-phase write.
    #[verifier::loop_isolation(false)]
    pub fn run_all(&mut self)
        requires
            old(self).wf(),
        ensures
            final(self).wf(),
            final(self).storage == old(self).storage,
            final(self).entities == old(self).entities,
            final(self).stats == old(self).stats,
            final(self).input == old(self).input,
            final(self).paused == old(self).paused,
            final(self).component_vecs@.len() == old(self).component_vecs@.len(),
            forall|a: int|
                0 <= a < old(self).component_vecs@.len() ==> {
                    &&& (#[trigger] final(self).component_vecs@[a]).kind
                        == old(self).component_vecs@[a].kind
                    &&& final(self).component_vecs@[a].slots@.len() == old(
                        self,
                    ).component_vecs@[a].slots@.len()
                    &&& forall|s: int|
                        0 <= s < old(self).component_vecs@[a].slots@.len() ==> slot_run_related(
                            old(self).component_vecs@[a].slots@[s],
                            #[trigger] final(self).component_vecs@[a].slots@[s],
                        )
                },
    {
        let ghost cv0 = self.component_vecs@;
        let n: usize = self.component_vecs.len();
        let mut a: usize = 0;
        while a < n
            invariant
                a <= n,
                n == self.component_vecs@.len(),
                cv0.len() == n,
                self.wf(),
                self.storage == old(self).storage,
                self.entities == old(self).entities,
                self.stats == old(self).stats,
                self.input == old(self).input,
                self.paused == old(self).paused,
                forall|i: int|
                    0 <= i < n ==> {
                        &&& (#[trigger] self.component_vecs@[i]).kind == cv0[i].kind
                        &&& self.component_vecs@[i].slots@.len() == cv0[i].slots@.len()
                    },
                forall|i: int, s: int|
                    0 <= i < a && 0 <= s < cv0[i].slots@.len() ==> slot_run_related(
                        cv0[i].slots@[s],
                        #[trigger] self.component_vecs@[i].slots@[s],
                    ),
                forall|i: int| a <= i < n ==> self.component_vecs@[i] == cv0[i],
            decreases n - a,
        {
            let ghost arr0 = self.component_vecs@[a as int].slots@;
            let m: usize = self.component_vecs[a].slots.len();
            let mut s: usize = 0;
            while s < m
                invariant
                    s <= m,
                    a < n,
                    n == self.component_vecs@.len(),
                    cv0.len() == n,
                    m == self.component_vecs@[a as int].slots@.len(),
                    arr0 == cv0[a as int].slots@,
                    self.wf(),
                    self.storage == old(self).storage,
                    self.entities == old(self).entities,
                    self.stats == old(self).stats,
                    self.input == old(self).input,
                    self.paused == old(self).paused,
                    forall|i: int|
                        0 <= i < n ==> {
                            &&& (#[trigger] self.component_vecs@[i]).kind == cv0[i].kind
                            &&& self.component_vecs@[i].slots@.len() == cv0[i].slots@.len()
                        },
                    forall|i: int, ss: int|
                        0 <= i < a && 0 <= ss < cv0[i].slots@.len() ==> slot_run_related(
                            cv0[i].slots@[ss],
                            #[trigger] self.component_vecs@[i].slots@[ss],
                        ),
                    forall|i: int| a < i < n ==> self.component_vecs@[i] == cv0[i],
                    forall|ss: int|
                        0 <= ss < s ==> slot_run_related(
                            arr0[ss],
                            #[trigger] self.component_vecs@[a as int].slots@[ss],
                        ),
                    forall|ss: int|
                        s <= ss < m ==> self.component_vecs@[a as int].slots@[ss] == arr0[ss],
                decreases m - s,
            {
                let mut tmp: Option<Component> = None;
                core::mem::swap(&mut self.component_vecs[a].slots[s], &mut tmp);
                match tmp {
                    Some(mut c) => {
                        c.run(&self.storage);
                        self.component_vecs[a].slots.set(s, Some(c));
                    },
                    None => {},
                }
                proof {
                    assert forall|ss: int|
                        0 <= ss < s + 1 implies slot_run_related(
                        arr0[ss],
                        #[trigger] self.component_vecs@[a as int].slots@[ss],
                    ) by {}
                }
                s = s + 1;
            }
            a = a + 1;
        }
    }

    /// The update phase: every attached component edits itself from the
    /// input and publishes through the exclusive storage.
    #[verifier::loop_isolation(false)]
    pub fn update_all(&mut self)
        requires
            old(self).wf(),
        ensures
            final(self).wf(),
            final(self).entities == old(self).entities,
            final(self).stats == old(self).stats,
            final(self).input == old(self).input,
            final(self).paused == old(self).paused,
            has_pixel_map(final(self).storage) == has_pixel_map(old(self).storage),
            has_pixel_map(old(self).storage) ==> pixel_map_of(final(self).storage) == (
            crate::pixelmap::GlobalPixelMap {
                pixelmap: pixel_map_of(final(self).storage).pixelmap,
                ..pixel_map_of(old(self).storage)
            }),
            forall|key: Seq<char>|
                key != "pixelmap"@ ==> final(self).storage.spec_get(key)
                    == old(self).storage.spec_get(key),
            final(self).component_vecs@.len() == old(self).component_vecs@.len(),
            forall|a: int|
                0 <= a < old(self).component_vecs@.len() ==> {
                    &&& (#[trigger] final(self).component_vecs@[a]).kind
                        == old(self).component_vecs@[a].kind
                    &&& final(self).component_vecs@[a].slots@.len() == old(
                        self,
                    ).component_vecs@[a].slots@.len()
                    &&& forall|s: int|
                        0 <= s < old(self).component_vecs@[a].slots@.len() ==> slot_update_related(
                            old(self).component_vecs@[a].slots@[s],
                            #[trigger] final(self).component_vecs@[a].slots@[s],
                            old(self).input,
                        )
                },
    {
        let ghost cv0 = self.component_vecs@;
        let n: usize = self.component_vecs.len();
        let mut a: usize = 0;
        while a < n
            invariant
                a <= n,
                n == self.component_vecs@.len(),
                cv0.len() == n,
                self.wf(),
                self.entities == old(self).entities,
                self.stats == old(self).stats,
                self.input == old(self).input,
                self.paused == old(self).paused,
                has_pixel_map(self.storage) == has_pixel_map(old(self).storage),
                has_pixel_map(old(self).storage) ==> pixel_map_of(self.storage) == (
                crate::pixelmap::GlobalPixelMap {
                    pixelmap: pixel_map_of(self.storage).pixelmap,
                    ..pixel_map_of(old(self).storage)
                }),
                forall|key: Seq<char>|
                    key != "pixelmap"@ ==> self.storage.spec_get(key) == old(
                        self,
                    ).storage.spec_get(key),
                forall|i: int|
                    0 <= i < n ==> {
                        &&& (#[trigger] self.component_vecs@[i]).kind == cv0[i].kind
                        &&& self.component_vecs@[i].slots@.len() == cv0[i].slots@.len()
                    },
                forall|i: int, s: int|
                    0 <= i < a && 0 <= s < cv0[i].slots@.len() ==> slot_update_related(
                        cv0[i].slots@[s],
                        #[trigger] self.component_vecs@[i].slots@[s],
                        old(self).input,
                    ),
                forall|i: int| a <= i < n ==> self.component_vecs@[i] == cv0[i],
            decreases n - a,
        {
            let ghost arr0 = self.component_vecs@[a as int].slots@;
            let m: usize = self.component_vecs[a].slots.len();
            let mut s: usize = 0;
            while s < m
                invariant
                    s <= m,
                    a < n,
                    n == self.component_vecs@.len(),
                    cv0.len() == n,
                    m == self.component_vecs@[a as int].slots@.len(),
                    arr0 == cv0[a as int].slots@,
                    self.wf(),
                    self.entities == old(self).entities,
                    self.stats == old(self).stats,
                    self.input == old(self).input,
                    self.paused == old(self).paused,
                    has_pixel_map(self.storage) == has_pixel_map(old(self).storage),
                    has_pixel_map(old(self).storage) ==> pixel_map_of(self.storage) == (
                    crate::pixelmap::GlobalPixelMap {
                        pixelmap: pixel_map_of(self.storage).pixelmap,
                        ..pixel_map_of(old(self).storage)
                    }),
                    forall|key: Seq<char>|
                        key != "pixelmap"@ ==> self.storage.spec_get(key) == old(
                            self,
                        ).storage.spec_get(key),
                    forall|i: int|
                        0 <= i < n ==> {
                            &&& (#[trigger] self.component_vecs@[i]).kind == cv0[i].kind
                            &&& self.component_vecs@[i].slots@.len() == cv0[i].slots@.len()
                        },
                    forall|i: int, ss: int|
                        0 <= i < a && 0 <= ss < cv0[i].slots@.len() ==> slot_update_related(
                            cv0[i].slots@[ss],
                            #[trigger] self.component_vecs@[i].slots@[ss],
                            old(self).input,
                        ),
                    forall|i: int| a < i < n ==> self.component_vecs@[i] == cv0[i],
                    forall|ss: int|
                        0 <= ss < s ==> slot_update_related(
                            arr0[ss],
                            #[trigger] self.component_vecs@[a as int].slots@[ss],
                            old(self).input,
                        ),
                    forall|ss: int|
                        s <= ss < m ==> self.component_vecs@[a as int].slots@[ss] == arr0[ss],
                decreases m - s,
            {
                let mut tmp: Option<Component> = None;
                core::mem::swap(&mut self.component_vecs[a].slots[s], &mut tmp);
                match tmp {
                    Some(mut c) => {
                        let input_copy: InputHandler = self.input;
                        c.update(&mut self.storage, &input_copy);
                        self.component_vecs[a].slots.set(s, Some(c));
                    },
                    None => {},
                }
                proof {
                    assert forall|ss: int|
                        0 <= ss < s + 1 implies slot_update_related(
                        arr0[ss],
                        #[trigger] self.component_vecs@[a as int].slots@[ss],
                        old(self).input,
                    ) by {}
                }
                s = s + 1;
            }
            a = a + 1;
        }
    }

    /// One tick. Pause-toggle handling always runs; while paused, both
    /// phases are skipped. Otherwise the run phase completes before any
    /// update begins, the pixel buffer consumes the input last, and the
    /// wall-clock seconds of both phases are recorded as sectors.
    #[verifier::loop_isolation(false)]
    pub fn run(&mut self)
        requires
            old(self).wf(),
        ensures
            final(self).wf(),
            final(self).entities == old(self).entities,
            final(self).input == old(self).input,
            final(self).paused == (if old(self).input.pause_pressed {
                !old(self).paused
            } else {
                old(self).paused
            }),
            final(self).component_vecs@.len() == old(self).component_vecs@.len(),
            forall|a: int|
                0 <= a < old(self).component_vecs@.len() ==> (
                #[trigger] final(self).component_vecs@[a]).kind == old(
                    self,
                ).component_vecs@[a].kind && final(self).component_vecs@[a].slots@.len() == old(
                    self,
                ).component_vecs@[a].slots@.len(),
            final(self).paused ==> final(self).component_vecs@ == old(self).component_vecs@
                && final(self).storage == old(self).storage,
            !final(self).paused ==> {
                &&& has_pixel_map(final(self).storage) == has_pixel_map(old(self).storage)
                &&& has_pixel_map(old(self).storage)
                    ==> pixel_map_of(final(self).storage).camera
                    == crate::pixelmap::GlobalPixelMap::camera_after_update(
                    pixel_map_of(old(self).storage).camera,
                    old(self).input,
                )
                &&& forall|key: Seq<char>|
                    key != "pixelmap"@ ==> final(self).storage.spec_get(key)
                        == old(self).storage.spec_get(key)
                &&& forall|a: int, s: int|
                    0 <= a < old(self).component_vecs@.len() && 0 <= s < old(
                        self,
                    ).component_vecs@[a].slots@.len() ==> slot_tick_related(
                        old(self).component_vecs@[a].slots@[s],
                        #[trigger] final(self).component_vecs@[a].slots@[s],
                        old(self).input,
                    )
            },
    {
        self.stats.new_tick();
        self.handle_input();
        if self.paused {
            return ;
        }
        let ghost mid_input = self.input;
        let t0: u64 = clock_micros();
        self.run_all();
        let ghost cv_mid = self.component_vecs@;
        let t1: u64 = clock_micros();
        let run_micros: u64 = if t1 >= t0 {
            t1 - t0
        } else {
            0
        };
        self.stats.update_sector("run()", run_micros);
        let t2: u64 = clock_micros();
        self.update_all();
        let has_pm: bool = self.storage.query_global_pixel_map().is_some();
        if has_pm {
            let input_copy: InputHandler = self.input;
            self.storage.update_global_pixel_map(&input_copy);
        }
        let t3: u64 = clock_micros();
        let update_micros: u64 = if t3 >= t2 {
            t3 - t2
        } else {
            0
        };
        self.stats.update_sector("update()", update_micros);
        proof {
            assert forall|a: int, s: int|
                0 <= a < old(self).component_vecs@.len() && 0 <= s < old(
                    self,
                ).component_vecs@[a].slots@.len() implies slot_tick_related(
                old(self).component_vecs@[a].slots@[s],
                #[trigger] self.component_vecs@[a].slots@[s],
                old(self).input,
            ) by {
                let mid = cv_mid[a].slots@[s];
                assert(slot_run_related(old(self).component_vecs@[a].slots@[s], mid));
                assert(slot_update_related(mid, self.component_vecs@[a].slots@[s], mid_input));
            }
        }
    }

    fn spawn_random_terrain() {
    }

    fn serialize() {
    }
}

} // verus!
