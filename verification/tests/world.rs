use pixpox::camera::Camera;
use pixpox::component::{CellRealmComponent, Component, ComponentKind, ConwayGridComponent};
use pixpox::entity::EntityManager;
use pixpox::pixelmap::GlobalPixelMap;
use pixpox::sand::Cell;
use pixpox::stats::Stats;
use pixpox::storage::{Bucket, Storage};
use pixpox::world::{World, WorldId};

#[test]
fn world_ids_count_up_and_run_out() {
    match WorldId::new(0) {
        Some(WorldId(id)) => assert_eq!(id, 1),
        None => panic!("an id must be available"),
    }
    assert!(WorldId::new(usize::MAX).is_none());
}

#[test]
fn entity_ids_are_monotone_and_never_reused() {
    let mut m = EntityManager::new();
    let a = m.create();
    let b = m.create();
    assert_eq!((a.id, b.id), (0, 1));
    assert_eq!(m.living_entity_count, 2);
    m.destroy(a);
    assert_eq!(m.living_entity_count, 1);
    let c = m.create();
    assert_eq!(c.id, 2);
}

#[test]
fn storage_binds_queries_and_rebinds() {
    let mut s = Storage::new();
    assert!(!s.has_bucket("grid-size"));
    s.new_bucket("grid-size", Bucket::Pair(640, 480));
    assert!(s.has_bucket("grid-size"));
    match s.query_storage("grid-size") {
        Some(Bucket::Pair(w, h)) => assert_eq!((*w, *h), (640, 480)),
        _ => panic!("expected the bound pair"),
    }
    s.new_bucket("grid-size", Bucket::Pair(1, 2));
    match s.query_storage("grid-size") {
        Some(Bucket::Pair(w, h)) => assert_eq!((*w, *h), (1, 2)),
        _ => panic!("expected the rebound pair"),
    }
    assert!(s.query_storage("missing").is_none());
}

#[test]
fn storage_mut_borrow_writes_through() {
    let mut s = Storage::new();
    s.new_bucket("ticks", Bucket::Counter(41));
    {
        let b = s.query_storage_mut("ticks");
        if let Bucket::Counter(n) = b {
            *n += 1;
        }
    }
    match s.query_storage("ticks") {
        Some(Bucket::Counter(n)) => assert_eq!(*n, 42),
        _ => panic!("expected the counter"),
    }
}

#[test]
fn stats_sectors_record_and_overwrite() {
    let mut st = Stats::new();
    assert_eq!(st.get_sector("run()"), None);
    st.update_sector("run()", 120);
    st.update_sector("update()", 80);
    assert_eq!(st.get_sector("run()"), Some(120));
    st.update_sector("run()", 7);
    assert_eq!(st.get_sector("run()"), Some(7));
    assert_eq!(st.get_sector("update()"), Some(80));
}

#[test]
fn spawning_grows_every_component_array() {
    let mut w = World::new();
    let e0 = w.spawn();
    let comp = ConwayGridComponent::new(5, 5, 0);
    w.add_component_to_entity(e0, Component::Conway(comp));
    let e1 = w.spawn();
    assert_eq!((e0.id, e1.id), (0, 1));
    let ents = vec![e0, e1];
    let found = w.query_components(&ents, ComponentKind::Conway).expect("array must exist");
    assert_eq!(found.len(), 1);
    assert!(w.query_components(&ents, ComponentKind::Cells).is_none());
}

#[test]
fn component_labels_carry_over() {
    let mut conway = Component::Conway(ConwayGridComponent::new(5, 5, 0));
    let mut cells = Component::Cells(CellRealmComponent::new(5, 5));
    assert_eq!(conway.label(), "ConwayGrid");
    assert_eq!(cells.label(), "CellRealm");
}

fn blinker_world() -> World {
    let mut w = World::new();
    let e = w.spawn();
    let mut comp = ConwayGridComponent::new(5, 5, 0);
    comp.paused = false;
    comp.inner.set_cell((1, 2), true);
    comp.inner.set_cell((2, 2), true);
    comp.inner.set_cell((3, 2), true);
    w.add_component_to_entity(e, Component::Conway(comp));
    let cam = Camera::new_with_limits(0, 0, 5, 5, 5, 5, 1, 1);
    let pm = GlobalPixelMap::new_empty(5, 5, cam);
    w.storage.new_global_pixel_map(pm);
    w
}

#[test]
fn a_tick_steps_the_life_component_and_publishes_colors() {
    let mut w = blinker_world();
    w.run();
    let ents = vec![pixpox::entity::Entity { id: 0 }];
    let found = w.query_components(&ents, ComponentKind::Conway).expect("array must exist");
    match found[0] {
        Component::Conway(c) => {
            assert!(c.inner.cells[1 * 5 + 2]);
            assert!(c.inner.cells[2 * 5 + 2]);
            assert!(c.inner.cells[3 * 5 + 2]);
            assert!(!c.inner.cells[2 * 5 + 1]);
        },
        _ => panic!("expected the life component"),
    }
    // The published pixelmap shows the stepped grid.
    let pm = w.storage.query_global_pixel_map().expect("pixelmap must be bound");
    let alive = pm.pixelmap.iter().filter(|p| p.b == 200).count();
    assert_eq!(alive, 3);
    assert_eq!(pm.pixelmap[1 * 5 + 2].b, 200);
    // Both phase sectors were recorded.
    assert!(w.stats.get_sector("run()").is_some());
    assert!(w.stats.get_sector("update()").is_some());
}

#[test]
fn two_ticks_bring_the_blinker_back() {
    let mut w = blinker_world();
    w.run();
    w.run();
    let pm = w.storage.query_global_pixel_map().expect("pixelmap must be bound");
    assert_eq!(pm.pixelmap[2 * 5 + 1].b, 200);
    assert_eq!(pm.pixelmap[2 * 5 + 2].b, 200);
    assert_eq!(pm.pixelmap[2 * 5 + 3].b, 200);
    assert_eq!(pm.pixelmap.iter().filter(|p| p.b == 200).count(), 3);
}

#[test]
fn pause_skips_both_phases() {
    let mut w = blinker_world();
    w.input.pause_pressed = true;
    w.run();
    assert!(w.paused);
    // The world paused before the phases ran: nothing was published.
    let pm = w.storage.query_global_pixel_map().expect("pixelmap must be bound");
    assert!(pm.pixelmap.iter().all(|p| p.a == 0));
    // Pressing pause again resumes on the next tick.
    w.run();
    assert!(!w.paused);
}

#[test]
fn a_sand_world_conserves_its_grains_across_ticks() {
    let mut w = World::new();
    let e = w.spawn();
    let mut comp = CellRealmComponent::new(6, 6);
    comp.inner.set_pos((2, 0), Cell::SAND);
    comp.inner.set_pos((3, 0), Cell::WATER);
    for x in 0..6 {
        comp.inner.set_pos((x, 5), Cell::SOLID);
    }
    w.add_component_to_entity(e, Component::Cells(comp));
    for _ in 0..8 {
        w.run();
    }
    let ents = vec![e];
    let found = w.query_components(&ents, ComponentKind::Cells).expect("array must exist");
    match found[0] {
        Component::Cells(c) => {
            let count = |k: Cell| c.inner.cells.iter().filter(|x| **x == k).count();
            assert_eq!(count(Cell::SAND), 1);
            assert_eq!(count(Cell::WATER), 1);
            assert_eq!(count(Cell::SOLID), 6);
        },
        _ => panic!("expected the sand component"),
    }
}

#[test]
fn run_phase_cannot_change_the_storage() {
    // The run phase only hands out a shared borrow of the storage, so the
    // storage an update sees is exactly the pre-tick storage; here the
    // non-pixelmap bindings survive a tick untouched.
    let mut w = blinker_world();
    w.storage.new_bucket("generation", Bucket::Counter(7));
    w.run();
    match w.storage.query_storage("generation") {
        Some(Bucket::Counter(n)) => assert_eq!(*n, 7),
        _ => panic!("expected the counter to survive the tick"),
    }
}

#[test]
fn a_tick_applies_the_input_to_the_camera_once() {
    let mut w = blinker_world();
    w.input.scroll = -1;
    w.run();
    // One zoom-out by 6/5: the 5-wide camera grows to round(5 * 6/5) == 6,
    // clamped back to the 5-pixel grid.
    let pm = w.storage.query_global_pixel_map().expect("pixelmap must be bound");
    assert_eq!(pm.get_camera().get_width(), 5);
    let mut v = blinker_world();
    v.input.scroll = 1;
    v.run();
    // One zoom-in by 4/5: round(5 * 4/5) == 4.
    let pm = v.storage.query_global_pixel_map().expect("pixelmap must be bound");
    assert_eq!(pm.get_camera().get_width(), 4);
    assert_eq!(pm.get_camera().get_height(), 4);
}
