//! Entities are opaque, monotonically allocated identifiers. Ids are never
//! reused; destruction only lowers the liveness counter.

use vstd::prelude::*;

verus! {

#[derive(Debug, Clone, Copy, PartialEq, Eq, Structural)]
pub struct Entity {
    pub id: usize,
}

pub struct EntityManager {
    /// The next id to hand out; also the number of ids ever created.
    pub id_counter: usize,
    /// The number of living entities.
    pub living_entity_count: usize,
}

impl EntityManager {
    pub open spec fn wf(&self) -> bool {
        self.living_entity_count <= self.id_counter
    }

    pub fn new() -> (m: EntityManager)
        ensures
            m.wf(),
            m.id_counter == 0,
            m.living_entity_count == 0,
    {
        EntityManager { id_counter: 0, living_entity_count: 0 }
    }

    /// Allocate the next id.
    pub fn create(&mut self) -> (e: Entity)
        requires
            old(self).wf(),
            old(self).id_counter < usize::MAX,
        ensures
            final(self).wf(),
            e.id == old(self).id_counter,
            final(self).id_counter == old(self).id_counter + 1,
            final(self).living_entity_count == old(self).living_entity_count + 1,
    {
        let id: usize = self.id_counter;
        self.id_counter = self.id_counter + 1;
        self.living_entity_count = self.living_entity_count + 1;
        Entity { id }
    }

    /// Forget one living entity; its id is not recycled.
    pub fn destroy(&mut self, _entity: Entity)
        requires
            old(self).wf(),
            1 <= old(self).living_entity_count,
        ensures
            final(self).wf(),
            final(self).id_counter == old(self).id_counter,
            final(self).living_entity_count == old(self).living_entity_count - 1,
    {
        self.living_entity_count = self.living_entity_count - 1;
    }
}

} // verus!
