use crate::id_types::Ship;
use crate::keyed::AssocVec;
use vstd::prelude::*;

verus! {

/// The five crafting skill levels of each ship's crew, as raw bytes.  One
/// actor owns a value of this type; other actors read copies through a
/// shared handle.
pub struct CraftingLevels {
    data: AssocVec<Ship, [u8; 5]>,
}

impl View for CraftingLevels {
    type V = Map<Ship, [u8; 5]>;

    closed spec fn view(&self) -> Map<Ship, [u8; 5]> {
        self.data@
    }
}

impl CraftingLevels {
    pub closed spec fn wf(&self) -> bool {
        self.data.wf()
    }

    pub fn init(capacity: usize) -> (r: Self)
        ensures
            r.wf(),
            r@ == Map::<Ship, [u8; 5]>::empty(),
    {
        CraftingLevels { data: AssocVec::with_capacity(capacity) }
    }

    pub fn add(&mut self, ship_id: &Ship, levels: &[u8; 5])
        requires
            old(self).wf(),
        ensures
            final(self).wf(),
            final(self)@ == old(self)@.insert(*ship_id, *levels),
    {
        self.data.insert(*ship_id, *levels);
    }

    pub fn remove(&mut self, ship_id: &Ship)
        requires
            old(self).wf(),
        ensures
            final(self).wf(),
            final(self)@ == old(self)@.remove(*ship_id),
    {
        let _ = self.data.remove(ship_id);
    }

    /// A copy of the stored levels, never a reference into the store.
    pub fn read(&self, ship_id: &Ship) -> (r: Option<[u8; 5]>)
        requires
            self.wf(),
        ensures
            match r {
                Some(levels) => self@.contains_key(*ship_id) && levels == self@[*ship_id],
                None => !self@.contains_key(*ship_id),
            },
    {
        match self.data.get(ship_id) {
            Some(levels) => Some(*levels),
            None => None,
        }
    }
}

} // verus!
