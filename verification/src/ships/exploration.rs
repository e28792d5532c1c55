use crate::id_types::{Asteroid, Ship};
use crate::keyed::AssocVec;
use vstd::prelude::*;

verus! {

/// The asteroid each exploring ship is currently at.  One exploration actor
/// owns a value of this type; other actors read copies through a shared
/// handle.
pub struct Asteroids {
    data: AssocVec<Ship, Asteroid>,
}

impl View for Asteroids {
    type V = Map<Ship, Asteroid>;

    closed spec fn view(&self) -> Map<Ship, Asteroid> {
        self.data@
    }
}

impl Asteroids {
    pub closed spec fn wf(&self) -> bool {
        self.data.wf()
    }

    pub fn init(capacity: usize) -> (r: Self)
        ensures
            r.wf(),
            r@ == Map::<Ship, Asteroid>::empty(),
    {
        Asteroids { data: AssocVec::with_capacity(capacity) }
    }

    pub fn add(&mut self, ship_id: &Ship, asteroid: &Asteroid)
        requires
            old(self).wf(),
        ensures
            final(self).wf(),
            final(self)@ == old(self)@.insert(*ship_id, *asteroid),
    {
        self.data.insert(*ship_id, *asteroid);
    }

    pub fn remove(&mut self, ship_id: &Ship)
        requires
            old(self).wf(),
        ensures
            final(self).wf(),
            final(self)@ == old(self)@.remove(*ship_id),
    {
        let _ = self.data.remove(ship_id);
    }

    /// A copy of the stored asteroid, never a reference into the store.
    pub fn read(&self, ship_id: &Ship) -> (r: Option<Asteroid>)
        requires
            self.wf(),
        ensures
            match r {
                Some(asteroid) => self@.contains_key(*ship_id) && asteroid == self@[*ship_id],
                None => !self@.contains_key(*ship_id),
            },
    {
        match self.data.get(ship_id) {
            Some(asteroid) => Some(*asteroid),
            None => None,
        }
    }
}

} // verus!
