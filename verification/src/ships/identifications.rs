use crate::id_types::{Ship, User};
use crate::keyed::AssocVec;
use vstd::prelude::*;

verus! {

/// The registered creator (user identity) of each ship.  One identity actor
/// owns a value of this type; other actors read copies through a shared
/// handle.
pub struct Identifiers {
    data: AssocVec<Ship, User>,
}

impl View for Identifiers {
    type V = Map<Ship, User>;

    closed spec fn view(&self) -> Map<Ship, User> {
        self.data@
    }
}

impl Identifiers {
    pub closed spec fn wf(&self) -> bool {
        self.data.wf()
    }

    pub fn init(capacity: usize) -> (r: Self)
        ensures
            r.wf(),
            r@ == Map::<Ship, User>::empty(),
    {
        Identifiers { data: AssocVec::with_capacity(capacity) }
    }

    pub fn add(&mut self, ship_id: &Ship, user: &User)
        requires
            old(self).wf(),
        ensures
            final(self).wf(),
            final(self)@ == old(self)@.insert(*ship_id, *user),
    {
        self.data.insert(*ship_id, *user);
    }

    pub fn remove(&mut self, ship_id: &Ship)
        requires
            old(self).wf(),
        ensures
            final(self).wf(),
            final(self)@ == old(self)@.remove(*ship_id),
    {
        let _ = self.data.remove(ship_id);
    }

    /// A copy of the stored identity, never a reference into the store.
    pub fn read(&self, ship_id: &Ship) -> (r: Option<User>)
        requires
            self.wf(),
        ensures
            match r {
                Some(user) => self@.contains_key(*ship_id) && user == self@[*ship_id],
                None => !self@.contains_key(*ship_id),
            },
    {
        match self.data.get(ship_id) {
            Some(user) => Some(*user),
            None => None,
        }
    }
}

} // verus!
