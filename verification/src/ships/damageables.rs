use crate::id_types::Ship;
use crate::keyed::AssocVec;
use crate::Quantity;
use vstd::prelude::*;

verus! {

/// What a damage command did to a ship, and so what the caller must send
/// onward: nothing, an updated hit-point total, or a deletion.
#[derive(Clone, Copy, PartialEq, Eq, Structural, Debug)]
pub enum DamageOutcome {
    NoShip,
    Damaged(u32),
    Destroyed,
}

/// The hit points of each live ship, always strictly positive: a ship whose
/// health reaches zero is removed rather than stored at zero.
pub struct Healths {
    data: AssocVec<Ship, Quantity>,
}

impl View for Healths {
    type V = Map<Ship, Quantity>;

    closed spec fn view(&self) -> Map<Ship, Quantity> {
        self.data@
    }
}

impl Healths {
    pub closed spec fn wf(&self) -> bool {
        self.data.wf()
    }

    pub fn init(capacity: usize) -> (r: Self)
        ensures
            r.wf(),
            r@ == Map::<Ship, Quantity>::empty(),
    {
        Healths { data: AssocVec::with_capacity(capacity) }
    }

    pub fn add(&mut self, ship_id: &Ship, health: Quantity)
        requires
            old(self).wf(),
        ensures
            final(self).wf(),
            final(self)@ == old(self)@.insert(*ship_id, health),
    {
        self.data.insert(*ship_id, health);
    }

    pub fn remove(&mut self, ship_id: &Ship)
        requires
            old(self).wf(),
        ensures
            final(self).wf(),
            final(self)@ == old(self)@.remove(*ship_id),
    {
        let _ = self.data.remove(ship_id);
    }

    /// A copy of the stored hit points, never a reference into the store.
    pub fn read(&self, ship_id: &Ship) -> (r: Option<Quantity>)
        requires
            self.wf(),
        ensures
            match r {
                Some(health) => self@.contains_key(*ship_id) && health == self@[*ship_id],
                None => !self@.contains_key(*ship_id),
            },
    {
        match self.data.get(ship_id) {
            Some(health) => Some(*health),
            None => None,
        }
    }

    /// Applies a damage command.  A ship that survives keeps the difference;
    /// a ship whose hit points do not strictly exceed the damage is removed,
    /// and the caller must announce its deletion.
    pub fn take_damage(&mut self, ship_id: &Ship, damage: Quantity) -> (r: DamageOutcome)
        requires
            old(self).wf(),
        ensures
            final(self).wf(),
            !old(self)@.contains_key(*ship_id) ==> r == DamageOutcome::NoShip && final(self)@
                == old(self)@,
            old(self)@.contains_key(*ship_id) && old(self)@[*ship_id]@ > damage@ ==> {
                &&& r == DamageOutcome::Damaged((old(self)@[*ship_id]@ - damage@) as u32)
                &&& final(self)@.contains_key(*ship_id)
                &&& final(self)@[*ship_id]@ == old(self)@[*ship_id]@ - damage@
                &&& final(self)@ == old(self)@.insert(*ship_id, final(self)@[*ship_id])
            },
            old(self)@.contains_key(*ship_id) && old(self)@[*ship_id]@ <= damage@ ==> r
                == DamageOutcome::Destroyed && final(self)@ == old(self)@.remove(*ship_id),
    {
        let hp = match self.data.get(ship_id) {
            Some(hp) => *hp,
            None => {
                return DamageOutcome::NoShip;
            },
        };
        let hp_value = hp.get();
        let damage_value = damage.get();
        if hp_value > damage_value {
            let remaining = Quantity::from_positive(hp_value - damage_value);
            self.data.insert(*ship_id, remaining);
            DamageOutcome::Damaged(hp_value - damage_value)
        } else {
            let _ = self.data.remove(ship_id);
            DamageOutcome::Destroyed
        }
    }
}

} // verus!
