//! The authoritative state core of a multiplayer space-exploration and
//! crafting simulation: per-ship inventories, craftable modules, resource
//! stockpiles, module cooldowns, and the transactional rules that govern
//! crafting and module damage.  Each store has exactly one writer actor;
//! readers hold a shared handle and receive copies.  The actor scheduling,
//! locks and channels live in the surrounding composition root; this crate
//! holds the state, its invariants and the proofs.

pub mod id_types;
pub mod inventory;
pub mod keyed;
pub mod modules;
pub mod ships;

use vstd::prelude::*;

verus! {

/// A strictly positive quantity of a resource, the unit of all stock keeping.
#[derive(Clone, Copy, Debug)]
pub struct Quantity {
    value: u32,
}

impl View for Quantity {
    type V = u32;

    closed spec fn view(&self) -> u32 {
        self.value
    }
}

impl Quantity {
    #[verifier::type_invariant]
    spec fn positive(self) -> bool {
        self.value > 0
    }

    /// Zero is modelled as "entry absent", so zero is rejected here.
    pub fn new(value: u32) -> (r: Option<Quantity>)
        ensures
            value == 0 <==> r is None,
            value > 0 ==> (r matches Some(q) && q@ == value),
    {
        if value == 0 {
            None
        } else {
            Some(Quantity { value })
        }
    }

    /// Wraps a quantity already known to be positive.
    pub fn from_positive(value: u32) -> (r: Quantity)
        requires
            value > 0,
        ensures
            r@ == value,
    {
        Quantity { value }
    }

    pub fn get(&self) -> (r: u32)
        ensures
            r == self@,
            r > 0,
    {
        proof {
            use_type_invariant(self);
        }
        self.value
    }
}

} // verus!
