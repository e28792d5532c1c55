use crate::id_types::{Module, Ship};
use crate::inventory::Inventories;
use crate::keyed::AssocVec;
use crate::modules::cooldowns::CooldownEngine;
use vstd::prelude::*;

verus! {

/// Which module a ship has mounted, for one module category.  The sensor,
/// scanner and sampler actors each own one value of this type.
pub struct Mounts {
    data: AssocVec<Ship, Module>,
}

impl View for Mounts {
    type V = Map<Ship, Module>;

    closed spec fn view(&self) -> Map<Ship, Module> {
        self.data@
    }
}

impl Mounts {
    pub closed spec fn wf(&self) -> bool {
        self.data.wf()
    }

    pub fn init(capacity: usize) -> (r: Self)
        ensures
            r.wf(),
            r@ == Map::<Ship, Module>::empty(),
    {
        Mounts { data: AssocVec::with_capacity(capacity) }
    }

    pub fn add_component(&mut self, ship_id: &Ship, module_id: &Module)
        requires
            old(self).wf(),
        ensures
            final(self).wf(),
            final(self)@ == old(self)@.insert(*ship_id, *module_id),
    {
        self.data.insert(*ship_id, *module_id);
    }

    pub fn update_component(&mut self, ship_id: &Ship, module_id: &Module)
        requires
            old(self).wf(),
        ensures
            final(self).wf(),
            final(self)@ == old(self)@.insert(*ship_id, *module_id),
    {
        self.data.insert(*ship_id, *module_id);
    }

    pub fn remove_component(&mut self, ship_id: &Ship)
        requires
            old(self).wf(),
        ensures
            final(self).wf(),
            final(self)@ == old(self)@.remove(*ship_id),
    {
        let _ = self.data.remove(ship_id);
    }

    /// The checks that every module use passes before any action is taken:
    /// the ship must have a module of this category mounted, the module must
    /// not be cooling down, and the ship's inventory must hold the module's
    /// property bytes.  On success the module and a copy of its property
    /// bytes come back for decoding; on failure the use request is dropped
    /// with no state change anywhere.
    pub fn prepare_module_use(
        &self,
        cooldowns: &CooldownEngine,
        inventories: &Inventories,
        ship_id: &Ship,
    ) -> (r: Option<(Module, Vec<u8>)>)
        requires
            self.wf(),
            inventories.wf(),
        ensures
            match r {
                Some(found) => {
                    &&& self@.contains_key(*ship_id)
                    &&& found.0 == self@[*ship_id]
                    &&& !cooldowns.spec_active_modules().contains(found.0)
                    &&& inventories@.contains_key(*ship_id)
                    &&& inventories@[*ship_id].spec_modules().contains_key(found.0)
                    &&& found.1@ == inventories@[*ship_id].spec_modules()[found.0]
                        .spec_properties()
                },
                None => {
                    ||| !self@.contains_key(*ship_id)
                    ||| cooldowns.spec_active_modules().contains(self@[*ship_id])
                    ||| !inventories@.contains_key(*ship_id)
                    ||| !inventories@[*ship_id].spec_modules().contains_key(self@[*ship_id])
                },
            },
    {
        let module_id = match self.data.get(ship_id) {
            Some(module_id) => *module_id,
            None => {
                return None;
            },
        };
        if cooldowns.is_active(&module_id) {
            return None;
        }
        match inventories.get_module_properties(ship_id, &module_id) {
            Some(props) => Some((module_id, props)),
            None => None,
        }
    }
}

} // verus!
