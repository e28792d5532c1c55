use crate::id_types::Resource;
use crate::keyed::AssocVec;
use crate::Quantity;
use vstd::prelude::*;

verus! {

/// The stored quantity of a resource in a ledger, read as zero when the
/// resource has no entry.
pub open spec fn quantity_of(m: Map<Resource, u32>, r: Resource) -> int {
    if m.contains_key(r) {
        m[r] as int
    } else {
        0
    }
}

/// The contents of a ledger after one `update_or_insert` call: a negative
/// delta is a saturating subtraction that floors at zero, a non-negative
/// delta is added, and a result of zero leaves no entry behind.
pub open spec fn ledger_after(m: Map<Resource, u32>, r: Resource, delta: int) -> Map<
    Resource,
    u32,
> {
    let before = quantity_of(m, r);
    let after = if delta < 0 {
        if before + delta >= 0 {
            before + delta
        } else {
            0
        }
    } else {
        before + delta
    };
    if after > 0 {
        m.insert(r, after as u32)
    } else {
        m.remove(r)
    }
}

/// Per-ship resource bookkeeping: a mapping from resource identifier to a
/// strictly positive quantity.  Zero is modelled as "entry absent", never as
/// a stored zero.
#[derive(Clone)]
pub struct Resources {
    resources: AssocVec<Resource, u32>,
}

impl View for Resources {
    type V = Map<Resource, u32>;

    closed spec fn view(&self) -> Map<Resource, u32> {
        self.resources@
    }
}

impl Resources {
    pub closed spec fn wf(&self) -> bool {
        &&& self.resources.wf()
        &&& forall|r: Resource| #[trigger]
            self.resources@.contains_key(r) ==> self.resources@[r] > 0
    }

    /// However a ledger was built, it never contains an entry with a
    /// non-positive quantity.
    pub proof fn lemma_entries_positive(&self)
        requires
            self.wf(),
        ensures
            forall|r: Resource| #[trigger] self@.contains_key(r) ==> self@[r] > 0,
    {
    }

    pub fn with_capacity(capacity: usize) -> (r: Self)
        ensures
            r.wf(),
            r@ == Map::<Resource, u32>::empty(),
    {
        Resources { resources: AssocVec::with_capacity(capacity) }
    }

    /// True exactly when an entry exists and holds at least the requested
    /// quantity; a resource that was never stocked yields false, not an error.
    pub fn has_enough(&self, resource_id: &Resource, quantity: Quantity) -> (r: bool)
        requires
            self.wf(),
        ensures
            r == (self@.contains_key(*resource_id) && self@[*resource_id] >= quantity@),
    {
        let stock = self.resources.get(resource_id);
        match stock {
            Some(stock) => *stock >= quantity.get(),
            None => false,
        }
    }

    /// The stored quantity of a resource: `None` when the resource has no
    /// entry, a strictly positive count otherwise.
    pub fn quantity(&self, resource_id: &Resource) -> (r: Option<u32>)
        requires
            self.wf(),
        ensures
            match r {
                Some(q) => self@.contains_key(*resource_id) && q == self@[*resource_id],
                None => !self@.contains_key(*resource_id),
            },
    {
        match self.resources.get(resource_id) {
            Some(q) => Some(*q),
            None => None,
        }
    }

    /// Applies a signed quantity change.  A negative delta subtracts with a
    /// floor at zero; a non-negative delta adds, treating absence as zero;
    /// an entry whose result is zero is removed rather than stored.
    pub fn update_or_insert(&mut self, resource_id: &Resource, delta: i32)
        requires
            old(self).wf(),
            delta >= 0 ==> quantity_of(old(self)@, *resource_id) + delta <= u32::MAX,
        ensures
            final(self).wf(),
            final(self)@ == ledger_after(old(self)@, *resource_id, delta as int),
    {
        let stock = self.resources.get(resource_id);
        let quantity: u32 = match stock {
            Some(stock) => *stock,
            None => 0,
        };
        proof {
            assert(quantity == quantity_of(old(self)@, *resource_id));
        }
        if delta < 0 {
            let magnitude: u32 = (-(delta as i64)) as u32;
            let result = quantity.saturating_sub(magnitude);
            if result > 0 {
                self.resources.insert(*resource_id, result);
            } else {
                let _ = self.resources.remove(resource_id);
            }
        } else {
            let result = quantity + (delta as u32);
            if result > 0 {
                self.resources.insert(*resource_id, result);
            } else {
                proof {
                    assert(!old(self)@.contains_key(*resource_id));
                    assert(final(self)@ =~= old(self)@.remove(*resource_id));
                }
            }
        }
    }
}

} // verus!
