pub mod crafting;
pub mod modules;
pub mod resources;

use crate::id_types::{Module, Resource, ResourceKind, Ship, User};
use crate::inventory::modules::{
    damaged_quantities, keep_positive_ids, keep_positive_qs, quantity_values,
    registry_after_durability, sum_of, ModuleResources, ModuleStats, Modules,
};
use crate::inventory::resources::{ledger_after, quantity_of, Resources};
use crate::keyed::AssocVec;
use crate::ships::identifications::Identifiers;
use crate::Quantity;
use vstd::prelude::*;

verus! {

/// One entry of the resource demand that the external generation library
/// derives for a module: the resource category to spend, and how much of it.
#[derive(Clone, Copy, Debug)]
pub struct Requirement {
    pub kind: ResourceKind,
    pub quantity: Quantity,
}

/// Why a craft request was rejected.  Every rejection leaves all state
/// unchanged.
#[derive(Clone, Copy, PartialEq, Eq, Structural, Debug)]
pub enum CraftError {
    UnknownShip,
    UnknownCreator,
    InvalidProperties,
    RequirementCountMismatch,
    ResourceKindMismatch,
    InsufficientResources,
}

/// The commands that the inventory actor serializes through its mailbox.
pub enum SystemMessage {
    AddOrUpdateComponent(Ship, Inventory),
    RemoveComponent(Ship),
    UpdateModuleDurability(Ship, Module, i32),
    AddOrUpdateResource(Ship, Resource, i32),
    CraftModule(Ship, Module, String, Vec<u8>, Vec<Resource>),
}

/// The quantities demanded by a requirement list, in order.
pub open spec fn requirement_quantities(reqs: Seq<Requirement>) -> Seq<u32> {
    Seq::new(reqs.len(), |i: int| reqs[i].quantity@)
}

/// The requirement list carried by an optional decode result.
pub open spec fn decoded_requirements(decoded: Option<&Vec<Requirement>>) -> Option<
    Seq<Requirement>,
> {
    match decoded {
        Some(reqs) => Some(reqs@),
        None => None,
    }
}

/// The first rejection that position-by-position validation runs into, from
/// position `i` on: at each position the offered resource's category must
/// match the required one, and the ledger must hold at least the required
/// quantity of that exact resource.
pub open spec fn first_requirement_error(
    ledger: Map<Resource, u32>,
    reqs: Seq<Requirement>,
    offered: Seq<Resource>,
    i: int,
) -> Option<CraftError>
    decreases reqs.len() - i,
{
    if i >= reqs.len() {
        None
    } else if offered[i].spec_kind() != reqs[i].kind {
        Some(CraftError::ResourceKindMismatch)
    } else if !(ledger.contains_key(offered[i]) && ledger[offered[i]] >= reqs[i].quantity@) {
        Some(CraftError::InsufficientResources)
    } else {
        first_requirement_error(ledger, reqs, offered, i + 1)
    }
}

/// Why a craft request fails, or `None` when it must commit: the checks run
/// in the order unknown ship, unknown creator, undecodable properties,
/// requirement count, then per-position category and stock.
pub open spec fn craft_failure(
    inventories: Map<Ship, Inventory>,
    identifiers: Map<Ship, User>,
    ship_id: Ship,
    decoded: Option<Seq<Requirement>>,
    offered: Seq<Resource>,
) -> Option<CraftError> {
    if !inventories.contains_key(ship_id) {
        Some(CraftError::UnknownShip)
    } else if !identifiers.contains_key(ship_id) {
        Some(CraftError::UnknownCreator)
    } else if decoded is None {
        Some(CraftError::InvalidProperties)
    } else if decoded.unwrap().len() != offered.len() {
        Some(CraftError::RequirementCountMismatch)
    } else {
        first_requirement_error(
            inventories[ship_id].spec_resources(),
            decoded.unwrap(),
            offered,
            0,
        )
    }
}

/// Position `j` of a craft request offers the resource category that the
/// requirement list demands there.
pub open spec fn kind_matches_at(reqs: Seq<Requirement>, offered: Seq<Resource>, j: int) -> bool {
    offered[j].spec_kind() == reqs[j].kind
}

/// The ledger covers position `j` of a craft request: the offered resource
/// is the demanded category and is stocked at least at the demanded
/// quantity.
pub open spec fn requirement_satisfied_at(
    ledger: Map<Resource, u32>,
    reqs: Seq<Requirement>,
    offered: Seq<Resource>,
    j: int,
) -> bool {
    &&& kind_matches_at(reqs, offered, j)
    &&& ledger.contains_key(offered[j])
    &&& ledger[offered[j]] >= reqs[j].quantity@
}

pub proof fn lemma_no_error_checks_pass(
    ledger: Map<Resource, u32>,
    reqs: Seq<Requirement>,
    offered: Seq<Resource>,
    i: int,
)
    requires
        0 <= i,
        first_requirement_error(ledger, reqs, offered, i) is None,
    ensures
        forall|j: int|
            i <= j < reqs.len() ==> #[trigger] requirement_satisfied_at(ledger, reqs, offered, j),
    decreases reqs.len() - i,
{
    if i < reqs.len() {
        lemma_no_error_checks_pass(ledger, reqs, offered, i + 1);
        assert(requirement_satisfied_at(ledger, reqs, offered, i));
    }
}

proof fn lemma_all_kinds_ok_stock_fail(
    ledger: Map<Resource, u32>,
    reqs: Seq<Requirement>,
    offered: Seq<Resource>,
    i: int,
    w: int,
)
    requires
        0 <= i <= w < reqs.len(),
        forall|j: int| 0 <= j < reqs.len() ==> #[trigger] kind_matches_at(reqs, offered, j),
        !(ledger.contains_key(offered[w]) && ledger[offered[w]] >= reqs[w].quantity@),
    ensures
        first_requirement_error(ledger, reqs, offered, i) == Some(
            CraftError::InsufficientResources,
        ),
    decreases reqs.len() - i,
{
    assert(kind_matches_at(reqs, offered, i));
    if ledger.contains_key(offered[i]) && ledger[offered[i]] >= reqs[i].quantity@ {
        lemma_all_kinds_ok_stock_fail(ledger, reqs, offered, i + 1, w);
    }
}

proof fn lemma_debit_step_bound(m: Map<Resource, u32>, r2: Resource, q: int, r: Resource)
    requires
        q >= 0,
    ensures
        quantity_of(ledger_after(m, r2, -q), r) <= quantity_of(m, r),
        r == r2 ==> quantity_of(ledger_after(m, r2, -q), r) <= (if quantity_of(m, r) - q >= 0 {
            quantity_of(m, r) - q
        } else {
            0
        }),
{
}

proof fn lemma_debited_monotone(
    ledger: Map<Resource, u32>,
    offered: Seq<Resource>,
    amounts: Seq<u32>,
    k: int,
    r: Resource,
)
    requires
        0 <= k,
    ensures
        quantity_of(debited_ledger(ledger, offered, amounts, k), r) <= quantity_of(ledger, r),
    decreases k,
{
    if k > 0 {
        lemma_debited_monotone(ledger, offered, amounts, k - 1, r);
        lemma_debit_step_bound(
            debited_ledger(ledger, offered, amounts, k - 1),
            offered[k - 1],
            amounts[k - 1] as int,
            r,
        );
    }
}

proof fn lemma_debited_after_position(
    ledger: Map<Resource, u32>,
    offered: Seq<Resource>,
    amounts: Seq<u32>,
    k: int,
    i: int,
)
    requires
        0 <= i < k,
    ensures
        quantity_of(debited_ledger(ledger, offered, amounts, k), offered[i]) <= (if quantity_of(
            ledger,
            offered[i],
        ) - amounts[i] >= 0 {
            quantity_of(ledger, offered[i]) - amounts[i]
        } else {
            0
        }),
    decreases k,
{
    if k == i + 1 {
        lemma_debited_monotone(ledger, offered, amounts, i, offered[i]);
        lemma_debit_step_bound(
            debited_ledger(ledger, offered, amounts, i),
            offered[i],
            amounts[i] as int,
            offered[i],
        );
    } else {
        lemma_debited_after_position(ledger, offered, amounts, k - 1, i);
        lemma_debit_step_bound(
            debited_ledger(ledger, offered, amounts, k - 1),
            offered[k - 1],
            amounts[k - 1] as int,
            offered[i],
        );
    }
}

/// No double spend: craft requests are serialized by the inventory actor,
/// so any two of them commit one after the other against the same ledger.
/// When a request passes validation but the stock at some position cannot
/// fund it twice, the same request replayed after the first commit is
/// rejected with `InsufficientResources` — whatever the interleaving that
/// delivered the two requests to the mailbox.
pub proof fn lemma_no_double_spend(
    ledger: Map<Resource, u32>,
    reqs: Seq<Requirement>,
    offered: Seq<Resource>,
    i: int,
)
    requires
        reqs.len() == offered.len(),
        first_requirement_error(ledger, reqs, offered, 0) is None,
        0 <= i < reqs.len(),
        forall|j: int| 0 <= j < reqs.len() ==> #[trigger] reqs[j].quantity@ > 0,
        quantity_of(ledger, offered[i]) < 2 * reqs[i].quantity@,
    ensures
        first_requirement_error(
            debited_ledger(ledger, offered, requirement_quantities(reqs), reqs.len() as int),
            reqs,
            offered,
            0,
        ) == Some(CraftError::InsufficientResources),
{
    let amounts = requirement_quantities(reqs);
    let debited = debited_ledger(ledger, offered, amounts, reqs.len() as int);
    lemma_no_error_checks_pass(ledger, reqs, offered, 0);
    assert(requirement_satisfied_at(ledger, reqs, offered, i));
    lemma_debited_after_position(ledger, offered, amounts, reqs.len() as int, i);
    assert(quantity_of(debited, offered[i]) < reqs[i].quantity@);
    assert forall|j: int| 0 <= j < reqs.len() implies #[trigger] kind_matches_at(
        reqs,
        offered,
        j,
    ) by {
        assert(requirement_satisfied_at(ledger, reqs, offered, j));
    }
    assert(!(debited.contains_key(offered[i]) && debited[offered[i]] >= reqs[i].quantity@));
    lemma_all_kinds_ok_stock_fail(debited, reqs, offered, 0, i);
}

/// A ledger after the first `k` offered resources are debited one by one,
/// each by the quantity required at its position.
pub open spec fn debited_ledger(
    ledger: Map<Resource, u32>,
    offered: Seq<Resource>,
    amounts: Seq<u32>,
    k: int,
) -> Map<Resource, u32>
    decreases k,
{
    if k <= 0 {
        ledger
    } else {
        ledger_after(
            debited_ledger(ledger, offered, amounts, k - 1),
            offered[k - 1],
            -(amounts[k - 1] as int),
        )
    }
}

/// The module collection and resource ledger of one ship.
#[derive(Clone)]
pub struct Inventory {
    modules: Modules,
    resources: Resources,
}

impl Inventory {
    pub closed spec fn spec_modules(&self) -> Map<Module, ModuleStats> {
        self.modules@
    }

    pub closed spec fn spec_resources(&self) -> Map<Resource, u32> {
        self.resources@
    }

    pub closed spec fn wf(&self) -> bool {
        self.modules.wf() && self.resources.wf()
    }

    pub fn new(capacity: usize) -> (r: Self)
        ensures
            r.wf(),
            r.spec_modules() == Map::<Module, ModuleStats>::empty(),
            r.spec_resources() == Map::<Resource, u32>::empty(),
    {
        Inventory {
            modules: Modules::with_capacity(capacity),
            resources: Resources::with_capacity(capacity),
        }
    }

    /// Registers a freshly validated module and debits each consumed
    /// resource from the ship's ledger by the corresponding quantity.
    fn craft_new_module(
        &mut self,
        module_id: &Module,
        name: String,
        creator: &User,
        properties: &[u8],
        resources: &[Resource],
        quantities: &[Quantity],
    )
        requires
            old(self).wf(),
            resources@.len() == quantities@.len(),
            sum_of(quantity_values(quantities@)) <= u32::MAX,
            forall|i: int| 0 <= i < quantities@.len() ==> quantities@[i]@ <= i32::MAX,
        ensures
            final(self).wf(),
            final(self).spec_modules() == old(self).spec_modules().insert(
                *module_id,
                final(self).spec_modules()[*module_id],
            ),
            ({
                let stats = final(self).spec_modules()[*module_id];
                &&& stats.spec_name() == name@
                &&& stats.spec_creator() == *creator
                &&& stats.spec_properties() == properties@
                &&& stats.spec_resources().spec_ids() == resources@
                &&& stats.spec_resources().spec_quantities() == quantity_values(quantities@)
            }),
            final(self).spec_resources() == debited_ledger(
                old(self).spec_resources(),
                resources@,
                quantity_values(quantities@),
                resources@.len() as int,
            ),
    {
        let module_res = ModuleResources::new(resources, quantities);
        let module = ModuleStats::new(name, *creator, properties, module_res);
        let ghost module_snap: ModuleStats = module;
        self.modules.add(module_id, module);
        let ghost amounts: Seq<u32> = quantity_values(quantities@);
        let mut i: usize = 0;
        while i < resources.len()
            invariant
                self.modules.wf(),
                self.resources.wf(),
                i <= resources@.len(),
                resources@.len() == quantities@.len(),
                amounts == quantity_values(quantities@),
                forall|j: int| 0 <= j < quantities@.len() ==> #[trigger] quantities@[j]@
                    <= i32::MAX,
                self.modules@ == old(self).spec_modules().insert(*module_id, module_snap),
                module_snap.spec_name() == name@,
                module_snap.spec_creator() == *creator,
                module_snap.spec_properties() == properties@,
                module_snap.spec_resources().spec_ids() == resources@,
                module_snap.spec_resources().spec_quantities() == amounts,
                self.resources@ == debited_ledger(
                    old(self).spec_resources(),
                    resources@,
                    amounts,
                    i as int,
                ),
            decreases resources@.len() - i,
        {
            let amount = quantities[i].get();
            self.resources.update_or_insert(&resources[i], -(amount as i32));
            i = i + 1;
        }
    }
}

/// Every ship's inventory, owned and mutated by the single inventory actor.
/// Readers go through a published handle and receive copies.
pub struct Inventories {
    data: AssocVec<Ship, Inventory>,
}

impl View for Inventories {
    type V = Map<Ship, Inventory>;

    closed spec fn view(&self) -> Map<Ship, Inventory> {
        self.data@
    }
}

impl Inventories {
    pub closed spec fn wf(&self) -> bool {
        &&& self.data.wf()
        &&& forall|s: Ship| #[trigger] self.data@.contains_key(s) ==> self.data@[s].wf()
    }

    pub fn new(capacity: usize) -> (r: Self)
        ensures
            r.wf(),
            r@ == Map::<Ship, Inventory>::empty(),
    {
        Inventories { data: AssocVec::with_capacity(capacity) }
    }

    pub fn add(&mut self, ship_id: &Ship, inventory: Inventory)
        requires
            old(self).wf(),
            inventory.wf(),
        ensures
            final(self).wf(),
            final(self)@ == old(self)@.insert(*ship_id, inventory),
    {
        self.data.insert(*ship_id, inventory);
    }

    pub fn remove(&mut self, ship_id: &Ship)
        requires
            old(self).wf(),
        ensures
            final(self).wf(),
            final(self)@ == old(self)@.remove(*ship_id),
    {
        let _ = self.data.remove(ship_id);
    }

    /// A copy of one module's encoded property bytes, read without blocking
    /// the owning actor for longer than the lookup itself.
    pub fn get_module_properties(&self, ship_id: &Ship, module_id: &Module) -> (r: Option<
        Vec<u8>,
    >)
        requires
            self.wf(),
        ensures
            match r {
                Some(props) => self@.contains_key(*ship_id)
                    && self@[*ship_id].spec_modules().contains_key(*module_id) && props@
                    == self@[*ship_id].spec_modules()[*module_id].spec_properties(),
                None => !self@.contains_key(*ship_id) || !self@[*ship_id].spec_modules()
                    .contains_key(*module_id),
            },
    {
        let inv = match self.data.get(ship_id) {
            Some(inv) => inv,
            None => {
                return None;
            },
        };
        match inv.modules.get(module_id) {
            Some(stats) => Some(stats.get_properties()),
            None => None,
        }
    }

    /// A borrow of one ship's inventory, for callers that take a copy of
    /// the whole component before sending it onward.
    pub fn get(&self, ship_id: &Ship) -> (r: Option<&Inventory>)
        requires
            self.wf(),
        ensures
            match r {
                Some(inv) => self@.contains_key(*ship_id) && *inv == self@[*ship_id],
                None => !self@.contains_key(*ship_id),
            },
    {
        self.data.get(ship_id)
    }

    /// The stored quantity of one resource of one ship: `None` when the
    /// ship or the entry is absent; zero is never stored.
    pub fn resource_quantity(&self, ship_id: &Ship, resource_id: &Resource) -> (r: Option<u32>)
        requires
            self.wf(),
        ensures
            match r {
                Some(q) => self@.contains_key(*ship_id) && self@[*ship_id].spec_resources()
                    .contains_key(*resource_id) && q == self@[*ship_id].spec_resources()[*
                    resource_id],
                None => !self@.contains_key(*ship_id) || !self@[*ship_id].spec_resources()
                    .contains_key(*resource_id),
            },
    {
        let inv = match self.data.get(ship_id) {
            Some(inv) => inv,
            None => {
                return None;
            },
        };
        inv.resources.quantity(resource_id)
    }

    /// Applies a durability change to one module of one ship.  The ship's
    /// general resource ledger is never touched: only the module's backing
    /// ledger absorbs damage.  Returns whether a mutation was committed and
    /// so a change notification is owed.
    pub fn update_module_durability(&mut self, ship_id: &Ship, module_id: &Module, delta: i32)
        -> (notify: bool)
        requires
            old(self).wf(),
        ensures
            final(self).wf(),
            notify == old(self)@.contains_key(*ship_id),
            !old(self)@.contains_key(*ship_id) ==> final(self)@ == old(self)@,
            old(self)@.contains_key(*ship_id) ==> {
                let inv_old = old(self)@[*ship_id];
                let inv_new = final(self)@[*ship_id];
                &&& final(self)@.contains_key(*ship_id)
                &&& final(self)@ == old(self)@.insert(*ship_id, inv_new)
                &&& inv_new.spec_resources() == inv_old.spec_resources()
                &&& inv_new.spec_modules() == registry_after_durability(
                    inv_old.spec_modules(),
                    *module_id,
                    delta as int,
                    inv_new.spec_modules()[*module_id],
                )
                &&& (inv_old.spec_modules().contains_key(*module_id) && delta < 0 && sum_of(
                    inv_old.spec_modules()[*module_id].spec_resources().spec_quantities(),
                ) > -(delta as int)) ==> {
                    let stats = inv_old.spec_modules()[*module_id];
                    let updated = inv_new.spec_modules()[*module_id];
                    &&& inv_new.spec_modules().contains_key(*module_id)
                    &&& updated.spec_name() == stats.spec_name()
                    &&& updated.spec_creator() == stats.spec_creator()
                    &&& updated.spec_properties() == stats.spec_properties()
                    &&& updated.spec_resources().spec_ids() == keep_positive_ids(
                        stats.spec_resources().spec_ids(),
                        damaged_quantities(
                            stats.spec_resources().spec_quantities(),
                            -(delta as int),
                        ),
                    )
                    &&& updated.spec_resources().spec_quantities() == keep_positive_qs(
                        damaged_quantities(
                            stats.spec_resources().spec_quantities(),
                            -(delta as int),
                        ),
                    )
                }
            },
    {
        let mut inv = match self.data.remove(ship_id) {
            Some(inv) => inv,
            None => {
                proof {
                    assert(final(self)@ =~= old(self)@);
                }
                return false;
            },
        };
        inv.modules.update_module_durability(module_id, delta);
        self.data.insert(*ship_id, inv);
        proof {
            assert(final(self)@ =~= old(self)@.insert(*ship_id, final(self)@[*ship_id]));
        }
        true
    }

    /// Applies a signed quantity change to one resource of one ship's
    /// ledger.  Returns whether a mutation was committed and so a change
    /// notification is owed.
    pub fn add_or_update_resource(&mut self, ship_id: &Ship, resource_id: &Resource, quantity:
        i32) -> (notify: bool)
        requires
            old(self).wf(),
            old(self)@.contains_key(*ship_id) && quantity >= 0 ==> quantity_of(
                old(self)@[*ship_id].spec_resources(),
                *resource_id,
            ) + quantity <= u32::MAX,
        ensures
            final(self).wf(),
            notify == old(self)@.contains_key(*ship_id),
            !old(self)@.contains_key(*ship_id) ==> final(self)@ == old(self)@,
            old(self)@.contains_key(*ship_id) ==> {
                let inv_old = old(self)@[*ship_id];
                let inv_new = final(self)@[*ship_id];
                &&& final(self)@.contains_key(*ship_id)
                &&& final(self)@ == old(self)@.insert(*ship_id, inv_new)
                &&& inv_new.spec_modules() == inv_old.spec_modules()
                &&& inv_new.spec_resources() == ledger_after(
                    inv_old.spec_resources(),
                    *resource_id,
                    quantity as int,
                )
            },
    {
        let mut inv = match self.data.remove(ship_id) {
            Some(inv) => inv,
            None => {
                proof {
                    assert(final(self)@ =~= old(self)@);
                }
                return false;
            },
        };
        inv.resources.update_or_insert(resource_id, quantity);
        self.data.insert(*ship_id, inv);
        proof {
            assert(final(self)@ =~= old(self)@.insert(*ship_id, final(self)@[*ship_id]));
        }
        true
    }

    /// The crafting transaction: validates a craft request against the
    /// ship's registered creator, the externally decoded requirement list
    /// and the current ledger, and only then commits — registering the new
    /// module and debiting the ledger — with no state change on any failure.
    /// The caller decodes the raw property bytes through the external
    /// generation library and passes the result; `None` records a failed
    /// decode.  Validation and commit run against the same exclusively held
    /// state, so two requests can never both pass against the same stock.
    pub fn craft_module(
        &mut self,
        identifiers: &Identifiers,
        ship_id: &Ship,
        module_id: &Module,
        name: String,
        craft_levels: &[u8],
        resources: &[Resource],
        decoded: Option<&Vec<Requirement>>,
    ) -> (r: Result<(), CraftError>)
        requires
            old(self).wf(),
            identifiers.wf(),
            decoded matches Some(reqs) ==> sum_of(requirement_quantities(reqs@)) <= u32::MAX
                && forall|i: int| 0 <= i < reqs@.len() ==> #[trigger] reqs@[i].quantity@
                <= i32::MAX,
        ensures
            final(self).wf(),
            ({
                let failure = craft_failure(
                    old(self)@,
                    identifiers@,
                    *ship_id,
                    decoded_requirements(decoded),
                    resources@,
                );
                &&& (failure matches Some(e) ==> r == Err::<(), CraftError>(e) && final(self)@
                    == old(self)@)
                &&& (failure is None ==> r is Ok)
            }),
            r is Ok ==> ({
                let reqs = decoded_requirements(decoded).unwrap();
                let inv_old = old(self)@[*ship_id];
                let inv_new = final(self)@[*ship_id];
                let stats = inv_new.spec_modules()[*module_id];
                &&& old(self)@.contains_key(*ship_id)
                &&& final(self)@ == old(self)@.insert(*ship_id, inv_new)
                &&& inv_new.spec_resources() == debited_ledger(
                    inv_old.spec_resources(),
                    resources@,
                    requirement_quantities(reqs),
                    resources@.len() as int,
                )
                &&& inv_new.spec_modules() == inv_old.spec_modules().insert(*module_id, stats)
                &&& stats.spec_name() == name@
                &&& stats.spec_creator() == identifiers@[*ship_id]
                &&& stats.spec_properties() == craft_levels@
                &&& stats.spec_resources().spec_ids() == resources@
                &&& stats.spec_resources().spec_quantities() == requirement_quantities(reqs)
            }),
    {
        let creator = match identifiers.read(ship_id) {
            Some(creator) => creator,
            None => {
                if !self.data.contains_key(ship_id) {
                    return Err(CraftError::UnknownShip);
                }
                return Err(CraftError::UnknownCreator);
            },
        };
        let inv = match self.data.get(ship_id) {
            Some(inv) => inv,
            None => {
                return Err(CraftError::UnknownShip);
            },
        };
        let reqs = match decoded {
            Some(reqs) => reqs,
            None => {
                return Err(CraftError::InvalidProperties);
            },
        };
        if reqs.len() != resources.len() {
            return Err(CraftError::RequirementCountMismatch);
        }
        let ghost ledger = inv.spec_resources();
        let mut i: usize = 0;
        while i < reqs.len()
            invariant
                self.wf(),
                identifiers.wf(),
                i <= reqs@.len(),
                reqs@.len() == resources@.len(),
                self@.contains_key(*ship_id),
                identifiers@.contains_key(*ship_id),
                decoded == Some(reqs),
                ledger == self@[*ship_id].spec_resources(),
                self@[*ship_id].wf(),
                first_requirement_error(ledger, reqs@, resources@, 0)
                    == first_requirement_error(ledger, reqs@, resources@, i as int),
                *self == *old(self),
            decreases reqs@.len() - i,
        {
            let inv = match self.data.get(ship_id) {
                Some(inv) => inv,
                None => {
                    proof {
                        assert(false);
                    }
                    return Err(CraftError::UnknownShip);
                },
            };
            let requirement = reqs[i];
            if resources[i].kind() != requirement.kind {
                proof {
                    assert(resources@[i as int].spec_kind() != reqs@[i as int].kind);
                    assert(first_requirement_error(ledger, reqs@, resources@, i as int)
                        == Some(CraftError::ResourceKindMismatch));
                }
                return Err(CraftError::ResourceKindMismatch);
            }
            if !inv.resources.has_enough(&resources[i], requirement.quantity) {
                proof {
                    assert(!(ledger.contains_key(resources@[i as int])
                        && ledger[resources@[i as int]] >= reqs@[i as int].quantity@));
                    assert(first_requirement_error(ledger, reqs@, resources@, i as int)
                        == Some(CraftError::InsufficientResources));
                }
                return Err(CraftError::InsufficientResources);
            }
            i = i + 1;
        }
        let mut quantities: Vec<Quantity> = Vec::with_capacity(reqs.len());
        let mut j: usize = 0;
        while j < reqs.len()
            invariant
                j <= reqs@.len(),
                quantities@.len() == j,
                forall|k: int| 0 <= k < j ==> quantities@[k] == reqs@[k].quantity,
            decreases reqs@.len() - j,
        {
            quantities.push(reqs[j].quantity);
            j = j + 1;
        }
        proof {
            assert(quantity_values(quantities@) =~= requirement_quantities(reqs@));
        }
        let mut inv = match self.data.remove(ship_id) {
            Some(inv) => inv,
            None => {
                proof {
                    assert(false);
                }
                return Err(CraftError::UnknownShip);
            },
        };
        inv.craft_new_module(
            module_id,
            name,
            &creator,
            craft_levels,
            resources,
            quantities.as_slice(),
        );
        self.data.insert(*ship_id, inv);
        proof {
            assert(final(self)@ =~= old(self)@.insert(*ship_id, final(self)@[*ship_id]));
        }
        Ok(())
    }
}

} // verus!
