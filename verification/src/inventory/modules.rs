use crate::id_types::{Module, Resource, User};
use crate::keyed::AssocVec;
use crate::Quantity;
use vstd::prelude::*;
use vstd::slice::slice_to_vec;

verus! {

/// The total of a sequence of quantities.
pub open spec fn sum_of(qs: Seq<u32>) -> int
    decreases qs.len(),
{
    if qs.len() == 0 {
        0
    } else {
        sum_of(qs.drop_last()) + qs.last()
    }
}

pub proof fn lemma_sum_extend(qs: Seq<u32>, i: int)
    requires
        0 <= i < qs.len(),
    ensures
        sum_of(qs.subrange(0, i + 1)) == sum_of(qs.subrange(0, i)) + qs[i],
{
    assert(qs.subrange(0, i + 1).drop_last() =~= qs.subrange(0, i));
}

pub proof fn lemma_sum_prefix_le(qs: Seq<u32>, i: int)
    requires
        0 <= i <= qs.len(),
    ensures
        sum_of(qs.subrange(0, i)) <= sum_of(qs),
    decreases qs.len() - i,
{
    if i == qs.len() {
        assert(qs.subrange(0, i) =~= qs);
    } else {
        lemma_sum_extend(qs, i);
        lemma_sum_prefix_le(qs, i + 1);
    }
}

pub proof fn lemma_sum_at_least_len(qs: Seq<u32>)
    requires
        forall|i: int| 0 <= i < qs.len() ==> qs[i] > 0,
    ensures
        sum_of(qs) >= qs.len(),
    decreases qs.len(),
{
    if qs.len() > 0 {
        lemma_sum_at_least_len(qs.drop_last());
    }
}

pub proof fn lemma_sum_pointwise_le(a: Seq<u32>, b: Seq<u32>)
    requires
        a.len() == b.len(),
        forall|i: int| 0 <= i < a.len() ==> b[i] <= a[i],
    ensures
        sum_of(b) <= sum_of(a),
    decreases a.len(),
{
    if a.len() > 0 {
        lemma_sum_pointwise_le(a.drop_last(), b.drop_last());
    }
}

/// The amount taken from the entry at position `i` when a damage total `d`
/// is spread as evenly as possible over `n` entries: the even share `d / n`,
/// plus one unit for the first `d % n` positions.
pub open spec fn share_at(d: int, n: int, i: int) -> int {
    d / n + if i < d % n {
        1int
    } else {
        0int
    }
}

pub open spec fn sum_shares(d: int, n: int, k: int) -> int
    decreases k,
{
    if k <= 0 {
        0
    } else {
        sum_shares(d, n, k - 1) + share_at(d, n, k - 1)
    }
}

proof fn lemma_sum_shares_closed(d: int, n: int, k: int)
    requires
        0 <= d,
        1 <= n,
        0 <= k <= n,
    ensures
        sum_shares(d, n, k) == k * (d / n) + (if k <= d % n {
            k
        } else {
            d % n
        }),
    decreases k,
{
    assert(0 <= d % n < n) by (nonlinear_arith)
        requires 0 <= d && 1 <= n;
    if k == 0 {
        assert(k * (d / n) == 0) by (nonlinear_arith)
            requires k == 0;
    } else {
        lemma_sum_shares_closed(d, n, k - 1);
        assert(k * (d / n) == (k - 1) * (d / n) + d / n) by (nonlinear_arith);
    }
}

/// The per-entry shares sum to exactly the damage total.
pub proof fn lemma_shares_total(d: int, n: int)
    requires
        0 <= d,
        1 <= n,
    ensures
        sum_shares(d, n, n) == d,
{
    lemma_sum_shares_closed(d, n, n);
    assert(0 <= d % n < n) by (nonlinear_arith)
        requires 0 <= d && 1 <= n;
    assert(n * (d / n) + d % n == d) by (nonlinear_arith)
        requires 1 <= n;
}

/// Entry quantities after a damage total `d` is spread: each entry loses its
/// share, floored at zero by saturating subtraction.
pub open spec fn damaged_quantities(qs: Seq<u32>, d: int) -> Seq<u32> {
    Seq::new(
        qs.len(),
        |i: int|
            if qs[i] >= share_at(d, qs.len() as int, i) {
                (qs[i] - share_at(d, qs.len() as int, i)) as u32
            } else {
                0u32
            },
    )
}

/// The identifiers of the entries whose quantity stayed positive, in order.
pub open spec fn keep_positive_ids(ids: Seq<Resource>, qs: Seq<u32>) -> Seq<Resource>
    decreases qs.len(),
{
    if qs.len() == 0 {
        Seq::empty()
    } else {
        let rest = keep_positive_ids(ids.drop_last(), qs.drop_last());
        if qs.last() > 0 {
            rest.push(ids.last())
        } else {
            rest
        }
    }
}

/// The quantities that stayed positive, in order.
pub open spec fn keep_positive_qs(qs: Seq<u32>) -> Seq<u32>
    decreases qs.len(),
{
    if qs.len() == 0 {
        Seq::empty()
    } else {
        let rest = keep_positive_qs(qs.drop_last());
        if qs.last() > 0 {
            rest.push(qs.last())
        } else {
            rest
        }
    }
}

/// Dropping the zero entries does not change the total.
pub proof fn lemma_keep_positive_sum(qs: Seq<u32>)
    ensures
        sum_of(keep_positive_qs(qs)) == sum_of(qs),
    decreases qs.len(),
{
    if qs.len() > 0 {
        lemma_keep_positive_sum(qs.drop_last());
        if qs.last() > 0 {
            assert(keep_positive_qs(qs.drop_last()).push(qs.last()).drop_last() =~= keep_positive_qs(
                qs.drop_last(),
            ));
        }
    }
}

proof fn lemma_keep_positive_shape(ids: Seq<Resource>, qs: Seq<u32>)
    requires
        ids.len() == qs.len(),
    ensures
        keep_positive_ids(ids, qs).len() == keep_positive_qs(qs).len(),
        forall|i: int|
            0 <= i < keep_positive_qs(qs).len() ==> #[trigger] keep_positive_qs(qs)[i] > 0,
    decreases qs.len(),
{
    if qs.len() > 0 {
        lemma_keep_positive_shape(ids.drop_last(), qs.drop_last());
    }
}

proof fn lemma_damaged_sum_prefix(qs: Seq<u32>, d: int, k: int)
    requires
        qs.len() >= 1,
        0 <= d,
        forall|i: int| 0 <= i < qs.len() ==> share_at(d, qs.len() as int, i) <= qs[i],
        0 <= k <= qs.len(),
    ensures
        sum_of(damaged_quantities(qs, d).subrange(0, k)) == sum_of(qs.subrange(0, k))
            - sum_shares(d, qs.len() as int, k),
    decreases k,
{
    if k > 0 {
        lemma_damaged_sum_prefix(qs, d, k - 1);
        lemma_sum_extend(damaged_quantities(qs, d), k - 1);
        lemma_sum_extend(qs, k - 1);
    }
}

/// Durability distribution: when a damage total below the backing total is
/// spread over entries that can each absorb their share, the backing ledger
/// afterwards sums to exactly the old total minus the damage, and every
/// entry's loss is within one unit of the even share.
pub proof fn lemma_durability_distribution(qs: Seq<u32>, d: int)
    requires
        qs.len() >= 1,
        0 <= d < sum_of(qs),
        forall|i: int| 0 <= i < qs.len() ==> share_at(d, qs.len() as int, i) <= qs[i],
    ensures
        sum_of(keep_positive_qs(damaged_quantities(qs, d))) == sum_of(qs) - d,
        forall|i: int|
            0 <= i < qs.len() ==> d / (qs.len() as int) <= qs[i] - #[trigger] damaged_quantities(
                qs,
                d,
            )[i] <= d / (qs.len() as int) + 1,
{
    let n = qs.len() as int;
    lemma_keep_positive_sum(damaged_quantities(qs, d));
    lemma_damaged_sum_prefix(qs, d, n);
    lemma_shares_total(d, n);
    assert(damaged_quantities(qs, d).subrange(0, n) =~= damaged_quantities(qs, d));
    assert(qs.subrange(0, n) =~= qs);
    assert forall|i: int| 0 <= i < qs.len() implies d / n <= qs[i] - #[trigger] damaged_quantities(
        qs,
        d,
    )[i] <= d / n + 1 by {
        assert(0 <= d % n < n) by (nonlinear_arith)
            requires 0 <= d && 1 <= n;
        assert(d / n >= 0) by (nonlinear_arith)
            requires 0 <= d && 1 <= n;
    }
}

/// The resources consumed to craft a module, retained as that module's
/// remaining durability budget: parallel lists of resource identifiers and
/// strictly positive quantities.
#[derive(Clone)]
pub struct ModuleResources {
    resource_ids: Vec<Resource>,
    quantities: Vec<u32>,
}

/// The views of a list of validated quantities.
pub open spec fn quantity_values(qs: Seq<Quantity>) -> Seq<u32> {
    Seq::new(qs.len(), |i: int| qs[i]@)
}

impl ModuleResources {
    pub closed spec fn spec_ids(&self) -> Seq<Resource> {
        self.resource_ids@
    }

    pub closed spec fn spec_quantities(&self) -> Seq<u32> {
        self.quantities@
    }

    pub closed spec fn wf(&self) -> bool {
        &&& self.resource_ids@.len() == self.quantities@.len()
        &&& forall|i: int| 0 <= i < self.quantities@.len() ==> #[trigger] self.quantities@[i] > 0
        &&& sum_of(self.quantities@) <= u32::MAX
    }

    pub fn new(input_resources: &[Resource], input_quantities: &[Quantity]) -> (r: Self)
        requires
            input_resources@.len() == input_quantities@.len(),
            sum_of(quantity_values(input_quantities@)) <= u32::MAX,
        ensures
            r.wf(),
            r.spec_ids() == input_resources@,
            r.spec_quantities() == quantity_values(input_quantities@),
    {
        let ghost target: Seq<u32> = quantity_values(input_quantities@);
        let mut resource_ids: Vec<Resource> = Vec::with_capacity(input_resources.len());
        let mut quantities: Vec<u32> = Vec::with_capacity(input_quantities.len());
        let mut i: usize = 0;
        while i < input_resources.len()
            invariant
                i <= input_resources@.len(),
                input_resources@.len() == input_quantities@.len(),
                target == quantity_values(input_quantities@),
                resource_ids@ == input_resources@.subrange(0, i as int),
                quantities@ == target.subrange(0, i as int),
                forall|j: int| 0 <= j < i ==> #[trigger] quantities@[j] > 0,
            decreases input_resources@.len() - i,
        {
            resource_ids.push(input_resources[i]);
            quantities.push(input_quantities[i].get());
            proof {
                assert(resource_ids@ =~= input_resources@.subrange(0, i + 1));
                assert(quantities@ =~= target.subrange(0, i + 1));
            }
            i = i + 1;
        }
        proof {
            assert(resource_ids@ =~= input_resources@);
            assert(quantities@ =~= target);
        }
        ModuleResources { resource_ids, quantities }
    }

    /// True when a durability change leaves the module alive: a positive
    /// delta always does, and a non-positive one only when the backing total
    /// strictly exceeds its magnitude.
    pub fn enough_durability(&self, delta: i32) -> (r: bool)
        requires
            self.wf(),
        ensures
            r == (delta > 0 || sum_of(self.spec_quantities()) > -(delta as int)),
    {
        if delta > 0 {
            return true;
        }
        let mut total: u32 = 0;
        let mut i: usize = 0;
        while i < self.quantities.len()
            invariant
                self.wf(),
                i <= self.quantities@.len(),
                total == sum_of(self.quantities@.subrange(0, i as int)),
            decreases self.quantities@.len() - i,
        {
            proof {
                lemma_sum_extend(self.quantities@, i as int);
                lemma_sum_prefix_le(self.quantities@, i as int + 1);
            }
            total = total + self.quantities[i];
            i = i + 1;
        }
        proof {
            assert(self.quantities@.subrange(0, self.quantities@.len() as int)
                =~= self.quantities@);
        }
        let magnitude: u32 = (-(delta as i64)) as u32;
        total > magnitude
    }

    /// Applies a durability change.  A positive change is a pass-through
    /// trigger and leaves the backing resources as they are; a negative one
    /// spreads its magnitude over the entries as evenly as possible and drops
    /// every entry that reaches zero.
    pub fn update_durability(&mut self, total_change: i32)
        requires
            old(self).wf(),
            total_change != 0,
            total_change < 0 ==> sum_of(old(self).spec_quantities()) > -(total_change as int),
        ensures
            final(self).wf(),
            total_change > 0 ==> *final(self) == *old(self),
            total_change < 0 ==> final(self).spec_ids() == keep_positive_ids(
                old(self).spec_ids(),
                damaged_quantities(old(self).spec_quantities(), -(total_change as int)),
            ) && final(self).spec_quantities() == keep_positive_qs(
                damaged_quantities(old(self).spec_quantities(), -(total_change as int)),
            ),
    {
        if total_change > 0 {
            return ;
        }
        let d: u32 = (-(total_change as i64)) as u32;
        let n: usize = self.quantities.len();
        proof {
            if self.quantities@.len() == 0 {
                assert(sum_of(self.quantities@) == 0);
            }
            lemma_sum_at_least_len(self.quantities@);
        }
        let base: u32 = d / (n as u32);
        let rem: u32 = d % (n as u32);
        let ghost damaged: Seq<u32> = damaged_quantities(self.quantities@, d as int);
        let mut new_ids: Vec<Resource> = Vec::new();
        let mut new_qs: Vec<u32> = Vec::new();
        let mut i: usize = 0;
        while i < n
            invariant
                self.wf(),
                n == self.quantities@.len(),
                n == self.resource_ids@.len(),
                n <= u32::MAX,
                1 <= n,
                i <= n,
                d as int <= 0x8000_0000,
                base == d as int / n as int,
                rem == d as int % n as int,
                damaged == damaged_quantities(self.quantities@, d as int),
                new_ids@ == keep_positive_ids(
                    self.resource_ids@.subrange(0, i as int),
                    damaged.subrange(0, i as int),
                ),
                new_qs@ == keep_positive_qs(damaged.subrange(0, i as int)),
                forall|j: int| 0 <= j < new_qs@.len() ==> #[trigger] new_qs@[j] > 0,
                new_ids@.len() == new_qs@.len(),
            decreases n - i,
        {
            let share: u32 = if (i as u32) < rem {
                proof {
                    assert(base < d) by (nonlinear_arith)
                        requires
                            base == d as int / n as int,
                            rem == d as int % n as int,
                            (i as u32) < rem,
                            1 <= n <= u32::MAX,
                            0 <= d,
                    ;
                }
                base + 1
            } else {
                base
            };
            proof {
                assert(base <= d) by (nonlinear_arith)
                    requires
                        base == d as int / n as int,
                        1 <= n,
                        0 <= d,
                ;
                assert(share == share_at(d as int, n as int, i as int));
            }
            let q = self.quantities[i];
            if q > share {
                new_ids.push(self.resource_ids[i]);
                new_qs.push(q - share);
            }
            proof {
                assert(damaged.subrange(0, i + 1).drop_last() =~= damaged.subrange(0, i as int));
                assert(self.resource_ids@.subrange(0, i + 1).drop_last()
                    =~= self.resource_ids@.subrange(0, i as int));
                assert(damaged.subrange(0, i + 1).last() == damaged[i as int]);
                assert(new_ids@ =~= keep_positive_ids(
                    self.resource_ids@.subrange(0, i + 1),
                    damaged.subrange(0, i + 1),
                ));
                assert(new_qs@ =~= keep_positive_qs(damaged.subrange(0, i + 1)));
            }
            i = i + 1;
        }
        proof {
            assert(damaged.subrange(0, n as int) =~= damaged);
            assert(self.resource_ids@.subrange(0, n as int) =~= self.resource_ids@);
            lemma_keep_positive_shape(self.resource_ids@, damaged);
            lemma_keep_positive_sum(damaged);
            lemma_sum_pointwise_le(self.quantities@, damaged);
        }
        self.resource_ids = new_ids;
        self.quantities = new_qs;
    }
}

/// The name, creator, encoded property bytes and backing resources of one
/// crafted module.
#[derive(Clone)]
pub struct ModuleStats {
    name: String,
    creator: User,
    properties: Vec<u8>,
    resources: ModuleResources,
}

impl ModuleStats {
    pub closed spec fn spec_name(&self) -> Seq<char> {
        self.name@
    }

    pub closed spec fn spec_creator(&self) -> User {
        self.creator
    }

    pub closed spec fn spec_properties(&self) -> Seq<u8> {
        self.properties@
    }

    pub closed spec fn spec_resources(&self) -> ModuleResources {
        self.resources
    }

    pub closed spec fn wf(&self) -> bool {
        self.resources.wf()
    }

    pub fn new(name: String, creator: User, levels: &[u8], resources: ModuleResources) -> (r:
        Self)
        requires
            resources.wf(),
        ensures
            r.wf(),
            r.spec_name() == name@,
            r.spec_creator() == creator,
            r.spec_properties() == levels@,
            r.spec_resources() == resources,
    {
        let properties = slice_to_vec(levels);
        ModuleStats { name, creator, properties, resources }
    }

    pub fn get_properties(&self) -> (r: Vec<u8>)
        ensures
            r@ == self.spec_properties(),
    {
        slice_to_vec(self.properties.as_slice())
    }
}

/// The contents of a module registry after a durability change for one
/// module: a missing module is left alone, a module whose backing total
/// cannot absorb the hit is destroyed, damage is spread over the backing
/// entries, and a non-negative change leaves the registry as it is.
pub open spec fn registry_after_durability(
    m: Map<Module, ModuleStats>,
    module_id: Module,
    delta: int,
    updated: ModuleStats,
) -> Map<Module, ModuleStats> {
    if !m.contains_key(module_id) {
        m
    } else {
        let total = sum_of(m[module_id].spec_resources().spec_quantities());
        if !(delta > 0 || total > -delta) {
            m.remove(module_id)
        } else if delta < 0 {
            m.insert(module_id, updated)
        } else {
            m
        }
    }
}

/// The per-ship collection of crafted modules.
#[derive(Clone)]
pub struct Modules {
    modules: AssocVec<Module, ModuleStats>,
}

impl View for Modules {
    type V = Map<Module, ModuleStats>;

    closed spec fn view(&self) -> Map<Module, ModuleStats> {
        self.modules@
    }
}

impl Modules {
    pub closed spec fn wf(&self) -> bool {
        &&& self.modules.wf()
        &&& forall|m: Module| #[trigger] self.modules@.contains_key(m) ==> self.modules@[m].wf()
    }

    pub fn with_capacity(capacity: usize) -> (r: Self)
        ensures
            r.wf(),
            r@ == Map::<Module, ModuleStats>::empty(),
    {
        Modules { modules: AssocVec::with_capacity(capacity) }
    }

    pub fn add(&mut self, module_id: &Module, module: ModuleStats)
        requires
            old(self).wf(),
            module.wf(),
        ensures
            final(self).wf(),
            final(self)@ == old(self)@.insert(*module_id, module),
    {
        self.modules.insert(*module_id, module);
    }

    pub fn get(&self, module_id: &Module) -> (r: Option<&ModuleStats>)
        requires
            self.wf(),
        ensures
            match r {
                Some(stats) => self@.contains_key(*module_id) && *stats == self@[*module_id],
                None => !self@.contains_key(*module_id),
            },
    {
        self.modules.get(module_id)
    }

    /// Applies a durability change to one module.  If the module's backing
    /// total does not strictly exceed the magnitude of a non-positive change,
    /// the module is destroyed outright; otherwise damage is spread over the
    /// backing entries and the module survives, even if single entries empty.
    pub fn update_module_durability(&mut self, module_id: &Module, delta: i32)
        requires
            old(self).wf(),
        ensures
            final(self).wf(),
            final(self)@ == registry_after_durability(
                old(self)@,
                *module_id,
                delta as int,
                final(self)@[*module_id],
            ),
            (old(self)@.contains_key(*module_id) && delta < 0 && sum_of(
                old(self)@[*module_id].spec_resources().spec_quantities(),
            ) > -(delta as int)) ==> {
                let stats = old(self)@[*module_id];
                let updated = final(self)@[*module_id];
                &&& final(self)@.contains_key(*module_id)
                &&& updated.spec_name() == stats.spec_name()
                &&& updated.spec_creator() == stats.spec_creator()
                &&& updated.spec_properties() == stats.spec_properties()
                &&& updated.spec_resources().spec_ids() == keep_positive_ids(
                    stats.spec_resources().spec_ids(),
                    damaged_quantities(
                        stats.spec_resources().spec_quantities(),
                        -(delta as int),
                    ),
                )
                &&& updated.spec_resources().spec_quantities() == keep_positive_qs(
                    damaged_quantities(
                        stats.spec_resources().spec_quantities(),
                        -(delta as int),
                    ),
                )
            },
    {
        let taken = self.modules.remove(module_id);
        match taken {
            None => {
                proof {
                    assert(final(self)@ =~= old(self)@);
                }
            },
            Some(mut stats) => {
                if stats.resources.enough_durability(delta) {
                    if delta != 0 {
                        stats.resources.update_durability(delta);
                    }
                    self.modules.insert(*module_id, stats);
                    proof {
                        if delta < 0 {
                            assert(final(self)@ =~= old(self)@.insert(
                                *module_id,
                                final(self)@[*module_id],
                            ));
                        } else {
                            assert(final(self)@ =~= old(self)@);
                        }
                    }
                }
            },
        }
    }
}

} // verus!
