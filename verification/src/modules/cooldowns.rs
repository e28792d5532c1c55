use crate::id_types::Module;
use crate::keyed::{AssocVec, KeyEq};
use vstd::prelude::*;

verus! {

/// The module identifiers that survive one tick of `delta` milliseconds:
/// exactly those whose remaining time strictly exceeds the tick.
pub open spec fn tick_ids(ids: Seq<Module>, timers: Seq<u64>, delta: u64) -> Seq<Module>
    decreases timers.len(),
{
    if timers.len() == 0 {
        Seq::empty()
    } else {
        let rest = tick_ids(ids.drop_last(), timers.drop_last(), delta);
        if timers.last() > delta {
            rest.push(ids.last())
        } else {
            rest
        }
    }
}

/// The remaining times that survive one tick, each reduced by the tick.
pub open spec fn tick_timers(timers: Seq<u64>, delta: u64) -> Seq<u64>
    decreases timers.len(),
{
    if timers.len() == 0 {
        Seq::empty()
    } else {
        let rest = tick_timers(timers.drop_last(), delta);
        if timers.last() > delta {
            rest.push((timers.last() - delta) as u64)
        } else {
            rest
        }
    }
}

/// How many running timers a module has.
pub open spec fn active_count(ids: Seq<Module>, m: Module) -> int
    decreases ids.len(),
{
    if ids.len() == 0 {
        0
    } else {
        active_count(ids.drop_last(), m) + if ids.last() == m {
            1int
        } else {
            0int
        }
    }
}

/// The remaining time of the last timer a module has.
pub open spec fn timer_of(ids: Seq<Module>, timers: Seq<u64>, m: Module) -> u64
    decreases ids.len(),
{
    if ids.len() == 0 {
        0
    } else if ids.last() == m {
        timers.last()
    } else {
        timer_of(ids.drop_last(), timers.drop_last(), m)
    }
}

proof fn lemma_count_push(ids: Seq<Module>, a: Module, m: Module)
    ensures
        active_count(ids.push(a), m) == active_count(ids, m) + if a == m {
            1int
        } else {
            0int
        },
{
    assert(ids.push(a).drop_last() =~= ids);
    assert(ids.push(a).last() == a);
}

proof fn lemma_timer_of_push(ids: Seq<Module>, timers: Seq<u64>, a: Module, t: u64, m: Module)
    ensures
        timer_of(ids.push(a), timers.push(t), m) == if a == m {
            t
        } else {
            timer_of(ids, timers, m)
        },
{
    assert(ids.push(a).drop_last() =~= ids);
    assert(timers.push(t).drop_last() =~= timers);
    assert(ids.push(a).last() == a);
    assert(timers.push(t).last() == t);
}

pub proof fn lemma_count_contains(ids: Seq<Module>, m: Module)
    ensures
        active_count(ids, m) > 0 <==> ids.contains(m),
        active_count(ids, m) >= 0,
    decreases ids.len(),
{
    if ids.len() > 0 {
        lemma_count_contains(ids.drop_last(), m);
        if ids.last() == m {
            assert(ids[ids.len() - 1] == m);
        } else {
            if ids.contains(m) {
                let i = choose|i: int| 0 <= i < ids.len() && ids[i] == m;
                assert(ids.drop_last()[i] == m);
            }
            if ids.drop_last().contains(m) {
                let i = choose|i: int| 0 <= i < ids.drop_last().len() && ids.drop_last()[i] == m;
                assert(ids[i] == m);
            }
        }
    }
}

proof fn lemma_tick_absent(ids: Seq<Module>, timers: Seq<u64>, m: Module, delta: u64)
    requires
        ids.len() == timers.len(),
        active_count(ids, m) == 0,
    ensures
        active_count(tick_ids(ids, timers, delta), m) == 0,
        tick_ids(ids, timers, delta).len() == tick_timers(timers, delta).len(),
    decreases ids.len(),
{
    lemma_count_contains(ids, m);
    if ids.len() > 0 {
        lemma_count_contains(ids.drop_last(), m);
        lemma_tick_absent(ids.drop_last(), timers.drop_last(), m, delta);
        if timers.last() > delta {
            lemma_count_push(
                tick_ids(ids.drop_last(), timers.drop_last(), delta),
                ids.last(),
                m,
            );
        }
    }
}

proof fn lemma_tick_lens(ids: Seq<Module>, timers: Seq<u64>, delta: u64)
    requires
        ids.len() == timers.len(),
    ensures
        tick_ids(ids, timers, delta).len() == tick_timers(timers, delta).len(),
    decreases ids.len(),
{
    if ids.len() > 0 {
        lemma_tick_lens(ids.drop_last(), timers.drop_last(), delta);
    }
}

/// What one tick does to a module with exactly one running timer: the timer
/// survives, reduced by the tick, exactly when its remaining time strictly
/// exceeds the tick.
proof fn lemma_tick_single(ids: Seq<Module>, timers: Seq<u64>, m: Module, delta: u64)
    requires
        ids.len() == timers.len(),
        active_count(ids, m) == 1,
    ensures
        tick_ids(ids, timers, delta).len() == tick_timers(timers, delta).len(),
        timer_of(ids, timers, m) > delta ==> active_count(tick_ids(ids, timers, delta), m) == 1
            && timer_of(tick_ids(ids, timers, delta), tick_timers(timers, delta), m) == (
        timer_of(ids, timers, m) - delta) as u64,
        timer_of(ids, timers, m) <= delta ==> active_count(tick_ids(ids, timers, delta), m)
            == 0,
    decreases ids.len(),
{
    lemma_tick_lens(ids, timers, delta);
    if ids.len() > 0 {
        lemma_count_contains(ids.drop_last(), m);
        let rest_ids = tick_ids(ids.drop_last(), timers.drop_last(), delta);
        let rest_timers = tick_timers(timers.drop_last(), delta);
        if ids.last() == m {
            lemma_tick_absent(ids.drop_last(), timers.drop_last(), m, delta);
            if timers.last() > delta {
                lemma_count_push(rest_ids, ids.last(), m);
                lemma_timer_of_push(
                    rest_ids,
                    rest_timers,
                    ids.last(),
                    (timers.last() - delta) as u64,
                    m,
                );
            }
        } else {
            lemma_tick_single(ids.drop_last(), timers.drop_last(), m, delta);
            if timers.last() > delta {
                lemma_count_push(rest_ids, ids.last(), m);
                lemma_timer_of_push(
                    rest_ids,
                    rest_timers,
                    ids.last(),
                    (timers.last() - delta) as u64,
                    m,
                );
            }
        }
    }
}

/// The total elapsed wall-clock time of a sequence of ticks.
pub open spec fn elapsed_total(ticks: Seq<u64>) -> int
    decreases ticks.len(),
{
    if ticks.len() == 0 {
        0
    } else {
        ticks.first() + elapsed_total(ticks.drop_first())
    }
}

/// The running modules left after a sequence of ticks.
pub open spec fn run_ticks_ids(ids: Seq<Module>, timers: Seq<u64>, ticks: Seq<u64>) -> Seq<
    Module,
>
    decreases ticks.len(),
{
    if ticks.len() == 0 {
        ids
    } else {
        run_ticks_ids(
            tick_ids(ids, timers, ticks.first()),
            tick_timers(timers, ticks.first()),
            ticks.drop_first(),
        )
    }
}

proof fn lemma_elapsed_nonneg(ticks: Seq<u64>)
    ensures
        elapsed_total(ticks) >= 0,
    decreases ticks.len(),
{
    if ticks.len() > 0 {
        lemma_elapsed_nonneg(ticks.drop_first());
    }
}

proof fn lemma_run_ticks_absent(ids: Seq<Module>, timers: Seq<u64>, m: Module, ticks: Seq<u64>)
    requires
        ids.len() == timers.len(),
        active_count(ids, m) == 0,
    ensures
        !run_ticks_ids(ids, timers, ticks).contains(m),
    decreases ticks.len(),
{
    lemma_count_contains(ids, m);
    if ticks.len() > 0 {
        lemma_tick_absent(ids, timers, m, ticks.first());
        lemma_run_ticks_absent(
            tick_ids(ids, timers, ticks.first()),
            tick_timers(timers, ticks.first()),
            m,
            ticks.drop_first(),
        );
    }
}

/// Cooldown expiry: a module with a single running timer stays active
/// through a sequence of ticks exactly while the elapsed tick time sums to
/// strictly less than the timer's remaining duration; once the cumulative
/// elapsed time reaches it, the module is no longer active, for good.
pub proof fn lemma_cooldown_expiry(ids: Seq<Module>, timers: Seq<u64>, m: Module, ticks: Seq<
    u64,
>)
    requires
        ids.len() == timers.len(),
        active_count(ids, m) == 1,
        timer_of(ids, timers, m) > 0,
    ensures
        run_ticks_ids(ids, timers, ticks).contains(m) <==> elapsed_total(ticks) < timer_of(
            ids,
            timers,
            m,
        ),
    decreases ticks.len(),
{
    lemma_count_contains(ids, m);
    if ticks.len() == 0 {
        lemma_elapsed_nonneg(ticks);
    } else {
        let e = ticks.first();
        lemma_tick_single(ids, timers, m, e);
        if timer_of(ids, timers, m) > e {
            lemma_cooldown_expiry(
                tick_ids(ids, timers, e),
                tick_timers(timers, e),
                m,
                ticks.drop_first(),
            );
        } else {
            lemma_run_ticks_absent(
                tick_ids(ids, timers, e),
                tick_timers(timers, e),
                m,
                ticks.drop_first(),
            );
            lemma_elapsed_nonneg(ticks.drop_first());
        }
    }
}

/// The shared set of modules whose cooldown timer is currently running.
/// The owning actor writes it; readers only ask membership questions.
pub struct Cooldowns {
    data: Vec<Module>,
}

impl View for Cooldowns {
    type V = Seq<Module>;

    closed spec fn view(&self) -> Seq<Module> {
        self.data@
    }
}

impl Cooldowns {
    pub fn new(capacity: usize) -> (r: Self)
        ensures
            r@ == Seq::<Module>::empty(),
    {
        Cooldowns { data: Vec::with_capacity(capacity) }
    }

    /// True exactly while the module has a running timer.
    pub fn is_active(&self, module_id: &Module) -> (r: bool)
        ensures
            r == self@.contains(*module_id),
    {
        let mut i: usize = 0;
        while i < self.data.len()
            invariant
                i <= self.data@.len(),
                forall|j: int| 0 <= j < i ==> self.data@[j] != *module_id,
            decreases self.data@.len() - i,
        {
            if self.data[i].key_eq(module_id) {
                return true;
            }
            i = i + 1;
        }
        false
    }
}

/// The currently running timers: a module identifier and a remaining
/// duration, in milliseconds, per running cooldown.  A timer is removed the
/// instant it reaches zero.
pub struct ActiveCooldowns {
    module_ids: Cooldowns,
    timers: Vec<u64>,
}

impl ActiveCooldowns {
    pub closed spec fn spec_modules(&self) -> Seq<Module> {
        self.module_ids@
    }

    pub closed spec fn spec_timers(&self) -> Seq<u64> {
        self.timers@
    }

    pub closed spec fn wf(&self) -> bool {
        self.module_ids@.len() == self.timers@.len()
    }

    pub fn new(capacity: usize) -> (r: Self)
        ensures
            r.wf(),
            r.spec_modules() == Seq::<Module>::empty(),
            r.spec_timers() == Seq::<u64>::empty(),
    {
        ActiveCooldowns { module_ids: Cooldowns::new(capacity), timers: Vec::with_capacity(capacity) }
    }

    /// The read-only membership view that other actors hold.
    pub fn handle(&self) -> (r: &Cooldowns)
        ensures
            r@ == self.spec_modules(),
    {
        &self.module_ids
    }

    pub fn start_timer(&mut self, module_id: &Module, time: u64)
        requires
            old(self).wf(),
        ensures
            final(self).wf(),
            final(self).spec_modules() == old(self).spec_modules().push(*module_id),
            final(self).spec_timers() == old(self).spec_timers().push(time),
    {
        self.module_ids.data.push(*module_id);
        self.timers.push(time);
    }

    /// One fixed-rate tick: every running timer is reduced by the elapsed
    /// time, and every timer that does not strictly outlast it is removed.
    pub fn update_timers(&mut self, delta_time: u64)
        requires
            old(self).wf(),
        ensures
            final(self).wf(),
            final(self).spec_modules() == tick_ids(
                old(self).spec_modules(),
                old(self).spec_timers(),
                delta_time,
            ),
            final(self).spec_timers() == tick_timers(old(self).spec_timers(), delta_time),
    {
        let n = self.timers.len();
        let mut new_ids: Vec<Module> = Vec::new();
        let mut new_timers: Vec<u64> = Vec::new();
        let mut i: usize = 0;
        while i < n
            invariant
                self.wf(),
                n == self.timers@.len(),
                n == self.module_ids@.len(),
                i <= n,
                new_ids@ == tick_ids(
                    self.module_ids@.subrange(0, i as int),
                    self.timers@.subrange(0, i as int),
                    delta_time,
                ),
                new_timers@ == tick_timers(self.timers@.subrange(0, i as int), delta_time),
            decreases n - i,
        {
            let remaining = self.timers[i];
            if remaining > delta_time {
                new_ids.push(self.module_ids.data[i]);
                new_timers.push(remaining - delta_time);
            }
            proof {
                assert(self.module_ids@.subrange(0, i + 1).drop_last()
                    =~= self.module_ids@.subrange(0, i as int));
                assert(self.timers@.subrange(0, i + 1).drop_last() =~= self.timers@.subrange(
                    0,
                    i as int,
                ));
                assert(new_ids@ =~= tick_ids(
                    self.module_ids@.subrange(0, i + 1),
                    self.timers@.subrange(0, i + 1),
                    delta_time,
                ));
                assert(new_timers@ =~= tick_timers(
                    self.timers@.subrange(0, i + 1),
                    delta_time,
                ));
            }
            i = i + 1;
        }
        proof {
            assert(self.module_ids@.subrange(0, n as int) =~= self.module_ids@);
            assert(self.timers@.subrange(0, n as int) =~= self.timers@);
            lemma_tick_lens(self.module_ids@, self.timers@, delta_time);
        }
        self.module_ids.data = new_ids;
        self.timers = new_timers;
    }
}

/// The two-tier cooldown store: configured durations per module, and the
/// timers currently counting down.  Configuration changes never touch a
/// timer that is already running.
pub struct CooldownEngine {
    cold_data: AssocVec<Module, u64>,
    hot_data: ActiveCooldowns,
}

impl CooldownEngine {
    pub closed spec fn spec_config(&self) -> Map<Module, u64> {
        self.cold_data@
    }

    pub closed spec fn spec_active_modules(&self) -> Seq<Module> {
        self.hot_data.spec_modules()
    }

    pub closed spec fn spec_active_timers(&self) -> Seq<u64> {
        self.hot_data.spec_timers()
    }

    pub closed spec fn wf(&self) -> bool {
        self.cold_data.wf() && self.hot_data.wf()
    }

    pub fn init(capacity: usize) -> (r: Self)
        ensures
            r.wf(),
            r.spec_config() == Map::<Module, u64>::empty(),
            r.spec_active_modules() == Seq::<Module>::empty(),
            r.spec_active_timers() == Seq::<u64>::empty(),
    {
        CooldownEngine {
            cold_data: AssocVec::with_capacity(capacity),
            hot_data: ActiveCooldowns::new(capacity / 10),
        }
    }

    /// Sets or overwrites a module's configured duration, in milliseconds.
    /// Idempotent, and without effect on a timer already running.
    pub fn add_or_update_component(&mut self, module_id: &Module, duration: u64)
        requires
            old(self).wf(),
        ensures
            final(self).wf(),
            final(self).spec_config() == old(self).spec_config().insert(*module_id, duration),
            final(self).spec_active_modules() == old(self).spec_active_modules(),
            final(self).spec_active_timers() == old(self).spec_active_timers(),
    {
        self.cold_data.insert(*module_id, duration);
    }

    /// Deletes a module's configured duration without cancelling a timer
    /// already running.
    pub fn remove_component(&mut self, module_id: &Module)
        requires
            old(self).wf(),
        ensures
            final(self).wf(),
            final(self).spec_config() == old(self).spec_config().remove(*module_id),
            final(self).spec_active_modules() == old(self).spec_active_modules(),
            final(self).spec_active_timers() == old(self).spec_active_timers(),
    {
        let _ = self.cold_data.remove(module_id);
    }

    /// Starts a timer from the module's configured duration.  For a module
    /// with no configured duration the request is a no-op.
    pub fn start_timer(&mut self, module_id: &Module)
        requires
            old(self).wf(),
        ensures
            final(self).wf(),
            final(self).spec_config() == old(self).spec_config(),
            !old(self).spec_config().contains_key(*module_id) ==> final(self)
                .spec_active_modules() == old(self).spec_active_modules() && final(self)
                .spec_active_timers() == old(self).spec_active_timers(),
            old(self).spec_config().contains_key(*module_id) ==> final(self)
                .spec_active_modules() == old(self).spec_active_modules().push(*module_id)
                && final(self).spec_active_timers() == old(self).spec_active_timers().push(
                old(self).spec_config()[*module_id],
            ),
    {
        let time = match self.cold_data.get(module_id) {
            Some(time) => *time,
            None => {
                return ;
            },
        };
        self.hot_data.start_timer(module_id, time);
    }

    /// One fixed-rate tick over every running timer.
    pub fn update_timers(&mut self, delta_time: u64)
        requires
            old(self).wf(),
        ensures
            final(self).wf(),
            final(self).spec_config() == old(self).spec_config(),
            final(self).spec_active_modules() == tick_ids(
                old(self).spec_active_modules(),
                old(self).spec_active_timers(),
                delta_time,
            ),
            final(self).spec_active_timers() == tick_timers(
                old(self).spec_active_timers(),
                delta_time,
            ),
    {
        self.hot_data.update_timers(delta_time);
    }

    /// True exactly while the module has a running timer; the only operation
    /// exposed to read-only callers.
    pub fn is_active(&self, module_id: &Module) -> (r: bool)
        ensures
            r == self.spec_active_modules().contains(*module_id),
    {
        self.hot_data.handle().is_active(module_id)
    }
}

} // verus!
