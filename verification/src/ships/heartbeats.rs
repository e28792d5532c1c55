use crate::id_types::Ship;
use crate::keyed::{AssocVec, KeyEq};
use rand::Rng;
use rand::SeedableRng;
use vstd::prelude::*;

verus! {

#[verifier::external_type_specification]
#[verifier::external_body]
pub struct ExXoshiro128StarStar(rand_xoshiro::Xoshiro128StarStar);

/// Relies on rand_xoshiro::Xoshiro128StarStar::from_entropy (SeedableRng):
/// seeds a generator from operating-system entropy.  Nothing is promised of
/// the seeded state; it panics only if the entropy source itself fails.
#[verifier::external_body]
fn rng_from_entropy() -> rand_xoshiro::Xoshiro128StarStar {
    rand_xoshiro::Xoshiro128StarStar::from_entropy()
}

/// Relies on rand::Rng::gen_range: returns a value of the given half-open
/// range, uniformly distributed; it panics on an empty range, which the
/// precondition rules out.  Two calls on equal state may differ.
#[verifier::external_body]
fn rng_gen_index(rng: &mut rand_xoshiro::Xoshiro128StarStar, low: usize, high: usize) -> (r:
    usize)
    requires
        low < high,
    ensures
        low <= r < high,
{
    rng.gen_range(low..high)
}

/// The polling cadence after a count of ships has missed heartbeats: the
/// configured interval divided by that count (in its 16-bit reading), or the
/// previous cadence while the count is zero.
pub open spec fn frame_time_after(interval: u16, missed_count: int, previous: u64) -> u64 {
    let c = missed_count % 0x10000;
    if c > 0 {
        ((interval as int) / c) as u64
    } else {
        previous
    }
}

/// The heartbeat poller's state: the ships to poll, how often each has
/// missed a heartbeat, the configured polling interval and the derived
/// per-frame budget, and the generator that picks which ship to poll next.
pub struct Heartbeats {
    prng: rand_xoshiro::Xoshiro128StarStar,
    heartbeat_interval: u16,
    frame_time_ms: u64,
    entities: Vec<Ship>,
    entities_missed_hearbeat: AssocVec<Ship, u8>,
}

impl Heartbeats {
    pub closed spec fn spec_entities(&self) -> Seq<Ship> {
        self.entities@
    }

    pub closed spec fn spec_missed(&self) -> Map<Ship, u8> {
        self.entities_missed_hearbeat@
    }

    pub closed spec fn spec_interval(&self) -> u16 {
        self.heartbeat_interval
    }

    pub closed spec fn spec_frame_time(&self) -> u64 {
        self.frame_time_ms
    }

    pub closed spec fn wf(&self) -> bool {
        self.entities_missed_hearbeat.wf()
    }

    pub fn init(capacity: usize, interval: u16) -> (r: Self)
        ensures
            r.wf(),
            r.spec_entities() == Seq::<Ship>::empty(),
            r.spec_missed() == Map::<Ship, u8>::empty(),
            r.spec_interval() == interval,
            r.spec_frame_time() == interval as u64,
    {
        Heartbeats {
            prng: rng_from_entropy(),
            heartbeat_interval: interval,
            frame_time_ms: interval as u64,
            entities: Vec::with_capacity(capacity),
            entities_missed_hearbeat: AssocVec::with_capacity(capacity),
        }
    }

    /// The current per-frame budget in milliseconds.
    pub fn frame_time_ms(&self) -> (r: u64)
        ensures
            r == self.spec_frame_time(),
    {
        self.frame_time_ms
    }

    fn calculate_frame_rate(&mut self)
        requires
            old(self).wf(),
        ensures
            final(self).wf(),
            final(self).spec_entities() == old(self).spec_entities(),
            final(self).spec_missed() == old(self).spec_missed(),
            final(self).spec_interval() == old(self).spec_interval(),
            final(self).spec_frame_time() == frame_time_after(
                old(self).spec_interval(),
                old(self).spec_missed().dom().len() as int,
                old(self).spec_frame_time(),
            ),
    {
        let count = self.entities_missed_hearbeat.len();
        let c: u16 = (count % 0x10000) as u16;
        if c > 0 {
            self.frame_time_ms = (self.heartbeat_interval / c) as u64;
        }
    }

    pub fn add_component(&mut self, ship_id: Ship)
        requires
            old(self).wf(),
        ensures
            final(self).wf(),
            final(self).spec_entities() == old(self).spec_entities().push(ship_id),
            final(self).spec_missed() == old(self).spec_missed(),
            final(self).spec_interval() == old(self).spec_interval(),
            final(self).spec_frame_time() == frame_time_after(
                old(self).spec_interval(),
                old(self).spec_missed().dom().len() as int,
                old(self).spec_frame_time(),
            ),
    {
        self.entities.push(ship_id);
        self.calculate_frame_rate();
    }

    pub fn remove_component(&mut self, ship_id: Ship)
        requires
            old(self).wf(),
        ensures
            final(self).wf(),
            final(self).spec_missed() == old(self).spec_missed().remove(ship_id),
            final(self).spec_interval() == old(self).spec_interval(),
            final(self).spec_frame_time() == frame_time_after(
                old(self).spec_interval(),
                final(self).spec_missed().dom().len() as int,
                old(self).spec_frame_time(),
            ),
            !old(self).spec_entities().contains(ship_id) ==> final(self).spec_entities() == old(
                self,
            ).spec_entities(),
            old(self).spec_entities().contains(ship_id) ==> exists|i: int|
                0 <= i < old(self).spec_entities().len() && #[trigger] old(
                    self,
                ).spec_entities()[i] == ship_id && (forall|j: int|
                    0 <= j < i ==> old(self).spec_entities()[j] != ship_id) && final(self)
                    .spec_entities() == old(self).spec_entities().update(
                    i,
                    old(self).spec_entities().last(),
                ).drop_last(),
    {
        let mut i: usize = 0;
        let mut found = false;
        while i < self.entities.len() && !found
            invariant
                self.wf(),
                *self == *old(self),
                i <= self.entities@.len(),
                !found ==> forall|j: int| 0 <= j < i ==> self.entities@[j] != ship_id,
                found ==> i < self.entities@.len() && self.entities@[i as int] == ship_id && (
                forall|j: int| 0 <= j < i ==> self.entities@[j] != ship_id),
            decreases self.entities@.len() - i + (if found {
                0int
            } else {
                1int
            }),
        {
            if ship_id.key_eq(&self.entities[i]) {
                found = true;
            } else {
                i = i + 1;
            }
        }
        if found {
            let _ = self.entities.swap_remove(i);
        }
        let _ = self.entities_missed_hearbeat.remove(&ship_id);
        self.calculate_frame_rate();
        proof {
            if old(self).spec_entities().contains(ship_id) {
                assert(exists|k: int|
                    0 <= k < old(self).spec_entities().len() && old(self).spec_entities()[k]
                        == ship_id);
            }
        }
    }

    /// Records a heartbeat response.  A first response for a ship starts its
    /// missed count at one; later ones raise it, and once the count passes
    /// five, the returned flag tells the caller to delete the ship.
    pub fn process_response(&mut self, ship_id: Ship) -> (delete: bool)
        requires
            old(self).wf(),
        ensures
            final(self).wf(),
            final(self).spec_entities() == old(self).spec_entities(),
            final(self).spec_interval() == old(self).spec_interval(),
            final(self).spec_frame_time() == old(self).spec_frame_time(),
            !old(self).spec_missed().contains_key(ship_id) ==> final(self).spec_missed() == old(
                self,
            ).spec_missed().insert(ship_id, 1) && !delete,
            old(self).spec_missed().contains_key(ship_id) ==> ({
                let raised = if old(self).spec_missed()[ship_id] < 255 {
                    (old(self).spec_missed()[ship_id] + 1) as u8
                } else {
                    255u8
                };
                &&& final(self).spec_missed() == old(self).spec_missed().insert(ship_id, raised)
                &&& delete == (raised > 5)
            }),
    {
        let missed = match self.entities_missed_hearbeat.get(&ship_id) {
            Some(missed) => Some(*missed),
            None => None,
        };
        match missed {
            Some(missed) => {
                let raised: u8 = if missed < 255 {
                    missed + 1
                } else {
                    255
                };
                self.entities_missed_hearbeat.insert(ship_id, raised);
                raised > 5
            },
            None => {
                self.entities_missed_hearbeat.insert(ship_id, 1);
                false
            },
        }
    }

    pub fn interval_update(&mut self, new_interval: u16)
        requires
            old(self).wf(),
        ensures
            final(self).wf(),
            final(self).spec_entities() == old(self).spec_entities(),
            final(self).spec_missed() == old(self).spec_missed(),
            final(self).spec_interval() == new_interval,
            final(self).spec_frame_time() == frame_time_after(
                new_interval,
                old(self).spec_missed().dom().len() as int,
                old(self).spec_frame_time(),
            ),
    {
        self.heartbeat_interval = new_interval;
        self.calculate_frame_rate();
    }

    /// One periodic step: picks one registered ship to poll, or none while
    /// no ship is registered.  Which ship comes back depends on the
    /// generator's state; every outcome is one of the registered ships.
    pub fn periodic_hearbeat(&mut self) -> (r: Option<Ship>)
        requires
            old(self).wf(),
        ensures
            final(self).wf(),
            final(self).spec_entities() == old(self).spec_entities(),
            final(self).spec_missed() == old(self).spec_missed(),
            final(self).spec_interval() == old(self).spec_interval(),
            final(self).spec_frame_time() == old(self).spec_frame_time(),
            r is Some <==> old(self).spec_entities().len() > 0,
            r matches Some(ship) ==> old(self).spec_entities().contains(ship),
    {
        let count = self.entities.len();
        if count < 1 {
            return None;
        }
        let pick = rng_gen_index(&mut self.prng, 0, count);
        Some(self.entities[pick])
    }
}

} // verus!
