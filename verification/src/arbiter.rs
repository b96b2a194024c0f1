//! The arbiter's state: the three maps the protocol mutates, bundled
//! for the lifetime of a simulation session, with the cleanup
//! contract that must run when a vehicle despawns.

use vstd::prelude::*;
use crate::memory::{PairWinnerCache, RefPointOwners};
use crate::ledger::{CapacityLedger, without_id};
use crate::types::CollisionType;

verus! {

/// The arbitration state for one simulation session: the pairwise
/// winner cache, the reference-point ownership cache, and the
/// capacity ledger.
pub struct Arbiter {
    pub priority_map: PairWinnerCache,
    pub priority_ref: RefPointOwners,
    pub in_intersection: CapacityLedger,
}

impl Arbiter {
    pub open spec fn wf(self) -> bool {
        &&& self.priority_map.wf()
        &&& self.priority_ref.wf()
        &&& self.in_intersection.wf()
    }

    pub fn new() -> (a: Arbiter)
        ensures
            a.wf(),
            a.priority_map@ == Map::<(u64, u64), u64>::empty(),
            a.priority_ref@ == Map::<(i64, i64), u64>::empty(),
            forall|t: CollisionType| #[trigger] a.in_intersection.zone(t)
                == Seq::<u64>::empty(),
    {
        Arbiter {
            priority_map: PairWinnerCache::new(),
            priority_ref: RefPointOwners::new(),
            in_intersection: CapacityLedger::new(),
        }
    }

    /// The cleanup contract, one atomic step on despawn: afterwards no
    /// winner-cache entry mentions the removed vehicle, it owns no
    /// reference point, and it sits in no occupancy list — while every
    /// entry of the three maps that does not mention it is untouched.
    pub fn remove_vehicle(&mut self, id: u64)
        requires
            old(self).wf(),
        ensures
            final(self).wf(),
            forall|p: (u64, u64)| final(self).priority_map@.contains_key(p)
                <==> old(self).priority_map@.contains_key(p) && p.0 != id && p.1 != id,
            forall|p: (u64, u64)| #[trigger] final(self).priority_map@.contains_key(p)
                ==> final(self).priority_map@[p] == old(self).priority_map@[p]
                    && final(self).priority_map@[p] != id,
            forall|p: (i64, i64)| final(self).priority_ref@.contains_key(p)
                <==> old(self).priority_ref@.contains_key(p)
                    && old(self).priority_ref@[p] != id,
            forall|p: (i64, i64)| #[trigger] final(self).priority_ref@.contains_key(p)
                ==> final(self).priority_ref@[p] == old(self).priority_ref@[p],
            forall|t: CollisionType| #[trigger] final(self).in_intersection.zone(t)
                == without_id(old(self).in_intersection.zone(t), id),
            forall|t: CollisionType|
                !(#[trigger] final(self).in_intersection.zone(t)).contains(id),
    {
        self.priority_map.remove_id(id);
        self.priority_ref.remove_owner(id);
        self.in_intersection.remove_id(id);
    }
}

} // verus!
