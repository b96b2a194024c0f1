//! Capacity ledger: per-conflict-zone occupancy lists.
//!
//! Each conflict tag owns an ordered list of the vehicles currently
//! counted as inside that tag's conflict zone.  A vehicle is appended
//! once, when it first crosses its entry threshold and the capacity
//! check passes, and removed when it leaves the simulation.  Entry is
//! gated on the number of other occupied zones staying below the
//! capacity limit, and a left-turn vehicle is additionally barred
//! while any other left-turn zone is occupied — no two left turns are
//! ever concurrent, system-wide.

use vstd::prelude::*;
use crate::types::CollisionType;

verus! {

/// Cap on how many conflict zones may be occupied at once around any
/// one vehicle's entry decision.
pub const ZONE_CAPACITY: u64 = 3;

/// The left-turn tags.
pub open spec fn is_left(t: CollisionType) -> bool {
    match t {
        CollisionType::NL | CollisionType::WL | CollisionType::EL | CollisionType::SL => true,
        _ => false,
    }
}

pub fn is_left_tag(t: CollisionType) -> (b: bool)
    ensures
        b == is_left(t),
{
    match t {
        CollisionType::NL | CollisionType::WL | CollisionType::EL | CollisionType::SL => true,
        _ => false,
    }
}

/// `s` with every occurrence of `id` removed, order otherwise kept.
pub open spec fn without_id(s: Seq<u64>, id: u64) -> Seq<u64>
    decreases s.len(),
{
    if s.len() == 0 {
        Seq::empty()
    } else {
        let rest = without_id(s.drop_last(), id);
        if s.last() == id {
            rest
        } else {
            rest.push(s.last())
        }
    }
}

pub proof fn lemma_without_id(s: Seq<u64>, id: u64)
    ensures
        !without_id(s, id).contains(id),
        forall|x: u64| x != id ==> (without_id(s, id).contains(x) == s.contains(x)),
        without_id(s, id).len() <= s.len(),
    decreases s.len(),
{
    if s.len() > 0 {
        let sub = without_id(s.drop_last(), id);
        lemma_without_id(s.drop_last(), id);
        assert forall|x: u64| x != id
            implies without_id(s, id).contains(x) == s.contains(x) by {
            let w = without_id(s, id);
            if s.contains(x) {
                let i = choose|i: int| 0 <= i < s.len() && s[i] == x;
                if i < s.len() - 1 {
                    assert(s.drop_last()[i] == x);
                    assert(s.drop_last().contains(x));
                    assert(sub.contains(x));
                    let k = choose|k: int| 0 <= k < sub.len() && sub[k] == x;
                    if s.last() != id {
                        assert(w[k] == x);
                    }
                    assert(w.contains(x));
                } else {
                    assert(w[w.len() - 1] == x);
                    assert(w.contains(x));
                }
            }
            if w.contains(x) {
                let i = choose|i: int| 0 <= i < w.len() && w[i] == x;
                if s.last() == id {
                    assert(sub[i] == x);
                    assert(s.drop_last().contains(x));
                    let m = choose|m: int| 0 <= m < s.drop_last().len()
                        && s.drop_last()[m] == x;
                    assert(s[m] == x);
                } else if i < w.len() - 1 {
                    assert(sub[i] == x);
                    assert(s.drop_last().contains(x));
                    let m = choose|m: int| 0 <= m < s.drop_last().len()
                        && s.drop_last()[m] == x;
                    assert(s[m] == x);
                } else {
                    assert(s[s.len() - 1] == x);
                }
                assert(s.contains(x));
            }
        };
    }
}

/// Per-tag occupancy lists for the nine conflict zones.
pub struct CapacityLedger {
    ns: Vec<u64>,
    ws: Vec<u64>,
    es: Vec<u64>,
    ss: Vec<u64>,
    nl: Vec<u64>,
    wl: Vec<u64>,
    el: Vec<u64>,
    sl: Vec<u64>,
    gg: Vec<u64>,
}

impl CapacityLedger {
    /// The vehicles currently counted inside `t`'s conflict zone, in
    /// order of admission.
    pub closed spec fn zone(self, t: CollisionType) -> Seq<u64> {
        match t {
            CollisionType::NS => self.ns@,
            CollisionType::WS => self.ws@,
            CollisionType::ES => self.es@,
            CollisionType::SS => self.ss@,
            CollisionType::NL => self.nl@,
            CollisionType::WL => self.wl@,
            CollisionType::EL => self.el@,
            CollisionType::SL => self.sl@,
            CollisionType::GG => self.gg@,
        }
    }

    /// 1 when `t`'s zone is occupied, else 0.
    pub open spec fn zone_occ(self, t: CollisionType) -> int {
        if self.zone(t).len() > 0 {
            1
        } else {
            0
        }
    }

    /// Number of occupied conflict zones.
    pub open spec fn occupied_zones(self) -> int {
        self.zone_occ(CollisionType::NS) + self.zone_occ(CollisionType::WS)
            + self.zone_occ(CollisionType::ES) + self.zone_occ(CollisionType::SS)
            + self.zone_occ(CollisionType::NL) + self.zone_occ(CollisionType::WL)
            + self.zone_occ(CollisionType::EL) + self.zone_occ(CollisionType::SL)
            + self.zone_occ(CollisionType::GG)
    }

    /// Number of occupied conflict zones other than `t`'s own: the
    /// count a vehicle of tag `t` is gated on.
    pub open spec fn occupied_excluding(self, t: CollisionType) -> int {
        self.occupied_zones() - self.zone_occ(t)
    }

    /// Some left-turn zone other than `t`'s is occupied.
    pub open spec fn other_left_occupied(self, t: CollisionType) -> bool {
        ||| (t != CollisionType::NL && self.zone(CollisionType::NL).len() > 0)
        ||| (t != CollisionType::WL && self.zone(CollisionType::WL).len() > 0)
        ||| (t != CollisionType::EL && self.zone(CollisionType::EL).len() > 0)
        ||| (t != CollisionType::SL && self.zone(CollisionType::SL).len() > 0)
    }

    /// A vehicle of tag `t` may move into (or register for) its
    /// conflict zone: fewer than the capacity limit of other zones are
    /// occupied, and for a left turn no other left-turn zone is.
    pub open spec fn entry_allowed_spec(self, t: CollisionType) -> bool {
        &&& self.occupied_excluding(t) < ZONE_CAPACITY
        &&& (is_left(t) ==> !self.other_left_occupied(t))
    }

    /// No two distinct left-turn zones are occupied at once.
    pub open spec fn left_exclusive(self) -> bool {
        forall|a: CollisionType, b: CollisionType|
            is_left(a) && is_left(b) && a != b
                ==> !(#[trigger] self.zone(a).len() > 0 && #[trigger] self.zone(b).len() > 0)
    }

    pub open spec fn wf(self) -> bool {
        self.left_exclusive()
    }

    pub fn new() -> (l: CapacityLedger)
        ensures
            l.wf(),
            forall|t: CollisionType| #[trigger] l.zone(t) == Seq::<u64>::empty(),
    {
        let l = CapacityLedger {
            ns: Vec::new(),
            ws: Vec::new(),
            es: Vec::new(),
            ss: Vec::new(),
            nl: Vec::new(),
            wl: Vec::new(),
            el: Vec::new(),
            sl: Vec::new(),
            gg: Vec::new(),
        };
        proof {
            assert forall|t: CollisionType| #[trigger] l.zone(t) == Seq::<u64>::empty() by {
                assert(l.zone(t).len() == 0);
                assert(l.zone(t) =~= Seq::<u64>::empty());
            };
        }
        l
    }

    fn zone_ref(&self, t: CollisionType) -> (r: &Vec<u64>)
        ensures
            r@ == self.zone(t),
    {
        match t {
            CollisionType::NS => &self.ns,
            CollisionType::WS => &self.ws,
            CollisionType::ES => &self.es,
            CollisionType::SS => &self.ss,
            CollisionType::NL => &self.nl,
            CollisionType::WL => &self.wl,
            CollisionType::EL => &self.el,
            CollisionType::SL => &self.sl,
            CollisionType::GG => &self.gg,
        }
    }

    /// Number of vehicles currently counted inside `t`'s zone.
    pub fn zone_len(&self, t: CollisionType) -> (n: usize)
        ensures
            n == self.zone(t).len(),
    {
        self.zone_ref(t).len()
    }

    /// Whether `id` is currently counted inside `t`'s zone.
    pub fn contains(&self, t: CollisionType, id: u64) -> (b: bool)
        ensures
            b == self.zone(t).contains(id),
    {
        let list = self.zone_ref(t);
        let n = list.len();
        let mut i: usize = 0;
        while i < n
            invariant
                n == list@.len(),
                list@ == self.zone(t),
                i <= n,
                forall|j: int| 0 <= j < i ==> self.zone(t)[j] != id,
            decreases n - i,
        {
            if list[i] == id {
                return true;
            }
            i = i + 1;
        }
        false
    }

    /// Counts the occupied conflict zones.
    pub fn occupied_zone_count(&self) -> (n: u64)
        ensures
            n == self.occupied_zones(),
    {
        let mut n: u64 = 0;
        if self.ns.len() > 0 {
            n = n + 1;
        }
        if self.ws.len() > 0 {
            n = n + 1;
        }
        if self.es.len() > 0 {
            n = n + 1;
        }
        if self.ss.len() > 0 {
            n = n + 1;
        }
        if self.nl.len() > 0 {
            n = n + 1;
        }
        if self.wl.len() > 0 {
            n = n + 1;
        }
        if self.el.len() > 0 {
            n = n + 1;
        }
        if self.sl.len() > 0 {
            n = n + 1;
        }
        if self.gg.len() > 0 {
            n = n + 1;
        }
        n
    }

    /// The capacity gate for a vehicle of tag `t`.
    pub fn entry_allowed(&self, t: CollisionType) -> (b: bool)
        ensures
            b == self.entry_allowed_spec(t),
    {
        let total = self.occupied_zone_count();
        let own: u64 = if self.zone_ref(t).len() > 0 {
            1
        } else {
            0
        };
        let counter = total - own;
        if counter >= ZONE_CAPACITY {
            return false;
        }
        if is_left_tag(t) {
            let nl_occupied = t != CollisionType::NL && self.nl.len() > 0;
            let wl_occupied = t != CollisionType::WL && self.wl.len() > 0;
            let el_occupied = t != CollisionType::EL && self.el.len() > 0;
            let sl_occupied = t != CollisionType::SL && self.sl.len() > 0;
            if nl_occupied || wl_occupied || el_occupied || sl_occupied {
                return false;
            }
        }
        true
    }

    /// Whether a vehicle of tag `t` may move forward this tick: it is
    /// free to move until it has entered the conflict zone, and gated
    /// on capacity afterwards.
    pub fn may_advance(&self, t: CollisionType, entered: bool) -> (b: bool)
        ensures
            b == (!entered || self.entry_allowed_spec(t)),
    {
        if !entered {
            true
        } else {
            self.entry_allowed(t)
        }
    }

    /// Called the first tick a vehicle of tag `t` stands past its
    /// entry threshold, and every following tick while it still is:
    /// appends the vehicle to `t`'s occupancy list once, and only when
    /// the capacity gate passes; a blocked vehicle retries next tick.
    /// Returns whether the vehicle (newly) counts as entered.
    pub fn try_register(&mut self, t: CollisionType, id: u64) -> (entered_now: bool)
        requires
            old(self).wf(),
        ensures
            final(self).wf(),
            entered_now == !old(self).zone(t).contains(id),
            forall|u: CollisionType| u != t
                ==> #[trigger] final(self).zone(u) == old(self).zone(u),
            final(self).zone(t) == if !old(self).zone(t).contains(id)
                && old(self).entry_allowed_spec(t) {
                old(self).zone(t).push(id)
            } else {
                old(self).zone(t)
            },
    {
        if self.contains(t, id) {
            return false;
        }
        if self.entry_allowed(t) {
            self.push_zone(t, id);
        }
        true
    }

    fn push_zone(&mut self, t: CollisionType, id: u64)
        requires
            old(self).wf(),
            old(self).entry_allowed_spec(t),
        ensures
            final(self).wf(),
            forall|u: CollisionType| u != t
                ==> #[trigger] final(self).zone(u) == old(self).zone(u),
            final(self).zone(t) == old(self).zone(t).push(id),
    {
        match t {
            CollisionType::NS => self.ns.push(id),
            CollisionType::WS => self.ws.push(id),
            CollisionType::ES => self.es.push(id),
            CollisionType::SS => self.ss.push(id),
            CollisionType::NL => self.nl.push(id),
            CollisionType::WL => self.wl.push(id),
            CollisionType::EL => self.el.push(id),
            CollisionType::SL => self.sl.push(id),
            CollisionType::GG => self.gg.push(id),
        }
    }

    /// Removes a despawned vehicle from every occupancy list.
    pub fn remove_id(&mut self, id: u64)
        requires
            old(self).wf(),
        ensures
            final(self).wf(),
            forall|t: CollisionType|
                #[trigger] final(self).zone(t) == without_id(old(self).zone(t), id),
            forall|t: CollisionType| !(#[trigger] final(self).zone(t)).contains(id),
    {
        self.ns = filter_out(&self.ns, id);
        self.ws = filter_out(&self.ws, id);
        self.es = filter_out(&self.es, id);
        self.ss = filter_out(&self.ss, id);
        self.nl = filter_out(&self.nl, id);
        self.wl = filter_out(&self.wl, id);
        self.el = filter_out(&self.el, id);
        self.sl = filter_out(&self.sl, id);
        self.gg = filter_out(&self.gg, id);
        proof {
            assert forall|t: CollisionType|
                !(#[trigger] final(self).zone(t)).contains(id)
                && final(self).zone(t).len() <= old(self).zone(t).len() by {
                lemma_without_id(old(self).zone(t), id);
            };
        }
    }
}

/// A copy of `v` with every occurrence of `id` dropped.
fn filter_out(v: &Vec<u64>, id: u64) -> (r: Vec<u64>)
    ensures
        r@ == without_id(v@, id),
{
    let n = v.len();
    let mut out: Vec<u64> = Vec::new();
    let mut i: usize = 0;
    while i < n
        invariant
            n == v@.len(),
            i <= n,
            out@ == without_id(v@.take(i as int), id),
        decreases n - i,
    {
        proof {
            assert(v@.take(i + 1 as int).drop_last() =~= v@.take(i as int));
            assert(v@.take(i + 1 as int).last() == v@[i as int]);
        }
        if v[i] != id {
            out.push(v[i]);
        }
        i = i + 1;
    }
    proof {
        assert(v@.take(n as int) =~= v@);
    }
    out
}

/// The left-turn exclusion law: in any well-formed ledger at most one
/// left-turn conflict zone is occupied.
pub proof fn lemma_left_exclusion(l: CapacityLedger, a: CollisionType, b: CollisionType)
    requires
        l.wf(),
        is_left(a),
        is_left(b),
        a != b,
    ensures
        !(l.zone(a).len() > 0 && l.zone(b).len() > 0),
{
}

} // verus!
