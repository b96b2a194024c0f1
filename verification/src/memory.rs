//! Arbitration memory: the pairwise winner cache and the
//! reference-point ownership cache.
//!
//! Both are small association lists with unique keys, viewed as maps.
//! Entries live exactly as long as the vehicles they mention: the
//! removal operations are the cleanup contract the simulation loop
//! must invoke when a vehicle despawns.

use vstd::prelude::*;

verus! {

/// One cached right-of-way decision: `winner` holds right of way for
/// the unordered vehicle pair, canonicalized as `lo < hi`.
pub struct PairEntry {
    pub lo: u64,
    pub hi: u64,
    pub winner: u64,
}

pub open spec fn pair_key(e: PairEntry) -> (u64, u64) {
    (e.lo, e.hi)
}

pub open spec fn has_pair(s: Seq<PairEntry>, lo: u64, hi: u64) -> bool {
    exists|i: int| 0 <= i < s.len() && pair_key(#[trigger] s[i]) == (lo, hi)
}

/// `e` is one of the first `n` entries of `s`.
pub open spec fn pair_appears(e: PairEntry, s: Seq<PairEntry>, n: int) -> bool {
    exists|j: int| 0 <= j < n && e == #[trigger] s[j]
}

pub open spec fn unique_pair_keys(s: Seq<PairEntry>) -> bool {
    forall|i: int, j: int| 0 <= i < j < s.len()
        ==> pair_key(#[trigger] s[i]) != pair_key(#[trigger] s[j])
}

/// The map an entry list denotes, later entries taking precedence.
pub open spec fn pair_map(s: Seq<PairEntry>) -> Map<(u64, u64), u64>
    decreases s.len(),
{
    if s.len() == 0 {
        Map::empty()
    } else {
        pair_map(s.drop_last()).insert(pair_key(s.last()), s.last().winner)
    }
}

proof fn lemma_pair_map_dom(s: Seq<PairEntry>, p: (u64, u64))
    ensures
        pair_map(s).contains_key(p) <==> has_pair(s, p.0, p.1),
    decreases s.len(),
{
    if s.len() > 0 {
        lemma_pair_map_dom(s.drop_last(), p);
        if has_pair(s.drop_last(), p.0, p.1) {
            let i = choose|i: int| 0 <= i < s.drop_last().len()
                && pair_key(#[trigger] s.drop_last()[i]) == p;
            assert(pair_key(s[i]) == p);
        }
        if has_pair(s, p.0, p.1) && pair_key(s.last()) != p {
            let i = choose|i: int| 0 <= i < s.len() && pair_key(#[trigger] s[i]) == p;
            assert(pair_key(s.drop_last()[i]) == p);
        }
    }
}

proof fn lemma_pair_map_value(s: Seq<PairEntry>, i: int)
    requires
        unique_pair_keys(s),
        0 <= i < s.len(),
    ensures
        pair_map(s).contains_key(pair_key(s[i])),
        pair_map(s)[pair_key(s[i])] == s[i].winner,
    decreases s.len(),
{
    if i < s.len() - 1 {
        assert(s.drop_last()[i] == s[i]);
        lemma_pair_map_value(s.drop_last(), i);
    }
}

/// Mapping from an unordered pair of vehicle identifiers to the
/// identifier granted right of way for that pair.
pub struct PairWinnerCache {
    entries: Vec<PairEntry>,
}

impl View for PairWinnerCache {
    type V = Map<(u64, u64), u64>;

    closed spec fn view(&self) -> Map<(u64, u64), u64> {
        pair_map(self.entries@)
    }
}

impl PairWinnerCache {
    /// Keys are canonical (`lo < hi`), unique, and the recorded winner
    /// is always one of the two vehicles of its pair.
    pub closed spec fn wf(self) -> bool {
        &&& unique_pair_keys(self.entries@)
        &&& forall|i: int| 0 <= i < self.entries@.len()
            ==> (#[trigger] self.entries@[i]).lo < self.entries@[i].hi
        &&& forall|i: int| 0 <= i < self.entries@.len()
            ==> ((#[trigger] self.entries@[i]).winner == self.entries@[i].lo
                || self.entries@[i].winner == self.entries@[i].hi)
    }

    pub fn new() -> (c: PairWinnerCache)
        ensures
            c.wf(),
            c@ == Map::<(u64, u64), u64>::empty(),
    {
        PairWinnerCache { entries: Vec::new() }
    }

    /// A recorded winner is always a member of its pair.
    pub proof fn lemma_winner_in_pair(self, p: (u64, u64))
        requires
            self.wf(),
            self@.contains_key(p),
        ensures
            self@[p] == p.0 || self@[p] == p.1,
            p.0 < p.1,
    {
        lemma_pair_map_dom(self.entries@, p);
        let i = choose|i: int| 0 <= i < self.entries@.len()
            && pair_key(#[trigger] self.entries@[i]) == p;
        lemma_pair_map_value(self.entries@, i);
    }

    /// Looks up the cached winner for the canonical pair `(lo, hi)`.
    pub fn get(&self, lo: u64, hi: u64) -> (w: Option<u64>)
        requires
            self.wf(),
        ensures
            match w {
                Some(x) => self@.contains_key((lo, hi)) && self@[(lo, hi)] == x,
                None => !self@.contains_key((lo, hi)),
            },
    {
        let n = self.entries.len();
        let mut i: usize = 0;
        while i < n
            invariant
                self.wf(),
                n == self.entries@.len(),
                i <= n,
                forall|j: int| 0 <= j < i ==> pair_key(#[trigger] self.entries@[j]) != (lo, hi),
            decreases n - i,
        {
            let e = &self.entries[i];
            if e.lo == lo && e.hi == hi {
                proof {
                    lemma_pair_map_value(self.entries@, i as int);
                }
                return Some(e.winner);
            }
            i = i + 1;
        }
        proof {
            lemma_pair_map_dom(self.entries@, (lo, hi));
        }
        None
    }

    /// Records a winner for a pair that has no entry yet.  A winner,
    /// once set, is never overwritten while both vehicles remain.
    pub fn insert(&mut self, lo: u64, hi: u64, winner: u64)
        requires
            old(self).wf(),
            lo < hi,
            winner == lo || winner == hi,
            !old(self)@.contains_key((lo, hi)),
        ensures
            final(self).wf(),
            final(self)@ == old(self)@.insert((lo, hi), winner),
    {
        proof {
            lemma_pair_map_dom(self.entries@, (lo, hi));
        }
        self.entries.push(PairEntry { lo, hi, winner });
        proof {
            assert(self.entries@.drop_last() =~= old(self).entries@);
        }
    }

    /// Purges every entry whose pair mentions the removed vehicle.
    /// Because a winner is always a member of its pair, no surviving
    /// entry mentions the removed vehicle anywhere.
    pub fn remove_id(&mut self, id: u64)
        requires
            old(self).wf(),
        ensures
            final(self).wf(),
            forall|p: (u64, u64)| final(self)@.contains_key(p)
                <==> old(self)@.contains_key(p) && p.0 != id && p.1 != id,
            forall|p: (u64, u64)| #[trigger] final(self)@.contains_key(p)
                ==> final(self)@[p] == old(self)@[p] && final(self)@[p] != id,
    {
        let ghost olds = self.entries@;
        let n = self.entries.len();
        let mut kept: Vec<PairEntry> = Vec::new();
        let mut i: usize = 0;
        while i < n
            invariant
                old(self).wf(),
                self.entries@ == olds,
                olds == old(self).entries@,
                n == olds.len(),
                i <= n,
                forall|k: int| 0 <= k < kept@.len()
                    ==> (#[trigger] kept@[k]).lo != id && kept@[k].hi != id,
                forall|k: int| 0 <= k < kept@.len()
                    ==> pair_appears(#[trigger] kept@[k], olds, i as int),
                forall|j: int| 0 <= j < i
                    && (#[trigger] olds[j]).lo != id && olds[j].hi != id
                    ==> has_pair(kept@, olds[j].lo, olds[j].hi),
                unique_pair_keys(kept@),
            decreases n - i,
        {
            let e = &self.entries[i];
            if e.lo != id && e.hi != id {
                proof {
                    // The incoming key cannot already sit in `kept`:
                    // every kept entry comes from the pre-removal
                    // list, whose keys are unique.
                    if has_pair(kept@, e.lo, e.hi) {
                        let k = choose|k: int| 0 <= k < kept@.len()
                            && pair_key(#[trigger] kept@[k]) == (e.lo, e.hi);
                        let j = choose|j: int| 0 <= j < i && kept@[k] == #[trigger] olds[j];
                        assert(kept@[k] == olds[j]);
                        assert(pair_key(olds[j]) == pair_key(olds[i as int]));
                        assert(false);
                    }
                }
                let ghost kept_before = kept@;
                kept.push(PairEntry { lo: e.lo, hi: e.hi, winner: e.winner });
                proof {
                    assert(kept@[kept@.len() - 1] == olds[i as int]);
                    assert forall|j: int| 0 <= j < i + 1
                        && (#[trigger] olds[j]).lo != id && olds[j].hi != id
                        implies has_pair(kept@, olds[j].lo, olds[j].hi) by {
                        if j < i {
                            let k = choose|k: int| 0 <= k < kept_before.len()
                                && pair_key(#[trigger] kept_before[k]) == (olds[j].lo, olds[j].hi);
                            assert(pair_key(kept@[k]) == (olds[j].lo, olds[j].hi));
                        } else {
                            assert(pair_key(kept@[kept@.len() - 1]) == (olds[j].lo, olds[j].hi));
                        }
                    };
                }
            }
            i = i + 1;
        }
        self.entries = kept;
        proof {
            let news = self.entries@;
            assert forall|p: (u64, u64)| #[trigger] pair_map(news).contains_key(p)
                implies pair_map(olds).contains_key(p) && p.0 != id && p.1 != id
                    && pair_map(news)[p] == pair_map(olds)[p] && pair_map(news)[p] != id by {
                lemma_pair_map_dom(news, p);
                let k = choose|k: int| 0 <= k < news.len() && pair_key(#[trigger] news[k]) == p;
                lemma_pair_map_value(news, k);
                assert(pair_appears(news[k], olds, n as int));
                let j = choose|j: int| 0 <= j < n && news[k] == #[trigger] olds[j];
                lemma_pair_map_value(olds, j);
            };
            assert forall|p: (u64, u64)|
                pair_map(olds).contains_key(p) && p.0 != id && p.1 != id
                implies #[trigger] pair_map(news).contains_key(p) by {
                lemma_pair_map_dom(olds, p);
                let j = choose|j: int| 0 <= j < olds.len() && pair_key(#[trigger] olds[j]) == p;
                assert(has_pair(news, p.0, p.1));
                lemma_pair_map_dom(news, p);
            };
        }
    }
}

/// One occupied conflict location: the vehicle `owner` currently holds
/// the fixed reference point at `(x, y)`.
pub struct RefPointEntry {
    pub x: i64,
    pub y: i64,
    pub owner: u64,
}

pub open spec fn point_key(e: RefPointEntry) -> (i64, i64) {
    (e.x, e.y)
}

pub open spec fn has_point(s: Seq<RefPointEntry>, x: i64, y: i64) -> bool {
    exists|i: int| 0 <= i < s.len() && point_key(#[trigger] s[i]) == (x, y)
}

/// `e` is one of the first `n` entries of `s`.
pub open spec fn point_appears(e: RefPointEntry, s: Seq<RefPointEntry>, n: int) -> bool {
    exists|j: int| 0 <= j < n && e == #[trigger] s[j]
}

pub open spec fn unique_point_keys(s: Seq<RefPointEntry>) -> bool {
    forall|i: int, j: int| 0 <= i < j < s.len()
        ==> point_key(#[trigger] s[i]) != point_key(#[trigger] s[j])
}

/// The map an entry list denotes, later entries taking precedence.
pub open spec fn point_map(s: Seq<RefPointEntry>) -> Map<(i64, i64), u64>
    decreases s.len(),
{
    if s.len() == 0 {
        Map::empty()
    } else {
        point_map(s.drop_last()).insert(point_key(s.last()), s.last().owner)
    }
}

proof fn lemma_point_map_dom(s: Seq<RefPointEntry>, p: (i64, i64))
    ensures
        point_map(s).contains_key(p) <==> has_point(s, p.0, p.1),
    decreases s.len(),
{
    if s.len() > 0 {
        lemma_point_map_dom(s.drop_last(), p);
        if has_point(s.drop_last(), p.0, p.1) {
            let i = choose|i: int| 0 <= i < s.drop_last().len()
                && point_key(#[trigger] s.drop_last()[i]) == p;
            assert(point_key(s[i]) == p);
        }
        if has_point(s, p.0, p.1) && point_key(s.last()) != p {
            let i = choose|i: int| 0 <= i < s.len() && point_key(#[trigger] s[i]) == p;
            assert(point_key(s.drop_last()[i]) == p);
        }
    }
}

proof fn lemma_point_map_value(s: Seq<RefPointEntry>, i: int)
    requires
        unique_point_keys(s),
        0 <= i < s.len(),
    ensures
        point_map(s).contains_key(point_key(s[i])),
        point_map(s)[point_key(s[i])] == s[i].owner,
    decreases s.len(),
{
    if i < s.len() - 1 {
        assert(s.drop_last()[i] == s[i]);
        lemma_point_map_value(s.drop_last(), i);
    }
}

/// Mapping from a fixed conflict-zone reference point to the vehicle
/// currently occupying it.  Claims are first come, first served.
pub struct RefPointOwners {
    entries: Vec<RefPointEntry>,
}

impl View for RefPointOwners {
    type V = Map<(i64, i64), u64>;

    closed spec fn view(&self) -> Map<(i64, i64), u64> {
        point_map(self.entries@)
    }
}

impl RefPointOwners {
    /// At most one owner per reference point.
    pub closed spec fn wf(self) -> bool {
        unique_point_keys(self.entries@)
    }

    pub fn new() -> (c: RefPointOwners)
        ensures
            c.wf(),
            c@ == Map::<(i64, i64), u64>::empty(),
    {
        RefPointOwners { entries: Vec::new() }
    }

    /// Looks up the current owner of the reference point `(x, y)`.
    pub fn get(&self, x: i64, y: i64) -> (w: Option<u64>)
        requires
            self.wf(),
        ensures
            match w {
                Some(o) => self@.contains_key((x, y)) && self@[(x, y)] == o,
                None => !self@.contains_key((x, y)),
            },
    {
        let n = self.entries.len();
        let mut i: usize = 0;
        while i < n
            invariant
                self.wf(),
                n == self.entries@.len(),
                i <= n,
                forall|j: int| 0 <= j < i ==> point_key(#[trigger] self.entries@[j]) != (x, y),
            decreases n - i,
        {
            let e = &self.entries[i];
            if e.x == x && e.y == y {
                proof {
                    lemma_point_map_value(self.entries@, i as int);
                }
                return Some(e.owner);
            }
            i = i + 1;
        }
        proof {
            lemma_point_map_dom(self.entries@, (x, y));
        }
        None
    }

    /// Claims the reference point for `id` if it is not yet owned;
    /// an existing owner is never displaced.
    pub fn claim(&mut self, x: i64, y: i64, id: u64)
        requires
            old(self).wf(),
        ensures
            final(self).wf(),
            final(self)@ == if old(self)@.contains_key((x, y)) {
                old(self)@
            } else {
                old(self)@.insert((x, y), id)
            },
    {
        let existing = self.get(x, y);
        if existing.is_none() {
            proof {
                lemma_point_map_dom(self.entries@, (x, y));
            }
            self.entries.push(RefPointEntry { x, y, owner: id });
            proof {
                assert(self.entries@.drop_last() =~= old(self).entries@);
            }
        }
    }

    /// Purges every reference point owned by the removed vehicle.
    pub fn remove_owner(&mut self, id: u64)
        requires
            old(self).wf(),
        ensures
            final(self).wf(),
            forall|p: (i64, i64)| final(self)@.contains_key(p)
                <==> old(self)@.contains_key(p) && old(self)@[p] != id,
            forall|p: (i64, i64)| #[trigger] final(self)@.contains_key(p)
                ==> final(self)@[p] == old(self)@[p],
    {
        let ghost olds = self.entries@;
        let n = self.entries.len();
        let mut kept: Vec<RefPointEntry> = Vec::new();
        let mut i: usize = 0;
        while i < n
            invariant
                old(self).wf(),
                self.entries@ == olds,
                olds == old(self).entries@,
                n == olds.len(),
                i <= n,
                forall|k: int| 0 <= k < kept@.len() ==> (#[trigger] kept@[k]).owner != id,
                forall|k: int| 0 <= k < kept@.len()
                    ==> point_appears(#[trigger] kept@[k], olds, i as int),
                forall|j: int| 0 <= j < i && (#[trigger] olds[j]).owner != id
                    ==> has_point(kept@, olds[j].x, olds[j].y),
                unique_point_keys(kept@),
            decreases n - i,
        {
            let e = &self.entries[i];
            if e.owner != id {
                proof {
                    if has_point(kept@, e.x, e.y) {
                        let k = choose|k: int| 0 <= k < kept@.len()
                            && point_key(#[trigger] kept@[k]) == (e.x, e.y);
                        let j = choose|j: int| 0 <= j < i && kept@[k] == #[trigger] olds[j];
                        assert(kept@[k] == olds[j]);
                        assert(point_key(olds[j]) == point_key(olds[i as int]));
                        assert(false);
                    }
                }
                let ghost kept_before = kept@;
                kept.push(RefPointEntry { x: e.x, y: e.y, owner: e.owner });
                proof {
                    assert(kept@[kept@.len() - 1] == olds[i as int]);
                    assert forall|j: int| 0 <= j < i + 1 && (#[trigger] olds[j]).owner != id
                        implies has_point(kept@, olds[j].x, olds[j].y) by {
                        if j < i {
                            let k = choose|k: int| 0 <= k < kept_before.len()
                                && point_key(#[trigger] kept_before[k]) == (olds[j].x, olds[j].y);
                            assert(point_key(kept@[k]) == (olds[j].x, olds[j].y));
                        } else {
                            assert(point_key(kept@[kept@.len() - 1]) == (olds[j].x, olds[j].y));
                        }
                    };
                }
            }
            i = i + 1;
        }
        self.entries = kept;
        proof {
            let news = self.entries@;
            assert forall|p: (i64, i64)| #[trigger] point_map(news).contains_key(p)
                implies point_map(olds).contains_key(p) && point_map(olds)[p] != id
                    && point_map(news)[p] == point_map(olds)[p] by {
                lemma_point_map_dom(news, p);
                let k = choose|k: int| 0 <= k < news.len() && point_key(#[trigger] news[k]) == p;
                lemma_point_map_value(news, k);
                assert(point_appears(news[k], olds, n as int));
                let j = choose|j: int| 0 <= j < n && news[k] == #[trigger] olds[j];
                lemma_point_map_value(olds, j);
            };
            assert forall|p: (i64, i64)|
                point_map(olds).contains_key(p) && point_map(olds)[p] != id
                implies #[trigger] point_map(news).contains_key(p) by {
                lemma_point_map_dom(olds, p);
                let j = choose|j: int| 0 <= j < olds.len() && point_key(#[trigger] olds[j]) == p;
                lemma_point_map_value(olds, j);
                assert(olds[j].owner != id);
                assert(has_point(news, p.0, p.1));
                lemma_point_map_dom(news, p);
            };
        }
    }
}

} // verus!
