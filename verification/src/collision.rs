//! The arbitration protocol: conflict-candidate indexing, pairwise
//! collision checking, and the yield/proceed decision.
//!
//! `check_collision` is the per-vehicle, per-tick entry point.  Its
//! whole behaviour — which candidate forces a yield, what the winner
//! cache looks like afterwards, when the close-call counter moves, and
//! how reference points are stamped on a proceed — is pinned down by
//! the recursive specification `resolve_from`.

use vstd::prelude::*;
use crate::types::CollisionType;
use crate::geometry::{
    OrientedBox, coord_in_range, pos_in_range, poses_overlap, point_in_rect, half_w, half_h,
    compute_rotated_corners, sat_collision, contains_point, lemma_overlap_at_poses,
};
use crate::memory::{PairWinnerCache, RefPointOwners};
use crate::Stats;

verus! {

/// The x-coordinate of the sentinel fallback reference point: a tag
/// pair outside the fixed table falls back to identifier comparison,
/// and the protocol recognizes that case by this abscissa alone.
pub const FALLBACK_COORD: i64 = 500;

/// The vehicle's primary conflict tag: the head of its tag list, or
/// the generic tag for an empty list (a deliberate guard, not a fault).
pub open spec fn primary_tag(tags: Seq<CollisionType>) -> CollisionType {
    if tags.len() > 0 {
        tags[0]
    } else {
        CollisionType::GG
    }
}

/// The fixed, symmetric table mapping a pair of conflict tags to the
/// reference point of their shared conflict location; pairs outside
/// the table map to the sentinel fallback point.
pub open spec fn ref_point(t1: CollisionType, t2: CollisionType) -> (i64, i64) {
    match (t1, t2) {
        (CollisionType::NS, CollisionType::ES) | (CollisionType::ES, CollisionType::NS) => (600, 292),
        (CollisionType::NS, CollisionType::WS) | (CollisionType::WS, CollisionType::NS) => (600, 410),
        (CollisionType::WS, CollisionType::SS) | (CollisionType::SS, CollisionType::WS) => (415, 410),
        (CollisionType::SS, CollisionType::ES) | (CollisionType::ES, CollisionType::SS) => (415, 292),
        (CollisionType::NL, CollisionType::SS) | (CollisionType::SS, CollisionType::NL) => (415, 365),
        (CollisionType::NL, CollisionType::ES) | (CollisionType::ES, CollisionType::NL) => (535, 292),
        (CollisionType::SL, CollisionType::WS) | (CollisionType::WS, CollisionType::SL) => (480, 410),
        (CollisionType::SL, CollisionType::NS) | (CollisionType::NS, CollisionType::SL) => (600, 330),
        (CollisionType::EL, CollisionType::SS) | (CollisionType::SS, CollisionType::EL) => (415, 330),
        (CollisionType::EL, CollisionType::WS) | (CollisionType::WS, CollisionType::EL) => (540, 415),
        (CollisionType::WL, CollisionType::NS) | (CollisionType::NS, CollisionType::WL) => (600, 365),
        (CollisionType::WL, CollisionType::ES) | (CollisionType::ES, CollisionType::WL) => (480, 292),
        _ => (FALLBACK_COORD, FALLBACK_COORD),
    }
}

/// Looks up the conflict reference point for a pair of tags.
pub fn get_reference_point(type1: CollisionType, type2: CollisionType) -> (r: (i64, i64))
    ensures
        r == ref_point(type1, type2),
{
    match (type1, type2) {
        (CollisionType::NS, CollisionType::ES) | (CollisionType::ES, CollisionType::NS) => (600, 292),
        (CollisionType::NS, CollisionType::WS) | (CollisionType::WS, CollisionType::NS) => (600, 410),
        (CollisionType::WS, CollisionType::SS) | (CollisionType::SS, CollisionType::WS) => (415, 410),
        (CollisionType::SS, CollisionType::ES) | (CollisionType::ES, CollisionType::SS) => (415, 292),
        (CollisionType::NL, CollisionType::SS) | (CollisionType::SS, CollisionType::NL) => (415, 365),
        (CollisionType::NL, CollisionType::ES) | (CollisionType::ES, CollisionType::NL) => (535, 292),
        (CollisionType::SL, CollisionType::WS) | (CollisionType::WS, CollisionType::SL) => (480, 410),
        (CollisionType::SL, CollisionType::NS) | (CollisionType::NS, CollisionType::SL) => (600, 330),
        (CollisionType::EL, CollisionType::SS) | (CollisionType::SS, CollisionType::EL) => (415, 330),
        (CollisionType::EL, CollisionType::WS) | (CollisionType::WS, CollisionType::EL) => (540, 415),
        (CollisionType::WL, CollisionType::NS) | (CollisionType::NS, CollisionType::WL) => (600, 365),
        (CollisionType::WL, CollisionType::ES) | (CollisionType::ES, CollisionType::WL) => (480, 292),
        _ => (FALLBACK_COORD, FALLBACK_COORD),
    }
}

/// The reference-point table is symmetric: the pair's order is
/// immaterial.
pub proof fn lemma_ref_point_symmetric(t1: CollisionType, t2: CollisionType)
    ensures
        ref_point(t1, t2) == ref_point(t2, t1),
{
}

/// Every table entry (and the sentinel) lies well inside the working
/// coordinate range.
pub proof fn lemma_ref_point_in_range(t1: CollisionType, t2: CollisionType)
    ensures
        0 <= ref_point(t1, t2).0 <= 1000,
        0 <= ref_point(t1, t2).1 <= 1000,
{
}

/// The twelve fixed conflict-zone reference points, in the order they
/// are stamped.
pub open spec fn reference_points() -> Seq<(i64, i64)> {
    seq![
        (600, 292), (600, 410), (415, 410), (415, 292),
        (415, 365), (535, 292), (480, 410), (600, 330),
        (415, 330), (540, 415), (600, 365), (480, 292),
    ]
}

/// The `i`-th fixed reference point.
fn nth_reference_point(i: usize) -> (r: (i64, i64))
    requires
        i < 12,
    ensures
        r == reference_points()[i as int],
        coord_in_range(r.0 as int),
        coord_in_range(r.1 as int),
{
    if i == 0 {
        (600, 292)
    } else if i == 1 {
        (600, 410)
    } else if i == 2 {
        (415, 410)
    } else if i == 3 {
        (415, 292)
    } else if i == 4 {
        (415, 365)
    } else if i == 5 {
        (535, 292)
    } else if i == 6 {
        (480, 410)
    } else if i == 7 {
        (600, 330)
    } else if i == 8 {
        (415, 330)
    } else if i == 9 {
        (540, 415)
    } else if i == 10 {
        (600, 365)
    } else {
        (480, 292)
    }
}

/// Reference-point stamping, point by point: each fixed point lying in
/// the rectangle `[l, r) x [b, t)` and still unowned is claimed for
/// `id`; owned points are left alone.
pub open spec fn stamp_from(
    pref: Map<(i64, i64), u64>,
    pts: Seq<(i64, i64)>,
    i: int,
    l: int, r: int, b: int, t: int,
    id: u64,
) -> Map<(i64, i64), u64>
    decreases pts.len() - i,
{
    if i < 0 || i >= pts.len() {
        pref
    } else {
        let p = pts[i];
        let next = if point_in_rect(l, r, b, t, p.0 as int, p.1 as int)
            && !pref.contains_key(p) {
            pref.insert(p, id)
        } else {
            pref
        };
        stamp_from(next, pts, i + 1, l, r, b, t, id)
    }
}

/// The ownership cache after a proceeding vehicle with footprint
/// `[l, r) x [b, t)` has stamped the twelve fixed reference points.
pub open spec fn stamped(
    pref: Map<(i64, i64), u64>,
    l: int, r: int, b: int, t: int,
    id: u64,
) -> Map<(i64, i64), u64> {
    stamp_from(pref, reference_points(), 0, l, r, b, t, id)
}

proof fn lemma_stamp_from_props(
    pref: Map<(i64, i64), u64>,
    pts: Seq<(i64, i64)>,
    i: int,
    l: int, r: int, b: int, t: int,
    id: u64,
)
    ensures
        ({
            let out = stamp_from(pref, pts, i, l, r, b, t, id);
            &&& forall|p: (i64, i64)| #[trigger] pref.contains_key(p)
                ==> out.contains_key(p) && out[p] == pref[p]
            &&& forall|p: (i64, i64)| #[trigger] out.contains_key(p)
                ==> pref.contains_key(p)
                    || (pts.contains(p) && point_in_rect(l, r, b, t, p.0 as int, p.1 as int)
                        && out[p] == id)
        }),
    decreases pts.len() - i,
{
    if 0 <= i < pts.len() {
        let p0 = pts[i];
        let next = if point_in_rect(l, r, b, t, p0.0 as int, p0.1 as int)
            && !pref.contains_key(p0) {
            pref.insert(p0, id)
        } else {
            pref
        };
        lemma_stamp_from_props(next, pts, i + 1, l, r, b, t, id);
        let out = stamp_from(pref, pts, i, l, r, b, t, id);
        assert(out == stamp_from(next, pts, i + 1, l, r, b, t, id));
        assert forall|p: (i64, i64)| #[trigger] pref.contains_key(p)
            implies out.contains_key(p) && out[p] == pref[p] by {
            assert(next.contains_key(p) && next[p] == pref[p]);
        };
        assert forall|p: (i64, i64)| #[trigger] out.contains_key(p)
            implies pref.contains_key(p)
                || (pts.contains(p) && point_in_rect(l, r, b, t, p.0 as int, p.1 as int)
                    && out[p] == id) by {
            if !pref.contains_key(p) {
                if next.contains_key(p) {
                    // the point claimed at this very step
                    assert(p == p0);
                    assert(pts[i] == p);
                    assert(pts.contains(p));
                    assert(out[p] == next[p]);
                }
            }
        };
    }
}

/// Reference-point claims are first come, first served: stamping
/// never displaces an existing owner, and every entry it adds is the
/// proceeding vehicle itself, at a fixed reference point its
/// footprint covers.
pub proof fn lemma_stamped_first_come(
    pref: Map<(i64, i64), u64>,
    l: int, r: int, b: int, t: int,
    id: u64,
)
    ensures
        ({
            let out = stamped(pref, l, r, b, t, id);
            &&& forall|p: (i64, i64)| #[trigger] pref.contains_key(p)
                ==> out.contains_key(p) && out[p] == pref[p]
            &&& forall|p: (i64, i64)| #[trigger] out.contains_key(p)
                ==> pref.contains_key(p)
                    || (reference_points().contains(p)
                        && point_in_rect(l, r, b, t, p.0 as int, p.1 as int)
                        && out[p] == id)
        }),
{
    lemma_stamp_from_props(pref, reference_points(), 0, l, r, b, t, id);
}

/// Claims, for a vehicle that proceeds this tick, every fixed
/// reference point its footprint contains and nobody owns yet.
pub fn update_reference_points(
    car_corners: &OrientedBox,
    car_id: u64,
    priority_ref: &mut RefPointOwners,
)
    requires
        car_corners.wf(),
        old(priority_ref).wf(),
    ensures
        final(priority_ref).wf(),
        final(priority_ref)@ == stamped(
            old(priority_ref)@,
            car_corners.left(), car_corners.right(),
            car_corners.bottom(), car_corners.top(),
            car_id,
        ),
{
    let ghost pref0 = priority_ref@;
    let ghost l = car_corners.left();
    let ghost r = car_corners.right();
    let ghost b = car_corners.bottom();
    let ghost t = car_corners.top();
    let mut i: usize = 0;
    while i < 12
        invariant
            i <= 12,
            car_corners.wf(),
            priority_ref.wf(),
            l == car_corners.left(),
            r == car_corners.right(),
            b == car_corners.bottom(),
            t == car_corners.top(),
            stamp_from(priority_ref@, reference_points(), i as int, l, r, b, t, car_id)
                == stamp_from(pref0, reference_points(), 0, l, r, b, t, car_id),
        decreases 12 - i,
    {
        let (ref_x, ref_y) = nth_reference_point(i);
        if contains_point(car_corners, ref_x, ref_y) {
            priority_ref.claim(ref_x, ref_y, car_id);
        }
        i = i + 1;
    }
}

/// One entry of the conflict-candidate index: another vehicle's
/// position, identifier, primary non-generic tag, and heading flag.
#[derive(Debug, Clone, Copy, PartialEq, Eq, Structural)]
pub struct Candidate {
    pub x: i64,
    pub y: i64,
    pub id: u64,
    pub tag: CollisionType,
    pub rotated: bool,
}

/// A candidate entry the protocol can work with: bounded position and
/// not the vehicle `id` itself.
pub open spec fn cand_ok(c: Candidate, id: u64) -> bool {
    &&& pos_in_range(c.x as int)
    &&& pos_in_range(c.y as int)
    &&& c.id != id
}

/// The per-tick snapshot of one vehicle the simulation loop hands in.
pub struct CarData {
    pub id: u64,
    pub x: i64,
    pub y: i64,
    pub tags: Vec<CollisionType>,
    pub rotated: bool,
}

/// The tag sets conflict: they share a non-generic tag.
pub open spec fn tags_conflict(a: Seq<CollisionType>, b: Seq<CollisionType>) -> bool {
    exists|i: int, j: int| 0 <= i < a.len() && 0 <= j < b.len()
        && a[i] == b[j] && a[i] != CollisionType::GG
}

/// The first non-generic tag of a list, or the generic tag if none.
pub open spec fn first_non_gg(s: Seq<CollisionType>) -> CollisionType
    decreases s.len(),
{
    if s.len() == 0 {
        CollisionType::GG
    } else if s[0] != CollisionType::GG {
        s[0]
    } else {
        first_non_gg(s.drop_first())
    }
}

proof fn lemma_first_non_gg_at(s: Seq<CollisionType>, i: int)
    requires
        0 <= i < s.len(),
        forall|j: int| 0 <= j < i ==> s[j] == CollisionType::GG,
        s[i] != CollisionType::GG,
    ensures
        first_non_gg(s) == s[i],
    decreases i,
{
    if i > 0 {
        lemma_first_non_gg_at(s.drop_first(), i - 1);
    }
}

proof fn lemma_first_non_gg_none(s: Seq<CollisionType>)
    requires
        forall|j: int| 0 <= j < s.len() ==> s[j] == CollisionType::GG,
    ensures
        first_non_gg(s) == CollisionType::GG,
    decreases s.len(),
{
    if s.len() > 0 {
        lemma_first_non_gg_none(s.drop_first());
    }
}

/// Whether two tag lists share a non-generic tag.
fn tag_lists_conflict(a: &Vec<CollisionType>, b: &Vec<CollisionType>) -> (r: bool)
    ensures
        r == tags_conflict(a@, b@),
{
    let na = a.len();
    let mut i: usize = 0;
    while i < na
        invariant
            na == a@.len(),
            i <= na,
            forall|p: int, q: int| 0 <= p < i && 0 <= q < b@.len()
                ==> !(a@[p] == b@[q] && a@[p] != CollisionType::GG),
        decreases na - i,
    {
        let ta = a[i];
        if ta != CollisionType::GG {
            let nb = b.len();
            let mut j: usize = 0;
            while j < nb
                invariant
                    na == a@.len(),
                    nb == b@.len(),
                    i < na,
                    j <= nb,
                    ta == a@[i as int],
                    ta != CollisionType::GG,
                    forall|q: int| 0 <= q < j ==> b@[q] != ta,
                decreases nb - j,
            {
                if b[j] == ta {
                    return true;
                }
                j = j + 1;
            }
        }
        i = i + 1;
    }
    false
}

/// The first non-generic tag of a vehicle's tag list.
fn first_non_gg_tag(ts: &Vec<CollisionType>) -> (t: CollisionType)
    ensures
        t == first_non_gg(ts@),
{
    let n = ts.len();
    let mut i: usize = 0;
    while i < n
        invariant
            n == ts@.len(),
            i <= n,
            forall|j: int| 0 <= j < i ==> ts@[j] == CollisionType::GG,
        decreases n - i,
    {
        if ts[i] != CollisionType::GG {
            proof {
                lemma_first_non_gg_at(ts@, i as int);
            }
            return ts[i];
        }
        i = i + 1;
    }
    proof {
        lemma_first_non_gg_none(ts@);
    }
    CollisionType::GG
}

/// The candidate entry a vehicle snapshot contributes.
pub open spec fn mk_candidate(c: CarData) -> Candidate {
    Candidate { x: c.x, y: c.y, id: c.id, tag: first_non_gg(c.tags@), rotated: c.rotated }
}

/// The conflict candidates of vehicle `i` among the first `j` vehicles
/// of the snapshot: every other vehicle whose tag set shares a
/// non-generic tag with vehicle `i`'s.
pub open spec fn candidates_upto(cars: Seq<CarData>, i: int, j: int) -> Seq<Candidate>
    decreases j,
{
    if j <= 0 {
        Seq::empty()
    } else {
        let rest = candidates_upto(cars, i, j - 1);
        if j - 1 != i && tags_conflict(cars[i].tags@, cars[j - 1].tags@) {
            rest.push(mk_candidate(cars[j - 1]))
        } else {
            rest
        }
    }
}

/// The full candidate list of vehicle `i`.
pub open spec fn candidates_for(cars: Seq<CarData>, i: int) -> Seq<Candidate> {
    candidates_upto(cars, i, cars.len() as int)
}

/// One vehicle's slot in the conflict-candidate index.
pub struct IndexEntry {
    pub id: u64,
    pub cands: Vec<Candidate>,
}

pub open spec fn index_has(s: Seq<IndexEntry>, id: u64) -> bool {
    exists|i: int| 0 <= i < s.len() && (#[trigger] s[i]).id == id
}

/// First-match lookup of an identifier's candidate list.
pub open spec fn index_cands(s: Seq<IndexEntry>, id: u64) -> Seq<Candidate>
    decreases s.len(),
{
    if s.len() == 0 {
        Seq::empty()
    } else if s[0].id == id {
        s[0].cands@
    } else {
        index_cands(s.drop_first(), id)
    }
}

/// The conflict-candidate index built fresh each tick: for every
/// vehicle, the other vehicles it can conflict with.
pub struct ConflictIndex {
    entries: Vec<IndexEntry>,
}

impl ConflictIndex {
    /// Identifiers are unique and every candidate is usable by the
    /// protocol on behalf of its key vehicle.
    pub closed spec fn wf(self) -> bool {
        &&& forall|i: int, j: int| 0 <= i < j < self.entries@.len()
            ==> (#[trigger] self.entries@[i]).id != (#[trigger] self.entries@[j]).id
        &&& forall|i: int, k: int| 0 <= i < self.entries@.len()
            && 0 <= k < (#[trigger] self.entries@[i]).cands@.len()
            ==> cand_ok(#[trigger] self.entries@[i].cands@[k], self.entries@[i].id)
    }

    /// The candidate list recorded for `id`; empty when `id` has no
    /// slot.
    pub closed spec fn cands_of(self, id: u64) -> Seq<Candidate> {
        index_cands(self.entries@, id)
    }

    pub fn new() -> (c: ConflictIndex)
        ensures
            c.wf(),
            forall|id: u64| #[trigger] c.cands_of(id) == Seq::<Candidate>::empty(),
            forall|id: u64| !(#[trigger] c.has_id(id)),
    {
        ConflictIndex { entries: Vec::new() }
    }

    /// Every candidate recorded for `id` is usable on its behalf.
    pub proof fn lemma_cands_ok(self, id: u64)
        requires
            self.wf(),
        ensures
            forall|k: int| 0 <= k < self.cands_of(id).len()
                ==> cand_ok(#[trigger] self.cands_of(id)[k], id),
    {
        lemma_index_cands_ok(self.entries@, id);
    }

    /// Adds the candidate list of a vehicle that has no slot yet.
    pub fn insert(&mut self, id: u64, cands: Vec<Candidate>)
        requires
            old(self).wf(),
            !old(self).has_id(id),
            forall|k: int| 0 <= k < cands@.len() ==> cand_ok(#[trigger] cands@[k], id),
        ensures
            final(self).wf(),
            final(self).has_id(id),
            forall|o: u64| o != id ==> final(self).has_id(o) == old(self).has_id(o),
            final(self).cands_of(id) == cands@,
            forall|o: u64| o != id
                ==> #[trigger] final(self).cands_of(o) == old(self).cands_of(o),
    {
        let ghost olds = self.entries@;
        self.entries.push(IndexEntry { id, cands });
        proof {
            lemma_index_push(olds, IndexEntry { id, cands });
        }
    }

    /// Whether `id` has a slot in the index.
    pub closed spec fn has_id(self, id: u64) -> bool {
        index_has(self.entries@, id)
    }

    /// Returns the candidate list recorded for `id`, if any.
    pub fn get(&self, id: u64) -> (r: Option<&Vec<Candidate>>)
        requires
            self.wf(),
        ensures
            match r {
                Some(v) => v@ == self.cands_of(id),
                None => self.cands_of(id) == Seq::<Candidate>::empty(),
            },
    {
        let n = self.entries.len();
        let mut i: usize = 0;
        proof {
            assert(self.entries@.skip(0) =~= self.entries@);
        }
        while i < n
            invariant
                self.wf(),
                n == self.entries@.len(),
                i <= n,
                forall|j: int| 0 <= j < i ==> (#[trigger] self.entries@[j]).id != id,
                index_cands(self.entries@.skip(i as int), id) == index_cands(self.entries@, id),
            decreases n - i,
        {
            proof {
                assert(self.entries@.skip(i as int)[0] == self.entries@[i as int]);
                assert(self.entries@.skip(i as int).drop_first()
                    =~= self.entries@.skip(i + 1 as int));
            }
            let e = &self.entries[i];
            if e.id == id {
                return Some(&e.cands);
            }
            i = i + 1;
        }
        proof {
            assert(self.entries@.skip(n as int) =~= Seq::<IndexEntry>::empty());
        }
        None
    }
}

proof fn lemma_index_cands_ok(s: Seq<IndexEntry>, id: u64)
    requires
        forall|i: int, k: int| 0 <= i < s.len()
            && 0 <= k < (#[trigger] s[i]).cands@.len()
            ==> cand_ok(#[trigger] s[i].cands@[k], s[i].id),
    ensures
        forall|k: int| 0 <= k < index_cands(s, id).len()
            ==> cand_ok(#[trigger] index_cands(s, id)[k], id),
    decreases s.len(),
{
    if s.len() > 0 && s[0].id == id {
        assert forall|k: int| 0 <= k < index_cands(s, id).len()
            implies cand_ok(#[trigger] index_cands(s, id)[k], id) by {
            assert(index_cands(s, id) == s[0].cands@);
            assert(cand_ok(s[0].cands@[k], s[0].id));
        };
    }
    if s.len() > 0 && s[0].id != id {
        assert forall|i: int, k: int| 0 <= i < s.drop_first().len()
            && 0 <= k < (#[trigger] s.drop_first()[i]).cands@.len()
            implies cand_ok(#[trigger] s.drop_first()[i].cands@[k], s.drop_first()[i].id) by {
            assert(s.drop_first()[i] == s[i + 1]);
        };
        lemma_index_cands_ok(s.drop_first(), id);
        assert forall|k: int| 0 <= k < index_cands(s, id).len()
            implies cand_ok(#[trigger] index_cands(s, id)[k], id) by {
            assert(index_cands(s, id)[k] == index_cands(s.drop_first(), id)[k]);
            assert(cand_ok(index_cands(s.drop_first(), id)[k], id));
        };
    }
}

proof fn lemma_index_push(s: Seq<IndexEntry>, e: IndexEntry)
    requires
        !index_has(s, e.id),
    ensures
        index_cands(s.push(e), e.id) == e.cands@,
        forall|o: u64| o != e.id ==> #[trigger] index_cands(s.push(e), o) == index_cands(s, o),
        forall|o: u64| o != e.id ==> #[trigger] index_has(s.push(e), o) == index_has(s, o),
        index_has(s.push(e), e.id),
    decreases s.len(),
{
    assert(s.push(e)[s.len() as int] == e);
    if s.len() == 0 {
        assert(s.push(e)[0] == e);
        assert forall|o: u64| o != e.id
            implies #[trigger] index_cands(s.push(e), o) == index_cands(s, o) by {
            assert(s.push(e).drop_first() =~= Seq::<IndexEntry>::empty());
            assert(index_cands(s.push(e), o)
                == index_cands(Seq::<IndexEntry>::empty(), o));
        };
        assert forall|o: u64| o != e.id
            implies #[trigger] index_has(s.push(e), o) == index_has(s, o) by {
            if index_has(s.push(e), o) {
                let i = choose|i: int| 0 <= i < s.push(e).len() && (#[trigger] s.push(e)[i]).id == o;
                assert(i == 0);
                assert(false);
            }
        };
    } else {
        assert(s[0] == s.push(e)[0]);
        if s[0].id != e.id {
            assert(s.push(e).drop_first() =~= s.drop_first().push(e));
            assert(!index_has(s.drop_first(), e.id)) by {
                if index_has(s.drop_first(), e.id) {
                    let i = choose|i: int| 0 <= i < s.drop_first().len()
                        && (#[trigger] s.drop_first()[i]).id == e.id;
                    assert(s[i + 1] == s.drop_first()[i]);
                    assert(index_has(s, e.id));
                }
            };
            lemma_index_push(s.drop_first(), e);
            assert forall|o: u64| o != e.id
                implies #[trigger] index_cands(s.push(e), o) == index_cands(s, o) by {
                if s[0].id == o {
                    assert(index_cands(s.push(e), o) == s.push(e)[0].cands@);
                    assert(index_cands(s, o) == s[0].cands@);
                } else {
                    assert(index_cands(s.push(e), o)
                        == index_cands(s.drop_first().push(e), o));
                    assert(index_cands(s.drop_first().push(e), o)
                        == index_cands(s.drop_first(), o));
                    assert(index_cands(s, o) == index_cands(s.drop_first(), o));
                }
            };
            assert forall|o: u64| o != e.id
                implies #[trigger] index_has(s.push(e), o) == index_has(s, o) by {
                if index_has(s.push(e), o) {
                    let i = choose|i: int| 0 <= i < s.push(e).len()
                        && (#[trigger] s.push(e)[i]).id == o;
                    if i < s.len() {
                        assert(s[i].id == o);
                    }
                }
                if index_has(s, o) {
                    let i = choose|i: int| 0 <= i < s.len() && (#[trigger] s[i]).id == o;
                    assert(s.push(e)[i].id == o);
                }
            };
            assert(index_cands(s.push(e), e.id) == index_cands(s.drop_first().push(e), e.id));
        } else {
            assert(index_has(s, e.id));
            assert(false);
        }
    }
}

/// Builds the conflict-candidate index for the tick: for every vehicle
/// of the snapshot, every other vehicle whose tag set shares a
/// non-generic tag, carrying its position, identifier, first
/// non-generic tag and heading flag.
pub fn build_car_tracking(car_data: &Vec<CarData>) -> (idx: ConflictIndex)
    requires
        forall|j: int| 0 <= j < car_data@.len()
            ==> pos_in_range((#[trigger] car_data@[j]).x as int)
                && pos_in_range(car_data@[j].y as int),
        forall|i: int, j: int| 0 <= i < j < car_data@.len()
            ==> (#[trigger] car_data@[i]).id != (#[trigger] car_data@[j]).id,
    ensures
        idx.wf(),
        forall|j: int| 0 <= j < car_data@.len()
            ==> #[trigger] idx.cands_of(car_data@[j].id) == candidates_for(car_data@, j),
{
    let n = car_data.len();
    let mut idx = ConflictIndex::new();
    let mut i: usize = 0;
    while i < n
        invariant
            n == car_data@.len(),
            i <= n,
            idx.wf(),
            forall|j: int| 0 <= j < car_data@.len()
                ==> pos_in_range((#[trigger] car_data@[j]).x as int)
                    && pos_in_range(car_data@[j].y as int),
            forall|p: int, q: int| 0 <= p < q < car_data@.len()
                ==> (#[trigger] car_data@[p]).id != (#[trigger] car_data@[q]).id,
            forall|j: int| 0 <= j < i
                ==> #[trigger] idx.cands_of(car_data@[j].id) == candidates_for(car_data@, j),
            forall|o: u64| idx.has_id(o)
                <==> exists|j: int| 0 <= j < i && (#[trigger] car_data@[j]).id == o,
        decreases n - i,
    {
        let car = &car_data[i];
        let mut temp: Vec<Candidate> = Vec::new();
        let mut j: usize = 0;
        while j < n
            invariant
                n == car_data@.len(),
                i < n,
                j <= n,
                car == car_data@[i as int],
                forall|q: int| 0 <= q < car_data@.len()
                    ==> pos_in_range((#[trigger] car_data@[q]).x as int)
                        && pos_in_range(car_data@[q].y as int),
                forall|p: int, q: int| 0 <= p < q < car_data@.len()
                    ==> (#[trigger] car_data@[p]).id != (#[trigger] car_data@[q]).id,
                temp@ == candidates_upto(car_data@, i as int, j as int),
                forall|k: int| 0 <= k < temp@.len()
                    ==> cand_ok(#[trigger] temp@[k], car_data@[i as int].id),
            decreases n - j,
        {
            if j != i {
                let other = &car_data[j];
                if tag_lists_conflict(&car.tags, &other.tags) {
                    let tag = first_non_gg_tag(&other.tags);
                    temp.push(Candidate {
                        x: other.x,
                        y: other.y,
                        id: other.id,
                        tag,
                        rotated: other.rotated,
                    });
                }
            }
            j = j + 1;
        }
        proof {
            if idx.has_id(car_data@[i as int].id) {
                let j0 = choose|j0: int| 0 <= j0 < i
                    && (#[trigger] car_data@[j0]).id == car_data@[i as int].id;
                assert(false);
            }
        }
        idx.insert(car.id, temp);
        i = i + 1;
    }
    idx
}

/// Squared Euclidean distance between two points.  Comparing squared
/// distances orders points by Euclidean distance exactly.
pub open spec fn dist_sq(x1: int, y1: int, x2: int, y2: int) -> int {
    (x1 - x2) * (x1 - x2) + (y1 - y2) * (y1 - y2)
}

fn dist_sq_to(x: i64, y: i64, rx: i64, ry: i64) -> (d: i64)
    requires
        coord_in_range(x as int),
        coord_in_range(y as int),
        coord_in_range(rx as int),
        coord_in_range(ry as int),
    ensures
        d == dist_sq(x as int, y as int, rx as int, ry as int),
{
    let dx = x - rx;
    let dy = y - ry;
    proof {
        assert(0 <= dx as int * dx as int <= 4_000_000_000_000) by (nonlinear_arith)
            requires
                -2_000_000 <= dx as int <= 2_000_000;
        assert(0 <= dy as int * dy as int <= 4_000_000_000_000) by (nonlinear_arith)
            requires
                -2_000_000 <= dy as int <= 2_000_000;
    }
    dx * dx + dy * dy
}

/// Canonical form of an unordered identifier pair.
pub open spec fn canon_pair(a: u64, b: u64) -> (u64, u64) {
    if a < b {
        (a, b)
    } else {
        (b, a)
    }
}

/// What the protocol decides for one conflict candidate: whether the
/// vehicle yields on the spot, whether the close-call counter moves,
/// and the winner cache afterwards.
pub ghost struct StepOutcome {
    pub yields: bool,
    pub close_inc: bool,
    pub pmap: Map<(u64, u64), u64>,
}

/// The per-candidate protocol step.
///
/// No overlap: nothing happens.  A cached winner decides immediately:
/// the vehicle proceeds past this candidate if it is the winner, else
/// it yields and the close call is counted.  Otherwise the tag pair's
/// reference point rules: an owner who is the candidate forces a
/// yield, an owner who is this vehicle waves it past; the sentinel
/// fallback (an undefined tag pair) makes the younger — higher —
/// identifier yield; and an untaken real reference point goes to
/// whoever is nearer, recording the winner for good — unless the two
/// vehicles share a primary tag, in which case they are convoying and
/// the distance rule is waived.
pub open spec fn candidate_step(
    car_id: u64, car_x: int, car_y: int, car_tag: CollisionType, rotated: bool,
    cand: Candidate,
    pmap: Map<(u64, u64), u64>,
    pref: Map<(i64, i64), u64>,
) -> StepOutcome {
    if !poses_overlap(
        car_x, car_y, car_tag, rotated,
        cand.x as int, cand.y as int, cand.tag, cand.rotated,
    ) {
        StepOutcome { yields: false, close_inc: false, pmap }
    } else {
        let pair = canon_pair(car_id, cand.id);
        if pmap.contains_key(pair) {
            if pmap[pair] == car_id {
                StepOutcome { yields: false, close_inc: false, pmap }
            } else {
                StepOutcome { yields: true, close_inc: true, pmap }
            }
        } else {
            let rp = ref_point(car_tag, cand.tag);
            if pref.contains_key(rp) && pref[rp] == cand.id {
                StepOutcome { yields: true, close_inc: false, pmap }
            } else if pref.contains_key(rp) && pref[rp] == car_id {
                StepOutcome { yields: false, close_inc: false, pmap }
            } else if rp.0 == FALLBACK_COORD {
                if car_id > cand.id {
                    StepOutcome { yields: true, close_inc: false, pmap }
                } else {
                    StepOutcome { yields: false, close_inc: false, pmap }
                }
            } else if car_tag == cand.tag {
                StepOutcome { yields: false, close_inc: false, pmap }
            } else {
                let d_car = dist_sq(car_x, car_y, rp.0 as int, rp.1 as int);
                let d_cand = dist_sq(cand.x as int, cand.y as int, rp.0 as int, rp.1 as int);
                if d_car > d_cand {
                    StepOutcome {
                        yields: true,
                        close_inc: true,
                        pmap: pmap.insert(pair, cand.id),
                    }
                } else {
                    StepOutcome {
                        yields: false,
                        close_inc: false,
                        pmap: pmap.insert(pair, car_id),
                    }
                }
            }
        }
    }
}

/// The verdict of a whole `check_collision` call: whether the vehicle
/// yields this tick, whether one close call is counted, and the winner
/// cache afterwards.
pub ghost struct ResolveOutcome {
    pub yields: bool,
    pub close_inc: bool,
    pub pmap: Map<(u64, u64), u64>,
}

/// Runs the per-candidate step over `cands[i..]`, stopping at the
/// first candidate that forces a yield.
pub open spec fn resolve_from(
    car_id: u64, car_x: int, car_y: int, car_tag: CollisionType, rotated: bool,
    cands: Seq<Candidate>, i: int,
    pmap: Map<(u64, u64), u64>,
    pref: Map<(i64, i64), u64>,
) -> ResolveOutcome
    decreases cands.len() - i,
{
    if i < 0 || i >= cands.len() {
        ResolveOutcome { yields: false, close_inc: false, pmap }
    } else {
        let st = candidate_step(car_id, car_x, car_y, car_tag, rotated, cands[i], pmap, pref);
        if st.yields {
            ResolveOutcome { yields: true, close_inc: st.close_inc, pmap: st.pmap }
        } else {
            resolve_from(car_id, car_x, car_y, car_tag, rotated, cands, i + 1, st.pmap, pref)
        }
    }
}

/// The per-vehicle, per-tick arbitration call.  Returns true when the
/// vehicle must yield (skip motion) this tick.
///
/// The verdict, the winner cache, the close-call counter and the
/// reference-point stamps afterwards are exactly what `resolve_from`
/// says for this vehicle's candidate list.
pub fn check_collision(
    car_tracking: &ConflictIndex,
    car_id: u64,
    car_x: i64,
    car_y: i64,
    collision_types: &Vec<CollisionType>,
    rotated: bool,
    priority_map: &mut PairWinnerCache,
    priority_ref: &mut RefPointOwners,
    stats: &mut Stats,
) -> (yielded: bool)
    requires
        car_tracking.wf(),
        old(priority_map).wf(),
        old(priority_ref).wf(),
        pos_in_range(car_x as int),
        pos_in_range(car_y as int),
        old(stats).close_call < u64::MAX,
    ensures
        final(priority_map).wf(),
        final(priority_ref).wf(),
        ({
            let ptag = primary_tag(collision_types@);
            let out = resolve_from(
                car_id, car_x as int, car_y as int, ptag, rotated,
                car_tracking.cands_of(car_id), 0,
                old(priority_map)@, old(priority_ref)@,
            );
            &&& yielded == out.yields
            &&& final(priority_map)@ == out.pmap
            &&& final(stats).close_call == old(stats).close_call
                + (if out.close_inc { 1int } else { 0int })
            &&& final(priority_ref)@ == (if out.yields {
                old(priority_ref)@
            } else {
                stamped(
                    old(priority_ref)@,
                    car_x - half_w(ptag, rotated), car_x + half_w(ptag, rotated),
                    car_y - half_h(ptag, rotated), car_y + half_h(ptag, rotated),
                    car_id,
                )
            })
        }),
{
    let primary_type = if collision_types.len() > 0 {
        collision_types[0]
    } else {
        CollisionType::GG
    };
    let car_corners = compute_rotated_corners(car_x, car_y, primary_type, rotated);

    let ghost cands = car_tracking.cands_of(car_id);
    let ghost pmap0 = priority_map@;
    let ghost pref0 = priority_ref@;
    let ghost close0 = stats.close_call;

    proof {
        car_tracking.lemma_cands_ok(car_id);
    }

    let found = car_tracking.get(car_id);
    if let Some(others) = found {
        let n = others.len();
        let mut i: usize = 0;
        while i < n
            invariant
                n == others@.len(),
                others@ == cands,
                cands == car_tracking.cands_of(car_id),
                primary_type == primary_tag(collision_types@),
                pmap0 == old(priority_map)@,
                pref0 == old(priority_ref)@,
                close0 == old(stats).close_call,
                i <= n,
                priority_map.wf(),
                priority_ref.wf(),
                priority_ref@ == pref0,
                stats.close_call == close0,
                close0 < u64::MAX,
                pos_in_range(car_x as int),
                pos_in_range(car_y as int),
                forall|k: int| 0 <= k < cands.len() ==> cand_ok(#[trigger] cands[k], car_id),
                car_corners.wf(),
                car_corners.left() == car_x - half_w(primary_type, rotated),
                car_corners.right() == car_x + half_w(primary_type, rotated),
                car_corners.bottom() == car_y - half_h(primary_type, rotated),
                car_corners.top() == car_y + half_h(primary_type, rotated),
                resolve_from(
                    car_id, car_x as int, car_y as int, primary_type, rotated,
                    cands, i as int, priority_map@, pref0,
                ) == resolve_from(
                    car_id, car_x as int, car_y as int, primary_type, rotated,
                    cands, 0, pmap0, pref0,
                ),
            decreases n - i,
        {
            let ghost pmap_head = priority_map@;
            let cand = others[i];
            let ghost st = candidate_step(
                car_id, car_x as int, car_y as int, primary_type, rotated,
                cand, pmap_head, pref0,
            );
            let other_corners = compute_rotated_corners(cand.x, cand.y, cand.tag, cand.rotated);
            proof {
                lemma_overlap_at_poses(
                    car_corners, other_corners,
                    car_x as int, car_y as int, primary_type, rotated,
                    cand.x as int, cand.y as int, cand.tag, cand.rotated,
                );
            }
            if sat_collision(&car_corners, &other_corners) {
                let (lo, hi) = if car_id < cand.id {
                    (car_id, cand.id)
                } else {
                    (cand.id, car_id)
                };
                proof {
                    assert((lo, hi) == canon_pair(car_id, cand.id));
                }
                let cached = priority_map.get(lo, hi);
                match cached {
                    Some(winner) => {
                        if winner != car_id {
                            // The candidate holds right of way for
                            // this pair: yield, and count the close
                            // call.
                            stats.close_call = stats.close_call + 1;
                            return true;
                        }
                        // This vehicle holds right of way for the
                        // pair: nothing to record, on to the next
                        // candidate.
                    }
                    None => {
                        let (ref_x, ref_y) = get_reference_point(primary_type, cand.tag);
                        proof {
                            lemma_ref_point_in_range(primary_type, cand.tag);
                        }
                        let owner = priority_ref.get(ref_x, ref_y);
                        let owner_is_cand = match owner {
                            Some(o) => o == cand.id,
                            None => false,
                        };
                        let owner_is_car = match owner {
                            Some(o) => o == car_id,
                            None => false,
                        };
                        if owner_is_cand {
                            // The candidate reached the conflict
                            // point first: yield to it.
                            return true;
                        } else if owner_is_car {
                            // This vehicle already holds the conflict
                            // point: on to the next candidate.
                        } else if ref_x == FALLBACK_COORD {
                            // Undefined tag pair: fall back to spawn
                            // order — the higher identifier yields.
                            if car_id > cand.id {
                                return true;
                            }
                        } else {
                            let d_car = dist_sq_to(car_x, car_y, ref_x, ref_y);
                            let d_cand = dist_sq_to(cand.x, cand.y, ref_x, ref_y);
                            if primary_type != cand.tag {
                                if d_car > d_cand {
                                    // The candidate is nearer the
                                    // conflict point: it wins the
                                    // pair for good, and this vehicle
                                    // yields.
                                    stats.close_call = stats.close_call + 1;
                                    priority_map.insert(lo, hi, cand.id);
                                    return true;
                                } else {
                                    // This vehicle is nearer: record
                                    // it as the pair's winner and
                                    // keep checking.
                                    priority_map.insert(lo, hi, car_id);
                                }
                            }
                            // Same primary tag: a convoy, not a
                            // conflict — the capacity ledger orders
                            // them instead.
                        }
                    }
                }
            }
            i = i + 1;
        }
    }

    // No candidate forced a yield: the vehicle proceeds, stamping
    // every unowned reference point its footprint covers.
    update_reference_points(&car_corners, car_id, priority_ref);
    false
}

/// Spawn gate: whether a new vehicle's box at its spawn pose overlaps
/// the box of any existing vehicle with the same primary tag.
pub fn check_spawn_collision(
    x: i64,
    y: i64,
    collision_type: CollisionType,
    car_data: &Vec<CarData>,
) -> (blocked: bool)
    requires
        pos_in_range(x as int),
        pos_in_range(y as int),
        forall|j: int| 0 <= j < car_data@.len()
            ==> pos_in_range((#[trigger] car_data@[j]).x as int)
                && pos_in_range(car_data@[j].y as int),
    ensures
        blocked == spawn_conflict(x as int, y as int, collision_type, car_data@),
{
    let car_corners = compute_rotated_corners(x, y, collision_type, false);
    let n = car_data.len();
    let mut i: usize = 0;
    while i < n
        invariant
            n == car_data@.len(),
            i <= n,
            pos_in_range(x as int),
            pos_in_range(y as int),
            forall|j: int| 0 <= j < car_data@.len()
                ==> pos_in_range((#[trigger] car_data@[j]).x as int)
                    && pos_in_range(car_data@[j].y as int),
            car_corners.wf(),
            car_corners.left() == x - half_w(collision_type, false),
            car_corners.right() == x + half_w(collision_type, false),
            car_corners.bottom() == y - half_h(collision_type, false),
            car_corners.top() == y + half_h(collision_type, false),
            forall|j: int| 0 <= j < i
                ==> !spawn_conflict_with(x as int, y as int, collision_type,
                    #[trigger] car_data@[j]),
        decreases n - i,
    {
        let car = &car_data[i];
        if car.tags.len() > 0 {
            let other_type = car.tags[0];
            if other_type == collision_type {
                let other_corners =
                    compute_rotated_corners(car.x, car.y, other_type, car.rotated);
                proof {
                    lemma_overlap_at_poses(
                        car_corners, other_corners,
                        x as int, y as int, collision_type, false,
                        car.x as int, car.y as int, other_type, car.rotated,
                    );
                }
                if sat_collision(&car_corners, &other_corners) {
                    return true;
                }
            }
        }
        i = i + 1;
    }
    false
}

/// A vehicle of the snapshot blocks spawning at `(x, y)` with tag `t`.
pub open spec fn spawn_conflict_with(x: int, y: int, t: CollisionType, c: CarData) -> bool {
    &&& c.tags@.len() > 0
    &&& c.tags@[0] == t
    &&& poses_overlap(x, y, t, false, c.x as int, c.y as int, t, c.rotated)
}

/// Some vehicle of the snapshot blocks spawning at `(x, y)` with tag
/// `t`.
pub open spec fn spawn_conflict(x: int, y: int, t: CollisionType, cars: Seq<CarData>) -> bool {
    exists|j: int| 0 <= j < cars.len()
        && spawn_conflict_with(x, y, t, #[trigger] cars[j])
}

proof fn lemma_resolve_preserves_rec(
    car_id: u64, car_x: int, car_y: int, car_tag: CollisionType, rotated: bool,
    cands: Seq<Candidate>, i: int,
    pmap: Map<(u64, u64), u64>,
    pref: Map<(i64, i64), u64>,
    p: (u64, u64),
)
    requires
        pmap.contains_key(p),
    ensures
        ({
            let out = resolve_from(car_id, car_x, car_y, car_tag, rotated, cands, i, pmap, pref);
            out.pmap.contains_key(p) && out.pmap[p] == pmap[p]
        }),
    decreases cands.len() - i,
{
    if 0 <= i < cands.len() {
        let st = candidate_step(car_id, car_x, car_y, car_tag, rotated, cands[i], pmap, pref);
        if !st.yields {
            lemma_resolve_preserves_rec(
                car_id, car_x, car_y, car_tag, rotated, cands, i + 1, st.pmap, pref, p,
            );
        }
    }
}

/// Winner stability: a pair's cached winner survives any later
/// `resolve_from` run unchanged — repeated resolve calls keep
/// yielding to the same party until one of the two vehicles is
/// removed.
pub proof fn lemma_winner_stability(
    car_id: u64, car_x: int, car_y: int, car_tag: CollisionType, rotated: bool,
    cands: Seq<Candidate>,
    pmap: Map<(u64, u64), u64>,
    pref: Map<(i64, i64), u64>,
    p: (u64, u64),
)
    requires
        pmap.contains_key(p),
    ensures
        ({
            let out = resolve_from(car_id, car_x, car_y, car_tag, rotated, cands, 0, pmap, pref);
            out.pmap.contains_key(p) && out.pmap[p] == pmap[p]
        }),
{
    lemma_resolve_preserves_rec(car_id, car_x, car_y, car_tag, rotated, cands, 0, pmap, pref, p);
}

/// The second half of winner stability: against a candidate whose
/// pair already has a cached winner, the step consults the cache
/// alone — the vehicle yields exactly when the winner is the other
/// party, and no state changes.
pub proof fn lemma_cached_winner_decides(
    car_id: u64, car_x: int, car_y: int, car_tag: CollisionType, rotated: bool,
    cand: Candidate,
    pmap: Map<(u64, u64), u64>,
    pref: Map<(i64, i64), u64>,
)
    requires
        pmap.contains_key(canon_pair(car_id, cand.id)),
        poses_overlap(car_x, car_y, car_tag, rotated,
            cand.x as int, cand.y as int, cand.tag, cand.rotated),
    ensures
        ({
            let st = candidate_step(car_id, car_x, car_y, car_tag, rotated, cand, pmap, pref);
            &&& st.yields == (pmap[canon_pair(car_id, cand.id)] != car_id)
            &&& st.pmap == pmap
        }),
{
}

} // verus!
