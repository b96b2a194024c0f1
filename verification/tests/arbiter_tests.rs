use intersection_core::arbiter::Arbiter;
use intersection_core::collision::{
    build_car_tracking, check_collision, check_spawn_collision, get_reference_point, Candidate,
    CarData, ConflictIndex,
};
use intersection_core::memory::{PairWinnerCache, RefPointOwners};
use intersection_core::types::CollisionType;
use intersection_core::Stats;

fn straight_north_tags() -> Vec<CollisionType> {
    vec![
        CollisionType::NS,
        CollisionType::WS,
        CollisionType::ES,
        CollisionType::WL,
        CollisionType::SL,
    ]
}

fn straight_east_tags() -> Vec<CollisionType> {
    vec![
        CollisionType::ES,
        CollisionType::SS,
        CollisionType::NS,
        CollisionType::WL,
        CollisionType::NL,
    ]
}

#[test]
fn head_on_through_conflict() {
    // Vehicle 1 heads north-south, vehicle 2 east-south; their boxes
    // overlap and their shared reference point is (600, 292).
    // Vehicle 1 is nearer (squared distance 1764 against 2500): it
    // proceeds and is recorded as the pair's winner; vehicle 2 yields
    // and the close-call counter moves by exactly one.
    let cars = vec![
        CarData { id: 1, x: 600, y: 250, tags: straight_north_tags(), rotated: false },
        CarData { id: 2, x: 650, y: 292, tags: straight_east_tags(), rotated: false },
    ];
    let index = build_car_tracking(&cars);
    let mut arbiter = Arbiter::new();
    let mut stats = Stats { close_call: 0 };

    let y1 = check_collision(
        &index, 1, 600, 250, &cars[0].tags, false,
        &mut arbiter.priority_map, &mut arbiter.priority_ref, &mut stats,
    );
    assert!(!y1);
    assert_eq!(stats.close_call, 0);
    assert_eq!(arbiter.priority_map.get(1, 2), Some(1));

    let y2 = check_collision(
        &index, 2, 650, 292, &cars[1].tags, false,
        &mut arbiter.priority_map, &mut arbiter.priority_ref, &mut stats,
    );
    assert!(y2);
    assert_eq!(stats.close_call, 1);
    assert_eq!(arbiter.priority_map.get(1, 2), Some(1));
}

#[test]
fn requery_after_win_recorded() {
    // Pair (3, 7) has winner 3 cached.  Resolving vehicle 7 against
    // vehicle 3 yields straight from the cache: no distances enter
    // into it, nothing is recorded, no reference point is touched.
    let mut index = ConflictIndex::new();
    index.insert(7, vec![Candidate {
        x: 600, y: 250, id: 3, tag: CollisionType::NS, rotated: false,
    }]);
    let mut pmap = PairWinnerCache::new();
    pmap.insert(3, 7, 3);
    let mut pref = RefPointOwners::new();
    let mut stats = Stats { close_call: 0 };

    let tags = vec![CollisionType::ES];
    let yielded = check_collision(
        &index, 7, 650, 292, &tags, false, &mut pmap, &mut pref, &mut stats,
    );
    assert!(yielded);
    assert_eq!(stats.close_call, 1);
    assert_eq!(pmap.get(3, 7), Some(3));
    // the reference point of the (ES, NS) pair stays unowned
    let rp = get_reference_point(CollisionType::ES, CollisionType::NS);
    assert_eq!(pref.get(rp.0, rp.1), None);
}

#[test]
fn same_tag_convoy() {
    // Two north-south vehicles overlap nose to tail.  A same-tag pair
    // has no table entry, so the distance rule never fires: no winner
    // is recorded and no close call is counted.  The fallback rule
    // still holds the younger (higher-identifier) vehicle back.
    let cars = vec![
        CarData { id: 1, x: 600, y: 250, tags: straight_north_tags(), rotated: false },
        CarData { id: 2, x: 600, y: 300, tags: straight_north_tags(), rotated: false },
    ];
    let index = build_car_tracking(&cars);
    let mut arbiter = Arbiter::new();
    let mut stats = Stats { close_call: 0 };

    let y1 = check_collision(
        &index, 1, 600, 250, &cars[0].tags, false,
        &mut arbiter.priority_map, &mut arbiter.priority_ref, &mut stats,
    );
    let y2 = check_collision(
        &index, 2, 600, 300, &cars[1].tags, false,
        &mut arbiter.priority_map, &mut arbiter.priority_ref, &mut stats,
    );
    assert!(!y1);
    assert!(y2); // spawn-order fallback, not the distance rule
    assert_eq!(stats.close_call, 0);
    assert_eq!(arbiter.priority_map.get(1, 2), None);
}

#[test]
fn undefined_tag_pair_falls_back_to_identifiers() {
    // A generic-against-generic conflict has no reference point: the
    // sentinel fallback applies and the higher identifier yields.
    let cand = Candidate { x: 210, y: 200, id: 1, tag: CollisionType::GG, rotated: false };
    let mut index = ConflictIndex::new();
    index.insert(2, vec![cand]);
    let mut pmap = PairWinnerCache::new();
    let mut pref = RefPointOwners::new();
    let mut stats = Stats { close_call: 0 };

    let tags = vec![CollisionType::GG];
    let yielded = check_collision(
        &index, 2, 200, 200, &tags, false, &mut pmap, &mut pref, &mut stats,
    );
    assert!(yielded);
    assert_eq!(stats.close_call, 0);
    assert_eq!(pmap.get(1, 2), None);

    // the older vehicle proceeds against the younger one
    let mut index2 = ConflictIndex::new();
    index2.insert(1, vec![Candidate {
        x: 200, y: 200, id: 2, tag: CollisionType::GG, rotated: false,
    }]);
    let yielded_older = check_collision(
        &index2, 1, 210, 200, &tags, false, &mut pmap, &mut pref, &mut stats,
    );
    assert!(!yielded_older);
}

#[test]
fn generic_tags_never_indexed() {
    // Two purely generic (right-turn) vehicles overlap, but generic
    // tags are stripped before matching: neither sees the other as a
    // conflict candidate.
    let cars = vec![
        CarData { id: 1, x: 200, y: 200, tags: vec![CollisionType::GG], rotated: false },
        CarData { id: 2, x: 210, y: 200, tags: vec![CollisionType::GG], rotated: false },
    ];
    let index = build_car_tracking(&cars);
    assert!(index.get(1).map_or(true, |v| v.is_empty()));
    assert!(index.get(2).map_or(true, |v| v.is_empty()));
}

#[test]
fn build_index_pairs_by_shared_tags() {
    let cars = vec![
        CarData { id: 1, x: 600, y: 250, tags: straight_north_tags(), rotated: false },
        CarData { id: 2, x: 650, y: 292, tags: straight_east_tags(), rotated: false },
        CarData { id: 3, x: 100, y: 100, tags: vec![CollisionType::GG], rotated: false },
    ];
    let index = build_car_tracking(&cars);
    let c1 = index.get(1).unwrap();
    assert_eq!(c1.len(), 1);
    assert_eq!(c1[0].id, 2);
    assert_eq!(c1[0].tag, CollisionType::ES); // first non-generic tag
    assert_eq!(c1[0].x, 650);
    assert_eq!(c1[0].y, 292);
    let c2 = index.get(2).unwrap();
    assert_eq!(c2.len(), 1);
    assert_eq!(c2[0].id, 1);
    assert_eq!(c2[0].tag, CollisionType::NS);
    let c3 = index.get(3).unwrap();
    assert!(c3.is_empty());
}

#[test]
fn cleanup_completeness() {
    // After removing vehicle 2, no winner-cache entry mentions it, it
    // owns no reference point, and it sits in no occupancy list,
    // while everything else survives untouched.
    let mut arbiter = Arbiter::new();
    arbiter.priority_map.insert(1, 2, 1);
    arbiter.priority_map.insert(2, 3, 3);
    arbiter.priority_map.insert(1, 3, 3);
    arbiter.priority_ref.claim(600, 292, 2);
    arbiter.priority_ref.claim(415, 410, 1);
    arbiter.in_intersection.try_register(CollisionType::NS, 2);
    arbiter.in_intersection.try_register(CollisionType::ES, 1);

    arbiter.remove_vehicle(2);

    assert_eq!(arbiter.priority_map.get(1, 2), None);
    assert_eq!(arbiter.priority_map.get(2, 3), None);
    assert_eq!(arbiter.priority_map.get(1, 3), Some(3));
    assert_eq!(arbiter.priority_ref.get(600, 292), None);
    assert_eq!(arbiter.priority_ref.get(415, 410), Some(1));
    assert!(!arbiter.in_intersection.contains(CollisionType::NS, 2));
    assert_eq!(arbiter.in_intersection.zone_len(CollisionType::NS), 0);
    assert!(arbiter.in_intersection.contains(CollisionType::ES, 1));
}

#[test]
fn spawn_blocked_by_same_tag_overlap() {
    let cars = vec![
        CarData { id: 1, x: 595, y: 45, tags: straight_north_tags(), rotated: false },
    ];
    // same primary tag, overlapping boxes: blocked
    assert!(check_spawn_collision(595, 60, CollisionType::NS, &cars));
    // same primary tag, far away: free
    assert!(!check_spawn_collision(595, 400, CollisionType::NS, &cars));
    // overlapping but different primary tag: the spawn gate ignores it
    assert!(!check_spawn_collision(595, 60, CollisionType::ES, &cars));
}

#[test]
fn spawn_gate_ignores_tagless_vehicles() {
    let cars = vec![
        CarData { id: 1, x: 595, y: 45, tags: vec![], rotated: false },
    ];
    assert!(!check_spawn_collision(595, 60, CollisionType::NS, &cars));
}

#[test]
fn winner_survives_unrelated_resolution() {
    // Vehicle 5's resolution against vehicle 6 records a winner for
    // (5, 6) but leaves the cached (1, 2) entry untouched.
    let mut index = ConflictIndex::new();
    index.insert(5, vec![Candidate {
        x: 650, y: 292, id: 6, tag: CollisionType::ES, rotated: false,
    }]);
    let mut pmap = PairWinnerCache::new();
    pmap.insert(1, 2, 2);
    let mut pref = RefPointOwners::new();
    let mut stats = Stats { close_call: 0 };
    let tags = vec![CollisionType::NS];
    let yielded = check_collision(
        &index, 5, 600, 250, &tags, false, &mut pmap, &mut pref, &mut stats,
    );
    assert!(!yielded);
    assert_eq!(pmap.get(1, 2), Some(2));
    assert_eq!(pmap.get(5, 6), Some(5));
}

#[test]
fn proceeding_vehicle_stamps_covered_reference_points() {
    // A vehicle that proceeds claims every fixed reference point its
    // box covers; here the north-south box around (600, 250) covers
    // exactly (600, 292).
    let index = ConflictIndex::new();
    let mut pmap = PairWinnerCache::new();
    let mut pref = RefPointOwners::new();
    let mut stats = Stats { close_call: 0 };
    let tags = vec![CollisionType::NS];
    let yielded = check_collision(
        &index, 1, 600, 250, &tags, false, &mut pmap, &mut pref, &mut stats,
    );
    assert!(!yielded);
    assert_eq!(pref.get(600, 292), Some(1));
    assert_eq!(pref.get(600, 330), None);
    assert_eq!(pref.get(600, 410), None);
}

#[test]
fn owner_of_reference_point_forces_yield() {
    // No cached winner, but the candidate already owns the pair's
    // reference point: yield at once, without counting a close call.
    let mut index = ConflictIndex::new();
    index.insert(4, vec![Candidate {
        x: 650, y: 292, id: 9, tag: CollisionType::ES, rotated: false,
    }]);
    let mut pmap = PairWinnerCache::new();
    let mut pref = RefPointOwners::new();
    pref.claim(600, 292, 9);
    let mut stats = Stats { close_call: 0 };
    let tags = vec![CollisionType::NS];
    let yielded = check_collision(
        &index, 4, 600, 250, &tags, false, &mut pmap, &mut pref, &mut stats,
    );
    assert!(yielded);
    assert_eq!(stats.close_call, 0);
    assert_eq!(pmap.get(4, 9), None);
}

#[test]
fn own_reference_point_waves_vehicle_past() {
    // The resolving vehicle already owns the reference point: the
    // candidate is skipped and the vehicle proceeds.
    let mut index = ConflictIndex::new();
    index.insert(4, vec![Candidate {
        x: 650, y: 292, id: 9, tag: CollisionType::ES, rotated: false,
    }]);
    let mut pmap = PairWinnerCache::new();
    let mut pref = RefPointOwners::new();
    pref.claim(600, 292, 4);
    let mut stats = Stats { close_call: 0 };
    let tags = vec![CollisionType::NS];
    let yielded = check_collision(
        &index, 4, 600, 250, &tags, false, &mut pmap, &mut pref, &mut stats,
    );
    assert!(!yielded);
    assert_eq!(stats.close_call, 0);
    assert_eq!(pmap.get(4, 9), None);
}

#[test]
fn empty_tag_list_defaults_to_generic() {
    // An empty conflict-tag list is guarded by the generic
    // placeholder tag rather than faulting.
    let mut index = ConflictIndex::new();
    index.insert(2, vec![Candidate {
        x: 210, y: 200, id: 1, tag: CollisionType::GG, rotated: false,
    }]);
    let mut pmap = PairWinnerCache::new();
    let mut pref = RefPointOwners::new();
    let mut stats = Stats { close_call: 0 };
    let tags: Vec<CollisionType> = vec![];
    // primary tag defaults to generic; the generic pair falls back to
    // the identifier rule and the higher identifier yields
    let yielded = check_collision(
        &index, 2, 200, 200, &tags, false, &mut pmap, &mut pref, &mut stats,
    );
    assert!(yielded);
}

#[test]
fn non_overlapping_candidate_leaves_no_trace() {
    let mut index = ConflictIndex::new();
    index.insert(1, vec![Candidate {
        x: 900, y: 600, id: 2, tag: CollisionType::ES, rotated: false,
    }]);
    let mut pmap = PairWinnerCache::new();
    let mut pref = RefPointOwners::new();
    let mut stats = Stats { close_call: 0 };
    let tags = vec![CollisionType::NS];
    let yielded = check_collision(
        &index, 1, 600, 250, &tags, false, &mut pmap, &mut pref, &mut stats,
    );
    assert!(!yielded);
    assert_eq!(stats.close_call, 0);
    assert_eq!(pmap.get(1, 2), None);
}
