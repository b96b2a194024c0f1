use intersection_core::memory::{PairWinnerCache, RefPointOwners};

#[test]
fn winner_cache_insert_and_get() {
    let mut cache = PairWinnerCache::new();
    assert_eq!(cache.get(1, 2), None);
    cache.insert(1, 2, 1);
    assert_eq!(cache.get(1, 2), Some(1));
    assert_eq!(cache.get(1, 3), None);
    cache.insert(1, 3, 3);
    assert_eq!(cache.get(1, 2), Some(1));
    assert_eq!(cache.get(1, 3), Some(3));
}

#[test]
fn winner_cache_remove_id_purges_pairs() {
    let mut cache = PairWinnerCache::new();
    cache.insert(1, 2, 1);
    cache.insert(1, 3, 3);
    cache.insert(2, 5, 5);
    cache.remove_id(1);
    assert_eq!(cache.get(1, 2), None);
    assert_eq!(cache.get(1, 3), None);
    assert_eq!(cache.get(2, 5), Some(5));
}

#[test]
fn ref_point_claim_is_first_come() {
    let mut owners = RefPointOwners::new();
    assert_eq!(owners.get(600, 292), None);
    owners.claim(600, 292, 7);
    assert_eq!(owners.get(600, 292), Some(7));
    // a later claim does not displace the owner
    owners.claim(600, 292, 9);
    assert_eq!(owners.get(600, 292), Some(7));
    owners.claim(415, 410, 9);
    assert_eq!(owners.get(415, 410), Some(9));
}

#[test]
fn ref_point_remove_owner_purges_claims() {
    let mut owners = RefPointOwners::new();
    owners.claim(600, 292, 7);
    owners.claim(415, 410, 7);
    owners.claim(600, 330, 3);
    owners.remove_owner(7);
    assert_eq!(owners.get(600, 292), None);
    assert_eq!(owners.get(415, 410), None);
    assert_eq!(owners.get(600, 330), Some(3));
}
