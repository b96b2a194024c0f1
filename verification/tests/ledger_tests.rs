use intersection_core::ledger::CapacityLedger;
use intersection_core::types::CollisionType;

#[test]
fn register_once_and_retry() {
    let mut ledger = CapacityLedger::new();
    assert!(ledger.try_register(CollisionType::NS, 1));
    assert_eq!(ledger.zone_len(CollisionType::NS), 1);
    assert!(ledger.contains(CollisionType::NS, 1));
    // already registered: nothing happens, not newly entered
    assert!(!ledger.try_register(CollisionType::NS, 1));
    assert_eq!(ledger.zone_len(CollisionType::NS), 1);
}

#[test]
fn capacity_blocks_fourth_zone() {
    let mut ledger = CapacityLedger::new();
    ledger.try_register(CollisionType::NS, 1);
    ledger.try_register(CollisionType::WS, 2);
    ledger.try_register(CollisionType::ES, 3);
    assert_eq!(ledger.occupied_zone_count(), 3);
    // three other zones occupied: no further zone may be entered
    assert!(!ledger.entry_allowed(CollisionType::SS));
    let entered = ledger.try_register(CollisionType::SS, 4);
    assert!(entered); // counts as entered, but was not admitted
    assert_eq!(ledger.zone_len(CollisionType::SS), 0);
    assert!(!ledger.contains(CollisionType::SS, 4));
    // a vehicle of an already-occupied zone discounts its own zone
    assert!(ledger.entry_allowed(CollisionType::NS));
}

#[test]
fn blocked_vehicle_retries_after_space_clears() {
    let mut ledger = CapacityLedger::new();
    ledger.try_register(CollisionType::NS, 1);
    ledger.try_register(CollisionType::WS, 2);
    ledger.try_register(CollisionType::ES, 3);
    assert!(!ledger.try_register(CollisionType::SS, 4) || ledger.zone_len(CollisionType::SS) == 0);
    ledger.remove_id(1);
    assert_eq!(ledger.occupied_zone_count(), 2);
    // next tick the same vehicle retries and is admitted
    ledger.try_register(CollisionType::SS, 4);
    assert!(ledger.contains(CollisionType::SS, 4));
}

#[test]
fn left_turns_are_exclusive() {
    let mut ledger = CapacityLedger::new();
    assert!(ledger.try_register(CollisionType::NL, 1));
    assert_eq!(ledger.zone_len(CollisionType::NL), 1);
    // any other left turn is barred while NL is occupied
    assert!(!ledger.entry_allowed(CollisionType::SL));
    assert!(!ledger.entry_allowed(CollisionType::WL));
    assert!(!ledger.entry_allowed(CollisionType::EL));
    ledger.try_register(CollisionType::SL, 2);
    assert_eq!(ledger.zone_len(CollisionType::SL), 0);
    // a straight zone is still fine
    assert!(ledger.entry_allowed(CollisionType::NS));
    // once the NL vehicle leaves, SL may enter
    ledger.remove_id(1);
    ledger.try_register(CollisionType::SL, 2);
    assert_eq!(ledger.zone_len(CollisionType::SL), 1);
}

#[test]
fn may_advance_gates_only_entered_vehicles() {
    let mut ledger = CapacityLedger::new();
    ledger.try_register(CollisionType::NS, 1);
    ledger.try_register(CollisionType::WS, 2);
    ledger.try_register(CollisionType::ES, 3);
    // not yet entered: free to move regardless of congestion
    assert!(ledger.may_advance(CollisionType::SS, false));
    // entered and three other zones busy: blocked
    assert!(!ledger.may_advance(CollisionType::SS, true));
    // a vehicle of an occupied zone discounts its own zone
    assert!(ledger.may_advance(CollisionType::NS, true));
}

#[test]
fn remove_id_clears_every_list() {
    let mut ledger = CapacityLedger::new();
    ledger.try_register(CollisionType::NS, 9);
    ledger.try_register(CollisionType::WS, 8);
    ledger.remove_id(9);
    assert!(!ledger.contains(CollisionType::NS, 9));
    assert_eq!(ledger.zone_len(CollisionType::NS), 0);
    assert!(ledger.contains(CollisionType::WS, 8));
}

#[test]
fn same_zone_queue_keeps_order() {
    let mut ledger = CapacityLedger::new();
    ledger.try_register(CollisionType::NS, 1);
    ledger.try_register(CollisionType::NS, 2);
    ledger.try_register(CollisionType::NS, 3);
    assert_eq!(ledger.zone_len(CollisionType::NS), 3);
    ledger.remove_id(2);
    assert_eq!(ledger.zone_len(CollisionType::NS), 2);
    assert!(ledger.contains(CollisionType::NS, 1));
    assert!(!ledger.contains(CollisionType::NS, 2));
    assert!(ledger.contains(CollisionType::NS, 3));
}
