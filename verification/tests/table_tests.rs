use intersection_core::collision::get_reference_point;
use intersection_core::spawn::{collision_type_for, collision_types_for, spawn_coords_for};
use intersection_core::types::{CollisionType, Direction, Route};
use intersection_core::Stats;

#[test]
fn reference_point_table_exhaustive() {
    let expected = [
        (CollisionType::NS, CollisionType::ES, (600, 292)),
        (CollisionType::NS, CollisionType::WS, (600, 410)),
        (CollisionType::WS, CollisionType::SS, (415, 410)),
        (CollisionType::SS, CollisionType::ES, (415, 292)),
        (CollisionType::NL, CollisionType::SS, (415, 365)),
        (CollisionType::NL, CollisionType::ES, (535, 292)),
        (CollisionType::SL, CollisionType::WS, (480, 410)),
        (CollisionType::SL, CollisionType::NS, (600, 330)),
        (CollisionType::EL, CollisionType::SS, (415, 330)),
        (CollisionType::EL, CollisionType::WS, (540, 415)),
        (CollisionType::WL, CollisionType::NS, (600, 365)),
        (CollisionType::WL, CollisionType::ES, (480, 292)),
    ];
    for &(a, b, point) in expected.iter() {
        assert_eq!(get_reference_point(a, b), point);
        // the table is symmetric
        assert_eq!(get_reference_point(b, a), point);
    }
}

#[test]
fn undefined_pairs_map_to_sentinel() {
    assert_eq!(get_reference_point(CollisionType::GG, CollisionType::GG), (500, 500));
    assert_eq!(get_reference_point(CollisionType::NS, CollisionType::SS), (500, 500));
    assert_eq!(get_reference_point(CollisionType::NS, CollisionType::NS), (500, 500));
    assert_eq!(get_reference_point(CollisionType::NL, CollisionType::WL), (500, 500));
}

#[test]
fn primary_tags_by_route_and_direction() {
    assert_eq!(collision_type_for(Route::Straight, Direction::North), CollisionType::NS);
    assert_eq!(collision_type_for(Route::Straight, Direction::West), CollisionType::WS);
    assert_eq!(collision_type_for(Route::Straight, Direction::East), CollisionType::ES);
    assert_eq!(collision_type_for(Route::Straight, Direction::South), CollisionType::SS);
    assert_eq!(collision_type_for(Route::Left, Direction::North), CollisionType::NL);
    assert_eq!(collision_type_for(Route::Left, Direction::West), CollisionType::WL);
    assert_eq!(collision_type_for(Route::Left, Direction::East), CollisionType::EL);
    assert_eq!(collision_type_for(Route::Left, Direction::South), CollisionType::SL);
    assert_eq!(collision_type_for(Route::Right, Direction::North), CollisionType::GG);
}

#[test]
fn tag_lists_start_with_primary_tag() {
    let routes = [Route::Right, Route::Straight, Route::Left];
    let dirs = [Direction::North, Direction::South, Direction::East, Direction::West];
    for &route in routes.iter() {
        for &dir in dirs.iter() {
            let tags = collision_types_for(route, dir);
            assert!(!tags.is_empty());
            assert_eq!(tags[0], collision_type_for(route, dir));
        }
    }
}

#[test]
fn tag_list_contents() {
    assert_eq!(
        collision_types_for(Route::Straight, Direction::North),
        vec![CollisionType::NS, CollisionType::WS, CollisionType::ES,
             CollisionType::WL, CollisionType::SL],
    );
    assert_eq!(
        collision_types_for(Route::Left, Direction::East),
        vec![CollisionType::EL, CollisionType::SS, CollisionType::WS],
    );
    assert_eq!(
        collision_types_for(Route::Right, Direction::South),
        vec![CollisionType::GG],
    );
}

#[test]
fn spawn_coordinates() {
    assert_eq!(spawn_coords_for(Route::Right, Direction::North), (655, 0));
    assert_eq!(spawn_coords_for(Route::Straight, Direction::West), (978, 390));
    assert_eq!(spawn_coords_for(Route::Left, Direction::South), (480, 682));
    assert_eq!(spawn_coords_for(Route::Straight, Direction::East), (0, 278));
}

#[test]
fn stats_default_is_zero() {
    let stats = Stats::default();
    assert_eq!(stats.close_call, 0);
}
