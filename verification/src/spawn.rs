//! Spawn-path decision tables: the conflict tag, the full tag list,
//! and the spawn coordinates a route/direction pair determines.
//! Keyboard handling, the spawn cooldown and the random route draw
//! stay with the simulation loop; it hands the chosen route and
//! direction in and gets plain values back.

use vstd::prelude::*;
use crate::types::{CollisionType, Direction, Route};

verus! {

/// The primary conflict tag of a route/direction pair: through tags
/// for straight routes, left tags for left turns, the generic tag for
/// right turns.
pub open spec fn tag_for(route: Route, dir: Direction) -> CollisionType {
    match route {
        Route::Straight => match dir {
            Direction::North => CollisionType::NS,
            Direction::West => CollisionType::WS,
            Direction::East => CollisionType::ES,
            Direction::South => CollisionType::SS,
        },
        Route::Left => match dir {
            Direction::North => CollisionType::NL,
            Direction::West => CollisionType::WL,
            Direction::East => CollisionType::EL,
            Direction::South => CollisionType::SL,
        },
        Route::Right => CollisionType::GG,
    }
}

/// All conflict tags a vehicle on this route/direction participates
/// in, primary tag first.
pub open spec fn tags_for(route: Route, dir: Direction) -> Seq<CollisionType> {
    match route {
        Route::Straight => match dir {
            Direction::North => seq![
                CollisionType::NS, CollisionType::WS, CollisionType::ES,
                CollisionType::WL, CollisionType::SL,
            ],
            Direction::West => seq![
                CollisionType::WS, CollisionType::SS, CollisionType::NS,
                CollisionType::EL, CollisionType::SL,
            ],
            Direction::East => seq![
                CollisionType::ES, CollisionType::SS, CollisionType::NS,
                CollisionType::WL, CollisionType::NL,
            ],
            Direction::South => seq![
                CollisionType::SS, CollisionType::WS, CollisionType::ES,
                CollisionType::EL, CollisionType::NL,
            ],
        },
        Route::Left => match dir {
            Direction::North => seq![CollisionType::NL, CollisionType::ES, CollisionType::SS],
            Direction::West => seq![CollisionType::WL, CollisionType::NS, CollisionType::ES],
            Direction::East => seq![CollisionType::EL, CollisionType::SS, CollisionType::WS],
            Direction::South => seq![CollisionType::SL, CollisionType::NS, CollisionType::ES],
        },
        Route::Right => seq![CollisionType::GG],
    }
}

/// Where a vehicle on this route/direction spawns.
pub open spec fn spawn_coord(route: Route, dir: Direction) -> (i64, i64) {
    match route {
        Route::Right => match dir {
            Direction::North => (655, 0),
            Direction::West => (1024, 435),
            Direction::East => (0, 230),
            Direction::South => (360, 682),
        },
        Route::Straight => match dir {
            Direction::North => (595, 45),
            Direction::West => (978, 390),
            Direction::East => (0, 278),
            Direction::South => (420, 682),
        },
        Route::Left => match dir {
            Direction::North => (535, 45),
            Direction::West => (978, 350),
            Direction::East => (0, 315),
            Direction::South => (480, 682),
        },
    }
}

/// The primary conflict tag for a spawning vehicle.
pub fn collision_type_for(route: Route, dir: Direction) -> (t: CollisionType)
    ensures
        t == tag_for(route, dir),
{
    match route {
        Route::Straight => match dir {
            Direction::North => CollisionType::NS,
            Direction::West => CollisionType::WS,
            Direction::East => CollisionType::ES,
            Direction::South => CollisionType::SS,
        },
        Route::Left => match dir {
            Direction::North => CollisionType::NL,
            Direction::West => CollisionType::WL,
            Direction::East => CollisionType::EL,
            Direction::South => CollisionType::SL,
        },
        Route::Right => CollisionType::GG,
    }
}

/// The full conflict-tag list for a spawning vehicle; its head is the
/// primary tag.
pub fn collision_types_for(route: Route, dir: Direction) -> (ts: Vec<CollisionType>)
    ensures
        ts@ == tags_for(route, dir),
        ts@.len() > 0,
        ts@[0] == tag_for(route, dir),
{
    let ts: Vec<CollisionType> = match route {
        Route::Straight => match dir {
            Direction::North => vec![
                CollisionType::NS, CollisionType::WS, CollisionType::ES,
                CollisionType::WL, CollisionType::SL,
            ],
            Direction::West => vec![
                CollisionType::WS, CollisionType::SS, CollisionType::NS,
                CollisionType::EL, CollisionType::SL,
            ],
            Direction::East => vec![
                CollisionType::ES, CollisionType::SS, CollisionType::NS,
                CollisionType::WL, CollisionType::NL,
            ],
            Direction::South => vec![
                CollisionType::SS, CollisionType::WS, CollisionType::ES,
                CollisionType::EL, CollisionType::NL,
            ],
        },
        Route::Left => match dir {
            Direction::North => vec![CollisionType::NL, CollisionType::ES, CollisionType::SS],
            Direction::West => vec![CollisionType::WL, CollisionType::NS, CollisionType::ES],
            Direction::East => vec![CollisionType::EL, CollisionType::SS, CollisionType::WS],
            Direction::South => vec![CollisionType::SL, CollisionType::NS, CollisionType::ES],
        },
        Route::Right => vec![CollisionType::GG],
    };
    proof {
        assert(ts@ =~= tags_for(route, dir));
    }
    ts
}

/// The spawn coordinates for a spawning vehicle.
pub fn spawn_coords_for(route: Route, dir: Direction) -> (c: (i64, i64))
    ensures
        c == spawn_coord(route, dir),
{
    match route {
        Route::Right => match dir {
            Direction::North => (655, 0),
            Direction::West => (1024, 435),
            Direction::East => (0, 230),
            Direction::South => (360, 682),
        },
        Route::Straight => match dir {
            Direction::North => (595, 45),
            Direction::West => (978, 390),
            Direction::East => (0, 278),
            Direction::South => (420, 682),
        },
        Route::Left => match dir {
            Direction::North => (535, 45),
            Direction::West => (978, 350),
            Direction::East => (0, 315),
            Direction::South => (480, 682),
        },
    }
}

} // verus!
