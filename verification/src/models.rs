//! Entity model: everything tracked in game state has a position, a circular
//! shape and a kind. The concrete radii and speeds are domain data.

use crate::geometry::{in_bounds, Position, Size, Vector, MAX_DIM, MAX_SPEED};
use crate::random::rand_in_range;
use vstd::prelude::*;

verus! {

/// What an entity is; collision eligibility and resolution depend on it.
#[derive(Clone, Copy, PartialEq, Eq, Structural, Debug)]
pub enum EntityKind {
    Player,
    Obstacle,
    Projectile,
}

/// One positioned, shaped object of the world.
#[derive(Clone, Copy, PartialEq, Eq, Structural, Debug)]
pub struct Entity {
    pub kind: EntityKind,
    pub pos: Position,
    pub vel: Vector,
    pub radius: i64,
}

/// Radius of the player's circle, arena units.
pub const PLAYER_RADIUS: i64 = 10;

/// Radius of an obstacle's circle, arena units.
pub const OBSTACLE_RADIUS: i64 = 16;

/// Radius of a projectile's circle, arena units.
pub const PROJECTILE_RADIUS: i64 = 2;

/// Speed of the player, arena units per millisecond of active movement.
pub const PLAYER_SPEED: i64 = 1;

/// Upward speed of a projectile, arena units per millisecond.
pub const PROJECTILE_SPEED: i64 = 2;

impl Entity {
    /// Valid geometry inside arena `s`: position in bounds, radius and
    /// velocity bounded so that all collision and motion arithmetic is exact.
    pub open spec fn wf(self, s: Size) -> bool {
        &&& in_bounds(self.pos, s)
        &&& 0 <= self.radius <= MAX_DIM
        &&& -MAX_SPEED <= self.vel.dx <= MAX_SPEED
        &&& -MAX_SPEED <= self.vel.dy <= MAX_SPEED
    }

    /// The player entity standing at `pos`.
    pub open spec fn player_spec(pos: Position) -> Entity {
        Entity {
            kind: EntityKind::Player,
            pos,
            vel: Vector { dx: 0, dy: 0 },
            radius: PLAYER_RADIUS,
        }
    }

    /// Builds the player entity at `pos`.
    pub fn player(pos: Position) -> (r: Entity)
        ensures
            r == Entity::player_spec(pos),
    {
        Entity { kind: EntityKind::Player, pos, vel: Vector { dx: 0, dy: 0 }, radius: PLAYER_RADIUS }
    }

    /// A projectile fired from `pos`, travelling straight up.
    pub open spec fn projectile_spec(pos: Position) -> Entity {
        Entity {
            kind: EntityKind::Projectile,
            pos,
            vel: Vector { dx: 0, dy: (-PROJECTILE_SPEED) as i64 },
            radius: PROJECTILE_RADIUS,
        }
    }

    /// Builds a projectile fired from `pos`.
    pub fn projectile(pos: Position) -> (r: Entity)
        ensures
            r == Entity::projectile_spec(pos),
    {
        Entity {
            kind: EntityKind::Projectile,
            pos,
            vel: Vector { dx: 0, dy: -PROJECTILE_SPEED },
            radius: PROJECTILE_RADIUS,
        }
    }

    /// Builds a motionless obstacle at `pos`.
    pub fn obstacle(pos: Position) -> (r: Entity)
        ensures
            r == (Entity {
                kind: EntityKind::Obstacle,
                pos,
                vel: Vector { dx: 0, dy: 0 },
                radius: OBSTACLE_RADIUS,
            }),
    {
        Entity {
            kind: EntityKind::Obstacle,
            pos,
            vel: Vector { dx: 0, dy: 0 },
            radius: OBSTACLE_RADIUS,
        }
    }
}

/// An obstacle as randomized spawning produces it: motionless, of the
/// standard radius, its whole circle inside the arena.
pub open spec fn is_spawned_obstacle(e: Entity, s: Size) -> bool {
    &&& e.kind == EntityKind::Obstacle
    &&& e.vel == (Vector { dx: 0, dy: 0 })
    &&& e.radius == OBSTACLE_RADIUS
    &&& OBSTACLE_RADIUS <= e.pos.x <= s.width - OBSTACLE_RADIUS
    &&& OBSTACLE_RADIUS <= e.pos.y <= s.height - OBSTACLE_RADIUS
}

/// Spawns an obstacle at a position drawn from the randomness source; any
/// outcome lies fully inside the arena.
pub(crate) fn spawn_obstacle(s: Size, rng: &mut rand::rngs::ThreadRng) -> (r: Entity)
    requires
        s.wf(),
    ensures
        is_spawned_obstacle(r, s),
{
    let x = rand_in_range(rng, OBSTACLE_RADIUS, s.width - OBSTACLE_RADIUS + 1);
    let y = rand_in_range(rng, OBSTACLE_RADIUS, s.height - OBSTACLE_RADIUS + 1);
    Entity {
        kind: EntityKind::Obstacle,
        pos: Position { x, y },
        vel: Vector { dx: 0, dy: 0 },
        radius: OBSTACLE_RADIUS,
    }
}

} // verus!
