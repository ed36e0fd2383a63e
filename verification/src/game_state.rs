//! The authoritative world model: arena size, the active entities, the score
//! and the optional terminal message. Mutated exclusively by the time and
//! collisions controllers; created and reset here.

use crate::geometry::{in_bounds, Position, Size};
use crate::models::{spawn_obstacle, Entity, EntityKind, is_spawned_obstacle};
use vstd::prelude::*;

verus! {

/// How many obstacles a fresh world is seeded with.
pub const INITIAL_OBSTACLES: usize = 2;

/// The world state. Fields are public for read-only consumption by the
/// presentation layer; gameplay mutation routes through the controllers.
pub struct GameState {
    /// Arena bounds; entities live in `[0, width] x [0, height]`.
    pub size: Size,
    /// All active entities. The player is always present, at index 0.
    pub entities: Vec<Entity>,
    /// Points scored so far; saturates instead of overflowing.
    pub score: u64,
    /// Non-empty exactly in a terminal state ("Game Over"); while it is set
    /// the driver suspends updates and awaits a restart.
    pub message: Option<String>,
}

/// The arena's center, where the player starts.
pub open spec fn center_spec(s: Size) -> Position {
    Position { x: (s.width / 2) as i64, y: (s.height / 2) as i64 }
}

impl GameState {
    /// Well-formedness: a valid arena, a unique player at index 0, and valid
    /// geometry for every entity. Constructors establish it; every controller
    /// pass preserves it.
    pub open spec fn wf(self) -> bool {
        &&& self.size.wf()
        &&& self.entities.len() >= 1
        &&& self.entities[0].kind == EntityKind::Player
        &&& (forall|k: int|
            1 <= k < self.entities.len() ==> (#[trigger] self.entities[k].kind)
                != EntityKind::Player)
        &&& (forall|k: int|
            0 <= k < self.entities.len() ==> (#[trigger] self.entities[k]).wf(self.size))
    }

    /// The state a construction or a reset produces: zero score, no message,
    /// the player at the arena center, and the seed obstacles somewhere fully
    /// inside the arena — their placement is the only randomized part.
    pub open spec fn is_initial(self, s: Size) -> bool {
        &&& self.size == s
        &&& self.score == 0
        &&& self.message is None
        &&& self.entities.len() == 1 + INITIAL_OBSTACLES
        &&& self.entities[0] == Entity::player_spec(center_spec(s))
        &&& (forall|k: int|
            1 <= k < self.entities.len() ==> is_spawned_obstacle(
                #[trigger] self.entities[k],
                s,
            ))
    }

    /// Creates a fresh world over arena `size`, placing the seed obstacles
    /// with `rng`. A degenerate arena is refused at this boundary and never
    /// at update time.
    pub fn new(size: Size, rng: &mut rand::rngs::ThreadRng) -> (r: GameState)
        requires
            size.wf(),
        ensures
            r.is_initial(size),
            r.wf(),
    {
        let mut entities: Vec<Entity> = Vec::new();
        entities.push(Entity::player(Position { x: size.width / 2, y: size.height / 2 }));
        entities.push(spawn_obstacle(size, rng));
        entities.push(spawn_obstacle(size, rng));
        let r = GameState { size, entities, score: 0, message: None };
        proof {
            lemma_initial_wf(r, size);
        }
        r
    }

    /// Reinitializes entities, score and message over the same arena, as if
    /// freshly constructed; obstacle placement is drawn anew from `rng`.
    /// The driver must reset the time controller in the same breath.
    pub fn reset(&mut self, rng: &mut rand::rngs::ThreadRng)
        requires
            old(self).size.wf(),
        ensures
            final(self).is_initial(old(self).size),
            final(self).wf(),
    {
        let size = self.size;
        let mut entities: Vec<Entity> = Vec::new();
        entities.push(Entity::player(Position { x: size.width / 2, y: size.height / 2 }));
        entities.push(spawn_obstacle(size, rng));
        entities.push(spawn_obstacle(size, rng));
        self.entities = entities;
        self.score = 0;
        self.message = None;
        proof {
            lemma_initial_wf(*self, size);
        }
    }
}

/// Any initial state over a valid arena is well formed.
pub proof fn lemma_initial_wf(gs: GameState, s: Size)
    requires
        gs.is_initial(s),
        s.wf(),
    ensures
        gs.wf(),
{
}

/// Law: after a reset the game state equals the state immediately after a
/// construction over the same arena, modulo the randomized obstacle
/// placement — score, message, entity count, kinds, shapes and the player's
/// starting entity all agree, and every entity lies inside the arena.
pub proof fn lemma_reset_matches_new(a: GameState, b: GameState, s: Size)
    requires
        a.is_initial(s),
        b.is_initial(s),
        s.wf(),
    ensures
        a.score == b.score,
        a.message == b.message,
        a.entities.len() == b.entities.len(),
        a.entities[0] == b.entities[0],
        forall|k: int|
            0 <= k < a.entities.len() ==> (#[trigger] a.entities[k]).kind == b.entities[k].kind,
        forall|k: int|
            0 <= k < a.entities.len() ==> (#[trigger] a.entities[k]).radius
                == b.entities[k].radius,
        forall|k: int|
            0 <= k < a.entities.len() ==> (#[trigger] a.entities[k]).vel == b.entities[k].vel,
        forall|k: int|
            0 <= k < a.entities.len() ==> in_bounds((#[trigger] a.entities[k]).pos, s)
                && in_bounds(b.entities[k].pos, s),
{
    lemma_initial_wf(a, s);
    lemma_initial_wf(b, s);
}

/// Law: a well-formed state never reports an entity outside the arena
/// rectangle `[0, width] x [0, height]`.
pub proof fn lemma_entities_in_bounds(gs: GameState)
    requires
        gs.wf(),
    ensures
        forall|k: int|
            0 <= k < gs.entities.len() ==> in_bounds((#[trigger] gs.entities[k]).pos, gs.size),
{
}

} // verus!
