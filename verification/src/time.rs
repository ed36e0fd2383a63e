//! Time controller: the time-stepped update driver. One call advances the
//! simulation by a delta in milliseconds: it moves the player by the active
//! actions, moves projectiles and despawns those that leave the arena, clamps
//! everything to arena bounds, fires and spawns on timer expiry, and appends
//! the resulting events in chronological order.
//!
//! The obstacle spawn draws its position from the randomness source; it is
//! the only non-deterministic step, and the contract states what holds of
//! every outcome.

use crate::events::Event;
use crate::game_state::GameState;
use crate::geometry::{clamp_i128, clamp_spec, in_bounds, Position, Size};
use crate::input::ActionSet;
use crate::models::{spawn_obstacle, Entity, EntityKind, is_spawned_obstacle, PLAYER_SPEED};
use vstd::prelude::*;

verus! {

/// Milliseconds between two obstacle spawns; at most one obstacle spawns per
/// update, and the countdown restarts in full after a spawn.
pub const SPAWN_INTERVAL_MS: u64 = 2500;

/// Milliseconds the trigger needs between two projectiles.
pub const FIRE_INTERVAL_MS: u64 = 250;

/// Accumulated simulation time and the spawn/fire countdowns. `reset` returns
/// every field to its initial value; it does not touch game state, and the
/// driver must reset both together.
#[derive(Clone, Copy, PartialEq, Eq, Structural, Debug)]
pub struct TimeController {
    /// False until the first update after a construction or reset has run;
    /// that update appends exactly one `GameStart` event.
    pub started: bool,
    /// Total simulated milliseconds, saturating at the type's maximum.
    pub game_time_ms: u64,
    /// Milliseconds until the next obstacle spawn.
    pub spawn_countdown_ms: u64,
    /// Milliseconds until the trigger is ready; zero means ready.
    pub fire_countdown_ms: u64,
}

/// Saturating addition on the value range of `u64`.
pub open spec fn sat_add_u64(a: int, b: int) -> int {
    if a + b > u64::MAX {
        u64::MAX as int
    } else {
        a + b
    }
}

/// Subtraction floored at zero.
pub open spec fn sat_sub(a: int, b: int) -> int {
    if a >= b {
        a - b
    } else {
        0
    }
}

/// Signed horizontal displacement of the player over `d` milliseconds:
/// opposed or absent actions cancel out.
pub open spec fn player_dx(a: ActionSet, d: int) -> int {
    if a.right && !a.left {
        PLAYER_SPEED * d
    } else if a.left && !a.right {
        -(PLAYER_SPEED * d)
    } else {
        0
    }
}

/// Signed vertical displacement of the player over `d` milliseconds
/// (positive is down); opposed or absent actions cancel out.
pub open spec fn player_dy(a: ActionSet, d: int) -> int {
    if a.down && !a.up {
        PLAYER_SPEED * d
    } else if a.up && !a.down {
        -(PLAYER_SPEED * d)
    } else {
        0
    }
}

/// The player moved by the actions over `d` milliseconds and clamped to the
/// arena; clamping is a hard constraint, never an error.
pub open spec fn moved_player(e: Entity, a: ActionSet, d: int, s: Size) -> Entity {
    Entity {
        pos: Position {
            x: clamp_spec(e.pos.x + player_dx(a, d), 0, s.width as int) as i64,
            y: clamp_spec(e.pos.y + player_dy(a, d), 0, s.height as int) as i64,
        },
        ..e
    }
}

/// Unclamped horizontal position of a projectile after `d` milliseconds.
pub open spec fn proj_x(e: Entity, d: int) -> int {
    e.pos.x + e.vel.dx * d
}

/// Unclamped vertical position of a projectile after `d` milliseconds.
pub open spec fn proj_y(e: Entity, d: int) -> int {
    e.pos.y + e.vel.dy * d
}

/// A projectile stays alive when its straight-line motion keeps it inside
/// the arena; one that reaches the boundary despawns.
pub open spec fn projectile_survives(e: Entity, d: int, s: Size) -> bool {
    0 <= proj_x(e, d) <= s.width && 0 <= proj_y(e, d) <= s.height
}

/// The projectile after `d` milliseconds of motion; meaningful only when it
/// survives, so the coordinates are exact.
pub open spec fn moved_projectile(e: Entity, d: int) -> Entity {
    Entity { pos: Position { x: proj_x(e, d) as i64, y: proj_y(e, d) as i64 }, ..e }
}

/// The non-player entities after `d` milliseconds: obstacles stand still,
/// projectiles move and despawn at the boundary; relative order is kept.
pub open spec fn stepped_rest(rest: Seq<Entity>, d: int, s: Size) -> Seq<Entity>
    decreases rest.len(),
{
    if rest.len() == 0 {
        Seq::empty()
    } else {
        let prefix = stepped_rest(rest.drop_last(), d, s);
        let e = rest.last();
        if e.kind is Projectile {
            if projectile_survives(e, d, s) {
                prefix.push(moved_projectile(e, d))
            } else {
                prefix
            }
        } else {
            prefix.push(e)
        }
    }
}

/// The whole entity collection after `d` milliseconds of pure motion: the
/// player (index 0) moved by the actions, the rest stepped in order.
pub open spec fn stepped_entities(ents: Seq<Entity>, a: ActionSet, d: int, s: Size) -> Seq<
    Entity,
> {
    seq![moved_player(ents[0], a, d, s)] + stepped_rest(
        ents.subrange(1, ents.len() as int),
        d,
        s,
    )
}

/// The events one update appends: `GameStart` on the first update after a
/// construction or a reset, nothing afterwards (collision events belong to
/// the collisions pass).
pub open spec fn update_events(t: TimeController) -> Seq<Event> {
    if t.started {
        Seq::empty()
    } else {
        seq![Event::GameStart]
    }
}

/// Whether this update fires a projectile: the fire action is active and the
/// trigger countdown expires within the delta.
pub open spec fn fire_ready(t: TimeController, a: ActionSet, d: int) -> bool {
    a.fire && t.fire_countdown_ms <= d
}

/// Whether this update spawns an obstacle: the spawn countdown expires
/// within the delta.
pub open spec fn spawn_due(t: TimeController, d: int) -> bool {
    t.spawn_countdown_ms <= d
}

/// The deterministic part of one update's entity outcome: pure motion, plus
/// the newly fired projectile at the moved player's position if the trigger
/// fired. A spawned obstacle, if due, is appended after this.
pub open spec fn post_motion_entities(
    t: TimeController,
    ents: Seq<Entity>,
    a: ActionSet,
    d: int,
    s: Size,
) -> Seq<Entity> {
    let base = stepped_entities(ents, a, d, s);
    if fire_ready(t, a, d) {
        base.push(Entity::projectile_spec(moved_player(ents[0], a, d, s).pos))
    } else {
        base
    }
}

/// Moves the player exactly as `moved_player` describes.
fn move_player_exec(e: Entity, a: ActionSet, delta_ms: u64, s: Size) -> (r: Entity)
    requires
        e.wf(s),
        s.wf(),
    ensures
        r == moved_player(e, a, delta_ms as int, s),
        r.wf(s),
        r.kind == e.kind,
{
    let step: i128 = (PLAYER_SPEED as i128) * (delta_ms as i128);
    let mx: i128 = if a.right && !a.left {
        step
    } else if a.left && !a.right {
        -step
    } else {
        0
    };
    let my: i128 = if a.down && !a.up {
        step
    } else if a.up && !a.down {
        -step
    } else {
        0
    };
    proof {
        assert(mx == player_dx(a, delta_ms as int));
        assert(my == player_dy(a, delta_ms as int));
    }
    let nx = clamp_i128(e.pos.x as i128 + mx, 0, s.width as i128);
    let ny = clamp_i128(e.pos.y as i128 + my, 0, s.height as i128);
    Entity { pos: Position { x: nx as i64, y: ny as i64 }, ..e }
}

/// Moves a projectile; returns `None` when it reaches the arena boundary and
/// despawns.
fn move_projectile_exec(e: Entity, delta_ms: u64, s: Size) -> (r: Option<Entity>)
    requires
        e.wf(s),
        s.wf(),
    ensures
        projectile_survives(e, delta_ms as int, s) ==> r == Some(
            moved_projectile(e, delta_ms as int),
        ),
        !projectile_survives(e, delta_ms as int, s) ==> r is None,
        r matches Some(en) ==> en.wf(s) && en.kind == e.kind,
{
    let d: i128 = delta_ms as i128;
    proof {
        assert((e.vel.dx as i128) * d <= 0x100000i128 * 0x10000000000000000i128 && (e.vel.dx
            as i128) * d >= -(0x100000i128 * 0x10000000000000000i128)) by (nonlinear_arith)
            requires
                -0x100000 <= e.vel.dx as i128 <= 0x100000,
                0 <= d <= 0x10000000000000000i128,
        ;
        assert((e.vel.dy as i128) * d <= 0x100000i128 * 0x10000000000000000i128 && (e.vel.dy
            as i128) * d >= -(0x100000i128 * 0x10000000000000000i128)) by (nonlinear_arith)
            requires
                -0x100000 <= e.vel.dy as i128 <= 0x100000,
                0 <= d <= 0x10000000000000000i128,
        ;
    }
    let nx: i128 = e.pos.x as i128 + (e.vel.dx as i128) * d;
    let ny: i128 = e.pos.y as i128 + (e.vel.dy as i128) * d;
    if 0 <= nx && nx <= s.width as i128 && 0 <= ny && ny <= s.height as i128 {
        Some(Entity { pos: Position { x: nx as i64, y: ny as i64 }, ..e })
    } else {
        None
    }
}

impl TimeController {
    /// The state of a fresh controller: not started, no accumulated time,
    /// full spawn countdown, trigger ready.
    pub open spec fn initial() -> TimeController {
        TimeController {
            started: false,
            game_time_ms: 0,
            spawn_countdown_ms: SPAWN_INTERVAL_MS,
            fire_countdown_ms: 0,
        }
    }

    /// Creates a controller in the initial state.
    pub fn new() -> (r: TimeController)
        ensures
            r == TimeController::initial(),
    {
        TimeController {
            started: false,
            game_time_ms: 0,
            spawn_countdown_ms: SPAWN_INTERVAL_MS,
            fire_countdown_ms: 0,
        }
    }

    /// Zeroes the accumulated timers back to the initial state. Game state
    /// is reset separately; the driver must invoke the two resets together.
    pub fn reset(&mut self)
        ensures
            *final(self) == TimeController::initial(),
    {
        self.started = false;
        self.game_time_ms = 0;
        self.spawn_countdown_ms = SPAWN_INTERVAL_MS;
        self.fire_countdown_ms = 0;
    }

    /// Advances the simulation by `delta_ms` milliseconds of the external
    /// clock. In order: appends `GameStart` if this is the first update since
    /// construction or reset; moves the player by the active actions and
    /// clamps to the arena; moves projectiles and despawns those that reach
    /// the boundary; fires a projectile if the trigger is held and ready;
    /// spawns an obstacle at a random position if the spawn countdown
    /// expired. Score and message are not touched here.
    pub fn update_seconds(
        &mut self,
        delta_ms: u64,
        actions: ActionSet,
        game_state: &mut GameState,
        event_buffer: &mut Vec<Event>,
        rng: &mut rand::rngs::ThreadRng,
    )
        requires
            old(game_state).wf(),
        ensures
            final(game_state).wf(),
            final(game_state).size == old(game_state).size,
            final(game_state).score == old(game_state).score,
            final(game_state).message == old(game_state).message,
            final(self).started,
            final(self).game_time_ms as int == sat_add_u64(
                old(self).game_time_ms as int,
                delta_ms as int,
            ),
            final(self).spawn_countdown_ms as int == (if spawn_due(*old(self), delta_ms as int) {
                SPAWN_INTERVAL_MS as int
            } else {
                old(self).spawn_countdown_ms - delta_ms
            }),
            final(self).fire_countdown_ms as int == (if fire_ready(
                *old(self),
                actions,
                delta_ms as int,
            ) {
                FIRE_INTERVAL_MS as int
            } else {
                sat_sub(old(self).fire_countdown_ms as int, delta_ms as int)
            }),
            final(event_buffer)@ == old(event_buffer)@ + update_events(*old(self)),
            ({
                let base = post_motion_entities(
                    *old(self),
                    old(game_state).entities@,
                    actions,
                    delta_ms as int,
                    old(game_state).size,
                );
                if spawn_due(*old(self), delta_ms as int) {
                    exists|ob: Entity|
                        #[trigger] is_spawned_obstacle(ob, old(game_state).size)
                            && final(game_state).entities@ == base.push(ob)
                } else {
                    final(game_state).entities@ == base
                }
            }),
    {
        let ghost t0 = *self;
        let ghost s0 = game_state.entities@;
        let ghost sz = game_state.size;
        let ghost d = delta_ms as int;

        if !self.started {
            event_buffer.push(Event::GameStart);
            self.started = true;
        }
        self.game_time_ms = if self.game_time_ms <= u64::MAX - delta_ms {
            self.game_time_ms + delta_ms
        } else {
            u64::MAX
        };

        let n = game_state.entities.len();
        let moved = move_player_exec(game_state.entities[0], actions, delta_ms, game_state.size);
        let mut out: Vec<Entity> = Vec::new();
        out.push(moved);
        let mut k: usize = 1;
        proof {
            assert(s0.subrange(1, 1).len() == 0);
            assert(out@ =~= seq![moved] + stepped_rest(s0.subrange(1, 1), d, sz));
        }
        while k < n
            invariant
                1 <= k <= n,
                n == game_state.entities.len(),
                d == delta_ms as int,
                game_state.wf(),
                game_state.entities@ == s0,
                game_state.size == sz,
                moved == moved_player(s0[0], actions, d, sz),
                out@ == seq![moved] + stepped_rest(s0.subrange(1, k as int), d, sz),
                out.len() >= 1,
                forall|m: int| 0 <= m < out.len() ==> (#[trigger] out[m]).wf(sz),
                forall|m: int|
                    1 <= m < out.len() ==> (#[trigger] out[m].kind) != EntityKind::Player,
                out[0].kind == s0[0].kind,
            decreases n - k,
        {
            let e = game_state.entities[k];
            proof {
                let r1 = s0.subrange(1, (k + 1) as int);
                assert(r1.len() == k as int);
                assert(r1.drop_last() =~= s0.subrange(1, k as int));
                assert(r1.last() == e);
                assert(stepped_rest(r1, d, sz) == (if e.kind is Projectile {
                    if projectile_survives(e, d, sz) {
                        stepped_rest(s0.subrange(1, k as int), d, sz).push(moved_projectile(e, d))
                    } else {
                        stepped_rest(s0.subrange(1, k as int), d, sz)
                    }
                } else {
                    stepped_rest(s0.subrange(1, k as int), d, sz).push(e)
                }));
            }
            let ghost pre = stepped_rest(s0.subrange(1, k as int), d, sz);
            if matches!(e.kind, EntityKind::Projectile) {
                let stepped = move_projectile_exec(e, delta_ms, game_state.size);
                match stepped {
                    Some(en) => {
                        proof {
                            assert(projectile_survives(e, d, sz));
                            assert(en == moved_projectile(e, d));
                        }
                        out.push(en);
                        proof {
                            assert(out@ =~= seq![moved] + pre.push(moved_projectile(e, d)));
                        }
                    },
                    None => {
                        proof {
                            assert(!projectile_survives(e, d, sz));
                            assert(out@ == seq![moved] + pre);
                        }
                    },
                }
            } else {
                out.push(e);
                proof {
                    assert(out@ =~= seq![moved] + pre.push(e));
                }
            }
            proof {
                assert(out@ =~= seq![moved] + stepped_rest(
                    s0.subrange(1, (k + 1) as int),
                    d,
                    sz,
                ));
            }
            k += 1;
        }
        proof {
            assert(s0.subrange(1, n as int) =~= s0.subrange(1, s0.len() as int));
            assert(out@ == stepped_entities(s0, actions, d, sz));
        }

        let fired = actions.fire && self.fire_countdown_ms <= delta_ms;
        if fired {
            out.push(Entity::projectile(moved.pos));
            self.fire_countdown_ms = FIRE_INTERVAL_MS;
        } else {
            self.fire_countdown_ms = if self.fire_countdown_ms >= delta_ms {
                self.fire_countdown_ms - delta_ms
            } else {
                0
            };
        }
        proof {
            assert(out@ == post_motion_entities(t0, s0, actions, d, sz));
        }

        if self.spawn_countdown_ms <= delta_ms {
            let ob = spawn_obstacle(game_state.size, rng);
            out.push(ob);
            self.spawn_countdown_ms = SPAWN_INTERVAL_MS;
            proof {
                assert(is_spawned_obstacle(ob, sz) && out@ == post_motion_entities(
                    t0,
                    s0,
                    actions,
                    d,
                    sz,
                ).push(ob));
            }
        } else {
            self.spawn_countdown_ms = self.spawn_countdown_ms - delta_ms;
        }
        game_state.entities = out;
    }
}

/// Law: the controller `new` builds — and `reset` restores, by their
/// postconditions — has not started, so its next update appends exactly one
/// `GameStart` event to the buffer; every update after that appends none.
pub proof fn lemma_game_start_exactly_once(t: TimeController)
    ensures
        !TimeController::initial().started,
        !t.started ==> update_events(t) == seq![Event::GameStart],
        t.started ==> update_events(t) == Seq::<Event>::empty(),
{
}

/// Displacements over two deltas add up to the displacement over their sum.
proof fn lemma_displacement_additive(a: ActionSet, d1: int, d2: int)
    ensures
        player_dx(a, d1) + player_dx(a, d2) == player_dx(a, d1 + d2),
        player_dy(a, d1) + player_dy(a, d2) == player_dy(a, d1 + d2),
{
    assert(PLAYER_SPEED * d1 + PLAYER_SPEED * d2 == PLAYER_SPEED * (d1 + d2))
        by (nonlinear_arith);
}

/// Motion along one axis at constant speed composes exactly when the
/// endpoint of the combined motion stays inside `[0, hi]`: the intermediate
/// point then lies inside as well, so no clamp engages.
proof fn lemma_axis_composes(x: int, v: int, d1: int, d2: int, hi: int)
    requires
        0 <= d1,
        0 <= d2,
        0 <= x <= hi,
        0 <= x + v * (d1 + d2) <= hi,
    ensures
        0 <= x + v * d1 <= hi,
        clamp_spec(x + v * d1, 0, hi) == x + v * d1,
        (x + v * d1) + v * d2 == x + v * (d1 + d2),
{
    assert(0 <= x + v * d1 <= hi && v * d1 + v * d2 == v * (d1 + d2)) by (nonlinear_arith)
        requires
            0 <= d1,
            0 <= d2,
            0 <= x <= hi,
            0 <= x + v * (d1 + d2) <= hi,
    ;
}

/// The player's clamped move composes over `d1` then `d2` when the combined
/// unclamped endpoint stays inside the arena.
proof fn lemma_player_composes(e: Entity, a: ActionSet, s: Size, d1: int, d2: int)
    requires
        0 <= d1,
        0 <= d2,
        in_bounds(e.pos, s),
        0 <= e.pos.x + player_dx(a, d1 + d2) <= s.width,
        0 <= e.pos.y + player_dy(a, d1 + d2) <= s.height,
    ensures
        moved_player(moved_player(e, a, d1, s), a, d2, s) == moved_player(e, a, d1 + d2, s),
{
    lemma_displacement_additive(a, d1, d2);
    let vx: int = if a.right && !a.left {
        PLAYER_SPEED as int
    } else if a.left && !a.right {
        -(PLAYER_SPEED as int)
    } else {
        0
    };
    let vy: int = if a.down && !a.up {
        PLAYER_SPEED as int
    } else if a.up && !a.down {
        -(PLAYER_SPEED as int)
    } else {
        0
    };
    assert((-(PLAYER_SPEED as int)) * d1 == -((PLAYER_SPEED as int) * d1) && (-(PLAYER_SPEED
        as int)) * d2 == -((PLAYER_SPEED as int) * d2) && (-(PLAYER_SPEED as int)) * (d1 + d2)
        == -((PLAYER_SPEED as int) * (d1 + d2))) by (nonlinear_arith);
    assert(player_dx(a, d1) == vx * d1 && player_dx(a, d2) == vx * d2 && player_dx(a, d1 + d2)
        == vx * (d1 + d2));
    assert(player_dy(a, d1) == vy * d1 && player_dy(a, d2) == vy * d2 && player_dy(a, d1 + d2)
        == vy * (d1 + d2));
    lemma_axis_composes(e.pos.x as int, vx, d1, d2, s.width as int);
    lemma_axis_composes(e.pos.y as int, vy, d1, d2, s.height as int);
}

/// The non-player step composes over `d1` then `d2` when every projectile's
/// combined motion keeps it inside the arena (none despawns in between).
proof fn lemma_rest_composes(rest: Seq<Entity>, s: Size, d1: int, d2: int)
    requires
        0 <= d1,
        0 <= d2,
        forall|k: int|
            0 <= k < rest.len() && (#[trigger] rest[k]).kind is Projectile ==> in_bounds(
                rest[k].pos,
                s,
            ) && projectile_survives(rest[k], d1 + d2, s),
    ensures
        stepped_rest(stepped_rest(rest, d1, s), d2, s) == stepped_rest(rest, d1 + d2, s),
    decreases rest.len(),
{
    if rest.len() == 0 {
    } else {
        let pre = rest.drop_last();
        let e = rest.last();
        lemma_rest_composes(pre, s, d1, d2);
        let x1 = stepped_rest(pre, d1, s);
        if e.kind is Projectile {
            assert(in_bounds(e.pos, s) && projectile_survives(e, d1 + d2, s));
            assert(0 <= e.pos.x + e.vel.dx * d1 <= s.width && (e.pos.x + e.vel.dx * d1)
                + e.vel.dx * d2 == e.pos.x + e.vel.dx * (d1 + d2)) by (nonlinear_arith)
                requires
                    0 <= d1,
                    0 <= d2,
                    0 <= e.pos.x <= s.width,
                    0 <= e.pos.x + e.vel.dx * (d1 + d2) <= s.width,
            ;
            assert(0 <= e.pos.y + e.vel.dy * d1 <= s.height && (e.pos.y + e.vel.dy * d1)
                + e.vel.dy * d2 == e.pos.y + e.vel.dy * (d1 + d2)) by (nonlinear_arith)
                requires
                    0 <= d1,
                    0 <= d2,
                    0 <= e.pos.y <= s.height,
                    0 <= e.pos.y + e.vel.dy * (d1 + d2) <= s.height,
            ;
            let e1 = moved_projectile(e, d1);
            assert(e1.pos.x == e.pos.x + e.vel.dx * d1 && e1.pos.y == e.pos.y + e.vel.dy * d1);
            assert(projectile_survives(e, d1, s));
            assert(projectile_survives(e1, d2, s));
            assert(moved_projectile(e1, d2) == moved_projectile(e, d1 + d2));
            assert(stepped_rest(rest, d1, s) == x1.push(e1));
            assert(x1.push(e1).drop_last() =~= x1);
            assert(x1.push(e1).last() == e1);
            assert(stepped_rest(x1.push(e1), d2, s) == stepped_rest(x1, d2, s).push(
                moved_projectile(e1, d2),
            ));
        } else {
            assert(stepped_rest(rest, d1, s) == x1.push(e));
            assert(x1.push(e).drop_last() =~= x1);
            assert(x1.push(e).last() == e);
            assert(stepped_rest(x1.push(e), d2, s) == stepped_rest(x1, d2, s).push(e));
        }
    }
}

/// Law: pure motion composes. Applying the step for `d1` and then for `d2`
/// to the same starting entities yields exactly the entity positions of one
/// step over `d1 + d2`, for any update that crosses no boundary: the
/// player's combined move stays inside the arena (no clamp engages) and no
/// projectile despawns within the combined delta. Fire and spawn timers are
/// outside this statement; `update_seconds` relates to `stepped_entities`
/// through its postcondition.
pub proof fn lemma_motion_composes(ents: Seq<Entity>, a: ActionSet, s: Size, d1: int, d2: int)
    requires
        0 <= d1,
        0 <= d2,
        ents.len() >= 1,
        in_bounds(ents[0].pos, s),
        0 <= ents[0].pos.x + player_dx(a, d1 + d2) <= s.width,
        0 <= ents[0].pos.y + player_dy(a, d1 + d2) <= s.height,
        forall|k: int|
            1 <= k < ents.len() && (#[trigger] ents[k]).kind is Projectile ==> in_bounds(
                ents[k].pos,
                s,
            ) && projectile_survives(ents[k], d1 + d2, s),
    ensures
        stepped_entities(stepped_entities(ents, a, d1, s), a, d2, s) == stepped_entities(
            ents,
            a,
            d1 + d2,
            s,
        ),
{
    let rest = ents.subrange(1, ents.len() as int);
    assert(forall|k: int|
        0 <= k < rest.len() && (#[trigger] rest[k]).kind is Projectile ==> in_bounds(
            rest[k].pos,
            s,
        ) && projectile_survives(rest[k], d1 + d2, s));
    lemma_player_composes(ents[0], a, s, d1, d2);
    lemma_rest_composes(rest, s, d1, d2);
    let inner = stepped_entities(ents, a, d1, s);
    assert(inner[0] == moved_player(ents[0], a, d1, s));
    assert(inner.subrange(1, inner.len() as int) =~= stepped_rest(rest, d1, s));
    assert(moved_player(inner[0], a, d2, s) == moved_player(ents[0], a, d1 + d2, s));
    assert(stepped_rest(inner.subrange(1, inner.len() as int), d2, s) == stepped_rest(
        rest,
        d1 + d2,
        s,
    ));
    assert(stepped_entities(inner, a, d2, s) =~= stepped_entities(ents, a, d1 + d2, s));
}

} // verus!
