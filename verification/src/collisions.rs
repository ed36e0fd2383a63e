//! Collisions controller: a stateless pass over the post-movement entity
//! set, run once per update cycle after time-stepping. Every distinct
//! unordered pair of eligible entities is tested in the collection's stable
//! order — outer index ascending, inner index ascending — and a resolved
//! entity is masked so no later pair re-tests it within the same pass. The
//! whole pass is specified by the ghost fold `collision_pass`, and the law
//! `lemma_no_double_resolution` states that no entity is resolved twice.

use crate::events::Event;
use crate::game_state::GameState;
use crate::geometry::{circles_overlap, overlap_test};
use crate::models::{Entity, EntityKind};
use crate::time::{sat_add_u64, TimeController};
use vstd::prelude::*;

verus! {

broadcast use vstd::string::to_string_from_display_ensures_for_str;

/// Points awarded for destroying an obstacle with a projectile.
pub const SCORE_PER_HIT: u64 = 10;

/// Ghost record of a resolution pass: which entities are already resolved
/// (`mask`), the resolved pairs in the order they fired, the running score,
/// whether a fatal pair fired, and the events appended so far.
pub struct PassState {
    pub mask: Seq<bool>,
    pub pairs: Seq<(int, int)>,
    pub score: int,
    pub fatal: bool,
    pub events: Seq<Event>,
}

/// The kind-based eligibility matrix: the player and projectiles each
/// collide with obstacles; obstacles do not collide with one another, nor
/// projectiles with their own player.
pub open spec fn eligible(a: EntityKind, b: EntityKind) -> bool {
    ||| (a is Player && b is Obstacle)
    ||| (a is Obstacle && b is Player)
    ||| (a is Projectile && b is Obstacle)
    ||| (a is Obstacle && b is Projectile)
}

/// A pair involving the player is fatal: it sets the terminal message.
pub open spec fn pair_fatal(a: EntityKind, b: EntityKind) -> bool {
    a is Player || b is Player
}

/// A pair involving a projectile scores.
pub open spec fn pair_scores(a: EntityKind, b: EntityKind) -> bool {
    a is Projectile || b is Projectile
}

/// Two entities collide when their kinds are eligible and their circles
/// overlap.
pub open spec fn entities_collide(x: Entity, y: Entity) -> bool {
    eligible(x.kind, y.kind) && circles_overlap(x.pos, x.radius as int, y.pos, y.radius as int)
}

/// The events one resolved pair appends, in order.
pub open spec fn pair_events(a: EntityKind, b: EntityKind) -> Seq<Event> {
    if pair_scores(a, b) {
        seq![Event::Collision, Event::ScoreChange]
    } else {
        seq![Event::Collision]
    }
}

/// Pair `(i, j)` fires when neither entity is already resolved and the two
/// collide.
pub open spec fn pair_live(st: PassState, s: Seq<Entity>, i: int, j: int) -> bool {
    !st.mask[i] && !st.mask[j] && entities_collide(s[i], s[j])
}

/// One pair test: on fire, both entities are masked, the pair is recorded,
/// score and fatality are updated and the pair's events are appended.
pub open spec fn resolve_step(st: PassState, s: Seq<Entity>, i: int, j: int) -> PassState {
    if pair_live(st, s, i, j) {
        PassState {
            mask: st.mask.update(i, true).update(j, true),
            pairs: st.pairs.push((i, j)),
            score: if pair_scores(s[i].kind, s[j].kind) {
                sat_add_u64(st.score, SCORE_PER_HIT as int)
            } else {
                st.score
            },
            fatal: st.fatal || pair_fatal(s[i].kind, s[j].kind),
            events: st.events + pair_events(s[i].kind, s[j].kind),
        }
    } else {
        st
    }
}

/// The pass before any pair was tested.
pub open spec fn init_state(s: Seq<Entity>, score0: int) -> PassState {
    PassState {
        mask: Seq::new(s.len(), |k: int| false),
        pairs: Seq::empty(),
        score: score0,
        fatal: false,
        events: Seq::empty(),
    }
}

/// Row `i` after testing the pairs `(i, i+1) .. (i, j-1)`, in order.
pub open spec fn row_steps(s: Seq<Entity>, st: PassState, i: int, j: int) -> PassState
    decreases j - i,
{
    if j <= i + 1 {
        st
    } else {
        resolve_step(row_steps(s, st, i, j - 1), s, i, j - 1)
    }
}

/// The pass after the full rows `0 .. i-1`, each row testing all pairs with
/// a larger second index.
pub open spec fn rows(s: Seq<Entity>, score0: int, i: int) -> PassState
    decreases i,
{
    if i <= 0 {
        init_state(s, score0)
    } else {
        row_steps(s, rows(s, score0, i - 1), i - 1, s.len() as int)
    }
}

/// The complete deterministic resolution pass over `s`, starting from score
/// `score0`.
pub open spec fn collision_pass(s: Seq<Entity>, score0: int) -> PassState {
    rows(s, score0, s.len() as int)
}

/// The entities that remain once the pass ran: a resolved non-player entity
/// is removed; the player always survives (a fatal pair ends the game via
/// the message instead). Relative order is kept.
pub open spec fn surviving_upto(s: Seq<Entity>, mask: Seq<bool>, k: int) -> Seq<Entity>
    decreases k,
{
    if k <= 0 {
        Seq::empty()
    } else {
        let prefix = surviving_upto(s, mask, k - 1);
        if !mask[k - 1] || s[k - 1].kind is Player {
            prefix.push(s[k - 1])
        } else {
            prefix
        }
    }
}

/// All survivors of the pass, in their original order.
pub open spec fn surviving(s: Seq<Entity>, mask: Seq<bool>) -> Seq<Entity> {
    surviving_upto(s, mask, s.len() as int)
}

/// No two pairs share an entity index.
pub open spec fn pairs_disjoint(ps: Seq<(int, int)>) -> bool {
    forall|x: int, y: int|
        0 <= x < y < ps.len() ==> (#[trigger] ps[x]).0 != (#[trigger] ps[y]).0 && ps[x].0
            != ps[y].1 && ps[x].1 != ps[y].0 && ps[x].1 != ps[y].1
}

/// Invariant of the fold: the mask has one flag per entity, every recorded
/// pair is ordered, in range and fully masked, and the pairs are disjoint.
pub open spec fn pass_inv(s: Seq<Entity>, st: PassState) -> bool {
    &&& st.mask.len() == s.len()
    &&& (forall|p: int|
        0 <= p < st.pairs.len() ==> 0 <= (#[trigger] st.pairs[p]).0 < st.pairs[p].1 < s.len()
            && st.mask[st.pairs[p].0] && st.mask[st.pairs[p].1])
    &&& pairs_disjoint(st.pairs)
}

proof fn lemma_resolve_step_inv(st: PassState, s: Seq<Entity>, i: int, j: int)
    requires
        pass_inv(s, st),
        0 <= i < j < s.len(),
    ensures
        pass_inv(s, resolve_step(st, s, i, j)),
{
    if pair_live(st, s, i, j) {
        let st2 = resolve_step(st, s, i, j);
        assert(forall|p: int|
            0 <= p < st.pairs.len() ==> (#[trigger] st.pairs[p]).0 != i && st.pairs[p].0 != j
                && st.pairs[p].1 != i && st.pairs[p].1 != j);
        assert(st2.pairs.last() == (i, j));
        assert(pairs_disjoint(st2.pairs));
    }
}

proof fn lemma_row_steps_inv(s: Seq<Entity>, st: PassState, i: int, j: int)
    requires
        pass_inv(s, st),
        0 <= i < s.len(),
        i + 1 <= j <= s.len(),
    ensures
        pass_inv(s, row_steps(s, st, i, j)),
    decreases j - i,
{
    if j <= i + 1 {
    } else {
        lemma_row_steps_inv(s, st, i, j - 1);
        lemma_resolve_step_inv(row_steps(s, st, i, j - 1), s, i, j - 1);
    }
}

proof fn lemma_rows_inv(s: Seq<Entity>, score0: int, i: int)
    requires
        0 <= i <= s.len(),
    ensures
        pass_inv(s, rows(s, score0, i)),
    decreases i,
{
    if i <= 0 {
    } else {
        lemma_rows_inv(s, score0, i - 1);
        lemma_row_steps_inv(s, rows(s, score0, i - 1), i - 1, s.len() as int);
    }
}

/// Law: within a single resolution pass no entity is resolved by more than
/// one collision. The pairs the pass fires are pairwise disjoint: once a
/// pair resolves an entity, every later pair that mentions it is skipped.
pub proof fn lemma_no_double_resolution(s: Seq<Entity>, score0: int)
    ensures
        pairs_disjoint(collision_pass(s, score0).pairs),
{
    lemma_rows_inv(s, score0, s.len() as int);
}

/// Tests the eligibility matrix.
fn eligible_exec(a: EntityKind, b: EntityKind) -> (r: bool)
    ensures
        r == eligible(a, b),
{
    match (a, b) {
        (EntityKind::Player, EntityKind::Obstacle) => true,
        (EntityKind::Obstacle, EntityKind::Player) => true,
        (EntityKind::Projectile, EntityKind::Obstacle) => true,
        (EntityKind::Obstacle, EntityKind::Projectile) => true,
        _ => false,
    }
}

/// The collisions controller owns no state; the pass is a static operation.
pub struct CollisionsController {}

impl CollisionsController {
    /// Runs one resolution pass over the current entities, exactly as
    /// `collision_pass` describes: pairs are tested in stable order, each
    /// fired pair appends its events, scoring pairs add points
    /// (saturating), a fatal pair sets the terminal message, and resolved
    /// non-player entities are removed. The time controller keeps no
    /// per-entity timers, so it is left untouched; malformed pairs simply
    /// never overlap, and there is no error path.
    pub fn handle_collisions(
        game_state: &mut GameState,
        time_controller: &mut TimeController,
        event_buffer: &mut Vec<Event>,
    )
        requires
            old(game_state).wf(),
        ensures
            final(game_state).wf(),
            final(game_state).size == old(game_state).size,
            *final(time_controller) == *old(time_controller),
            ({
                let pass = collision_pass(
                    old(game_state).entities@,
                    old(game_state).score as int,
                );
                &&& final(game_state).entities@ == surviving(old(game_state).entities@, pass.mask)
                &&& final(game_state).score as int == pass.score
                &&& (pass.fatal ==> (final(game_state).message matches Some(m) && m@
                    == "Game Over"@))
                &&& (!pass.fatal ==> final(game_state).message == old(game_state).message)
                &&& final(event_buffer)@ == old(event_buffer)@ + pass.events
            }),
    {
        let ghost s = game_state.entities@;
        let ghost sz = game_state.size;
        let ghost score0 = game_state.score as int;
        let n = game_state.entities.len();

        let mut mask: Vec<bool> = Vec::new();
        while mask.len() < n
            invariant
                mask.len() <= n,
                mask@ =~= Seq::new(mask.len() as nat, |m: int| false),
            decreases n - mask.len(),
        {
            mask.push(false);
        }
        proof {
            assert(mask@ =~= init_state(s, score0).mask);
            assert(event_buffer@ =~= old(event_buffer)@ + rows(s, score0, 0).events);
        }

        let mut score = game_state.score;
        let mut fatal = false;
        let mut i: usize = 0;
        while i < n
            invariant
                0 <= i <= n,
                n == game_state.entities.len(),
                game_state.wf(),
                game_state.entities@ == s,
                game_state.size == sz,
                score0 == game_state.score as int,
                mask.len() == n,
                ({
                    let st = rows(s, score0, i as int);
                    &&& mask@ == st.mask
                    &&& score as int == st.score
                    &&& fatal == st.fatal
                    &&& event_buffer@ == old(event_buffer)@ + st.events
                }),
            decreases n - i,
        {
            let mut j: usize = i + 1;
            while j < n
                invariant
                    0 <= i < n,
                    i + 1 <= j <= n,
                    n == game_state.entities.len(),
                    game_state.wf(),
                    game_state.entities@ == s,
                    game_state.size == sz,
                    score0 == game_state.score as int,
                    mask.len() == n,
                    ({
                        let st = row_steps(s, rows(s, score0, i as int), i as int, j as int);
                        &&& mask@ == st.mask
                        &&& score as int == st.score
                        &&& fatal == st.fatal
                        &&& event_buffer@ == old(event_buffer)@ + st.events
                    }),
                decreases n - j,
            {
                let ghost st_before = row_steps(s, rows(s, score0, i as int), i as int, j as int);
                if !mask[i] && !mask[j] {
                    let a = game_state.entities[i];
                    let b = game_state.entities[j];
                    if eligible_exec(a.kind, b.kind) && overlap_test(
                        a.pos,
                        a.radius,
                        b.pos,
                        b.radius,
                    ) {
                        mask.set(i, true);
                        mask.set(j, true);
                        event_buffer.push(Event::Collision);
                        if matches!(a.kind, EntityKind::Projectile) || matches!(
                            b.kind,
                            EntityKind::Projectile,
                        ) {
                            event_buffer.push(Event::ScoreChange);
                            score = if score <= u64::MAX - SCORE_PER_HIT {
                                score + SCORE_PER_HIT
                            } else {
                                u64::MAX
                            };
                        }
                        if matches!(a.kind, EntityKind::Player) || matches!(
                            b.kind,
                            EntityKind::Player,
                        ) {
                            fatal = true;
                        }
                        proof {
                            assert(pair_live(st_before, s, i as int, j as int));
                            assert(mask@ =~= st_before.mask.update(i as int, true).update(
                                j as int,
                                true,
                            ));
                            assert(event_buffer@ =~= old(event_buffer)@ + (st_before.events
                                + pair_events(s[i as int].kind, s[j as int].kind)));
                        }
                    } else {
                        proof {
                            assert(!pair_live(st_before, s, i as int, j as int));
                        }
                    }
                } else {
                    proof {
                        assert(!pair_live(st_before, s, i as int, j as int));
                    }
                }
                proof {
                    let st_after = row_steps(
                        s,
                        rows(s, score0, i as int),
                        i as int,
                        (j + 1) as int,
                    );
                    assert(st_after == resolve_step(st_before, s, i as int, j as int));
                }
                j += 1;
            }
            i += 1;
        }
        proof {
            assert(rows(s, score0, n as int) == collision_pass(s, score0));
        }

        let ghost pass = collision_pass(s, score0);
        let mut out: Vec<Entity> = Vec::new();
        let mut k: usize = 0;
        while k < n
            invariant
                0 <= k <= n,
                n == game_state.entities.len(),
                game_state.wf(),
                game_state.entities@ == s,
                game_state.size == sz,
                mask.len() == n,
                mask@ == pass.mask,
                out@ == surviving_upto(s, mask@, k as int),
                forall|m: int| 0 <= m < out.len() ==> (#[trigger] out[m]).wf(sz),
                forall|m: int|
                    1 <= m < out.len() ==> (#[trigger] out[m].kind) != EntityKind::Player,
                k >= 1 ==> out.len() >= 1 && out[0] == s[0],
            decreases n - k,
        {
            let e = game_state.entities[k];
            if !mask[k] || matches!(e.kind, EntityKind::Player) {
                out.push(e);
            }
            k += 1;
        }

        game_state.entities = out;
        game_state.score = score;
        if fatal {
            game_state.message = Some("Game Over".to_string());
        }
    }
}

} // verus!
