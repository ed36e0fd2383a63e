//! Input controller: maps raw key press/release notifications into the set
//! of currently-active logical actions. Unrecognized keys are silently
//! ignored; modifiers do not affect the mapping. Repeated presses of an
//! already-held key are idempotent; only a matching release clears it.

use vstd::prelude::*;

verus! {

/// A raw key as the engine reports it. `Other` stands for every key the game
/// does not use.
#[derive(Clone, Copy, PartialEq, Eq, Structural, Debug)]
pub enum Key {
    Left,
    Right,
    Up,
    Down,
    Space,
    Other,
}

/// Modifier state delivered with a key notification. The mapping ignores it;
/// it is carried so the driver can hand notifications through unchanged.
#[derive(Clone, Copy, PartialEq, Eq, Structural, Debug)]
pub struct KeyMods {
    pub shift: bool,
    pub ctrl: bool,
    pub alt: bool,
}

/// One logical gameplay command, decoupled from physical keys.
#[derive(Clone, Copy, PartialEq, Eq, Structural, Debug)]
pub enum Action {
    MoveLeft,
    MoveRight,
    MoveUp,
    MoveDown,
    Fire,
}

/// The set of simultaneously active actions; it has no ordering.
#[derive(Clone, Copy, PartialEq, Eq, Structural, Debug)]
pub struct ActionSet {
    pub left: bool,
    pub right: bool,
    pub up: bool,
    pub down: bool,
    pub fire: bool,
}

impl ActionSet {
    /// Membership of one action in the set.
    pub open spec fn contains(self, a: Action) -> bool {
        match a {
            Action::MoveLeft => self.left,
            Action::MoveRight => self.right,
            Action::MoveUp => self.up,
            Action::MoveDown => self.down,
            Action::Fire => self.fire,
        }
    }

    /// The set with no active action.
    pub open spec fn empty_spec() -> ActionSet {
        ActionSet { left: false, right: false, up: false, down: false, fire: false }
    }

    /// Builds the empty set.
    pub fn empty() -> (r: ActionSet)
        ensures
            r == ActionSet::empty_spec(),
    {
        ActionSet { left: false, right: false, up: false, down: false, fire: false }
    }
}

/// The key-to-action mapping; `None` for keys the game does not use.
pub open spec fn key_action(k: Key) -> Option<Action> {
    match k {
        Key::Left => Some(Action::MoveLeft),
        Key::Right => Some(Action::MoveRight),
        Key::Up => Some(Action::MoveUp),
        Key::Down => Some(Action::MoveDown),
        Key::Space => Some(Action::Fire),
        Key::Other => None,
    }
}

/// `s` with action `a` switched to `held`.
pub open spec fn with_action(s: ActionSet, a: Action, held: bool) -> ActionSet {
    match a {
        Action::MoveLeft => ActionSet { left: held, ..s },
        Action::MoveRight => ActionSet { right: held, ..s },
        Action::MoveUp => ActionSet { up: held, ..s },
        Action::MoveDown => ActionSet { down: held, ..s },
        Action::Fire => ActionSet { fire: held, ..s },
    }
}

/// The active set after a press of `k`.
pub open spec fn press_spec(s: ActionSet, k: Key) -> ActionSet {
    match key_action(k) {
        Some(a) => with_action(s, a, true),
        None => s,
    }
}

/// The active set after a release of `k`.
pub open spec fn release_spec(s: ActionSet, k: Key) -> ActionSet {
    match key_action(k) {
        Some(a) => with_action(s, a, false),
        None => s,
    }
}

/// Tracks which logical actions the player currently holds.
pub struct InputController {
    /// The current snapshot; exposed read-only through `actions()`.
    pub held: ActionSet,
}

impl InputController {
    /// Starts with no action active.
    pub fn new() -> (r: InputController)
        ensures
            r.held == ActionSet::empty_spec(),
    {
        InputController { held: ActionSet::empty() }
    }

    /// Marks the action mapped to `key` as held; unrecognized keys and the
    /// modifier state change nothing.
    pub fn key_press(&mut self, key: Key, mods: KeyMods)
        ensures
            final(self).held == press_spec(old(self).held, key),
    {
        let _ = mods;
        match key {
            Key::Left => self.held.left = true,
            Key::Right => self.held.right = true,
            Key::Up => self.held.up = true,
            Key::Down => self.held.down = true,
            Key::Space => self.held.fire = true,
            Key::Other => (),
        }
    }

    /// Clears the action mapped to `key`; unrecognized keys and the modifier
    /// state change nothing.
    pub fn key_release(&mut self, key: Key, mods: KeyMods)
        ensures
            final(self).held == release_spec(old(self).held, key),
    {
        let _ = mods;
        match key {
            Key::Left => self.held.left = false,
            Key::Right => self.held.right = false,
            Key::Up => self.held.up = false,
            Key::Down => self.held.down = false,
            Key::Space => self.held.fire = false,
            Key::Other => (),
        }
    }

    /// A read-only snapshot of the currently active actions at call time.
    pub fn actions(&self) -> (r: ActionSet)
        ensures
            r == self.held,
    {
        self.held
    }
}

/// Law: a press of `key` followed immediately by its release restores the
/// active set, provided the key's action was not already held before the
/// press (a release always clears the action, also one held beforehand).
pub proof fn lemma_press_release_restores(s: ActionSet, key: Key)
    requires
        match key_action(key) {
            Some(a) => !s.contains(a),
            None => true,
        },
    ensures
        release_spec(press_spec(s, key), key) == s,
{
}

/// Law: pressing a key whose action is already held changes nothing — a
/// repeated press never toggles the action off.
pub proof fn lemma_press_idempotent(s: ActionSet, key: Key)
    ensures
        press_spec(press_spec(s, key), key) == press_spec(s, key),
{
}

} // verus!
