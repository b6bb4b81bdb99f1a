//! What the host observes during one frame and hands to the rules.

use vstd::prelude::*;

verus! {

/// The keys that the rules read.
#[derive(Clone, Copy, Debug, PartialEq, Eq, Structural)]
pub enum KeyCode {
    Q,
    R,
    W,
    A,
    S,
    D,
    Up,
    Down,
    Left,
    Right,
}

/// The keyboard as it stands in one frame.
#[derive(Clone, Debug, PartialEq, Eq)]
pub struct KeyboardState {
    /// The keys that are held down.
    pub pressed_keys: Vec<KeyCode>,
    /// The keys that went down in this very frame.
    pub just_pressed_keys: Vec<KeyCode>,
}

impl KeyboardState {
    /// Whether `key` is held down.
    pub open spec fn is_pressed(self, key: KeyCode) -> bool {
        self.pressed_keys@.contains(key)
    }

    /// Whether `key` went down in this frame.
    pub open spec fn is_just_pressed(self, key: KeyCode) -> bool {
        self.just_pressed_keys@.contains(key)
    }

    /// Whether one of the two keys of a group is held down.
    pub open spec fn is_either_pressed(self, primary: KeyCode, alternate: KeyCode) -> bool {
        self.is_pressed(primary) || self.is_pressed(alternate)
    }

    /// A keyboard with no key down.
    pub fn new() -> (keyboard: KeyboardState)
        ensures
            keyboard.pressed_keys@ == Seq::<KeyCode>::empty(),
            keyboard.just_pressed_keys@ == Seq::<KeyCode>::empty(),
    {
        KeyboardState { pressed_keys: Vec::new(), just_pressed_keys: Vec::new() }
    }

    /// Whether `key` is held down.
    pub fn pressed(&self, key: KeyCode) -> (down: bool)
        ensures
            down == self.is_pressed(key),
    {
        holds(&self.pressed_keys, key)
    }

    /// Whether `key` went down in this frame.
    pub fn just_pressed(&self, key: KeyCode) -> (down: bool)
        ensures
            down == self.is_just_pressed(key),
    {
        holds(&self.just_pressed_keys, key)
    }

    /// Whether at least one of `keys` is held down.
    pub fn pressed_any(&self, keys: &[KeyCode]) -> (down: bool)
        ensures
            down == exists|i: int| 0 <= i < keys@.len() && self.is_pressed(#[trigger] keys@[i]),
    {
        let mut i: usize = 0;
        while i < keys.len()
            invariant
                i <= keys@.len(),
                forall|j: int| 0 <= j < i ==> !self.is_pressed(#[trigger] keys@[j]),
            decreases keys@.len() - i,
        {
            if self.pressed(keys[i]) {
                return true;
            }
            i += 1;
        }
        false
    }
}

/// Whether `key` occurs in `keys`.
fn holds(keys: &Vec<KeyCode>, key: KeyCode) -> (found: bool)
    ensures
        found == keys@.contains(key),
{
    let mut i: usize = 0;
    while i < keys.len()
        invariant
            i <= keys@.len(),
            forall|j: int| 0 <= j < i ==> keys@[j] != key,
        decreases keys@.len() - i,
    {
        if keys[i] == key {
            return true;
        }
        i += 1;
    }
    false
}

/// Whether two shapes have started or stopped overlapping.
#[derive(Clone, Copy, Debug, PartialEq, Eq, Structural)]
pub enum CollisionState {
    Begin,
    End,
}

/// The labels of the two sprites of a collision.
#[derive(Clone, Debug, PartialEq, Eq)]
pub struct CollisionPair(pub String, pub String);

/// A change in the overlap of two sprites, as the host detected it.
#[derive(Clone, Debug, PartialEq, Eq)]
pub struct CollisionEvent {
    pub state: CollisionState,
    pub pair: CollisionPair,
}

/// All that the rules read of one frame.
#[derive(Clone, Debug, PartialEq, Eq)]
pub struct FrameInput {
    /// The time since the previous frame, in nanoseconds.
    pub delta_nanos: u64,
    /// The width of the window, in nano-units.
    pub window_width: u64,
    /// The height of the window, in nano-units.
    pub window_height: u64,
    /// The keyboard during this frame.
    pub keyboard_state: KeyboardState,
    /// The collisions detected in this frame, in the order of detection.
    pub collision_events: Vec<CollisionEvent>,
}

} // verus!
