//! The 16-key input device, seen by the core as a fresh snapshot of key
//! states each iteration.

use vstd::prelude::*;

verus! {

pub const NUM_KEYS: usize = 16;

/// The state of one key in an input snapshot.
#[derive(Clone, Copy, PartialEq, Eq, Structural, Debug)]
pub enum KeyState {
    Up,
    Down,
}

/// A snapshot of the whole keypad, indexed by key value 0-F.
pub type Keys = [KeyState; 16];

/// An input collaborator failed or asked to quit.
#[derive(Clone, Copy, PartialEq, Eq, Structural, Debug)]
pub enum PollError {
    Quit,
}

/// An input collaborator: polls the physical device and hands back a fresh
/// snapshot, or an error when the session should end.
pub trait Keyboard {
    fn poll(&mut self) -> Result<Keys, PollError>;
}

/// The lowest key index at or above `i` whose state is down, if any.
pub open spec fn first_down_from(keys: Seq<KeyState>, i: int) -> Option<int>
    decreases NUM_KEYS - i,
{
    if i < 0 || i >= NUM_KEYS {
        None
    } else if keys[i] is Down {
        Some(i)
    } else {
        first_down_from(keys, i + 1)
    }
}

/// The index of the first key that is down, scanning from key 0 upward.
pub fn first_key_down(keys: &Keys) -> (r: Option<usize>)
    ensures
        match r {
            Some(k) => k < NUM_KEYS && first_down_from(keys@, 0) == Some(k as int),
            None => first_down_from(keys@, 0) is None,
        },
{
    let mut i: usize = 0;
    while i < NUM_KEYS
        invariant
            i <= NUM_KEYS,
            first_down_from(keys@, 0) == first_down_from(keys@, i as int),
        decreases NUM_KEYS - i,
    {
        if keys[i] == KeyState::Down {
            return Some(i);
        }
        i += 1;
    }
    None
}

} // verus!
