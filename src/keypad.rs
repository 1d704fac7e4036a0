use vstd::prelude::*;

verus! {

/// Number of keys on the pad.
pub const KEY_COUNT: usize = 16;

/// The sixteen-key hexadecimal pad; each key is either held down or not.
pub struct Keypad {
    keys: [bool; 16],
}

impl View for Keypad {
    type V = Seq<bool>;

    closed spec fn view(&self) -> Seq<bool> {
        self.keys@
    }
}

/// Whether `key` is held down in the key states `keys`; a key index beyond
/// the pad is never held down.
pub open spec fn key_down(keys: Seq<bool>, key: int) -> bool {
    0 <= key < keys.len() && keys[key]
}

impl Keypad {
    /// A pad with no key held down.
    pub fn new() -> (r: Keypad)
        ensures
            r@.len() == KEY_COUNT,
            forall|k: int| 0 <= k < KEY_COUNT ==> !#[trigger] r@[k],
    {
        Keypad { keys: [false; 16] }
    }

    /// Whether `key` is held down; indices beyond the pad read as released.
    pub fn pressed(&self, key: usize) -> (r: bool)
        ensures
            r == key_down(self@, key as int),
    {
        if key < KEY_COUNT {
            self.keys[key]
        } else {
            false
        }
    }

    /// Records that `key` went down (`state` true) or up (`state` false).
    pub fn press(&mut self, key: usize, state: bool)
        requires
            key < KEY_COUNT,
        ensures
            final(self)@ == old(self)@.update(key as int, state),
    {
        self.keys[key] = state;
    }
}

} // verus!
