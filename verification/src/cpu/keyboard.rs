//! The sixteen-key hexadecimal keypad.

use vstd::prelude::*;

verus! {

/// Number of keys on the keypad.
pub const KEY_COUNT: usize = 16;

/// Sixteen independent switches, addressed `0x0` to `0xF`.
pub struct Keyboard {
    keys: [bool; 16],
}

impl View for Keyboard {
    type V = Seq<bool>;

    closed spec fn view(&self) -> Seq<bool> {
        self.keys@
    }
}

impl Keyboard {
    /// A keypad with every key up.
    pub fn new() -> (k: Keyboard)
        ensures
            k@ == all_up(),
    {
        let k = Keyboard { keys: [false; 16] };
        assert(k@ =~= all_up());
        k
    }

    /// Whether key `index` is currently down.
    pub fn key_pressed(&self, index: usize) -> (down: bool)
        requires
            index < KEY_COUNT,
        ensures
            down == self@[index as int],
    {
        self.keys[index]
    }

    /// Records that key `i` went down.
    pub fn key_down(&mut self, i: usize)
        requires
            i < KEY_COUNT,
        ensures
            final(self)@ == old(self)@.update(i as int, true),
    {
        self.keys[i] = true;
    }

    /// Records that key `i` went up.
    pub fn key_up(&mut self, i: usize)
        requires
            i < KEY_COUNT,
        ensures
            final(self)@ == old(self)@.update(i as int, false),
    {
        self.keys[i] = false;
    }

    /// Releases every key.
    pub fn reset(&mut self)
        ensures
            final(self)@ == all_up(),
    {
        self.keys = [false; 16];
        assert(self@ =~= all_up());
    }

    /// The keypad always has sixteen switches.
    pub proof fn lemma_len(&self)
        ensures
            self@.len() == KEY_COUNT,
    {
    }

    /// A snapshot of all sixteen switches, lowest key first.
    pub fn keys(&self) -> (snapshot: [bool; 16])
        ensures
            snapshot@ == self@,
    {
        self.keys
    }
}

/// The keypad state in which no key is down.
pub open spec fn all_up() -> Seq<bool> {
    Seq::new(16, |i: int| false)
}

} // verus!
