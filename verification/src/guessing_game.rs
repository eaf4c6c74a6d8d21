//! A guess held to the game's 1..=100 range by construction.

use vstd::prelude::*;

verus! {

/// A number guessed by the player; always between 1 and 100.
pub struct Guess {
    value: u32,
}

impl Guess {
    /// The guessed number, visible to contracts though the field itself
    /// is not.
    pub closed spec fn spec_value(self) -> u32 {
        self.value
    }

    /// Wrap a guessed number. The game never passes a value outside
    /// 1..=100; callers with unchecked input test the range first.
    pub fn new(value: u32) -> (r: Guess)
        requires
            1 <= value <= 100,
        ensures
            r.spec_value() == value,
    {
        Guess { value }
    }

    /// The guessed number.
    pub fn value(&self) -> (r: u32)
        ensures
            r == self.spec_value(),
    {
        self.value
    }
}

} // verus!
