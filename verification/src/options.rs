//! The actions a player can select in the interaction loop.

use vstd::prelude::*;

verus! {

/// One turn of the interaction loop: reveal a cell, flag a cell, or quit.
#[derive(Clone, Copy, Debug, PartialEq, Eq, Structural)]
pub enum PlayingOptions {
    Reveal,
    Flag,
    Quit,
}

impl PlayingOptions {
    /// Where this option sits in the fixed Reveal, Flag, Quit menu order.
    pub open spec fn menu_index_spec(self) -> int {
        match self {
            PlayingOptions::Reveal => 0,
            PlayingOptions::Flag => 1,
            PlayingOptions::Quit => 2,
        }
    }

    /// The menu cursor position of this option, used to reopen the prompt
    /// on the previously chosen entry.
    pub fn menu_index(&self) -> (i: usize)
        ensures
            i == self.menu_index_spec(),
    {
        match self {
            PlayingOptions::Reveal => 0,
            PlayingOptions::Flag => 1,
            PlayingOptions::Quit => 2,
        }
    }
}

} // verus!
