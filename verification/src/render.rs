use vstd::prelude::*;

use crate::game::MoveValid;

verus! {

/// Commands for the window that shows the game.
#[derive(Debug, Clone, Copy)]
pub enum Render {
    Quit,
    Pause(bool),
    /// note: might be better to rebuild instead
    Reset,
    /// perhaps include the Err results too? for visual feedback
    Animate(MoveValid),
    /// comes from input's drag
    RotateScene((i32, i32)),
}

} // verus!
