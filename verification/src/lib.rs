//! The game of chess: move rules for every piece, a board that plays moves
//! and detects checks, and the messages and game registry of the network play.

use vstd::prelude::*;

pub mod game;
pub mod logic;
pub mod network;
pub mod render;
pub mod rules;

pub use game::{Game, MoveIllegal, MoveValid};
pub use logic::{Item, MoveType, Player};
pub use network::{Comm, Games};
pub use render::Render;

verus! {

/// A square of the board: (row, column), both counted from 0.
pub type Position = (i8, i8);

/// A move from one square to another.
pub type Move = (Position, Position);

/// A captured piece and the square it stood on.
pub type Capture = (Player, Position);

/// The board, indexed by row and then by column.
pub type BoardLayout = [[Option<Player>; 8]; 8];

/// Columns in algebraic notation: `A` is column 0, `H` is column 7.
#[derive(Debug, Clone, Copy, PartialEq, Eq, Structural)]
pub enum AN {
    A,
    B,
    C,
    D,
    E,
    F,
    G,
    H,
}

/// A square in algebraic notation: a column letter and a rank from 1 to 8.
pub type ANPosition = (AN, i8);

/// The column that a letter of algebraic notation names.
pub open spec fn an_column(c: AN) -> i8 {
    match c {
        AN::A => 0,
        AN::B => 1,
        AN::C => 2,
        AN::D => 3,
        AN::E => 4,
        AN::F => 5,
        AN::G => 6,
        AN::H => 7,
    }
}

/// The board square that a square in algebraic notation names: rank `n` is row `n - 1`.
pub open spec fn an_position(p: ANPosition) -> Position {
    ((p.1 - 1) as i8, an_column(p.0))
}

impl AN {
    /// The column index of this letter.
    pub fn column(&self) -> (r: i8)
        ensures
            r == an_column(*self),
    {
        match self {
            AN::A => 0,
            AN::B => 1,
            AN::C => 2,
            AN::D => 3,
            AN::E => 4,
            AN::F => 5,
            AN::G => 6,
            AN::H => 7,
        }
    }
}

/// Each letter names its own column of the board: the columns lie in 0..8
/// and different letters name different columns.
pub proof fn lemma_an_columns(a: AN, b: AN)
    ensures
        0 <= an_column(a) < 8,
        a != b ==> an_column(a) != an_column(b),
{
}

} // verus!
