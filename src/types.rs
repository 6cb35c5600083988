use vstd::prelude::*;

verus! {

/// The six games a room can be created for.
#[derive(Debug, Clone, Copy, PartialEq, Eq, Structural, Default)]
pub enum GameType {
    #[default]
    Chess,
    ConnectFour,
    Reversi,
    Gomoku,
    Battleship,
    Mancala,
}

/// A seat in a room: the host is `One`, the joiner `Two`.
#[derive(Debug, Clone, Copy, PartialEq, Eq, Structural, Default)]
pub enum Player {
    #[default]
    One,
    Two,
}

impl Player {
    pub open spec fn spec_other(self) -> Player {
        match self {
            Player::One => Player::Two,
            Player::Two => Player::One,
        }
    }

    pub open spec fn spec_index(self) -> nat {
        match self {
            Player::One => 0,
            Player::Two => 1,
        }
    }

    /// The opposing seat.
    pub fn other(&self) -> (r: Player)
        ensures
            r == self.spec_other(),
            r != *self,
    {
        match self {
            Player::One => Player::Two,
            Player::Two => Player::One,
        }
    }

    /// Zero-based seat number.
    pub fn index(&self) -> (r: usize)
        ensures
            r == self.spec_index(),
    {
        match self {
            Player::One => 0,
            Player::Two => 1,
        }
    }
}

/// Lifecycle of a room.
#[derive(Debug, Clone, Copy, PartialEq, Eq, Structural, Default)]
pub enum GameStatus {
    #[default]
    WaitingForPlayer,
    /// Active gameplay
    InProgress,
    /// Game ended with a winner
    Finished,
    /// Game ended in a draw
    Draw,
    /// A player forfeited
    Forfeited,
    /// A player left without finishing
    Abandoned,
}

/// Move payload shared by all games: `primary` is a column, cell or pit
/// index (or -1 for a Reversi pass); `secondary` carries a UCI chess move or
/// a Battleship fleet layout.
#[derive(Debug, Clone)]
pub struct MoveData {
    pub primary: i32,
    pub secondary: Option<String>,
}

/// One cell of a Connect Four grid.
#[derive(Debug, Clone, Copy, PartialEq, Eq, Structural, Default)]
pub struct Cell {
    pub player: Option<Player>,
}

} // verus!
