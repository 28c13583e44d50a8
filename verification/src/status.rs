//! The small enumerations that the engine reports to its caller.

use vstd::prelude::*;
use crate::tile::Move;

verus! {

/// Where the outer loop stands.
#[derive(Debug, Clone, Copy, PartialEq, Eq, Structural)]
pub enum GameStatus {
    /// No round has been started.
    Init,
    /// A round is being played.
    OnProgress,
    /// The round is over.
    Over,
}

impl Default for GameStatus {
    fn default() -> (s: GameStatus)
        ensures
            s == GameStatus::Init,
    {
        GameStatus::Init
    }
}

/// Why a round ended.
#[derive(Debug, Clone, Copy, PartialEq, Eq, Structural)]
pub enum GameOverType {
    /// Every player has passed: nobody can move.
    AllPassed,
    /// A player has laid the last tile of their deck.
    DirectWinner,
}

/// What happened in one turn.
#[derive(Debug, Clone, Copy, PartialEq, Eq, Structural)]
pub enum TurnEvent {
    /// The player held no tile that fits and passed.
    Passed,
    /// The player laid the tile at `index` of their deck on `side`.
    Played { index: usize, side: Move },
}

/// Why the human's choice was turned down.
#[derive(Debug, Clone, Copy, PartialEq, Eq, Structural)]
pub enum InputError {
    /// The deck has no tile at the chosen index.
    TileNotFound,
    /// The chosen tile matches neither open end.
    InvalidMove,
    /// The chosen tile fits both ends and the side given is neither of them.
    InvalidSide,
}

/// Who won a round.
#[derive(Debug)]
pub struct Winner {
    /// Why the round ended.
    pub kind: GameOverType,
    /// The winner's place among the players: 0 for the human, 1 to 3 for the
    /// machines.
    pub player: usize,
    /// The name under which the winner is announced.
    pub name: String,
    /// Each player's pips left, in player order, where the round was closed;
    /// empty where a player went out.
    pub dots: Vec<u8>,
}

/// What one step of a round came to.
#[derive(Debug)]
pub struct TurnReport {
    /// What the player to act did.
    pub event: TurnEvent,
    /// The verdict, where the turn ended the round.
    pub over: Option<Winner>,
}

} // verus!
