//! A turn-based double-six dominoes engine for one human and three automated
//! players: dealing, move legality, board placement, turn sequencing and
//! winner resolution, each with a machine-checked contract.

pub mod tile;
pub mod board;
pub mod status;
pub mod pool;
pub mod round;
pub mod conserve;
pub mod random;
pub mod game;
pub mod deal;
pub mod judge;
pub mod controller;

pub use controller::{run_init, run_over, run_play};
pub use game::Game;
pub use status::{GameOverType, GameStatus, InputError, TurnEvent, TurnReport, Winner};
pub use tile::{Deck, Move, Tile};
