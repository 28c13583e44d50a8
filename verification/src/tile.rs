//! Tiles, the classification of a move, and a player's deck.

use vstd::prelude::*;

verus! {

/// A domino piece as it lies: `.0` is its left pip value, `.1` its right one.
#[derive(Debug)]
pub struct Tile(pub u8, pub u8);

impl Tile {
    /// The same piece turned around.
    pub open spec fn swapped(self) -> Tile {
        Tile(self.1, self.0)
    }

    /// The number of pips on the piece.
    pub open spec fn pips(self) -> int {
        self.0 + self.1
    }

    /// Both pip values are ones that a double-six set has.
    pub open spec fn in_range(self) -> bool {
        self.0 <= 6 && self.1 <= 6
    }

    /// Two tiles are the same physical piece when they agree up to orientation.
    pub open spec fn same_piece(self, other: Tile) -> bool {
        self == other || self == other.swapped()
    }

    /// Turns the tile around in place.
    pub fn swap(&mut self)
        ensures
            *final(self) == old(self).swapped(),
    {
        let left: u8 = self.0;
        self.0 = self.1;
        self.1 = left;
    }
}

/// Where a tile may go on the board.
#[derive(Debug, Clone, Copy, PartialEq, Eq, Structural)]
pub enum Move {
    /// The board is empty: the tile opens it.
    Init,
    /// The tile goes in front of the first tile.
    Head,
    /// The tile goes behind the last tile.
    Tail,
    /// The tile matches neither open end.
    Pass,
    /// The tile matches both open ends, which differ.
    Both,
}

impl Move {
    /// The side that a coin picks for a tile that fits both ends: the head
    /// for 0, the tail for anything else. Any other classification stands.
    pub open spec fn settle(self, coin: u64) -> Move {
        if self == Move::Both {
            if coin == 0 {
                Move::Head
            } else {
                Move::Tail
            }
        } else {
            self
        }
    }

    /// Resolves `Both` to the side that `coin` picks.
    pub fn settled(self, coin: u64) -> (side: Move)
        ensures
            side == self.settle(coin),
    {
        if matches!(self, Move::Both) {
            if coin == 0 {
                Move::Head
            } else {
                Move::Tail
            }
        } else {
            self
        }
    }
}

/// The tiles that one player holds, and whether that player passed when last
/// asked to move.
#[derive(Debug)]
pub struct Deck {
    pub passed: bool,
    pub deck: Vec<Tile>,
}

/// The mathematical value of a [`Deck`].
pub struct Hand {
    pub passed: bool,
    pub tiles: Seq<Tile>,
}

impl View for Deck {
    type V = Hand;

    open spec fn view(&self) -> Hand {
        Hand { passed: self.passed, tiles: self.deck@ }
    }
}

impl Default for Deck {
    /// An empty deck that has not passed.
    fn default() -> (d: Deck)
        ensures
            d@ == (Hand { passed: false, tiles: Seq::empty() }),
    {
        Deck { passed: false, deck: Vec::new() }
    }
}

} // verus!
