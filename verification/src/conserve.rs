//! What holds of a round from its start to its end, and why each step keeps
//! it.

use vstd::prelude::*;
use vstd::seq_lib::lemma_multiset_commutative;
use crate::board::{admits, placed, placed_keeps_linked};
use crate::pool::{full_set, full_set_is_double_six};
use crate::round::{
    candidate_pips, first_max_is_first_greatest, legal_moves, legal_moves_sound,
    order_names_players, pip_total, pip_total_of_set_tiles, Round,
};
use crate::status::{GameStatus, InputError, TurnEvent};
use crate::tile::{Move, Tile};

verus! {

/// How many tiles of `tiles` are the piece `piece`, whichever way they lie.
pub open spec fn copies(tiles: Seq<Tile>, piece: Tile) -> nat {
    tiles.to_multiset().count(piece) + if piece.0 != piece.1 {
        tiles.to_multiset().count(piece.swapped())
    } else {
        0
    }
}

impl Round {
    /// How often `piece` occurs in the round: in the pool, in the four hands
    /// and on the board together.
    pub open spec fn held(self, piece: Tile) -> nat {
        copies(self.pool, piece) + copies(self.hands[0].tiles, piece) + copies(
            self.hands[1].tiles,
            piece,
        ) + copies(self.hands[2].tiles, piece) + copies(self.hands[3].tiles, piece) + copies(
            self.board,
            piece,
        )
    }

    /// Every piece of the double-six set is in exactly one place, and no
    /// other tile is anywhere.
    pub open spec fn conserved(self) -> bool {
        forall|piece: Tile| #[trigger]
            self.held(piece) == if piece.in_range() {
                1nat
            } else {
                0nat
            }
    }

    /// The invariant of a round: four hands of at most seven tiles, a sound
    /// turn order, a linked chain, and the set conserved.
    pub open spec fn round_ok(self) -> bool {
        &&& self.hands.len() == 4
        &&& forall|who: int| 0 <= who < 4 ==> (#[trigger] self.hands[who]).tiles.len() <= 7
        &&& self.turns_ok()
        &&& self.chain_ok()
        &&& self.conserved()
    }
}

/// Taking a tile out of a deck takes one copy of its piece and of no other.
pub proof fn copies_after_remove(tiles: Seq<Tile>, index: int, piece: Tile)
    requires
        0 <= index < tiles.len(),
    ensures
        copies(tiles.remove(index), piece) + (if tiles[index].same_piece(piece) {
            1nat
        } else {
            0nat
        }) == copies(tiles, piece),
{
    broadcast use vstd::seq_lib::group_to_multiset_ensures;
    broadcast use vstd::multiset::group_multiset_axioms;

    let gone = tiles[index];
    assert(tiles.contains(gone));
    assert(tiles.to_multiset().count(gone) > 0);
    assert(tiles.remove(index).to_multiset() == tiles.to_multiset().remove(gone));
}

/// Laying a tile adds one copy of its piece to the board and of no other.
pub proof fn copies_after_placed(board: Seq<Tile>, tile: Tile, side: Move, piece: Tile)
    ensures
        copies(placed(board, tile, side), piece) == copies(board, piece) + (if tile.same_piece(
            piece,
        ) {
            1nat
        } else {
            0nat
        }),
{
    broadcast use vstd::seq_lib::group_to_multiset_ensures;
    broadcast use vstd::multiset::group_multiset_axioms;

    let after = placed(board, tile, side);
    if side == Move::Head {
        let laid = after[0];
        assert(after =~= board.insert(0, laid));
        assert(after.to_multiset() == board.to_multiset().insert(laid));
    } else {
        let laid = after[board.len() as int];
        assert(after =~= board.push(laid));
        assert(after.to_multiset() =~= board.to_multiset().insert(laid));
    }
}

/// A deck holds as many copies of a piece as its parts do together.
pub proof fn copies_of_parts(front: Seq<Tile>, back: Seq<Tile>, piece: Tile)
    ensures
        copies(front + back, piece) == copies(front, piece) + copies(back, piece),
{
    broadcast use vstd::multiset::group_multiset_axioms;

    lemma_multiset_commutative(front, back);
}

/// The full set holds each of its pieces once and no other tile.
pub proof fn full_set_copies(piece: Tile)
    ensures
        copies(full_set(), piece) == if piece.in_range() {
            1nat
        } else {
            0nat
        },
{
    broadcast use vstd::seq_lib::group_to_multiset_ensures;
    broadcast use vstd::multiset::group_multiset_axioms;

    let set = full_set();
    full_set_is_double_six();
    assert(set.no_duplicates());
    set.lemma_multiset_has_no_duplicates();
    let turned = piece.swapped();
    if piece.in_range() {
        if piece.1 <= piece.0 {
            assert(set.contains(Tile(piece.0, piece.1)));
            assert(set.to_multiset().count(piece) > 0);
        } else {
            assert(set.contains(Tile(turned.0, turned.1)));
            assert(set.to_multiset().count(turned) > 0);
        }
    }
    if set.to_multiset().count(piece) > 0 {
        assert(set.contains(piece));
    }
    if set.to_multiset().count(turned) > 0 {
        assert(set.contains(turned));
    }
}

/// In a round with its invariant every tile of a hand is of the double-six
/// set, so every hand's pips fit in a byte.
pub proof fn round_dots_fit(round: Round)
    requires
        round.round_ok(),
    ensures
        forall|who: int, i: int|
            0 <= who < 4 && 0 <= i < round.hands[who].tiles.len() ==> (
            #[trigger] round.hands[who].tiles[i]).in_range(),
        round.dots_fit(),
{
    broadcast use vstd::seq_lib::group_to_multiset_ensures;

    assert forall|who: int, i: int|
        0 <= who < 4 && 0 <= i < round.hands[who].tiles.len() implies (
    #[trigger] round.hands[who].tiles[i]).in_range() by {
        let tiles = round.hands[who].tiles;
        let tile = tiles[i];
        assert(tiles.contains(tile));
        assert(tiles.to_multiset().count(tile) > 0);
        assert(copies(tiles, tile) > 0);
        assert(round.held(tile) > 0);
    }
    assert forall|who: int| 0 <= who < round.hands.len() implies pip_total(
        (#[trigger] round.hands[who]).tiles,
    ) <= u8::MAX by {
        let tiles = round.hands[who].tiles;
        assert forall|i: int| 0 <= i < tiles.len() implies (#[trigger] tiles[i]).in_range() by {
            assert(round.hands[who].tiles[i].in_range());
        }
        pip_total_of_set_tiles(tiles);
    }
}

/// A turn in which a tile is laid moves that one tile: the board is one tile
/// longer, the hand of the player who laid it one tile shorter and marked as
/// not passed, and every other hand as it was. A pass marks the hand and
/// moves nothing.
pub proof fn turn_moves_one_tile(round: Round, who: int, event: TurnEvent)
    requires
        0 <= who < round.hands.len(),
        event matches TurnEvent::Played { index, .. } ==> index < round.hands[who].tiles.len(),
    ensures
        ({
            let next = round.after(who, event);
            &&& next.hands.len() == round.hands.len()
            &&& next.pool == round.pool
            &&& forall|other: int|
                0 <= other < round.hands.len() && other != who ==> #[trigger] next.hands[other]
                    == round.hands[other]
            &&& match event {
                TurnEvent::Passed => {
                    &&& next.board == round.board
                    &&& next.hands[who].tiles == round.hands[who].tiles
                    &&& next.hands[who].passed
                },
                TurnEvent::Played { index, side } => {
                    &&& next.board.len() == round.board.len() + 1
                    &&& next.hands[who].tiles.len() == round.hands[who].tiles.len() - 1
                    &&& !next.hands[who].passed
                },
            }
        }),
{
}

/// A pass keeps the invariant.
pub proof fn pass_keeps_round(round: Round, who: int)
    requires
        round.round_ok(),
        0 <= who < 4,
    ensures
        round.pass(who).round_ok(),
{
    let next = round.pass(who);
    assert forall|piece: Tile| #[trigger] next.held(piece) == round.held(piece) by {}
    assert forall|piece: Tile| #[trigger]
        next.held(piece) == if piece.in_range() {
            1nat
        } else {
            0nat
        } by {
        assert(next.held(piece) == round.held(piece));
    }
}

/// Laying a tile of one's hand on a side that it admits keeps the invariant.
pub proof fn lay_keeps_round(round: Round, who: int, index: int, side: Move)
    requires
        round.round_ok(),
        0 <= who < 4,
        0 <= index < round.hands[who].tiles.len(),
        admits(round.hands[who].tiles[index], round.board, side),
    ensures
        round.lay(who, index, side).round_ok(),
{
    let next = round.lay(who, index, side);
    let tile = round.hands[who].tiles[index];
    placed_keeps_linked(round.board, tile, side);
    assert forall|piece: Tile| #[trigger]
        next.held(piece) == if piece.in_range() {
            1nat
        } else {
            0nat
        } by {
        copies_after_remove(round.hands[who].tiles, index, piece);
        copies_after_placed(round.board, tile, side, piece);
        assert(next.held(piece) == round.held(piece));
    }
}

/// Moving the cursor on keeps the invariant.
pub proof fn advance_keeps_round(round: Round)
    requires
        round.round_ok(),
    ensures
        round.advance().round_ok(),
{
    let next = round.advance();
    order_names_players(round.turns);
    assert forall|piece: Tile| #[trigger]
        next.held(piece) == if piece.in_range() {
            1nat
        } else {
            0nat
        } by {
        assert(next.held(piece) == round.held(piece));
    }
}

/// The status of the outer loop has no part in the invariant.
pub proof fn status_keeps_round(round: Round, status: GameStatus)
    requires
        round.round_ok(),
    ensures
        (Round { status, ..round }).round_ok(),
{
    let next = Round { status, ..round };
    assert forall|piece: Tile| #[trigger]
        next.held(piece) == if piece.in_range() {
            1nat
        } else {
            0nat
        } by {
        assert(next.held(piece) == round.held(piece));
    }
}

/// Whatever a turn comes to, it keeps the invariant.
pub proof fn turn_keeps_round(
    round: Round,
    index: usize,
    side: Move,
    outcome: Result<TurnEvent, InputError>,
    next: Round,
)
    requires
        round.round_ok(),
        round.turn(index, side, outcome, next),
    ensures
        next.round_ok(),
{
    order_names_players(round.turns);
    let who = round.actor() - 1;
    match outcome {
        Err(_) => {},
        Ok(TurnEvent::Passed) => {
            pass_keeps_round(round, who);
            advance_keeps_round(round.pass(who));
        },
        Ok(TurnEvent::Played { index: at, side: on }) => {
            let tiles = round.hands[who].tiles;
            if round.actor() != 1 {
                let moves = legal_moves(tiles, round.board);
                legal_moves_sound(tiles, round.board);
                first_max_is_first_greatest(candidate_pips(tiles, moves));
            }
            lay_keeps_round(round, who, at as int, on);
            advance_keeps_round(round.lay(who, at as int, on));
        },
    }
}

} // verus!
