//! The rules of the open chain: which placements a tile admits, and what the
//! chain looks like after one.

use vstd::prelude::*;
use crate::tile::{Move, Tile};

verus! {

/// Every two neighbours touch with equal pip values.
pub open spec fn linked(board: Seq<Tile>) -> bool {
    forall|i: int| 0 <= i < board.len() - 1 ==> (#[trigger] board[i]).1 == board[i + 1].0
}

/// The placement that `tile` admits on `board`.
///
/// Any tile opens an empty board. Otherwise the tile is held against the two
/// open ends, the left value of the first tile and the right value of the
/// last. A tile that matches both is offered both sides only where the ends
/// differ; where they are equal it goes to the head.
pub open spec fn classify(tile: Tile, board: Seq<Tile>) -> Move {
    if board.len() == 0 {
        Move::Init
    } else {
        let head = board.first().0;
        let tail = board.last().1;
        let valid_head = tile.0 == head || tile.1 == head;
        let valid_tail = tile.0 == tail || tile.1 == tail;
        if valid_head && valid_tail && head != tail {
            Move::Both
        } else if valid_head {
            Move::Head
        } else if valid_tail {
            Move::Tail
        } else {
            Move::Pass
        }
    }
}

/// On a board that is not empty the classification of a tile depends on the
/// two open ends alone: boards with the same ends classify it alike.
pub proof fn classify_depends_on_ends(tile: Tile, board: Seq<Tile>, other: Seq<Tile>)
    requires
        board.len() > 0,
        other.len() > 0,
        board.first().0 == other.first().0,
        board.last().1 == other.last().1,
    ensures
        classify(tile, board) == classify(tile, other),
{
}

/// The classification does not depend on how the tile is held.
pub proof fn classify_ignores_orientation(tile: Tile, board: Seq<Tile>)
    ensures
        classify(tile.swapped(), board) == classify(tile, board),
{
}

/// `side` is a side on which `tile` may be laid on `board`: its
/// classification, or either end where that is `Both`.
pub open spec fn admits(tile: Tile, board: Seq<Tile>, side: Move) -> bool {
    match side {
        Move::Init => classify(tile, board) == Move::Init,
        Move::Head => classify(tile, board) == Move::Head || classify(tile, board) == Move::Both,
        Move::Tail => classify(tile, board) == Move::Tail || classify(tile, board) == Move::Both,
        _ => false,
    }
}

/// `tile`, turned so that its right value is `pip` where one of its values is.
pub open spec fn facing_right(tile: Tile, pip: u8) -> Tile {
    if tile.1 != pip {
        tile.swapped()
    } else {
        tile
    }
}

/// `tile`, turned so that its left value is `pip` where one of its values is.
pub open spec fn facing_left(tile: Tile, pip: u8) -> Tile {
    if tile.0 != pip {
        tile.swapped()
    } else {
        tile
    }
}

/// The board after `tile` is laid on `side`.
///
/// At the head the tile goes in front, turned to meet the old first tile; at
/// the tail it goes behind, turned to meet the old last tile. An opening tile
/// is appended as it is.
pub open spec fn placed(board: Seq<Tile>, tile: Tile, side: Move) -> Seq<Tile> {
    match side {
        Move::Head => seq![facing_right(tile, board.first().0)] + board,
        Move::Tail => board.push(facing_left(tile, board.last().1)),
        _ => board.push(tile),
    }
}

/// The board after `tile` is put at the end that `side` names, as it is.
pub open spec fn moved(board: Seq<Tile>, tile: Tile, side: Move) -> Seq<Tile> {
    if side == Move::Head {
        board.insert(0, tile)
    } else {
        board.push(tile)
    }
}

/// The board after the tile at the end that `side` names is turned to meet
/// its neighbour. An opening tile has no neighbour and stays.
pub open spec fn arranged(board: Seq<Tile>, side: Move) -> Seq<Tile> {
    match side {
        Move::Head => board.update(0, facing_right(board[0], board[1].0)),
        Move::Tail => board.update(
            board.len() - 1,
            facing_left(board[board.len() - 1], board[board.len() - 2].1),
        ),
        _ => board,
    }
}

/// Putting a tile at an end and then turning it is laying it.
pub proof fn moved_then_arranged(board: Seq<Tile>, tile: Tile, side: Move)
    requires
        side == Move::Head || side == Move::Tail ==> board.len() > 0,
    ensures
        arranged(moved(board, tile, side), side) == placed(board, tile, side),
{
    assert(arranged(moved(board, tile, side), side) =~= placed(board, tile, side));
}

/// Laying a tile on a side that it admits keeps the chain linked.
pub proof fn placed_keeps_linked(board: Seq<Tile>, tile: Tile, side: Move)
    requires
        linked(board),
        admits(tile, board, side),
    ensures
        linked(placed(board, tile, side)),
        placed(board, tile, side).len() == board.len() + 1,
{
    let after = placed(board, tile, side);
    match side {
        Move::Head => {
            assert forall|i: int| 0 <= i < after.len() - 1 implies (#[trigger] after[i]).1
                == after[i + 1].0 by {
                if i > 0 {
                    assert(after[i] == board[i - 1]);
                    assert(after[i + 1] == board[i - 1 + 1]);
                }
            }
        },
        Move::Tail => {
            assert forall|i: int| 0 <= i < after.len() - 1 implies (#[trigger] after[i]).1
                == after[i + 1].0 by {
                if i < board.len() - 1 {
                    assert(after[i] == board[i]);
                    assert(after[i + 1] == board[i + 1]);
                }
            }
        },
        _ => {},
    }
}

} // verus!
