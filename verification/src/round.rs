//! The mathematical model of a round and of its transitions.

use vstd::prelude::*;
use crate::board::{classify, linked, placed};
use crate::pool::full_set;
use crate::status::{GameOverType, GameStatus, InputError, TurnEvent, Winner};
use crate::tile::{Hand, Move, Tile};

verus! {

/// Some tile of `tiles` may be laid on `board`.
pub open spec fn has_move(tiles: Seq<Tile>, board: Seq<Tile>) -> bool {
    exists|i: int| 0 <= i < tiles.len() && classify(#[trigger] tiles[i], board) != Move::Pass
}

/// The tiles of `tiles` that may be laid on `board`, in deck order, each as
/// its index in the deck and its classification.
pub open spec fn legal_moves(tiles: Seq<Tile>, board: Seq<Tile>) -> Seq<(usize, Move)>
    decreases tiles.len(),
{
    if tiles.len() == 0 {
        Seq::empty()
    } else {
        let before = legal_moves(tiles.drop_last(), board);
        let kind = classify(tiles.last(), board);
        if kind != Move::Pass {
            before.push(((tiles.len() - 1) as usize, kind))
        } else {
            before
        }
    }
}

/// The pip count of the deck tile behind each candidate move.
pub open spec fn candidate_pips(tiles: Seq<Tile>, moves: Seq<(usize, Move)>) -> Seq<int> {
    Seq::new(moves.len(), |j: int| tiles[moves[j].0 as int].pips())
}

/// The position of the first greatest value of `values`, 0 where there is none.
pub open spec fn first_max(values: Seq<int>) -> int
    decreases values.len(),
{
    if values.len() <= 1 {
        0
    } else {
        let best = first_max(values.drop_last());
        if values[best] < values.last() {
            values.len() - 1
        } else {
            best
        }
    }
}

/// The position of the first least value of `values`, 0 where there is none.
pub open spec fn first_min(values: Seq<int>) -> int
    decreases values.len(),
{
    if values.len() <= 1 {
        0
    } else {
        let best = first_min(values.drop_last());
        if values.last() < values[best] {
            values.len() - 1
        } else {
            best
        }
    }
}

/// The pips on all tiles of a deck together.
pub open spec fn pip_total(tiles: Seq<Tile>) -> int
    decreases tiles.len(),
{
    if tiles.len() == 0 {
        0
    } else {
        pip_total(tiles.drop_last()) + tiles.last().pips()
    }
}

/// Each candidate of `legal_moves` names a tile of the deck that may be laid,
/// with its classification; the candidates come in deck order; every tile
/// that may be laid is among them; so there is one exactly when the deck has
/// a move. The deck is one whose indices a `usize` can hold.
pub proof fn legal_moves_sound(tiles: Seq<Tile>, board: Seq<Tile>)
    requires
        tiles.len() <= usize::MAX,
    ensures
        legal_moves(tiles, board).len() <= tiles.len(),
        forall|j: int|
            0 <= j < legal_moves(tiles, board).len() ==> {
                let found = #[trigger] legal_moves(tiles, board)[j];
                &&& found.0 < tiles.len()
                &&& found.1 == classify(tiles[found.0 as int], board)
                &&& found.1 != Move::Pass
            },
        forall|j: int, k: int|
            0 <= j < k < legal_moves(tiles, board).len() ==> (#[trigger] legal_moves(
                tiles,
                board,
            )[j]).0 < (#[trigger] legal_moves(tiles, board)[k]).0,
        forall|i: int|
            0 <= i < tiles.len() && classify(#[trigger] tiles[i], board) != Move::Pass ==> exists|
                j: int,
            |
                0 <= j < legal_moves(tiles, board).len() && (#[trigger] legal_moves(
                    tiles,
                    board,
                )[j]).0 == i,
        has_move(tiles, board) <==> legal_moves(tiles, board).len() > 0,
    decreases tiles.len(),
{
    let moves = legal_moves(tiles, board);
    if tiles.len() > 0 {
        let front = tiles.drop_last();
        let before = legal_moves(front, board);
        legal_moves_sound(front, board);
        assert forall|j: int| 0 <= j < before.len() implies (#[trigger] before[j]).0 < front.len()
            && tiles[before[j].0 as int] == front[before[j].0 as int] by {}
        assert forall|i: int|
            0 <= i < tiles.len() && classify(#[trigger] tiles[i], board) != Move::Pass implies exists|
            j: int,
        |
            0 <= j < moves.len() && (#[trigger] moves[j]).0 == i by {
            if i < front.len() {
                assert(front[i] == tiles[i]);
                let j = choose|j: int| 0 <= j < before.len() && (#[trigger] before[j]).0 == i;
                assert(moves[j] == before[j]);
            } else {
                assert(moves[moves.len() - 1].0 == i);
            }
        }
        if has_move(tiles, board) {
            let i = choose|i: int|
                0 <= i < tiles.len() && classify(#[trigger] tiles[i], board) != Move::Pass;
            assert(moves.len() > 0);
        }
        if moves.len() > 0 {
            let found = moves[0];
            assert(classify(tiles[found.0 as int], board) != Move::Pass);
        }
    }
}

/// `first_max` names a greatest value, and the first of them.
pub proof fn first_max_is_first_greatest(values: Seq<int>)
    requires
        values.len() > 0,
    ensures
        0 <= first_max(values) < values.len(),
        forall|j: int| 0 <= j < values.len() ==> #[trigger] values[j] <= values[first_max(values)],
        forall|j: int| 0 <= j < first_max(values) ==> #[trigger] values[j] < values[first_max(values)],
    decreases values.len(),
{
    if values.len() > 1 {
        let front = values.drop_last();
        first_max_is_first_greatest(front);
        assert forall|j: int| 0 <= j < front.len() implies front[j] == values[j] by {}
        assert forall|j: int| 0 <= j < values.len() implies #[trigger] values[j] <= values[first_max(
            values,
        )] by {
            if j < front.len() {
                assert(front[j] <= front[first_max(front)]);
            }
        }
        assert forall|j: int| 0 <= j < first_max(values) implies #[trigger] values[j] < values[first_max(
            values,
        )] by {
            if j < front.len() {
                assert(front[j] <= front[first_max(front)]);
            }
        }
    }
}

/// `first_min` names a least value, and the first of them.
pub proof fn first_min_is_first_least(values: Seq<int>)
    requires
        values.len() > 0,
    ensures
        0 <= first_min(values) < values.len(),
        forall|j: int| 0 <= j < values.len() ==> values[first_min(values)] <= #[trigger] values[j],
        forall|j: int| 0 <= j < first_min(values) ==> values[first_min(values)] < #[trigger] values[j],
    decreases values.len(),
{
    if values.len() > 1 {
        let front = values.drop_last();
        first_min_is_first_least(front);
        assert forall|j: int| 0 <= j < front.len() implies front[j] == values[j] by {}
        assert forall|j: int| 0 <= j < values.len() implies values[first_min(values)]
            <= #[trigger] values[j] by {
            if j < front.len() {
                assert(front[first_min(front)] <= front[j]);
            }
        }
        assert forall|j: int| 0 <= j < first_min(values) implies values[first_min(values)]
            < #[trigger] values[j] by {
            if j < front.len() {
                assert(front[first_min(front)] <= front[j]);
            }
        }
    }
}

/// `side` is a side that a tile of classification `kind` can be laid on: the
/// classification itself, or either end where that is `Both`.
pub open spec fn resolves(kind: Move, side: Move) -> bool {
    if kind == Move::Both {
        side == Move::Head || side == Move::Tail
    } else {
        side == kind
    }
}

/// The pips of a part of a deck are at most those of the whole.
pub proof fn pip_total_of_prefix(tiles: Seq<Tile>, count: int)
    requires
        0 <= count <= tiles.len(),
    ensures
        0 <= pip_total(tiles.take(count)) <= pip_total(tiles),
    decreases tiles.len(),
{
    if count == tiles.len() {
        assert(tiles.take(count) =~= tiles);
        if count > 0 {
            pip_total_of_prefix(tiles.drop_last(), count - 1);
            assert(tiles.drop_last().take(count - 1) =~= tiles.drop_last());
        }
    } else {
        pip_total_of_prefix(tiles.drop_last(), count);
        assert(tiles.drop_last().take(count) =~= tiles.take(count));
    }
}

/// A deck of tiles of the double-six set has at most twelve pips a tile.
pub proof fn pip_total_of_set_tiles(tiles: Seq<Tile>)
    requires
        forall|i: int| 0 <= i < tiles.len() ==> (#[trigger] tiles[i]).in_range(),
    ensures
        0 <= pip_total(tiles) <= 12 * tiles.len(),
    decreases tiles.len(),
{
    if tiles.len() > 0 {
        let front = tiles.drop_last();
        assert forall|i: int| 0 <= i < front.len() implies (#[trigger] front[i]).in_range() by {
            assert(front[i] == tiles[i]);
        }
        pip_total_of_set_tiles(front);
        assert(tiles.last() == tiles[tiles.len() - 1]);
    }
}

/// The tile that a machine lays is one that fits, has at least as many pips
/// as every tile of the deck that fits, and more than each of those before
/// it in the deck.
pub proof fn machine_choice_is_best(round: Round, who: int)
    requires
        round.can_move(who),
        round.hands[who].tiles.len() <= usize::MAX,
    ensures
        ({
            let tiles = round.hands[who].tiles;
            let chosen = round.machine_choice(who);
            &&& chosen.0 < tiles.len()
            &&& chosen.1 == classify(tiles[chosen.0 as int], round.board)
            &&& chosen.1 != Move::Pass
            &&& forall|i: int|
                0 <= i < tiles.len() && classify(#[trigger] tiles[i], round.board) != Move::Pass
                    ==> tiles[i].pips() <= tiles[chosen.0 as int].pips()
            &&& forall|i: int|
                0 <= i < chosen.0 && classify(#[trigger] tiles[i], round.board) != Move::Pass
                    ==> tiles[i].pips() < tiles[chosen.0 as int].pips()
        }),
{
    let tiles = round.hands[who].tiles;
    let moves = legal_moves(tiles, round.board);
    let pips = candidate_pips(tiles, moves);
    let best = first_max(pips);
    legal_moves_sound(tiles, round.board);
    first_max_is_first_greatest(pips);
    let chosen = moves[best];
    assert forall|i: int|
        0 <= i < tiles.len() && classify(#[trigger] tiles[i], round.board)
            != Move::Pass implies tiles[i].pips() <= tiles[chosen.0 as int].pips() && (i < chosen.0
        ==> tiles[i].pips() < tiles[chosen.0 as int].pips()) by {
        let j = choose|j: int| 0 <= j < moves.len() && (#[trigger] moves[j]).0 == i;
        assert(pips[j] == tiles[i].pips());
        assert(pips[j] <= pips[best]);
        if i < chosen.0 {
            if j >= best {
                if j > best {
                    assert(moves[best].0 < moves[j].0);
                }
            }
            assert(j < best);
            assert(pips[j] < pips[best]);
        }
    }
}

/// A deck without one of its tiles has that tile's pips less.
pub proof fn pip_total_after_remove(tiles: Seq<Tile>, index: int)
    requires
        0 <= index < tiles.len(),
    ensures
        pip_total(tiles.remove(index)) + tiles[index].pips() == pip_total(tiles),
    decreases tiles.len(),
{
    if index == tiles.len() - 1 {
        assert(tiles.remove(index) =~= tiles.drop_last());
    } else {
        pip_total_after_remove(tiles.drop_last(), index);
        assert(tiles.remove(index).drop_last() =~= tiles.drop_last().remove(index));
        assert(tiles.remove(index).last() == tiles.last());
    }
}

/// The name under which the player at `who` is announced: the human's own
/// name, or a machine's number.
pub open spec fn player_name(username: Seq<char>, who: int) -> Seq<char> {
    if who == 0 {
        username
    } else if who == 1 {
        "Machine 2"@
    } else if who == 2 {
        "Machine 3"@
    } else {
        "Machine 4"@
    }
}

/// A turn order that names each of the four players once has four entries,
/// each a player's number.
pub proof fn order_names_players(turns: Seq<u8>)
    requires
        turns.to_multiset() =~= seq![1u8, 2u8, 3u8, 4u8].to_multiset(),
    ensures
        turns.len() == 4,
        forall|i: int| 0 <= i < 4 ==> 1 <= #[trigger] turns[i] <= 4,
        forall|who: u8| 1 <= who <= 4 ==> turns.contains(who),
{
    broadcast use vstd::seq_lib::group_to_multiset_ensures;

    let players = seq![1u8, 2u8, 3u8, 4u8];
    assert(players.len() == 4);
    assert(turns.len() == turns.to_multiset().len());
    assert(players.len() == players.to_multiset().len());
    assert forall|i: int| 0 <= i < 4 implies 1 <= #[trigger] turns[i] <= 4 by {
        assert(turns.contains(turns[i]));
        assert(turns.to_multiset().count(turns[i]) > 0);
        assert(players.to_multiset().count(turns[i]) > 0);
        assert(players.contains(turns[i]));
    }
    assert forall|who: u8| 1 <= who <= 4 implies turns.contains(who) by {
        assert(players[who - 1] == who);
        assert(players.contains(who));
        assert(players.to_multiset().count(who) > 0);
        assert(turns.to_multiset().count(who) > 0);
    }
}

/// The state of a game: the four hands in player order (the human first),
/// the board, the undealt pool, the turn order and its cursor.
pub struct Round {
    pub status: GameStatus,
    pub username: Seq<char>,
    pub pool: Seq<Tile>,
    pub board: Seq<Tile>,
    pub hands: Seq<Hand>,
    pub turns: Seq<u8>,
    pub cursor: nat,
}

impl Round {
    /// The turn order names each of the four players once.
    pub open spec fn order_ok(self) -> bool {
        self.turns.to_multiset() =~= seq![1u8, 2u8, 3u8, 4u8].to_multiset()
    }

    /// The turn order is sound and the cursor points into it.
    pub open spec fn turns_ok(self) -> bool {
        self.order_ok() && self.cursor < 4
    }

    /// The player whose turn it is: 1 for the human, 2 to 4 for the machines.
    pub open spec fn actor(self) -> u8 {
        self.turns[self.cursor as int]
    }

    /// The player at `who` holds a tile that may be laid.
    pub open spec fn can_move(self, who: int) -> bool {
        has_move(self.hands[who].tiles, self.board)
    }

    /// The round after the player at `who` has passed.
    pub open spec fn pass(self, who: int) -> Round {
        Round {
            hands: self.hands.update(
                who,
                Hand { passed: true, tiles: self.hands[who].tiles },
            ),
            ..self
        }
    }

    /// The round after the player at `who` has laid the tile at `index` of
    /// their deck on `side`.
    pub open spec fn lay(self, who: int, index: int, side: Move) -> Round {
        Round {
            hands: self.hands.update(
                who,
                Hand { passed: false, tiles: self.hands[who].tiles.remove(index) },
            ),
            board: placed(self.board, self.hands[who].tiles[index], side),
            ..self
        }
    }

    /// The round with the cursor on the next player, back at the first after
    /// the last.
    pub open spec fn advance(self) -> Round {
        Round {
            cursor: if self.cursor + 1 >= self.turns.len() {
                0
            } else {
                self.cursor + 1
            },
            ..self
        }
    }

    /// What is wrong with the human's choice of the tile at `index` and of
    /// `side`, if anything.
    pub open spec fn user_fault(self, index: usize, side: Move) -> Option<InputError> {
        let tiles = self.hands[0].tiles;
        if index >= tiles.len() {
            Some(InputError::TileNotFound)
        } else if classify(tiles[index as int], self.board) == Move::Pass {
            Some(InputError::InvalidMove)
        } else if classify(tiles[index as int], self.board) == Move::Both && side != Move::Head
            && side != Move::Tail {
            Some(InputError::InvalidSide)
        } else {
            None
        }
    }

    /// The side on which the human's tile at `index` goes: its
    /// classification, or the side chosen where that is `Both`.
    pub open spec fn user_side(self, index: usize, side: Move) -> Move {
        let kind = classify(self.hands[0].tiles[index as int], self.board);
        if kind == Move::Both {
            side
        } else {
            kind
        }
    }

    /// The move that the machine at `who` makes: among the tiles it may lay,
    /// the first with the most pips.
    pub open spec fn machine_choice(self, who: int) -> (usize, Move) {
        let moves = legal_moves(self.hands[who].tiles, self.board);
        moves[first_max(candidate_pips(self.hands[who].tiles, moves))]
    }

    /// The round after the player at `who` has had `event`.
    pub open spec fn after(self, who: int, event: TurnEvent) -> Round {
        match event {
            TurnEvent::Passed => self.pass(who),
            TurnEvent::Played { index, side } => self.lay(who, index as int, side),
        }
    }

    /// `event` is what the human's turn comes to when the human chooses the
    /// tile at `index` and `side`: a pass where no tile fits, else the chosen
    /// tile on its side, the choice being sound.
    pub open spec fn user_event(self, index: usize, side: Move, event: TurnEvent) -> bool {
        match event {
            TurnEvent::Passed => !self.can_move(0),
            TurnEvent::Played { index: at, side: on } => {
                &&& self.can_move(0)
                &&& self.user_fault(index, side) is None
                &&& at == index
                &&& on == self.user_side(index, side)
            },
        }
    }

    /// `event` is what the turn of the machine at `who` may come to: a pass
    /// where no tile fits, else its choice, on either end where the tile fits
    /// both.
    pub open spec fn machine_event(self, who: int, event: TurnEvent) -> bool {
        match event {
            TurnEvent::Passed => !self.can_move(who),
            TurnEvent::Played { index, side } => {
                &&& self.can_move(who)
                &&& index == self.machine_choice(who).0
                &&& resolves(self.machine_choice(who).1, side)
            },
        }
    }

    /// `outcome` and `next` are what one turn may come to when the human's
    /// choice is the tile at `index` and `side`.
    ///
    /// The choice counts only where the human is to act and holds a tile that
    /// fits. A choice that is not sound is turned down and nothing changes,
    /// the cursor included. Otherwise the player to act passes or lays a
    /// tile, and the cursor moves on.
    pub open spec fn turn(
        self,
        index: usize,
        side: Move,
        outcome: Result<TurnEvent, InputError>,
        next: Round,
    ) -> bool {
        match outcome {
            Err(fault) => {
                &&& self.actor() == 1
                &&& self.can_move(0)
                &&& self.user_fault(index, side) == Some(fault)
                &&& next == self
            },
            Ok(event) => {
                &&& if self.actor() == 1 {
                    self.user_event(index, side, event)
                } else {
                    self.machine_event(self.actor() - 1, event)
                }
                &&& next == self.after(self.actor() - 1, event).advance()
            },
        }
    }

    /// The tiles of the four hands, the human's first.
    pub open spec fn dealt(self) -> Seq<Tile> {
        self.hands[0].tiles + self.hands[1].tiles + self.hands[2].tiles + self.hands[3].tiles
    }

    /// This round is newly started from the game `before`: its status and
    /// name are kept, the pool and the board are empty, each of the four
    /// hands holds seven tiles and has not passed, the hands together are
    /// the double-six set rearranged, the order of play is the old one
    /// rearranged, and the cursor is on its first place.
    pub open spec fn started_from(self, before: Round) -> bool {
        &&& self.status == before.status
        &&& self.username == before.username
        &&& self.pool.len() == 0
        &&& self.board.len() == 0
        &&& self.cursor == 0
        &&& self.hands.len() == 4
        &&& forall|who: int|
            0 <= who < 4 ==> (#[trigger] self.hands[who]).tiles.len() == 7 && !self.hands[who].passed
        &&& self.dealt().to_multiset() =~= full_set().to_multiset()
        &&& self.turns.to_multiset() =~= before.turns.to_multiset()
    }

    /// Some hand is empty.
    pub open spec fn some_hand_empty(self) -> bool {
        exists|who: int| 0 <= who < self.hands.len() && (#[trigger] self.hands[who]).tiles.len() == 0
    }

    /// Every hand has passed.
    pub open spec fn all_passed(self) -> bool {
        forall|who: int| 0 <= who < self.hands.len() ==> (#[trigger] self.hands[who]).passed
    }

    /// `who` is the first player whose hand is empty.
    pub open spec fn is_first_empty(self, who: int) -> bool {
        &&& 0 <= who < self.hands.len()
        &&& self.hands[who].tiles.len() == 0
        &&& forall|other: int| 0 <= other < who ==> (#[trigger] self.hands[other]).tiles.len() > 0
    }

    /// The first player whose hand is empty, where there is one.
    pub open spec fn first_empty(self) -> int {
        choose|who: int| self.is_first_empty(who)
    }

    /// Whether the round is over, and why: a hand is empty, or else every
    /// player has passed.
    pub open spec fn finished(self) -> Option<GameOverType> {
        if self.some_hand_empty() {
            Some(GameOverType::DirectWinner)
        } else if self.all_passed() {
            Some(GameOverType::AllPassed)
        } else {
            None
        }
    }

    /// The player who wins a round that ended for the reason `kind`: the
    /// first with an empty hand, or in a closed game the first of those with
    /// the fewest pips left.
    pub open spec fn winner(self, kind: GameOverType) -> int {
        match kind {
            GameOverType::DirectWinner => self.first_empty(),
            GameOverType::AllPassed => first_min(self.dots()),
        }
    }

    /// `winner` is the verdict on a round that ended for the reason `kind`:
    /// the winning player, under the right name, with the pips that were
    /// counted.
    pub open spec fn names_winner(self, kind: GameOverType, winner: Winner) -> bool {
        &&& winner.kind == kind
        &&& winner.player == self.winner(kind)
        &&& winner.name@ == player_name(self.username, self.winner(kind))
        &&& match kind {
            GameOverType::DirectWinner => winner.dots@.len() == 0,
            GameOverType::AllPassed => {
                &&& winner.dots@.len() == self.hands.len()
                &&& forall|who: int|
                    0 <= who < self.hands.len() ==> #[trigger] winner.dots@[who] == self.dots()[who]
            },
        }
    }

    /// The pip total of each hand, in player order.
    pub open spec fn dots(self) -> Seq<int> {
        Seq::new(self.hands.len(), |who: int| pip_total(self.hands[who].tiles))
    }

    /// Every hand's pip total fits in a byte.
    pub open spec fn dots_fit(self) -> bool {
        forall|who: int| 0 <= who < self.hands.len() ==> pip_total((#[trigger] self.hands[who]).tiles) <= u8::MAX
    }

    /// The chain on the board is linked.
    pub open spec fn chain_ok(self) -> bool {
        linked(self.board)
    }
}

} // verus!
