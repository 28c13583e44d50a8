//! The game itself: its state, one turn at a time, and the verdict.

use vstd::prelude::*;
use crate::board::{
    admits, arranged, classify, linked, moved, moved_then_arranged, placed, placed_keeps_linked,
};
use crate::conserve::turn_keeps_round;
use crate::random::random_below;
use crate::round::{
    candidate_pips, first_max, first_max_is_first_greatest, has_move, legal_moves,
    legal_moves_sound, order_names_players, pip_total_after_remove, Round,
};
use crate::status::{GameStatus, InputError, TurnEvent};
use crate::tile::{Deck, Hand, Move, Tile};

verus! {

/// One game: the status of the outer loop, the human's name, and the round
/// that is being played.
#[derive(Debug)]
pub struct Game {
    pub status: GameStatus,
    pub username: String,
    pub all_tiles: Vec<Tile>,
    pub board: Vec<Tile>,
    pub player_deck: Deck,
    pub machine1_deck: Deck,
    pub machine2_deck: Deck,
    pub machine3_deck: Deck,
    pub turns: Vec<u8>,
    pub current_turn: usize,
}

impl View for Game {
    type V = Round;

    open spec fn view(&self) -> Round {
        Round {
            status: self.status,
            username: self.username@,
            pool: self.all_tiles@,
            board: self.board@,
            hands: seq![
                self.player_deck@,
                self.machine1_deck@,
                self.machine2_deck@,
                self.machine3_deck@,
            ],
            turns: self.turns@,
            cursor: self.current_turn as nat,
        }
    }
}

impl Default for Game {
    /// A game in which nothing is set: no name, no tiles, and no order of
    /// play.
    fn default() -> (game: Game)
        ensures
            game@ == (Round {
                status: GameStatus::Init,
                username: Seq::empty(),
                pool: Seq::empty(),
                board: Seq::empty(),
                hands: Seq::new(4, |who: int| Hand { passed: false, tiles: Seq::empty() }),
                turns: Seq::empty(),
                cursor: 0,
            }),
    {
        let game = Game {
            status: GameStatus::Init,
            username: String::new(),
            all_tiles: Vec::new(),
            board: Vec::new(),
            player_deck: Deck::default(),
            machine1_deck: Deck::default(),
            machine2_deck: Deck::default(),
            machine3_deck: Deck::default(),
            turns: Vec::new(),
            current_turn: 0,
        };
        proof {
            assert(game@.hands =~= Seq::new(
                4,
                |who: int| Hand { passed: false, tiles: Seq::empty() },
            ));
        }
        game
    }
}

impl Game {
    /// The deck of the machine that plays under the number `turn`.
    pub open spec fn machine(self, turn: u8) -> Deck {
        match turn {
            2 => self.machine1_deck,
            3 => self.machine2_deck,
            _ => self.machine3_deck,
        }
    }

    /// The game with `deck` in the place of that machine's deck.
    pub open spec fn with_machine(self, turn: u8, deck: Deck) -> Game {
        match turn {
            2 => Game { machine1_deck: deck, ..self },
            3 => Game { machine2_deck: deck, ..self },
            _ => Game { machine3_deck: deck, ..self },
        }
    }

    /// In the model, a machine's deck is the hand one place below its number,
    /// and putting a deck in its place changes that hand alone.
    pub proof fn machine_is_hand(self, turn: u8, deck: Deck)
        requires
            2 <= turn <= 4,
        ensures
            self.machine(turn)@ == self@.hands[turn - 1],
            self.with_machine(turn, deck)@ == (Round {
                hands: self@.hands.update(turn - 1, deck@),
                ..self@
            }),
    {
        assert(self.with_machine(turn, deck)@.hands =~= self@.hands.update(turn - 1, deck@));
    }

    /// A game with the given status and no round yet: nothing dealt, nothing
    /// on the board, the players in their natural order.
    pub fn new(status: GameStatus) -> (game: Game)
        ensures
            game@ == (Round {
                status,
                username: Seq::empty(),
                pool: Seq::empty(),
                board: Seq::empty(),
                hands: Seq::new(4, |who: int| Hand { passed: false, tiles: Seq::empty() }),
                turns: seq![1u8, 2u8, 3u8, 4u8],
                cursor: 0,
            }),
            game@.turns_ok(),
    {
        let game = Game {
            status,
            username: String::new(),
            all_tiles: Vec::new(),
            board: Vec::new(),
            player_deck: Deck::default(),
            machine1_deck: Deck::default(),
            machine2_deck: Deck::default(),
            machine3_deck: Deck::default(),
            turns: vec![1, 2, 3, 4],
            current_turn: 0,
        };
        proof {
            assert(game@.hands =~= Seq::new(
                4,
                |who: int| Hand { passed: false, tiles: Seq::empty() },
            ));
            assert(game@.turns =~= seq![1u8, 2u8, 3u8, 4u8]);
        }
        game
    }

    /// The placement that `tile` admits on the board as it lies.
    pub fn check_tile_move(&self, tile: &Tile) -> (kind: Move)
        ensures
            kind == classify(*tile, self.board@),
    {
        if self.board.is_empty() {
            return Move::Init;
        }
        let head_value: u8 = self.board[0].0;
        let tail_value: u8 = self.board[self.board.len() - 1].1;

        let valid_head = tile.1 == head_value || tile.0 == head_value;
        let valid_tail = tile.1 == tail_value || tile.0 == tail_value;

        let is_same_head_tail = head_value == tail_value;
        if valid_head && valid_tail && !is_same_head_tail {
            Move::Both
        } else if valid_head {
            Move::Head
        } else if valid_tail {
            Move::Tail
        } else {
            Move::Pass
        }
    }

    /// Whether some tile of `t_tiles` may be laid on the board.
    pub fn check_deck_for_available_move(&self, t_tiles: &Vec<Tile>) -> (found: bool)
        ensures
            found == has_move(t_tiles@, self.board@),
    {
        let mut i: usize = 0;
        while i < t_tiles.len()
            invariant
                i <= t_tiles.len(),
                forall|j: int| 0 <= j < i ==> classify(#[trigger] t_tiles@[j], self.board@) == Move::Pass,
            decreases t_tiles.len() - i,
        {
            let res = self.check_tile_move(&t_tiles[i]);
            if res != Move::Pass {
                return true;
            }
            i += 1;
        }
        false
    }

    /// The tiles of `t_tiles` that may be laid on the board, each as its index
    /// and its classification, in the order of `t_tiles`.
    pub fn get_deck_for_available_move(&self, t_tiles: &[Tile]) -> (available_moves: Vec<(usize, Move)>)
        ensures
            available_moves@ == legal_moves(t_tiles@, self.board@),
    {
        let mut available_moves: Vec<(usize, Move)> = Vec::new();
        let mut idx: usize = 0;
        while idx < t_tiles.len()
            invariant
                idx <= t_tiles.len(),
                available_moves@ == legal_moves(t_tiles@.take(idx as int), self.board@),
            decreases t_tiles.len() - idx,
        {
            let res_move = self.check_tile_move(&t_tiles[idx]);
            proof {
                let upto = t_tiles@.take(idx + 1);
                assert(upto.drop_last() =~= t_tiles@.take(idx as int));
                assert(upto.last() == t_tiles@[idx as int]);
            }
            if res_move != Move::Pass {
                available_moves.push((idx, res_move));
            }
            idx += 1;
        }
        proof {
            assert(t_tiles@.take(idx as int) =~= t_tiles@);
        }
        available_moves
    }

    /// Puts `tile_move` at the end of the board that `move_dir` names: in
    /// front for `Head`, behind for `Tail` and for an opening tile.
    pub fn move_tile(&mut self, move_dir: &Move, tile_move: Tile)
        requires
            *move_dir == Move::Init || *move_dir == Move::Head || *move_dir == Move::Tail,
        ensures
            final(self)@ == (Round {
                board: moved(old(self)@.board, tile_move, *move_dir),
                ..old(self)@
            }),
    {
        if matches!(move_dir, Move::Init) || matches!(move_dir, Move::Tail) {
            self.board.push(tile_move);
        } else {
            self.board.insert(0, tile_move);
        }
    }

    /// Turns the tile at the end that `move_dir` names so that it meets its
    /// neighbour.
    pub fn arrange_board_tiles(&mut self, move_dir: &Move)
        requires
            *move_dir == Move::Head || *move_dir == Move::Tail ==> old(self)@.board.len() >= 2,
        ensures
            final(self)@ == (Round { board: arranged(old(self)@.board, *move_dir), ..old(self)@ }),
    {
        if matches!(move_dir, Move::Head) {
            if self.board[0].1 != self.board[1].0 {
                self.board[0].swap();
            }
        }
        if matches!(move_dir, Move::Tail) {
            let last_index: usize = self.board.len() - 1;
            let second_last_index: usize = self.board.len() - 2;
            if self.board[last_index].0 != self.board[second_last_index].1 {
                self.board[last_index].swap();
            }
        }
        proof {
            assert(final(self)@.board =~= arranged(old(self)@.board, *move_dir));
        }
    }

    /// Lays `tile` on the side `move_dir` of the board, turned to meet the
    /// chain. Where the chain was linked and the tile admits that side, the
    /// chain is linked afterwards.
    pub fn apply(&mut self, move_dir: &Move, tile: Tile)
        requires
            *move_dir == Move::Init || *move_dir == Move::Head || *move_dir == Move::Tail,
            *move_dir == Move::Head || *move_dir == Move::Tail ==> old(self)@.board.len() > 0,
        ensures
            final(self)@ == (Round { board: placed(old(self)@.board, tile, *move_dir), ..old(self)@ }),
            linked(old(self)@.board) && admits(tile, old(self)@.board, *move_dir) ==> linked(
                final(self)@.board,
            ),
    {
        proof {
            moved_then_arranged(self@.board, tile, *move_dir);
            if linked(self@.board) && admits(tile, self@.board, *move_dir) {
                placed_keeps_linked(self@.board, tile, *move_dir);
            }
        }
        self.move_tile(move_dir, tile);
        self.arrange_board_tiles(move_dir);
    }

    /// The deck of the machine that plays under the number `turn`.
    pub fn get_machine_from_turn(&self, turn: u8) -> (deck: &Deck)
        requires
            2 <= turn <= 4,
        ensures
            *deck == self.machine(turn),
    {
        match turn {
            2 => &self.machine1_deck,
            3 => &self.machine2_deck,
            _ => &self.machine3_deck,
        }
    }

    /// The deck of the machine that plays under the number `turn`, to be
    /// changed in place.
    pub fn get_mut_machine_from_turn(&mut self, turn: u8) -> (deck: &mut Deck)
        requires
            2 <= turn <= 4,
        ensures
            *deck == old(self).machine(turn),
            *final(self) == old(self).with_machine(turn, *final(deck)),
    {
        match turn {
            2 => &mut self.machine1_deck,
            3 => &mut self.machine2_deck,
            _ => &mut self.machine3_deck,
        }
    }

    /// Among the candidates `moves`, each an index into `deck`, the first
    /// whose tile has the most pips.
    pub fn highest_tile(deck: &Vec<Tile>, moves: &Vec<(usize, Move)>) -> (candidate_idx: usize)
        requires
            forall|j: int| 0 <= j < moves@.len() ==> (#[trigger] moves@[j]).0 < deck@.len(),
        ensures
            candidate_idx == first_max(candidate_pips(deck@, moves@)),
    {
        let mut candidate_idx: usize = 0;
        if moves.len() > 1 {
            let ghost pips = candidate_pips(deck@, moves@);
            let mut higher_value: u16 = 0;
            let mut idx: usize = 0;
            while idx < moves.len()
                invariant
                    idx <= moves.len(),
                    pips == candidate_pips(deck@, moves@),
                    forall|j: int| 0 <= j < moves@.len() ==> (#[trigger] moves@[j]).0 < deck@.len(),
                    idx == 0 ==> candidate_idx == 0 && higher_value == 0,
                    idx > 0 ==> candidate_idx == first_max(pips.take(idx as int)) && candidate_idx
                        < idx && higher_value == pips[candidate_idx as int],
                decreases moves.len() - idx,
            {
                let deck_index: usize = moves[idx].0;
                let tile_on_deck = &deck[deck_index];
                let sum_dots_on_tile: u16 = tile_on_deck.0 as u16 + tile_on_deck.1 as u16;
                proof {
                    let upto = pips.take(idx + 1);
                    assert(upto.drop_last() =~= pips.take(idx as int));
                    assert(upto.last() == sum_dots_on_tile);
                    if idx > 0 {
                        assert(upto[candidate_idx as int] == pips[candidate_idx as int]);
                    }
                }
                if higher_value < sum_dots_on_tile {
                    higher_value = sum_dots_on_tile;
                    candidate_idx = idx;
                }
                idx += 1;
            }
            proof {
                assert(pips.take(idx as int) =~= pips);
            }
        }
        candidate_idx
    }

    /// The turn of the machine that plays under the number `turn`.
    ///
    /// A machine that holds no tile that fits passes. Otherwise it lays, of
    /// the tiles that fit, the first with the most pips; where that tile fits
    /// both ends, chance picks the end, and the event says which it was.
    pub fn play_machine(&mut self, turn: u8) -> (event: TurnEvent)
        requires
            2 <= turn <= 4,
        ensures
            old(self)@.machine_event(turn - 1, event),
            final(self)@ == old(self)@.after(turn - 1, event),
            old(self)@.chain_ok() ==> final(self)@.chain_ok(),
            old(self)@.dots_fit() ==> final(self)@.dots_fit(),
    {
        let machine_deck = &self.get_machine_from_turn(turn).deck;
        proof {
            assert(machine_deck.len() == machine_deck@.len());
            self.machine_is_hand(turn, self.machine(turn));
        }

        if !self.check_deck_for_available_move(machine_deck) {
            let machine_deck_mut = self.get_mut_machine_from_turn(turn);
            machine_deck_mut.passed = true;
            proof {
                old(self).machine_is_hand(turn, self.machine(turn));
            }
            return TurnEvent::Passed;
        }
        let available_moves = self.get_deck_for_available_move(machine_deck.as_slice());
        proof {
            legal_moves_sound(machine_deck@, self@.board);
            first_max_is_first_greatest(candidate_pips(machine_deck@, available_moves@));
        }
        let candidate_idx = Self::highest_tile(machine_deck, &available_moves);

        let deck_index: usize = available_moves[candidate_idx].0;
        let mut move_dir = available_moves[candidate_idx].1;

        if matches!(move_dir, Move::Both) {
            move_dir = move_dir.settled(random_below(0, 2));
        }
        proof {
            pip_total_after_remove(machine_deck@, deck_index as int);
        }
        let machine_deck_mut = self.get_mut_machine_from_turn(turn);

        let tile_move = machine_deck_mut.deck.remove(deck_index);
        machine_deck_mut.passed = false;
        proof {
            old(self).machine_is_hand(turn, self.machine(turn));
        }
        self.apply(&move_dir, tile_move);
        TurnEvent::Played { index: deck_index, side: move_dir }
    }

    /// Whether the human's choice of the tile at `index` can stand so far,
    /// and how that tile is classified: the deck must have a tile there, and
    /// the tile must fit the board.
    pub fn check_user_move(&self, index: usize) -> (checked: Result<Move, InputError>)
        ensures
            checked == (if index >= self@.hands[0].tiles.len() {
                Err::<Move, InputError>(InputError::TileNotFound)
            } else if classify(self@.hands[0].tiles[index as int], self@.board) == Move::Pass {
                Err::<Move, InputError>(InputError::InvalidMove)
            } else {
                Ok::<Move, InputError>(classify(self@.hands[0].tiles[index as int], self@.board))
            }),
    {
        if index >= self.player_deck.deck.len() {
            return Err(InputError::TileNotFound);
        }
        let move_dir = self.check_tile_move(&self.player_deck.deck[index]);
        if matches!(move_dir, Move::Pass) {
            return Err(InputError::InvalidMove);
        }
        Ok(move_dir)
    }

    /// The side that the human names with `dir`: 0 for the head, 1 for the
    /// tail, and none for any other number.
    pub fn get_dir_input(dir: u32) -> (side: Option<Move>)
        ensures
            side == (if dir == 0 {
                Some(Move::Head)
            } else if dir == 1 {
                Some(Move::Tail)
            } else {
                None::<Move>
            }),
    {
        if dir == 0 {
            return Some(Move::Head);
        } else if dir == 1 {
            return Some(Move::Tail);
        }
        None
    }

    /// Whether the next turn needs a choice from the human: it is the
    /// human's turn, and the human holds a tile that fits.
    pub fn awaits_user(&self) -> (awaited: bool)
        requires
            self@.turns_ok(),
        ensures
            awaited == (self@.actor() == 1 && self@.can_move(0)),
    {
        proof {
            order_names_players(self@.turns);
        }
        self.turns[self.current_turn] == 1 && self.check_deck_for_available_move(
            &self.player_deck.deck,
        )
    }

    /// Whether the machine under the cursor is about to lay a tile: it is a
    /// machine's turn, and that machine holds a tile that fits.
    pub fn machine_moves(&self) -> (moves: bool)
        requires
            self@.turns_ok(),
        ensures
            moves == (self@.actor() != 1 && self@.can_move(self@.actor() - 1)),
    {
        proof {
            order_names_players(self@.turns);
        }
        let turn: u8 = self.turns[self.current_turn];
        if turn == 1 {
            return false;
        }
        proof {
            self.machine_is_hand(turn, self.machine(turn));
        }
        self.check_deck_for_available_move(&self.get_machine_from_turn(turn).deck)
    }

    /// The seconds that a machine takes to think before it lays a tile: 2, 3
    /// or 4, by chance.
    pub fn think_time() -> (seconds: u64)
        ensures
            2 <= seconds < 5,
    {
        random_below(2, 5)
    }

    /// The human's turn, with the choice of the tile at `index` and, for a
    /// tile that fits both ends, of `side`.
    ///
    /// Where no tile of the human's deck fits, the human passes and the choice
    /// is not looked at. Otherwise the choice is checked: the deck must have a
    /// tile at `index`, that tile must fit, and where it fits both ends
    /// `side` must be one of them. A choice that fails is turned down and
    /// nothing changes; one that holds is carried out.
    pub fn play_user(&mut self, index: usize, side: Move) -> (outcome: Result<
        TurnEvent,
        InputError,
    >)
        ensures
            match outcome {
                Ok(event) => old(self)@.user_event(index, side, event) && final(self)@ == old(
                    self,
                )@.after(0, event),
                Err(fault) => old(self)@.can_move(0) && old(self)@.user_fault(index, side) == Some(
                    fault,
                ) && final(self)@ == old(self)@,
            },
            old(self)@.chain_ok() ==> final(self)@.chain_ok(),
            old(self)@.dots_fit() ==> final(self)@.dots_fit(),
    {
        if !self.check_deck_for_available_move(&self.player_deck.deck) {
            self.player_deck.passed = true;
            proof {
                assert(self@.hands =~= old(self)@.pass(0).hands);
            }
            return Ok(TurnEvent::Passed);
        }
        let mut move_dir = match self.check_user_move(index) {
            Ok(move_dir) => move_dir,
            Err(fault) => {
                return Err(fault);
            },
        };
        if matches!(move_dir, Move::Both) {
            if !matches!(side, Move::Head) && !matches!(side, Move::Tail) {
                return Err(InputError::InvalidSide);
            }
            move_dir = side;
        }
        proof {
            pip_total_after_remove(self.player_deck.deck@, index as int);
        }
        let tile_move = self.player_deck.deck.remove(index);
        self.player_deck.passed = false;
        self.apply(&move_dir, tile_move);
        proof {
            assert(self@.hands =~= old(self)@.lay(0, index as int, move_dir).hands);
        }
        Ok(TurnEvent::Played { index, side: move_dir })
    }

    /// One turn of the player under the cursor; `index` and `side` are the
    /// human's choice, which counts only where the human is to act.
    ///
    /// A choice that is turned down leaves the game as it was, the cursor
    /// too, so that the turn can be played again with another choice.
    pub fn play(&mut self, index: usize, side: Move) -> (outcome: Result<TurnEvent, InputError>)
        requires
            old(self)@.turns_ok(),
        ensures
            old(self)@.turn(index, side, outcome, final(self)@),
            final(self)@.turns_ok(),
            old(self)@.chain_ok() ==> final(self)@.chain_ok(),
            old(self)@.dots_fit() ==> final(self)@.dots_fit(),
            old(self)@.round_ok() ==> final(self)@.round_ok(),
    {
        proof {
            order_names_players(self@.turns);
        }
        let turn: u8 = self.turns[self.current_turn];
        let event = if turn == 1 {
            match self.play_user(index, side) {
                Ok(event) => event,
                Err(fault) => {
                    return Err(fault);
                },
            }
        } else {
            self.play_machine(turn)
        };
        self.current_turn += 1;
        if self.current_turn >= self.turns.len() {
            self.current_turn = 0;
        }
        proof {
            if old(self)@.round_ok() {
                turn_keeps_round(old(self)@, index, side, Ok(event), self@);
            }
        }
        Ok(event)
    }
}

} // verus!
