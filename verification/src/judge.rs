//! The end of a round: whether it is over, and who has won.

use vstd::prelude::*;
use crate::game::Game;
use crate::round::{first_min, first_min_is_first_least, pip_total, pip_total_of_prefix, player_name};
use crate::round::Round;
use crate::status::{GameOverType, GameStatus, Winner};
use crate::tile::{Deck, Tile};

verus! {

/// The pips on all tiles of `tiles` together.
pub fn count_dots(tiles: &Vec<Tile>) -> (dots: u8)
    requires
        pip_total(tiles@) <= u8::MAX,
    ensures
        dots == pip_total(tiles@),
{
    let mut dots: u8 = 0;
    let mut i: usize = 0;
    while i < tiles.len()
        invariant
            i <= tiles.len(),
            dots == pip_total(tiles@.take(i as int)),
            pip_total(tiles@) <= u8::MAX,
        decreases tiles.len() - i,
    {
        proof {
            pip_total_of_prefix(tiles@, i + 1);
            assert(tiles@.take(i + 1).drop_last() =~= tiles@.take(i as int));
        }
        dots = dots + tiles[i].0 + tiles[i].1;
        i += 1;
    }
    proof {
        assert(tiles@.take(i as int) =~= tiles@);
    }
    dots
}

impl Game {
    /// The four decks in player order, the human's first.
    pub fn get_all_decks(&self) -> (decks: [&Deck; 4])
        ensures
            forall|who: int| 0 <= who < 4 ==> (#[trigger] decks@[who])@ == self@.hands[who],
    {
        [&self.player_deck, &self.machine1_deck, &self.machine2_deck, &self.machine3_deck]
    }

    /// Whether the round is over, and why.
    ///
    /// A player with an empty deck has won outright, whatever the others have
    /// done. Failing that, the game is closed when every player has passed.
    pub fn check_finished(&self) -> (outcome: Option<GameOverType>)
        ensures
            outcome == self@.finished(),
    {
        let decks = self.get_all_decks();
        let mut any_empty = false;
        let mut all_passed = true;
        let mut who: usize = 0;
        while who < 4
            invariant
                who <= 4,
                forall|at: int| 0 <= at < 4 ==> (#[trigger] decks@[at])@ == self@.hands[at],
                any_empty <==> exists|at: int|
                    0 <= at < who && (#[trigger] self@.hands[at]).tiles.len() == 0,
                all_passed <==> forall|at: int| 0 <= at < who ==> (#[trigger] self@.hands[at]).passed,
            decreases 4 - who,
        {
            if decks[who].deck.is_empty() {
                any_empty = true;
            }
            if !decks[who].passed {
                all_passed = false;
            }
            who += 1;
        }
        if any_empty {
            return Some(GameOverType::DirectWinner);
        }
        if all_passed {
            return Some(GameOverType::AllPassed);
        }
        None
    }

    /// The name of the first player whose deck is empty, if any is.
    pub fn get_direct_winner(&self) -> (name: Option<String>)
        ensures
            match name {
                Some(name) => self@.some_hand_empty() && name@ == player_name(
                    self@.username,
                    self@.first_empty(),
                ),
                None => !self@.some_hand_empty(),
            },
    {
        let decks = self.get_all_decks();
        let mut idx: usize = 0;
        while idx < 4
            invariant
                idx <= 4,
                forall|at: int| 0 <= at < 4 ==> (#[trigger] decks@[at])@ == self@.hands[at],
                forall|at: int| 0 <= at < idx ==> (#[trigger] self@.hands[at]).tiles.len() > 0,
            decreases 4 - idx,
        {
            if decks[idx].deck.is_empty() {
                proof {
                    assert(self@.is_first_empty(idx as int));
                }
                return Some(self.get_player_name(idx));
            }
            idx += 1;
        }
        None
    }

    /// The winner of a closed game, with each player's pips left: the first
    /// of the players with the fewest.
    pub fn get_tie_winner(&self) -> (result: (usize, Vec<u8>))
        requires
            self@.dots_fit(),
        ensures
            result.0 == first_min(self@.dots()),
            result.1@.len() == 4,
            forall|who: int| 0 <= who < 4 ==> #[trigger] result.1@[who] == self@.dots()[who],
    {
        let decks = self.get_all_decks();
        let mut dots_all_decks: Vec<u8> = Vec::new();
        let mut who: usize = 0;
        while who < 4
            invariant
                who <= 4,
                self@.dots_fit(),
                forall|at: int| 0 <= at < 4 ==> (#[trigger] decks@[at])@ == self@.hands[at],
                dots_all_decks@.len() == who,
                forall|at: int| 0 <= at < who ==> #[trigger] dots_all_decks@[at] == self@.dots()[at],
            decreases 4 - who,
        {
            proof {
                assert(pip_total(self@.hands[who as int].tiles) <= u8::MAX);
            }
            dots_all_decks.push(count_dots(&decks[who].deck));
            who += 1;
        }
        let ghost dots = self@.dots();
        let mut idx_winner: usize = 0;
        let mut idx: usize = 1;
        proof {
            assert(dots.take(1).len() == 1);
        }
        while idx < 4
            invariant
                1 <= idx <= 4,
                dots == self@.dots(),
                dots.len() == 4,
                dots_all_decks@.len() == 4,
                forall|at: int| 0 <= at < 4 ==> #[trigger] dots_all_decks@[at] == dots[at],
                idx_winner == first_min(dots.take(idx as int)),
                idx_winner < idx,
            decreases 4 - idx,
        {
            proof {
                let upto = dots.take(idx + 1);
                assert(upto.drop_last() =~= dots.take(idx as int));
                assert(upto.last() == dots[idx as int]);
                assert(upto[idx_winner as int] == dots[idx_winner as int]);
            }
            if dots_all_decks[idx] < dots_all_decks[idx_winner] {
                idx_winner = idx;
            }
            idx += 1;
        }
        proof {
            assert(dots.take(4) =~= dots);
        }
        (idx_winner, dots_all_decks)
    }

    /// Who has won a round that ended for the reason `game_over_type`.
    ///
    /// Where a player went out, that player has won and no pips are counted.
    /// In a closed game the first of the players with the fewest pips left
    /// has won, and the result holds everybody's count.
    pub fn resolve_winner(&self, game_over_type: GameOverType) -> (winner: Winner)
        requires
            game_over_type == GameOverType::DirectWinner ==> self@.some_hand_empty(),
            game_over_type == GameOverType::AllPassed ==> self@.dots_fit(),
        ensures
            self@.names_winner(game_over_type, winner),
    {
        match game_over_type {
            GameOverType::DirectWinner => {
                let decks = self.get_all_decks();
                let mut idx: usize = 0;
                while idx < 3 && !decks[idx].deck.is_empty()
                    invariant
                        idx <= 3,
                        forall|at: int| 0 <= at < 4 ==> (#[trigger] decks@[at])@ == self@.hands[at],
                        forall|at: int|
                            0 <= at < idx ==> (#[trigger] self@.hands[at]).tiles.len() > 0,
                    decreases 3 - idx,
                {
                    idx += 1;
                }
                proof {
                    let at = choose|at: int|
                        0 <= at < 4 && (#[trigger] self@.hands[at]).tiles.len() == 0;
                    assert(self@.is_first_empty(idx as int));
                }
                Winner {
                    kind: game_over_type,
                    player: idx,
                    name: self.get_player_name(idx),
                    dots: Vec::new(),
                }
            },
            GameOverType::AllPassed => {
                let (idx_winner, dots_all_decks) = self.get_tie_winner();
                proof {
                    first_min_is_first_least(self@.dots());
                }
                Winner {
                    kind: game_over_type,
                    player: idx_winner,
                    name: self.get_player_name(idx_winner),
                    dots: dots_all_decks,
                }
            },
        }
    }

    /// The name under which the player at `idx` is announced.
    pub fn get_player_name(&self, idx: usize) -> (name: String)
        requires
            idx < 4,
        ensures
            name@ == player_name(self@.username, idx as int),
    {
        if idx != 0 {
            if idx == 1 {
                "Machine 2".to_owned()
            } else if idx == 2 {
                "Machine 3".to_owned()
            } else {
                "Machine 4".to_owned()
            }
        } else {
            self.get_username().to_owned()
        }
    }

    /// The status of the outer loop.
    pub fn get_status(&self) -> (status: &GameStatus)
        ensures
            *status == self@.status,
    {
        &self.status
    }

    /// Sets the status of the outer loop.
    pub fn set_status(&mut self, status: GameStatus)
        ensures
            final(self)@ == (Round { status, ..old(self)@ }),
    {
        self.status = status
    }

    /// Sets the human's name.
    pub fn set_username(&mut self, username: &str)
        ensures
            final(self)@ == (Round { username: username@, ..old(self)@ }),
    {
        self.username = username.to_owned();
    }

    /// The human's name.
    pub fn get_username(&self) -> (username: &str)
        ensures
            username@ == self@.username,
    {
        self.username.as_str()
    }
}

} // verus!
