//! The three steps of the outer loop, one for each status of the game.

use vstd::prelude::*;
use crate::conserve::status_keeps_round;
use crate::game::Game;
use crate::round::Round;
use crate::status::{GameStatus, InputError, TurnReport};
use crate::tile::Move;

verus! {

/// The step taken while no round is started: takes the human's name as it
/// was entered, sets the game in progress and starts a round.
pub fn run_init(game: &mut Game, username: &str)
    ensures
        final(game)@.started_from(
            Round { username: username@, status: GameStatus::OnProgress, ..old(game)@ },
        ),
        old(game)@.order_ok() ==> final(game)@.round_ok(),
{
    game.set_username(username);
    game.set_status(GameStatus::OnProgress);
    game.start();
}

/// The step taken while a round is in progress: one turn, with the human's
/// choice of the tile at `index` and of `side`, and then the verdict where
/// the turn has ended the round.
///
/// A choice that is turned down changes nothing. Otherwise the turn is
/// played as `Game::play` plays it; where the round is then over the winner
/// is resolved and the status becomes `Over`, and else the status stays.
pub fn run_play(game: &mut Game, index: usize, side: Move) -> (outcome: Result<
    TurnReport,
    InputError,
>)
    requires
        old(game)@.turns_ok(),
        old(game)@.dots_fit(),
    ensures
        match outcome {
            Err(fault) => old(game)@.turn(index, side, Err(fault), final(game)@),
            Ok(report) => {
                let played = Round { status: old(game)@.status, ..final(game)@ };
                &&& old(game)@.turn(index, side, Ok(report.event), played)
                &&& match report.over {
                    Some(winner) => {
                        &&& played.finished() == Some(winner.kind)
                        &&& played.names_winner(winner.kind, winner)
                        &&& final(game)@.status == GameStatus::Over
                    },
                    None => played.finished() is None && final(game)@.status == old(
                        game,
                    )@.status,
                }
            },
        },
        final(game)@.turns_ok(),
        final(game)@.dots_fit(),
        old(game)@.round_ok() ==> final(game)@.round_ok(),
{
    let event = match game.play(index, side) {
        Ok(event) => event,
        Err(fault) => {
            return Err(fault);
        },
    };
    let ghost played = game@;
    let over = match game.check_finished() {
        Some(game_over_type) => {
            let winner = game.resolve_winner(game_over_type);
            game.set_status(GameStatus::Over);
            Some(winner)
        },
        None => None,
    };
    proof {
        assert(played == (Round { status: old(game)@.status, ..game@ }));
        if old(game)@.round_ok() {
            status_keeps_round(played, game@.status);
        }
    }
    Ok(TurnReport { event, over })
}

/// The step taken when a round is over: the game goes back to where no round
/// is started.
pub fn run_over(game: &mut Game)
    ensures
        final(game)@ == (Round { status: GameStatus::Init, ..old(game)@ }),
{
    game.set_status(GameStatus::Init);
}

} // verus!
