use dominoes::{run_init, run_over, run_play, Game, GameOverType, GameStatus, Move, Tile};

fn piece(tile: &Tile) -> (u8, u8) {
    if tile.0 >= tile.1 {
        (tile.0, tile.1)
    } else {
        (tile.1, tile.0)
    }
}

fn full_set() -> Vec<(u8, u8)> {
    let mut set = Vec::new();
    for high in 0..7u8 {
        for low in 0..=high {
            set.push((high, low));
        }
    }
    set
}

fn all_pieces(game: &Game) -> Vec<(u8, u8)> {
    let mut pieces: Vec<(u8, u8)> = Vec::new();
    for tiles in [
        &game.all_tiles,
        &game.player_deck.deck,
        &game.machine1_deck.deck,
        &game.machine2_deck.deck,
        &game.machine3_deck.deck,
        &game.board,
    ] {
        pieces.extend(tiles.iter().map(piece));
    }
    pieces.sort();
    pieces
}

fn linked(board: &[Tile]) -> bool {
    board.windows(2).all(|pair| pair[0].1 == pair[1].0)
}

#[test]
fn full_set_has_28_distinct_pieces() {
    let set = full_set();
    assert_eq!(set.len(), 28);
    for (at, first) in set.iter().enumerate() {
        assert!(first.1 <= first.0 && first.0 <= 6);
        for second in &set[at + 1..] {
            assert_ne!(first, second);
        }
    }
}

#[test]
fn start_deals_the_whole_set_in_four_hands_of_seven() {
    let mut game = Game::new(GameStatus::OnProgress);
    game.start();
    assert_eq!(game.player_deck.deck.len(), 7);
    assert_eq!(game.machine1_deck.deck.len(), 7);
    assert_eq!(game.machine2_deck.deck.len(), 7);
    assert_eq!(game.machine3_deck.deck.len(), 7);
    assert!(game.all_tiles.is_empty());
    assert!(game.board.is_empty());
    assert_eq!(game.current_turn, 0);
    assert_eq!(all_pieces(&game), full_set());
    for deck in game.get_all_decks() {
        assert!(!deck.passed);
        for tile in &deck.deck {
            assert!(tile.1 <= tile.0 && tile.0 <= 6);
        }
    }
    let mut order = game.turns.clone();
    order.sort();
    assert_eq!(order, vec![1, 2, 3, 4]);
    assert_eq!(*game.get_status(), GameStatus::OnProgress);
}

#[test]
fn start_resets_what_the_last_round_left() {
    let mut game = Game::new(GameStatus::OnProgress);
    game.start();
    game.board.push(Tile(1, 1));
    game.all_tiles.push(Tile(2, 2));
    game.current_turn = 3;
    game.player_deck.passed = true;
    game.machine3_deck.passed = true;
    game.set_username("ana");
    game.start();
    assert!(game.board.is_empty());
    assert!(game.all_tiles.is_empty());
    assert_eq!(game.current_turn, 0);
    assert!(!game.player_deck.passed);
    assert!(!game.machine3_deck.passed);
    assert_eq!(game.get_username(), "ana");
    assert_eq!(all_pieces(&game), full_set());
}

#[test]
fn drawing_takes_seven_tiles_from_the_pool() {
    let mut game = Game::new(GameStatus::OnProgress);
    for high in 0..4u8 {
        for low in 0..=high {
            game.all_tiles.push(Tile(high, low));
        }
    }
    let hand = game.get_random_tiles();
    assert_eq!(hand.len(), 7);
    assert_eq!(game.all_tiles.len(), 3);
    let mut pieces: Vec<(u8, u8)> = hand.iter().chain(game.all_tiles.iter()).map(piece).collect();
    pieces.sort();
    assert_eq!(
        pieces,
        vec![(0, 0), (1, 0), (1, 1), (2, 0), (2, 1), (2, 2), (3, 0), (3, 1), (3, 2), (3, 3)]
    );
}

#[test]
fn dealing_builds_the_set_anew_and_keeps_the_rest() {
    let mut game = Game::new(GameStatus::Over);
    game.all_tiles.push(Tile(9, 9));
    game.board.push(Tile(1, 2));
    game.machine2_deck.passed = true;
    game.current_turn = 2;
    game.deal_tiles();
    assert!(game.all_tiles.is_empty());
    assert_eq!(game.board.len(), 1);
    assert!(game.machine2_deck.passed);
    assert_eq!(game.current_turn, 2);
    assert_eq!(game.turns, vec![1, 2, 3, 4]);
    game.board.clear();
    assert_eq!(all_pieces(&game), full_set());
}

#[test]
fn shuffling_changes_the_order_of_the_deal() {
    let unshuffled: Vec<(u8, u8)> = full_set()[..7].to_vec();
    let mut differs = false;
    for _ in 0..20 {
        let mut game = Game::new(GameStatus::OnProgress);
        game.start();
        let hand: Vec<(u8, u8)> = game.player_deck.deck.iter().map(piece).collect();
        if hand != unshuffled {
            differs = true;
        }
    }
    assert!(differs);
}

#[test]
fn shuffling_changes_the_order_of_play() {
    let mut differs = false;
    for _ in 0..100 {
        let mut game = Game::new(GameStatus::OnProgress);
        game.assign_turn();
        let mut order = game.turns.clone();
        if order != vec![1, 2, 3, 4] {
            differs = true;
        }
        order.sort();
        assert_eq!(order, vec![1, 2, 3, 4]);
    }
    assert!(differs);
}

#[test]
fn init_step_names_the_human_and_starts_a_round() {
    let mut game = Game::new(GameStatus::Init);
    run_init(&mut game, "ana\n");
    assert_eq!(game.get_username(), "ana\n");
    assert_eq!(*game.get_status(), GameStatus::OnProgress);
    assert_eq!(game.player_deck.deck.len(), 7);
    assert_eq!(all_pieces(&game), full_set());
}

#[test]
fn over_step_goes_back_to_init_and_keeps_the_rest() {
    let mut game = Game::new(GameStatus::Over);
    game.set_username("ana");
    game.board.push(Tile(1, 2));
    run_over(&mut game);
    assert_eq!(*game.get_status(), GameStatus::Init);
    assert_eq!(game.get_username(), "ana");
    assert_eq!(game.board.len(), 1);
}

#[test]
fn play_step_reports_the_winner_and_ends_the_round() {
    let mut game = Game::new(GameStatus::OnProgress);
    game.set_username("ana");
    game.board = vec![Tile(6, 6)];
    game.player_deck.deck = vec![Tile(6, 0)];
    game.machine1_deck.deck = vec![Tile(1, 1)];
    game.machine2_deck.deck = vec![Tile(2, 2)];
    game.machine3_deck.deck = vec![Tile(3, 3)];
    let report = run_play(&mut game, 0, Move::Head).unwrap();
    assert_eq!(format!("{:?}", report.event), "Played { index: 0, side: Head }");
    let winner = report.over.unwrap();
    assert_eq!(winner.kind, GameOverType::DirectWinner);
    assert_eq!(winner.player, 0);
    assert_eq!(winner.name, "ana");
    assert_eq!(*game.get_status(), GameStatus::Over);
    assert_eq!(game.board.len(), 2);
    assert_eq!((game.board[0].0, game.board[0].1), (0, 6));
}

#[test]
fn play_step_closes_the_game_when_the_last_player_passes() {
    let mut game = Game::new(GameStatus::OnProgress);
    game.board = vec![Tile(6, 6)];
    game.current_turn = 3;
    game.player_deck = dominoes::Deck { passed: true, deck: vec![Tile(4, 3)] };
    game.machine1_deck = dominoes::Deck { passed: true, deck: vec![Tile(2, 1)] };
    game.machine2_deck = dominoes::Deck { passed: true, deck: vec![Tile(5, 5)] };
    game.machine3_deck = dominoes::Deck { passed: false, deck: vec![Tile(3, 0)] };
    let report = run_play(&mut game, 0, Move::Head).unwrap();
    assert_eq!(format!("{:?}", report.event), "Passed");
    let winner = report.over.unwrap();
    assert_eq!(winner.kind, GameOverType::AllPassed);
    assert_eq!(winner.player, 1);
    assert_eq!(winner.dots, vec![7, 3, 10, 3]);
    assert_eq!(*game.get_status(), GameStatus::Over);
    assert_eq!(game.current_turn, 0);
}

#[test]
fn play_step_leaves_the_status_while_the_round_goes_on() {
    let mut game = Game::new(GameStatus::OnProgress);
    game.board = vec![Tile(6, 6)];
    game.player_deck.deck = vec![Tile(6, 0), Tile(1, 0)];
    game.machine1_deck.deck = vec![Tile(1, 1)];
    game.machine2_deck.deck = vec![Tile(2, 2)];
    game.machine3_deck.deck = vec![Tile(3, 3)];
    assert!(run_play(&mut game, 5, Move::Head).is_err());
    assert_eq!(game.current_turn, 0);
    let report = run_play(&mut game, 0, Move::Head).unwrap();
    assert!(report.over.is_none());
    assert_eq!(*game.get_status(), GameStatus::OnProgress);
    assert_eq!(game.current_turn, 1);
}

#[test]
fn whole_rounds_keep_the_set_and_the_chain() {
    for _ in 0..30 {
        let mut game = Game::new(GameStatus::Init);
        run_init(&mut game, "ana");
        let mut turns = 0;
        let winner = loop {
            assert!(turns < 200);
            turns += 1;
            let (index, side) = if game.awaits_user() {
                let mut choice = None;
                for index in 0..game.player_deck.deck.len() {
                    match game.check_user_move(index) {
                        Ok(Move::Both) => choice = Some((index, Move::Tail)),
                        Ok(kind) => choice = Some((index, kind)),
                        Err(_) => {}
                    }
                }
                choice.unwrap()
            } else {
                (0, Move::Pass)
            };
            let board_before = game.board.len();
            let hands_before: usize = game.get_all_decks().iter().map(|d| d.deck.len()).sum();
            let report = run_play(&mut game, index, side).unwrap();
            let hands_after: usize = game.get_all_decks().iter().map(|d| d.deck.len()).sum();
            assert_eq!(all_pieces(&game), full_set());
            assert!(linked(&game.board));
            match report.event {
                dominoes::TurnEvent::Passed => {
                    assert_eq!(game.board.len(), board_before);
                    assert_eq!(hands_after, hands_before);
                }
                dominoes::TurnEvent::Played { .. } => {
                    assert_eq!(game.board.len(), board_before + 1);
                    assert_eq!(hands_after, hands_before - 1);
                }
            }
            if let Some(winner) = report.over {
                break winner;
            }
            assert_eq!(*game.get_status(), GameStatus::OnProgress);
        };
        assert_eq!(*game.get_status(), GameStatus::Over);
        let decks = game.get_all_decks();
        match winner.kind {
            GameOverType::DirectWinner => assert!(decks[winner.player].deck.is_empty()),
            GameOverType::AllPassed => {
                assert!(decks.iter().all(|d| d.passed && !d.deck.is_empty()));
                let least = winner.dots.iter().min().unwrap();
                assert_eq!(winner.dots.iter().position(|d| d == least), Some(winner.player));
            }
        }
        run_over(&mut game);
        assert_eq!(*game.get_status(), GameStatus::Init);
    }
}

#[test]
fn default_game_has_nothing_set() {
    let game = Game::default();
    assert_eq!(*game.get_status(), GameStatus::Init);
    assert_eq!(game.get_username(), "");
    assert!(game.turns.is_empty());
    assert!(game.board.is_empty());
    assert!(game.all_tiles.is_empty());
    assert!(game.player_deck.deck.is_empty());
    assert!(!game.player_deck.passed);
    let fresh = Game::new(GameStatus::Over);
    assert_eq!(*fresh.get_status(), GameStatus::Over);
    assert_eq!(fresh.turns, vec![1, 2, 3, 4]);
    assert_eq!(fresh.current_turn, 0);
}
