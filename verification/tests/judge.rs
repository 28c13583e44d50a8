use dominoes::{Deck, Game, GameOverType, GameStatus, Move, Tile};

fn deck_of(passed: bool, tiles: &[(u8, u8)]) -> Deck {
    Deck { passed, deck: tiles.iter().map(|t| Tile(t.0, t.1)).collect() }
}

#[test]
fn it_check_all_passed() {
    let mut game = Game::new(GameStatus::OnProgress);
    game.player_deck = Deck {
        passed: true,
        deck: vec![Tile(0, 1)],
    };
    game.machine1_deck = Deck {
        passed: true,
        deck: vec![Tile(0, 1)],
    };
    game.machine2_deck = Deck {
        passed: true,
        deck: vec![Tile(0, 1)],
    };
    game.machine3_deck = Deck {
        passed: true,
        deck: vec![Tile(0, 1)],
    };
    assert_eq!(game.check_finished(), Some(GameOverType::AllPassed));
}

#[test]
fn it_check_empty_deck() {
    let mut game = Game::new(GameStatus::OnProgress);
    game.player_deck = Deck {
        passed: false,
        deck: vec![Tile(0, 1)],
    };
    game.machine1_deck = Deck {
        passed: true,
        deck: vec![Tile(0, 1)],
    };
    game.machine2_deck = Deck {
        passed: false,
        deck: vec![],
    };
    game.machine3_deck = Deck {
        passed: true,
        deck: vec![Tile(0, 1)],
    };
    assert_eq!(game.check_finished(), Some(GameOverType::DirectWinner));
}

#[test]
fn it_check_player_name() {
    let mut game = Game::new(GameStatus::OnProgress);
    game.set_username("test_user");
    assert_eq!(game.get_player_name(0), "test_user");
}

#[test]
fn it_check_swap_on_tile() {
    let mut tile = Tile(1, 2);
    assert_eq!(tile.0, 1);
    tile.swap();
    assert_eq!(tile.0, 2);
}

#[test]
fn swap_exchanges_both_values_and_twice_restores() {
    let mut tile = Tile(6, 0);
    tile.swap();
    assert_eq!((tile.0, tile.1), (0, 6));
    tile.swap();
    assert_eq!((tile.0, tile.1), (6, 0));
}

#[test]
fn machines_are_named_by_number() {
    let mut game = Game::new(GameStatus::Init);
    game.set_username("ana");
    assert_eq!(game.get_player_name(1), "Machine 2");
    assert_eq!(game.get_player_name(2), "Machine 3");
    assert_eq!(game.get_player_name(3), "Machine 4");
    assert_eq!(game.get_username(), "ana");
}

#[test]
fn not_finished_while_hands_hold_tiles_and_someone_has_not_passed() {
    let mut game = Game::new(GameStatus::OnProgress);
    game.player_deck = deck_of(true, &[(0, 1)]);
    game.machine1_deck = deck_of(true, &[(0, 2)]);
    game.machine2_deck = deck_of(false, &[(0, 3)]);
    game.machine3_deck = deck_of(true, &[(0, 4)]);
    assert_eq!(game.check_finished(), None);
}

#[test]
fn empty_hand_wins_even_when_all_passed() {
    let mut game = Game::new(GameStatus::OnProgress);
    game.player_deck = deck_of(true, &[(0, 1)]);
    game.machine1_deck = deck_of(true, &[(0, 2)]);
    game.machine2_deck = deck_of(true, &[(0, 3)]);
    game.machine3_deck = deck_of(true, &[]);
    assert_eq!(game.check_finished(), Some(GameOverType::DirectWinner));
}

#[test]
fn new_game_with_empty_hands_is_a_direct_win() {
    let game = Game::new(GameStatus::Init);
    assert_eq!(game.check_finished(), Some(GameOverType::DirectWinner));
}

#[test]
fn tie_goes_to_first_of_the_fewest_pips() {
    let mut game = Game::new(GameStatus::OnProgress);
    game.set_username("ana");
    game.player_deck = deck_of(true, &[(4, 3)]);
    game.machine1_deck = deck_of(true, &[(2, 1)]);
    game.machine2_deck = deck_of(true, &[(5, 5)]);
    game.machine3_deck = deck_of(true, &[(3, 0)]);
    let (winner, dots) = game.get_tie_winner();
    assert_eq!(winner, 1);
    assert_eq!(dots, vec![7, 3, 10, 3]);
    assert_eq!(dots[winner], 3);

    let verdict = game.resolve_winner(GameOverType::AllPassed);
    assert_eq!(verdict.kind, GameOverType::AllPassed);
    assert_eq!(verdict.player, 1);
    assert_eq!(verdict.name, "Machine 2");
    assert_eq!(verdict.dots, vec![7, 3, 10, 3]);
}

#[test]
fn tie_counts_every_tile_of_a_hand() {
    let mut game = Game::new(GameStatus::OnProgress);
    game.player_deck = deck_of(true, &[(6, 6), (6, 5), (0, 0)]);
    game.machine1_deck = deck_of(true, &[(1, 0), (2, 0), (3, 0), (4, 0)]);
    game.machine2_deck = deck_of(true, &[(5, 4), (1, 1)]);
    game.machine3_deck = deck_of(true, &[(2, 2), (3, 3)]);
    let (winner, dots) = game.get_tie_winner();
    assert_eq!(dots, vec![23, 10, 11, 10]);
    assert_eq!(winner, 1);
}

#[test]
fn tie_can_go_to_the_human_or_the_last_machine() {
    let mut game = Game::new(GameStatus::OnProgress);
    game.player_deck = deck_of(true, &[(0, 0)]);
    game.machine1_deck = deck_of(true, &[(0, 0)]);
    game.machine2_deck = deck_of(true, &[(1, 0)]);
    game.machine3_deck = deck_of(true, &[(1, 1)]);
    assert_eq!(game.get_tie_winner().0, 0);

    game.player_deck = deck_of(true, &[(6, 0)]);
    game.machine1_deck = deck_of(true, &[(5, 0)]);
    game.machine2_deck = deck_of(true, &[(4, 0)]);
    game.machine3_deck = deck_of(true, &[(2, 1)]);
    assert_eq!(game.get_tie_winner().0, 3);
}

#[test]
fn direct_winner_is_the_first_empty_hand() {
    let mut game = Game::new(GameStatus::OnProgress);
    game.set_username("ana");
    game.player_deck = deck_of(false, &[(0, 1)]);
    game.machine1_deck = deck_of(false, &[(0, 2)]);
    game.machine2_deck = deck_of(false, &[]);
    game.machine3_deck = deck_of(false, &[]);
    assert_eq!(game.get_direct_winner(), Some("Machine 3".to_string()));
    let verdict = game.resolve_winner(GameOverType::DirectWinner);
    assert_eq!(verdict.kind, GameOverType::DirectWinner);
    assert_eq!(verdict.player, 2);
    assert_eq!(verdict.name, "Machine 3");
    assert!(verdict.dots.is_empty());

    game.player_deck = deck_of(false, &[]);
    assert_eq!(game.get_direct_winner(), Some("ana".to_string()));
    assert_eq!(game.resolve_winner(GameOverType::DirectWinner).player, 0);
}

#[test]
fn no_direct_winner_while_every_hand_holds_a_tile() {
    let mut game = Game::new(GameStatus::OnProgress);
    game.player_deck = deck_of(false, &[(0, 1)]);
    game.machine1_deck = deck_of(false, &[(0, 2)]);
    game.machine2_deck = deck_of(false, &[(0, 3)]);
    game.machine3_deck = deck_of(false, &[(0, 4)]);
    assert_eq!(game.get_direct_winner(), None);
}

#[test]
fn status_is_read_back_as_set() {
    let mut game = Game::new(GameStatus::Init);
    assert_eq!(*game.get_status(), GameStatus::Init);
    game.set_status(GameStatus::OnProgress);
    assert_eq!(*game.get_status(), GameStatus::OnProgress);
    game.set_status(GameStatus::Over);
    assert_eq!(*game.get_status(), GameStatus::Over);
    assert_eq!(GameStatus::default(), GameStatus::Init);
}

#[test]
fn all_decks_come_in_player_order() {
    let mut game = Game::new(GameStatus::OnProgress);
    game.player_deck = deck_of(false, &[(0, 1)]);
    game.machine1_deck = deck_of(true, &[(0, 2), (1, 1)]);
    game.machine2_deck = deck_of(false, &[]);
    game.machine3_deck = deck_of(true, &[(0, 4), (2, 2), (3, 3)]);
    let decks = game.get_all_decks();
    let sizes: Vec<usize> = decks.iter().map(|d| d.deck.len()).collect();
    let passed: Vec<bool> = decks.iter().map(|d| d.passed).collect();
    assert_eq!(sizes, vec![1, 2, 0, 3]);
    assert_eq!(passed, vec![false, true, false, true]);
    assert_eq!(game.get_machine_from_turn(2).deck.len(), 2);
    assert_eq!(game.get_machine_from_turn(3).deck.len(), 0);
    assert_eq!(game.get_machine_from_turn(4).deck.len(), 3);
    game.get_mut_machine_from_turn(3).passed = true;
    assert!(game.machine2_deck.passed);
}

#[test]
fn side_numbers_name_head_and_tail_only() {
    assert_eq!(Game::get_dir_input(0), Some(Move::Head));
    assert_eq!(Game::get_dir_input(1), Some(Move::Tail));
    assert_eq!(Game::get_dir_input(2), None);
    assert_eq!(Game::get_dir_input(u32::MAX), None);
}
