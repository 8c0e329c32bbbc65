use triple_triad::board::Board;
use triple_triad::card::Card;
use triple_triad::command::Command;
use triple_triad::execute;
use triple_triad::game::Game;
use triple_triad::player::Player;
use triple_triad::rules::RulesImpl;
use triple_triad::state::State;

fn demo_card(id: &str) -> Card {
    Card {
        id: id.to_string(),
        top: 1,
        bottom: 2,
        left: 3,
        right: 4,
    }
}

#[test]
fn on_creation_game_should_be_in_waiting_for_players_state() {
    let game = Game::new();

    assert_eq!(game.state, State::WaitingForPlayers { count: 2 });
}

#[test]
fn when_we_push_one_registering_command_to_the_game_we_should_get_a_state_waiting_for_player_one() {
    let rules = RulesImpl {};
    let mut game = Game::new();

    game = execute(
        &rules,
        game,
        Command::Register {
            name: "Player 1".to_string(),
        },
    );

    assert_eq!(game.state, State::WaitingForPlayers { count: 1 });
    assert_eq!(
        game.players,
        vec![Player {
            name: "Player 1".to_string(),
            hand: vec![]
        }]
    );
}

#[test]
fn when_we_push_two_registering_commands_to_the_game_we_should_get_a_state_waiting_for_card_for_player_one(
) {
    // Given
    let rules = RulesImpl {};
    let mut game = Game::new();

    // When
    game = execute(
        &rules,
        game,
        Command::Register {
            name: "Player 1".to_string(),
        },
    );
    game = execute(
        &rules,
        game,
        Command::Register {
            name: "Player 2".to_string(),
        },
    );

    // Then
    match &game.state {
        State::WaitingForCards { player_count, deck } => {
            assert_eq!(*player_count, 2);
            assert_eq!(deck.len(), 10);
        }
        _ => assert!(false),
    }

    assert_eq!(
        game.players,
        vec![
            Player {
                name: "Player 1".to_string(),
                hand: vec![]
            },
            Player {
                name: "Player 2".to_string(),
                hand: vec![]
            }
        ]
    );
}

#[test]
fn when_we_register_a_player_we_should_reject_him_if_his_name_conflicts_with_already_registered_player(
) {
    // Given
    let rules = RulesImpl {};
    let mut game = Game::new();

    game = execute(
        &rules,
        game,
        Command::Register {
            name: "Player 1".to_string(),
        },
    );

    // When
    let game2 = execute(
        &rules,
        game.clone(),
        Command::Register {
            name: "Player 1".to_string(),
        },
    );

    // Then
    assert_eq!(game.state, game2.state);

    assert_eq!(
        game2.players,
        vec![Player {
            name: "Player 1".to_string(),
            hand: vec![]
        }]
    );
}

#[test]
fn when_the_game_is_in_waiting_for_player_it_should_only_process_register_command() {
    // Given
    let rules = RulesImpl {};
    let mut game = Game::new();

    game = execute(
        &rules,
        game,
        Command::Register {
            name: "Player 1".to_string(),
        },
    );

    // When
    game = execute(&rules, game, Command::ChoosePlayer);

    // Then
    assert_eq!(game.state, State::WaitingForPlayers { count: 1 });

    assert_eq!(
        game.players,
        vec![Player {
            name: "Player 1".to_string(),
            hand: vec![]
        }]
    );
}

#[test]
fn when_the_game_is_waiting_for_players_to_pick_there_card_player_one_select_a_card() {
    // Given
    let rules = RulesImpl {};
    let mut game = Game {
        board: Board::new(),
        players: vec![
            Player {
                name: "Player 1".to_string(),
                hand: vec![],
            },
            Player {
                name: "Player 2".to_string(),
                hand: vec![],
            },
        ],
        state: State::WaitingForCards {
            player_count: 2,
            deck: vec![demo_card("0"), demo_card("1"), demo_card("2"), demo_card("3")],
        },
    };

    // When
    game = execute(
        &rules,
        game,
        Command::SelectCard {
            card_id: "0".to_string(),
        },
    );

    let game2 = execute(
        &rules,
        game.clone(),
        Command::SelectCard {
            card_id: "3".to_string(),
        },
    );

    // Then
    assert_eq!(game.players[0].hand, vec![demo_card("0")]);
    assert_eq!(
        game.state,
        State::WaitingForCards {
            player_count: 2,
            deck: vec![demo_card("1"), demo_card("2"), demo_card("3")]
        }
    );
    assert_eq!(game2.players[0].hand, vec![demo_card("0"), demo_card("3")]);
    assert_eq!(
        game2.state,
        State::WaitingForCards {
            player_count: 2,
            deck: vec![demo_card("1"), demo_card("2")]
        }
    );
}

#[test]
fn when_the_player_have_four_card_in_his_hand_it_pick_his_last_card_the_game_should_wait_for_the_next_player(
) {
    // Given
    let rules = RulesImpl {};
    let mut game = Game {
        board: Board::new(),
        players: vec![
            Player {
                name: "Player 1".to_string(),
                hand: vec![
                    demo_card("0"),
                    demo_card("1"),
                    demo_card("2"),
                    demo_card("3"),
                ],
            },
            Player {
                name: "Player 2".to_string(),
                hand: vec![],
            },
        ],
        state: State::WaitingForCards {
            player_count: 2,
            deck: vec![demo_card("4")],
        },
    };

    // When
    game = execute(
        &rules,
        game,
        Command::SelectCard {
            card_id: "4".to_string(),
        },
    );

    // Then
    assert_eq!(
        game.players[0].hand,
        vec![
            demo_card("0"),
            demo_card("1"),
            demo_card("2"),
            demo_card("3"),
            demo_card("4"),
        ]
    );
    if let State::WaitingForCards { player_count, deck } = game.state {
        assert_eq!(player_count, 1);
        assert_eq!(deck.len(), 10);
    } else {
        assert!(false);
    }
}

#[test]
fn when_all_players_have_their_cards_selected_should_wait_for_the_player_selected_to_play_first() {
    let rules = RulesImpl {};
    let mut game = Game {
        board: Board::new(),
        players: vec![
            Player {
                name: "Player 1".to_string(),
                hand: vec![
                    demo_card("0"),
                    demo_card("1"),
                    demo_card("2"),
                    demo_card("3"),
                    demo_card("4"),
                ],
            },
            Player {
                name: "Player 2".to_string(),
                hand: vec![
                    demo_card("0"),
                    demo_card("1"),
                    demo_card("2"),
                    demo_card("3"),
                ],
            },
        ],
        state: State::WaitingForCards {
            player_count: 1,
            deck: vec![demo_card("4")],
        },
    };

    // When
    game = execute(
        &rules,
        game,
        Command::SelectCard {
            card_id: "4".to_string(),
        },
    );

    if let State::WaitingForPlayerToPlay { player_name } = &game.state {
        assert_eq!(*player_name, game.players[0].name);
    } else {
        assert!(false);
    }
}

#[test]
fn when_the_first_player_play_a_card_it_should_remove_the_card_from_his_hand_and_update_the_board()
{
    let rules = RulesImpl {};
    let mut game = Game {
        board: Board::new(),
        players: vec![
            Player {
                name: "Player 1".to_string(),
                hand: vec![
                    demo_card("0"),
                    demo_card("1"),
                    demo_card("2"),
                    demo_card("3"),
                    demo_card("4"),
                ],
            },
            Player {
                name: "Player 2".to_string(),
                hand: vec![
                    demo_card("0"),
                    demo_card("1"),
                    demo_card("2"),
                    demo_card("3"),
                    demo_card("4"),
                ],
            },
        ],
        state: State::WaitingForPlayerToPlay {
            player_name: "Player 1".to_string(),
        },
    };

    let card_id = game.players[0].hand[0].id.clone();
    game = execute(
        &rules,
        game,
        Command::Play {
            card_id: card_id.clone(),
            x: 0,
            y: 0,
        },
    );

    if let State::WaitingForPlayerToPlay { player_name } = &game.state {
        assert_eq!(*player_name, game.players[1].name);
        assert_eq!(game.players[0].hand.len(), 4);
        let board = game.board.clone();

        assert_eq!(board.get_cell_owner(0, 0).unwrap(), "Player 1");
        assert_eq!(board.get_card_at(0, 0).unwrap().unwrap().id, card_id);
    } else {
        assert!(false);
    }
}

fn test_capture_param(played_card_pos: (u8, u8), check_capture_pos: (u8, u8)) {
    let player_card_index: u8 = played_card_pos.0 * 3 + played_card_pos.1;
    let mut cards = vec![None, None, None, None, None, None, None, None, None];
    cards[usize::from(player_card_index)] = Some(demo_card("4"));

    let mut cell_owner: Vec<Option<String>> =
        vec![None, None, None, None, None, None, None, None, None];
    cell_owner[usize::from(player_card_index)] = Some("Player 1".to_string());

    let rules = RulesImpl {};
    let mut game = Game {
        board: Board { cards, cell_owner },
        players: vec![
            Player {
                name: "Player 1".to_string(),
                hand: vec![],
            },
            Player {
                name: "Player 2".to_string(),
                hand: vec![Card {
                    id: "0".to_string(),
                    top: 5,
                    bottom: 5,
                    left: 5,
                    right: 5,
                }],
            },
        ],
        state: State::WaitingForPlayerToPlay {
            player_name: "Player 2".to_string(),
        },
    };

    let card_id = game.players[1].hand[0].id.clone();
    game = execute(
        &rules,
        game,
        Command::Play {
            card_id: card_id.clone(),
            x: check_capture_pos.0,
            y: check_capture_pos.1,
        },
    );

    let board = game.board.clone();

    assert_eq!(
        board
            .get_cell_owner(played_card_pos.0, played_card_pos.1)
            .unwrap(),
        "Player 2"
    );
}

#[test]
fn when_a_card_is_played_with_a_higher_value_that_one_of_his_neighbour_it_should_capture_it() {
    test_capture_param((0, 0), (1, 0)); // test capture from left side
    test_capture_param((0, 0), (0, 1)); // test capture from top side
    test_capture_param((1, 0), (0, 0)); // test capture from right side
    test_capture_param((0, 1), (0, 0)); // test capture from bottom side
}
