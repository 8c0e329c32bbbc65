use triple_triad::board::Board;
use triple_triad::card::Card;
use triple_triad::cell::Cell;
use triple_triad::command::Command;
use triple_triad::execute;
use triple_triad::game::Game;
use triple_triad::owner::Owner;
use triple_triad::player::Player;
use triple_triad::rules::RulesImpl;
use triple_triad::state::State;
use triple_triad::strength::Strength;

fn card_with(id: &str, top: u8, right: u8, bottom: u8, left: u8) -> Card {
    Card {
        id: id.to_string(),
        top,
        right,
        bottom,
        left,
    }
}

fn player(name: &str, hand: Vec<Card>) -> Player {
    Player {
        name: name.to_string(),
        hand,
    }
}

#[test]
fn a_new_board_is_empty_everywhere() {
    let board = Board::new();
    for x in 0..3u8 {
        for y in 0..3u8 {
            assert_eq!(board.get_card_at(x, y).unwrap(), None);
        }
    }
    assert!(!board.is_full());
}

#[test]
fn out_of_bounds_coordinates_are_reported() {
    let board = Board::new();
    assert_eq!(board.get_card_at(3, 0), Err("Out of bounds".to_string()));
    assert_eq!(board.get_card_at(0, 9), Err("Out of bounds".to_string()));
    assert_eq!(board.get_cell_owner(3, 0), Err("Out of bounds".to_string()));
    // a column beyond the grid must not alias into the next row
    assert_eq!(board.get_card_at(1, 4), Err("Out of bounds".to_string()));
    assert_eq!(board.get_cell_owner(1, 4), Err("Out of bounds".to_string()));
}

#[test]
fn placing_outside_the_grid_changes_nothing() {
    let alice = player("Alice", vec![]);
    let card = card_with("a", 1, 2, 3, 4);
    let board = Board::new().set_card_at(&alice, &card, 1, 4);
    for x in 0..3u8 {
        for y in 0..3u8 {
            assert_eq!(board.get_card_at(x, y).unwrap(), None);
        }
    }
}

#[test]
fn placing_on_an_occupied_cell_changes_nothing_on_the_board() {
    let alice = player("Alice", vec![]);
    let bob = player("Bob", vec![]);
    let first = card_with("a", 1, 2, 3, 4);
    let second = card_with("b", 5, 6, 7, 8);

    let board = Board::new().set_card_at(&alice, &first, 1, 1);
    let board = board.set_card_at(&bob, &second, 1, 1);

    assert_eq!(board.get_card_at(1, 1).unwrap().unwrap().id, "a");
    assert_eq!(board.get_cell_owner(1, 1).unwrap(), "Alice");
}

#[test]
fn reassigning_a_cell_owner_keeps_the_card() {
    let alice = player("Alice", vec![]);
    let bob = player("Bob", vec![]);
    let card = card_with("a", 1, 2, 3, 4);

    let board = Board::new().set_card_at(&alice, &card, 0, 2);
    let board = board.set_cell_owner(bob, 0, 2);

    assert_eq!(board.get_card_at(0, 2).unwrap().unwrap().id, "a");
    assert_eq!(board.get_cell_owner(0, 2).unwrap(), "Bob");
}

#[test]
fn tally_counts_cells_per_registration_order() {
    let alice = player("Alice", vec![]);
    let bob = player("Bob", vec![]);
    let board = Board::new()
        .set_card_at(&alice, &card_with("a", 1, 1, 1, 1), 0, 0)
        .set_card_at(&alice, &card_with("b", 1, 1, 1, 1), 0, 1)
        .set_card_at(&bob, &card_with("c", 1, 1, 1, 1), 2, 2);

    let players = vec![alice, bob];
    assert_eq!(board.tally(&players), (2, 1));
    assert!(!board.is_full());
}

#[test]
fn the_played_card_leaves_the_hand_even_when_the_cell_is_occupied() {
    // The placement itself is a no-op, yet the card is still dropped
    // from the acting player's hand and the turn passes on.
    let alice = player("Alice", vec![]);
    let blocker = card_with("block", 10, 10, 10, 10);
    let board = Board::new().set_card_at(&alice, &blocker, 1, 1);

    let rules = RulesImpl {};
    let game = Game {
        board,
        players: vec![
            player("Alice", vec![]),
            player("Bob", vec![card_with("played", 1, 1, 1, 1)]),
        ],
        state: State::WaitingForPlayerToPlay {
            player_name: "Bob".to_string(),
        },
    };

    let game = execute(
        &rules,
        game,
        Command::Play {
            card_id: "played".to_string(),
            x: 1,
            y: 1,
        },
    );

    assert_eq!(game.board.get_card_at(1, 1).unwrap().unwrap().id, "block");
    assert_eq!(game.board.get_cell_owner(1, 1).unwrap(), "Alice");
    assert_eq!(game.players[1].hand.len(), 0);
    assert_eq!(
        game.state,
        State::WaitingForPlayerToPlay {
            player_name: "Alice".to_string()
        }
    );
}

fn nearly_full_game(last_player: &str) -> Game {
    // Every cell but the centre carries an uncapturable card; the
    // first four belong to Alice, the last four to Bob.
    let alice = player("Alice", vec![]);
    let bob = player("Bob", vec![]);
    let mut board = Board::new();
    let mut index = 0u8;
    for x in 0..3u8 {
        for y in 0..3u8 {
            if (x, y) == (1, 1) {
                continue;
            }
            let owner = if index < 4 { &alice } else { &bob };
            let id = format!("cell{}", index);
            board = board.set_card_at(owner, &card_with(&id, 10, 10, 10, 10), x, y);
            index += 1;
        }
    }
    Game {
        board,
        players: vec![
            player("Alice", vec![]),
            player("Bob", vec![card_with("last", 1, 1, 1, 1)]),
        ],
        state: State::WaitingForPlayerToPlay {
            player_name: last_player.to_string(),
        },
    }
}

#[test]
fn filling_the_board_ends_the_game_with_the_majority_owner() {
    let rules = RulesImpl {};
    let game = nearly_full_game("Bob");
    let game = execute(
        &rules,
        game,
        Command::Play {
            card_id: "last".to_string(),
            x: 1,
            y: 1,
        },
    );

    assert!(game.board.is_full());
    assert_eq!(
        game.state,
        State::EndOfGame {
            scores: (4, 5),
            winner: "Bob".to_string()
        }
    );
}

#[test]
fn filling_the_board_can_crown_the_first_player() {
    let rules = RulesImpl {};
    let mut game = nearly_full_game("Alice");
    // Hand the closing card to Alice instead.
    game.players[0].hand = vec![card_with("last", 1, 1, 1, 1)];
    game.players[1].hand = vec![];

    let game = execute(
        &rules,
        game,
        Command::Play {
            card_id: "last".to_string(),
            x: 1,
            y: 1,
        },
    );

    assert_eq!(
        game.state,
        State::EndOfGame {
            scores: (5, 4),
            winner: "Alice".to_string()
        }
    );
}

#[test]
fn the_finished_game_ignores_every_command() {
    let rules = RulesImpl {};
    let game = Game {
        board: Board::new(),
        players: vec![player("Alice", vec![]), player("Bob", vec![])],
        state: State::EndOfGame {
            scores: (5, 4),
            winner: "Alice".to_string(),
        },
    };

    let after = execute(
        &rules,
        game.clone(),
        Command::Register {
            name: "Carol".to_string(),
        },
    );
    assert_eq!(after.state, game.state);
    assert_eq!(after.players, game.players);

    let after = execute(&rules, game.clone(), Command::Check { x: 0, y: 0 });
    assert_eq!(after.state, game.state);
}

#[test]
fn selecting_an_unknown_card_keeps_hand_and_deck() {
    let rules = RulesImpl {};
    let game = Game {
        board: Board::new(),
        players: vec![player("Alice", vec![]), player("Bob", vec![])],
        state: State::WaitingForCards {
            player_count: 2,
            deck: vec![card_with("a", 1, 2, 3, 4)],
        },
    };

    let game = execute(
        &rules,
        game,
        Command::SelectCard {
            card_id: "missing".to_string(),
        },
    );

    assert_eq!(game.players[0].hand.len(), 0);
    assert_eq!(
        game.state,
        State::WaitingForCards {
            player_count: 2,
            deck: vec![card_with("a", 1, 2, 3, 4)],
        }
    );
}

#[test]
fn dropping_a_card_removes_every_copy_of_its_token() {
    let p = player(
        "Alice",
        vec![
            card_with("x", 1, 1, 1, 1),
            card_with("x", 2, 2, 2, 2),
            card_with("y", 3, 3, 3, 3),
        ],
    );
    let dropped = p.drop_card(&card_with("x", 1, 1, 1, 1));
    assert_eq!(dropped.name, "Alice");
    assert_eq!(dropped.hand, vec![card_with("y", 3, 3, 3, 3)]);
}

#[test]
fn card_lines_show_the_top_strength() {
    let card = card_with("id", 7, 1, 2, 3);
    let lines = card.to_lines("unused".to_string());
    assert_eq!(lines, ["   7   |", "   7   |", "   7   |"]);

    let wide = card_with("id", 10, 1, 2, 3);
    let wide_lines = wide.to_lines("unused".to_string());
    assert_eq!(wide_lines[0], "   10   |");
}

#[test]
fn empty_cells_render_blank_segments() {
    let lines = Cell::Empty.to_lines();
    assert_eq!(lines, ["       |", "       |", "       |"]);
}

#[test]
fn strengths_and_owners_render_their_signs() {
    assert_eq!(Strength::One.to_value(), '1');
    assert_eq!(Strength::Nine.to_value(), '9');
    assert_eq!(Strength::A.to_value(), 'A');
    assert_eq!(Owner::PlayerOne.to_sign(), "o");
    assert_eq!(Owner::PlayerTwo.to_sign(), "x");
}

#[test]
fn a_capture_flips_the_neighbour_and_keeps_its_card() {
    // Player 1 owns (0,0) with edges top 1, right 4, bottom 2, left 3;
    // Player 2 plays an all-5 card next to it at (1,0) and takes both
    // cells, while the captured card itself is untouched.
    let alice = player("Player 1", vec![]);
    let defender = card_with("defender", 1, 4, 2, 3);
    let board = Board::new().set_card_at(&alice, &defender, 0, 0);

    let rules = RulesImpl {};
    let game = Game {
        board,
        players: vec![
            player("Player 1", vec![]),
            player("Player 2", vec![card_with("attacker", 5, 5, 5, 5)]),
        ],
        state: State::WaitingForPlayerToPlay {
            player_name: "Player 2".to_string(),
        },
    };

    let game = execute(
        &rules,
        game,
        Command::Play {
            card_id: "attacker".to_string(),
            x: 1,
            y: 0,
        },
    );

    assert_eq!(game.board.get_cell_owner(1, 0).unwrap(), "Player 2");
    assert_eq!(game.board.get_cell_owner(0, 0).unwrap(), "Player 2");
    assert_eq!(game.board.get_card_at(0, 0).unwrap().unwrap().id, "defender");
}

#[test]
fn equal_edges_never_capture() {
    let alice = player("Player 1", vec![]);
    let defender = card_with("defender", 5, 5, 5, 5);
    let board = Board::new().set_card_at(&alice, &defender, 0, 0);

    let rules = RulesImpl {};
    let game = Game {
        board,
        players: vec![
            player("Player 1", vec![]),
            player("Player 2", vec![card_with("attacker", 5, 5, 5, 5)]),
        ],
        state: State::WaitingForPlayerToPlay {
            player_name: "Player 2".to_string(),
        },
    };

    let game = execute(
        &rules,
        game,
        Command::Play {
            card_id: "attacker".to_string(),
            x: 1,
            y: 0,
        },
    );

    assert_eq!(game.board.get_cell_owner(1, 0).unwrap(), "Player 2");
    assert_eq!(game.board.get_cell_owner(0, 0).unwrap(), "Player 1");
}
