pub mod board;
pub mod card;
pub mod cell;
pub mod command;
pub mod game;
pub mod grid;
pub mod laws;
pub mod owner;
pub mod player;
pub mod rules;
pub mod state;
pub mod strength;

use vstd::prelude::*;

use crate::card::CardView;
use crate::command::{Command, CommandView};
use crate::game::{Game, GameView};
use crate::rules::{
    deck_ok, lemma_some_balanced_deck, play_spec, register_spec, select_spec, some_balanced_deck,
    Rules,
};
use crate::state::{State, StateView};

verus! {

/// One full dispatch step: the command is handed to the transition of
/// the current phase, and commands that do not fit that phase leave the
/// game untouched.  `fresh_deck` stands for whatever deck the engine
/// would generate if the step calls for one.
pub open spec fn execute_spec(g: GameView, c: CommandView, fresh_deck: Seq<CardView>) -> GameView {
    match g.state {
        StateView::WaitingForPlayers { .. } => match c {
            CommandView::Register { name } => register_spec(g, name, fresh_deck),
            _ => g,
        },
        StateView::WaitingForCards { .. } => match c {
            CommandView::SelectCard { card_id } => select_spec(g, card_id, fresh_deck),
            _ => g,
        },
        StateView::WaitingForPlayerToPlay { .. } => match c {
            CommandView::Play { card_id, x, y } => play_spec(g, card_id, x, y),
            _ => g,
        },
        StateView::EndOfGame { .. } => g,
    }
}

/// While players register, only a registration command does anything.
pub fn execute_command_for_waiting_for_player_state(
    rules: &impl Rules,
    game: Game,
    command: Command,
) -> (res: Game)
    requires
        game@.wf(),
    ensures
        res@.wf(),
        exists|d: Seq<CardView>|
            #![auto]
            deck_ok(d) && res@ == (match command.deep_view() {
                CommandView::Register { name } => register_spec(game@, name, d),
                _ => game@,
            }),
{
    match command {
        Command::Register { name } => rules.register_player(game, name),
        _ => {
            proof {
                lemma_some_balanced_deck();
            }
            game
        },
    }
}

/// While players draft, only a card-selection command does anything.
pub fn execute_command_for_waiting_for_card_state(
    rules: &impl Rules,
    game: Game,
    command: Command,
) -> (res: Game)
    requires
        game@.wf(),
    ensures
        res@.wf(),
        exists|d: Seq<CardView>|
            #![auto]
            deck_ok(d) && res@ == (match command.deep_view() {
                CommandView::SelectCard { card_id } => select_spec(game@, card_id, d),
                _ => game@,
            }),
{
    match command {
        Command::SelectCard { card_id } => rules.select_card(game, card_id),
        _ => {
            proof {
                lemma_some_balanced_deck();
            }
            game
        },
    }
}

/// While a player is to place a card, only a play command does
/// anything.
pub fn execute_command_for_waiting_for_player_to_play(
    rules: &impl Rules,
    game: Game,
    command: Command,
) -> (res: Game)
    requires
        game@.wf(),
    ensures
        res@.wf(),
        res@ == (match command.deep_view() {
            CommandView::Play { card_id, x, y } => play_spec(game@, card_id, x, y),
            _ => game@,
        }),
{
    match command {
        Command::Play { card_id, x, y } => rules.play_card(game, card_id, x, y),
        _ => game,
    }
}

/// The dispatch entrypoint: hand a command and the current game to the
/// rules, and take back the transformed game.
pub fn execute(rules: &impl Rules, game: Game, command: Command) -> (res: Game)
    requires
        game@.wf(),
    ensures
        res@.wf(),
        exists|d: Seq<CardView>|
            #![auto]
            deck_ok(d) && res@ == execute_spec(game@, command.deep_view(), d),
{
    let ghost gv = game@;
    let ghost cv = command.deep_view();
    match &game.state {
        State::WaitingForPlayers { .. } => {
            let res = execute_command_for_waiting_for_player_state(rules, game, command);
            proof {
                let d = choose|d: Seq<CardView>|
                    #![auto]
                    deck_ok(d) && res@ == (match cv {
                        CommandView::Register { name } => register_spec(gv, name, d),
                        _ => gv,
                    });
                assert(deck_ok(d) && res@ == execute_spec(gv, cv, d));
            }
            res
        },
        State::WaitingForCards { .. } => {
            let res = execute_command_for_waiting_for_card_state(rules, game, command);
            proof {
                let d = choose|d: Seq<CardView>|
                    #![auto]
                    deck_ok(d) && res@ == (match cv {
                        CommandView::SelectCard { card_id } => select_spec(gv, card_id, d),
                        _ => gv,
                    });
                assert(deck_ok(d) && res@ == execute_spec(gv, cv, d));
            }
            res
        },
        State::WaitingForPlayerToPlay { .. } => {
            let res = execute_command_for_waiting_for_player_to_play(rules, game, command);
            proof {
                lemma_some_balanced_deck();
                assert(res@ == execute_spec(gv, cv, some_balanced_deck()));
            }
            res
        },
        State::EndOfGame { .. } => {
            proof {
                lemma_some_balanced_deck();
            }
            game
        },
    }
}

} // verus!
