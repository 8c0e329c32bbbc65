use vstd::prelude::*;

use crate::board::{cell_in_bounds, cell_index, count_owned_by};
use crate::card::CardView;
use crate::game::GameView;
use crate::player::PlayerView;
use crate::rules::{
    captures, deck_ok, find_card, find_player, lemma_find_player_names, play_spec, register_spec,
    replace_matching, select_spec,
};
use crate::state::StateView;

verus! {

/// Registering the name already held by the sole registered player is
/// a no-op, whatever deck the generator would have produced.
pub proof fn lemma_register_duplicate_noop(g: GameView, name: Seq<char>, d: Seq<CardView>)
    requires
        g.wf(),
        g.state == (StateView::WaitingForPlayers { count: 1u8 }),
        g.players[0].name == name,
    ensures
        register_spec(g, name, d) == g,
{
}

/// Registering two distinct names takes a fresh game from two seats
/// free, to one seat free, to the draft of the first player over a
/// full ten-card deck.
pub proof fn lemma_register_two_distinct(
    g: GameView,
    name1: Seq<char>,
    name2: Seq<char>,
    d1: Seq<CardView>,
    d2: Seq<CardView>,
)
    requires
        g.wf(),
        g.state == (StateView::WaitingForPlayers { count: 2u8 }),
        name1 != name2,
        deck_ok(d2),
    ensures
        ({
            let g1 = register_spec(g, name1, d1);
            let g2 = register_spec(g1, name2, d2);
            &&& g1.state == (StateView::WaitingForPlayers { count: 1u8 })
            &&& g1.players == seq![PlayerView { name: name1, hand: Seq::<CardView>::empty() }]
            &&& g2.state == (StateView::WaitingForCards { player_count: 2u8, deck: d2 })
            &&& d2.len() == 10
            &&& g2.players.len() == 2
            &&& g2.players[0].name == name1
            &&& g2.players[1].name == name2
        }),
{
}

/// Drafting the fifth card for the last drafting player opens play
/// with the first registered player.
pub proof fn lemma_draft_fifth_card(g: GameView, card_id: Seq<char>, d: Seq<CardView>)
    requires
        g.wf(),
        g.state matches StateView::WaitingForCards { player_count, deck } && player_count == 1
            && find_card(deck, card_id) >= 0,
        g.players[1].hand.len() == 4,
    ensures
        select_spec(g, card_id, d).state == (StateView::WaitingForPlayerToPlay {
            player_name: g.players[0].name,
        }),
        select_spec(g, card_id, d).players[1].hand.len() == 5,
{
}

/// Playing onto an already-occupied cell leaves the board untouched
/// whenever no neighbour capture fires; the played card still leaves
/// the acting player's hand, and every other player is untouched.
pub proof fn lemma_play_occupied_cell(g: GameView, card_id: Seq<char>, x: u8, y: u8)
    requires
        g.wf(),
        g.state is WaitingForPlayerToPlay,
        ({
            let player_name = g.state->WaitingForPlayerToPlay_player_name;
            let pi = find_player(g.players, player_name);
            &&& pi >= 0
            &&& {
                let ci = find_card(g.players[pi].hand, card_id);
                &&& ci >= 0
                &&& {
                    let card = g.players[pi].hand[ci];
                    &&& !captures(g.board, card, x, y, -1, 0)
                    &&& !captures(g.board, card, x, y, 0, -1)
                    &&& !captures(g.board, card, x, y, 1, 0)
                    &&& !captures(g.board, card, x, y, 0, 1)
                }
            }
        }),
        cell_in_bounds(x, y),
        g.board.cards[cell_index(x, y)] is Some,
    ensures
        play_spec(g, card_id, x, y).board == g.board,
        ({
            let player_name = g.state->WaitingForPlayerToPlay_player_name;
            let pi = find_player(g.players, player_name);
            let card = g.players[pi].hand[find_card(g.players[pi].hand, card_id)];
            let r = play_spec(g, card_id, x, y);
            &&& r.players.len() == g.players.len()
            &&& forall|j: int|
                0 <= j < g.players.len() && g.players[j].name != player_name
                    ==> r.players[j] == g.players[j]
            &&& forall|j: int|
                0 <= j < g.players.len() && g.players[j].name == player_name
                    ==> r.players[j] == (PlayerView {
                    name: g.players[pi].name,
                    hand: g.players[pi].hand.filter(|c: CardView| c.id != card.id),
                })
        }),
{
    let player_name = g.state->WaitingForPlayerToPlay_player_name;
    let pi = find_player(g.players, player_name);
    let ci = find_card(g.players[pi].hand, card_id);
    let card = g.players[pi].hand[ci];
    let updated_player = PlayerView {
        name: g.players[pi].name,
        hand: g.players[pi].hand.filter(|c: CardView| c.id != card.id),
    };
    lemma_find_player_names(g.players, player_name);
    assert(g.players[pi].name == player_name);
    assert(g.board.place(updated_player.name, card, x, y) == g.board);
    assert(play_spec(g, card_id, x, y).players == replace_matching(
        g.players,
        player_name,
        updated_player,
    ));
}

/// A placement that fills the board ends the game; the winner is the
/// registration-order player owning strictly more cells.  (On a tie
/// the engine names the second player.)
pub proof fn lemma_full_board_winner(g: GameView, card_id: Seq<char>, x: u8, y: u8)
    requires
        g.wf(),
        g.state is WaitingForPlayerToPlay,
        ({
            let player_name = g.state->WaitingForPlayerToPlay_player_name;
            let pi = find_player(g.players, player_name);
            &&& pi >= 0
            &&& find_card(g.players[pi].hand, card_id) >= 0
        }),
        cell_in_bounds(x, y),
        g.board.cards[cell_index(x, y)] is None,
        forall|i: int| 0 <= i < 9 && i != cell_index(x, y) ==> g.board.cards[i] is Some,
    ensures
        ({
            let r = play_spec(g, card_id, x, y);
            let s0 = count_owned_by(r.board.owners, g.players[0].name);
            let s1 = count_owned_by(r.board.owners, g.players[1].name);
            &&& r.state matches StateView::EndOfGame { scores, winner }
            &&& scores == ((s0 as u8), (s1 as u8))
            &&& s0 > s1 ==> winner == g.players[0].name
            &&& s1 > s0 ==> winner == g.players[1].name
        }),
{
    let r = play_spec(g, card_id, x, y);
    assert(r.board.cards[cell_index(x, y)] is Some);
    assert(r.board.full());
}

} // verus!
