use vstd::prelude::*;

use crate::card::{Card, CardView};

verus! {

/// Mathematical image of a game phase.
#[verifier::ext_equal]
pub ghost enum StateView {
    WaitingForPlayers { count: u8 },
    WaitingForCards { player_count: u8, deck: Seq<CardView> },
    WaitingForPlayerToPlay { player_name: Seq<char> },
    EndOfGame { scores: (u8, u8), winner: Seq<char> },
}

/// The phase the game is in.  The phases are mutually exclusive and
/// sequenced by the rules engine: registration, drafting, play, end.
#[derive(Debug, PartialEq)]
pub enum State {
    /// `count` players still need to register; a fresh game starts at 2.
    WaitingForPlayers { count: u8 },
    /// `player_count` players still need to finish drafting a five-card
    /// hand from `deck`.
    WaitingForCards { player_count: u8, deck: Vec<Card> },
    /// Whose turn it is to place a card.
    WaitingForPlayerToPlay { player_name: String },
    /// Terminal: owned-cell counts for the two players in registration
    /// order, and the name of the winner.
    EndOfGame { scores: (u8, u8), winner: String },
}

impl Clone for State {
    fn clone(&self) -> (res: State)
        ensures
            res.deep_view() == self.deep_view(),
    {
        match self {
            State::WaitingForPlayers { count } => State::WaitingForPlayers { count: *count },
            State::WaitingForCards { player_count, deck } => State::WaitingForCards {
                player_count: *player_count,
                deck: crate::card::copy_card_vec(deck),
            },
            State::WaitingForPlayerToPlay { player_name } => State::WaitingForPlayerToPlay {
                player_name: player_name.clone(),
            },
            State::EndOfGame { scores, winner } => State::EndOfGame {
                scores: *scores,
                winner: winner.clone(),
            },
        }
    }
}

impl DeepView for State {
    type V = StateView;

    open spec fn deep_view(&self) -> StateView {
        match self {
            State::WaitingForPlayers { count } => StateView::WaitingForPlayers { count: *count },
            State::WaitingForCards { player_count, deck } => StateView::WaitingForCards {
                player_count: *player_count,
                deck: deck.deep_view(),
            },
            State::WaitingForPlayerToPlay { player_name } => StateView::WaitingForPlayerToPlay {
                player_name: player_name@,
            },
            State::EndOfGame { scores, winner } => StateView::EndOfGame {
                scores: *scores,
                winner: winner@,
            },
        }
    }
}

} // verus!
