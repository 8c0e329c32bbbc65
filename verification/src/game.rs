use vstd::prelude::*;

use crate::board::{Board, BoardView};
use crate::player::{Player, PlayerView};
use crate::state::{State, StateView};

verus! {

/// Mathematical image of the whole game aggregate.
#[verifier::ext_equal]
pub ghost struct GameView {
    pub state: StateView,
    pub players: Seq<PlayerView>,
    pub board: BoardView,
}

impl GameView {
    /// The board's ownership column agrees with its cards: a cell has
    /// an owner exactly when it holds a card, and every owner is one
    /// of the registered players.
    pub open spec fn owners_wf(self) -> bool {
        &&& forall|i: int|
            0 <= i < 9 ==> ((#[trigger] self.board.cards[i]) is Some <==> self.board.owners[i]
                is Some)
        &&& forall|i: int|
            #![trigger self.board.owners[i]]
            0 <= i < 9 ==> (self.board.owners[i] matches Some(n) ==> exists|j: int|
                0 <= j < self.players.len() && #[trigger] self.players[j].name == n)
    }

    /// Consistency of the aggregate: the board has its nine cells and
    /// a sound ownership column, and the number of registered players
    /// matches the phase.
    pub open spec fn wf(self) -> bool {
        &&& self.board.wf()
        &&& self.owners_wf()
        &&& match self.state {
            StateView::WaitingForPlayers { count } => {
                &&& 1 <= count <= 2
                &&& self.players.len() + count == 2
            },
            StateView::WaitingForCards { player_count, .. } => {
                &&& 1 <= player_count <= 2
                &&& self.players.len() == 2
            },
            StateView::WaitingForPlayerToPlay { .. } => self.players.len() == 2,
            StateView::EndOfGame { .. } => true,
        }
    }
}

/// Owners drawn from one roster stay valid for another roster whose
/// players carry the same names, position by position.
pub proof fn lemma_owners_roster_carry(
    owners: Seq<Option<Seq<char>>>,
    old_players: Seq<PlayerView>,
    new_players: Seq<PlayerView>,
)
    requires
        new_players.len() == old_players.len(),
        forall|j: int|
            0 <= j < old_players.len() ==> (#[trigger] new_players[j].name)
                == old_players[j].name,
        forall|i: int|
            #![trigger owners[i]]
            0 <= i < 9 ==> (owners[i] matches Some(n) ==> exists|j: int|
                0 <= j < old_players.len() && #[trigger] old_players[j].name == n),
    ensures
        forall|i: int|
            #![trigger owners[i]]
            0 <= i < 9 ==> (owners[i] matches Some(n) ==> exists|j: int|
                0 <= j < new_players.len() && #[trigger] new_players[j].name == n),
{
    assert forall|i: int|
        0 <= i < 9 && (#[trigger] owners[i]) is Some implies exists|j: int|
        0 <= j < new_players.len() && #[trigger] new_players[j].name == owners[i]->0 by {
        let n = owners[i]->0;
        let j = choose|j: int| 0 <= j < old_players.len() && #[trigger] old_players[j].name == n;
        assert(new_players[j].name == n);
    }
}

/// The aggregate the rules engine transforms: current phase, players in
/// registration order, and the board.
#[derive(Debug)]
pub struct Game {
    pub state: State,
    pub players: Vec<Player>,
    pub board: Board,
}

impl Clone for Game {
    fn clone(&self) -> (res: Game)
        ensures
            res@ == self@,
    {
        let res = Game {
            state: self.state.clone(),
            players: crate::player::copy_player_vec(&self.players),
            board: self.board.clone(),
        };
        proof {
            assert(res@ =~= self@);
        }
        res
    }
}

impl View for Game {
    type V = GameView;

    open spec fn view(&self) -> GameView {
        GameView {
            state: self.state.deep_view(),
            players: self.players.deep_view(),
            board: self.board@,
        }
    }
}

impl DeepView for Game {
    type V = GameView;

    open spec fn deep_view(&self) -> GameView {
        self.view()
    }
}

impl Game {
    /// A fresh game: two players still to register, nobody registered,
    /// empty board.
    pub fn new() -> (game: Game)
        ensures
            game@.wf(),
            game@.state == (StateView::WaitingForPlayers { count: 2u8 }),
            game@.players == Seq::<PlayerView>::empty(),
            forall|i: int| 0 <= i < 9 ==> game@.board.cards[i] is None,
            forall|i: int| 0 <= i < 9 ==> game@.board.owners[i] is None,
    {
        let game = Game {
            state: State::WaitingForPlayers { count: 2 },
            players: Vec::new(),
            board: Board::new(),
        };
        proof {
            assert(game@.players =~= Seq::<PlayerView>::empty());
        }
        game
    }
}

} // verus!
