use vstd::prelude::*;

use rand::Rng;

use crate::board::{cell_index, cell_in_bounds, count_owned_by, Board, BoardView};
use crate::card::{Card, CardView};
use crate::game::{Game, GameView};
use crate::player::{Player, PlayerView};
use crate::state::{State, StateView};

verus! {

// ---------------------------------------------------------------------
// Card generation
// ---------------------------------------------------------------------
/// Relies on rand: `thread_rng().gen_range(lo..=hi)` panics only on an
/// empty range and returns a value drawn from within the range.
#[verifier::external_body]
fn random_between(lo: u8, hi: u8) -> (n: u8)
    requires
        lo <= hi,
    ensures
        lo <= n <= hi,
{
    let mut rng = rand::thread_rng();
    rng.gen_range(lo..=hi)
}

/// Relies on uuid: `Uuid::new_v4()` rendered through `Display` is the
/// hyphenated form of the UUID, 36 ASCII characters.
#[verifier::external_body]
fn fresh_card_id() -> (id: String)
    ensures
        id@.len() == 36,
{
    format!("{}", uuid::Uuid::new_v4())
}

/// A card the generator may hand out: the edge sum lies in the
/// accepted range and every edge lies in [1, 10].
pub open spec fn balanced_card(c: CardView) -> bool {
    &&& 15 <= c.sum() <= 25
    &&& 1 <= c.top <= 10
    &&& 1 <= c.right <= 10
    &&& 1 <= c.bottom <= 10
    &&& 1 <= c.left <= 10
}

/// What `generate_card` promises of a card produced for `value`.
pub open spec fn generated_card_ok(c: CardView, value: u8) -> bool {
    &&& c.sum() == value
    &&& 1 <= c.top <= 10
    &&& 1 <= c.right <= 10
    &&& 1 <= c.bottom <= 10
    &&& 1 <= c.left <= 10
    &&& c.id.len() == 36
}

/// A full ten-card deck of balanced cards.
pub open spec fn deck_ok(d: Seq<CardView>) -> bool {
    &&& d.len() == 10
    &&& forall|i: int| 0 <= i < d.len() ==> balanced_card(#[trigger] d[i])
}

/// One possible full deck, used as a witness where no deck was drawn.
pub(crate) open spec fn some_balanced_deck() -> Seq<CardView> {
    Seq::new(10, |i: int| CardView { id: Seq::empty(), top: 5, right: 5, bottom: 5, left: 5 })
}

pub(crate) proof fn lemma_some_balanced_deck()
    ensures
        deck_ok(some_balanced_deck()),
{
}

/// A single card whose four edges sum to `value`: the first three
/// edges are drawn at random, each draw bounded on both sides so that
/// every edge still to come can land in [1, 10], and the last edge is
/// the remainder, thereby itself in [1, 10].  Values outside [15, 25]
/// are rejected.
pub fn generate_card(value: u8) -> (res: Result<Card, String>)
    ensures
        res is Ok <==> 15 <= value <= 25,
        res matches Ok(card) ==> generated_card_ok(card@, value),
        res matches Err(m) ==> m@ == "Value should be between 15 and 25"@,
{
    if value < 15 || value > 25 {
        return Err("Value should be between 15 and 25".to_owned());
    }
    let top: u8 = random_between(1, 10);
    let right_floor: u8 = if value - top > 20 {
        value - top - 20
    } else {
        1
    };
    let right_limit: u8 = value - top - 2;
    let right: u8 = random_between(right_floor, if right_limit < 10 { right_limit } else { 10 });
    let bottom_floor: u8 = if value - top - right > 10 {
        value - top - right - 10
    } else {
        1
    };
    let bottom_limit: u8 = value - top - right - 1;
    let bottom: u8 = random_between(
        bottom_floor,
        if bottom_limit < 10 { bottom_limit } else { 10 },
    );
    let left: u8 = value - top - right - bottom;
    Ok(Card { id: fresh_card_id(), top, right, bottom, left })
}

/// A deck of `count` cards, each generated for a random sum in
/// [15, 25]; since those sums are always accepted, the deck always
/// holds exactly `count` cards.
#[verifier::loop_isolation(false)]
pub fn generate_deck_of(count: u8) -> (deck: Vec<Card>)
    ensures
        deck.len() == count,
        forall|i: int| 0 <= i < count ==> balanced_card(#[trigger] deck.deep_view()[i]),
{
    let mut deck: Vec<Card> = Vec::new();
    let mut i: u8 = 0;
    while i < count
        invariant
            i <= count,
            deck.len() == i,
            forall|j: int| 0 <= j < i ==> balanced_card(#[trigger] deck.deep_view()[j]),
        decreases count - i,
    {
        let value: u8 = random_between(15, 25);
        let ghost before = deck.deep_view();
        match generate_card(value) {
            Ok(card) => {
                deck.push(card);
                proof {
                    assert(deck.deep_view() =~= before.push(card@));
                }
            },
            Err(_) => {
                proof {
                    assert(false);
                }
            },
        }
        i = i + 1;
    }
    deck
}

// ---------------------------------------------------------------------
// Spec-level transitions
// ---------------------------------------------------------------------
/// Index of the first player called `name` at or after `i`, or -1.
pub open spec fn find_player_from(players: Seq<PlayerView>, name: Seq<char>, i: int) -> int
    decreases players.len() - i,
{
    if i < 0 || i >= players.len() {
        -1
    } else if players[i].name == name {
        i
    } else {
        find_player_from(players, name, i + 1)
    }
}

/// Index of the first player called `name`, or -1.
pub open spec fn find_player(players: Seq<PlayerView>, name: Seq<char>) -> int {
    find_player_from(players, name, 0)
}

/// Index of the first card bearing `id` at or after `i`, or -1.
pub open spec fn find_card_from(cards: Seq<CardView>, id: Seq<char>, i: int) -> int
    decreases cards.len() - i,
{
    if i < 0 || i >= cards.len() {
        -1
    } else if cards[i].id == id {
        i
    } else {
        find_card_from(cards, id, i + 1)
    }
}

/// Index of the first card bearing `id`, or -1.
pub open spec fn find_card(cards: Seq<CardView>, id: Seq<char>) -> int {
    find_card_from(cards, id, 0)
}

/// A successful name search lands on the roster, on a player who
/// indeed carries that name.
pub proof fn lemma_find_player_names(players: Seq<PlayerView>, name: Seq<char>)
    ensures
        find_player(players, name) >= 0 ==> find_player(players, name) < players.len()
            && players[find_player(players, name)].name == name,
{
    lemma_find_player_from_names(players, name, 0);
}

proof fn lemma_find_player_from_names(players: Seq<PlayerView>, name: Seq<char>, i: int)
    ensures
        find_player_from(players, name, i) >= 0 ==> find_player_from(players, name, i)
            < players.len() && players[find_player_from(players, name, i)].name == name,
    decreases players.len() - i,
{
    if 0 <= i < players.len() && players[i].name != name {
        lemma_find_player_from_names(players, name, i + 1);
    }
}

/// The player sequence with every player called `name` replaced by
/// `updated`.
pub open spec fn replace_matching(
    players: Seq<PlayerView>,
    name: Seq<char>,
    updated: PlayerView,
) -> Seq<PlayerView> {
    players.map_values(|p: PlayerView| if p.name == name {
        updated
    } else {
        p
    })
}

/// Registration.  With more than one seat left, the given name becomes
/// the sole registered player.  With one seat left, a duplicate name is
/// ignored, and a fresh name fills the seat and starts the draft with a
/// fresh deck.  In any other phase the command is ignored.
pub open spec fn register_spec(g: GameView, name: Seq<char>, fresh_deck: Seq<CardView>) -> GameView {
    match g.state {
        StateView::WaitingForPlayers { count } => {
            if count == 1 {
                if g.players[0].name == name {
                    g
                } else {
                    GameView {
                        state: StateView::WaitingForCards { player_count: 2, deck: fresh_deck },
                        players: g.players.push(
                            PlayerView { name, hand: Seq::<CardView>::empty() },
                        ),
                        board: g.board,
                    }
                }
            } else {
                GameView {
                    state: StateView::WaitingForPlayers { count: (count - 1) as u8 },
                    players: seq![PlayerView { name, hand: Seq::<CardView>::empty() }],
                    board: g.board,
                }
            }
        },
        _ => g,
    }
}

/// Drafting.  The card bearing `card_id` moves from the deck to the
/// hand of the player currently drafting (an unknown token leaves hand
/// and deck alone).  A hand completed at five cards either passes the
/// draft to the next player with a fresh deck, or, when nobody is left
/// to draft, opens play with the first registered player.  In any other
/// phase the command is ignored.
pub open spec fn select_spec(g: GameView, card_id: Seq<char>, fresh_deck: Seq<CardView>) -> GameView {
    match g.state {
        StateView::WaitingForCards { player_count, deck } => {
            let pidx = 2 - player_count;
            let di = find_card(deck, card_id);
            let players1 = if di < 0 {
                g.players
            } else {
                g.players.update(
                    pidx,
                    PlayerView {
                        name: g.players[pidx].name,
                        hand: g.players[pidx].hand.push(deck[di]),
                    },
                )
            };
            let deck1 = if di < 0 {
                deck
            } else {
                deck.remove(di)
            };
            if player_count == 1 && players1[pidx].hand.len() == 5 {
                GameView {
                    state: StateView::WaitingForPlayerToPlay { player_name: players1[0].name },
                    players: players1,
                    board: g.board,
                }
            } else if players1[pidx].hand.len() == 5 {
                GameView {
                    state: StateView::WaitingForCards {
                        player_count: (player_count - 1) as u8,
                        deck: fresh_deck,
                    },
                    players: players1,
                    board: g.board,
                }
            } else {
                GameView {
                    state: StateView::WaitingForCards { player_count, deck: deck1 },
                    players: players1,
                    board: g.board,
                }
            }
        },
        _ => g,
    }
}

/// Whether the card just placed at (x, y) captures the neighbour at
/// offset (dx, dy): the neighbour cell lies on the grid, holds a card,
/// and the placed card's facing edge is strictly stronger than the
/// neighbour's opposite edge.
pub open spec fn captures(
    board: BoardView,
    card: CardView,
    x: u8,
    y: u8,
    dx: int,
    dy: int,
) -> bool {
    let nx = x + dx;
    let ny = y + dy;
    &&& 0 <= nx < 3
    &&& 0 <= ny < 3
    &&& board.cards[nx * 3 + ny] matches Some(opp) && {
        if dx == -1 && dy == 0 {
            card.left > opp.right
        } else if dx == 1 && dy == 0 {
            card.right > opp.left
        } else if dx == 0 && dy == -1 {
            card.top > opp.bottom
        } else if dx == 0 && dy == 1 {
            card.bottom > opp.top
        } else {
            false
        }
    }
}

/// One capture check: when the placed card captures the neighbour at
/// offset (dx, dy) of `orig` (the board as it stood before placement),
/// that neighbour's owner on `b` becomes `name`.
pub open spec fn capture_step(
    orig: BoardView,
    b: BoardView,
    name: Seq<char>,
    card: CardView,
    x: u8,
    y: u8,
    dx: int,
    dy: int,
) -> BoardView {
    if captures(orig, card, x, y, dx, dy) {
        BoardView { cards: b.cards, owners: b.owners.update((x + dx) * 3 + (y + dy), Some(name)) }
    } else {
        b
    }
}

/// The four capture checks of a placement, in the order the engine
/// makes them: left, up, right, down.
pub open spec fn apply_captures(
    orig: BoardView,
    b: BoardView,
    name: Seq<char>,
    card: CardView,
    x: u8,
    y: u8,
) -> BoardView {
    let b1 = capture_step(orig, b, name, card, x, y, -1, 0);
    let b2 = capture_step(orig, b1, name, card, x, y, 0, -1);
    let b3 = capture_step(orig, b2, name, card, x, y, 1, 0);
    capture_step(orig, b3, name, card, x, y, 0, 1)
}

/// Playing a card.  An unknown player name or a card absent from that
/// player's hand leaves the game untouched.  Otherwise the card leaves
/// the hand, is placed at (x, y) (a no-op on an occupied or
/// out-of-bounds cell), the four neighbours are checked for capture,
/// and play passes to the next player in cyclic order - or, when the
/// board is full, the game ends with the owned-cell counts and the
/// winner, the second player taking a tie.
pub open spec fn play_spec(g: GameView, card_id: Seq<char>, x: u8, y: u8) -> GameView {
    match g.state {
        StateView::WaitingForPlayerToPlay { player_name } => {
            let pi = find_player(g.players, player_name);
            if pi < 0 {
                g
            } else {
                let next_name = g.players[(pi + 1) % (g.players.len() as int)].name;
                let player = g.players[pi];
                let ci = find_card(player.hand, card_id);
                if ci < 0 {
                    g
                } else {
                    let card = player.hand[ci];
                    let updated_player = PlayerView {
                        name: player.name,
                        hand: player.hand.filter(|c: CardView| c.id != card.id),
                    };
                    let placed = g.board.place(updated_player.name, card, x, y);
                    let board2 = apply_captures(g.board, placed, updated_player.name, card, x, y);
                    let players2 = replace_matching(g.players, player_name, updated_player);
                    let state2 = if board2.full() {
                        let s0 = count_owned_by(board2.owners, g.players[0].name);
                        let s1 = count_owned_by(board2.owners, g.players[1].name);
                        StateView::EndOfGame {
                            scores: (s0 as u8, s1 as u8),
                            winner: if s0 > s1 {
                                g.players[0].name
                            } else {
                                g.players[1].name
                            },
                        }
                    } else {
                        StateView::WaitingForPlayerToPlay { player_name: next_name }
                    };
                    GameView { state: state2, players: players2, board: board2 }
                }
            }
        },
        _ => g,
    }
}

/// One capture step keeps the cards and the board's shape, keeps each
/// cell's owner aligned with its card, and only ever hands a cell to
/// the capturing player.
proof fn lemma_capture_step_cells(
    orig: BoardView,
    b: BoardView,
    name: Seq<char>,
    card: CardView,
    x: u8,
    y: u8,
    dx: int,
    dy: int,
)
    requires
        b.wf(),
        forall|i: int| 0 <= i < 9 ==> ((#[trigger] b.cards[i]) is Some <==> b.owners[i] is Some),
        forall|i: int| 0 <= i < 9 ==> (orig.cards[i] is Some ==> (#[trigger] b.cards[i]) is Some),
    ensures
        ({
            let r = capture_step(orig, b, name, card, x, y, dx, dy);
            &&& r.wf()
            &&& r.cards == b.cards
            &&& forall|i: int|
                0 <= i < 9 ==> ((#[trigger] r.cards[i]) is Some <==> r.owners[i] is Some)
            &&& forall|i: int|
                0 <= i < 9 ==> ((#[trigger] r.owners[i]) == b.owners[i] || r.owners[i] == Some(
                    name,
                ))
        }),
{
    if captures(orig, card, x, y, dx, dy) {
        let nidx = (x + dx) * 3 + (y + dy);
        assert(0 <= nidx < 9);
        assert(b.cards[nidx] is Some);
    }
}

/// Registration preserves the aggregate's consistency.
pub proof fn lemma_register_preserves_wf(g: GameView, name: Seq<char>, d: Seq<CardView>)
    requires
        g.wf(),
    ensures
        register_spec(g, name, d).wf(),
{
    match g.state {
        StateView::WaitingForPlayers { count } => {
            if count == 1 {
                if g.players[0].name != name {
                    let new_players = g.players.push(
                        PlayerView { name, hand: Seq::<CardView>::empty() },
                    );
                    assert forall|i: int|
                        0 <= i < 9 && (#[trigger] g.board.owners[i]) is Some implies exists|j: int|
                        0 <= j < new_players.len() && #[trigger] new_players[j].name
                            == g.board.owners[i]->0 by {
                        let n = g.board.owners[i]->0;
                        let j = choose|j: int|
                            0 <= j < g.players.len() && #[trigger] g.players[j].name == n;
                        assert(new_players[j].name == n);
                    }
                    let r = register_spec(g, name, d);
                    assert(r.board == g.board);
                    assert(r.players == new_players);
                    assert(r.owners_wf());
                    assert(r.wf());
                }
            } else {
                // nobody is registered yet, so no cell can have an owner
                assert forall|i: int| 0 <= i < 9 implies (#[trigger] g.board.owners[i])
                    is None by {
                    if g.board.owners[i] is Some {
                        let n = g.board.owners[i]->0;
                        assert(exists|j: int|
                            0 <= j < g.players.len() && #[trigger] g.players[j].name == n);
                        assert(false);
                    }
                }
            }
        },
        _ => {},
    }
}

/// Drafting preserves the aggregate's consistency.
pub proof fn lemma_select_preserves_wf(g: GameView, card_id: Seq<char>, d: Seq<CardView>)
    requires
        g.wf(),
    ensures
        select_spec(g, card_id, d).wf(),
{
    match g.state {
        StateView::WaitingForCards { player_count, deck } => {
            let pidx = 2 - player_count;
            let di = find_card(deck, card_id);
            let players1 = if di < 0 {
                g.players
            } else {
                g.players.update(
                    pidx,
                    PlayerView {
                        name: g.players[pidx].name,
                        hand: g.players[pidx].hand.push(deck[di]),
                    },
                )
            };
            assert(players1.len() == g.players.len());
            assert(forall|j: int|
                0 <= j < g.players.len() ==> (#[trigger] players1[j].name) == g.players[j].name);
            crate::game::lemma_owners_roster_carry(g.board.owners, g.players, players1);
            let r = select_spec(g, card_id, d);
            assert(r.board == g.board);
            assert(r.players == players1);
            assert(r.owners_wf());
            assert(r.wf());
        },
        _ => {},
    }
}

/// Playing a card preserves the aggregate's consistency: placement and
/// captures only pair cards with owners, and only hand cells to the
/// acting player, who stays on the roster.
pub proof fn lemma_play_preserves_wf(g: GameView, card_id: Seq<char>, x: u8, y: u8)
    requires
        g.wf(),
    ensures
        play_spec(g, card_id, x, y).wf(),
{
    match g.state {
        StateView::WaitingForPlayerToPlay { player_name } => {
            let pi = find_player(g.players, player_name);
            if pi >= 0 {
                lemma_find_player_names(g.players, player_name);
                let player = g.players[pi];
                let ci = find_card(player.hand, card_id);
                if ci >= 0 {
                    let card = player.hand[ci];
                    let updated_player = PlayerView {
                        name: player.name,
                        hand: player.hand.filter(|c: CardView| c.id != card.id),
                    };
                    let uname = updated_player.name;
                    let placed = g.board.place(uname, card, x, y);
                    assert(placed.wf());
                    assert forall|i: int|
                        0 <= i < 9 implies ((#[trigger] placed.cards[i]) is Some
                        <==> placed.owners[i] is Some) by {
                        assert(g.board.cards[i] is Some <==> g.board.owners[i] is Some);
                    }
                    assert forall|i: int|
                        0 <= i < 9 && g.board.cards[i] is Some implies (#[trigger] placed.cards[i])
                        is Some by {}

                    let b1 = capture_step(g.board, placed, uname, card, x, y, -1, 0);
                    lemma_capture_step_cells(g.board, placed, uname, card, x, y, -1, 0);
                    let b2 = capture_step(g.board, b1, uname, card, x, y, 0, -1);
                    lemma_capture_step_cells(g.board, b1, uname, card, x, y, 0, -1);
                    let b3 = capture_step(g.board, b2, uname, card, x, y, 1, 0);
                    lemma_capture_step_cells(g.board, b2, uname, card, x, y, 1, 0);
                    let b4 = capture_step(g.board, b3, uname, card, x, y, 0, 1);
                    lemma_capture_step_cells(g.board, b3, uname, card, x, y, 0, 1);
                    assert(b4 == apply_captures(g.board, placed, uname, card, x, y));

                    let players2 = replace_matching(g.players, player_name, updated_player);
                    assert(players2.len() == g.players.len());
                    assert forall|j: int|
                        0 <= j < g.players.len() implies (#[trigger] players2[j].name)
                        == g.players[j].name by {
                        if g.players[j].name == player_name {
                            assert(players2[j] == updated_player);
                        } else {
                            assert(players2[j] == g.players[j]);
                        }
                    }
                    assert forall|i: int|
                        0 <= i < 9 && (#[trigger] b4.owners[i]) is Some implies exists|j: int|
                        0 <= j < players2.len() && #[trigger] players2[j].name
                            == b4.owners[i]->0 by {
                        let n = b4.owners[i]->0;
                        if n == uname {
                            assert(players2[pi].name == uname);
                        } else {
                            assert(b4.owners[i] != Some(uname));
                            assert(b4.owners[i] == b3.owners[i]);
                            assert(b3.owners[i] == b2.owners[i]);
                            assert(b2.owners[i] == b1.owners[i]);
                            assert(b1.owners[i] == placed.owners[i]);
                            if cell_in_bounds(x, y) && g.board.cards[cell_index(x, y)] is None
                                && i == cell_index(x, y) {
                                assert(placed.owners[i] == Some(uname));
                                assert(false);
                            }
                            assert(placed.owners[i] == g.board.owners[i]);
                            let j = choose|j: int|
                                0 <= j < g.players.len() && #[trigger] g.players[j].name == n;
                            assert(players2[j].name == n);
                        }
                    }
                    let r = play_spec(g, card_id, x, y);
                    assert(r.board == b4);
                    assert(r.players == players2);
                    assert(r.owners_wf());
                    assert(r.wf());
                }
            }
        },
        _ => {},
    }
}

// ---------------------------------------------------------------------
// Executable helpers
// ---------------------------------------------------------------------
/// Position of the first player with the given name, if any.
#[verifier::loop_isolation(false)]
fn find_player_index(players: &Vec<Player>, name: &String) -> (res: Option<usize>)
    ensures
        res matches Some(i) ==> 0 <= find_player(players.deep_view(), name@) == i < players.len(),
        res is None ==> find_player(players.deep_view(), name@) == -1,
{
    let mut i: usize = 0;
    while i < players.len()
        invariant
            i <= players.len(),
            find_player(players.deep_view(), name@) == find_player_from(
                players.deep_view(),
                name@,
                i as int,
            ),
        decreases players.len() - i,
    {
        if players[i].name == *name {
            return Some(i);
        }
        i = i + 1;
    }
    None
}

/// Position of the first card with the given identity token, if any.
#[verifier::loop_isolation(false)]
fn find_card_index(cards: &Vec<Card>, id: &String) -> (res: Option<usize>)
    ensures
        res matches Some(i) ==> 0 <= find_card(cards.deep_view(), id@) == i < cards.len(),
        res is None ==> find_card(cards.deep_view(), id@) == -1,
{
    let mut i: usize = 0;
    while i < cards.len()
        invariant
            i <= cards.len(),
            find_card(cards.deep_view(), id@) == find_card_from(cards.deep_view(), id@, i as int),
        decreases cards.len() - i,
    {
        if cards[i].id == *id {
            return Some(i);
        }
        i = i + 1;
    }
    None
}

// ---------------------------------------------------------------------
// The rules engine
// ---------------------------------------------------------------------
/// Every legal transition of the game.  Each method takes the whole
/// aggregate and returns the transformed aggregate; commands that do
/// not fit the current phase return it untouched.
pub trait Rules {
    /// Handle a registration command; see `register_spec`.
    fn register_player(&self, game: Game, name: String) -> (res: Game)
        requires
            game@.wf(),
        ensures
            res@.wf(),
            exists|d: Seq<CardView>|
                #![auto]
                deck_ok(d) && res@ == register_spec(game@, name@, d),
    ;

    /// Handle a draft command; see `select_spec`.
    fn select_card(&self, game: Game, card_id: String) -> (res: Game)
        requires
            game@.wf(),
        ensures
            res@.wf(),
            exists|d: Seq<CardView>|
                #![auto]
                deck_ok(d) && res@ == select_spec(game@, card_id@, d),
    ;

    /// Handle a play command; see `play_spec`.
    fn play_card(&self, game: Game, card_id: String, x: u8, y: u8) -> (res: Game)
        requires
            game@.wf(),
        ensures
            res@.wf(),
            res@ == play_spec(game@, card_id@, x, y),
    ;

    /// Whether the card about to sit at `card_position` captures the
    /// neighbour at `check_offset`; see `captures`.
    fn check_neighbour_cards_to_current_position(
        &self,
        game: &Game,
        card: &Card,
        card_position: (u8, u8),
        check_offset: (i8, i8),
    ) -> (res: bool)
        requires
            game@.board.wf(),
        ensures
            res == captures(
                game@.board,
                card@,
                card_position.0,
                card_position.1,
                check_offset.0 as int,
                check_offset.1 as int,
            ),
    ;
}

/// The one concrete rules engine.
pub struct RulesImpl;

impl Rules for RulesImpl {
    fn register_player(&self, game: Game, name: String) -> (res: Game) {
        let ghost gv = game@;
        let Game { state, players, board } = game;
        match state {
            State::WaitingForPlayers { count } => {
                if count == 1 {
                    if players[0].name == name {
                        let res = Game {
                            state: State::WaitingForPlayers { count },
                            players,
                            board,
                        };
                        proof {
                            lemma_some_balanced_deck();
                            assert(res@ =~~= register_spec(gv, name@, some_balanced_deck()));
                            lemma_register_preserves_wf(gv, name@, some_balanced_deck());
                        }
                        return res;
                    }
                    let mut players = players;
                    players.push(Player::new(name));
                    let deck = generate_deck_of(10);
                    let res = Game {
                        state: State::WaitingForCards { player_count: 2, deck },
                        players,
                        board,
                    };
                    proof {
                        assert(res@.players =~~= gv.players.push(
                            PlayerView { name: name@, hand: Seq::<CardView>::empty() },
                        ));
                        assert(deck_ok(res@.state->WaitingForCards_deck));
                        assert(res@ =~~= register_spec(gv, name@, res@.state->WaitingForCards_deck));
                        lemma_register_preserves_wf(gv, name@, res@.state->WaitingForCards_deck);
                    }
                    res
                } else {
                    let mut new_players: Vec<Player> = Vec::new();
                    new_players.push(Player::new(name));
                    let res = Game {
                        state: State::WaitingForPlayers { count: count - 1 },
                        players: new_players,
                        board,
                    };
                    proof {
                        lemma_some_balanced_deck();
                        assert(res@.players =~~= seq![
                            PlayerView { name: name@, hand: Seq::<CardView>::empty() },
                        ]);
                        assert(res@ =~~= register_spec(gv, name@, some_balanced_deck()));
                        lemma_register_preserves_wf(gv, name@, some_balanced_deck());
                    }
                    res
                }
            },
            _ => {
                let res = Game { state, players, board };
                proof {
                    lemma_some_balanced_deck();
                    assert(res@ =~~= register_spec(gv, name@, some_balanced_deck()));
                    lemma_register_preserves_wf(gv, name@, some_balanced_deck());
                }
                res
            },
        }
    }

    fn select_card(&self, game: Game, card_id: String) -> (res: Game) {
        let ghost gv = game@;
        let Game { state, players, board } = game;
        match state {
            State::WaitingForCards { player_count, deck } => {
                let player_index: usize = (2 - player_count) as usize;
                let mut players = players;
                let mut deck = deck;
                let ghost deck0 = deck.deep_view();
                match find_card_index(&deck, &card_id) {
                    Some(di) => {
                        let card = deck.remove(di);
                        let mut p = players.remove(player_index);
                        p.hand.push(card);
                        players.insert(player_index, p);
                        proof {
                            let pidx = player_index as int;
                            assert(players.deep_view() =~~= gv.players.update(
                                pidx,
                                PlayerView {
                                    name: gv.players[pidx].name,
                                    hand: gv.players[pidx].hand.push(deck0[di as int]),
                                },
                            ));
                            assert(deck.deep_view() =~= deck0.remove(di as int));
                        }
                    },
                    None => {},
                }
                let hand_full = players[player_index].hand.len() == 5;
                if player_count == 1 && hand_full {
                    let res = Game {
                        state: State::WaitingForPlayerToPlay {
                            player_name: players[0].name.clone(),
                        },
                        players,
                        board,
                    };
                    proof {
                        lemma_some_balanced_deck();
                        assert(res@ =~~= select_spec(gv, card_id@, some_balanced_deck()));
                        lemma_select_preserves_wf(gv, card_id@, some_balanced_deck());
                    }
                    res
                } else if hand_full {
                    let new_deck = generate_deck_of(10);
                    let res = Game {
                        state: State::WaitingForCards {
                            player_count: player_count - 1,
                            deck: new_deck,
                        },
                        players,
                        board,
                    };
                    proof {
                        assert(deck_ok(res@.state->WaitingForCards_deck));
                        assert(res@ =~~= select_spec(gv, card_id@, res@.state->WaitingForCards_deck));
                        lemma_select_preserves_wf(gv, card_id@, res@.state->WaitingForCards_deck);
                    }
                    res
                } else {
                    let res = Game {
                        state: State::WaitingForCards { player_count, deck },
                        players,
                        board,
                    };
                    proof {
                        lemma_some_balanced_deck();
                        assert(res@ =~~= select_spec(gv, card_id@, some_balanced_deck()));
                        lemma_select_preserves_wf(gv, card_id@, some_balanced_deck());
                    }
                    res
                }
            },
            _ => {
                let res = Game { state, players, board };
                proof {
                    lemma_some_balanced_deck();
                    assert(res@ =~~= select_spec(gv, card_id@, some_balanced_deck()));
                    lemma_select_preserves_wf(gv, card_id@, some_balanced_deck());
                }
                res
            },
        }
    }

    #[verifier::loop_isolation(false)]
    fn play_card(&self, game: Game, card_id: String, x: u8, y: u8) -> (res: Game) {
        let ghost gv = game@;
        let player_name: String = match &game.state {
            State::WaitingForPlayerToPlay { player_name } => player_name.clone(),
            _ => {
                return game;
            },
        };
        let pi: usize = match find_player_index(&game.players, &player_name) {
            Some(i) => i,
            None => {
                return game;
            },
        };
        let next_player_name: String = game.players[(pi + 1) % game.players.len()].name.clone();
        let ci: usize = match find_card_index(&game.players[pi].hand, &card_id) {
            Some(i) => i,
            None => {
                return game;
            },
        };
        let card: Card = game.players[pi].hand[ci].clone();
        let updated_player: Player = game.players[pi].drop_card(&card);
        let placed: Board = game.board.set_card_at(&updated_player, &card, x, y);
        let ghost b_placed = placed@;

        let mut updated_board: Board = placed;
        if self.check_neighbour_cards_to_current_position(&game, &card, (x, y), (-1, 0)) {
            updated_board = updated_board.set_cell_owner(updated_player.clone(), x - 1, y);
        }
        let ghost b1 = updated_board@;
        proof {
            assert(b1 == capture_step(gv.board, b_placed, updated_player@.name, card@, x, y, -1, 0));
        }
        if self.check_neighbour_cards_to_current_position(&game, &card, (x, y), (0, -1)) {
            updated_board = updated_board.set_cell_owner(updated_player.clone(), x, y - 1);
        }
        let ghost b2 = updated_board@;
        proof {
            assert(b2 == capture_step(gv.board, b1, updated_player@.name, card@, x, y, 0, -1));
        }
        if self.check_neighbour_cards_to_current_position(&game, &card, (x, y), (1, 0)) {
            updated_board = updated_board.set_cell_owner(updated_player.clone(), x + 1, y);
        }
        let ghost b3 = updated_board@;
        proof {
            assert(b3 == capture_step(gv.board, b2, updated_player@.name, card@, x, y, 1, 0));
        }
        if self.check_neighbour_cards_to_current_position(&game, &card, (x, y), (0, 1)) {
            updated_board = updated_board.set_cell_owner(updated_player.clone(), x, y + 1);
        }
        proof {
            assert(updated_board@ == capture_step(
                gv.board,
                b3,
                updated_player@.name,
                card@,
                x,
                y,
                0,
                1,
            ));
            assert(updated_board@ == apply_captures(
                gv.board,
                b_placed,
                updated_player@.name,
                card@,
                x,
                y,
            ));
        }

        let new_state: State = if updated_board.is_full() {
            let scores = updated_board.tally(&game.players);
            let winner = if scores.0 > scores.1 {
                game.players[0].name.clone()
            } else {
                game.players[1].name.clone()
            };
            State::EndOfGame { scores, winner }
        } else {
            State::WaitingForPlayerToPlay { player_name: next_player_name }
        };

        let mut new_players: Vec<Player> = Vec::new();
        let mut i: usize = 0;
        while i < game.players.len()
            invariant
                i <= game.players.len(),
                new_players.deep_view().len() == i,
                forall|j: int|
                    0 <= j < i ==> new_players.deep_view()[j] == (if gv.players[j].name
                        == player_name@ {
                        updated_player@
                    } else {
                        gv.players[j]
                    }),
            decreases game.players.len() - i,
        {
            let ghost before = new_players.deep_view();
            if game.players[i].name == player_name {
                new_players.push(updated_player.clone());
            } else {
                new_players.push(game.players[i].clone());
            }
            proof {
                assert(new_players.deep_view() =~= before.push(new_players.deep_view().last()));
            }
            i = i + 1;
        }
        proof {
            assert(new_players.deep_view() =~~= replace_matching(
                gv.players,
                player_name@,
                updated_player@,
            ));
        }

        let res = Game { state: new_state, players: new_players, board: updated_board };
        proof {
            assert(res@ =~~= play_spec(gv, card_id@, x, y));
            lemma_play_preserves_wf(gv, card_id@, x, y);
        }
        res
    }

    fn check_neighbour_cards_to_current_position(
        &self,
        game: &Game,
        card: &Card,
        card_position: (u8, u8),
        check_offset: (i8, i8),
    ) -> (res: bool) {
        let (x_card, y_card) = card_position;
        let (x_offset, y_offset) = check_offset;
        let x_check: i32 = x_card as i32 + x_offset as i32;
        let y_check: i32 = y_card as i32 + y_offset as i32;

        if x_check < 0 || x_check >= 3 || y_check < 0 || y_check >= 3 {
            return false;
        }

        match game.board.get_card_at(x_check as u8, y_check as u8) {
            Ok(Some(opposed_card)) => {
                if x_offset == -1 && y_offset == 0 {
                    card.left > opposed_card.right
                } else if x_offset == 1 && y_offset == 0 {
                    card.right > opposed_card.left
                } else if x_offset == 0 && y_offset == -1 {
                    card.top > opposed_card.bottom
                } else if x_offset == 0 && y_offset == 1 {
                    card.bottom > opposed_card.top
                } else {
                    false
                }
            },
            _ => false,
        }
    }
}

} // verus!
