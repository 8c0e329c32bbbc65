use vstd::prelude::*;

use crate::card::{Card, CardView};
use crate::player::Player;

verus! {

/// Index of the cell addressed by (x, y) in the flattened 3x3 grid.
pub open spec fn cell_index(x: u8, y: u8) -> int {
    x * 3 + y
}

/// Whether (x, y) addresses one of the nine cells of the grid: both
/// coordinates must lie in [0, 2].
pub open spec fn cell_in_bounds(x: u8, y: u8) -> bool {
    x < 3 && y < 3
}

/// How many cells of `owners` are owned by the player called `name`.
pub open spec fn count_owned_by(owners: Seq<Option<Seq<char>>>, name: Seq<char>) -> int
    decreases owners.len(),
{
    if owners.len() == 0 {
        0
    } else {
        count_owned_by(owners.drop_last(), name) + if owners.last() == Some(name) {
            1int
        } else {
            0int
        }
    }
}

/// Mathematical image of the board: nine optional cards, and for each
/// cell the name of the player owning it, if any.
#[verifier::ext_equal]
pub ghost struct BoardView {
    pub cards: Seq<Option<CardView>>,
    pub owners: Seq<Option<Seq<char>>>,
}

impl BoardView {
    /// Both columns of the board have exactly one entry per cell.
    pub open spec fn wf(self) -> bool {
        &&& self.cards.len() == 9
        &&& self.owners.len() == 9
    }

    /// The board after placing `card` for the player called `name` at
    /// (x, y): unchanged when the target is out of bounds or already
    /// occupied, else the card is set and the cell's owner becomes `name`.
    pub open spec fn place(self, name: Seq<char>, card: CardView, x: u8, y: u8) -> BoardView {
        if !cell_in_bounds(x, y) || self.cards[cell_index(x, y)] is Some {
            self
        } else {
            BoardView {
                cards: self.cards.update(cell_index(x, y), Some(card)),
                owners: self.owners.update(cell_index(x, y), Some(name)),
            }
        }
    }

    /// The board with the owner of the cell at (x, y) reassigned.
    pub open spec fn with_owner(self, name: Seq<char>, x: u8, y: u8) -> BoardView {
        BoardView { cards: self.cards, owners: self.owners.update(cell_index(x, y), Some(name)) }
    }

    /// Every cell holds a card.
    pub open spec fn full(self) -> bool {
        forall|i: int| 0 <= i < 9 ==> self.cards[i] is Some
    }
}

/// The 3x3 playing field: each cell optionally holds a card, and,
/// independently, the name of the player currently controlling it.
#[derive(Debug, PartialEq)]
pub struct Board {
    pub cards: Vec<Option<Card>>,
    pub cell_owner: Vec<Option<String>>,
}

impl View for Board {
    type V = BoardView;

    open spec fn view(&self) -> BoardView {
        BoardView { cards: self.cards.deep_view(), owners: self.cell_owner.deep_view() }
    }
}

impl DeepView for Board {
    type V = BoardView;

    open spec fn deep_view(&self) -> BoardView {
        self.view()
    }
}

/// A fresh vector holding the same optional cards.
#[verifier::loop_isolation(false)]
fn copy_cards(v: &Vec<Option<Card>>) -> (res: Vec<Option<Card>>)
    ensures
        res.deep_view() == v.deep_view(),
{
    let mut out: Vec<Option<Card>> = Vec::new();
    let mut i: usize = 0;
    while i < v.len()
        invariant
            i <= v.len(),
            out.deep_view() == v.deep_view().take(i as int),
        decreases v.len() - i,
    {
        let ghost before = out.deep_view();
        match &v[i] {
            Some(card) => out.push(Some(card.clone())),
            None => out.push(None),
        }
        proof {
            assert(out.deep_view() =~= before.push(v.deep_view()[i as int]));
            assert(v.deep_view().take(i + 1) =~= before.push(v.deep_view()[i as int]));
        }
        i = i + 1;
    }
    proof {
        assert(v.deep_view().take(v.len() as int) =~= v.deep_view());
    }
    out
}

/// A fresh vector holding the same optional owner names.
#[verifier::loop_isolation(false)]
fn copy_owners(v: &Vec<Option<String>>) -> (res: Vec<Option<String>>)
    ensures
        res.deep_view() == v.deep_view(),
{
    let mut out: Vec<Option<String>> = Vec::new();
    let mut i: usize = 0;
    while i < v.len()
        invariant
            i <= v.len(),
            out.deep_view() == v.deep_view().take(i as int),
        decreases v.len() - i,
    {
        let ghost before = out.deep_view();
        match &v[i] {
            Some(name) => out.push(Some(name.clone())),
            None => out.push(None),
        }
        proof {
            assert(out.deep_view() =~= before.push(v.deep_view()[i as int]));
            assert(v.deep_view().take(i + 1) =~= before.push(v.deep_view()[i as int]));
        }
        i = i + 1;
    }
    proof {
        assert(v.deep_view().take(v.len() as int) =~= v.deep_view());
    }
    out
}

impl Clone for Board {
    fn clone(&self) -> (res: Board)
        ensures
            res@ == self@,
    {
        let res = Board { cards: copy_cards(&self.cards), cell_owner: copy_owners(&self.cell_owner) };
        proof {
            assert(res@ =~= self@);
        }
        res
    }
}

impl Board {
    /// An empty board: nine cells, no cards, no owners.
    #[verifier::loop_isolation(false)]
    pub fn new() -> (board: Board)
        ensures
            board@.wf(),
            forall|i: int| 0 <= i < 9 ==> board@.cards[i] is None,
            forall|i: int| 0 <= i < 9 ==> board@.owners[i] is None,
    {
        let mut cards: Vec<Option<Card>> = Vec::new();
        let mut cell_owner: Vec<Option<String>> = Vec::new();
        let mut i: usize = 0;
        while i < 9
            invariant
                cards.len() == i,
                cell_owner.len() == i,
                i <= 9,
                forall|j: int| 0 <= j < i ==> cards.deep_view()[j] is None,
                forall|j: int| 0 <= j < i ==> cell_owner.deep_view()[j] is None,
            decreases 9 - i,
        {
            let ghost prev_cards = cards.deep_view();
            let ghost prev_owner = cell_owner.deep_view();
            cards.push(None);
            cell_owner.push(None);
            proof {
                assert(cards.deep_view() =~= prev_cards.push(None));
                assert(cell_owner.deep_view() =~= prev_owner.push(None));
            }
            i = i + 1;
        }
        Board { cards, cell_owner }
    }

    /// The card occupying the cell at (x, y), or an out-of-bounds error.
    pub fn get_card_at(&self, x: u8, y: u8) -> (res: Result<Option<Card>, String>)
        requires
            self@.wf(),
        ensures
            cell_in_bounds(x, y) ==> (res matches Ok(c) && c.deep_view() == self@.cards[cell_index(
                x,
                y,
            )]),
            !cell_in_bounds(x, y) ==> (res matches Err(m) && m@ == "Out of bounds"@),
    {
        if x >= 3 || y >= 3 {
            return Err("Out of bounds".to_owned());
        }
        let index: usize = (x as usize) * 3 + (y as usize);
        match &self.cards[index] {
            Some(card) => Ok(Some(card.clone())),
            None => Ok(None),
        }
    }

    /// A board with `card` placed at (x, y) and the cell owned by
    /// `player`; the board is returned unchanged when the target cell is
    /// out of bounds or already occupied.
    pub fn set_card_at(&self, player: &Player, card: &Card, x: u8, y: u8) -> (res: Board)
        requires
            self@.wf(),
        ensures
            res@.wf(),
            res@ == self@.place(player@.name, card@, x, y),
    {
        if x >= 3 || y >= 3 {
            return self.clone();
        }
        let index: usize = (x as usize) * 3 + (y as usize);
        if self.cards[index].is_some() {
            return self.clone();
        }
        let mut new_cards = copy_cards(&self.cards);
        new_cards[index] = Some(card.clone());
        let mut new_owner = copy_owners(&self.cell_owner);
        new_owner[index] = Some(player.name.clone());
        let res = Board { cards: new_cards, cell_owner: new_owner };
        proof {
            assert(res@.cards =~= self@.cards.update(cell_index(x, y), Some(card@)));
            assert(res@.owners =~= self@.owners.update(cell_index(x, y), Some(player@.name)));
        }
        res
    }

    /// The name of the player owning the cell at (x, y), or an
    /// out-of-bounds error.  The cell must be occupied when in bounds:
    /// callers check occupancy first.
    pub fn get_cell_owner(&self, x: u8, y: u8) -> (res: Result<String, String>)
        requires
            self@.wf(),
            cell_in_bounds(x, y) ==> self@.owners[cell_index(x, y)] is Some,
        ensures
            cell_in_bounds(x, y) ==> (res matches Ok(n) && Some(n@) == self@.owners[cell_index(
                x,
                y,
            )]),
            !cell_in_bounds(x, y) ==> (res matches Err(m) && m@ == "Out of bounds"@),
    {
        if x >= 3 || y >= 3 {
            return Err("Out of bounds".to_owned());
        }
        let index: usize = (x as usize) * 3 + (y as usize);
        match &self.cell_owner[index] {
            Some(name) => Ok(name.clone()),
            None => unreached(),
        }
    }

    /// A board with the owner of the occupied cell at (x, y) reassigned
    /// to `owner`; the cell's card is untouched.
    pub fn set_cell_owner(&self, owner: Player, x: u8, y: u8) -> (res: Board)
        requires
            self@.wf(),
            cell_in_bounds(x, y),
            self@.cards[cell_index(x, y)] is Some,
        ensures
            res@.wf(),
            res@ == self@.with_owner(owner@.name, x, y),
    {
        let index: usize = (x as usize) * 3 + (y as usize);
        let mut new_owner = copy_owners(&self.cell_owner);
        new_owner[index] = Some(owner.name.clone());
        let res = Board { cards: copy_cards(&self.cards), cell_owner: new_owner };
        proof {
            assert(res@.owners =~= self@.owners.update(cell_index(x, y), Some(owner@.name)));
        }
        res
    }

    /// Whether every cell of the board holds a card.
    #[verifier::loop_isolation(false)]
    pub fn is_full(&self) -> (res: bool)
        requires
            self@.wf(),
        ensures
            res == self@.full(),
    {
        let mut i: usize = 0;
        while i < 9
            invariant
                i <= 9,
                forall|j: int| 0 <= j < i ==> self@.cards[j] is Some,
            decreases 9 - i,
        {
            if self.cards[i].is_none() {
                proof {
                    assert(self@.cards[i as int] is None);
                }
                return false;
            }
            i = i + 1;
        }
        true
    }

    /// How many cells each of the two players owns, in registration
    /// order.
    #[verifier::loop_isolation(false)]
    pub fn tally(&self, players: &Vec<Player>) -> (scores: (u8, u8))
        requires
            self@.wf(),
            players.len() == 2,
        ensures
            scores.0 == count_owned_by(self@.owners, players.deep_view()[0].name),
            scores.1 == count_owned_by(self@.owners, players.deep_view()[1].name),
    {
        let first = self.count_owned(&players[0].name);
        let second = self.count_owned(&players[1].name);
        (first, second)
    }

    /// How many cells the player called `name` owns.
    #[verifier::loop_isolation(false)]
    fn count_owned(&self, name: &String) -> (count: u8)
        requires
            self@.wf(),
        ensures
            count == count_owned_by(self@.owners, name@),
    {
        let mut count: u8 = 0;
        let mut i: usize = 0;
        while i < 9
            invariant
                i <= 9,
                count <= i,
                count == count_owned_by(self@.owners.take(i as int), name@),
        decreases 9 - i,
        {
            proof {
                assert(self@.owners.take(i + 1).drop_last() =~= self@.owners.take(i as int));
            }
            match &self.cell_owner[i] {
                Some(owner) => {
                    if *owner == *name {
                        count = count + 1;
                    }
                },
                None => {},
            }
            i = i + 1;
        }
        proof {
            assert(self@.owners.take(9) =~= self@.owners);
        }
        count
    }
}

} // verus!
