use vstd::prelude::*;

use crate::card::{Card, CardView};

verus! {

/// Mathematical image of a player: the name and the hand, in order.
#[verifier::ext_equal]
pub ghost struct PlayerView {
    pub name: Seq<char>,
    pub hand: Seq<CardView>,
}

impl PlayerView {
    /// The hand with every card bearing the given identity token removed.
    pub open spec fn hand_without(self, id: Seq<char>) -> Seq<CardView> {
        self.hand.filter(|c: CardView| c.id != id)
    }
}

/// A participant in the game: a name, unique within a game, and the
/// ordered hand of cards currently held.
#[derive(Debug, PartialEq)]
pub struct Player {
    pub name: String,
    pub hand: Vec<Card>,
}

impl View for Player {
    type V = PlayerView;

    open spec fn view(&self) -> PlayerView {
        PlayerView { name: self.name@, hand: self.hand.deep_view() }
    }
}

impl DeepView for Player {
    type V = PlayerView;

    open spec fn deep_view(&self) -> PlayerView {
        self.view()
    }
}

impl Clone for Player {
    fn clone(&self) -> (res: Player)
        ensures
            res@ == self@,
    {
        let res = Player {
            name: self.name.clone(),
            hand: crate::card::copy_card_vec(&self.hand),
        };
        proof {
            assert(res@ =~= self@);
        }
        res
    }
}

/// A fresh vector holding view-equal copies of the given players.
#[verifier::loop_isolation(false)]
pub(crate) fn copy_player_vec(v: &Vec<Player>) -> (res: Vec<Player>)
    ensures
        res.deep_view() == v.deep_view(),
{
    let mut out: Vec<Player> = Vec::new();
    let mut i: usize = 0;
    while i < v.len()
        invariant
            i <= v.len(),
            out.deep_view() == v.deep_view().take(i as int),
        decreases v.len() - i,
    {
        let ghost before = out.deep_view();
        out.push(v[i].clone());
        proof {
            assert(out.deep_view() =~= before.push(v.deep_view()[i as int]));
            assert(v.deep_view().take(i + 1) =~= before.push(v.deep_view()[i as int]));
        }
        i = i + 1;
    }
    proof {
        assert(v.deep_view().take(v.len() as int) =~= v.deep_view());
    }
    out
}

impl Player {
    /// A freshly registered player: the given name and an empty hand.
    pub fn new(name: String) -> (player: Player)
        ensures
            player@.name == name@,
            player@.hand == Seq::<CardView>::empty(),
    {
        let player = Player { name, hand: Vec::new() };
        proof {
            assert(player@.hand =~= Seq::<CardView>::empty());
        }
        player
    }

    /// A copy of this player whose hand no longer holds any card bearing
    /// the identity token of the given card.
    #[verifier::loop_isolation(false)]
    pub fn drop_card(&self, card: &Card) -> (res: Player)
        ensures
            res@.name == self@.name,
            res@.hand == self@.hand_without(card@.id),
    {
        let ghost pred = |c: CardView| c.id != card@.id;
        let mut new_hand: Vec<Card> = Vec::new();
        let mut i: usize = 0;
        while i < self.hand.len()
            invariant
                i <= self.hand.len(),
                new_hand.deep_view() == self.hand.deep_view().take(i as int).filter(pred),
            decreases self.hand.len() - i,
        {
            let keep = !(self.hand[i].id == card.id);
            proof {
                reveal(Seq::filter);
                let s = self.hand.deep_view();
                assert(s.take(i + 1).drop_last() =~= s.take(i as int));
                assert(s.take(i + 1).last() == s[i as int]);
                assert(s.take(i + 1).filter(pred) == if pred(s[i as int]) {
                    s.take(i as int).filter(pred).push(s[i as int])
                } else {
                    s.take(i as int).filter(pred)
                });
                assert(keep == pred(s[i as int]));
            }
            if keep {
                let ghost before = new_hand.deep_view();
                new_hand.push(self.hand[i].clone());
                proof {
                    assert(new_hand.deep_view() =~= before.push(self.hand.deep_view()[i as int]));
                }
            }
            i = i + 1;
        }
        proof {
            assert(self.hand.deep_view().take(self.hand.len() as int) =~= self.hand.deep_view());
        }
        Player { name: self.name.clone(), hand: new_hand }
    }
}

} // verus!
