use vstd::prelude::*;

use vstd::string::StringExecFns;

use crate::owner::Owner;
use crate::strength::{strength_str, Strength};

verus! {

/// A card as the text renderer sees it: the owning side and the four
/// edge strengths.
#[derive(Clone, Copy, PartialEq, Debug)]
pub struct FaceCard {
    pub owner: Owner,
    pub top: Strength,
    pub left: Strength,
    pub bottom: Strength,
    pub right: Strength,
}

impl FaceCard {
    /// The three text lines of a rendered card: the top strength, the
    /// left and right strengths around the owner's sign, the bottom
    /// strength.
    pub open spec fn lines_spec(self) -> Seq<Seq<char>> {
        seq![
            "   "@ + self.top.char_seq() + "   |"@,
            self.left.char_seq() + "  "@ + self.owner.sign_seq() + "  "@ + self.right.char_seq()
                + "|"@,
            "   "@ + self.bottom.char_seq() + "   |"@,
        ]
    }

    /// The three text lines of this card.
    pub fn to_lines(&self) -> (lines: [String; 3])
        ensures
            lines@.len() == 3,
            lines@[0]@ == self.lines_spec()[0],
            lines@[1]@ == self.lines_spec()[1],
            lines@[2]@ == self.lines_spec()[2],
    {
        let mut l0 = String::new();
        l0.append("   ");
        l0.append(strength_str(self.top));
        l0.append("   |");
        let mut l1 = String::new();
        l1.append(strength_str(self.left));
        l1.append("  ");
        let sign = self.owner.to_sign();
        l1.append(sign.as_str());
        l1.append("  ");
        l1.append(strength_str(self.right));
        l1.append("|");
        let mut l2 = String::new();
        l2.append("   ");
        l2.append(strength_str(self.bottom));
        l2.append("   |");
        proof {
            assert(l0@ =~= self.lines_spec()[0]);
            assert(l1@ =~= self.lines_spec()[1]);
            assert(l2@ =~= self.lines_spec()[2]);
        }
        [l0, l1, l2]
    }
}

/// One position of the rendered grid: empty, or holding a card.
#[derive(Clone, Copy, PartialEq, Debug)]
pub enum Cell {
    Card { card: FaceCard },
    Empty,
}

impl Cell {
    /// The three text lines of a rendered cell: a card's lines, or
    /// three blank segments.
    pub open spec fn lines_spec(self) -> Seq<Seq<char>> {
        match self {
            Cell::Card { card } => card.lines_spec(),
            Cell::Empty => seq!["       |"@, "       |"@, "       |"@],
        }
    }

    /// The three text lines of this cell.
    pub fn to_lines(&self) -> (lines: [String; 3])
        ensures
            lines@.len() == 3,
            lines@[0]@ == self.lines_spec()[0],
            lines@[1]@ == self.lines_spec()[1],
            lines@[2]@ == self.lines_spec()[2],
    {
        match self {
            Cell::Card { card } => card.to_lines(),
            Cell::Empty => [
                "       |".to_owned(),
                "       |".to_owned(),
                "       |".to_owned(),
            ],
        }
    }
}

} // verus!
