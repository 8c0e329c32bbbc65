use vstd::prelude::*;

verus! {

/// Which side a rendered card belongs to.
#[derive(Clone, Copy, PartialEq, Eq, Debug)]
pub enum Owner {
    PlayerOne,
    PlayerTwo,
}

impl Owner {
    /// The one-character sign shown at the centre of an owned card.
    pub open spec fn sign_seq(self) -> Seq<char> {
        match self {
            Owner::PlayerOne => "o"@,
            Owner::PlayerTwo => "x"@,
        }
    }

    /// The sign shown at the centre of an owned card.
    pub fn to_sign(self) -> (s: String)
        ensures
            s@ == self.sign_seq(),
    {
        match self {
            Owner::PlayerOne => "o".to_owned(),
            Owner::PlayerTwo => "x".to_owned(),
        }
    }
}

} // verus!
