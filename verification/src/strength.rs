use vstd::prelude::*;

verus! {

/// An edge strength as the text renderer shows it: 1 through 9, then
/// `A` for ten.
#[derive(Clone, Copy, PartialEq, Eq, Debug)]
pub enum Strength {
    One,
    Two,
    Three,
    Four,
    Five,
    Six,
    Seven,
    Eight,
    Nine,
    A,
}

impl Strength {
    /// The character shown for this strength.
    pub open spec fn char_value(self) -> char {
        match self {
            Strength::One => '1',
            Strength::Two => '2',
            Strength::Three => '3',
            Strength::Four => '4',
            Strength::Five => '5',
            Strength::Six => '6',
            Strength::Seven => '7',
            Strength::Eight => '8',
            Strength::Nine => '9',
            Strength::A => 'A',
        }
    }

    /// The same character as a one-character text.
    pub open spec fn char_seq(self) -> Seq<char> {
        match self {
            Strength::One => "1"@,
            Strength::Two => "2"@,
            Strength::Three => "3"@,
            Strength::Four => "4"@,
            Strength::Five => "5"@,
            Strength::Six => "6"@,
            Strength::Seven => "7"@,
            Strength::Eight => "8"@,
            Strength::Nine => "9"@,
            Strength::A => "A"@,
        }
    }

    /// The character shown for this strength.
    pub fn to_value(&self) -> (c: char)
        ensures
            c == self.char_value(),
    {
        match self {
            Strength::One => '1',
            Strength::Two => '2',
            Strength::Three => '3',
            Strength::Four => '4',
            Strength::Five => '5',
            Strength::Six => '6',
            Strength::Seven => '7',
            Strength::Eight => '8',
            Strength::Nine => '9',
            Strength::A => 'A',
        }
    }
}

/// The one-character text of a strength holds exactly the character
/// shown for it.
pub proof fn lemma_strength_char_seq(s: Strength)
    ensures
        s.char_seq() == seq![s.char_value()],
{
    reveal_strlit("1");
    reveal_strlit("2");
    reveal_strlit("3");
    reveal_strlit("4");
    reveal_strlit("5");
    reveal_strlit("6");
    reveal_strlit("7");
    reveal_strlit("8");
    reveal_strlit("9");
    reveal_strlit("A");
    assert(s.char_seq() =~= seq![s.char_value()]);
}

/// The strength text rendered at runtime.
pub(crate) fn strength_str(s: Strength) -> (r: &'static str)
    ensures
        r@ == s.char_seq(),
{
    match s {
        Strength::One => "1",
        Strength::Two => "2",
        Strength::Three => "3",
        Strength::Four => "4",
        Strength::Five => "5",
        Strength::Six => "6",
        Strength::Seven => "7",
        Strength::Eight => "8",
        Strength::Nine => "9",
        Strength::A => "A",
    }
}

} // verus!
