use vstd::prelude::*;

verus! {

/// Mathematical image of a card: the identity token as a sequence of
/// characters together with the four directional edge strengths.
#[verifier::ext_equal]
pub ghost struct CardView {
    pub id: Seq<char>,
    pub top: u8,
    pub right: u8,
    pub bottom: u8,
    pub left: u8,
}

impl CardView {
    /// Total strength of the four edges.
    pub open spec fn sum(self) -> int {
        self.top + self.right + self.bottom + self.left
    }
}

/// A playing card: a unique identity token and four edge strengths
/// (top, right, bottom, left).  Ownership of a placed card is tracked
/// by the board, never by the card itself.
#[derive(Debug, PartialEq)]
pub struct Card {
    pub id: String,
    pub top: u8,
    pub right: u8,
    pub bottom: u8,
    pub left: u8,
}

impl View for Card {
    type V = CardView;

    open spec fn view(&self) -> CardView {
        CardView {
            id: self.id@,
            top: self.top,
            right: self.right,
            bottom: self.bottom,
            left: self.left,
        }
    }
}

impl DeepView for Card {
    type V = CardView;

    open spec fn deep_view(&self) -> CardView {
        self.view()
    }
}

impl Clone for Card {
    fn clone(&self) -> (res: Card)
        ensures
            res@ == self@,
    {
        Card {
            id: self.id.clone(),
            top: self.top,
            right: self.right,
            bottom: self.bottom,
            left: self.left,
        }
    }
}

/// The character showing the decimal digit `d`.
pub open spec fn dec_digit(d: int) -> char {
    if d == 0 {
        '0'
    } else if d == 1 {
        '1'
    } else if d == 2 {
        '2'
    } else if d == 3 {
        '3'
    } else if d == 4 {
        '4'
    } else if d == 5 {
        '5'
    } else if d == 6 {
        '6'
    } else if d == 7 {
        '7'
    } else if d == 8 {
        '8'
    } else {
        '9'
    }
}

/// The decimal rendering of a non-negative number, most significant
/// digit first.
pub open spec fn dec_seq(n: int) -> Seq<char>
    decreases n,
{
    if n < 10 {
        seq![dec_digit(n)]
    } else {
        dec_seq(n / 10).push(dec_digit(n % 10))
    }
}

/// The text of a single decimal digit.
fn digit_str(d: u8) -> (r: &'static str)
    requires
        d < 10,
    ensures
        r@ == dec_seq(d as int),
{
    proof {
        reveal_strlit("0");
        reveal_strlit("1");
        reveal_strlit("2");
        reveal_strlit("3");
        reveal_strlit("4");
        reveal_strlit("5");
        reveal_strlit("6");
        reveal_strlit("7");
        reveal_strlit("8");
        reveal_strlit("9");
    }
    let r = match d {
        0 => "0",
        1 => "1",
        2 => "2",
        3 => "3",
        4 => "4",
        5 => "5",
        6 => "6",
        7 => "7",
        8 => "8",
        _ => "9",
    };
    proof {
        assert(r@ =~= dec_seq(d as int));
    }
    r
}

/// The decimal text of a byte-sized number.
fn u8_string(n: u8) -> (s: String)
    ensures
        s@ == dec_seq(n as int),
{
    let mut s = String::new();
    if n >= 100 {
        s.append(digit_str(n / 100));
    }
    if n >= 10 {
        s.append(digit_str((n / 10) % 10));
    }
    s.append(digit_str(n % 10));
    proof {
        let ni = n as int;
        if ni >= 100 {
            assert((ni / 10) / 10 == ni / 100) by (nonlinear_arith)
                requires
                    ni >= 0,
            ;
            assert(ni / 10 >= 10);
            assert(dec_seq(ni / 100) == seq![dec_digit(ni / 100)]);
            assert(dec_seq(ni / 10) == dec_seq(ni / 100).push(dec_digit((ni / 10) % 10)));
            assert(dec_seq(ni) == dec_seq(ni / 10).push(dec_digit(ni % 10)));
        } else if ni >= 10 {
            assert((ni / 10) % 10 == ni / 10);
            assert(dec_seq(ni / 10) == seq![dec_digit(ni / 10)]);
            assert(dec_seq(ni) == dec_seq(ni / 10).push(dec_digit(ni % 10)));
        }
        assert(s@ =~= dec_seq(ni));
    }
    s
}

/// A fresh vector holding view-equal copies of the given cards.
#[verifier::loop_isolation(false)]
pub(crate) fn copy_card_vec(v: &Vec<Card>) -> (res: Vec<Card>)
    ensures
        res.deep_view() == v.deep_view(),
{
    let mut out: Vec<Card> = Vec::new();
    let mut i: usize = 0;
    while i < v.len()
        invariant
            i <= v.len(),
            out.deep_view() == v.deep_view().take(i as int),
        decreases v.len() - i,
    {
        let ghost before = out.deep_view();
        out.push(v[i].clone());
        proof {
            assert(out.deep_view() =~= before.push(v.deep_view()[i as int]));
            assert(v.deep_view().take(i + 1) =~= before.push(v.deep_view()[i as int]));
        }
        i = i + 1;
    }
    proof {
        assert(v.deep_view().take(v.len() as int) =~= v.deep_view());
    }
    out
}

impl Card {
    /// The one text line this card renders as, repeated for each of
    /// its three rows: the top strength between padding.
    pub open spec fn line_spec(self) -> Seq<char> {
        "   "@ + dec_seq(self.top as int) + "   |"@
    }

    /// The three text lines of this card.  Each shows the top
    /// strength; the owner's sign is not rendered here.
    #[allow(unused_variables)]
    pub fn to_lines(&self, owner: String) -> (lines: [String; 3])
        ensures
            lines@.len() == 3,
            forall|k: int| 0 <= k < 3 ==> lines@[k]@ == self.line_spec(),
    {
        let mut l0 = String::new();
        l0.append("   ");
        let top = u8_string(self.top);
        l0.append(top.as_str());
        l0.append("   |");
        proof {
            assert(l0@ =~= self.line_spec());
        }
        let l1 = l0.clone();
        let l2 = l0.clone();
        [l0, l1, l2]
    }

    /// The total strength of the card's four edges.
    pub fn sum(&self) -> (total: u8)
        requires
            self@.sum() <= u8::MAX,
        ensures
            total == self@.sum(),
    {
        self.top + self.right + self.bottom + self.left
    }
}

} // verus!
