use vstd::prelude::*;

use vstd::string::StringExecFns;

use crate::cell::{Cell, FaceCard};

verus! {

/// The horizontal rule drawn between grid rows.
pub open spec fn sep_spec() -> Seq<char> {
    "  -------------------------\n"@
}

/// The column labels drawn under the grid.
pub open spec fn footer_spec() -> Seq<char> {
    "      A       B       C\n"@
}

/// The text of one rendered grid row: the three lines of its three
/// cells, the middle one led by the row label, followed by a rule.
pub open spec fn row_block_spec(label: Seq<char>, c0: Cell, c1: Cell, c2: Cell) -> Seq<char> {
    "  |"@ + c0.lines_spec()[0] + c1.lines_spec()[0] + c2.lines_spec()[0] + "\n"@ + label
        + c0.lines_spec()[1] + c1.lines_spec()[1] + c2.lines_spec()[1] + "\n"@ + "  |"@
        + c0.lines_spec()[2] + c1.lines_spec()[2] + c2.lines_spec()[2] + "\n"@ + sep_spec()
}

/// The full text of the rendered grid: a rule, the three rows top to
/// bottom labelled 3, 2, 1, and the column labels.
pub open spec fn display_spec(cells: Seq<Cell>) -> Seq<char> {
    "\n"@ + sep_spec() + row_block_spec("3 |"@, cells[0], cells[1], cells[2]) + row_block_spec(
        "2 |"@,
        cells[3],
        cells[4],
        cells[5],
    ) + row_block_spec("1 |"@, cells[6], cells[7], cells[8]) + footer_spec()
}

/// A 3x3 grid of rendered cells, addressed by (row, column) with row 0
/// at the top.
#[derive(Debug)]
pub struct Grid {
    pub cells: Vec<Cell>,
}

/// One rendered grid row.
fn render_row(label: &str, c0: &Cell, c1: &Cell, c2: &Cell) -> (out: String)
    ensures
        out@ == row_block_spec(label@, *c0, *c1, *c2),
{
    let lines0 = c0.to_lines();
    let lines1 = c1.to_lines();
    let lines2 = c2.to_lines();
    let mut out = String::new();
    out.append("  |");
    out.append(lines0[0].as_str());
    out.append(lines1[0].as_str());
    out.append(lines2[0].as_str());
    out.append("\n");
    out.append(label);
    out.append(lines0[1].as_str());
    out.append(lines1[1].as_str());
    out.append(lines2[1].as_str());
    out.append("\n");
    out.append("  |");
    out.append(lines0[2].as_str());
    out.append(lines1[2].as_str());
    out.append(lines2[2].as_str());
    out.append("\n");
    out.append("  -------------------------\n");
    proof {
        assert(out@ =~= row_block_spec(label@, *c0, *c1, *c2));
    }
    out
}

impl Grid {
    /// An empty grid: nine empty cells.
    #[verifier::loop_isolation(false)]
    pub fn new() -> (grid: Grid)
        ensures
            grid.cells@.len() == 9,
            forall|i: int| 0 <= i < 9 ==> grid.cells@[i] == Cell::Empty,
    {
        let mut cells: Vec<Cell> = Vec::new();
        let mut i: usize = 0;
        while i < 9
            invariant
                i <= 9,
                cells.len() == i,
                forall|j: int| 0 <= j < i ==> cells@[j] == Cell::Empty,
            decreases 9 - i,
        {
            cells.push(Cell::Empty);
            i = i + 1;
        }
        Grid { cells }
    }

    /// A grid with `card` occupying the cell at (row, column).
    pub fn place_card(&self, row: usize, column: usize, card: FaceCard) -> (grid: Grid)
        requires
            self.cells@.len() == 9,
            row < 3,
            column < 3,
        ensures
            grid.cells@ == self.cells@.update((row * 3 + column) as int, Cell::Card { card }),
    {
        let mut cells = self.cells.clone();
        proof {
            assert(cells@ =~= self.cells@);
        }
        cells[row * 3 + column] = Cell::Card { card };
        let grid = Grid { cells };
        proof {
            assert(grid.cells@ =~= self.cells@.update((row * 3 + column) as int, Cell::Card { card }));
        }
        grid
    }

    /// The rendered text of the whole grid.
    pub fn display(&self) -> (out: String)
        requires
            self.cells@.len() == 9,
        ensures
            out@ == display_spec(self.cells@),
    {
        let mut out = String::new();
        out.append("\n");
        out.append("  -------------------------\n");
        let top = render_row("3 |", &self.cells[0], &self.cells[1], &self.cells[2]);
        out.append(top.as_str());
        let middle = render_row("2 |", &self.cells[3], &self.cells[4], &self.cells[5]);
        out.append(middle.as_str());
        let bottom = render_row("1 |", &self.cells[6], &self.cells[7], &self.cells[8]);
        out.append(bottom.as_str());
        out.append("      A       B       C\n");
        proof {
            assert(out@ =~= display_spec(self.cells@));
        }
        out
    }
}

} // verus!
