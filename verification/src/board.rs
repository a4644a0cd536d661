use vstd::prelude::*;
use vstd::string::StringExecFns;
use rand::Rng;

verus! {

/// Relies on rand::Rng::gen_ratio on the process-wide thread_rng: the call
/// returns true with probability num/den and panics only when den is zero
/// or num exceeds den, which the precondition rules out. Nothing can be
/// promised of any one outcome.
#[verifier::external_body]
fn random_chance(num: u32, den: u32) -> bool
    requires
        0 < den,
        num <= den,
{
    rand::thread_rng().gen_ratio(num, den)
}

/// The state of one grid position: alive or dead, nothing else.
#[derive(Debug, Clone, Copy, PartialEq, Eq, Structural)]
pub enum Cell {
    Alive,
    Dead,
}

/// The character that stands for a cell in a rendered line: a full block
/// when alive, a space when dead.
pub open spec fn glyph(c: Cell) -> char {
    match c {
        Cell::Alive => '\u{2588}',
        Cell::Dead => ' ',
    }
}

/// 1 if (r, c) lies on the grid and holds a live cell, else 0. Positions
/// off the grid never count: the grid does not wrap around.
pub open spec fn alive_at(g: Seq<Seq<Cell>>, r: int, c: int) -> int {
    if 0 <= r < g.len() && 0 <= c < g[r].len() && g[r][c] == Cell::Alive {
        1
    } else {
        0
    }
}

/// The number of live cells among the up-to-8 positions whose row and
/// column each differ from (r, c) by at most one, excluding (r, c) itself
/// and every position off the grid.
pub open spec fn live_neighbours(g: Seq<Seq<Cell>>, r: int, c: int) -> int {
    alive_at(g, r - 1, c - 1) + alive_at(g, r - 1, c) + alive_at(g, r - 1, c + 1)
        + alive_at(g, r, c - 1) + alive_at(g, r, c + 1)
        + alive_at(g, r + 1, c - 1) + alive_at(g, r + 1, c) + alive_at(g, r + 1, c + 1)
}

/// The transition rule for one cell: a live cell survives on 2 or 3 live
/// neighbours, a dead cell comes alive on exactly 3, every other case is
/// dead in the next generation.
pub open spec fn step_cell(s: Cell, n: int) -> Cell {
    match s {
        Cell::Alive => if n == 2 || n == 3 {
            Cell::Alive
        } else {
            Cell::Dead
        },
        Cell::Dead => if n == 3 {
            Cell::Alive
        } else {
            Cell::Dead
        },
    }
}

/// One generation applied to a whole grid: every cell judged by the rule
/// against the same input grid.
pub open spec fn step_grid(g: Seq<Seq<Cell>>) -> Seq<Seq<Cell>> {
    Seq::new(
        g.len(),
        |r: int| Seq::new(g[r].len(), |c: int| step_cell(g[r][c], live_neighbours(g, r, c))),
    )
}

/// A row of w cells, all in state s.
pub open spec fn uniform_row(w: nat, s: Cell) -> Seq<Cell> {
    Seq::new(w, |c: int| s)
}

/// h rows of w cells, all in state s.
pub open spec fn uniform_grid(w: nat, h: nat, s: Cell) -> Seq<Seq<Cell>> {
    Seq::new(h, |r: int| uniform_row(w, s))
}

/// h rows of w dead cells.
pub open spec fn dead_grid(w: nat, h: nat) -> Seq<Seq<Cell>> {
    uniform_grid(w, h, Cell::Dead)
}

/// The text of one row: each cell as its glyph written twice, in column
/// order. The doubling makes a logical cell fill two terminal columns,
/// roughly a square.
pub open spec fn rendered_row(row: Seq<Cell>) -> Seq<char>
    decreases row.len(),
{
    if row.len() == 0 {
        Seq::<char>::empty()
    } else {
        rendered_row(row.drop_last()) + seq![glyph(row.last()), glyph(row.last())]
    }
}

/// The text of a whole grid: one line per row, top to bottom, joined by
/// line breaks, with no trailing break after the last line.
pub open spec fn rendered_grid(g: Seq<Seq<Cell>>) -> Seq<char>
    decreases g.len(),
{
    if g.len() == 0 {
        Seq::<char>::empty()
    } else if g.len() == 1 {
        rendered_row(g[0])
    } else {
        rendered_grid(g.drop_last()) + seq!['\n'] + rendered_row(g.last())
    }
}

/// A rectangular Game of Life board: `size` is `(width, height)` and
/// `state` holds `height` rows of `width` cells each, addressed as
/// `state[row][column]`.
#[derive(Debug, PartialEq, Eq)]
pub struct Board {
    pub size: (usize, usize),
    pub state: Vec<Vec<Cell>>,
}

impl View for Board {
    type V = Seq<Seq<Cell>>;

    open spec fn view(&self) -> Seq<Seq<Cell>> {
        self.state@.map_values(|row: Vec<Cell>| row@)
    }
}

impl Board {
    /// The grid is rectangular and its dimensions agree with `size`.
    pub open spec fn wf(self) -> bool {
        &&& self@.len() == self.size.1
        &&& forall|r: int| 0 <= r < self@.len() ==> (#[trigger] self@[r]).len() == self.size.0
    }

    /// A board of the given dimensions with every cell dead. Total: a zero
    /// width or height gives a degenerate but valid board.
    pub fn dead_state(width: usize, height: usize) -> (board: Self)
        ensures
            board.wf(),
            board.size == (width, height),
            board@ == dead_grid(width as nat, height as nat),
            board@.len() == height,
            forall|r: int| 0 <= r < height ==> (#[trigger] board@[r]).len() == width,
            forall|r: int, c: int|
                0 <= r < height && 0 <= c < width ==> #[trigger] board@[r][c] == Cell::Dead,
    {
        let mut state: Vec<Vec<Cell>> = Vec::new();
        for r in 0..height
            invariant
                state@.len() == r,
                forall|i: int|
                    0 <= i < r ==> (#[trigger] state@[i])@ == uniform_row(
                        width as nat,
                        Cell::Dead,
                    ),
        {
            let mut row: Vec<Cell> = Vec::new();
            for c in 0..width
                invariant
                    row@.len() == c,
                    forall|j: int| 0 <= j < c ==> #[trigger] row@[j] == Cell::Dead,
            {
                row.push(Cell::Dead);
            }
            proof {
                assert(row@ =~= uniform_row(width as nat, Cell::Dead));
            }
            state.push(row);
        }
        let board = Board { size: (width, height), state };
        proof {
            assert(board@ =~~= dead_grid(width as nat, height as nat));
        }
        board
    }

    /// A board of the given dimensions where each cell is drawn alive,
    /// independently, with probability 15/100 from the process-wide random
    /// source. Nothing is promised of the outcome beyond its shape.
    pub fn random_state(width: usize, height: usize) -> (board: Self)
        ensures
            board.wf(),
            board.size == (width, height),
    {
        let mut state: Vec<Vec<Cell>> = Vec::new();
        for r in 0..height
            invariant
                state@.len() == r,
                forall|i: int| 0 <= i < r ==> (#[trigger] state@[i])@.len() == width,
        {
            let mut row: Vec<Cell> = Vec::new();
            for c in 0..width
                invariant
                    row@.len() == c,
            {
                if random_chance(15, 100) {
                    row.push(Cell::Alive);
                } else {
                    row.push(Cell::Dead);
                }
            }
            state.push(row);
        }
        Board { size: (width, height), state }
    }

    /// Whether the cell at (row, col) is alive on this board.
    fn cell_alive(&self, row: usize, col: usize) -> (alive: bool)
        requires
            self.wf(),
            row < self.size.1,
            col < self.size.0,
        ensures
            alive == (self@[row as int][col as int] == Cell::Alive),
    {
        proof {
            assert(self@[row as int] == self.state@[row as int]@);
        }
        self.state[row][col] == Cell::Alive
    }

    /// The state that the cell at `coords` = (column, row) takes in the
    /// next generation, judged against this board.
    fn next_cell_state(&self, coords: (usize, usize)) -> (next: Cell)
        requires
            self.wf(),
            coords.0 < self.size.0,
            coords.1 < self.size.1,
        ensures
            next == step_cell(
                self@[coords.1 as int][coords.0 as int],
                live_neighbours(self@, coords.1 as int, coords.0 as int),
            ),
    {
        let x = coords.0;
        let y = coords.1;
        let width = self.size.0;
        let height = self.size.1;
        let mut live: u32 = 0;

        if y > 0 {
            if x > 0 && self.cell_alive(y - 1, x - 1) {
                live = live + 1;
            }
            if self.cell_alive(y - 1, x) {
                live = live + 1;
            }
            if x + 1 < width && self.cell_alive(y - 1, x + 1) {
                live = live + 1;
            }
        }
        if x > 0 && self.cell_alive(y, x - 1) {
            live = live + 1;
        }
        if x + 1 < width && self.cell_alive(y, x + 1) {
            live = live + 1;
        }
        if y + 1 < height {
            if x > 0 && self.cell_alive(y + 1, x - 1) {
                live = live + 1;
            }
            if self.cell_alive(y + 1, x) {
                live = live + 1;
            }
            if x + 1 < width && self.cell_alive(y + 1, x + 1) {
                live = live + 1;
            }
        }

        proof {
            assert(live == live_neighbours(self@, y as int, x as int));
        }

        proof {
            assert(self@[y as int] == self.state@[y as int]@);
        }
        match self.state[y][x] {
            Cell::Alive => if live == 2 || live == 3 {
                Cell::Alive
            } else {
                Cell::Dead
            },
            Cell::Dead => if live == 3 {
                Cell::Alive
            } else {
                Cell::Dead
            },
        }
    }

    /// The next generation: a new board of the same dimensions, every cell
    /// judged by the transition rule against this board, which is read and
    /// never changed. Total for every well-formed board, degenerate ones
    /// included.
    pub fn next_board_state(&self) -> (next: Self)
        requires
            self.wf(),
        ensures
            next.wf(),
            next.size == self.size,
            next@ == step_grid(self@),
    {
        let width = self.size.0;
        let height = self.size.1;
        let mut state: Vec<Vec<Cell>> = Vec::new();
        for row in 0..height
            invariant
                self.wf(),
                width == self.size.0,
                height == self.size.1,
                state@.len() == row,
                forall|i: int| 0 <= i < row ==> (#[trigger] state@[i])@ == step_grid(self@)[i],
        {
            let mut line: Vec<Cell> = Vec::new();
            for col in 0..width
                invariant
                    self.wf(),
                    width == self.size.0,
                    height == self.size.1,
                    row < height,
                    line@.len() == col,
                    forall|j: int|
                        0 <= j < col ==> #[trigger] line@[j] == step_grid(self@)[row as int][j],
            {
                line.push(self.next_cell_state((col, row)));
            }
            proof {
                assert(line@ =~= step_grid(self@)[row as int]);
            }
            state.push(line);
        }
        let next = Board { size: (width, height), state };
        proof {
            assert(next@ =~~= step_grid(self@));
        }
        next
    }

    /// The textual form of the board: one line per row, top to bottom,
    /// each cell as its doubled glyph, lines joined by line breaks with no
    /// trailing break. Pure formatting: nothing is written anywhere.
    pub fn render(&self) -> (text: String)
        requires
            self.wf(),
        ensures
            text@ == rendered_grid(self@),
    {
        let width = self.size.0;
        let height = self.size.1;
        let mut text = String::new();
        for row in 0..height
            invariant
                self.wf(),
                width == self.size.0,
                height == self.size.1,
                text@ == rendered_grid(self@.take(row as int)),
        {
            if row > 0 {
                proof {
                    reveal_strlit("\n");
                }
                text.append("\n");
            }
            for col in 0..width
                invariant
                    self.wf(),
                    width == self.size.0,
                    height == self.size.1,
                    row < height,
                    text@ == rendered_grid(self@.take(row as int)) + line_sep(row as int)
                        + rendered_row(self@[row as int].take(col as int)),
            {
                if self.cell_alive(row, col) {
                    text.append("\u{2588}\u{2588}");
                } else {
                    text.append("  ");
                }
                proof {
                    reveal_strlit("  ");
                    reveal_strlit("\u{2588}\u{2588}");
                    assert(self@[row as int].take(col as int + 1).drop_last() =~= self@[
                        row as int
                    ].take(col as int));
                    assert(self@[row as int].take(col as int + 1).last() == self@[row as int][
                        col as int
                    ]);
                }
            }
            proof {
                reveal_strlit("\n");
                assert(self@[row as int].take(width as int) =~= self@[row as int]);
                assert(self@.take(row as int + 1).drop_last() =~= self@.take(row as int));
                assert(text@ =~= rendered_grid(self@.take(row as int + 1)));
            }
        }
        proof {
            assert(self@.take(height as int) =~= self@);
        }
        text
    }
}

/// What stands between the line of row r and what was rendered before it:
/// nothing before the first line, a line break before every later one.
pub open spec fn line_sep(r: int) -> Seq<char> {
    if r == 0 {
        Seq::<char>::empty()
    } else {
        seq!['\n']
    }
}

} // verus!
