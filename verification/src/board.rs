//! Four-in-a-row game board on a 4x4 grid. Pieces fall to the lowest free
//! row of their column; after every placement the board decides whether a
//! column, row or diagonal is complete, or the grid is full.

use vstd::prelude::*;

use crate::text::push_char;

verus! {

#[derive(Clone, Copy, Debug, PartialEq, Eq, Structural)]
pub enum Team {
    Milk,
    Cookie,
}

#[derive(Clone, Copy, Debug, PartialEq, Eq, Structural)]
pub enum Terminal {
    Draw,
    Win(Team),
}

/// The cell at row `r` (0 at the top), column `c`, of a row-major 16-cell
/// grid.
pub open spec fn cell(g: Seq<Option<Team>>, r: int, c: int) -> Option<Team> {
    g[r * 4 + c]
}

/// Four cells make a win exactly when all four hold the same team.
pub open spec fn four_spec(
    a: Option<Team>,
    b: Option<Team>,
    c: Option<Team>,
    d: Option<Team>,
) -> Option<Terminal> {
    match a {
        Some(t) => if b == Some(t) && c == Some(t) && d == Some(t) {
            Some(Terminal::Win(t))
        } else {
            None
        },
        None => None,
    }
}

pub open spec fn col_win(g: Seq<Option<Team>>, c: int) -> Option<Terminal> {
    four_spec(cell(g, 0, c), cell(g, 1, c), cell(g, 2, c), cell(g, 3, c))
}

pub open spec fn row_win(g: Seq<Option<Team>>, r: int) -> Option<Terminal> {
    four_spec(cell(g, r, 0), cell(g, r, 1), cell(g, r, 2), cell(g, r, 3))
}

/// Win of the first complete column at or after `c`, if any.
pub open spec fn cols_from(g: Seq<Option<Team>>, c: int) -> Option<Terminal>
    decreases 4 - c,
{
    if c < 0 || c >= 4 {
        None
    } else if col_win(g, c) is Some {
        col_win(g, c)
    } else {
        cols_from(g, c + 1)
    }
}

/// Win of the first complete row at or after `r`, if any.
pub open spec fn rows_from(g: Seq<Option<Team>>, r: int) -> Option<Terminal>
    decreases 4 - r,
{
    if r < 0 || r >= 4 {
        None
    } else if row_win(g, r) is Some {
        row_win(g, r)
    } else {
        rows_from(g, r + 1)
    }
}

pub open spec fn diag_main(g: Seq<Option<Team>>) -> Option<Terminal> {
    four_spec(cell(g, 0, 0), cell(g, 1, 1), cell(g, 2, 2), cell(g, 3, 3))
}

pub open spec fn diag_anti(g: Seq<Option<Team>>) -> Option<Terminal> {
    four_spec(cell(g, 0, 3), cell(g, 1, 2), cell(g, 2, 1), cell(g, 3, 0))
}

pub open spec fn full(g: Seq<Option<Team>>) -> bool {
    forall|i: int| 0 <= i < 16 ==> g[i] is Some
}

/// The decided result: the first winning column, else the first winning
/// row, else the main then the anti diagonal, else a draw on a full grid.
pub open spec fn outcome_of(g: Seq<Option<Team>>) -> Option<Terminal> {
    if cols_from(g, 0) is Some {
        cols_from(g, 0)
    } else if rows_from(g, 0) is Some {
        rows_from(g, 0)
    } else if diag_main(g) is Some {
        diag_main(g)
    } else if diag_anti(g) is Some {
        diag_anti(g)
    } else if full(g) {
        Some(Terminal::Draw)
    } else {
        None
    }
}

/// Lowest empty row of column `c`, or -1 when the column is full.
pub open spec fn lowest_empty(g: Seq<Option<Team>>, c: int) -> int {
    if g[12 + c] is None {
        3
    } else if g[8 + c] is None {
        2
    } else if g[4 + c] is None {
        1
    } else if g[c] is None {
        0
    } else {
        -1
    }
}

pub open spec fn glyph_of(o: Option<Team>) -> char {
    match o {
        None => '⬛',
        Some(Team::Milk) => '🥛',
        Some(Team::Cookie) => '🍪',
    }
}

/// One rendered row: a wall, the four cells, a wall and a line break.
pub open spec fn row_chars(g: Seq<Option<Team>>, r: int) -> Seq<char> {
    seq![
        '⬜',
        glyph_of(cell(g, r, 0)),
        glyph_of(cell(g, r, 1)),
        glyph_of(cell(g, r, 2)),
        glyph_of(cell(g, r, 3)),
        '⬜',
        '\n',
    ]
}

pub open spec fn rows_prefix(g: Seq<Option<Team>>, r: int) -> Seq<char>
    decreases r,
{
    if r <= 0 {
        Seq::empty()
    } else {
        rows_prefix(g, r - 1) + row_chars(g, r - 1)
    }
}

pub open spec fn outcome_text(t: Option<Terminal>) -> Seq<char> {
    match t {
        None => Seq::empty(),
        Some(Terminal::Draw) => "No winner.\n"@,
        Some(Terminal::Win(Team::Milk)) => "🥛 wins!\n"@,
        Some(Terminal::Win(Team::Cookie)) => "🍪 wins!\n"@,
    }
}

/// The rendered board: four rows, a bottom wall, then the closing line if the
/// game has ended.
pub open spec fn spec_render(g: Seq<Option<Team>>, t: Option<Terminal>) -> Seq<char> {
    rows_prefix(g, 4) + "⬜⬜⬜⬜⬜⬜\n"@ + outcome_text(t)
}

pub struct Board {
    cells: Vec<Option<Team>>,
    terminal: Option<Terminal>,
}

impl Board {
    /// The 16 cells, row-major, row 0 at the top.
    pub closed spec fn grid(&self) -> Seq<Option<Team>> {
        self.cells@
    }

    /// The decided result, if the game has ended.
    pub closed spec fn outcome(&self) -> Option<Terminal> {
        self.terminal
    }

    pub open spec fn wf(&self) -> bool {
        self.grid().len() == 16
    }

    /// An empty board with nothing decided.
    pub fn new() -> (b: Board)
        ensures
            b.wf(),
            b.grid() =~= Seq::new(16, |i: int| None::<Team>),
            b.outcome() is None,
    {
        let mut cells: Vec<Option<Team>> = Vec::new();
        let mut i: usize = 0;
        while i < 16
            invariant
                0 <= i <= 16,
                cells@ =~= Seq::new(i as nat, |j: int| None::<Team>),
            decreases 16 - i,
        {
            cells.push(None);
            proof {
                assert(cells@ =~= Seq::new((i + 1) as nat, |j: int| None::<Team>));
            }
            i = i + 1;
        }
        Board { cells, terminal: None }
    }

    pub fn at(&self, r: usize, c: usize) -> (o: Option<Team>)
        requires
            self.wf(),
            r < 4,
            c < 4,
        ensures
            o == cell(self.grid(), r as int, c as int),
    {
        self.cells[r * 4 + c]
    }

    /// Win of four equal cells: all the same team, none empty.
    pub fn check_four(
        a: Option<Team>,
        b: Option<Team>,
        c: Option<Team>,
        d: Option<Team>,
    ) -> (r: Option<Terminal>)
        ensures
            r == four_spec(a, b, c, d),
    {
        match a {
            Some(t) => {
                let all = match (b, c, d) {
                    (Some(x), Some(y), Some(z)) => x == t && y == t && z == t,
                    _ => false,
                };
                if all {
                    Some(Terminal::Win(t))
                } else {
                    None
                }
            },
            None => None,
        }
    }

    /// Recomputes the decided result from the grid: first winning column, first
    /// winning row, the two diagonals, then a draw on a full grid.
    pub fn check_terminal(&mut self)
        requires
            old(self).wf(),
        ensures
            final(self).wf(),
            final(self).grid() == old(self).grid(),
            final(self).outcome() == outcome_of(old(self).grid()),
    {
        let ghost g = self.grid();
        let c0 = Self::check_four(self.at(0, 0), self.at(1, 0), self.at(2, 0), self.at(3, 0));
        let c1 = Self::check_four(self.at(0, 1), self.at(1, 1), self.at(2, 1), self.at(3, 1));
        let c2 = Self::check_four(self.at(0, 2), self.at(1, 2), self.at(2, 2), self.at(3, 2));
        let c3 = Self::check_four(self.at(0, 3), self.at(1, 3), self.at(2, 3), self.at(3, 3));
        let cols = if c0.is_some() {
            c0
        } else if c1.is_some() {
            c1
        } else if c2.is_some() {
            c2
        } else {
            c3
        };
        proof {
            reveal_with_fuel(cols_from, 6);
            assert(cols == cols_from(g, 0));
        }
        let r0 = Self::check_four(self.at(0, 0), self.at(0, 1), self.at(0, 2), self.at(0, 3));
        let r1 = Self::check_four(self.at(1, 0), self.at(1, 1), self.at(1, 2), self.at(1, 3));
        let r2 = Self::check_four(self.at(2, 0), self.at(2, 1), self.at(2, 2), self.at(2, 3));
        let r3 = Self::check_four(self.at(3, 0), self.at(3, 1), self.at(3, 2), self.at(3, 3));
        let rows = if r0.is_some() {
            r0
        } else if r1.is_some() {
            r1
        } else if r2.is_some() {
            r2
        } else {
            r3
        };
        proof {
            reveal_with_fuel(rows_from, 6);
            assert(rows == rows_from(g, 0));
        }
        let d1 = Self::check_four(self.at(0, 0), self.at(1, 1), self.at(2, 2), self.at(3, 3));
        let d2 = Self::check_four(self.at(0, 3), self.at(1, 2), self.at(2, 1), self.at(3, 0));
        let mut filled = true;
        let mut i: usize = 0;
        while i < 16
            invariant
                0 <= i <= 16,
                self.wf(),
                self.grid() == g,
                filled == (forall|j: int| 0 <= j < i ==> g[j] is Some),
            decreases 16 - i,
        {
            if self.cells[i].is_none() {
                filled = false;
            }
            i = i + 1;
        }
        self.terminal = if cols.is_some() {
            cols
        } else if rows.is_some() {
            rows
        } else if d1.is_some() {
            d1
        } else if d2.is_some() {
            d2
        } else if filled {
            Some(Terminal::Draw)
        } else {
            None
        };
    }

    /// Drops a piece into column `c`: it lands on the lowest empty row and
    /// the result is recomputed. Refused once the game has ended, and when
    /// the column is already full.
    pub fn place(&mut self, c: usize, team: Team) -> (r: Result<(), ()>)
        requires
            old(self).wf(),
            c < 4,
        ensures
            final(self).wf(),
            old(self).outcome() is Some ==> r is Err && final(self).grid() == old(self).grid()
                && final(self).outcome() == old(self).outcome(),
            old(self).outcome() is None && lowest_empty(old(self).grid(), c as int) < 0 ==> r is Err
                && final(self).grid() == old(self).grid() && final(self).outcome() == old(
                self,
            ).outcome(),
            old(self).outcome() is None && lowest_empty(old(self).grid(), c as int) >= 0 ==> {
                let g2 = old(self).grid().update(
                    lowest_empty(old(self).grid(), c as int) * 4 + c,
                    Some(team),
                );
                r is Ok && final(self).grid() == g2 && final(self).outcome() == outcome_of(g2)
            },
    {
        if self.terminal.is_some() {
            return Err(());
        }
        let idx: usize = if self.cells[12 + c].is_none() {
            12 + c
        } else if self.cells[8 + c].is_none() {
            8 + c
        } else if self.cells[4 + c].is_none() {
            4 + c
        } else if self.cells[c].is_none() {
            c
        } else {
            return Err(());
        };
        self.cells[idx] = Some(team);
        self.check_terminal();
        Ok(())
    }

    /// A board filled with sixteen pseudo-random pieces, row by row, with
    /// the decided result of the finished grid.
    pub fn random(seed: &mut rand::rngs::StdRng) -> (b: Board)
        ensures
            b.wf(),
            full(b.grid()),
            b.outcome() == outcome_of(b.grid()),
    {
        let mut cells: Vec<Option<Team>> = Vec::new();
        let mut i: usize = 0;
        while i < 16
            invariant
                0 <= i <= 16,
                cells@.len() == i,
                forall|j: int| 0 <= j < i ==> cells@[j] is Some,
            decreases 16 - i,
        {
            let t = if gen_bool(seed) {
                Team::Cookie
            } else {
                Team::Milk
            };
            cells.push(Some(t));
            i = i + 1;
        }
        let mut b = Board { cells, terminal: None };
        b.check_terminal();
        b
    }

    /// The rendered board: walls around the grid, one glyph per cell, and
    /// the closing line once the game has ended.
    pub fn render(&self) -> (out: String)
        requires
            self.wf(),
        ensures
            out@ == spec_render(self.grid(), self.outcome()),
    {
        let ghost g = self.grid();
        let mut s = String::new();
        let mut r: usize = 0;
        proof {
            assert(s@ =~= rows_prefix(g, 0));
        }
        while r < 4
            invariant
                0 <= r <= 4,
                self.wf(),
                g == self.grid(),
                s@ == rows_prefix(g, r as int),
            decreases 4 - r,
        {
            push_char(&mut s, '⬜');
            push_char(&mut s, self.glyph(r, 0));
            push_char(&mut s, self.glyph(r, 1));
            push_char(&mut s, self.glyph(r, 2));
            push_char(&mut s, self.glyph(r, 3));
            push_char(&mut s, '⬜');
            push_char(&mut s, '\n');
            proof {
                assert(s@ =~= rows_prefix(g, r as int) + row_chars(g, r as int));
            }
            r = r + 1;
        }
        s.append("⬜⬜⬜⬜⬜⬜\n");
        match self.terminal {
            None => (),
            Some(Terminal::Draw) => s.append("No winner.\n"),
            Some(Terminal::Win(Team::Milk)) => s.append("🥛 wins!\n"),
            Some(Terminal::Win(Team::Cookie)) => s.append("🍪 wins!\n"),
        }
        proof {
            if self.outcome() is None {
                assert(s@ =~= spec_render(g, self.outcome()));
            }
        }
        s
    }

    fn glyph(&self, r: usize, c: usize) -> (ch: char)
        requires
            self.wf(),
            r < 4,
            c < 4,
        ensures
            ch == glyph_of(cell(self.grid(), r as int, c as int)),
    {
        match self.at(r, c) {
            None => '⬛',
            Some(Team::Milk) => '🥛',
            Some(Team::Cookie) => '🍪',
        }
    }
}

impl Default for Board {
    /// The empty board.
    fn default() -> (b: Board)
        ensures
            b.wf(),
            b.grid() =~= Seq::new(16, |i: int| None::<Team>),
            b.outcome() is None,
    {
        Board::new()
    }
}

/// Relies on rand's `Rng::gen::<bool>` on a standard seeded generator:
/// draws one pseudo-random boolean; nothing is promised of its value.
#[verifier::external_body]
fn gen_bool(seed: &mut rand::rngs::StdRng) -> bool {
    rand::Rng::gen::<bool>(seed)
}

#[verifier::external_type_specification]
#[verifier::external_body]
pub struct ExStdRng(rand::rngs::StdRng);

} // verus!
