//! The grid model: cell storage, bounded queries, and construction from a
//! textual pattern.

use vstd::prelude::*;
use vstd::string::StrSliceExecFns;

verus! {

/// Whether `(x, y)` addresses a cell of `g`: `y` names an existing row and
/// `x` an existing cell of that row.  Rows may differ in length, so the
/// column bound depends on the row.
pub open spec fn in_bounds_at(g: Seq<Seq<bool>>, x: int, y: int) -> bool {
    0 <= y < g.len() && 0 <= x < g[y].len()
}

/// Whether `(x, y)` addresses a live cell of `g`; positions outside the
/// grid count as dead.
pub open spec fn live_at(g: Seq<Seq<bool>>, x: int, y: int) -> bool {
    in_bounds_at(g, x, y) && g[y][x]
}

/// The row of cell states a line of pattern text denotes: `-` is dead,
/// every other character is alive.
pub open spec fn parse_line(s: Seq<char>) -> Seq<bool> {
    Seq::new(s.len(), |j: int| s[j] != '-')
}

/// The grid a textual pattern denotes: one row per non-empty line, in
/// file order; empty lines do not become rows.
pub open spec fn pattern_rows(lines: Seq<String>) -> Seq<Seq<bool>>
    decreases lines.len(),
{
    if lines.len() == 0 {
        Seq::<Seq<bool>>::empty()
    } else if lines.last()@.len() == 0 {
        pattern_rows(lines.drop_last())
    } else {
        pattern_rows(lines.drop_last()) + seq![parse_line(lines.last()@)]
    }
}

/// The sequence of cell-state rows a vector of rows holds.
pub open spec fn rows_view(rows: Seq<Vec<bool>>) -> Seq<Seq<bool>> {
    Seq::new(rows.len(), |y: int| rows[y]@)
}

/// A rectangular-ish board of cells.  Each row keeps the length of the
/// pattern line it came from, so rows may be ragged; every query is
/// bounds-checked against its own row.
pub struct Life {
    pub grid: Vec<Vec<bool>>,
}

impl View for Life {
    type V = Seq<Seq<bool>>;

    open spec fn view(&self) -> Seq<Seq<bool>> {
        rows_view(self.grid@)
    }
}

/// The cells one line of pattern text denotes.
fn row_of_line(line: &String) -> (row: Vec<bool>)
    ensures
        row@ == parse_line(line@),
{
    let text = line.as_str();
    let n = text.unicode_len();
    let mut row: Vec<bool> = Vec::new();
    let mut j: usize = 0;
    while j < n
        invariant
            j <= n,
            n == line@.len(),
            text@ == line@,
            row@.len() == j,
            forall|t: int| 0 <= t < j ==> row@[t] == (line@[t] != '-'),
        decreases n - j,
    {
        let c = text.get_char(j);
        row.push(c != '-');
        j = j + 1;
    }
    assert(row@ =~= parse_line(line@));
    row
}

impl Life {
    /// Builds the starting grid from the lines of a pattern: each
    /// non-empty line becomes one row, top line first; empty lines do not
    /// become rows.
    pub fn new(lines: &Vec<String>) -> (life: Life)
        ensures
            life@ == pattern_rows(lines@),
    {
        let mut grid: Vec<Vec<bool>> = Vec::new();
        let mut i: usize = 0;
        while i < lines.len()
            invariant
                i <= lines@.len(),
                rows_view(grid@) == pattern_rows(lines@.take(i as int)),
            decreases lines@.len() - i,
        {
            let ghost prev = grid@;
            let line = &lines[i];
            if !line.as_str().is_empty() {
                let row = row_of_line(line);
                grid.push(row);
                proof {
                    assert(rows_view(grid@) =~= rows_view(prev) + seq![parse_line(lines@[i as int]@)]);
                }
            }
            proof {
                assert(lines@.take(i as int + 1).drop_last() =~= lines@.take(i as int));
                assert(lines@.take(i as int + 1).last() == lines@[i as int]);
            }
            i = i + 1;
        }
        proof {
            assert(lines@.take(lines@.len() as int) =~= lines@);
        }
        Life { grid }
    }

    /// The stored state of the cell at `(x, y)`.  The caller must stay in
    /// bounds: going outside is a programming error, not a runtime
    /// condition, so there is no fallback value.
    pub fn is_alive(&self, x: usize, y: usize) -> (alive: bool)
        requires
            in_bounds_at(self@, x as int, y as int),
        ensures
            alive == self@[y as int][x as int],
    {
        self.grid[y][x]
    }

    /// Whether `(x, y)` lies on the grid.  Takes signed coordinates so a
    /// neighbor offset of minus one near the origin is an ordinary
    /// argument; total over all inputs.
    pub fn in_bounds(&self, x: i32, y: i32) -> (r: bool)
        ensures
            r == in_bounds_at(self@, x as int, y as int),
    {
        x >= 0 && y >= 0 && (y as usize) < self.grid.len() && (x as usize) < self.grid[y as usize].len()
    }

    /// The longest row length; zero for a grid with no rows.  Rows may be
    /// ragged, so this is a maximum, not a shared width.
    pub fn width(&self) -> (w: usize)
        ensures
            forall|y: int| 0 <= y < self@.len() ==> #[trigger] self@[y].len() <= w,
            w == 0 || exists|y: int| 0 <= y < self@.len() && #[trigger] self@[y].len() == w,
    {
        let mut w: usize = 0;
        let mut y: usize = 0;
        while y < self.grid.len()
            invariant
                y <= self@.len(),
                forall|k: int| 0 <= k < y ==> #[trigger] self@[k].len() <= w,
                w == 0 || exists|k: int| 0 <= k < y && #[trigger] self@[k].len() == w,
            decreases self@.len() - y,
        {
            let len = self.grid[y].len();
            if w < len {
                w = len;
                assert(self@[y as int].len() == w);
            }
            y = y + 1;
        }
        w
    }

    /// The number of rows.
    pub fn height(&self) -> (h: usize)
        ensures
            h == self@.len(),
    {
        self.grid.len()
    }
}

} // verus!
