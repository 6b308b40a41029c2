//! The transition engine: neighbor counting and the generation rule.

use vstd::prelude::*;
use crate::grid::Life;
use crate::grid::in_bounds_at;
use crate::grid::live_at;

verus! {

/// One if the cell state counts as a live neighbor, zero otherwise.
pub open spec fn occupancy(alive: bool) -> int {
    if alive {
        1
    } else {
        0
    }
}

/// How many of the eight cells of the Moore neighborhood of `(x, y)` are
/// alive in `g`.  Positions outside the grid count as dead, so nothing
/// wraps around an edge.
pub open spec fn neighbor_total(g: Seq<Seq<bool>>, x: int, y: int) -> int {
    occupancy(live_at(g, x - 1, y - 1)) + occupancy(live_at(g, x, y - 1)) + occupancy(
        live_at(g, x + 1, y - 1),
    ) + occupancy(live_at(g, x - 1, y)) + occupancy(live_at(g, x + 1, y)) + occupancy(
        live_at(g, x - 1, y + 1),
    ) + occupancy(live_at(g, x, y + 1)) + occupancy(live_at(g, x + 1, y + 1))
}

/// The rule of the game: a live cell survives on two or three live
/// neighbors and otherwise dies of underpopulation or overcrowding; a
/// dead cell comes to life on exactly three.
pub open spec fn rule_next(alive: bool, neighbors: int) -> bool {
    if alive {
        2 <= neighbors <= 3
    } else {
        neighbors == 3
    }
}

/// Row `y` of the successor generation of `g`: each cell follows from its
/// own state and its neighbor total in `g`, never from partially updated
/// successor state.
pub open spec fn step_row(g: Seq<Seq<bool>>, y: int) -> Seq<bool> {
    Seq::new(g[y].len(), |x: int| rule_next(g[y][x], neighbor_total(g, x, y)))
}

/// The successor generation of `g`, with the same row-length structure.
pub open spec fn step_spec(g: Seq<Seq<bool>>) -> Seq<Seq<bool>> {
    Seq::new(g.len(), |y: int| step_row(g, y))
}

/// Law: a neighbor total counts eight positions of at most one each, so
/// it always lies between zero and eight, for any grid and any
/// coordinates.
pub proof fn lemma_neighbor_total_range(g: Seq<Seq<bool>>, x: int, y: int)
    ensures
        0 <= neighbor_total(g, x, y) <= 8,
{
}

/// Law: a cell strictly interior to the grid, in the sense that all eight
/// neighbor positions exist, has a neighbor total of zero when all eight
/// hold dead cells.
pub proof fn lemma_interior_all_dead(g: Seq<Seq<bool>>, x: int, y: int)
    requires
        in_bounds_at(g, x - 1, y - 1),
        !g[y - 1][x - 1],
        in_bounds_at(g, x, y - 1),
        !g[y - 1][x],
        in_bounds_at(g, x + 1, y - 1),
        !g[y - 1][x + 1],
        in_bounds_at(g, x - 1, y),
        !g[y][x - 1],
        in_bounds_at(g, x + 1, y),
        !g[y][x + 1],
        in_bounds_at(g, x - 1, y + 1),
        !g[y + 1][x - 1],
        in_bounds_at(g, x, y + 1),
        !g[y + 1][x],
        in_bounds_at(g, x + 1, y + 1),
        !g[y + 1][x + 1],
    ensures
        neighbor_total(g, x, y) == 0,
{
}

/// Law: the origin corner has only three neighbor positions that can lie
/// on the grid at all, so its neighbor total never exceeds three, whatever
/// the rest of the grid holds.
pub proof fn lemma_corner_neighbor_bound(g: Seq<Seq<bool>>)
    ensures
        neighbor_total(g, 0, 0) <= 3,
{
}

/// Law: the neighbor total consults only the eight Moore positions of
/// `(x, y)`: two grids that agree on those eight cells — wherever else
/// they differ, and whatever lies beyond their edges — give equal totals.
pub proof fn lemma_neighbor_total_local(g1: Seq<Seq<bool>>, g2: Seq<Seq<bool>>, x: int, y: int)
    requires
        live_at(g1, x - 1, y - 1) == live_at(g2, x - 1, y - 1),
        live_at(g1, x, y - 1) == live_at(g2, x, y - 1),
        live_at(g1, x + 1, y - 1) == live_at(g2, x + 1, y - 1),
        live_at(g1, x - 1, y) == live_at(g2, x - 1, y),
        live_at(g1, x + 1, y) == live_at(g2, x + 1, y),
        live_at(g1, x - 1, y + 1) == live_at(g2, x - 1, y + 1),
        live_at(g1, x, y + 1) == live_at(g2, x, y + 1),
        live_at(g1, x + 1, y + 1) == live_at(g2, x + 1, y + 1),
    ensures
        neighbor_total(g1, x, y) == neighbor_total(g2, x, y),
{
}

/// Law: when the cell at the origin is the only live cell of the whole
/// grid, one step leaves every cell dead: the origin dies of
/// underpopulation, and no other cell can reach the three neighbors it
/// would need to spawn — in particular nothing appears at the opposite
/// edge, since positions off the grid never count.
pub proof fn lemma_lone_origin_cell_dies(g: Seq<Seq<bool>>)
    requires
        live_at(g, 0, 0),
        forall|x: int, y: int| #[trigger] live_at(g, x, y) ==> x == 0 && y == 0,
    ensures
        forall|x: int, y: int| !live_at(step_spec(g), x, y),
{
    assert forall|x: int, y: int| !live_at(step_spec(g), x, y) by {
        if in_bounds_at(step_spec(g), x, y) {
            assert(step_spec(g)[y] == step_row(g, y));
            assert(step_spec(g)[y][x] == rule_next(g[y][x], neighbor_total(g, x, y)));
            // at most one of the eight neighbor positions can be the origin
            assert(neighbor_total(g, x, y) <= 1);
            if g[y][x] {
                // the live cell is the origin, and none of its neighbors is
                assert(live_at(g, x, y));
                assert(neighbor_total(g, 0, 0) == 0);
            }
        }
    }
}

/// The state the rule assigns a cell for the next generation.
pub fn next_cell_state(alive: bool, live_neighbors: i32) -> (next: bool)
    ensures
        next == rule_next(alive, live_neighbors as int),
{
    if alive {
        if live_neighbors < 2 {
            // underpopulation
            false
        } else if live_neighbors > 3 {
            // overcrowding
            false
        } else {
            // continuation
            true
        }
    } else {
        // spawn on exactly three
        live_neighbors == 3
    }
}

impl Life {
    /// The cell state at `(x, y)` with positions outside the grid read as
    /// dead; total, unlike `is_alive`, so it can probe any neighbor
    /// position.
    fn cell_occupied(&self, x: usize, y: usize) -> (r: bool)
        ensures
            r == live_at(self@, x as int, y as int),
    {
        y < self.grid.len() && x < self.grid[y].len() && self.grid[y][x]
    }

    /// How many of the eight adjacent cells of `(x, y)` are alive.  The
    /// bounds on the arguments only keep the probed coordinates
    /// representable; the count itself treats anything off the grid as
    /// dead.
    #[verifier::rlimit(30)]
    pub fn neighbor_count(&self, x: usize, y: usize) -> (n: i32)
        requires
            x < usize::MAX,
            y < usize::MAX,
        ensures
            0 <= n <= 8,
            n == neighbor_total(self@, x as int, y as int),
    {
        let top_left: bool = if x > 0 && y > 0 {
            self.cell_occupied(x - 1, y - 1)
        } else {
            false
        };
        let top: bool = if y > 0 {
            self.cell_occupied(x, y - 1)
        } else {
            false
        };
        let top_right: bool = if y > 0 {
            self.cell_occupied(x + 1, y - 1)
        } else {
            false
        };
        let mid_left: bool = if x > 0 {
            self.cell_occupied(x - 1, y)
        } else {
            false
        };
        let mid_right: bool = self.cell_occupied(x + 1, y);
        let bottom_left: bool = if x > 0 {
            self.cell_occupied(x - 1, y + 1)
        } else {
            false
        };
        let bottom: bool = self.cell_occupied(x, y + 1);
        let bottom_right: bool = self.cell_occupied(x + 1, y + 1);

        let mut n: i32 = 0;
        if top_left {
            n = n + 1;
        }
        if top {
            n = n + 1;
        }
        if top_right {
            n = n + 1;
        }
        if mid_left {
            n = n + 1;
        }
        if mid_right {
            n = n + 1;
        }
        if bottom_left {
            n = n + 1;
        }
        if bottom {
            n = n + 1;
        }
        if bottom_right {
            n = n + 1;
        }
        n
    }

    /// The next generation, computed wholly from `self` as a frozen
    /// snapshot; `self` is only read, never changed.
    pub fn step(&self) -> (next: Life)
        ensures
            next@ == step_spec(self@),
    {
        let mut rows: Vec<Vec<bool>> = Vec::new();
        let mut y: usize = 0;
        while y < self.grid.len()
            invariant
                y <= self@.len(),
                rows@.len() == y,
                forall|k: int| 0 <= k < y ==> #[trigger] rows@[k]@ == step_row(self@, k),
            decreases self@.len() - y,
        {
            let len = self.grid[y].len();
            let mut row: Vec<bool> = Vec::new();
            let mut x: usize = 0;
            while x < len
                invariant
                    x <= len,
                    y < self@.len(),
                    y < usize::MAX,
                    len == self@[y as int].len(),
                    row@.len() == x,
                    forall|t: int|
                        0 <= t < x ==> #[trigger] row@[t] == rule_next(
                            self@[y as int][t],
                            neighbor_total(self@, t, y as int),
                        ),
                decreases len - x,
            {
                let alive = self.grid[y][x];
                let live_neighbors = self.neighbor_count(x, y);
                row.push(next_cell_state(alive, live_neighbors));
                x = x + 1;
            }
            assert(row@ =~= step_row(self@, y as int));
            rows.push(row);
            y = y + 1;
        }
        let next = Life { grid: rows };
        assert(next@ =~= step_spec(self@));
        next
    }

    /// Advances the grid one generation in place, by wholesale replacement
    /// of the rows, so no reader can see a partially updated generation.
    pub fn compute_next(&mut self)
        ensures
            final(self)@ == step_spec(old(self)@),
    {
        let next = self.step();
        self.grid = next.grid;
    }
}

} // verus!
