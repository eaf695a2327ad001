use crate::rules::{fits, in_grid, cell, step_spec, update};
use crate::seed::random_grid;
use vstd::prelude::*;

verus! {

/// Columns of the default grid.
pub const GRID_COLS: usize = 40;

/// Rows of the default grid.
pub const GRID_LINES: usize = 30;

/// Numerator of the default chance that a cell starts alive.
pub const INIT_PROB_NUM: u32 = 15;

/// Denominator of the default chance that a cell starts alive.
pub const INIT_PROB_DEN: u32 = 100;

/// Milliseconds that must pass between two generations.
pub const UPDATE_TIME: u64 = 250;

/// A running simulation: the current generation, a scratch buffer of the
/// same size for the next one, and the time of the last step in
/// milliseconds on the caller's clock.
#[derive(Debug)]
pub struct Game {
    rows: usize,
    cols: usize,
    grid: Vec<bool>,
    next: Vec<bool>,
    last_update: u64,
}

impl Game {
    /// Number of rows.
    pub closed spec fn num_rows(&self) -> int {
        self.rows as int
    }

    /// Number of columns.
    pub closed spec fn num_cols(&self) -> int {
        self.cols as int
    }

    /// The current generation, row-major.
    pub closed spec fn current(&self) -> Seq<bool> {
        self.grid@
    }

    /// The scratch buffer that the next generation is computed into.
    pub closed spec fn scratch(&self) -> Seq<bool> {
        self.next@
    }

    /// The time of the last step.
    pub closed spec fn last_update_ms(&self) -> int {
        self.last_update as int
    }

    /// Both buffers hold exactly one cell per position of the grid.
    pub closed spec fn wf(&self) -> bool {
        fits(self.grid@, self.rows as int, self.cols as int) && fits(
            self.next@,
            self.rows as int,
            self.cols as int,
        )
    }

    /// Whether a step is due at `now_ms`: at least the update interval has
    /// passed since the last step.
    pub open spec fn due(&self, now_ms: u64) -> bool {
        now_ms >= self.last_update_ms() && now_ms - self.last_update_ms() >= UPDATE_TIME
    }

    /// A `rows` x `cols` simulation seeded at random, each cell alive with
    /// probability `num / den`; both buffers start with the same cells.
    pub fn random(rows: usize, cols: usize, num: u32, den: u32) -> (g: Game)
        requires
            0 < den,
            num <= den,
            rows * cols <= usize::MAX,
        ensures
            g.wf(),
            g.num_rows() == rows,
            g.num_cols() == cols,
            g.current().len() == rows * cols,
            g.scratch() == g.current(),
            g.last_update_ms() == 0,
            num == 0 ==> forall|k: int| 0 <= k < g.current().len() ==> !#[trigger] g.current()[k],
            num == den ==> forall|k: int| 0 <= k < g.current().len() ==> #[trigger] g.current()[k],
    {
        let r = random_grid(rows, cols, num, den);
        let grid = r.clone();
        proof {
            broadcast use vstd::std_specs::vec::vec_clone_deep_view_proof;
            assert(grid@ =~= r@);
        }
        Game { rows, cols, grid, next: r, last_update: 0 }
    }

    /// The default simulation: `GRID_LINES` x `GRID_COLS` cells, each alive
    /// with probability `INIT_PROB_NUM / INIT_PROB_DEN`.
    pub fn new() -> (g: Game)
        ensures
            g.wf(),
            g.num_rows() == GRID_LINES,
            g.num_cols() == GRID_COLS,
            g.current().len() == GRID_LINES * GRID_COLS,
            g.scratch() == g.current(),
            g.last_update_ms() == 0,
    {
        Game::random(GRID_LINES, GRID_COLS, INIT_PROB_NUM, INIT_PROB_DEN)
    }

    /// A simulation that starts from the given row-major cells, or `None`
    /// when their number is not `rows * cols`.
    pub fn from_cells(rows: usize, cols: usize, cells: Vec<bool>) -> (g: Option<Game>)
        ensures
            g.is_some() == (cells@.len() == rows * cols),
            g matches Some(g) ==> {
                &&& g.wf()
                &&& g.num_rows() == rows
                &&& g.num_cols() == cols
                &&& g.current() == cells@
                &&& g.scratch() == cells@
                &&& g.last_update_ms() == 0
            },
    {
        match rows.checked_mul(cols) {
            Some(len) => {
                if cells.len() == len {
                    let next = cells.clone();
                    proof {
                        broadcast use vstd::std_specs::vec::vec_clone_deep_view_proof;
                        assert(next@ =~= cells@);
                    }
                    Some(Game { rows, cols, grid: cells, next, last_update: 0 })
                } else {
                    None
                }
            },
            None => {
                let n = cells.len();
                assert(n < rows * cols);
                None
            },
        }
    }

    /// Advances one generation: the next one is computed from a frozen copy
    /// of the current one, then becomes current; the old current buffer is
    /// kept as scratch for the following step.
    pub fn step(&mut self)
        requires
            old(self).wf(),
        ensures
            final(self).wf(),
            final(self).num_rows() == old(self).num_rows(),
            final(self).num_cols() == old(self).num_cols(),
            final(self).last_update_ms() == old(self).last_update_ms(),
            final(self).current().len() == old(self).num_rows() * old(self).num_cols(),
            final(self).scratch().len() == old(self).num_rows() * old(self).num_cols(),
            final(self).current() == step_spec(
                old(self).current(),
                old(self).num_rows(),
                old(self).num_cols(),
            ),
    {
        update(self.rows, self.cols, &self.grid, &mut self.next);
        std::mem::swap(&mut self.grid, &mut self.next);
    }

    /// Called on every pass of the host loop with the time now: steps once
    /// and records the time when a step is due, else leaves all as it is.
    /// Returns whether it stepped.
    pub fn tick(&mut self, now_ms: u64) -> (stepped: bool)
        requires
            old(self).wf(),
        ensures
            final(self).wf(),
            stepped == old(self).due(now_ms),
            final(self).num_rows() == old(self).num_rows(),
            final(self).num_cols() == old(self).num_cols(),
            final(self).current().len() == old(self).num_rows() * old(self).num_cols(),
            final(self).scratch().len() == old(self).num_rows() * old(self).num_cols(),
            stepped ==> final(self).current() == step_spec(
                old(self).current(),
                old(self).num_rows(),
                old(self).num_cols(),
            ),
            stepped ==> final(self).last_update_ms() == now_ms,
            !stepped ==> final(self).current() == old(self).current(),
            !stepped ==> final(self).last_update_ms() == old(self).last_update_ms(),
    {
        if now_ms >= self.last_update && now_ms - self.last_update >= UPDATE_TIME {
            self.step();
            self.last_update = now_ms;
            true
        } else {
            false
        }
    }

    /// Number of rows.
    pub fn rows(&self) -> (r: usize)
        ensures
            r == self.num_rows(),
    {
        self.rows
    }

    /// Number of columns.
    pub fn cols(&self) -> (c: usize)
        ensures
            c == self.num_cols(),
    {
        self.cols
    }

    /// The current generation, row-major.
    pub fn cells(&self) -> (cells: &Vec<bool>)
        ensures
            cells@ == self.current(),
            self.wf() ==> cells@.len() == self.num_rows() * self.num_cols(),
    {
        &self.grid
    }

    /// Whether the in-grid cell `(row, col)` is alive now.
    pub fn is_alive(&self, row: usize, col: usize) -> (alive: bool)
        requires
            self.wf(),
            in_grid(self.num_rows(), self.num_cols(), row as int, col as int),
        ensures
            cell(self.current(), self.num_rows(), self.num_cols(), row as int, col as int) == Some(
                alive,
            ),
    {
        crate::rules::cell_state(&self.grid, self.rows, self.cols, row, col)
    }
}

} // verus!
