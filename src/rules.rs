use vstd::prelude::*;

verus! {

/// Index of cell `(r, c)` in a row-major buffer with `cols` columns.
pub open spec fn index_of(cols: int, r: int, c: int) -> int {
    r * cols + c
}

/// Whether `(r, c)` lies inside a `rows` x `cols` grid.
pub open spec fn in_grid(rows: int, cols: int, r: int, c: int) -> bool {
    0 <= r < rows && 0 <= c < cols
}

/// The cell at `(r, c)`: `None` outside the grid (no wrapping), else its state.
pub open spec fn cell(g: Seq<bool>, rows: int, cols: int, r: int, c: int) -> Option<bool> {
    if in_grid(rows, cols, r, c) {
        Some(g[index_of(cols, r, c)])
    } else {
        None
    }
}

/// Whether `(r, c)` is inside the grid and alive.
pub open spec fn alive_at(g: Seq<bool>, rows: int, cols: int, r: int, c: int) -> bool {
    cell(g, rows, cols, r, c) == Some(true)
}

/// 1 for a live cell, 0 for a dead or absent one.
pub open spec fn live(g: Seq<bool>, rows: int, cols: int, r: int, c: int) -> int {
    if alive_at(g, rows, cols, r, c) {
        1
    } else {
        0
    }
}

/// Number of live cells among the eight Moore neighbours of `(r, c)`.
pub open spec fn neighbour_count(g: Seq<bool>, rows: int, cols: int, r: int, c: int) -> int {
    live(g, rows, cols, r - 1, c - 1) + live(g, rows, cols, r - 1, c) + live(g, rows, cols, r - 1, c + 1)
        + live(g, rows, cols, r, c - 1) + live(g, rows, cols, r, c + 1)
        + live(g, rows, cols, r + 1, c - 1) + live(g, rows, cols, r + 1, c) + live(
        g,
        rows,
        cols,
        r + 1,
        c + 1,
    )
}

/// The B3/S23 rule: a dead cell with three live neighbours is born, a live
/// cell with fewer than two or more than three dies, any other keeps its state.
pub open spec fn next_state(alive: bool, n: int) -> bool {
    if !alive && n == 3 {
        true
    } else if alive && (n < 2 || n > 3) {
        false
    } else {
        alive
    }
}

/// The whole next generation of `g`, every cell computed from `g` alone.
pub open spec fn step_spec(g: Seq<bool>, rows: int, cols: int) -> Seq<bool> {
    Seq::new(
        (rows * cols) as nat,
        |k: int| next_state(g[k], neighbour_count(g, rows, cols, k / cols, k % cols)),
    )
}

/// The grid after `n` generations from `g`.
pub open spec fn generations(g: Seq<bool>, rows: int, cols: int, n: nat) -> Seq<bool>
    decreases n,
{
    if n == 0 {
        g
    } else {
        step_spec(generations(g, rows, cols, (n - 1) as nat), rows, cols)
    }
}

/// The grid whose live cells are exactly the positions that satisfy `p`.
pub open spec fn pattern(rows: int, cols: int, p: spec_fn(int, int) -> bool) -> Seq<bool> {
    Seq::new((rows * cols) as nat, |k: int| p(k / cols, k % cols))
}

/// A buffer that holds exactly one cell per position of the grid.
pub open spec fn fits(g: Seq<bool>, rows: int, cols: int) -> bool {
    g.len() == rows * cols
}

/// The position of an in-grid cell lies in the buffer, and the buffer index
/// gives the row and column back.
pub proof fn lemma_index(rows: int, cols: int, r: int, c: int)
    requires
        in_grid(rows, cols, r, c),
    ensures
        0 <= index_of(cols, r, c) < rows * cols,
        index_of(cols, r, c) / cols == r,
        index_of(cols, r, c) % cols == c,
{
    assert(0 <= r * cols + c < rows * cols) by (nonlinear_arith)
        requires
            0 <= r < rows,
            0 <= c < cols,
    ;
    vstd::arithmetic::div_mod::lemma_fundamental_div_mod_converse(r * cols + c, cols, r, c);
}

/// A buffer index names the in-grid cell at its row and column.
pub proof fn lemma_position(rows: int, cols: int, k: int)
    requires
        rows >= 0,
        cols >= 0,
        0 <= k < rows * cols,
    ensures
        cols > 0,
        in_grid(rows, cols, k / cols, k % cols),
        index_of(cols, k / cols, k % cols) == k,
{
    assert(cols > 0) by (nonlinear_arith)
        requires
            0 <= k < rows * cols,
            rows >= 0,
            cols >= 0,
    ;
    vstd::arithmetic::div_mod::lemma_fundamental_div_mod(k, cols);
    assert(k / cols < rows) by (nonlinear_arith)
        requires
            0 <= k < rows * cols,
            cols > 0,
            k == cols * (k / cols) + k % cols,
            0 <= k % cols < cols,
    ;
    assert(k / cols >= 0) by (nonlinear_arith)
        requires
            0 <= k,
            cols > 0,
            k == cols * (k / cols) + k % cols,
            0 <= k % cols < cols,
    ;
    assert(k / cols * cols == cols * (k / cols)) by (nonlinear_arith);
}

/// The state of the in-grid cell `(r, c)`.
pub fn cell_state(grid: &Vec<bool>, rows: usize, cols: usize, r: usize, c: usize) -> (alive: bool)
    requires
        fits(grid@, rows as int, cols as int),
        in_grid(rows as int, cols as int, r as int, c as int),
    ensures
        cell(grid@, rows as int, cols as int, r as int, c as int) == Some(alive),
{
    proof {
        lemma_index(rows as int, cols as int, r as int, c as int);
    }
    let len = grid.len();
    assert(r * cols + c < len);
    grid[r * cols + c]
}

/// The eight Moore neighbours of the in-grid cell `(i, j)`, in the order
/// north-west, north, north-east, west, east, south-west, south, south-east.
/// A neighbour outside the grid is `None`: the grid does not wrap.
pub fn neighbours(i: usize, j: usize, rows: usize, cols: usize, grid: &Vec<bool>) -> (r: [Option<
    bool,
>; 8])
    requires
        fits(grid@, rows as int, cols as int),
        in_grid(rows as int, cols as int, i as int, j as int),
    ensures
        r@.len() == 8,
        r@[0] == cell(grid@, rows as int, cols as int, i - 1, j - 1),
        r@[1] == cell(grid@, rows as int, cols as int, i - 1, j as int),
        r@[2] == cell(grid@, rows as int, cols as int, i - 1, j + 1),
        r@[3] == cell(grid@, rows as int, cols as int, i as int, j - 1),
        r@[4] == cell(grid@, rows as int, cols as int, i as int, j + 1),
        r@[5] == cell(grid@, rows as int, cols as int, i + 1, j - 1),
        r@[6] == cell(grid@, rows as int, cols as int, i + 1, j as int),
        r@[7] == cell(grid@, rows as int, cols as int, i + 1, j + 1),
{
    let north = i > 0;
    let south = i + 1 < rows;
    let west = j > 0;
    let east = j + 1 < cols;
    [
        if north && west {
            Some(cell_state(grid, rows, cols, i - 1, j - 1))
        } else {
            None
        },
        if north {
            Some(cell_state(grid, rows, cols, i - 1, j))
        } else {
            None
        },
        if north && east {
            Some(cell_state(grid, rows, cols, i - 1, j + 1))
        } else {
            None
        },
        if west {
            Some(cell_state(grid, rows, cols, i, j - 1))
        } else {
            None
        },
        if east {
            Some(cell_state(grid, rows, cols, i, j + 1))
        } else {
            None
        },
        if south && west {
            Some(cell_state(grid, rows, cols, i + 1, j - 1))
        } else {
            None
        },
        if south {
            Some(cell_state(grid, rows, cols, i + 1, j))
        } else {
            None
        },
        if south && east {
            Some(cell_state(grid, rows, cols, i + 1, j + 1))
        } else {
            None
        },
    ]
}

/// 1 for a neighbour that is present and alive, else 0.
fn live_of(c: Option<bool>) -> (n: u8)
    ensures
        n == (if c == Some(true) { 1int } else { 0int }),
{
    match c {
        Some(true) => 1,
        _ => 0,
    }
}

/// Number of live cells among the eight neighbours of the in-grid cell `(i, j)`.
pub fn live_neighbours(i: usize, j: usize, rows: usize, cols: usize, grid: &Vec<bool>) -> (n: u8)
    requires
        fits(grid@, rows as int, cols as int),
        in_grid(rows as int, cols as int, i as int, j as int),
    ensures
        n == neighbour_count(grid@, rows as int, cols as int, i as int, j as int),
        n <= 8,
{
    let nb = neighbours(i, j, rows, cols, grid);
    live_of(nb[0]) + live_of(nb[1]) + live_of(nb[2]) + live_of(nb[3]) + live_of(nb[4]) + live_of(
        nb[5],
    ) + live_of(nb[6]) + live_of(nb[7])
}

/// The rule applied to one cell: its state now and its live-neighbour count
/// give its state in the next generation.
pub fn next_cell(alive: bool, n: u8) -> (r: bool)
    ensures
        r == next_state(alive, n as int),
{
    if !alive && n == 3 {
        true
    } else if alive && (n < 2 || n > 3) {
        false
    } else {
        alive
    }
}

/// Computes the next generation of `grid` into the scratch buffer `next`.
/// Every cell of `next` is written from `grid` alone, so whatever `next`
/// held before does not matter and no cell sees an updated neighbour.
pub fn update(rows: usize, cols: usize, grid: &Vec<bool>, next: &mut Vec<bool>)
    requires
        fits(grid@, rows as int, cols as int),
        fits(old(next)@, rows as int, cols as int),
    ensures
        final(next)@ == step_spec(grid@, rows as int, cols as int),
{
    let len = grid.len();
    let mut k: usize = 0;
    while k < len
        invariant
            len == grid@.len(),
            fits(grid@, rows as int, cols as int),
            fits(next@, rows as int, cols as int),
            k <= len,
            forall|m: int|
                0 <= m < k ==> next@[m] == #[trigger] step_spec(grid@, rows as int, cols as int)[m],
        decreases len - k,
    {
        proof {
            lemma_position(rows as int, cols as int, k as int);
        }
        let i = k / cols;
        let j = k % cols;
        let n = live_neighbours(i, j, rows, cols, grid);
        let alive = cell_state(grid, rows, cols, i, j);
        next.set(k, next_cell(alive, n));
        k = k + 1;
    }
    assert(next@ =~= step_spec(grid@, rows as int, cols as int));
}

/// Computes the next generation of `grid` into a freshly allocated buffer.
pub fn next_generation(rows: usize, cols: usize, grid: &Vec<bool>) -> (next: Vec<bool>)
    requires
        fits(grid@, rows as int, cols as int),
    ensures
        next@ == step_spec(grid@, rows as int, cols as int),
{
    let len = grid.len();
    let mut next: Vec<bool> = Vec::with_capacity(len);
    let mut k: usize = 0;
    while k < len
        invariant
            len == grid@.len(),
            fits(grid@, rows as int, cols as int),
            k <= len,
            next@.len() == k,
            forall|m: int|
                0 <= m < k ==> next@[m] == #[trigger] step_spec(grid@, rows as int, cols as int)[m],
        decreases len - k,
    {
        proof {
            lemma_position(rows as int, cols as int, k as int);
        }
        let i = k / cols;
        let j = k % cols;
        let n = live_neighbours(i, j, rows, cols, grid);
        let alive = cell_state(grid, rows, cols, i, j);
        next.push(next_cell(alive, n));
        k = k + 1;
    }
    assert(next@ =~= step_spec(grid@, rows as int, cols as int));
    next
}

} // verus!
