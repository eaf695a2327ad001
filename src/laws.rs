use crate::rules::{
    alive_at, cell, fits, generations, in_grid, lemma_index, lemma_position,
    neighbour_count, pattern, step_spec,
};
use vstd::prelude::*;

verus! {

/// Two computations of the next generation from the same current grid give
/// the same grid: the rule is a function of the current generation alone.
pub proof fn lemma_step_deterministic(
    g1: Seq<bool>,
    g2: Seq<bool>,
    rows: int,
    cols: int,
    next1: Seq<bool>,
    next2: Seq<bool>,
)
    requires
        g1 == g2,
        next1 == step_spec(g1, rows, cols),
        next2 == step_spec(g2, rows, cols),
    ensures
        next1 == next2,
{
}

/// Each generation holds exactly one cell per position of the grid.
pub proof fn lemma_generations_fit(g: Seq<bool>, rows: int, cols: int, n: nat)
    requires
        0 <= rows,
        0 <= cols,
        fits(g, rows, cols),
    ensures
        fits(generations(g, rows, cols, n), rows, cols),
    decreases n,
{
    assert(0 <= rows * cols) by (nonlinear_arith)
        requires
            0 <= rows,
            0 <= cols,
    ;
    if n > 0 {
        lemma_generations_fit(g, rows, cols, (n - 1) as nat);
    }
}

/// The single cell of a 1 x 1 grid has no live neighbour.
pub proof fn lemma_single_cell_alone(g: Seq<bool>)
    requires
        fits(g, 1, 1),
    ensures
        neighbour_count(g, 1, 1, 0, 0) == 0,
{
}

/// A corner cell of a grid of at least 2 x 2 has at most three live neighbours.
pub proof fn lemma_corner_at_most_three(g: Seq<bool>, rows: int, cols: int, r: int, c: int)
    requires
        rows >= 2,
        cols >= 2,
        fits(g, rows, cols),
        r == 0 || r == rows - 1,
        c == 0 || c == cols - 1,
    ensures
        0 <= neighbour_count(g, rows, cols, r, c) <= 3,
{
}

/// A dead cell with exactly three live neighbours is alive in the next generation.
pub proof fn lemma_birth(g: Seq<bool>, rows: int, cols: int, r: int, c: int)
    requires
        fits(g, rows, cols),
        in_grid(rows, cols, r, c),
        cell(g, rows, cols, r, c) == Some(false),
        neighbour_count(g, rows, cols, r, c) == 3,
    ensures
        cell(step_spec(g, rows, cols), rows, cols, r, c) == Some(true),
{
    lemma_index(rows, cols, r, c);
}

/// A live cell stays alive in the next generation exactly when it has two or
/// three live neighbours; with 0, 1 or 4 and more it dies.
pub proof fn lemma_survival(g: Seq<bool>, rows: int, cols: int, r: int, c: int)
    requires
        fits(g, rows, cols),
        in_grid(rows, cols, r, c),
        cell(g, rows, cols, r, c) == Some(true),
    ensures
        cell(step_spec(g, rows, cols), rows, cols, r, c) == Some(
            neighbour_count(g, rows, cols, r, c) == 2 || neighbour_count(g, rows, cols, r, c) == 3,
        ),
{
    lemma_index(rows, cols, r, c);
}

/// A cell of a pattern grid is alive exactly when it lies in the grid and
/// satisfies the pattern.
proof fn lemma_pattern_cell(rows: int, cols: int, p: spec_fn(int, int) -> bool, x: int, y: int)
    requires
        0 <= rows,
        0 <= cols,
    ensures
        alive_at(pattern(rows, cols, p), rows, cols, x, y) == (in_grid(rows, cols, x, y) && p(x, y)),
{
    if in_grid(rows, cols, x, y) {
        lemma_index(rows, cols, x, y);
    }
}

/// The cell `(x, y)` and its eight neighbours in a pattern grid.
proof fn lemma_pattern_around(rows: int, cols: int, p: spec_fn(int, int) -> bool, x: int, y: int)
    requires
        0 <= rows,
        0 <= cols,
    ensures
        alive_at(pattern(rows, cols, p), rows, cols, x - 1, y - 1) == (in_grid(rows, cols, x - 1, y - 1) && p(x - 1, y - 1)),
        alive_at(pattern(rows, cols, p), rows, cols, x - 1, y) == (in_grid(rows, cols, x - 1, y) && p(x - 1, y)),
        alive_at(pattern(rows, cols, p), rows, cols, x - 1, y + 1) == (in_grid(rows, cols, x - 1, y + 1) && p(x - 1, y + 1)),
        alive_at(pattern(rows, cols, p), rows, cols, x, y - 1) == (in_grid(rows, cols, x, y - 1) && p(x, y - 1)),
        alive_at(pattern(rows, cols, p), rows, cols, x, y + 1) == (in_grid(rows, cols, x, y + 1) && p(x, y + 1)),
        alive_at(pattern(rows, cols, p), rows, cols, x + 1, y - 1) == (in_grid(rows, cols, x + 1, y - 1) && p(x + 1, y - 1)),
        alive_at(pattern(rows, cols, p), rows, cols, x + 1, y) == (in_grid(rows, cols, x + 1, y) && p(x + 1, y)),
        alive_at(pattern(rows, cols, p), rows, cols, x + 1, y + 1) == (in_grid(rows, cols, x + 1, y + 1) && p(x + 1, y + 1)),
{
    lemma_pattern_cell(rows, cols, p, x - 1, y - 1);
    lemma_pattern_cell(rows, cols, p, x - 1, y);
    lemma_pattern_cell(rows, cols, p, x - 1, y + 1);
    lemma_pattern_cell(rows, cols, p, x, y - 1);
    lemma_pattern_cell(rows, cols, p, x, y + 1);
    lemma_pattern_cell(rows, cols, p, x + 1, y - 1);
    lemma_pattern_cell(rows, cols, p, x + 1, y);
    lemma_pattern_cell(rows, cols, p, x + 1, y + 1);
}

/// The grid whose only live cells are the 2 x 2 block with top-left corner `(r, c)`.
pub open spec fn block(rows: int, cols: int, r: int, c: int) -> Seq<bool> {
    pattern(rows, cols, block_shape(r, c))
}

/// The positions of the 2 x 2 block with top-left corner `(r, c)`.
pub open spec fn block_shape(r: int, c: int) -> spec_fn(int, int) -> bool {
    |x: int, y: int| (x == r || x == r + 1) && (y == c || y == c + 1)
}

/// A grid that is a fixed point of the rule stays the same for any number of generations.
pub proof fn lemma_fixed_point_forever(g: Seq<bool>, rows: int, cols: int, n: nat)
    requires
        step_spec(g, rows, cols) == g,
    ensures
        generations(g, rows, cols, n) == g,
    decreases n,
{
    if n > 0 {
        lemma_fixed_point_forever(g, rows, cols, (n - 1) as nat);
    }
}

/// A lone 2 x 2 block of live cells that lies in the grid is a still life:
/// each of its cells has three live neighbours and no dead cell has three,
/// so it is unchanged after any number of generations.
pub proof fn lemma_block_still_life(rows: int, cols: int, r: int, c: int, n: nat)
    requires
        0 <= r,
        r + 1 < rows,
        0 <= c,
        c + 1 < cols,
    ensures
        generations(block(rows, cols, r, c), rows, cols, n) == block(rows, cols, r, c),
{
    let p = block_shape(r, c);
    let g = block(rows, cols, r, c);
    assert forall|k: int| 0 <= k < rows * cols implies #[trigger] step_spec(g, rows, cols)[k] == g[k] by {
        lemma_position(rows, cols, k);
        lemma_pattern_around(rows, cols, p, k / cols, k % cols);
    }
    assert(step_spec(g, rows, cols) =~= g);
    lemma_fixed_point_forever(g, rows, cols, n);
}

/// An all-dead grid stays all dead for any number of generations.
pub proof fn lemma_empty_stays_empty(g: Seq<bool>, rows: int, cols: int, n: nat)
    requires
        0 <= rows,
        0 <= cols,
        fits(g, rows, cols),
        forall|k: int| 0 <= k < g.len() ==> !#[trigger] g[k],
    ensures
        generations(g, rows, cols, n) == g,
{
    assert forall|a: int, b: int| !#[trigger] alive_at(g, rows, cols, a, b) by {
        if in_grid(rows, cols, a, b) {
            lemma_index(rows, cols, a, b);
        }
    }
    assert forall|k: int| 0 <= k < rows * cols implies #[trigger] step_spec(g, rows, cols)[k] == g[k] by {
        lemma_position(rows, cols, k);
    }
    assert(step_spec(g, rows, cols) =~= g);
    lemma_fixed_point_forever(g, rows, cols, n);
}

/// The positions of a horizontal line of three cells centred on `(r, c)`.
pub open spec fn horizontal_shape(r: int, c: int) -> spec_fn(int, int) -> bool {
    |x: int, y: int| x == r && (y == c - 1 || y == c || y == c + 1)
}

/// The positions of a vertical line of three cells centred on `(r, c)`.
pub open spec fn vertical_shape(r: int, c: int) -> spec_fn(int, int) -> bool {
    |x: int, y: int| y == c && (x == r - 1 || x == r || x == r + 1)
}

/// The grid whose only live cells form a horizontal blinker centred on `(r, c)`.
pub open spec fn blinker_horizontal(rows: int, cols: int, r: int, c: int) -> Seq<bool> {
    pattern(rows, cols, horizontal_shape(r, c))
}

/// The grid whose only live cells form a vertical blinker centred on `(r, c)`.
pub open spec fn blinker_vertical(rows: int, cols: int, r: int, c: int) -> Seq<bool> {
    pattern(rows, cols, vertical_shape(r, c))
}

/// One generation turns a lone horizontal blinker into a vertical one and back.
proof fn lemma_blinker_turns(rows: int, cols: int, r: int, c: int)
    requires
        1 <= r,
        r + 1 < rows,
        1 <= c,
        c + 1 < cols,
    ensures
        step_spec(blinker_horizontal(rows, cols, r, c), rows, cols) == blinker_vertical(rows, cols, r, c),
        step_spec(blinker_vertical(rows, cols, r, c), rows, cols) == blinker_horizontal(rows, cols, r, c),
{
    let h = blinker_horizontal(rows, cols, r, c);
    let v = blinker_vertical(rows, cols, r, c);
    assert forall|k: int| 0 <= k < rows * cols implies #[trigger] step_spec(h, rows, cols)[k] == v[k] by {
        lemma_position(rows, cols, k);
        lemma_pattern_around(rows, cols, horizontal_shape(r, c), k / cols, k % cols);
    }
    assert(step_spec(h, rows, cols) =~= v);
    assert forall|k: int| 0 <= k < rows * cols implies #[trigger] step_spec(v, rows, cols)[k] == h[k] by {
        lemma_position(rows, cols, k);
        lemma_pattern_around(rows, cols, vertical_shape(r, c), k / cols, k % cols);
    }
    assert(step_spec(v, rows, cols) =~= h);
}

/// A lone blinker whose horizontal and vertical forms both lie in the grid
/// oscillates with period two forever: it is horizontal after an even number
/// of generations and vertical after an odd number. Each generation is read
/// from the previous one as a whole, so no cell sees an updated neighbour.
pub proof fn lemma_blinker_period_two(rows: int, cols: int, r: int, c: int, n: nat)
    requires
        1 <= r,
        r + 1 < rows,
        1 <= c,
        c + 1 < cols,
    ensures
        generations(blinker_horizontal(rows, cols, r, c), rows, cols, n) == (if n % 2 == 0 {
            blinker_horizontal(rows, cols, r, c)
        } else {
            blinker_vertical(rows, cols, r, c)
        }),
    decreases n,
{
    lemma_blinker_turns(rows, cols, r, c);
    if n > 0 {
        lemma_blinker_period_two(rows, cols, r, c, (n - 1) as nat);
    }
}

} // verus!
