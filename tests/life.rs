use game_of_life::game::{Game, GRID_COLS, GRID_LINES, UPDATE_TIME};
use game_of_life::rules::{live_neighbours, neighbours, next_cell, next_generation, update};
use game_of_life::seed::random_grid;

fn grid_with(rows: usize, cols: usize, live: &[(usize, usize)]) -> Vec<bool> {
    let mut g = vec![false; rows * cols];
    for &(r, c) in live {
        g[r * cols + c] = true;
    }
    g
}

fn game_with(rows: usize, cols: usize, live: &[(usize, usize)]) -> Game {
    Game::from_cells(rows, cols, grid_with(rows, cols, live)).unwrap()
}

#[test]
fn single_cell_has_no_neighbours() {
    assert_eq!(live_neighbours(0, 0, 1, 1, &vec![true]), 0);
    assert_eq!(live_neighbours(0, 0, 1, 1, &vec![false]), 0);
    assert_eq!(neighbours(0, 0, 1, 1, &vec![true]), [None; 8]);
}

#[test]
fn corner_counts_at_most_three() {
    let full = vec![true; 4 * 5];
    assert_eq!(live_neighbours(0, 0, 4, 5, &full), 3);
    assert_eq!(live_neighbours(0, 4, 4, 5, &full), 3);
    assert_eq!(live_neighbours(3, 0, 4, 5, &full), 3);
    assert_eq!(live_neighbours(3, 4, 4, 5, &full), 3);
    assert_eq!(live_neighbours(1, 1, 4, 5, &full), 8);
    assert_eq!(live_neighbours(0, 2, 4, 5, &full), 5);
}

#[test]
fn neighbours_in_order() {
    // 3 x 3 grid, every cell but the centre alive except (0, 1).
    let g = grid_with(3, 3, &[(0, 0), (0, 2), (1, 0), (1, 2), (2, 0), (2, 1), (2, 2)]);
    assert_eq!(
        neighbours(1, 1, 3, 3, &g),
        [
            Some(true),
            Some(false),
            Some(true),
            Some(true),
            Some(true),
            Some(true),
            Some(true),
            Some(true)
        ]
    );
    assert_eq!(live_neighbours(1, 1, 3, 3, &g), 7);
}

#[test]
fn rightmost_column_does_not_wrap() {
    // Only (1, 0) is alive: it follows (0, 2) in the flat buffer but is not its neighbour.
    let g = grid_with(3, 3, &[(1, 0)]);
    assert_eq!(neighbours(0, 2, 3, 3, &g)[4], None);
    assert_eq!(live_neighbours(0, 2, 3, 3, &g), 0);
    // Only (2, 0) is alive: not a neighbour of (1, 2).
    let g = grid_with(3, 3, &[(2, 0)]);
    assert_eq!(live_neighbours(1, 2, 3, 3, &g), 0);
    // Bottom row: nothing below it.
    let g = grid_with(3, 3, &[(2, 1)]);
    assert_eq!(neighbours(2, 1, 3, 3, &g)[6], None);
    assert_eq!(live_neighbours(2, 2, 3, 3, &g), 1);
    assert_eq!(live_neighbours(2, 0, 3, 3, &g), 1);
}

#[test]
fn rule_table() {
    assert!(next_cell(false, 3));
    for n in [0u8, 1, 2, 4, 5, 6, 7, 8] {
        assert!(!next_cell(false, n));
    }
    assert!(next_cell(true, 2));
    assert!(next_cell(true, 3));
    for n in [0u8, 1, 4, 5, 6, 7, 8] {
        assert!(!next_cell(true, n));
    }
}

#[test]
fn birth_on_three_neighbours() {
    let mut game = game_with(3, 3, &[(0, 0), (0, 1), (1, 0)]);
    assert!(!game.is_alive(1, 1));
    game.step();
    // (1, 1) is the cell with exactly three live neighbours.
    assert!(game.is_alive(1, 1));
    // (2, 2) has none of them as neighbours and stays dead.
    assert!(!game.is_alive(2, 2));
    // The three seeds each have two live neighbours and survive.
    assert!(game.is_alive(0, 0));
    assert!(game.is_alive(0, 1));
    assert!(game.is_alive(1, 0));
}

#[test]
fn survival_with_two_or_three() {
    // (1, 1) with two live neighbours.
    let mut g = game_with(3, 3, &[(1, 1), (0, 0), (2, 2)]);
    g.step();
    assert!(g.is_alive(1, 1));
    // (1, 1) with three live neighbours.
    let mut g = game_with(3, 3, &[(1, 1), (0, 0), (2, 2), (0, 2)]);
    g.step();
    assert!(g.is_alive(1, 1));
}

#[test]
fn death_with_0_1_or_4_plus() {
    let mut g = game_with(3, 3, &[(1, 1)]);
    g.step();
    assert!(!g.is_alive(1, 1));
    let mut g = game_with(3, 3, &[(1, 1), (0, 0)]);
    g.step();
    assert!(!g.is_alive(1, 1));
    let mut g = game_with(3, 3, &[(1, 1), (0, 0), (0, 2), (2, 0), (2, 2)]);
    g.step();
    assert!(!g.is_alive(1, 1));
    let mut g = game_with(3, 3, &[(0, 0), (0, 1), (0, 2), (1, 0), (1, 1), (1, 2), (2, 0), (2, 1), (2, 2)]);
    g.step();
    assert!(!g.is_alive(1, 1));
}

#[test]
fn block_is_still_life() {
    let start = grid_with(4, 4, &[(1, 1), (1, 2), (2, 1), (2, 2)]);
    let mut g = Game::from_cells(4, 4, start.clone()).unwrap();
    for _ in 0..10 {
        g.step();
        assert_eq!(g.cells(), &start);
    }
    let corner = grid_with(6, 5, &[(0, 0), (0, 1), (1, 0), (1, 1)]);
    let mut g = Game::from_cells(6, 5, corner.clone()).unwrap();
    for _ in 0..5 {
        g.step();
        assert_eq!(g.cells(), &corner);
    }
}

#[test]
fn empty_grid_stays_empty() {
    let empty = vec![false; 7 * 9];
    let mut g = Game::from_cells(7, 9, empty.clone()).unwrap();
    for _ in 0..20 {
        g.step();
        assert_eq!(g.cells(), &empty);
    }
}

#[test]
fn blinker_has_period_two() {
    let horizontal = grid_with(5, 5, &[(2, 1), (2, 2), (2, 3)]);
    let vertical = grid_with(5, 5, &[(1, 2), (2, 2), (3, 2)]);
    let mut g = Game::from_cells(5, 5, horizontal.clone()).unwrap();
    for n in 1..=20 {
        g.step();
        if n % 2 == 1 {
            assert_eq!(g.cells(), &vertical);
        } else {
            assert_eq!(g.cells(), &horizontal);
        }
    }
}

#[test]
fn glider_moves_one_cell_diagonally() {
    let mut g = game_with(8, 8, &[(0, 1), (1, 2), (2, 0), (2, 1), (2, 2)]);
    for _ in 0..4 {
        g.step();
    }
    assert_eq!(g.cells(), &grid_with(8, 8, &[(1, 2), (2, 3), (3, 1), (3, 2), (3, 3)]));
}

#[test]
fn step_is_deterministic_and_buffers_agree() {
    let grid = random_grid(12, 17, 1, 3);
    let a = next_generation(12, 17, &grid);
    let b = next_generation(12, 17, &grid);
    assert_eq!(a, b);
    // The reused scratch buffer may hold anything: every cell is rewritten.
    let mut scratch = vec![true; 12 * 17];
    update(12, 17, &grid, &mut scratch);
    assert_eq!(scratch, a);
    let mut scratch = grid.clone();
    update(12, 17, &grid, &mut scratch);
    assert_eq!(scratch, a);
    let mut g = Game::from_cells(12, 17, grid.clone()).unwrap();
    g.step();
    assert_eq!(g.cells(), &a);
    g.step();
    assert_eq!(g.cells(), &next_generation(12, 17, &a));
}

#[test]
fn dimensions_are_kept() {
    let mut g = Game::new();
    assert_eq!(g.rows(), GRID_LINES);
    assert_eq!(g.cols(), GRID_COLS);
    assert_eq!(g.cells().len(), 30 * 40);
    for _ in 0..5 {
        g.step();
        assert_eq!(g.cells().len(), 30 * 40);
    }
    let r = Game::random(3, 11, 1, 2);
    assert_eq!((r.rows(), r.cols(), r.cells().len()), (3, 11, 33));
    assert_eq!(random_grid(0, 5, 1, 2).len(), 0);
    assert_eq!(next_generation(6, 2, &vec![false; 12]).len(), 12);
}

#[test]
fn from_cells_checks_length() {
    assert!(Game::from_cells(2, 3, vec![false; 5]).is_none());
    assert!(Game::from_cells(2, 3, vec![false; 7]).is_none());
    assert!(Game::from_cells(usize::MAX, 2, vec![false; 4]).is_none());
    let g = Game::from_cells(2, 3, vec![true, false, false, false, false, true]).unwrap();
    assert!(g.is_alive(0, 0));
    assert!(!g.is_alive(0, 1));
    assert!(g.is_alive(1, 2));
}

#[test]
fn random_grid_extremes() {
    assert!(random_grid(10, 10, 0, 7).iter().all(|c| !*c));
    assert!(random_grid(10, 10, 7, 7).iter().all(|c| *c));
    let dead = Game::random(4, 4, 0, 1);
    assert!(dead.cells().iter().all(|c| !*c));
    let alive = Game::random(4, 4, 5, 5);
    assert!(alive.cells().iter().all(|c| *c));
}

#[test]
fn tick_steps_only_when_due() {
    let horizontal = grid_with(5, 5, &[(2, 1), (2, 2), (2, 3)]);
    let vertical = grid_with(5, 5, &[(1, 2), (2, 2), (3, 2)]);
    let mut g = Game::from_cells(5, 5, horizontal.clone()).unwrap();
    assert!(!g.tick(0));
    assert!(!g.tick(UPDATE_TIME - 1));
    assert_eq!(g.cells(), &horizontal);
    assert!(g.tick(UPDATE_TIME));
    assert_eq!(g.cells(), &vertical);
    assert!(!g.tick(UPDATE_TIME + 100));
    assert!(!g.tick(10));
    assert_eq!(g.cells(), &vertical);
    assert!(g.tick(2 * UPDATE_TIME + 7));
    assert_eq!(g.cells(), &horizontal);
    assert_eq!(UPDATE_TIME, 250);
}
