//! Conway's Game of Life on a fixed, non-wrapping rectangular grid.
//!
//! The grid is a flat row-major buffer of `rows * cols` cells. [`rules`]
//! holds the mathematical model of the B3/S23 rule and the verified
//! neighbour counting and generation step; [`game`] holds the simulation
//! object with its two buffers and the fixed-interval tick decision;
//! [`seed`] fills a grid at random; [`laws`] proves what holds of every
//! grid: still lifes, the empty grid, the blinker's period and more.

pub mod rules;
pub mod game;
pub mod laws;
pub mod seed;
