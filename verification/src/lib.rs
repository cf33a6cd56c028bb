//! Conway's Game of Life on a finite grid.
//!
//! [`life_api::Board`] keeps the cells inside a border of dead cells and
//! advances them one generation at a time; [`game_state::GameState`] adds what
//! a player does to it. The cells are stored by `ndarray`, behind
//! [`cell_array::CellArray`].

pub mod cell_array;
pub mod game_state;
pub mod life_api;
pub mod rules;
