//! A cellular automaton on a rectangular board: the cell model, the
//! transition rule, the boards, the generator that steps a board, the
//! renderer that turns a board into text, and the game loop that alternates
//! rendering and stepping.

pub mod models;
pub mod engine;
pub mod interface;
pub mod board;
pub mod generator;
pub mod renderer;
pub mod game;

pub use game::Game;
