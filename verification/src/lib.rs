//! A Game-of-Life variant on a fixed grid: the rule for one cell, a generation
//! step that queues cell actions and then applies them, and the laws that tie
//! these to the mathematical next generation.
pub mod action_queue;
pub mod cell_array;
pub mod cli_driver;
pub mod gol;
pub mod laws;
pub mod model;
pub mod random;
