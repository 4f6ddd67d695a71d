//! A terminal Minesweeper engine: a grid of cells with lazily placed mines,
//! first-click safety, single-cell reveal semantics, flagging, and win/loss
//! detection, all with verified contracts.

pub mod args;
pub mod board;
pub mod cli;
pub mod errors;
pub mod laws;
pub mod options;
