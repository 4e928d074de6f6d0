pub mod chess;
pub mod cli;
pub mod dedup;
pub mod filter;
pub mod pgn;
pub mod pipeline;
pub mod render;
pub mod roster;
pub mod stats;
pub mod tags;
pub mod text;
pub mod visitor;
