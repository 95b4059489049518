//! Predictive simulator for a two-player variant of Conway's Game of Life.
//!
//! The board engine re-simulates rounds of the match locally so that a
//! surrounding driver can evaluate candidate moves before committing to one:
//! `board` holds the grid representation, the bounded Moore-neighborhood
//! census and the per-cell transition rule; `parser` turns one line of the
//! match engine's text protocol into a structured message; `types` holds the
//! plain data both speak of.

pub mod board;
pub mod parser;
pub mod text;
pub mod types;
