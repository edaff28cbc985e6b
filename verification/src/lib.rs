//! An 8x8 draughts (checkers) engine: a board of cells, a legal-move
//! generator for single diagonal steps and single captures, and validated
//! move application.

pub mod board;
pub mod legal_moves;
pub mod move_info;
