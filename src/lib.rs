//! Legal-move enumeration for chess positions given in Forsyth–Edwards Notation.

pub mod board;
pub mod record;
pub mod rules;
pub mod engine;
pub mod order;
pub mod laws;
