//! Replays chess games written in short algebraic notation, for a tool
//! that turns positions of a game into flashcards.
//!
//! A transcript is read into numbered pairs of move tokens ([`pgn`],
//! after the grammar in [`transcript`]).  The tokens are decoded ([`san`])
//! and replayed on an 8x8 position ([`board`], after the rules in
//! [`position`]), which is then written out as a single-line description
//! ([`fen`]) or as a document that draws it ([`diagram`]).  What an answer
//! does to a card, and which card comes next, is in [`deck`].
//!
//! Every function carries a contract that Verus checks.  The replay does
//! not know the rules of chess: it moves the piece that a token speaks of
//! and asks neither whether the way is free nor whether a king is left in
//! check.  What holds of it in general is collected in [`laws`].

pub mod board;
pub mod coord;
pub mod deck;
pub mod diagram;
pub mod error;
pub mod fen;
pub mod laws;
pub mod pgn;
pub mod piece;
pub mod position;
pub mod san;
pub mod text;
pub mod transcript;
pub mod unicode;
