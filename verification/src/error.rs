//! The ways in which decoding or replaying a move can fail.

use vstd::prelude::*;

verus! {

/// Why a move token could not be replayed.  A failed move leaves the
/// position as it was.
#[derive(Clone, Copy, Debug, PartialEq, Eq, Structural)]
pub enum MoveError {
    /// The token ends before the move is spelled out in full.
    MalformedToken,
    /// The leading letter is neither a piece code nor a file.
    UnrecognizedPieceLetter,
    /// A character that has to be a decimal digit is none.
    InvalidDigit,
    /// A file or a rank that the token names lies outside the board.
    OutOfRange,
    /// No piece on the board fits the move.
    UnresolvedMove,
}

impl MoveError {
    /// The text of the message that goes with the error.
    pub open spec fn message(self) -> Seq<char> {
        match self {
            MoveError::MalformedToken => "move token ends too early"@,
            MoveError::UnrecognizedPieceLetter => "unrecognized piece letter"@,
            MoveError::InvalidDigit => "expected a decimal digit"@,
            MoveError::OutOfRange => "square outside the board"@,
            MoveError::UnresolvedMove => "no piece can make this move"@,
        }
    }

    /// A short description of the error for the user.
    pub fn to_string(&self) -> (s: String)
        ensures
            s@ == self.message(),
    {
        match self {
            MoveError::MalformedToken => String::from_str("move token ends too early"),
            MoveError::UnrecognizedPieceLetter => String::from_str("unrecognized piece letter"),
            MoveError::InvalidDigit => String::from_str("expected a decimal digit"),
            MoveError::OutOfRange => String::from_str("square outside the board"),
            MoveError::UnresolvedMove => String::from_str("no piece can make this move"),
        }
    }
}

/// A failure while replaying a game: which half-move failed, counted from
/// zero, and why.
#[derive(Clone, Copy, Debug, PartialEq, Eq, Structural)]
pub struct ReplayError {
    pub half_move: usize,
    pub error: MoveError,
}

} // verus!
