//! Pieces, sides, and the geometric shape of each kind's move.

use crate::error::MoveError;
use vstd::prelude::*;

verus! {

/// The six kinds of piece.
#[derive(Clone, Copy, Debug, PartialEq, Eq, Structural)]
pub enum PieceType {
    King,
    Queen,
    Rook,
    Bishop,
    Knight,
    Pawn,
}

/// The two sides.
#[derive(Clone, Copy, Debug, PartialEq, Eq, Structural)]
pub enum Color {
    White,
    Black,
}

/// A piece: its kind and the side that owns it.
#[derive(Clone, Copy, Debug, PartialEq, Eq, Structural)]
pub struct Piece {
    pub typ: PieceType,
    pub color: Color,
}

/// The kind that a piece letter of a move token stands for.  Pawns have no
/// letter.
pub open spec fn piece_of_letter(c: char) -> Option<PieceType> {
    if c == 'R' {
        Some(PieceType::Rook)
    } else if c == 'N' {
        Some(PieceType::Knight)
    } else if c == 'B' {
        Some(PieceType::Bishop)
    } else if c == 'Q' {
        Some(PieceType::Queen)
    } else if c == 'K' {
        Some(PieceType::King)
    } else {
        None
    }
}

/// Whether a piece of kind `typ` may move by `df` files and `dr` ranks,
/// both taken as absolute distances.  Only the shape of the move counts:
/// neither the direction nor the squares in between.
pub open spec fn shape_permits(typ: PieceType, df: int, dr: int) -> bool {
    match typ {
        PieceType::King => (df == 0 && dr == 1) || (df == 1 && dr == 0) || (df == 1 && dr == 1),
        PieceType::Queen => df == dr || (df == 0 && dr > 0) || (dr == 0 && df > 0),
        PieceType::Rook => (df == 0 && dr > 0) || (dr == 0 && df > 0),
        PieceType::Bishop => df == dr,
        PieceType::Knight => (df == 1 && dr == 2) || (df == 2 && dr == 1),
        PieceType::Pawn => (df == 1 && dr == 0) || (df == 2 && dr == 0) || (df == 1 && dr == 1),
    }
}

/// The absolute distance between two numbers.
pub open spec fn distance(a: int, b: int) -> int {
    if a <= b {
        b - a
    } else {
        a - b
    }
}

impl PieceType {
    /// Reads a piece letter: `R`, `N`, `B`, `Q` or `K`.
    pub fn from(value: char) -> (res: Result<PieceType, MoveError>)
        ensures
            res == match piece_of_letter(value) {
                Some(typ) => Ok::<PieceType, MoveError>(typ),
                None => Err::<PieceType, MoveError>(MoveError::UnrecognizedPieceLetter),
            },
    {
        if value == 'R' {
            Ok(PieceType::Rook)
        } else if value == 'N' {
            Ok(PieceType::Knight)
        } else if value == 'B' {
            Ok(PieceType::Bishop)
        } else if value == 'Q' {
            Ok(PieceType::Queen)
        } else if value == 'K' {
            Ok(PieceType::King)
        } else {
            Err(MoveError::UnrecognizedPieceLetter)
        }
    }
}

/// The absolute distance between the code points of two characters.
fn char_distance(a: char, b: char) -> (d: usize)
    ensures
        d == distance(a as int, b as int),
{
    let x: u32 = a as u32;
    let y: u32 = b as u32;
    if x <= y {
        (y - x) as usize
    } else {
        (x - y) as usize
    }
}

impl Piece {
    /// Whether the shape of this piece's move allows it to go from the
    /// square `from` to the square `to`, each given as a file letter and a
    /// rank.  The answer depends on the distances alone, so it is defined
    /// for squares off the board as well.
    pub fn can_move(&self, from: (char, usize), to: (char, usize)) -> (res: bool)
        ensures
            res == shape_permits(
                self.typ,
                distance(from.0 as int, to.0 as int),
                distance(from.1 as int, to.1 as int),
            ),
    {
        let df: usize = char_distance(from.0, to.0);
        let dr: usize = if from.1 <= to.1 {
            to.1 - from.1
        } else {
            from.1 - to.1
        };
        match self.typ {
            PieceType::King => (df == 0 && dr == 1) || (df == 1 && dr == 0) || (df == 1 && dr
                == 1),
            PieceType::Queen => df == dr || (df == 0 && dr > 0) || (dr == 0 && df > 0),
            PieceType::Rook => (df == 0 && dr > 0) || (dr == 0 && df > 0),
            PieceType::Bishop => df == dr,
            PieceType::Knight => (df == 1 && dr == 2) || (df == 2 && dr == 1),
            PieceType::Pawn => (df == 1 && dr == 0) || (df == 2 && dr == 0) || (df == 1 && dr
                == 1),
        }
    }
}

} // verus!
