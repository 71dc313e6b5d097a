//! Decoding of move tokens in short algebraic notation.
//!
//! A token is read from the left.  A leading piece letter makes it a piece
//! move, `O-O` and `O-O-O` are the two castlings, and every other token is
//! a pawn move.  Whatever follows the destination square (a check mark, a
//! promotion) is not looked at.

use crate::coord::{is_file, on_board, Coord};
use crate::error::MoveError;
use crate::piece::{piece_of_letter, PieceType};
use crate::text::{digit_value, is_digit, to_chars, to_digit};
use crate::unicode::{alphabetic, is_alphabetic, is_numeric, numeric};
use vstd::prelude::*;

verus! {

/// What a piece move says about the square that the piece comes from.
#[derive(Clone, Copy, Debug, PartialEq, Eq, Structural)]
pub enum Disambiguator {
    /// Nothing: any square will do.
    Unrestricted,
    /// The piece comes from the rank written with this digit.  The digits
    /// `0` and `9` name no rank of the board, so no piece fits them.
    Rank(usize),
    /// The piece comes from the file with this letter.
    File(char),
}

/// A decoded move token.
#[derive(Clone, Copy, Debug, PartialEq, Eq)]
pub enum SanMove {
    /// A piece of kind `typ` goes to the square `to`.
    Piece { typ: PieceType, disc: Disambiguator, to: Coord },
    /// Castling on the king's side.
    ShortCastle,
    /// Castling on the queen's side.
    LongCastle,
    /// The pawn on file `file` captures on the square `to`.
    PawnCapture { file: char, to: Coord },
    /// A pawn advances on its file to the square `to`.
    PawnAdvance { to: Coord },
}

/// The token for castling on the king's side.
pub open spec fn short_castle_token() -> Seq<char> {
    seq!['O', '-', 'O']
}

/// The token for castling on the queen's side.
pub open spec fn long_castle_token() -> Seq<char> {
    seq!['O', '-', 'O', '-', 'O']
}

/// Whether a token is a piece move: whether it starts with a piece letter.
pub open spec fn is_piece_token(t: Seq<char>) -> bool {
    t.len() > 0 && piece_of_letter(t[0]) is Some
}

/// How the character in front of the destination of a piece move restricts
/// the square that the piece comes from, given whether the character
/// belongs to a number category and whether it is alphabetic.  A character
/// of a number category has to be a decimal digit and names a rank; any
/// other alphabetic character names a file; any other character restricts
/// nothing.
pub open spec fn classify_as(d: char, is_number: bool, is_letter: bool) -> Result<
    Disambiguator,
    MoveError,
> {
    if is_number {
        if is_digit(d) {
            Ok(Disambiguator::Rank(digit_value(d) as usize))
        } else {
            Err(MoveError::InvalidDigit)
        }
    } else if is_letter {
        Ok(Disambiguator::File(d))
    } else {
        Ok(Disambiguator::Unrestricted)
    }
}

/// How the character in front of the destination of a piece move restricts
/// the square that the piece comes from.
pub open spec fn classify(d: char) -> Result<Disambiguator, MoveError> {
    classify_as(d, numeric(d), alphabetic(d))
}

/// The square named by a file letter and a rank digit.
pub open spec fn decode_square(file: char, rank: char) -> Result<Coord, MoveError> {
    if !is_digit(rank) {
        Err(MoveError::InvalidDigit)
    } else if !is_file(file) || digit_value(rank) < 1 || digit_value(rank) > 8 {
        Err(MoveError::OutOfRange)
    } else {
        Ok((file, (digit_value(rank) - 1) as usize))
    }
}

/// Where the body of a piece move starts in its token: after the piece
/// letter, and after the capture mark if there is one.
pub open spec fn piece_body_start(t: Seq<char>) -> int {
    if t.len() > 1 && t[1] == 'x' {
        2
    } else {
        1
    }
}

/// The meaning of a piece move whose first character stands for `typ`,
/// given what is known of two of its characters.  The body of the move
/// starts after the piece letter and the capture mark.  `letter_follows`
/// says whether the second character of the body is alphabetic: if it is,
/// it cannot be the rank of the destination, so the first character of the
/// body is a disambiguator and the destination starts after it.
/// `disc_is_number` and `disc_is_letter` say to which classes the first
/// character of the body belongs.
pub open spec fn decode_piece_as(
    t: Seq<char>,
    typ: PieceType,
    letter_follows: bool,
    disc_is_number: bool,
    disc_is_letter: bool,
) -> Result<SanMove, MoveError> {
    let i = piece_body_start(t);
    let qualified = t.len() > i + 1 && letter_follows;
    let at = if qualified {
        i + 1
    } else {
        i
    };
    if t.len() <= at + 1 {
        Err(MoveError::MalformedToken)
    } else {
        match decode_square(t[at], t[at + 1]) {
            Err(e) => Err(e),
            Ok(to) => if qualified {
                match classify_as(t[i], disc_is_number, disc_is_letter) {
                    Err(e) => Err(e),
                    Ok(disc) => Ok(SanMove::Piece { typ, disc, to }),
                }
            } else {
                Ok(SanMove::Piece { typ, disc: Disambiguator::Unrestricted, to })
            },
        }
    }
}

/// The meaning of a piece move, whose first character stands for `typ`.
pub open spec fn decode_piece(t: Seq<char>, typ: PieceType) -> Result<SanMove, MoveError> {
    let i = piece_body_start(t);
    decode_piece_as(t, typ, alphabetic(t[i + 1]), numeric(t[i]), alphabetic(t[i]))
}

/// The meaning of a pawn move.
pub open spec fn decode_pawn(t: Seq<char>) -> Result<SanMove, MoveError> {
    if t.len() == 0 {
        Err(MoveError::MalformedToken)
    } else if !is_file(t[0]) {
        Err(MoveError::UnrecognizedPieceLetter)
    } else if t.len() > 1 && t[1] == 'x' {
        if t.len() < 4 {
            Err(MoveError::MalformedToken)
        } else {
            match decode_square(t[2], t[3]) {
                Err(e) => Err(e),
                Ok(to) => Ok(SanMove::PawnCapture { file: t[0], to }),
            }
        }
    } else if t.len() < 2 {
        Err(MoveError::MalformedToken)
    } else {
        match decode_square(t[0], t[1]) {
            Err(e) => Err(e),
            Ok(to) => Ok(SanMove::PawnAdvance { to }),
        }
    }
}

/// The meaning of a move token.
pub open spec fn decode(t: Seq<char>) -> Result<SanMove, MoveError> {
    if is_piece_token(t) {
        decode_piece(t, piece_of_letter(t[0])->0)
    } else if t == short_castle_token() {
        Ok(SanMove::ShortCastle)
    } else if t == long_castle_token() {
        Ok(SanMove::LongCastle)
    } else {
        decode_pawn(t)
    }
}

/// Whether a token carries the capture mark `x` where the notation puts it:
/// right after the piece letter, or right after the file of a pawn.
pub open spec fn has_capture_mark(t: Seq<char>) -> bool {
    t.len() > 1 && t[1] == 'x'
}

impl SanMove {
    /// Whether every square that the move names lies on the board.
    pub open spec fn wf(self) -> bool {
        match self {
            SanMove::Piece { typ, disc, to } => on_board(to),
            SanMove::ShortCastle => true,
            SanMove::LongCastle => true,
            SanMove::PawnCapture { file, to } => is_file(file) && on_board(to),
            SanMove::PawnAdvance { to } => on_board(to),
        }
    }

    /// Whether every square that the move names lies on the board.
    pub fn on_board(&self) -> (ok: bool)
        ensures
            ok == self.wf(),
    {
        match self {
            SanMove::Piece { typ, disc, to } => square_on_board(*to),
            SanMove::ShortCastle => true,
            SanMove::LongCastle => true,
            SanMove::PawnCapture { file, to } => *file >= 'a' && *file <= 'h' && square_on_board(
                *to,
            ),
            SanMove::PawnAdvance { to } => square_on_board(*to),
        }
    }

    /// Decodes a piece move whose first character stands for `typ`,
    /// given what is known of two characters of its body, which starts
    /// after the piece letter and the capture mark: whether the second is
    /// alphabetic, and whether the first belongs to a number category and
    /// whether it is alphabetic.
    pub fn piece(
        t: &Vec<char>,
        typ: PieceType,
        letter_follows: bool,
        disc_is_number: bool,
        disc_is_letter: bool,
    ) -> (res: Result<SanMove, MoveError>)
        ensures
            res == decode_piece_as(t@, typ, letter_follows, disc_is_number, disc_is_letter),
            res matches Ok(m) ==> m.wf(),
    {
        let n: usize = t.len();
        let i: usize = if n > 1 && t[1] == 'x' {
            2
        } else {
            1
        };
        let qualified: bool = n > i + 1 && letter_follows;
        let at: usize = if qualified {
            i + 1
        } else {
            i
        };
        if n <= at + 1 {
            return Err(MoveError::MalformedToken);
        }
        let to: Coord = match parse_square(t[at], t[at + 1]) {
            Err(e) => {
                return Err(e);
            },
            Ok(sq) => sq,
        };
        if qualified {
            match Disambiguator::classify(t[i], disc_is_number, disc_is_letter) {
                Err(e) => Err(e),
                Ok(disc) => Ok(SanMove::Piece { typ, disc, to }),
            }
        } else {
            Ok(SanMove::Piece { typ, disc: Disambiguator::Unrestricted, to })
        }
    }

    /// Decodes a move token.
    pub fn parse(token: &str) -> (res: Result<SanMove, MoveError>)
        ensures
            res == decode(token@),
            res matches Ok(m) ==> m.wf(),
    {
        let t = to_chars(token);
        let n: usize = t.len();
        if n > 0 {
            if let Ok(typ) = PieceType::from(t[0]) {
                return parse_piece(&t, typ);
            }
        }
        if n == 3 && t[0] == 'O' && t[1] == '-' && t[2] == 'O' {
            assert(t@ =~= short_castle_token());
            return Ok(SanMove::ShortCastle);
        }
        if n == 5 && t[0] == 'O' && t[1] == '-' && t[2] == 'O' && t[3] == '-' && t[4] == 'O' {
            assert(t@ =~= long_castle_token());
            return Ok(SanMove::LongCastle);
        }
        parse_pawn(&t)
    }
}

/// Whether a square lies on the board.
fn square_on_board(sq: Coord) -> (ok: bool)
    ensures
        ok == on_board(sq),
{
    sq.0 >= 'a' && sq.0 <= 'h' && sq.1 < 8
}

/// Reads the square named by a file letter and a rank digit.
fn parse_square(file: char, rank: char) -> (res: Result<Coord, MoveError>)
    ensures
        res == decode_square(file, rank),
        res matches Ok(sq) ==> on_board(sq),
{
    match to_digit(rank) {
        None => Err(MoveError::InvalidDigit),
        Some(d) => {
            if file < 'a' || file > 'h' || d < 1 || d > 8 {
                Err(MoveError::OutOfRange)
            } else {
                Ok((file, d - 1))
            }
        },
    }
}

impl Disambiguator {
    /// Reads a disambiguator, given whether the character belongs to a
    /// number category and whether it is alphabetic.
    pub fn classify(d: char, is_number: bool, is_letter: bool) -> (res: Result<
        Disambiguator,
        MoveError,
    >)
        ensures
            res == classify_as(d, is_number, is_letter),
    {
        if is_number {
            match to_digit(d) {
                Some(v) => Ok(Disambiguator::Rank(v)),
                None => Err(MoveError::InvalidDigit),
            }
        } else if is_letter {
            Ok(Disambiguator::File(d))
        } else {
            Ok(Disambiguator::Unrestricted)
        }
    }
}

/// Decodes a piece move whose first character stands for `typ`: finds out
/// to which classes the characters of its body belong and reads it with
/// that.
fn parse_piece(t: &Vec<char>, typ: PieceType) -> (res: Result<SanMove, MoveError>)
    ensures
        res == decode_piece(t@, typ),
        res matches Ok(m) ==> m.wf(),
{
    let n: usize = t.len();
    let i: usize = if n > 1 && t[1] == 'x' {
        2
    } else {
        1
    };
    let letter_follows: bool = n > i + 1 && is_alphabetic(t[i + 1]);
    let disc_is_number: bool = n > i && is_numeric(t[i]);
    let disc_is_letter: bool = n > i && is_alphabetic(t[i]);
    SanMove::piece(t, typ, letter_follows, disc_is_number, disc_is_letter)
}

/// Decodes a pawn move.
fn parse_pawn(t: &Vec<char>) -> (res: Result<SanMove, MoveError>)
    ensures
        res == decode_pawn(t@),
        res matches Ok(m) ==> m.wf(),
{
    let n: usize = t.len();
    if n == 0 {
        return Err(MoveError::MalformedToken);
    }
    let file: char = t[0];
    if file < 'a' || file > 'h' {
        return Err(MoveError::UnrecognizedPieceLetter);
    }
    if n > 1 && t[1] == 'x' {
        if n < 4 {
            return Err(MoveError::MalformedToken);
        }
        match parse_square(t[2], t[3]) {
            Err(e) => Err(e),
            Ok(to) => Ok(SanMove::PawnCapture { file, to }),
        }
    } else if n < 2 {
        Err(MoveError::MalformedToken)
    } else {
        match parse_square(file, t[1]) {
            Err(e) => Err(e),
            Ok(to) => Ok(SanMove::PawnAdvance { to }),
        }
    }
}

} // verus!
