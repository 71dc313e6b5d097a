//! The rules of replaying, stated over positions as mathematical values.
//!
//! A position is the sequence of the 64 squares, each empty or holding one
//! piece.  Everything the board does is defined here as a function of the
//! position, the token and the side, so that each outcome is fixed by its
//! inputs alone.

use crate::coord::{slot, square, Coord};
use crate::error::{MoveError, ReplayError};
use crate::piece::{distance, shape_permits, Color, Piece, PieceType};
use crate::san::{decode, Disambiguator, SanMove};
use vstd::prelude::*;

verus! {

/// The 64 squares of a board in storage order: from the eighth rank down
/// to the first, each rank from file `a` to file `h`.
pub type Position = Seq<Option<Piece>>;

/// One replayed half-move: the square left and the square reached.
pub type Step = (Coord, Coord);

/// The kind of piece that starts on the back rank on the file with number
/// `file`.
pub open spec fn back_rank(file: int) -> PieceType {
    if file == 0 || file == 7 {
        PieceType::Rook
    } else if file == 1 || file == 6 {
        PieceType::Knight
    } else if file == 2 || file == 5 {
        PieceType::Bishop
    } else if file == 3 {
        PieceType::Queen
    } else {
        PieceType::King
    }
}

/// What the square stored at place `i` holds when a game starts.
pub open spec fn initial_square(i: int) -> Option<Piece> {
    let row = i / 8;
    let file = i % 8;
    if row == 0 {
        Some(Piece { typ: back_rank(file), color: Color::Black })
    } else if row == 1 {
        Some(Piece { typ: PieceType::Pawn, color: Color::Black })
    } else if row == 6 {
        Some(Piece { typ: PieceType::Pawn, color: Color::White })
    } else if row == 7 {
        Some(Piece { typ: back_rank(file), color: Color::White })
    } else {
        None
    }
}

/// The position from which every game starts.
pub open spec fn initial_position() -> Position {
    Seq::new(64, |i: int| initial_square(i))
}

/// The position without any piece.
pub open spec fn empty_position() -> Position {
    Seq::new(64, |i: int| None::<Piece>)
}

/// The position after whatever stands on `from` has gone to `to`: `to`
/// takes what `from` held, which may be nothing, and `from` is left empty.
/// What stood on `to` is gone.  With `from` equal to `to` nothing changes.
pub open spec fn relocate(pos: Position, from: Coord, to: Coord) -> Position {
    pos.update(slot(from), None).update(slot(to), pos[slot(from)])
}

/// The number of pieces in a position.
pub open spec fn piece_count(pos: Position) -> nat
    decreases pos.len(),
{
    if pos.len() == 0 {
        0
    } else {
        piece_count(pos.drop_last()) + if pos.last() is Some {
            1nat
        } else {
            0nat
        }
    }
}

/// The `k`-th square in the order in which the source of a piece move is
/// looked for: from the first rank up to the eighth, each rank from file
/// `a` to file `h`.
pub open spec fn scan_square(k: int) -> Coord {
    square(k % 8, k / 8)
}

/// Whether a disambiguator lets a piece come from `from`.
pub open spec fn disc_permits(disc: Disambiguator, from: Coord) -> bool {
    match disc {
        Disambiguator::Unrestricted => true,
        Disambiguator::Rank(d) => from.1 + 1 == d,
        Disambiguator::File(c) => from.0 == c,
    }
}

/// Whether the `k`-th square of the search can be the source of a piece
/// move: it holds a piece of the kind and side asked for, the
/// disambiguator lets it through, and the shape of the kind's move leads
/// from it to `to`.  Pieces in between are not looked at.
pub open spec fn candidate(
    pos: Position,
    typ: PieceType,
    color: Color,
    disc: Disambiguator,
    to: Coord,
    k: int,
) -> bool {
    let from = scan_square(k);
    &&& pos[slot(from)] == Some(Piece { typ, color })
    &&& disc_permits(disc, from)
    &&& shape_permits(
        typ,
        distance(from.0 as int, to.0 as int),
        distance(from.1 as int, to.1 as int),
    )
}

/// The first candidate at or after the `k`-th square of the search.
pub open spec fn first_candidate(
    pos: Position,
    typ: PieceType,
    color: Color,
    disc: Disambiguator,
    to: Coord,
    k: int,
) -> Option<int>
    decreases 64 - k,
{
    if k < 0 || k >= 64 {
        None
    } else if candidate(pos, typ, color, disc, to, k) {
        Some(k)
    } else {
        first_candidate(pos, typ, color, disc, to, k + 1)
    }
}

/// The rank on which a side's king and rooks start.
pub open spec fn home_rank(color: Color) -> usize {
    match color {
        Color::White => 0,
        Color::Black => 7,
    }
}

/// The direction in which a side's pawns advance: up the ranks for White,
/// down for Black.
pub open spec fn forward(color: Color) -> int {
    match color {
        Color::White => 1,
        Color::Black => -1,
    }
}

/// Whether a pawn of `color` stands on the file `file`, `n` ranks behind
/// the rank `rank` as that side advances.
pub open spec fn pawn_behind(pos: Position, color: Color, file: char, rank: int, n: int) -> bool {
    let r = rank - n * forward(color);
    0 <= r < 8 && pos[slot((file, r as usize))] == Some(
        Piece { typ: PieceType::Pawn, color },
    )
}

/// The square `n` ranks behind `(file, rank)` as `color` advances.
pub open spec fn square_behind(color: Color, file: char, rank: int, n: int) -> Coord {
    (file, (rank - n * forward(color)) as usize)
}

/// What a castling does: the king goes from file `e` to `king_to` and then
/// the rook from `rook_from` to `rook_to`, all on the side's home rank.
/// Nothing is asked of the squares: each takes what the other held.
pub open spec fn castle(
    pos: Position,
    color: Color,
    king_to: char,
    rook_from: char,
    rook_to: char,
) -> (Position, Step) {
    let r = home_rank(color);
    (
        relocate(relocate(pos, ('e', r), (king_to, r)), (rook_from, r), (rook_to, r)),
        (('e', r), (king_to, r)),
    )
}

/// What a decoded move does to a position when `color` makes it: the new
/// position with the squares left and reached, or the reason why the move
/// cannot be made.  A move that names a square off the board is out of
/// range.
pub open spec fn apply_move(pos: Position, m: SanMove, color: Color) -> Result<
    (Position, Step),
    MoveError,
> {
    if !m.wf() {
        Err(MoveError::OutOfRange)
    } else {
        match m {
            SanMove::Piece { typ, disc, to } => match first_candidate(
                pos,
                typ,
                color,
                disc,
                to,
                0,
            ) {
                Some(k) => Ok((relocate(pos, scan_square(k), to), (scan_square(k), to))),
                None => Err(MoveError::UnresolvedMove),
            },
            SanMove::ShortCastle => Ok(castle(pos, color, 'g', 'h', 'f')),
            SanMove::LongCastle => Ok(castle(pos, color, 'c', 'a', 'd')),
            SanMove::PawnCapture { file, to } => {
                let r = to.1 - forward(color);
                if 0 <= r < 8 {
                    Ok((relocate(pos, (file, r as usize), to), ((file, r as usize), to)))
                } else {
                    Err(MoveError::OutOfRange)
                }
            },
            SanMove::PawnAdvance { to } => if pawn_behind(pos, color, to.0, to.1 as int, 1) {
                let from = square_behind(color, to.0, to.1 as int, 1);
                Ok((relocate(pos, from, to), (from, to)))
            } else if pawn_behind(pos, color, to.0, to.1 as int, 2) {
                let from = square_behind(color, to.0, to.1 as int, 2);
                Ok((relocate(pos, from, to), (from, to)))
            } else {
                Err(MoveError::UnresolvedMove)
            },
        }
    }
}

/// What a move token does to a position when `color` plays it.
pub open spec fn apply_token(pos: Position, token: Seq<char>, color: Color) -> Result<
    (Position, Step),
    MoveError,
> {
    match decode(token) {
        Ok(m) => apply_move(pos, m, color),
        Err(e) => Err(e),
    }
}

/// The side that makes the half-move with number `i`, counted from zero:
/// White makes the even ones.
pub open spec fn side_to_move(i: int) -> Color {
    if i % 2 == 0 {
        Color::White
    } else {
        Color::Black
    }
}

/// The outcome of playing the first `n` of the tokens `tokens` from the
/// position `pos`, the sides taking turns and White starting: the position
/// reached with every step made, or the first half-move that fails.
pub open spec fn replay(pos: Position, tokens: Seq<Seq<char>>, n: nat) -> Result<
    (Position, Seq<Step>),
    ReplayError,
>
    decreases n,
{
    if n == 0 {
        Ok((pos, Seq::<Step>::empty()))
    } else {
        match replay(pos, tokens, (n - 1) as nat) {
            Err(e) => Err(e),
            Ok((reached, steps)) => match apply_token(
                reached,
                tokens[n - 1],
                side_to_move(n - 1),
            ) {
                Err(e) => Err(ReplayError { half_move: (n - 1) as usize, error: e }),
                Ok((next, step)) => Ok((next, steps.push(step))),
            },
        }
    }
}

} // verus!
