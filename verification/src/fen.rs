//! The single-line description of a position.
//!
//! The ranks are written from the eighth down to the first and separated
//! by `/`.  Within a rank a piece is written as its letter, in upper case
//! for White and in lower case for Black, and a run of empty squares as
//! its length.  A fixed trailer follows, since a board keeps neither the
//! side to move nor the castling rights nor the clocks.

use crate::board::Board;
use crate::piece::{Color, Piece, PieceType};
use crate::position::Position;
use crate::text::{digit_char, digit_str};
use vstd::prelude::*;

verus! {

/// The letter that stands for a piece.
pub open spec fn piece_letter(p: Piece) -> char {
    match p.color {
        Color::White => match p.typ {
            PieceType::King => 'K',
            PieceType::Queen => 'Q',
            PieceType::Rook => 'R',
            PieceType::Bishop => 'B',
            PieceType::Knight => 'N',
            PieceType::Pawn => 'P',
        },
        Color::Black => match p.typ {
            PieceType::King => 'k',
            PieceType::Queen => 'q',
            PieceType::Rook => 'r',
            PieceType::Bishop => 'b',
            PieceType::Knight => 'n',
            PieceType::Pawn => 'p',
        },
    }
}

/// How a run of `n` empty squares is written: as the digit `n`, or not at
/// all if the run is empty.
pub open spec fn run_text(n: nat) -> Seq<char> {
    if n > 0 {
        seq![digit_char(n as int)]
    } else {
        Seq::<char>::empty()
    }
}

/// How the squares `cells` are written when `pending` empty squares stand
/// right before them that have not been written yet.
pub open spec fn squares_text(cells: Seq<Option<Piece>>, pending: nat) -> Seq<char>
    decreases cells.len(),
{
    if cells.len() == 0 {
        run_text(pending)
    } else {
        match cells[0] {
            None => squares_text(cells.skip(1), pending + 1),
            Some(p) => run_text(pending) + seq![piece_letter(p)] + squares_text(cells.skip(1), 0),
        }
    }
}

/// How the rank stored as row `row` is written.
pub open spec fn rank_text(pos: Position, row: int) -> Seq<char> {
    squares_text(pos.subrange(8 * row, 8 * row + 8), 0)
}

/// The first `rows` ranks as they are written, `/` between them.
pub open spec fn placement(pos: Position, rows: nat) -> Seq<char>
    decreases rows,
{
    if rows == 0 {
        Seq::<char>::empty()
    } else if rows == 1 {
        rank_text(pos, 0)
    } else {
        placement(pos, (rows - 1) as nat) + seq!['/'] + rank_text(pos, rows - 1)
    }
}

/// What follows the ranks in every description: White to move, all
/// castling rights, no en-passant square, clock 0, move 1.
pub open spec fn trailer() -> Seq<char> {
    " w KQkq - 0 1"@
}

/// The description of a position.
pub open spec fn fen(pos: Position) -> Seq<char> {
    placement(pos, 8) + trailer()
}

/// The letter that stands for a piece, as a string.
fn piece_str(p: Piece) -> (s: &'static str)
    ensures
        s@ == seq![piece_letter(p)],
{
    proof {
        reveal_strlit("K");
        reveal_strlit("Q");
        reveal_strlit("R");
        reveal_strlit("B");
        reveal_strlit("N");
        reveal_strlit("P");
        reveal_strlit("k");
        reveal_strlit("q");
        reveal_strlit("r");
        reveal_strlit("b");
        reveal_strlit("n");
        reveal_strlit("p");
    }
    let s: &'static str = match p.color {
        Color::White => match p.typ {
            PieceType::King => "K",
            PieceType::Queen => "Q",
            PieceType::Rook => "R",
            PieceType::Bishop => "B",
            PieceType::Knight => "N",
            PieceType::Pawn => "P",
        },
        Color::Black => match p.typ {
            PieceType::King => "k",
            PieceType::Queen => "q",
            PieceType::Rook => "r",
            PieceType::Bishop => "b",
            PieceType::Knight => "n",
            PieceType::Pawn => "p",
        },
    };
    s
}

impl Board {
    /// Appends to `out` how the rank stored as row `row` is written.
    fn write_rank(&self, row: usize, out: &mut String)
        requires
            row < 8,
        ensures
            final(out)@ == old(out)@ + rank_text(self@, row as int),
    {
        proof {
            self.lemma_len();
        }
        let ghost cells = self@.subrange(8 * row, 8 * row + 8);
        let mut pending: usize = 0;
        let mut file: usize = 0;
        assert(cells.skip(0) =~= cells);
        while file < 8
            invariant
                row < 8,
                file <= 8,
                pending <= file,
                self@.len() == 64,
                cells == self@.subrange(8 * row, 8 * row + 8),
                out@ + squares_text(cells.skip(file as int), pending as nat) == old(out)@
                    + squares_text(cells, 0),
            decreases 8 - file,
        {
            assert(cells.skip(file as int).skip(1) =~= cells.skip(file + 1));
            match self.get((crate::coord::file_char(file), 7 - row)) {
                None => {
                    pending += 1;
                },
                Some(p) => {
                    if pending > 0 {
                        out.append(digit_str(pending));
                    }
                    out.append(piece_str(p));
                    pending = 0;
                },
            }
            file += 1;
        }
        if pending > 0 {
            out.append(digit_str(pending));
        }
    }

    /// The description of the board on a single line.
    pub fn to_string(&self) -> (s: String)
        ensures
            s@ == fen(self@),
    {
        let mut s: String = String::new();
        self.write_rank(0, &mut s);
        let mut row: usize = 1;
        while row < 8
            invariant
                1 <= row <= 8,
                s@ == placement(self@, row as nat),
            decreases 8 - row,
        {
            proof {
                reveal_strlit("/");
            }
            s.append("/");
            self.write_rank(row, &mut s);
            row += 1;
        }
        s.append(" w KQkq - 0 1");
        s
    }
}

} // verus!
