//! The document that typesets a diagram of a position.

use crate::board::Board;
use crate::coord::{is_file, on_board, Coord};
use crate::fen::fen;
use crate::position::{Position, Step};
use crate::text::{digit_char, digit_str};
use vstd::prelude::*;

verus! {

/// The name of a square: its file letter and the digit of its rank, the
/// first rank being written `1`.
pub open spec fn square_name(sq: Coord) -> Seq<char> {
    seq![sq.0, digit_char(sq.1 + 1)]
}

/// What stands before the description of the position in the document.
pub open spec fn diagram_head() -> Seq<char> {
    "\n\\documentclass{standalone}\n\\usepackage{xskak}\n\\begin{document}\n\\newchessgame[setfen="@
}

/// What stands between the description of the position and the move that
/// is marked.
pub open spec fn diagram_middle() -> Seq<char> {
    "]\n\\chessboard[showmover=false, pgfstyle=straightmove, markmoves={"@
}

/// What stands after the move that is marked.
pub open spec fn diagram_tail() -> Seq<char> {
    "}]\n\\end{document}\n"@
}

/// The document that draws the position `pos` with an arrow for the step
/// `last`.
pub open spec fn diagram(pos: Position, last: Step) -> Seq<char> {
    diagram_head() + fen(pos) + diagram_middle() + square_name(last.0) + seq!['-'] + square_name(
        last.1,
    ) + diagram_tail()
}

/// A file letter as a string.
fn file_str(c: char) -> (s: &'static str)
    requires
        is_file(c),
    ensures
        s@ == seq![c],
{
    proof {
        reveal_strlit("a");
        reveal_strlit("b");
        reveal_strlit("c");
        reveal_strlit("d");
        reveal_strlit("e");
        reveal_strlit("f");
        reveal_strlit("g");
        reveal_strlit("h");
    }
    let s: &'static str = if c == 'a' {
        "a"
    } else if c == 'b' {
        "b"
    } else if c == 'c' {
        "c"
    } else if c == 'd' {
        "d"
    } else if c == 'e' {
        "e"
    } else if c == 'f' {
        "f"
    } else if c == 'g' {
        "g"
    } else {
        "h"
    };
    s
}

/// Appends the name of a square to `out`.
fn write_square(sq: Coord, out: &mut String)
    requires
        on_board(sq),
    ensures
        final(out)@ == old(out)@ + square_name(sq),
{
    out.append(file_str(sq.0));
    out.append(digit_str(sq.1 + 1));
}

impl Board {
    /// The document that draws the board with an arrow for the step
    /// `last`, which is meant to be the last one replayed.
    pub fn to_latex(&self, last: Step) -> (s: String)
        requires
            on_board(last.0),
            on_board(last.1),
        ensures
            s@ == diagram(self@, last),
    {
        proof {
            reveal_strlit("-");
        }
        let mut s: String = String::from_str(
            "\n\\documentclass{standalone}\n\\usepackage{xskak}\n\\begin{document}\n\\newchessgame[setfen=",
        );
        let position = self.to_string();
        s.append(position.as_str());
        s.append("]\n\\chessboard[showmover=false, pgfstyle=straightmove, markmoves={");
        write_square(last.0, &mut s);
        s.append("-");
        write_square(last.1, &mut s);
        s.append("}]\n\\end{document}\n");
        s
    }
}

} // verus!
