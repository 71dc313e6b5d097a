//! Game transcripts: a block of headers, an empty line, and the moves as
//! numbered pairs of tokens.

use crate::text::{decimal, decimal_string, is_digit, to_chars, to_digit};
use crate::transcript::{
    all_digits, decimal_value, first_empty_line, is_space, movetext, read_transcript, strip_dots,
    strip_sign, turn_at, turn_number, word_len, words, ParseErrorKind,
};
use vstd::prelude::*;

verus! {

/// One full turn of a game: its number and the two tokens, White's first.
#[derive(Debug, PartialEq, Eq)]
pub struct Move {
    pub turn: usize,
    pub white: String,
    pub black: String,
}

/// A turn as a mathematical value.
pub struct MoveView {
    pub turn: usize,
    pub white: Seq<char>,
    pub black: Seq<char>,
}

impl View for Move {
    type V = MoveView;

    open spec fn view(&self) -> MoveView {
        MoveView { turn: self.turn, white: self.white@, black: self.black@ }
    }
}

impl Move {
    /// A turn made of its number and its two tokens.
    pub fn new(turn: usize, white: String, black: String) -> (m: Move)
        ensures
            m@ == (MoveView { turn, white: white@, black: black@ }),
    {
        Move { turn, white, black }
    }
}

/// The turns of a game in order.
#[derive(Debug, PartialEq, Eq)]
pub struct Pgn {
    pub moves: Vec<Move>,
}

impl View for Pgn {
    type V = Seq<MoveView>;

    open spec fn view(&self) -> Seq<MoveView> {
        self.moves@.map_values(|m: Move| m@)
    }
}

/// The tokens of a game one half-move after the other: each turn gives
/// White's token and then Black's.
pub open spec fn half_move_tokens(moves: Seq<MoveView>) -> Seq<Seq<char>> {
    Seq::new(
        2 * moves.len(),
        |i: int|
            if i % 2 == 0 {
                moves[i / 2].white
            } else {
                moves[i / 2].black
            },
    )
}

/// The reason why a transcript could not be read.
#[derive(Clone, Copy, Debug, PartialEq, Eq, Structural)]
pub struct ParseError {
    pub kind: ParseErrorKind,
}

/// The stretches of `s` that the pairs `r` of a start and an end mark.
pub open spec fn stretches(s: Seq<char>, r: Seq<(usize, usize)>) -> Seq<Seq<char>> {
    Seq::new(r.len(), |j: int| s.subrange(r[j].0 as int, r[j].1 as int))
}

/// Whether a character is white space.
fn is_space_char(c: char) -> (res: bool)
    ensures
        res == is_space(c),
{
    c == ' ' || c == '\t' || c == '\n' || c == '\x0C' || c == '\r'
}

/// Looks for the first empty line and returns where the text after it
/// starts.
fn find_movetext(cs: &Vec<char>) -> (res: Option<usize>)
    ensures
        match res {
            Some(start) => start <= cs@.len() && movetext(cs@) == Some(cs@.skip(start as int)),
            None => movetext(cs@) is None,
        },
{
    let n: usize = cs.len();
    let mut p: usize = 0;
    while p < n
        invariant
            p <= n,
            n == cs@.len(),
            first_empty_line(cs@, 0) == first_empty_line(cs@, p as int),
        decreases n - p,
    {
        if p == 0 || cs[p - 1] == '\n' {
            if cs[p] == '\n' {
                return Some(p + 1);
            }
            if p + 1 < n && cs[p] == '\r' && cs[p + 1] == '\n' {
                return Some(p + 2);
            }
        }
        p += 1;
    }
    None
}

/// Cuts the text from `start` on into its words and returns where each
/// starts and ends.
fn split_words(cs: &Vec<char>, start: usize) -> (r: Vec<(usize, usize)>)
    requires
        start <= cs@.len(),
    ensures
        forall|j: int| 0 <= j < r@.len() ==> (#[trigger] r@[j]).0 <= r@[j].1 <= cs@.len(),
        stretches(cs@, r@) == words(cs@.skip(start as int)),
{
    let n: usize = cs.len();
    let mut r: Vec<(usize, usize)> = Vec::new();
    let mut i: usize = start;
    while i < n
        invariant
            start <= i <= n,
            n == cs@.len(),
            forall|j: int| 0 <= j < r@.len() ==> (#[trigger] r@[j]).0 <= r@[j].1 <= cs@.len(),
            stretches(cs@, r@) + words(cs@.skip(i as int)) == words(cs@.skip(start as int)),
        decreases n - i,
    {
        let ghost rest = cs@.skip(i as int);
        if is_space_char(cs[i]) {
            assert(rest.skip(1) =~= cs@.skip(i + 1));
            i += 1;
        } else {
            let mut j: usize = i;
            while j < n && !is_space_char(cs[j])
                invariant
                    i <= j <= n,
                    n == cs@.len(),
                    word_len(cs@.skip(i as int)) == (j - i) + word_len(cs@.skip(j as int)),
                decreases n - j,
            {
                assert(cs@.skip(j as int).skip(1) =~= cs@.skip(j + 1));
                j += 1;
            }
            assert(rest.take(j - i) =~= cs@.subrange(i as int, j as int));
            assert(rest.skip(j - i) =~= cs@.skip(j as int));
            r.push((i, j));
            i = j;
        }
    }
    r
}

/// The number that a stretch of digits stands for is no smaller than the
/// number that its first `j` digits stand for.
proof fn lemma_decimal_prefix(w: Seq<char>, j: int)
    requires
        all_digits(w),
        0 <= j <= w.len(),
    ensures
        decimal_value(w.take(j)) <= decimal_value(w),
    decreases w.len(),
{
    if j == w.len() {
        assert(w.take(j) =~= w);
    } else {
        lemma_decimal_prefix(w.drop_last(), j);
        assert(w.drop_last().take(j) =~= w.take(j));
    }
}

/// Reads the number of a turn from the word between `a` and `b`.
fn parse_turn(cs: &Vec<char>, a: usize, b: usize) -> (res: Option<usize>)
    requires
        a <= b <= cs@.len(),
    ensures
        res == turn_number(cs@.subrange(a as int, b as int)),
{
    let mut e: usize = b;
    while e > a && cs[e - 1] == '.'
        invariant
            a <= e <= b,
            b <= cs@.len(),
            strip_dots(cs@.subrange(a as int, b as int)) == strip_dots(
                cs@.subrange(a as int, e as int),
            ),
        decreases e,
    {
        assert(cs@.subrange(a as int, e as int).drop_last() =~= cs@.subrange(a as int, e - 1));
        e -= 1;
    }
    let s: usize = if a < e && cs[a] == '+' {
        a + 1
    } else {
        a
    };
    let ghost digits = cs@.subrange(s as int, e as int);
    if s == e {
        return None;
    }
    let mut value: usize = 0;
    let mut k: usize = s;
    while k < e
        invariant
            s <= k <= e,
            s < e,
            a <= b <= cs@.len(),
            e <= cs@.len(),
            digits == cs@.subrange(s as int, e as int),
            strip_sign(strip_dots(cs@.subrange(a as int, b as int))) == digits,
            all_digits(cs@.subrange(s as int, k as int)),
            value == decimal_value(cs@.subrange(s as int, k as int)),
        decreases e - k,
    {
        let ghost next = cs@.subrange(s as int, k + 1);
        assert(next.drop_last() =~= cs@.subrange(s as int, k as int));
        match to_digit(cs[k]) {
            None => {
                assert(!is_digit(digits[k - s]));
                return None;
            },
            Some(d) => {
                assert(all_digits(next));
                if value > (usize::MAX - d) / 10 {
                    proof {
                        if all_digits(digits) {
                            lemma_decimal_prefix(digits, k + 1 - s);
                            assert(digits.take(k + 1 - s) =~= next);
                        }
                    }
                    return None;
                }
                value = value * 10 + d;
            },
        }
        k += 1;
    }
    Some(value)
}

/// How a turn is written: its number with a dot, then the two tokens,
/// each followed by a blank.
pub open spec fn turn_text(m: MoveView) -> Seq<char> {
    decimal(m.turn as nat) + seq!['.', ' '] + m.white + seq![' '] + m.black + seq![' ']
}

/// How the turns of a game are written, one after the other.
pub open spec fn game_text(moves: Seq<MoveView>) -> Seq<char>
    decreases moves.len(),
{
    if moves.len() == 0 {
        Seq::<char>::empty()
    } else {
        game_text(moves.drop_last()) + turn_text(moves.last())
    }
}

/// What stands before the moves in the document that typesets a game.
pub open spec fn latex_head() -> Seq<char> {
    "\n\\documentclass{standalone}\n\\usepackage{xskak}\n\\begin{document}\n\\newchessgame\n\\hidemoves{"@
}

/// What stands after the moves in the document that typesets a game.
pub open spec fn latex_tail() -> Seq<char> {
    "}\n\\chessboard[showmover=false, pgfstyle=straightmove, markmoves={a1-c3}]\n\\end{document}\n"@
}

impl ParseError {
    /// The text of the message that goes with the error.
    pub open spec fn message(self) -> Seq<char> {
        match self.kind {
            ParseErrorKind::MalformedTranscript => "no empty line before the moves"@,
            ParseErrorKind::TokenCountMismatch => "the moves do not come in threes"@,
            ParseErrorKind::InvalidTurnNumber => "a turn number is not a number"@,
        }
    }

    /// A short description of the error for the user.
    pub fn to_string(&self) -> (s: String)
        ensures
            s@ == self.message(),
    {
        match self.kind {
            ParseErrorKind::MalformedTranscript => String::from_str(
                "no empty line before the moves",
            ),
            ParseErrorKind::TokenCountMismatch => String::from_str(
                "the moves do not come in threes",
            ),
            ParseErrorKind::InvalidTurnNumber => String::from_str("a turn number is not a number"),
        }
    }
}

impl Pgn {
    /// The moves of the game as they are written in a transcript.
    pub fn to_string(&self) -> (s: String)
        ensures
            s@ == game_text(self@),
    {
        let mut s: String = String::new();
        let mut i: usize = 0;
        while i < self.moves.len()
            invariant
                i <= self.moves@.len(),
                s@ == game_text(self@.take(i as int)),
            decreases self.moves@.len() - i,
        {
            let m = &self.moves[i];
            proof {
                reveal_strlit(". ");
                reveal_strlit(" ");
                assert(self@.take(i + 1).drop_last() =~= self@.take(i as int));
            }
            let number = decimal_string(m.turn);
            s.append(number.as_str());
            s.append(". ");
            s.append(m.white.as_str());
            s.append(" ");
            s.append(m.black.as_str());
            s.append(" ");
            i += 1;
        }
        assert(self@.take(i as int) =~= self@);
        s
    }

    /// The document that typesets the game.
    pub fn to_latex(&self) -> (s: String)
        ensures
            s@ == latex_head() + game_text(self@) + latex_tail(),
    {
        let mut s: String = String::from_str(
            "\n\\documentclass{standalone}\n\\usepackage{xskak}\n\\begin{document}\n\\newchessgame\n\\hidemoves{",
        );
        let moves = self.to_string();
        s.append(moves.as_str());
        s.append(
            "}\n\\chessboard[showmover=false, pgfstyle=straightmove, markmoves={a1-c3}]\n\\end{document}\n",
        );
        s
    }

    /// Reads a transcript.  The moves are what follows the first empty
    /// line; a transcript without one is malformed.  The words of the
    /// moves are taken three at a time, as a turn number and two tokens; it
    /// is an error if they do not come in threes or if a turn number is no
    /// number.
    pub fn from_str(text: &str) -> (res: Result<Pgn, ParseError>)
        ensures
            match res {
                Ok(pgn) => read_transcript(text@) == Ok::<Seq<MoveView>, ParseErrorKind>(pgn@),
                Err(e) => read_transcript(text@) == Err::<Seq<MoveView>, ParseErrorKind>(e.kind),
            },
    {
        let cs = to_chars(text);
        let start: usize = match find_movetext(&cs) {
            None => {
                return Err(ParseError { kind: ParseErrorKind::MalformedTranscript });
            },
            Some(start) => start,
        };
        let r = split_words(&cs, start);
        let ghost w = words(cs@.skip(start as int));
        if r.len() % 3 != 0 {
            return Err(ParseError { kind: ParseErrorKind::TokenCountMismatch });
        }
        let turns: usize = r.len() / 3;
        let mut moves: Vec<Move> = Vec::new();
        let mut g: usize = 0;
        while g < turns
            invariant
                g <= turns,
                turns * 3 == r@.len(),
                r@.len() == r.len(),
                cs@ == text@,
                start <= cs@.len(),
                movetext(text@) == Some(cs@.skip(start as int)),
                w == words(cs@.skip(start as int)),
                w == stretches(cs@, r@),
                forall|j: int| 0 <= j < r@.len() ==> (#[trigger] r@[j]).0 <= r@[j].1 <= cs@.len(),
                moves@.len() == g,
                forall|j: int| 0 <= j < g ==> (#[trigger] turn_number(w[3 * j])) is Some,
                forall|j: int| 0 <= j < g ==> (#[trigger] moves@[j])@ == turn_at(w, j),
            decreases turns - g,
        {
            let mark: (usize, usize) = r[3 * g];
            let white: (usize, usize) = r[3 * g + 1];
            let black: (usize, usize) = r[3 * g + 2];
            let turn: usize = match parse_turn(&cs, mark.0, mark.1) {
                None => {
                    return Err(ParseError { kind: ParseErrorKind::InvalidTurnNumber });
                },
                Some(turn) => turn,
            };
            let m = Move::new(
                turn,
                String::from_str(text.substring_char(white.0, white.1)),
                String::from_str(text.substring_char(black.0, black.1)),
            );
            assert(m@ == turn_at(w, g as int));
            moves.push(m);
            g += 1;
        }
        let pgn = Pgn { moves };
        assert(pgn@ =~= Seq::new(w.len() / 3, |i: int| turn_at(w, i)));
        Ok(pgn)
    }
}

} // verus!
