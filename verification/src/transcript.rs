//! The grammar of a transcript, stated over its characters.
//!
//! The moves of a game start after the first empty line.  They are cut
//! into words at white space, and the words are taken three at a time: a
//! turn number with dots after it, White's token and Black's token.

use crate::pgn::MoveView;
use crate::text::{digit_value, is_digit};
use vstd::prelude::*;

verus! {

/// Why a transcript could not be read.
#[derive(Clone, Copy, Debug, PartialEq, Eq, Structural)]
pub enum ParseErrorKind {
    /// No empty line parts the headers from the moves.
    MalformedTranscript,
    /// The words of the moves do not come in threes.
    TokenCountMismatch,
    /// A turn number is not a decimal number that fits the machine.
    InvalidTurnNumber,
}

/// Whether a character is white space: a blank, a tab, a line feed, a form
/// feed or a carriage return.
pub open spec fn is_space(c: char) -> bool {
    c == ' ' || c == '\t' || c == '\n' || c == '\x0C' || c == '\r'
}

/// The length of the word that `s` starts with: the number of its
/// characters up to the first white space.
pub open spec fn word_len(s: Seq<char>) -> nat
    decreases s.len(),
{
    if s.len() == 0 || is_space(s[0]) {
        0
    } else {
        1 + word_len(s.skip(1))
    }
}

/// A word is no longer than the text it starts.
pub proof fn lemma_word_len_bound(s: Seq<char>)
    ensures
        word_len(s) <= s.len(),
    decreases s.len(),
{
    if s.len() > 0 && !is_space(s[0]) {
        lemma_word_len_bound(s.skip(1));
    }
}

/// The words of `s`: its longest stretches without white space, in order.
pub open spec fn words(s: Seq<char>) -> Seq<Seq<char>>
    decreases s.len(),
    via words_decreases
{
    if s.len() == 0 {
        Seq::<Seq<char>>::empty()
    } else if is_space(s[0]) {
        words(s.skip(1))
    } else {
        seq![s.take(word_len(s) as int)] + words(s.skip(word_len(s) as int))
    }
}

#[via_fn]
proof fn words_decreases(s: Seq<char>) {
    lemma_word_len_bound(s);
}

/// The length of the end of the empty line that starts at `p`: 1 for a
/// line feed, 2 for a carriage return with a line feed, and 0 if the line
/// that starts at `p` is not empty.
pub open spec fn empty_line_len(s: Seq<char>, p: int) -> int {
    if 0 <= p < s.len() && s[p] == '\n' {
        1
    } else if 0 <= p && p + 1 < s.len() && s[p] == '\r' && s[p + 1] == '\n' {
        2
    } else {
        0
    }
}

/// Whether an empty line starts at `p`: a line starts there, at the start
/// of the text or after a line feed, and ends at once.
pub open spec fn empty_line_at(s: Seq<char>, p: int) -> bool {
    (p == 0 || (0 < p < s.len() && s[p - 1] == '\n')) && empty_line_len(s, p) > 0
}

/// Where the first empty line at or after `p` starts.
pub open spec fn first_empty_line(s: Seq<char>, p: int) -> Option<int>
    decreases s.len() - p,
{
    if p < 0 || p >= s.len() {
        None
    } else if empty_line_at(s, p) {
        Some(p)
    } else {
        first_empty_line(s, p + 1)
    }
}

/// The moves of a transcript: what follows its first empty line.
pub open spec fn movetext(s: Seq<char>) -> Option<Seq<char>> {
    match first_empty_line(s, 0) {
        Some(p) => Some(s.skip(p + empty_line_len(s, p))),
        None => None,
    }
}

/// A word without the dots at its end.
pub open spec fn strip_dots(w: Seq<char>) -> Seq<char>
    decreases w.len(),
{
    if w.len() > 0 && w.last() == '.' {
        strip_dots(w.drop_last())
    } else {
        w
    }
}

/// A number without the plus sign that may stand in front of it.
pub open spec fn strip_sign(w: Seq<char>) -> Seq<char> {
    if w.len() > 0 && w[0] == '+' {
        w.skip(1)
    } else {
        w
    }
}

/// Whether every character of `w` is a decimal digit.
pub open spec fn all_digits(w: Seq<char>) -> bool {
    forall|i: int| 0 <= i < w.len() ==> is_digit(#[trigger] w[i])
}

/// The number that the decimal digits `w` stand for.
pub open spec fn decimal_value(w: Seq<char>) -> nat
    decreases w.len(),
{
    if w.len() == 0 {
        0
    } else {
        (decimal_value(w.drop_last()) * 10 + digit_value(w.last())) as nat
    }
}

/// The number of a turn, read from the word that marks the turn: the dots
/// at its end are left out, and what stays has to be a decimal number, with
/// or without a plus sign, that fits the machine.
pub open spec fn turn_number(w: Seq<char>) -> Option<usize> {
    let digits = strip_sign(strip_dots(w));
    if digits.len() > 0 && all_digits(digits) && decimal_value(digits) <= usize::MAX {
        Some(decimal_value(digits) as usize)
    } else {
        None
    }
}

/// The turn that the words `w` spell from place `3 * i` on.
pub open spec fn turn_at(w: Seq<Seq<char>>, i: int) -> MoveView {
    MoveView { turn: turn_number(w[3 * i])->0, white: w[3 * i + 1], black: w[3 * i + 2] }
}

/// The turns that the words of the moves spell, three words to a turn.
pub open spec fn read_turns(w: Seq<Seq<char>>) -> Result<Seq<MoveView>, ParseErrorKind> {
    if w.len() % 3 != 0 {
        Err(ParseErrorKind::TokenCountMismatch)
    } else if exists|i: int| 0 <= i < w.len() / 3 && (#[trigger] turn_number(w[3 * i])) is None {
        Err(ParseErrorKind::InvalidTurnNumber)
    } else {
        Ok(Seq::new(w.len() / 3, |i: int| turn_at(w, i)))
    }
}

/// The turns of a transcript, or why it cannot be read.
pub open spec fn read_transcript(s: Seq<char>) -> Result<Seq<MoveView>, ParseErrorKind> {
    match movetext(s) {
        None => Err(ParseErrorKind::MalformedTranscript),
        Some(m) => read_turns(words(m)),
    }
}

} // verus!
