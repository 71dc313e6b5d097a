//! Squares of the board, named by a file letter and a rank.

use vstd::prelude::*;

verus! {

/// A square: its file, a letter from `a` to `h`, and its rank counted from
/// zero, so that the first rank is 0 and the eighth is 7.
pub type Coord = (char, usize);

/// The number of a file letter: 0 for `a` up to 7 for `h`.
pub open spec fn file_index(c: char) -> int {
    c as int - 'a' as int
}

/// The letter of the file with number `i`.
pub open spec fn file_letter(i: int) -> char {
    (i + 'a' as int) as char
}

/// Whether a file letter names one of the eight files.
pub open spec fn is_file(c: char) -> bool {
    'a' <= c <= 'h'
}

/// Whether a square lies on the board.
pub open spec fn on_board(sq: Coord) -> bool {
    is_file(sq.0) && sq.1 < 8
}

/// Where a square is stored.  The squares are kept rank by rank from the
/// eighth rank down to the first, each rank from file `a` to file `h`.
pub open spec fn slot(sq: Coord) -> int {
    (7 - sq.1) * 8 + file_index(sq.0)
}

/// The square with file number `file` and rank `rank`.
pub open spec fn square(file: int, rank: int) -> Coord {
    (file_letter(file), rank as usize)
}

/// The number of a file letter.
pub fn to_idx(c: char) -> (i: usize)
    requires
        'a' <= c,
    ensures
        i == file_index(c),
{
    c as usize - 'a' as usize
}

/// The letter of a file number.
pub fn file_char(i: usize) -> (c: char)
    requires
        i < 8,
    ensures
        c == file_letter(i as int),
        is_file(c),
        file_index(c) == i,
{
    (97u8 + i as u8) as char
}

} // verus!
