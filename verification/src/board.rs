//! The board: an 8x8 position that move tokens are replayed on.

use crate::coord::{file_char, is_file, on_board, slot, to_idx, Coord};
use crate::error::{MoveError, ReplayError};
pub use crate::piece::{Color, Piece, PieceType};
use crate::pgn::{half_move_tokens, MoveView, Pgn};
use crate::position::{
    apply_move, apply_token, castle, empty_position, first_candidate, initial_position,
    initial_square, pawn_behind, piece_count, relocate, replay, scan_square, square_behind,
    Position, Step,
};
use crate::san::{Disambiguator, SanMove};
use vstd::prelude::*;

verus! {

/// A chess position.  No rule of the game is enforced on it: it holds what
/// the moves replayed on it have left.
#[derive(Clone, Copy, Debug)]
pub struct Board {
    squares: [Option<Piece>; 64],
}

impl View for Board {
    type V = Seq<Option<Piece>>;

    closed spec fn view(&self) -> Seq<Option<Piece>> {
        self.squares@
    }
}

/// The place in storage of a square of the board.
fn index_of(sq: Coord) -> (i: usize)
    requires
        on_board(sq),
    ensures
        i == slot(sq),
        i < 64,
{
    (7 - sq.1) * 8 + to_idx(sq.0)
}

/// What the square stored at place `i` holds when a game starts.
fn starting_piece(i: usize) -> (res: Option<Piece>)
    requires
        i < 64,
    ensures
        res == initial_square(i as int),
{
    let row: usize = i / 8;
    let file: usize = i % 8;
    let typ: PieceType = if row == 1 || row == 6 {
        PieceType::Pawn
    } else if file == 0 || file == 7 {
        PieceType::Rook
    } else if file == 1 || file == 6 {
        PieceType::Knight
    } else if file == 2 || file == 5 {
        PieceType::Bishop
    } else if file == 3 {
        PieceType::Queen
    } else {
        PieceType::King
    };
    if row <= 1 {
        Some(Piece { typ, color: Color::Black })
    } else if row >= 6 {
        Some(Piece { typ, color: Color::White })
    } else {
        None
    }
}

impl Board {
    /// Every position has 64 squares.
    pub proof fn lemma_len(self)
        ensures
            self@.len() == 64,
    {
    }

    /// The board as a game starts.
    pub fn new() -> (board: Board)
        ensures
            board@ == initial_position(),
    {
        let mut squares: [Option<Piece>; 64] = [None;64];
        let mut i: usize = 0;
        while i < 64
            invariant
                i <= 64,
                forall|j: int| 0 <= j < i ==> squares@[j] == initial_square(j),
            decreases 64 - i,
        {
            squares[i] = starting_piece(i);
            i += 1;
        }
        Board { squares }
    }

    /// The board without any piece.
    pub fn empty() -> (board: Board)
        ensures
            board@ == empty_position(),
    {
        let squares: [Option<Piece>; 64] = [None;64];
        Board { squares }
    }

    /// What stands on a square.
    pub fn get(&self, sq: Coord) -> (res: Option<Piece>)
        requires
            on_board(sq),
        ensures
            res == self@[slot(sq)],
    {
        self.squares[index_of(sq)]
    }

    /// Puts `piece` on a square, or clears the square.
    pub fn set(&mut self, sq: Coord, piece: Option<Piece>)
        requires
            on_board(sq),
        ensures
            final(self)@ == old(self)@.update(slot(sq), piece),
    {
        let i: usize = index_of(sq);
        self.squares[i] = piece;
    }

    /// The number of pieces on the board.
    pub fn piece_count(&self) -> (n: usize)
        ensures
            n == piece_count(self@),
    {
        let mut n: usize = 0;
        let mut i: usize = 0;
        while i < 64
            invariant
                i <= 64,
                n <= i,
                n == piece_count(self.squares@.take(i as int)),
            decreases 64 - i,
        {
            assert(self.squares@.take(i + 1).drop_last() =~= self.squares@.take(i as int));
            if self.squares[i].is_some() {
                n += 1;
            }
            i += 1;
        }
        assert(self.squares@.take(64) =~= self.squares@);
        n
    }

    /// Moves whatever stands on `from` to `to` and leaves `from` empty.
    fn relocate(&mut self, from: Coord, to: Coord)
        requires
            on_board(from),
            on_board(to),
        ensures
            final(self)@ == relocate(old(self)@, from, to),
    {
        let i: usize = index_of(from);
        let j: usize = index_of(to);
        let moved: Option<Piece> = self.squares[i];
        self.squares[i] = None;
        self.squares[j] = moved;
    }

    /// Looks for the piece that a piece move speaks of: the first square,
    /// from the first rank up and from file `a` to file `h` on each rank,
    /// that holds a piece of the kind and side, that the disambiguator
    /// lets through, and from which the kind's move leads to `to`.
    fn find_source(&self, typ: PieceType, color: Color, disc: Disambiguator, to: Coord) -> (res:
        Option<Coord>)
        ensures
            res == match first_candidate(self@, typ, color, disc, to, 0) {
                Some(k) => Some(scan_square(k)),
                None => None,
            },
            res matches Some(from) ==> on_board(from),
    {
        let mut k: usize = 0;
        while k < 64
            invariant
                k <= 64,
                first_candidate(self@, typ, color, disc, to, 0) == first_candidate(
                    self@,
                    typ,
                    color,
                    disc,
                    to,
                    k as int,
                ),
            decreases 64 - k,
        {
            let from: Coord = (file_char(k % 8), k / 8);
            let permitted: bool = match disc {
                Disambiguator::Unrestricted => true,
                Disambiguator::Rank(d) => from.1 + 1 == d,
                Disambiguator::File(c) => from.0 == c,
            };
            if permitted {
                if let Some(p) = self.get(from) {
                    if p.typ == typ && p.color == color && p.can_move(from, to) {
                        return Some(from);
                    }
                }
            }
            k += 1;
        }
        None
    }

    /// Whether a pawn of `color` stands on file `file`, `n` ranks behind
    /// `rank` as that side advances; and if so, on which square.
    fn pawn_behind(&self, color: Color, file: char, rank: usize, n: usize) -> (res: Option<Coord>)
        requires
            is_file(file),
            rank < 8,
            1 <= n <= 2,
        ensures
            res == if pawn_behind(self@, color, file, rank as int, n as int) {
                Some(square_behind(color, file, rank as int, n as int))
            } else {
                None
            },
            res matches Some(from) ==> on_board(from),
    {
        let r: usize = match color {
            Color::White => {
                if rank < n {
                    return None;
                }
                rank - n
            },
            Color::Black => {
                if rank + n > 7 {
                    return None;
                }
                rank + n
            },
        };
        match self.get((file, r)) {
            Some(p) => {
                if p.typ == PieceType::Pawn && p.color == color {
                    Some((file, r))
                } else {
                    None
                }
            },
            None => None,
        }
    }

    /// Makes a castling move: the king goes from file `e` to `king_to`,
    /// then the rook from `rook_from` to `rook_to`.
    fn castle(&mut self, color: Color, king_to: char, rook_from: char, rook_to: char) -> (step:
        Step)
        requires
            is_file(king_to),
            is_file(rook_from),
            is_file(rook_to),
        ensures
            (final(self)@, step) == castle(old(self)@, color, king_to, rook_from, rook_to),
    {
        let r: usize = match color {
            Color::White => 0,
            Color::Black => 7,
        };
        self.relocate(('e', r), (king_to, r));
        self.relocate((rook_from, r), (rook_to, r));
        (('e', r), (king_to, r))
    }

    /// Makes a decoded move for `color` and returns the square left and
    /// the square reached.  A move that cannot be made leaves the board as
    /// it was.
    pub fn make(&mut self, m: SanMove, color: Color) -> (res: Result<Step, MoveError>)
        ensures
            res matches Ok(step) ==> apply_move(old(self)@, m, color) == Ok::<
                (Position, Step),
                MoveError,
            >((final(self)@, step)),
            res matches Err(e) ==> apply_move(old(self)@, m, color) == Err::<
                (Position, Step),
                MoveError,
            >(e) && final(self)@ == old(self)@,
    {
        if !m.on_board() {
            return Err(MoveError::OutOfRange);
        }
        match m {
            SanMove::Piece { typ, disc, to } => {
                match self.find_source(typ, color, disc, to) {
                    Some(from) => {
                        self.relocate(from, to);
                        Ok((from, to))
                    },
                    None => Err(MoveError::UnresolvedMove),
                }
            },
            SanMove::ShortCastle => Ok(self.castle(color, 'g', 'h', 'f')),
            SanMove::LongCastle => Ok(self.castle(color, 'c', 'a', 'd')),
            SanMove::PawnCapture { file, to } => {
                let r: usize = match color {
                    Color::White => {
                        if to.1 < 1 {
                            return Err(MoveError::OutOfRange);
                        }
                        to.1 - 1
                    },
                    Color::Black => {
                        if to.1 + 1 > 7 {
                            return Err(MoveError::OutOfRange);
                        }
                        to.1 + 1
                    },
                };
                self.relocate((file, r), to);
                Ok(((file, r), to))
            },
            SanMove::PawnAdvance { to } => {
                let from: Coord = match self.pawn_behind(color, to.0, to.1, 1) {
                    Some(sq) => sq,
                    None => match self.pawn_behind(color, to.0, to.1, 2) {
                        Some(sq) => sq,
                        None => {
                            return Err(MoveError::UnresolvedMove);
                        },
                    },
                };
                self.relocate(from, to);
                Ok((from, to))
            },
        }
    }

    /// Plays the move token `mov` for `color` and returns the square left
    /// and the square reached.  A token that cannot be played leaves the
    /// board as it was.
    pub fn mov(&mut self, mov: String, color: Color) -> (res: Result<Step, MoveError>)
        ensures
            res matches Ok(step) ==> apply_token(old(self)@, mov@, color) == Ok::<
                (Position, Step),
                MoveError,
            >((final(self)@, step)),
            res matches Err(e) ==> apply_token(old(self)@, mov@, color) == Err::<
                (Position, Step),
                MoveError,
            >(e) && final(self)@ == old(self)@,
    {
        match SanMove::parse(mov.as_str()) {
            Ok(m) => self.make(m, color),
            Err(e) => Err(e),
        }
    }

    /// Replays the first `half_moves` half-moves of a game on the board,
    /// or the whole game if it is shorter, and returns every step made in
    /// order.  White plays the first token of each turn and Black the
    /// second.  If one of the tokens cannot be played, nothing is kept:
    /// the board is as it was before the call.
    pub fn play(&mut self, pgn: &Pgn, half_moves: usize) -> (res: Result<Vec<Step>, ReplayError>)
        ensures
            played(
                old(self)@,
                pgn@,
                half_moves,
                final(self)@,
                match res {
                    Ok(steps) => Ok(steps@),
                    Err(e) => Err(e),
                },
            ),
    {
        let start: Board = *self;
        let ghost tokens = half_move_tokens(pgn@);
        let ghost n = replayed(pgn@.len(), half_moves);
        let mut steps: Vec<Step> = Vec::new();
        let mut i: usize = 0;
        while i < half_moves && i / 2 < pgn.moves.len()
            invariant
                i <= n,
                n == replayed(pgn@.len(), half_moves),
                start@ == old(self)@,
                tokens == half_move_tokens(pgn@),
                replay(start@, tokens, i as nat) == Ok::<(Position, Seq<Step>), ReplayError>(
                    (self@, steps@),
                ),
            decreases n - i,
        {
            let turn = &pgn.moves[i / 2];
            let token: String = if i % 2 == 0 {
                turn.white.clone()
            } else {
                turn.black.clone()
            };
            let color: Color = if i % 2 == 0 {
                Color::White
            } else {
                Color::Black
            };
            match self.mov(token, color) {
                Ok(step) => {
                    steps.push(step);
                },
                Err(e) => {
                    *self = start;
                    let error = ReplayError { half_move: i, error: e };
                    proof {
                        lemma_replay_fails_on(start@, tokens, (i + 1) as nat, n);
                    }
                    return Err(error);
                },
            }
            i += 1;
        }
        Ok(steps)
    }
}

/// How many half-moves are replayed when `half_moves` are asked for of a
/// game of `turns` turns.
pub open spec fn replayed(turns: nat, half_moves: usize) -> nat {
    if half_moves <= 2 * turns {
        half_moves as nat
    } else {
        2 * turns
    }
}

/// What a call of [`Board::play`] leaves behind: if every token asked for
/// could be played, the position reached and the steps made; if one could
/// not, the first failure, and the position as it was.
pub open spec fn played(
    before: Position,
    moves: Seq<MoveView>,
    half_moves: usize,
    after: Position,
    outcome: Result<Seq<Step>, ReplayError>,
) -> bool {
    let expected = replay(before, half_move_tokens(moves), replayed(moves.len(), half_moves));
    match outcome {
        Ok(steps) => expected == Ok::<(Position, Seq<Step>), ReplayError>((after, steps)),
        Err(e) => expected == Err::<(Position, Seq<Step>), ReplayError>(e) && after == before,
    }
}

/// A replay that fails within its first `k` half-moves fails in the same
/// way however many more are asked for.
pub proof fn lemma_replay_fails_on(pos: Position, tokens: Seq<Seq<char>>, k: nat, n: nat)
    requires
        k <= n,
        replay(pos, tokens, k) is Err,
    ensures
        replay(pos, tokens, n) == replay(pos, tokens, k),
    decreases n,
{
    if k < n {
        lemma_replay_fails_on(pos, tokens, k, (n - 1) as nat);
    }
}

} // verus!
