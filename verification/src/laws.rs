//! What holds of replaying in general.

use crate::board::played;
use crate::coord::{is_file, on_board, slot, Coord};
use crate::error::{MoveError, ReplayError};
use crate::fen::fen;
use crate::pgn::{game_text, turn_text, MoveView};
use crate::piece::{Color, Piece, PieceType};
use crate::position::{
    apply_move, apply_token, candidate, first_candidate, forward, home_rank, pawn_behind,
    piece_count, relocate, replay, side_to_move, square_behind, Position, Step,
};
use crate::san::{decode, has_capture_mark, short_castle_token, Disambiguator, SanMove};
use crate::text::{decimal, digit_value, is_digit};
use crate::transcript::{
    all_digits, decimal_value, empty_line_at, is_space, read_transcript, strip_dots, turn_at,
    turn_number, word_len, words, ParseErrorKind,
};
use vstd::prelude::*;

verus! {

/// Replaying is deterministic: two replays of the same half-moves of the
/// same game from the same position end alike.  They make the same steps
/// or fail in the same way, they reach the same position, and the
/// positions are written out as the same line.
pub proof fn lemma_replay_deterministic(
    before: Position,
    moves: Seq<MoveView>,
    half_moves: usize,
    after1: Position,
    outcome1: Result<Seq<Step>, ReplayError>,
    after2: Position,
    outcome2: Result<Seq<Step>, ReplayError>,
)
    requires
        played(before, moves, half_moves, after1, outcome1),
        played(before, moves, half_moves, after2, outcome2),
    ensures
        outcome1 == outcome2,
        after1 == after2,
        fen(after1) == fen(after2),
{
}

/// A replay that succeeds makes one step for each half-move asked for, and
/// leaves a position of 64 squares if it started from one.
pub proof fn lemma_replay_steps(pos: Position, tokens: Seq<Seq<char>>, n: nat)
    requires
        pos.len() == 64,
        replay(pos, tokens, n) is Ok,
    ensures
        ({
            let (after, steps) = replay(pos, tokens, n)->Ok_0;
            after.len() == 64 && steps.len() == n
        }),
    decreases n,
{
    if n > 0 {
        lemma_replay_steps(pos, tokens, (n - 1) as nat);
        let (reached, steps) = replay(pos, tokens, (n - 1) as nat)->Ok_0;
        let m = decode(tokens[n - 1])->Ok_0;
        lemma_step_on_board(reached, m, side_to_move(n - 1));
    }
}

/// Whether a square holds a piece, as a number: 1 if it does.
pub open spec fn occupied(cell: Option<Piece>) -> nat {
    if cell is Some {
        1
    } else {
        0
    }
}

/// Changing one square changes the number of pieces by what the square
/// gains or loses.
pub proof fn lemma_count_update(pos: Position, i: int, cell: Option<Piece>)
    requires
        0 <= i < pos.len(),
    ensures
        piece_count(pos.update(i, cell)) + occupied(pos[i]) == piece_count(pos) + occupied(cell),
    decreases pos.len(),
{
    if i == pos.len() - 1 {
        assert(pos.update(i, cell).drop_last() =~= pos.drop_last());
    } else {
        assert(pos.update(i, cell).drop_last() =~= pos.drop_last().update(i, cell));
        lemma_count_update(pos.drop_last(), i, cell);
    }
}

/// Moving what stands on one square to another removes a piece exactly if
/// the square reached is another square and was occupied.
pub proof fn lemma_relocate_count(pos: Position, from: Coord, to: Coord)
    requires
        pos.len() == 64,
        on_board(from),
        on_board(to),
    ensures
        piece_count(relocate(pos, from, to)) + (if from != to {
            occupied(pos[slot(to)])
        } else {
            0
        }) == piece_count(pos),
{
    let lifted = pos.update(slot(from), None);
    lemma_count_update(pos, slot(from), None);
    lemma_count_update(lifted, slot(to), pos[slot(from)]);
}

/// What the search for the source of a piece move finds: the candidate
/// that comes first in the order of the search, with no candidate before
/// it; or nothing, if no square is a candidate.
pub proof fn lemma_first_candidate(
    pos: Position,
    typ: PieceType,
    color: Color,
    disc: Disambiguator,
    to: Coord,
    k: int,
)
    requires
        0 <= k <= 64,
    ensures
        match first_candidate(pos, typ, color, disc, to, k) {
            Some(j) => k <= j < 64 && candidate(pos, typ, color, disc, to, j) && forall|i: int|
                k <= i < j ==> !candidate(pos, typ, color, disc, to, i),
            None => forall|i: int| k <= i < 64 ==> !candidate(pos, typ, color, disc, to, i),
        },
    decreases 64 - k,
{
    if k < 64 && !candidate(pos, typ, color, disc, to, k) {
        lemma_first_candidate(pos, typ, color, disc, to, k + 1);
    }
}

/// A piece move obeys its disambiguator: the piece that moves comes from
/// the file, or from the rank, that the token names.  It is of the kind
/// and side asked for, and the shape of its move leads to the destination.
pub proof fn lemma_piece_move_source(
    pos: Position,
    typ: PieceType,
    color: Color,
    disc: Disambiguator,
    to: Coord,
)
    requires
        apply_move(pos, SanMove::Piece { typ, disc, to }, color) is Ok,
    ensures
        ({
            let (after, step) = apply_move(pos, SanMove::Piece { typ, disc, to }, color)->Ok_0;
            &&& on_board(step.0)
            &&& step.1 == to
            &&& pos[slot(step.0)] == Some(Piece { typ, color })
            &&& disc matches Disambiguator::File(c) ==> step.0.0 == c
            &&& disc matches Disambiguator::Rank(d) ==> step.0.1 + 1 == d
        }),
{
    lemma_first_candidate(pos, typ, color, disc, to, 0);
}

/// Every successful move leaves and reaches squares of the board, and the
/// position keeps its 64 squares.
pub proof fn lemma_step_on_board(pos: Position, m: SanMove, color: Color)
    requires
        pos.len() == 64,
        apply_move(pos, m, color) is Ok,
    ensures
        ({
            let (after, step) = apply_move(pos, m, color)->Ok_0;
            after.len() == 64 && on_board(step.0) && on_board(step.1)
        }),
{
    match m {
        SanMove::Piece { typ, disc, to } => {
            lemma_first_candidate(pos, typ, color, disc, to, 0);
        },
        _ => {},
    }
}

/// The square on which a castling puts the rook down.
pub open spec fn rook_arrival(m: SanMove, color: Color) -> Coord {
    match m {
        SanMove::LongCastle => ('d', home_rank(color)),
        _ => ('f', home_rank(color)),
    }
}

/// Whether a move is a castling.
pub open spec fn is_castle(m: SanMove) -> bool {
    m is ShortCastle || m is LongCastle
}

/// The number of pieces that a move removes from the board: one if the
/// square it reaches was occupied and is not the square it leaves, and for
/// a castling one more if the square where the rook arrives was occupied.
pub open spec fn displaced(pos: Position, m: SanMove, color: Color, step: Step) -> nat {
    (if step.0 != step.1 {
        occupied(pos[slot(step.1)])
    } else {
        0
    }) + (if is_castle(m) {
        occupied(pos[slot(rook_arrival(m, color))])
    } else {
        0
    })
}

/// A move removes from the board the pieces that stood where it puts a
/// piece down, and no other: the number of pieces goes down by their
/// number.
pub proof fn lemma_move_count(pos: Position, m: SanMove, color: Color)
    requires
        pos.len() == 64,
        apply_move(pos, m, color) is Ok,
    ensures
        ({
            let (after, step) = apply_move(pos, m, color)->Ok_0;
            piece_count(after) + displaced(pos, m, color, step) == piece_count(pos)
        }),
{
    let (after, step) = apply_move(pos, m, color)->Ok_0;
    lemma_step_on_board(pos, m, color);
    match m {
        SanMove::ShortCastle => {
            let r = home_rank(color);
            lemma_relocate_count(pos, ('e', r), ('g', r));
            lemma_relocate_count(relocate(pos, ('e', r), ('g', r)), ('h', r), ('f', r));
        },
        SanMove::LongCastle => {
            let r = home_rank(color);
            lemma_relocate_count(pos, ('e', r), ('c', r));
            lemma_relocate_count(relocate(pos, ('e', r), ('c', r)), ('a', r), ('d', r));
        },
        _ => {
            lemma_relocate_count(pos, step.0, step.1);
        },
    }
}

/// Pieces are conserved.  A token without the capture mark leaves the
/// number of pieces as it is, provided that the move puts no piece down
/// on an occupied square.  A token with the capture mark lowers the number
/// by exactly one, provided that the square reached was occupied and is not
/// the square left.
pub proof fn lemma_piece_conservation(pos: Position, token: Seq<char>, color: Color)
    requires
        pos.len() == 64,
        apply_token(pos, token, color) is Ok,
    ensures
        ({
            let (after, step) = apply_token(pos, token, color)->Ok_0;
            let m = decode(token)->Ok_0;
            &&& !has_capture_mark(token) && displaced(pos, m, color, step) == 0 ==> piece_count(
                after,
            ) == piece_count(pos)
            &&& has_capture_mark(token) && step.0 != step.1 && pos[slot(step.1)] is Some
                ==> piece_count(after) + 1 == piece_count(pos)
        }),
{
    let m = decode(token)->Ok_0;
    lemma_move_count(pos, m, color);
    if has_capture_mark(token) {
    }
}

/// A decoded token names squares of the board only.
pub proof fn lemma_decode_wf(token: Seq<char>)
    requires
        decode(token) is Ok,
    ensures
        (decode(token)->Ok_0).wf(),
{
}

/// Castling on the king's side moves what stands on the king's square, on
/// file `e` of the side's home rank, to file `g`, and then what stands in
/// the corner on file `h` to file `f`.  The squares on files `e` and `h`
/// are empty afterwards, and no other square changes.
pub proof fn lemma_short_castle(pos: Position, color: Color)
    requires
        pos.len() == 64,
    ensures
        ({
            let r = home_rank(color);
            let (after, step) = apply_token(pos, short_castle_token(), color)->Ok_0;
            &&& apply_token(pos, short_castle_token(), color) is Ok
            &&& step == (('e', r), ('g', r))
            &&& after[slot(('g', r))] == pos[slot(('e', r))]
            &&& after[slot(('f', r))] == pos[slot(('h', r))]
            &&& after[slot(('e', r))] is None
            &&& after[slot(('h', r))] is None
            &&& forall|i: int|
                0 <= i < 64 && i != slot(('e', r)) && i != slot(('f', r)) && i != slot(('g', r))
                    && i != slot(('h', r)) ==> after[i] == pos[i]
        }),
{
}

/// The other side.
pub open spec fn opponent(color: Color) -> Color {
    match color {
        Color::White => Color::Black,
        Color::Black => Color::White,
    }
}

/// The same square seen from the other side of the board: rank 1 becomes
/// rank 8, rank 2 becomes rank 7, and so on.
pub open spec fn mirror_square(sq: Coord) -> Coord {
    (sq.0, (7 - sq.1) as usize)
}

/// What a square holds after the sides have changed places.
pub open spec fn mirror_cell(cell: Option<Piece>) -> Option<Piece> {
    match cell {
        Some(p) => Some(Piece { typ: p.typ, color: opponent(p.color) }),
        None => None,
    }
}

/// Where the square stored at place `i` is stored once the ranks are
/// flipped.
pub open spec fn mirror_slot(i: int) -> int {
    (7 - i / 8) * 8 + i % 8
}

/// The mirror image of a position: the ranks are flipped and every piece
/// changes sides.
pub open spec fn mirror(pos: Position) -> Position {
    Seq::new(64, |i: int| mirror_cell(pos[mirror_slot(i)]))
}

/// Flipping the ranks twice leads back, and a square of the board is
/// stored after the flip where its mirror image is stored before.
proof fn lemma_mirror_slot(i: int)
    requires
        0 <= i < 64,
    ensures
        0 <= mirror_slot(i) < 64,
        mirror_slot(mirror_slot(i)) == i,
{
}

/// The mirror image of a square is stored where the flip sends the place
/// of the square.
proof fn lemma_mirror_square_slot(sq: Coord)
    requires
        on_board(sq),
    ensures
        on_board(mirror_square(sq)),
        0 <= slot(sq) < 64,
        slot(mirror_square(sq)) == mirror_slot(slot(sq)),
{
}

/// The mirror image of a pawn move or a castling.
pub open spec fn mirror_move(m: SanMove) -> SanMove {
    match m {
        SanMove::PawnAdvance { to } => SanMove::PawnAdvance { to: mirror_square(to) },
        SanMove::PawnCapture { file, to } => SanMove::PawnCapture { file, to: mirror_square(to) },
        _ => m,
    }
}

/// The mirror image of what a move does.
pub open spec fn mirror_outcome(outcome: Result<(Position, Step), MoveError>) -> Result<
    (Position, Step),
    MoveError,
> {
    match outcome {
        Ok((after, step)) => Ok((mirror(after), (mirror_square(step.0), mirror_square(step.1)))),
        Err(e) => Err(e),
    }
}

/// Moving a piece on the mirror image of a position gives the mirror image
/// of moving it on the position.
pub proof fn lemma_mirror_relocate(pos: Position, from: Coord, to: Coord)
    requires
        pos.len() == 64,
        on_board(from),
        on_board(to),
    ensures
        relocate(mirror(pos), mirror_square(from), mirror_square(to)) == mirror(
            relocate(pos, from, to),
        ),
{
    lemma_mirror_square_slot(from);
    lemma_mirror_square_slot(to);
    lemma_mirror_slot(slot(from));
    lemma_mirror_slot(slot(to));
    let left = relocate(mirror(pos), mirror_square(from), mirror_square(to));
    let right = mirror(relocate(pos, from, to));
    assert forall|i: int| 0 <= i < 64 implies left[i] == right[i] by {
        lemma_mirror_slot(i);
    }
}

/// The two sides move their pawns and castle as mirror images of each
/// other.  A pawn move or a castling made by one side on a position, and
/// its mirror image made by the other side on the mirror image of the
/// position, succeed or fail together; if they succeed, the squares left
/// and reached and the positions that result are mirror images too.  So
/// White's advance of two ranks from the second rank and Black's from the
/// seventh mirror each other.
pub proof fn lemma_mirror_symmetry(pos: Position, m: SanMove, color: Color)
    requires
        pos.len() == 64,
        m.wf(),
        !(m is Piece),
    ensures
        apply_move(mirror(pos), mirror_move(m), opponent(color)) == mirror_outcome(
            apply_move(pos, m, color),
        ),
{
    match m {
        SanMove::PawnAdvance { to } => {
            if pawn_behind(pos, color, to.0, to.1 as int, 1) {
                lemma_mirror_relocate(pos, square_behind(color, to.0, to.1 as int, 1), to);
            } else if pawn_behind(pos, color, to.0, to.1 as int, 2) {
                lemma_mirror_relocate(pos, square_behind(color, to.0, to.1 as int, 2), to);
            }
        },
        SanMove::PawnCapture { file, to } => {
            let r = to.1 - forward(color);
            if 0 <= r < 8 {
                lemma_mirror_relocate(pos, (file, r as usize), to);
            }
        },
        SanMove::ShortCastle => {
            let r = home_rank(color);
            lemma_mirror_relocate(pos, ('e', r), ('g', r));
            lemma_mirror_relocate(relocate(pos, ('e', r), ('g', r)), ('h', r), ('f', r));
        },
        SanMove::LongCastle => {
            let r = home_rank(color);
            lemma_mirror_relocate(pos, ('e', r), ('c', r));
            lemma_mirror_relocate(relocate(pos, ('e', r), ('c', r)), ('a', r), ('d', r));
        },
        _ => {},
    }
}

/// A pawn's advance of two ranks from its home rank is the same for both
/// sides up to the mirror image.  If a White pawn stands on the second
/// rank of a file and no White pawn on the third, the token that names the
/// fourth rank of the file moves that pawn from the second rank to the
/// fourth; and on the mirror image of the position the token that names
/// the fifth rank moves Black's pawn from the seventh rank to the fifth,
/// and leaves the mirror image of what White's move leaves.
pub proof fn lemma_double_advance_symmetry(pos: Position, file: char)
    requires
        pos.len() == 64,
        is_file(file),
        pos[slot((file, 1))] == Some(Piece { typ: PieceType::Pawn, color: Color::White }),
        pos[slot((file, 2))] != Some(Piece { typ: PieceType::Pawn, color: Color::White }),
    ensures
        apply_token(pos, seq![file, '4'], Color::White) == Ok::<(Position, Step), MoveError>(
            (relocate(pos, (file, 1), (file, 3)), ((file, 1), (file, 3))),
        ),
        apply_token(mirror(pos), seq![file, '5'], Color::Black) == Ok::<
            (Position, Step),
            MoveError,
        >((mirror(relocate(pos, (file, 1), (file, 3))), ((file, 6), (file, 4)))),
{
    let up = SanMove::PawnAdvance { to: (file, 3) };
    let down = SanMove::PawnAdvance { to: (file, 4) };
    lemma_mirror_symmetry(pos, up, Color::White);
}

/// Whether `w` can stand as a word of a transcript: it is not empty and
/// holds no white space.
pub open spec fn is_word(w: Seq<char>) -> bool {
    w.len() > 0 && forall|i: int| 0 <= i < w.len() ==> !is_space(#[trigger] w[i])
}

/// Whether both tokens of every turn can stand as words of a transcript.
pub open spec fn writable(moves: Seq<MoveView>) -> bool {
    forall|i: int|
        0 <= i < moves.len() ==> is_word((#[trigger] moves[i]).white) && is_word(moves[i].black)
}

/// The word that marks a turn: its number and a dot.
pub open spec fn turn_mark(m: MoveView) -> Seq<char> {
    decimal(m.turn as nat).push('.')
}

/// The words that the turns of a game are written with: for each turn its
/// mark and its two tokens.
pub open spec fn game_words(moves: Seq<MoveView>) -> Seq<Seq<char>> {
    Seq::new(
        3 * moves.len(),
        |i: int|
            if i % 3 == 0 {
                turn_mark(moves[i / 3])
            } else if i % 3 == 1 {
                moves[i / 3].white
            } else {
                moves[i / 3].black
            },
    )
}

/// A number written in decimal is made of digits, at least one, and
/// stands for itself.
pub proof fn lemma_decimal_reads_back(n: nat)
    ensures
        decimal(n).len() > 0,
        all_digits(decimal(n)),
        decimal_value(decimal(n)) == n,
    decreases n,
{
    if n >= 10 {
        lemma_decimal_reads_back(n / 10);
        assert(decimal(n).drop_last() =~= decimal(n / 10));
        assert(digit_value(decimal(n).last()) == n % 10);
    } else {
        assert(decimal(n).drop_last() =~= Seq::<char>::empty());
        assert(decimal_value(Seq::<char>::empty()) == 0);
        assert(digit_value(decimal(n).last()) == n);
    }
}

/// The mark of a turn is read back as the number of the turn.
pub proof fn lemma_turn_mark_reads_back(m: MoveView)
    ensures
        turn_number(turn_mark(m)) == Some(m.turn),
        is_word(turn_mark(m)),
{
    let digits = decimal(m.turn as nat);
    lemma_decimal_reads_back(m.turn as nat);
    assert(turn_mark(m).drop_last() =~= digits);
    assert(is_digit(digits.last()));
    assert(strip_dots(turn_mark(m)) == strip_dots(digits));
    assert(is_digit(digits[0]));
}

/// A word stops at the first white space.
proof fn lemma_word_len_stops(s: Seq<char>, k: int)
    requires
        0 <= k < s.len(),
        is_space(s[k]),
    ensures
        word_len(s) <= k,
    decreases s.len(),
{
    if k > 0 && !is_space(s[0]) {
        lemma_word_len_stops(s.skip(1), k - 1);
    }
}

/// A word that ends inside a text is the same word when more text follows.
proof fn lemma_word_len_prefix(x: Seq<char>, y: Seq<char>)
    requires
        word_len(x) < x.len(),
    ensures
        word_len(x + y) == word_len(x),
    decreases x.len(),
{
    if !is_space(x[0]) {
        assert((x + y).skip(1) =~= x.skip(1) + y);
        lemma_word_len_prefix(x.skip(1), y);
    }
}

/// The words of two texts written one after the other are the words of
/// the first and then the words of the second, if the first text is
/// empty or ends in white space.
pub proof fn lemma_words_concat(x: Seq<char>, y: Seq<char>)
    requires
        x.len() == 0 || is_space(x.last()),
    ensures
        words(x + y) == words(x) + words(y),
    decreases x.len(),
{
    if x.len() == 0 {
        assert(x + y =~= y);
        assert(words(x) + words(y) =~= words(y));
    } else if is_space(x[0]) {
        assert((x + y).skip(1) =~= x.skip(1) + y);
        lemma_words_concat(x.skip(1), y);
    } else {
        let n = word_len(x) as int;
        lemma_word_len_stops(x, x.len() - 1);
        lemma_word_len_prefix(x, y);
        assert((x + y).take(n) =~= x.take(n));
        assert((x + y).skip(n) =~= x.skip(n) + y);
        lemma_words_concat(x.skip(n), y);
        assert(words(x + y) =~= words(x) + words(y));
    }
}

/// A text that starts with a word and a blank has that word as its first
/// word, and the words of what follows the blank after it.
proof fn lemma_words_after_word(w: Seq<char>, rest: Seq<char>)
    requires
        is_word(w),
    ensures
        words(w + seq![' '] + rest) == seq![w] + words(rest),
{
    let s = w + seq![' '] + rest;
    lemma_word_len_stops(s, w.len() as int);
    lemma_word_len_of_word(w, seq![' '] + rest);
    assert(s =~= w + (seq![' '] + rest));
    assert(s.take(w.len() as int) =~= w);
    let tail = s.skip(w.len() as int);
    assert(tail =~= seq![' '] + rest);
    assert(tail.skip(1) =~= rest);
    assert(words(tail) == words(rest));
}

/// A stretch without white space in front of a text is part of the text's
/// first word.
proof fn lemma_word_len_of_word(w: Seq<char>, rest: Seq<char>)
    requires
        forall|i: int| 0 <= i < w.len() ==> !is_space(#[trigger] w[i]),
    ensures
        word_len(w + rest) == w.len() + word_len(rest),
    decreases w.len(),
{
    if w.len() == 0 {
        assert(w + rest =~= rest);
    } else {
        assert((w + rest).skip(1) =~= w.skip(1) + rest);
        lemma_word_len_of_word(w.skip(1), rest);
    }
}

/// A turn is written as three words: its mark and its two tokens.
proof fn lemma_turn_words(m: MoveView)
    requires
        is_word(m.white),
        is_word(m.black),
    ensures
        words(turn_text(m)) == seq![turn_mark(m), m.white, m.black],
        is_space(turn_text(m).last()),
{
    lemma_turn_mark_reads_back(m);
    let after_black = Seq::<char>::empty();
    let after_white = m.black + seq![' '] + after_black;
    let after_mark = m.white + seq![' '] + after_white;
    assert(turn_text(m) =~= turn_mark(m) + seq![' '] + after_mark);
    lemma_words_after_word(turn_mark(m), after_mark);
    lemma_words_after_word(m.white, after_white);
    lemma_words_after_word(m.black, after_black);
    assert(words(turn_text(m)) =~= seq![turn_mark(m), m.white, m.black]);
}

/// A game is written as the words of its turns, one turn after the
/// other.
pub proof fn lemma_game_words(moves: Seq<MoveView>)
    requires
        writable(moves),
    ensures
        words(game_text(moves)) == game_words(moves),
        moves.len() > 0 ==> is_space(game_text(moves).last()),
    decreases moves.len(),
{
    if moves.len() == 0 {
        assert(words(game_text(moves)) =~= game_words(moves));
    } else {
        let front = moves.drop_last();
        lemma_game_words(front);
        lemma_turn_words(moves.last());
        lemma_words_concat(game_text(front), turn_text(moves.last()));
        assert(words(game_text(moves)) =~= game_words(moves));
    }
}

/// Reading what was written gives the game back.  The moves of a game
/// whose tokens are words, written out after an empty line, are read as
/// the same turns with the same numbers and tokens.
pub proof fn lemma_written_game_reads_back(moves: Seq<MoveView>)
    requires
        writable(moves),
    ensures
        read_transcript(seq!['\n'] + game_text(moves)) == Ok::<Seq<MoveView>, ParseErrorKind>(
            moves,
        ),
{
    let text = seq!['\n'] + game_text(moves);
    assert(empty_line_at(text, 0));
    assert(text.skip(1) =~= game_text(moves));
    lemma_game_words(moves);
    let w = game_words(moves);
    assert forall|i: int| 0 <= i < w.len() / 3 implies (#[trigger] turn_number(w[3 * i]))
        == Some(moves[i].turn) by {
        lemma_turn_mark_reads_back(moves[i]);
    }
    assert(Seq::new(w.len() / 3, |i: int| turn_at(w, i)) =~= moves);
}

} // verus!
