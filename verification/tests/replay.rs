use chanki::board::{Board, Color, Piece, PieceType};
use chanki::error::{MoveError, ReplayError};
use chanki::pgn::Pgn;
use chanki::san::{Disambiguator, SanMove};

const START: &str = "rnbqkbnr/pppppppp/8/8/8/8/PPPPPPPP/RNBQKBNR w KQkq - 0 1";

fn piece(typ: PieceType, color: Color) -> Option<Piece> {
    Some(Piece { typ, color })
}

fn tok(s: &str) -> String {
    s.to_string()
}

#[test]
fn initial_position_is_written_out() {
    assert_eq!(Board::new().to_string(), START);
}

#[test]
fn empty_board_is_written_out() {
    assert_eq!(Board::empty().to_string(), "8/8/8/8/8/8/8/8 w KQkq - 0 1");
    assert_eq!(Board::empty().piece_count(), 0);
}

#[test]
fn initial_position_holds_the_pieces_on_their_squares() {
    let board = Board::new();
    assert_eq!(board.piece_count(), 32);
    assert_eq!(board.get(('a', 0)), piece(PieceType::Rook, Color::White));
    assert_eq!(board.get(('d', 0)), piece(PieceType::Queen, Color::White));
    assert_eq!(board.get(('e', 0)), piece(PieceType::King, Color::White));
    assert_eq!(board.get(('e', 7)), piece(PieceType::King, Color::Black));
    assert_eq!(board.get(('d', 7)), piece(PieceType::Queen, Color::Black));
    assert_eq!(board.get(('g', 7)), piece(PieceType::Knight, Color::Black));
    assert_eq!(board.get(('c', 1)), piece(PieceType::Pawn, Color::White));
    assert_eq!(board.get(('c', 6)), piece(PieceType::Pawn, Color::Black));
    assert_eq!(board.get(('c', 3)), None);
}

#[test]
fn set_and_get_agree() {
    let mut board = Board::empty();
    board.set(('b', 5), piece(PieceType::Bishop, Color::Black));
    assert_eq!(board.get(('b', 5)), piece(PieceType::Bishop, Color::Black));
    assert_eq!(board.to_string(), "8/8/1b6/8/8/8/8/8 w KQkq - 0 1");
    board.set(('b', 5), None);
    assert_eq!(board.get(('b', 5)), None);
    assert_eq!(board.piece_count(), 0);
}

#[test]
fn runs_of_empty_squares_are_counted_between_pieces() {
    let mut board = Board::empty();
    board.set(('a', 7), piece(PieceType::King, Color::Black));
    board.set(('h', 7), piece(PieceType::Rook, Color::Black));
    board.set(('c', 3), piece(PieceType::Queen, Color::White));
    board.set(('d', 3), piece(PieceType::Knight, Color::White));
    board.set(('h', 0), piece(PieceType::Pawn, Color::White));
    assert_eq!(board.to_string(), "k6r/8/8/8/2QN4/8/8/7P w KQkq - 0 1");
}

#[test]
fn opening_moves_give_the_expected_steps() {
    let mut board = Board::new();
    assert_eq!(board.mov(tok("e4"), Color::White), Ok((('e', 1), ('e', 3))));
    assert_eq!(board.mov(tok("e5"), Color::Black), Ok((('e', 6), ('e', 4))));
    assert_eq!(board.mov(tok("Nf3"), Color::White), Ok((('g', 0), ('f', 2))));
    assert_eq!(board.mov(tok("Nc6"), Color::Black), Ok((('b', 7), ('c', 5))));
    assert_eq!(
        board.to_string(),
        "r1bqkbnr/pppp1ppp/2n5/4p3/4P3/5N2/PPPP1PPP/RNBQKB1R w KQkq - 0 1"
    );
}

#[test]
fn end_to_end_scenario() {
    let pgn = Pgn::from_str("[Event \"?\"]\n\n1. e4 e5 2. Nf3 Nc6").unwrap();
    let mut board = Board::new();
    let steps = board.play(&pgn, 4).unwrap();
    assert_eq!(
        steps,
        vec![
            (('e', 1), ('e', 3)),
            (('e', 6), ('e', 4)),
            (('g', 0), ('f', 2)),
            (('b', 7), ('c', 5)),
        ]
    );
    assert_eq!(
        board.to_string(),
        "r1bqkbnr/pppp1ppp/2n5/4p3/4P3/5N2/PPPP1PPP/RNBQKB1R w KQkq - 0 1"
    );
    assert_eq!(board.get(('f', 2)), piece(PieceType::Knight, Color::White));
    assert_eq!(board.get(('c', 5)), piece(PieceType::Knight, Color::Black));
    assert_eq!(board.get(('e', 3)), piece(PieceType::Pawn, Color::White));
    assert_eq!(board.get(('e', 4)), piece(PieceType::Pawn, Color::Black));
    assert_eq!(board.piece_count(), 32);
}

#[test]
fn mov() {
    let text = "[Event \"Endgame\"]\n[Result \"*\"]\n\n\
        1. h4 a5 2. g4 h6 3. f4 d5 4. f5 d4 5. f6 d3 6. Nc3 dxc2 7. Qxd8+ Kxd8\n\
        8. Nb5 Rxa2 9. Nxc7 Rxb2 10. Ne6+ Ke8 11. Nxf8 Rxd2 12. Bxd2 Kxf8\n\
        13. Bg2 Ba6 14. Bxb7 Bxe2 15. Nxe2 Nc6 16. Bxc6 e5 17. Bc3 Ke7\n\
        18. Bxe5 Ke6 19. Rh3 Kxe5 20. Nf4 Rh7 21. Nh5 Ke6 22. Nxg7+ Rxg7\n\
        23. Be8 Kd6 24. Bxf7 Rxf7 25. Rg3 Rf8 26. Rxg8 Rxg8 27. Ra6+ Kd5\n\
        28. Rc6 Rg3 29. Ke2 Ra3 30. Kd2 Ke5\n";
    let pgn = Pgn::from_str(text).unwrap();
    let mut board = Board::new();
    board.play(&pgn, 2 * pgn.moves.len()).unwrap();
    assert_eq!(
        board.to_string(),
        "8/8/2R2P1p/p3k3/6PP/r7/2pK4/8 w KQkq - 0 1"
    );
}

#[test]
fn disambiguator_scenario() {
    let mut board = Board::empty();
    board.set(('a', 0), piece(PieceType::Rook, Color::White));
    board.set(('h', 0), piece(PieceType::Rook, Color::White));
    assert_eq!(board.mov(tok("Rae1"), Color::White), Ok((('a', 0), ('e', 0))));
    assert_eq!(board.get(('h', 0)), piece(PieceType::Rook, Color::White));
    assert_eq!(board.get(('e', 0)), piece(PieceType::Rook, Color::White));
    assert_eq!(board.get(('a', 0)), None);
}

#[test]
fn file_disambiguator_can_pass_over_the_first_match() {
    let mut board = Board::empty();
    board.set(('a', 0), piece(PieceType::Rook, Color::White));
    board.set(('h', 0), piece(PieceType::Rook, Color::White));
    assert_eq!(board.mov(tok("Rhe1"), Color::White), Ok((('h', 0), ('e', 0))));
    assert_eq!(board.get(('a', 0)), piece(PieceType::Rook, Color::White));
    assert_eq!(board.get(('h', 0)), None);
}

#[test]
fn rank_disambiguator_selects_the_piece_on_its_rank() {
    let mut board = Board::empty();
    board.set(('a', 0), piece(PieceType::Rook, Color::White));
    board.set(('a', 4), piece(PieceType::Rook, Color::White));
    assert_eq!(board.mov(tok("R5a3"), Color::White), Ok((('a', 4), ('a', 2))));
    assert_eq!(board.get(('a', 0)), piece(PieceType::Rook, Color::White));
    let mut board = Board::empty();
    board.set(('a', 0), piece(PieceType::Rook, Color::White));
    board.set(('a', 4), piece(PieceType::Rook, Color::White));
    assert_eq!(board.mov(tok("Ra3"), Color::White), Ok((('a', 0), ('a', 2))));
}

#[test]
fn rank_digits_off_the_board_fit_no_piece() {
    let mut board = Board::new();
    assert_eq!(board.mov(tok("N0f3"), Color::White), Err(MoveError::UnresolvedMove));
    assert_eq!(board.mov(tok("N9f3"), Color::White), Err(MoveError::UnresolvedMove));
    assert_eq!(board.mov(tok("N1f3"), Color::White), Ok((('g', 0), ('f', 2))));
}

#[test]
fn a_mark_that_is_neither_letter_nor_number_restricts_nothing() {
    let mut board = Board::empty();
    board.set(('a', 0), piece(PieceType::Rook, Color::White));
    board.set(('h', 0), piece(PieceType::Rook, Color::White));
    assert_eq!(board.mov(tok("R-e1"), Color::White), Ok((('a', 0), ('e', 0))));
}

#[test]
fn letters_and_numbers_beyond_ascii_are_told_apart() {
    let mut board = Board::empty();
    board.set(('a', 0), piece(PieceType::Rook, Color::White));
    assert_eq!(board.mov(tok("R\u{e9}e1"), Color::White), Err(MoveError::UnresolvedMove));
    assert_eq!(board.mov(tok("R\u{b2}e1"), Color::White), Err(MoveError::InvalidDigit));
    assert_eq!(board.mov(tok("R\u{20ac}e1"), Color::White), Ok((('a', 0), ('e', 0))));
    let mut board = Board::empty();
    board.set(('a', 0), piece(PieceType::Rook, Color::White));
    assert_eq!(board.mov(tok("Ra\u{e9}"), Color::White), Err(MoveError::MalformedToken));
    assert_eq!(board.mov(tok("Ra\u{e9}1"), Color::White), Err(MoveError::OutOfRange));
}

#[test]
fn first_candidate_in_scan_order_moves() {
    let mut board = Board::empty();
    board.set(('d', 1), piece(PieceType::Knight, Color::White));
    board.set(('g', 0), piece(PieceType::Knight, Color::White));
    assert_eq!(board.mov(tok("Nf3"), Color::White), Ok((('g', 0), ('f', 2))));
    let mut board = Board::empty();
    board.set(('h', 3), piece(PieceType::Knight, Color::White));
    board.set(('d', 3), piece(PieceType::Knight, Color::White));
    assert_eq!(board.mov(tok("Nf3"), Color::White), Ok((('d', 3), ('f', 2))));
}

#[test]
fn pieces_in_between_do_not_block() {
    let mut board = Board::new();
    assert_eq!(board.mov(tok("Ra5"), Color::White), Ok((('a', 0), ('a', 4))));
    assert_eq!(board.mov(tok("Qxd1"), Color::Black), Ok((('d', 7), ('d', 0))));
    assert_eq!(board.piece_count(), 31);
}

#[test]
fn the_other_side_and_other_kinds_are_passed_over() {
    let mut board = Board::empty();
    board.set(('a', 0), piece(PieceType::Rook, Color::Black));
    board.set(('b', 0), piece(PieceType::Queen, Color::White));
    board.set(('h', 0), piece(PieceType::Rook, Color::White));
    assert_eq!(board.mov(tok("Re1"), Color::White), Ok((('h', 0), ('e', 0))));
}

#[test]
fn capture_mark_is_read_after_the_piece_letter() {
    let mut board = Board::new();
    assert_eq!(board.mov(tok("Nxc3"), Color::White), Ok((('b', 0), ('c', 2))));
    assert_eq!(board.mov(tok("Ncxe7"), Color::White), Err(MoveError::InvalidDigit));
}

#[test]
fn what_follows_the_destination_is_not_read() {
    let mut board = Board::new();
    assert_eq!(board.mov(tok("Nf3+"), Color::White), Ok((('g', 0), ('f', 2))));
    assert_eq!(board.mov(tok("e5!?"), Color::Black), Ok((('e', 6), ('e', 4))));
    let mut board = Board::empty();
    board.set(('e', 6), piece(PieceType::Pawn, Color::White));
    assert_eq!(board.mov(tok("e8=Q"), Color::White), Ok((('e', 6), ('e', 7))));
    assert_eq!(board.get(('e', 7)), piece(PieceType::Pawn, Color::White));
}

#[test]
fn short_castle_on_the_initial_position() {
    let mut board = Board::new();
    assert_eq!(board.mov(tok("O-O"), Color::White), Ok((('e', 0), ('g', 0))));
    assert_eq!(board.get(('g', 0)), piece(PieceType::King, Color::White));
    assert_eq!(board.get(('f', 0)), piece(PieceType::Rook, Color::White));
    assert_eq!(board.get(('e', 0)), None);
    assert_eq!(board.get(('h', 0)), None);
    assert_eq!(board.mov(tok("O-O"), Color::Black), Ok((('e', 7), ('g', 7))));
    assert_eq!(board.get(('g', 7)), piece(PieceType::King, Color::Black));
    assert_eq!(board.get(('f', 7)), piece(PieceType::Rook, Color::Black));
    assert_eq!(board.get(('e', 7)), None);
    assert_eq!(board.get(('h', 7)), None);
    assert_eq!(
        board.to_string(),
        "rnbq1rk1/pppppppp/8/8/8/8/PPPPPPPP/RNBQ1RK1 w KQkq - 0 1"
    );
}

#[test]
fn long_castle_on_the_initial_position() {
    let mut board = Board::new();
    assert_eq!(board.mov(tok("O-O-O"), Color::White), Ok((('e', 0), ('c', 0))));
    assert_eq!(board.mov(tok("O-O-O"), Color::Black), Ok((('e', 7), ('c', 7))));
    assert_eq!(
        board.to_string(),
        "1nkr1bnr/pppppppp/8/8/8/8/PPPPPPPP/1NKR1BNR w KQkq - 0 1"
    );
}

#[test]
fn castling_asks_nothing_of_the_squares() {
    let mut board = Board::empty();
    assert_eq!(board.mov(tok("O-O"), Color::White), Ok((('e', 0), ('g', 0))));
    assert_eq!(board.to_string(), "8/8/8/8/8/8/8/8 w KQkq - 0 1");
}

#[test]
fn pawn_advances_one_rank_before_two() {
    let mut board = Board::empty();
    board.set(('e', 1), piece(PieceType::Pawn, Color::White));
    board.set(('e', 2), piece(PieceType::Pawn, Color::White));
    assert_eq!(board.mov(tok("e4"), Color::White), Ok((('e', 2), ('e', 3))));
    assert_eq!(board.mov(tok("e3"), Color::White), Ok((('e', 1), ('e', 2))));
}

#[test]
fn pawn_advance_looks_for_a_pawn_of_the_side_to_move() {
    let mut board = Board::empty();
    board.set(('e', 2), piece(PieceType::Pawn, Color::Black));
    board.set(('e', 1), piece(PieceType::Pawn, Color::White));
    assert_eq!(board.mov(tok("e4"), Color::White), Ok((('e', 1), ('e', 3))));
    let mut board = Board::empty();
    board.set(('e', 2), piece(PieceType::Knight, Color::White));
    assert_eq!(board.mov(tok("e4"), Color::White), Err(MoveError::UnresolvedMove));
    let mut board = Board::empty();
    board.set(('e', 5), piece(PieceType::Pawn, Color::White));
    assert_eq!(board.mov(tok("e5"), Color::Black), Err(MoveError::UnresolvedMove));
}

#[test]
fn pawn_captures_come_from_one_rank_behind() {
    let mut board = Board::new();
    board.mov(tok("e4"), Color::White).unwrap();
    board.mov(tok("d5"), Color::Black).unwrap();
    assert_eq!(board.mov(tok("exd5"), Color::White), Ok((('e', 3), ('d', 4))));
    assert_eq!(board.piece_count(), 31);
    assert_eq!(board.get(('d', 4)), piece(PieceType::Pawn, Color::White));
    board.mov(tok("c6"), Color::Black).unwrap();
    board.mov(tok("a3"), Color::White).unwrap();
    assert_eq!(board.mov(tok("cxd5"), Color::Black), Ok((('c', 5), ('d', 4))));
    assert_eq!(board.get(('d', 4)), piece(PieceType::Pawn, Color::Black));
    assert_eq!(board.piece_count(), 30);
}

#[test]
fn pawn_capture_moves_whatever_stands_behind() {
    let mut board = Board::empty();
    board.set(('d', 4), piece(PieceType::Queen, Color::Black));
    assert_eq!(board.mov(tok("exd5"), Color::White), Ok((('e', 3), ('d', 4))));
    assert_eq!(board.get(('d', 4)), None);
    assert_eq!(board.piece_count(), 0);
}

#[test]
fn every_error_has_an_input() {
    let mut board = Board::new();
    assert_eq!(board.mov(tok(""), Color::White), Err(MoveError::MalformedToken));
    assert_eq!(board.mov(tok("N"), Color::White), Err(MoveError::MalformedToken));
    assert_eq!(board.mov(tok("Nx"), Color::White), Err(MoveError::MalformedToken));
    assert_eq!(board.mov(tok("Nf"), Color::White), Err(MoveError::MalformedToken));
    assert_eq!(board.mov(tok("e"), Color::White), Err(MoveError::MalformedToken));
    assert_eq!(board.mov(tok("exd"), Color::White), Err(MoveError::MalformedToken));
    assert_eq!(board.mov(tok("Xe4"), Color::White), Err(MoveError::UnrecognizedPieceLetter));
    assert_eq!(board.mov(tok("Pe4"), Color::White), Err(MoveError::UnrecognizedPieceLetter));
    assert_eq!(board.mov(tok("1-0"), Color::White), Err(MoveError::UnrecognizedPieceLetter));
    assert_eq!(board.mov(tok("O-O+"), Color::White), Err(MoveError::UnrecognizedPieceLetter));
    assert_eq!(board.mov(tok("ex"), Color::White), Err(MoveError::MalformedToken));
    assert_eq!(board.mov(tok("e-"), Color::White), Err(MoveError::InvalidDigit));
    assert_eq!(board.mov(tok("Nf*"), Color::White), Err(MoveError::InvalidDigit));
    assert_eq!(board.mov(tok("exd*"), Color::White), Err(MoveError::InvalidDigit));
    assert_eq!(board.mov(tok("e9"), Color::White), Err(MoveError::OutOfRange));
    assert_eq!(board.mov(tok("e0"), Color::White), Err(MoveError::OutOfRange));
    assert_eq!(board.mov(tok("N-3"), Color::White), Err(MoveError::OutOfRange));
    assert_eq!(board.mov(tok("Nf9"), Color::White), Err(MoveError::OutOfRange));
    assert_eq!(board.mov(tok("exi5"), Color::White), Err(MoveError::OutOfRange));
    assert_eq!(board.mov(tok("exd1"), Color::White), Err(MoveError::OutOfRange));
    assert_eq!(board.mov(tok("exd8"), Color::Black), Err(MoveError::OutOfRange));
    assert_eq!(board.mov(tok("e5"), Color::White), Err(MoveError::UnresolvedMove));
    assert_eq!(board.mov(tok("e1"), Color::White), Err(MoveError::UnresolvedMove));
    assert_eq!(board.mov(tok("Qe4"), Color::White), Err(MoveError::UnresolvedMove));
    assert_eq!(board.mov(tok("Ne4"), Color::White), Err(MoveError::UnresolvedMove));
    assert_eq!(board.to_string(), START);
}

#[test]
fn errors_describe_themselves() {
    assert_eq!(MoveError::MalformedToken.to_string(), "move token ends too early");
    assert_eq!(MoveError::UnrecognizedPieceLetter.to_string(), "unrecognized piece letter");
    assert_eq!(MoveError::InvalidDigit.to_string(), "expected a decimal digit");
    assert_eq!(MoveError::OutOfRange.to_string(), "square outside the board");
    assert_eq!(MoveError::UnresolvedMove.to_string(), "no piece can make this move");
}

#[test]
fn a_bishop_may_stay_where_it_is() {
    let mut board = Board::empty();
    board.set(('d', 2), piece(PieceType::Bishop, Color::White));
    assert_eq!(board.mov(tok("Bd3"), Color::White), Ok((('d', 2), ('d', 2))));
    assert_eq!(board.get(('d', 2)), piece(PieceType::Bishop, Color::White));
    assert_eq!(board.piece_count(), 1);
}

#[test]
fn play_stops_after_the_half_moves_asked_for() {
    let pgn = Pgn::from_str("\n1. e4 e5 2. Nf3 Nc6").unwrap();
    let mut board = Board::new();
    let steps = board.play(&pgn, 3).unwrap();
    assert_eq!(steps.len(), 3);
    assert_eq!(steps[2], (('g', 0), ('f', 2)));
    assert_eq!(
        board.to_string(),
        "rnbqkbnr/pppp1ppp/8/4p3/4P3/5N2/PPPP1PPP/RNBQKB1R w KQkq - 0 1"
    );
    let mut board = Board::new();
    assert_eq!(board.play(&pgn, 0), Ok(vec![]));
    assert_eq!(board.to_string(), START);
}

#[test]
fn play_stops_at_the_end_of_the_game() {
    let pgn = Pgn::from_str("\n1. e4 e5 2. Nf3 Nc6").unwrap();
    let mut board = Board::new();
    let steps = board.play(&pgn, 100).unwrap();
    assert_eq!(steps.len(), 4);
    let mut board = Board::new();
    let steps = board.play(&pgn, usize::MAX).unwrap();
    assert_eq!(steps.len(), 4);
}

#[test]
fn a_failed_replay_keeps_nothing() {
    let pgn = Pgn::from_str("\n1. e4 e5 2. Nf3 Nc5 3. d4 d5").unwrap();
    let mut board = Board::new();
    assert_eq!(
        board.play(&pgn, 6),
        Err(ReplayError { half_move: 3, error: MoveError::UnresolvedMove })
    );
    assert_eq!(board.to_string(), START);
    assert_eq!(board.play(&pgn, 3).map(|steps| steps.len()), Ok(3));
}

#[test]
fn shapes_of_the_moves() {
    let king = Piece { typ: PieceType::King, color: Color::White };
    assert!(king.can_move(('e', 0), ('e', 1)));
    assert!(king.can_move(('e', 0), ('d', 0)));
    assert!(king.can_move(('e', 0), ('f', 1)));
    assert!(!king.can_move(('e', 0), ('e', 0)));
    assert!(!king.can_move(('e', 0), ('g', 0)));
    let queen = Piece { typ: PieceType::Queen, color: Color::Black };
    assert!(queen.can_move(('d', 0), ('d', 7)));
    assert!(queen.can_move(('d', 0), ('h', 4)));
    assert!(queen.can_move(('d', 0), ('a', 0)));
    assert!(queen.can_move(('d', 0), ('d', 0)));
    assert!(!queen.can_move(('d', 0), ('e', 2)));
    let rook = Piece { typ: PieceType::Rook, color: Color::White };
    assert!(rook.can_move(('a', 0), ('a', 7)));
    assert!(rook.can_move(('a', 0), ('h', 0)));
    assert!(!rook.can_move(('a', 0), ('a', 0)));
    assert!(!rook.can_move(('a', 0), ('b', 1)));
    let bishop = Piece { typ: PieceType::Bishop, color: Color::White };
    assert!(bishop.can_move(('c', 0), ('h', 5)));
    assert!(bishop.can_move(('c', 0), ('c', 0)));
    assert!(!bishop.can_move(('c', 0), ('c', 1)));
    let knight = Piece { typ: PieceType::Knight, color: Color::White };
    assert!(knight.can_move(('g', 0), ('f', 2)));
    assert!(knight.can_move(('g', 0), ('e', 1)));
    assert!(!knight.can_move(('g', 0), ('g', 2)));
    let pawn = Piece { typ: PieceType::Pawn, color: Color::White };
    assert!(pawn.can_move(('e', 1), ('d', 1)));
    assert!(pawn.can_move(('e', 1), ('c', 1)));
    assert!(pawn.can_move(('e', 1), ('d', 2)));
    assert!(!pawn.can_move(('e', 1), ('e', 2)));
    assert!(rook.can_move(('a', 0), ('a', 1000)));
    assert!(rook.can_move(('\u{e9}', 3), ('a', 3)));
}

#[test]
fn piece_letters() {
    assert_eq!(PieceType::from('R'), Ok(PieceType::Rook));
    assert_eq!(PieceType::from('N'), Ok(PieceType::Knight));
    assert_eq!(PieceType::from('B'), Ok(PieceType::Bishop));
    assert_eq!(PieceType::from('Q'), Ok(PieceType::Queen));
    assert_eq!(PieceType::from('K'), Ok(PieceType::King));
    assert_eq!(PieceType::from('P'), Err(MoveError::UnrecognizedPieceLetter));
    assert_eq!(PieceType::from('k'), Err(MoveError::UnrecognizedPieceLetter));
}

#[test]
fn diagram_marks_the_last_step() {
    let mut board = Board::new();
    let step = board.mov(tok("e4"), Color::White).unwrap();
    assert_eq!(
        board.to_latex(step),
        "\n\\documentclass{standalone}\n\\usepackage{xskak}\n\\begin{document}\n\
         \\newchessgame[setfen=rnbqkbnr/pppppppp/8/8/4P3/8/PPPP1PPP/RNBQKBNR w KQkq - 0 1]\n\
         \\chessboard[showmover=false, pgfstyle=straightmove, markmoves={e2-e4}]\n\
         \\end{document}\n"
    );
}

#[test]
fn decoded_moves_are_made() {
    let mut board = Board::new();
    let knight = SanMove::Piece {
        typ: PieceType::Knight,
        disc: Disambiguator::File('g'),
        to: ('f', 2),
    };
    assert_eq!(board.make(knight, Color::White), Ok((('g', 0), ('f', 2))));
    assert_eq!(board.make(knight, Color::Black), Err(MoveError::UnresolvedMove));
    assert_eq!(
        board.make(SanMove::PawnAdvance { to: ('d', 4) }, Color::Black),
        Ok((('d', 6), ('d', 4)))
    );
    assert_eq!(
        board.make(SanMove::PawnCapture { file: 'e', to: ('d', 4) }, Color::White),
        Ok((('e', 3), ('d', 4)))
    );
    assert_eq!(board.make(SanMove::LongCastle, Color::Black), Ok((('e', 7), ('c', 7))));
    assert_eq!(
        board.to_string(),
        "1nkr1bnr/ppp1pppp/8/8/8/5N2/PPPPPPPP/RNBQKB1R w KQkq - 0 1"
    );
}

#[test]
fn moves_off_the_board_are_out_of_range() {
    let mut board = Board::new();
    assert_eq!(
        board.make(SanMove::PawnAdvance { to: ('e', 8) }, Color::White),
        Err(MoveError::OutOfRange)
    );
    assert_eq!(
        board.make(SanMove::PawnCapture { file: 'z', to: ('e', 3) }, Color::White),
        Err(MoveError::OutOfRange)
    );
    assert_eq!(
        board.make(
            SanMove::Piece { typ: PieceType::Rook, disc: Disambiguator::Unrestricted, to: ('a', 9) },
            Color::White
        ),
        Err(MoveError::OutOfRange)
    );
    assert_eq!(board.to_string(), START);
}
