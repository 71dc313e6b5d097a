use chanki::board::Board;
use chanki::pgn::{Move, ParseError, Pgn};
use chanki::transcript::ParseErrorKind;

fn kind(text: &str) -> Option<ParseErrorKind> {
    Pgn::from_str(text).err().map(|e| e.kind)
}

fn turns(text: &str) -> Vec<(usize, String, String)> {
    Pgn::from_str(text)
        .unwrap()
        .moves
        .into_iter()
        .map(|m| (m.turn, m.white, m.black))
        .collect()
}

fn turn(n: usize, white: &str, black: &str) -> (usize, String, String) {
    (n, white.to_string(), black.to_string())
}

#[test]
fn malformed_input_scenario() {
    let board = Board::new();
    let before = board.to_string();
    assert_eq!(
        Pgn::from_str("[Event \"?\"]\n1. e4 e5 2. Nf3 Nc6").err(),
        Some(ParseError { kind: ParseErrorKind::MalformedTranscript })
    );
    assert_eq!(kind("1. e4 e5"), Some(ParseErrorKind::MalformedTranscript));
    assert_eq!(kind(""), Some(ParseErrorKind::MalformedTranscript));
    assert_eq!(kind("1. e4 e5\n"), Some(ParseErrorKind::MalformedTranscript));
    assert_eq!(kind("a\n \nb"), Some(ParseErrorKind::MalformedTranscript));
    assert_eq!(kind("a\n\r"), Some(ParseErrorKind::MalformedTranscript));
    assert_eq!(kind("a\r\r\n"), Some(ParseErrorKind::MalformedTranscript));
    assert_eq!(board.to_string(), before);
}

#[test]
fn moves_follow_the_first_empty_line() {
    assert_eq!(
        turns("[Event \"?\"]\n[Site \"?\"]\n\n1. e4 e5 2. Nf3 Nc6\n"),
        vec![turn(1, "e4", "e5"), turn(2, "Nf3", "Nc6")]
    );
    assert_eq!(turns("\n1. e4 e5"), vec![turn(1, "e4", "e5")]);
    assert_eq!(turns("header\n\n"), vec![]);
    assert_eq!(turns("\n"), vec![]);
    assert_eq!(turns("header\n\n1. d4\nd5\n\n2. c4\n\n\ne6\n"), vec![turn(1, "d4", "d5"), turn(2, "c4", "e6")]);
}

#[test]
fn carriage_returns_end_lines_too() {
    assert_eq!(
        turns("[Event \"?\"]\r\n\r\n1. e4 e5\r\n2. Nf3 Nc6\r\n"),
        vec![turn(1, "e4", "e5"), turn(2, "Nf3", "Nc6")]
    );
    assert_eq!(turns("\r\n1. e4 e5"), vec![turn(1, "e4", "e5")]);
}

#[test]
fn words_are_cut_at_white_space() {
    assert_eq!(
        turns("\n \t1.\te4\u{c}e5  \r 2.   Nf3\n\nNc6 \t"),
        vec![turn(1, "e4", "e5"), turn(2, "Nf3", "Nc6")]
    );
    assert_eq!(
        turns("\n1. e4\u{a0}e5 d5 2. \u{e9} \u{2003}"),
        vec![turn(1, "e4\u{a0}e5", "d5"), turn(2, "\u{e9}", "\u{2003}")]
    );
}

#[test]
fn words_must_come_in_threes() {
    assert_eq!(kind("\n1. e4"), Some(ParseErrorKind::TokenCountMismatch));
    assert_eq!(kind("\n1."), Some(ParseErrorKind::TokenCountMismatch));
    assert_eq!(kind("\n1. e4 e5 2. Nf3"), Some(ParseErrorKind::TokenCountMismatch));
    assert_eq!(kind("\n1. e4 e5 1-0"), Some(ParseErrorKind::TokenCountMismatch));
    assert_eq!(kind("\nx. e4 e5 1-0"), Some(ParseErrorKind::TokenCountMismatch));
}

#[test]
fn turn_numbers_must_be_numbers() {
    assert_eq!(kind("\nx. e4 e5"), Some(ParseErrorKind::InvalidTurnNumber));
    assert_eq!(kind("\n. e4 e5"), Some(ParseErrorKind::InvalidTurnNumber));
    assert_eq!(kind("\n1. e4 e5 2a. Nf3 Nc6"), Some(ParseErrorKind::InvalidTurnNumber));
    assert_eq!(kind("\n-1. e4 e5"), Some(ParseErrorKind::InvalidTurnNumber));
    assert_eq!(kind("\n+. e4 e5"), Some(ParseErrorKind::InvalidTurnNumber));
    assert_eq!(kind("\n1.5 e4 e5"), Some(ParseErrorKind::InvalidTurnNumber));
    assert_eq!(kind("\n\u{661}. e4 e5"), Some(ParseErrorKind::InvalidTurnNumber));
    assert_eq!(
        kind("\n99999999999999999999999999999999999999999. e4 e5"),
        Some(ParseErrorKind::InvalidTurnNumber)
    );
}

#[test]
fn turn_numbers_are_read_in_decimal() {
    assert_eq!(turns("\n12. e4 e5"), vec![turn(12, "e4", "e5")]);
    assert_eq!(turns("\n7 e4 e5"), vec![turn(7, "e4", "e5")]);
    assert_eq!(turns("\n3... e4 e5"), vec![turn(3, "e4", "e5")]);
    assert_eq!(turns("\n+4. e4 e5"), vec![turn(4, "e4", "e5")]);
    assert_eq!(turns("\n007. e4 e5"), vec![turn(7, "e4", "e5")]);
    assert_eq!(turns("\n0. e4 e5"), vec![turn(0, "e4", "e5")]);
    let most = format!("\n{}. e4 e5", usize::MAX);
    assert_eq!(turns(&most), vec![turn(usize::MAX, "e4", "e5")]);
    let more = format!("\n{}0. e4 e5", usize::MAX);
    assert_eq!(kind(&more), Some(ParseErrorKind::InvalidTurnNumber));
    let next = format!("\n{}. e4 e5", usize::MAX as u128 + 1);
    assert_eq!(kind(&next), Some(ParseErrorKind::InvalidTurnNumber));
}

#[test]
fn a_game_is_written_turn_by_turn() {
    let pgn = Pgn::from_str("\n1. e4 e5 2. Nf3 Nc6 10. O-O O-O-O").unwrap();
    assert_eq!(pgn.to_string(), "1. e4 e5 2. Nf3 Nc6 10. O-O O-O-O ");
    assert_eq!(Pgn { moves: vec![] }.to_string(), "");
}

#[test]
fn reading_what_was_written_gives_the_game_back() {
    let pgn = Pgn::from_str("\n1. e4 e5 2. Nf3 Nc6 345. Qxd8+ Kxd8").unwrap();
    let text = format!("\n{}", pgn.to_string());
    assert_eq!(
        turns(&text),
        vec![turn(1, "e4", "e5"), turn(2, "Nf3", "Nc6"), turn(345, "Qxd8+", "Kxd8")]
    );
}

#[test]
fn a_game_is_typeset() {
    let pgn = Pgn { moves: vec![Move::new(1, "e4".to_string(), "e5".to_string())] };
    assert_eq!(
        pgn.to_latex(),
        "\n\\documentclass{standalone}\n\\usepackage{xskak}\n\\begin{document}\n\\newchessgame\n\
         \\hidemoves{1. e4 e5 }\n\
         \\chessboard[showmover=false, pgfstyle=straightmove, markmoves={a1-c3}]\n\
         \\end{document}\n"
    );
}

#[test]
fn a_turn_keeps_its_parts() {
    let m = Move::new(17, "Rae8".to_string(), "O-O".to_string());
    assert_eq!(m.turn, 17);
    assert_eq!(m.white, "Rae8");
    assert_eq!(m.black, "O-O");
}

#[test]
fn parse_errors_describe_themselves() {
    assert_eq!(
        ParseError { kind: ParseErrorKind::MalformedTranscript }.to_string(),
        "no empty line before the moves"
    );
    assert_eq!(
        ParseError { kind: ParseErrorKind::TokenCountMismatch }.to_string(),
        "the moves do not come in threes"
    );
    assert_eq!(
        ParseError { kind: ParseErrorKind::InvalidTurnNumber }.to_string(),
        "a turn number is not a number"
    );
}
