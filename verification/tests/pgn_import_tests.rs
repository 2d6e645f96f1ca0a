use std::str::FromStr;

use chess::Board;
use chess_material_studio::pgn_import::{parse_pgn, ImportedGame};

fn parse_one(pgn: &str) -> ImportedGame {
    let mut games = parse_pgn(pgn).expect("valid PGN must parse");
    assert_eq!(games.len(), 1);
    games.remove(0)
}

#[test]
fn parses_a_normal_game_with_headers_and_positions() {
    let game = parse_one(
        r#"[Event "Demo"]
[Site "Madrid"]
[Date "2026.09.18"]
[Round "1"]
[White "White"]
[Black "Black"]
[Result "1/2-1/2"]

1. e4 e5 2. Nf3 Nc6 1/2-1/2"#,
    );

    assert_eq!(game.headers.event.as_deref(), Some("Demo"));
    assert_eq!(game.headers.site.as_deref(), Some("Madrid"));
    assert_eq!(game.headers.result.as_deref(), Some("1/2-1/2"));
    assert_eq!(game.moves.len(), 4);
    assert_eq!(game.positions.len(), 5);
    assert_eq!(game.positions[0], Board::default().to_string());
    assert_eq!(game.positions[4], "r1bqkbnr/pppp1ppp/2n5/4p3/4P3/5N2/PPPP1PPP/RNBQKB1R w KQkq - 0 1");
}

#[test]
fn preserves_multiple_games_in_source_order() {
    let games = parse_pgn(
        r#"[Event "First"]
1. e4 e5 1-0

[Event "Second"]
1. d4 d5 0-1"#,
    )
    .expect("multiple games must parse");

    assert_eq!(games.len(), 2);
    assert_eq!(games[0].headers.event.as_deref(), Some("First"));
    assert_eq!(games[1].headers.event.as_deref(), Some("Second"));
    assert_eq!(games[0].moves.len(), 2);
    assert_eq!(games[1].moves.len(), 2);
}

#[test]
fn separates_consecutive_games_without_headers_after_a_result() {
    let games = parse_pgn("1. e4 e5 1-0\n\n1. d4 d5 0-1").expect("consecutive headerless games must parse");

    assert_eq!(games.len(), 2);
    assert_eq!(games[0].moves.len(), 2);
    assert_eq!(games[1].moves.len(), 2);
}

#[test]
fn ignores_brace_and_line_comments() {
    let game = parse_one("1. e4 { a comment\n[not a header] } e5 ; a line comment\n2. Nf3 Nc6");

    assert_eq!(game.moves.len(), 4);
    assert_eq!(game.positions.len(), 5);
}

#[test]
fn ignores_nags() {
    let game = parse_one("1. e4 $1 e5 $6 2. Nf3 Nc6");

    assert_eq!(game.moves.len(), 4);
}

#[test]
fn ignores_variations_and_replays_only_the_main_line() {
    let game = parse_one("1. e4 e5 (1... c5 (1... e6)) 2. Nf3");

    assert_eq!(game.moves.len(), 3);
    assert_eq!(game.positions.len(), 4);
    assert_eq!(game.positions[3], "rnbqkbnr/pppp1ppp/8/4p3/4P3/5N2/PPPP1PPP/RNBQKB1R b KQkq - 0 1");
}

#[test]
fn starts_from_a_setup_fen() {
    let initial_fen = "8/8/8/8/8/8/8/K6k w - - 0 1";
    let game = parse_one(&format!("[SetUp \"1\"]\n[FEN \"{initial_fen}\"]\n\n1. Kb1"));

    assert_eq!(game.headers.set_up.as_deref(), Some("1"));
    assert_eq!(game.headers.fen.as_deref(), Some(initial_fen));
    assert_eq!(game.positions[0], Board::from_str(initial_fen).expect("fixture FEN is valid").to_string());
    assert_eq!(game.positions.len(), 2);
}

#[test]
fn normalizes_standard_promotion_and_zero_castling_for_validation() {
    let promotion = parse_one("[SetUp \"1\"]\n[FEN \"8/P7/8/8/8/8/7k/K7 w - - 0 1\"]\n\n1. a8=Q");
    assert_eq!(promotion.moves.len(), 1);

    let castling = parse_one("1. e4 e5 2. Nf3 Nc6 3. Bc4 Bc5 4. 0-0");
    assert_eq!(castling.moves.len(), 7);
}

#[test]
fn rejects_a_malformed_promotion_instead_of_removing_arbitrary_equals_signs() {
    let error = parse_pgn("[SetUp \"1\"]\n[FEN \"8/P7/8/8/8/8/7k/K7 w - - 0 1\"]\n\n1. a8==Q")
        .expect_err("malformed promotion must fail");

    assert!(error.contains("invalid SAN move 'a8==Q'"));
}

#[test]
fn rejects_an_incorrect_check_suffix() {
    let error = parse_pgn("1. e4+").expect_err("e4 does not give check");

    assert!(error.contains("check suffix"));
}

#[test]
fn accepts_a_real_check_and_checkmate_suffix() {
    let check = parse_one("[SetUp \"1\"]\n[FEN \"4k3/8/8/8/8/8/8/3QK3 w - - 0 1\"]\n\n1. Qh5+");
    assert_eq!(check.moves.len(), 1);

    let mate = parse_one("[SetUp \"1\"]\n[FEN \"7k/5Q2/6K1/8/8/8/8/8 w - - 0 1\"]\n\n1. Qg7#");
    assert_eq!(mate.moves.len(), 1);
}

#[test]
fn rejects_an_illegal_or_invalid_san_move() {
    let error = parse_pgn("1. e5").expect_err("illegal SAN must fail");

    assert!(error.contains("invalid SAN move 'e5'"));
}

#[test]
fn rejects_an_invalid_initial_fen() {
    let error = parse_pgn("[SetUp \"1\"]\n[FEN \"not a FEN\"]\n\n1. e4").expect_err("invalid FEN must fail");

    assert!(error.contains("invalid initial FEN"));
}

#[test]
fn rejects_empty_or_unusable_pgn_input() {
    for input in ["", "   \n\t", "{ comment only }\n; line comment\n$1 1."] {
        assert!(parse_pgn(input).is_err(), "{input:?} must fail");
    }
}

#[test]
fn rejects_an_isolated_header_block_as_unusable() {
    let error = parse_pgn("[Event \"Incompleta\"]").expect_err("headers without movetext or a result must fail");

    assert!(error.contains("no usable games"));
}

#[test]
fn requires_setup_and_fen_together_for_custom_positions() {
    let error = parse_pgn("[SetUp \"1\"]\n\n1. e4").expect_err("missing FEN must fail");

    assert!(error.contains("requires a FEN tag"));
}

#[test]
fn moves_are_kept_as_uci_and_positions_follow_them() {
    let game = parse_one("1. e4 e5 2. Nf3");
    assert_eq!(game.moves, vec!["e2e4".to_string(), "e7e5".to_string(), "g1f3".to_string()]);
    assert_eq!(game.positions.len(), game.moves.len() + 1);
}

#[test]
fn rejects_an_unclosed_comment_or_variation() {
    assert!(parse_pgn("1. e4 { never closed").is_err());
    assert!(parse_pgn("1. e4 (1. d4").is_err());
}

#[test]
fn each_game_starts_from_the_board_its_tags_ask_for() {
    let fen = "8/8/8/8/8/8/7k/K7 w - - 0 1";
    let games = parse_pgn(&format!(
        "[SetUp \"1\"]\n[FEN \"{fen}\"]\n\n1. Kb1 *\n\n[Event \"Second\"]\n\n1. e4 *"
    ))
    .expect("valid PGN must parse");
    assert_eq!(games.len(), 2);
    assert_eq!(Board::from_str(&games[0].positions[0]).unwrap(), Board::from_str(fen).unwrap());
    assert_eq!(games[0].headers.set_up.as_deref(), Some("1"));
    assert_eq!(games[1].headers.fen, None);
    assert_eq!(Board::from_str(&games[1].positions[0]).unwrap(), Board::default());
    assert!(parse_pgn(&format!("[FEN \"{fen}\"]\n\n1. Kb1")).is_err());
    assert!(parse_pgn("[SetUp \"1\"]\n\n1. e4").is_err());
}
