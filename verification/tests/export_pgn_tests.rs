use std::str::FromStr;

use chess::{Board, ChessMove};
use chess_material_studio::export::{
    board_to_pgn_fen, build_pgn_content, build_pgn_game, move_to_standard_san, parse_legal_uci_move,
};
use chess_material_studio::models::Puzzle;

fn puzzle_00010() -> Puzzle {
    Puzzle {
        puzzle_id: "00010".to_string(),
        fen: "r1bqkb1r/pppppppp/2n2n2/4p3/2B1P3/5N2/PPPP1PPP/RNBQK2R w KQkq - 2 3".to_string(),
        moves: "f3g5 e7e6 g5f7".to_string(),
        rating: 1700,
        rating_deviation: 80,
        popularity: 92,
        nb_plays: 7500,
        themes: "fork sacrifice middlegame".to_string(),
        game_url: "https://lichess.org/training/ghi789".to_string(),
        opening: "Italian_Game".to_string(),
    }
}

fn puzzle_00008() -> Puzzle {
    Puzzle {
        puzzle_id: "00008".to_string(),
        fen: "N4k3/5ppp/8/8/8/8/5PPP/4R1K1 w - - 0 1".to_string(),
        moves: "e1e8".to_string(),
        rating: 1500,
        rating_deviation: 70,
        popularity: 95,
        nb_plays: 10000,
        themes: "fork opening".to_string(),
        game_url: "https://lichess.org/training/abc123".to_string(),
        opening: "Italian_Game".to_string(),
    }
}

fn bare(fen: &str, moves: &str) -> Puzzle {
    Puzzle {
        puzzle_id: "test".to_string(),
        fen: fen.to_string(),
        moves: moves.to_string(),
        rating: 0,
        rating_deviation: 0,
        popularity: 0,
        nb_plays: 0,
        themes: String::new(),
        game_url: String::new(),
        opening: String::new(),
    }
}

fn white_to_move_puzzle() -> Puzzle {
    let mut p = bare("r3k3/8/8/8/8/8/8/4K3 b - - 0 1", "a8a7 e1e2");
    p.puzzle_id = "test_w".to_string();
    p
}

fn board_after_trigger(puzzle: &Puzzle) -> Board {
    let original = Board::from_str(&puzzle.fen).unwrap();
    let trigger = parse_legal_uci_move(&original.to_string(), "f3g5").unwrap();
    original.make_move_new(ChessMove::from_str(&trigger).unwrap())
}

fn fen_of(pgn: &str) -> String {
    let fen_line = pgn.lines().find(|l| l.starts_with("[FEN ")).unwrap();
    fen_line.split('"').nth(1).unwrap().to_string()
}

fn san_tokens(move_text: &str) -> Vec<&str> {
    move_text
        .split_whitespace()
        .filter(|t| !t.starts_with(|c: char| c.is_ascii_digit()) && !t.starts_with('*') && *t != "...")
        .collect()
}

#[test]
fn test_board_to_pgn_fen_after_trigger() {
    let puzzle = puzzle_00010();
    let puzzle_board = board_after_trigger(&puzzle);
    let fen = board_to_pgn_fen(&puzzle_board.to_string()).unwrap();
    assert!(fen.ends_with(" 0 1"), "FEN must end with ' 0 1': {}", fen);
    assert_ne!(fen, puzzle.fen, "Exported FEN must differ from original");
}

#[test]
fn test_build_pgn_game_00010() {
    let puzzle = puzzle_00010();
    let pgn = build_pgn_game(&puzzle, "2026.09.03").unwrap();

    assert!(pgn.contains("[SetUp \"1\"]"));
    assert!(pgn.contains("[FEN \""));
    assert!(pgn.contains("[Event \"Chess Puzzle\"]"));
    assert!(pgn.contains(&format!("[Site \"https://lichess.org/training/{}\"]", puzzle.puzzle_id)));
    assert!(pgn.contains("[Result \"*\"]"));
    assert!(pgn.contains("[White \"Opponent\"]"));
    assert!(pgn.contains("[Black \"Player\"]"));
    assert!(pgn.contains("1... "), "Move text should start with '1...' for Black to move");

    let trigger_san = {
        let original = Board::from_str(&puzzle.fen).unwrap().to_string();
        let trigger = parse_legal_uci_move(&original, "f3g5").unwrap();
        move_to_standard_san(&original, &trigger).unwrap()
    };
    let move_section = pgn.split("\n\n").last().unwrap_or("");
    assert!(!move_section.contains(&trigger_san), "Trigger SAN '{}' must not appear in move text", trigger_san);
    assert!(pgn.ends_with("*\n"));
}

#[test]
fn test_build_pgn_game_trigger_absent_from_solution() {
    let pgn = build_pgn_game(&puzzle_00010(), "2026.09.03").unwrap();
    let move_text = pgn.split("\n\n").last().unwrap_or("");
    assert!(!move_text.contains("Ng5"), "Trigger move must not be in solution");
}

#[test]
fn test_build_pgn_game_fen_after_trigger() {
    let puzzle = puzzle_00010();
    let pgn = build_pgn_game(&puzzle, "2026.09.03").unwrap();
    let exported_board = Board::from_str(&fen_of(&pgn)).unwrap();
    assert_eq!(exported_board, board_after_trigger(&puzzle), "Exported FEN must match board after trigger");
}

#[test]
fn test_build_pgn_game_move_sequence_parses() {
    let puzzle = puzzle_00010();
    let pgn = build_pgn_game(&puzzle, "2026.09.03").unwrap();
    let mut board = Board::from_str(&fen_of(&pgn)).unwrap();
    let move_text = pgn.split("\n\n").last().unwrap_or("");
    let tokens = san_tokens(move_text);
    let all_moves: Vec<&str> = puzzle.moves.split_whitespace().collect();
    let expected_uci: Vec<&str> = all_moves[1..].to_vec();
    assert_eq!(tokens.len(), expected_uci.len(), "SAN token count must match solution move count");
    for (san, uci) in tokens.iter().zip(expected_uci.iter()) {
        let mv_from_san = ChessMove::from_san(&board, san)
            .unwrap_or_else(|e| panic!("Failed to parse SAN '{}': {:?}", san, e));
        let mv_from_uci = ChessMove::from_str(uci)
            .unwrap_or_else(|e| panic!("Failed to parse UCI '{}': {:?}", uci, e));
        assert_eq!(mv_from_san, mv_from_uci, "SAN '{}' must equal UCI '{}'", san, uci);
        board = board.make_move_new(mv_from_san);
    }
}

#[test]
fn test_build_pgn_game_moves_navigable_from_fen() {
    let pgn = build_pgn_game(&puzzle_00010(), "2026.09.03").unwrap();
    let mut board = Board::from_str(&fen_of(&pgn)).unwrap();
    let move_text = pgn.split("\n\n").last().unwrap_or("");
    for san in &san_tokens(move_text) {
        let mv = ChessMove::from_san(&board, san)
            .unwrap_or_else(|e| panic!("SAN '{}' not parseable: {:?}", san, e));
        assert!(board.legal(mv), "SAN '{}' is not legal on current board", san);
        board = board.make_move_new(mv);
    }
}

#[test]
fn test_build_pgn_content_multiple_puzzles() {
    let puzzles = vec![puzzle_00008(), puzzle_00010()];
    let content = build_pgn_content(&puzzles, "2026.09.03").unwrap();
    let game_count = content.matches("[Event \"Chess Puzzle\"]").count();
    assert_eq!(game_count, puzzles.len());
}

#[test]
fn test_build_pgn_game_empty_moves() {
    let puzzle = bare("rnbqkbnr/pppppppp/8/8/8/8/PPPPPPPP/RNBQKBNR w KQkq - 0 1", "");
    assert!(build_pgn_game(&puzzle, "2026.09.03").is_err());
}

#[test]
fn test_build_pgn_game_invalid_fen() {
    let puzzle = bare("not-a-fen", "e2e4");
    assert!(build_pgn_game(&puzzle, "2026.09.03").is_err());
}

#[test]
fn test_build_pgn_game_illegal_trigger() {
    let puzzle = bare("rnbqkbnr/pppppppp/8/8/8/8/PPPPPPPP/RNBQKBNR w KQkq - 0 1", "e2e5 e7e5");
    assert!(build_pgn_game(&puzzle, "2026.09.03").is_err());
}

#[test]
fn test_build_pgn_game_only_trigger_no_solution() {
    let puzzle = bare("rnbqkbnr/pppppppp/8/8/8/8/PPPPPPPP/RNBQKBNR w KQkq - 0 1", "e2e4");
    let result = build_pgn_game(&puzzle, "2026.09.03");
    assert!(result.is_ok());
    let pgn = result.unwrap();
    assert!(pgn.contains("[SetUp \"1\"]"));
    assert!(pgn.contains("[FEN \""));
    assert!(pgn.ends_with("*\n"));
}

#[test]
fn test_pgn_builder_does_not_use_lang() {
    let pgn = build_pgn_game(&puzzle_00010(), "2026.09.03").unwrap();
    assert!(pgn.contains("Nf7") || pgn.contains("e6"), "PGN should contain standard SAN notation");
    assert!(!pgn.contains("Cf"), "PGN must not contain localized piece names");
    assert!(!pgn.contains("Td"), "PGN must not contain localized piece names");
}

#[test]
fn test_side_tags_black_to_move_after_trigger() {
    let pgn = build_pgn_game(&puzzle_00010(), "2026.09.03").unwrap();
    assert!(pgn.contains("[White \"Opponent\"]"));
    assert!(pgn.contains("[Black \"Player\"]"));
}

#[test]
fn test_side_tags_white_to_move_after_trigger() {
    let pgn = build_pgn_game(&white_to_move_puzzle(), "2026.09.03").unwrap();
    assert!(pgn.contains("[White \"Player\"]"));
    assert!(pgn.contains("[Black \"Opponent\"]"));
    let move_text = pgn.split("\n\n").last().unwrap_or("");
    assert!(move_text.starts_with("1. Ke2"), "Move text should start with '1. Ke2', got: {}", move_text);
}

#[test]
fn test_exported_fen_is_normalized_0_1() {
    let pgn = build_pgn_game(&puzzle_00010(), "2026.09.03").unwrap();
    let fen = fen_of(&pgn);
    assert!(fen.ends_with(" 0 1"), "FEN must end with ' 0 1': {}", fen);
}

#[test]
fn test_exported_fen_differs_from_original() {
    let puzzle = puzzle_00010();
    let pgn = build_pgn_game(&puzzle, "2026.09.03").unwrap();
    assert_ne!(fen_of(&pgn), puzzle.fen, "Exported FEN must differ from original puzzle FEN");
}

#[test]
fn test_fixture_00010_full_validation() {
    let puzzle = puzzle_00010();
    let pgn = build_pgn_game(&puzzle, "2026.09.03").unwrap();
    let mut board = Board::from_str(&fen_of(&pgn)).unwrap();
    assert_eq!(board, board_after_trigger(&puzzle));

    let move_text = pgn.split("\n\n").last().unwrap_or("");
    let tokens = san_tokens(move_text);
    let all_moves: Vec<&str> = puzzle.moves.split_whitespace().collect();
    let expected_uci: Vec<&str> = all_moves[1..].to_vec();
    assert_eq!(tokens.len(), expected_uci.len());
    for (san, uci) in tokens.iter().zip(expected_uci.iter()) {
        let mv_san = ChessMove::from_san(&board, san).expect(&format!("Failed to parse SAN: {}", san));
        let mv_uci = ChessMove::from_str(uci).expect(&format!("Failed to parse UCI: {}", uci));
        assert_eq!(mv_san, mv_uci, "SAN/UCI mismatch: {} vs {}", san, uci);
        assert!(board.legal(mv_san));
        board = board.make_move_new(mv_san);
    }
    assert!(move_text.starts_with("1... "), "Should start with '1...' for Black");
    assert!(move_text.trim_end().ends_with("*"), "Should end with '*'");
}

#[test]
fn generate_sample_pgn_for_review() {
    let game1 = build_pgn_game(&puzzle_00010(), "2026.09.03").unwrap();
    let mut puzzle_white = white_to_move_puzzle();
    puzzle_white.rating = 1500;
    puzzle_white.rating_deviation = 70;
    puzzle_white.popularity = 90;
    puzzle_white.nb_plays = 5000;
    puzzle_white.themes = "king move".to_string();
    puzzle_white.game_url = "https://lichess.org/training/test_w".to_string();
    let game2 = build_pgn_game(&puzzle_white, "2026.09.03").unwrap();

    let mut content = game1;
    content.push('\n');
    content.push_str(&game2);
    let game_count = content.matches("[Event \"Chess Puzzle\"]").count();
    assert_eq!(game_count, 2, "Sample must contain exactly 2 games");
    assert!(content.contains("[SetUp \"1\"]"));
    assert!(content.contains("[FEN \""));
    assert!(content.contains("[Round \"-\"]"));
    assert!(content.contains("1. Ke2"));
}

#[test]
fn test_san_to_spans_pgn_unchanged() {
    let pgn = build_pgn_game(&puzzle_00010(), "2026.09.03").unwrap();
    assert!(pgn.contains("Nf3") || pgn.contains("e6") || pgn.contains("Ng5"),
        "PGN must contain standard SAN letters, not figurines");
    assert!(!pgn.contains("H"), "PGN must not contain Chess Alpha knight glyph");
}

#[test]
fn a_whole_pgn_game_is_written_exactly() {
    let pgn = build_pgn_game(&puzzle_00010(), "2026.09.03").unwrap();
    let expected = "[Event \"Chess Puzzle\"]\n\
[Site \"https://lichess.org/training/00010\"]\n\
[Date \"2026.09.03\"]\n\
[Round \"-\"]\n\
[White \"Opponent\"]\n\
[Black \"Player\"]\n\
[Result \"*\"]\n\
[GameID \"https://lichess.org/training/ghi789\"]\n\
[FEN \"r1bqkb1r/pppppppp/2n2n2/4p1N1/2B1P3/8/PPPP1PPP/RNBQK2R b KQkq - 0 1\"]\n\
[SetUp \"1\"]\n\
[Opening \"Italian_Game\"]\n\
[PuzzleRating \"1700\"]\n\
[PuzzleRatingDeviation \"80\"]\n\
[PuzzlePopularity \"92\"]\n\
[PuzzleNbPlays \"7500\"]\n\
[PuzzleThemes \"fork sacrifice middlegame\"]\n\
\n\
1... e6 2. Nxf7 *\n";
    assert_eq!(pgn, expected);
}

#[test]
fn the_first_failing_puzzle_stops_the_export() {
    let puzzles = vec![puzzle_00008(), bare("not-a-fen", "e2e4"), puzzle_00010()];
    let error = build_pgn_content(&puzzles, "2026.09.03").unwrap_err();
    assert!(error.starts_with("Invalid FEN 'not-a-fen': "), "{error}");
    let solution_error = build_pgn_game(&bare("rnbqkbnr/pppppppp/8/8/8/8/PPPPPPPP/RNBQKBNR w KQkq - 0 1", "e2e4 e7e4"), "d").unwrap_err();
    assert!(solution_error.starts_with("Solution move error: Illegal UCI move: e7e4"), "{solution_error}");
    let trigger_error = build_pgn_game(&bare("rnbqkbnr/pppppppp/8/8/8/8/PPPPPPPP/RNBQKBNR w KQkq - 0 1", "e2"), "d").unwrap_err();
    assert_eq!(trigger_error, "Trigger move error: Invalid UCI length: e2");
    let empty = build_pgn_game(&bare("8/8/8/8/8/8/8/K6k w - - 0 1", "   "), "d").unwrap_err();
    assert_eq!(empty, "Puzzle has no moves");
}

#[test]
fn games_are_separated_by_an_empty_line() {
    let a = build_pgn_game(&puzzle_00008(), "x").unwrap();
    let b = build_pgn_game(&puzzle_00010(), "x").unwrap();
    let content = build_pgn_content(&vec![puzzle_00008(), puzzle_00010()], "x").unwrap();
    assert_eq!(content, format!("{a}\n{b}"));
    assert_eq!(build_pgn_content(&Vec::new(), "x").unwrap(), "");
}

#[test]
fn pgn_content_is_the_games_joined_by_newlines() {
    let puzzles = vec![puzzle_00008(), puzzle_00010()];
    let first = build_pgn_game(&puzzles[0], "2026.09.03").unwrap();
    let second = build_pgn_game(&puzzles[1], "2026.09.03").unwrap();
    let content = build_pgn_content(&puzzles, "2026.09.03").unwrap();
    assert_eq!(content, format!("{first}\n{second}"));
    assert_eq!(build_pgn_content(&[], "2026.09.03").unwrap(), "");
    let bad = bare("not-a-fen", "e2e4");
    let error = build_pgn_game(&bad, "2026.09.03").unwrap_err();
    assert_eq!(build_pgn_content(&[puzzles[0].clone(), bad, puzzles[1].clone()], "2026.09.03").unwrap_err(), error);
}
