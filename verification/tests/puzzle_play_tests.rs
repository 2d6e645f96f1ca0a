use std::str::FromStr;

use chess::Board;
use chess_material_studio::chess_rules::PieceKind;
use chess_material_studio::models::Puzzle;
use chess_material_studio::puzzle_play::{
    get_notation_string, puzzle_problem_of, san_correct_ep, validate_puzzle_batch, PieceWithColor, PuzzleSession,
};

fn puzzle(id: &str, fen: &str, moves: &str) -> Puzzle {
    Puzzle { puzzle_id: id.into(), fen: fen.into(), moves: moves.into(), ..Puzzle::default() }
}

#[test]
fn piece_images_are_indexed_white_then_black() {
    assert_eq!(PieceWithColor::WhitePawn.index(), 0);
    assert_eq!(PieceWithColor::WhiteKing.index(), 5);
    assert_eq!(PieceWithColor::BlackPawn.index(), 6);
    assert_eq!(PieceWithColor::BlackKing.index(), 11);
}

#[test]
fn notation_adds_the_promotion_piece_only_on_the_last_rank() {
    let board = Board::from_str("8/4P3/8/8/8/8/3p4/4K2k w - - 0 1").unwrap().to_string();
    assert_eq!(get_notation_string(&board, PieceKind::Queen, 52, 60), "e7e8q");
    assert_eq!(get_notation_string(&board, PieceKind::Knight, 52, 60), "e7e8n");
    assert_eq!(get_notation_string(&board, PieceKind::King, 52, 60), "e7e8q");
    assert_eq!(get_notation_string(&board, PieceKind::Rook, 4, 12), "e1e2");
    assert_eq!(get_notation_string(&board, PieceKind::Bishop, 11, 3), "d2d1b");
}

#[test]
fn en_passant_square_is_corrected_for_the_engine() {
    assert_eq!(
        san_correct_ep("rnbqkbnr/pppp1ppp/8/4p3/4P3/8/PPPP1PPP/RNBQKBNR w KQkq e5 0 2"),
        "rnbqkbnr/pppp1ppp/8/4p3/4P3/8/PPPP1PPP/RNBQKBNR w KQkq e6 0 2"
    );
    assert_eq!(
        san_correct_ep("rnbqkbnr/pppppppp/8/8/4P3/8/PPPP1PPP/RNBQKBNR b KQkq e4 0 1"),
        "rnbqkbnr/pppppppp/8/8/4P3/8/PPPP1PPP/RNBQKBNR b KQkq e3 0 1"
    );
    assert_eq!(san_correct_ep("4k3/8/8/8/8/8/8/4K3 w - - 0 1"), "4k3/8/8/8/8/8/8/4K3 w - - 0 1");
}

#[test]
fn puzzle_problems_are_named() {
    let fen = "8/8/8/8/8/8/8/K6k w - - 0 1";
    assert_eq!(puzzle_problem_of(&puzzle("p", fen, "a1a2 h1h2")), None);
    assert_eq!(puzzle_problem_of(&puzzle("p", "bad", "a1a2 h1h2")).unwrap(), "invalid FEN 'bad'");
    assert_eq!(puzzle_problem_of(&puzzle("p", fen, "a1a2 i1i2")).unwrap(), "invalid source square in move 'i1i2'");
    assert_eq!(puzzle_problem_of(&puzzle("p", fen, "a1a2 h1h9")).unwrap(), "invalid destination square in move 'h1h9'");
    assert_eq!(puzzle_problem_of(&puzzle("p", fen, "a1a2x h1h2")).unwrap(), "invalid promotion in move 'a1a2x'");
    assert_eq!(puzzle_problem_of(&puzzle("p", fen, "a1a2 h1")).unwrap(), "invalid move 'h1'");
    assert_eq!(puzzle_problem_of(&puzzle("p", fen, "a1a2 h1h2 a2a4")).unwrap(), "illegal move 'a2a4'");
    assert_eq!(puzzle_problem_of(&puzzle("p", fen, "a1a2")).unwrap(), "a puzzle needs at least two moves");
    assert_eq!(
        puzzle_problem_of(&puzzle("p", fen, "a1a2 h1h2 a2a3")).unwrap(),
        "the solution must end with the solver's move"
    );
}

#[test]
fn a_batch_is_refused_at_its_first_bad_puzzle() {
    let fen = "8/8/8/8/8/8/8/K6k w - - 0 1";
    assert_eq!(validate_puzzle_batch(&Vec::new()).unwrap_err(), "the puzzle list is empty");
    let batch = vec![puzzle("good", fen, "a1a2 h1h2"), puzzle("bad", fen, "a1a2 h1h3"), puzzle("worse", "x", "")];
    assert_eq!(validate_puzzle_batch(&batch).unwrap_err(), "puzzle bad: illegal move 'h1h3'");
    assert!(validate_puzzle_batch(&vec![puzzle("good", fen, "a1a2 h1h2")]).is_ok());
}

#[test]
fn a_new_session_waits_for_puzzles() {
    let session = PuzzleSession::new();
    assert!(session.puzzles.is_empty());
    assert_eq!(session.board, Board::default().to_string());
    assert_eq!(session.puzzle_number_ui, "1");
}

#[test]
fn replacing_the_batch_without_shuffle_keeps_its_order() {
    let fen = "8/8/8/8/8/8/8/K6k w - - 0 1";
    let mut session = PuzzleSession::new();
    let batch = vec![puzzle("a", fen, "a1a2 h1h2"), puzzle("b", fen, "a1b1 h1g1")];
    session.replace_puzzle_batch(batch, false).unwrap();
    assert_eq!(session.puzzles[0].puzzle_id, "a");
    assert_eq!(session.puzzles[1].puzzle_id, "b");
    assert_eq!(session.last_move_from, Some(0));
    assert_eq!(session.last_move_to, Some(8));
}

#[test]
fn shuffled_batches_keep_every_puzzle() {
    let fen = "8/8/8/8/8/8/8/K6k w - - 0 1";
    let mut session = PuzzleSession::new();
    let batch: Vec<Puzzle> = (0..6).map(|i| puzzle(&format!("p{i}"), fen, "a1a2 h1h2")).collect();
    session.replace_puzzle_batch(batch, true).unwrap();
    let mut ids: Vec<String> = session.puzzles.iter().map(|p| p.puzzle_id.clone()).collect();
    ids.sort();
    assert_eq!(ids, vec!["p0", "p1", "p2", "p3", "p4", "p5"]);
}
