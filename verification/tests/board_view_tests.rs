use chess_material_studio::board_view::board_view_plan;
use chess_material_studio::chess_rules::{PieceKind, Side};
use chess_material_studio::config::GameMode;
use chess_material_studio::puzzle_play::GameStatus;

const START: &str = "rnbqkbnr/pppppppp/8/8/8/8/PPPPPPPP/RNBQKBNR w KQkq - 0 1";
const EMPTY_KINGS: &str = "8/8/8/8/8/8/8/K6k w - - 0 1";

fn square(name: &str) -> u8 {
    let b = name.as_bytes();
    (b[1] - b'1') * 8 + (b[0] - b'a')
}

#[test]
fn white_side_draws_a8_top_left_and_h1_bottom_right() {
    let plan = board_view_plan(Side::White, false, GameMode::Puzzle, GameStatus::Playing, START, START, None, None, None, None);
    assert_eq!(plan.len(), 64);
    assert_eq!(plan[0].square, square("a8"));
    assert_eq!(plan[7].square, square("h8"));
    assert_eq!(plan[56].square, square("a1"));
    assert_eq!(plan[63].square, square("h1"));
    assert_eq!(plan[0].piece, Some(PieceKind::Rook));
    assert_eq!(plan[0].color, Some(Side::Black));
    assert_eq!(plan[60].piece, Some(PieceKind::King));
    assert_eq!(plan[60].color, Some(Side::White));
    assert!(plan[0].light);
    assert!(!plan[56].light);
}

#[test]
fn black_side_or_flip_draws_h1_top_left() {
    let black = board_view_plan(Side::Black, false, GameMode::Puzzle, GameStatus::Playing, START, START, None, None, None, None);
    assert_eq!(black[0].square, square("h1"));
    assert_eq!(black[63].square, square("a8"));
    let flipped = board_view_plan(Side::White, true, GameMode::Puzzle, GameStatus::Playing, START, START, None, None, None, None);
    assert_eq!(flipped[0].square, square("h1"));
    let flipped_black = board_view_plan(Side::Black, true, GameMode::Puzzle, GameStatus::Playing, START, START, None, None, None, None);
    assert_eq!(flipped_black[0].square, square("a8"));
}

#[test]
fn highlights_follow_the_mode_and_status() {
    let from = Some(square("e2"));
    let last = (Some(square("d7")), Some(square("d5")));
    let hint = Some(square("g1"));
    let playing = board_view_plan(Side::White, false, GameMode::Puzzle, GameStatus::Playing, START, START, from, last.0, last.1, hint);
    let lit: Vec<u8> = playing.iter().filter(|s| s.highlighted).map(|s| s.square).collect();
    assert_eq!(lit.len(), 4);
    for s in ["e2", "d7", "d5", "g1"] {
        assert!(lit.contains(&square(s)));
    }
    let analysis = board_view_plan(Side::White, false, GameMode::Analysis, GameStatus::Playing, START, EMPTY_KINGS, from, last.0, last.1, hint);
    let lit: Vec<u8> = analysis.iter().filter(|s| s.highlighted).map(|s| s.square).collect();
    assert_eq!(lit, vec![square("e2")]);
    assert_eq!(analysis.iter().filter(|s| s.piece.is_some()).count(), 2);
    let ended = board_view_plan(Side::White, false, GameMode::Puzzle, GameStatus::PuzzleEnded, START, START, None, last.0, last.1, hint);
    assert!(ended.iter().all(|s| !s.highlighted));
}
