use std::str::FromStr;

use chess::Board;
use chess_material_studio::config::{coord_to_san, piece_localized, PieceNames};

fn english() -> PieceNames {
    PieceNames { bishop: "B".into(), knight: "N".into(), rook: "R".into(), queen: "Q".into(), king: "K".into() }
}

fn spanish() -> PieceNames {
    PieceNames { bishop: "A".into(), knight: "C".into(), rook: "T".into(), queen: "D".into(), king: "R".into() }
}

fn fen(x: &str) -> String {
    Board::from_str(x).unwrap().to_string()
}

#[test]
fn coord_to_san_writes_plain_moves() {
    let start = Board::default().to_string();
    assert_eq!(coord_to_san(&start, "e2e4", &english()).as_deref(), Some("e4"));
    assert_eq!(coord_to_san(&start, "g1f3", &english()).as_deref(), Some("Nf3"));
    assert_eq!(coord_to_san(&start, "g1f3", &spanish()).as_deref(), Some("Cf3"));
    assert_eq!(coord_to_san(&start, "e3e4", &english()), None);
}

#[test]
fn coord_to_san_marks_castling_checks_and_mates() {
    let castle = fen("r3k2r/pppppppp/8/8/8/8/PPPPPPPP/R3K2R w KQkq - 0 1");
    assert_eq!(coord_to_san(&castle, "e1g1", &english()).as_deref(), Some("0-0"));
    assert_eq!(coord_to_san(&castle, "e1c1", &english()).as_deref(), Some("0-0-0"));
    let check = fen("4k3/8/8/8/8/8/8/R3K3 w - - 0 1");
    assert_eq!(coord_to_san(&check, "a1a8", &english()).as_deref(), Some("Ra8+"));
    let mate = fen("6k1/5ppp/8/8/8/8/8/R3K3 w - - 0 1");
    assert_eq!(coord_to_san(&mate, "a1a8", &spanish()).as_deref(), Some("Ta8#"));
}

#[test]
fn coord_to_san_writes_captures_and_promotions() {
    let capture = fen("rnbqkbnr/ppp1pppp/8/3p4/4P3/8/PPPP1PPP/RNBQKBNR w KQkq - 0 2");
    assert_eq!(coord_to_san(&capture, "e4d5", &english()).as_deref(), Some("exd5"));
    let promotion = fen("8/4P3/8/8/8/8/8/4K2k w - - 0 1");
    assert_eq!(coord_to_san(&promotion, "e7e8q", &spanish()).as_deref(), Some("e8=D"));
    assert_eq!(coord_to_san(&promotion, "e7e8n", &english()).as_deref(), Some("e8=N"));
}

#[test]
fn coord_to_san_disambiguates_by_file() {
    let board = fen("4k3/8/8/8/8/8/R1R5/4K3 w - - 0 1");
    assert_eq!(coord_to_san(&board, "a2b2", &english()).as_deref(), Some("Rab2"));
}

#[test]
fn piece_names_follow_the_promotion_letter() {
    let names = spanish();
    assert_eq!(piece_localized(&names, &vec!['B']), vec!['A']);
    assert_eq!(piece_localized(&names, &vec!['N']), vec!['C']);
    assert_eq!(piece_localized(&names, &vec!['R']), vec!['T']);
    assert_eq!(piece_localized(&names, &vec!['Q']), vec!['D']);
    assert_eq!(piece_localized(&names, &vec!['X']), vec!['R']);
}
