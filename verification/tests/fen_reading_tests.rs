use chess_material_studio::chess_rules::{fen_mover_has_king, read_fen};
use chess_material_studio::pgn_import::parse_pgn;

#[test]
fn a_text_without_the_movers_king_is_refused_as_an_invalid_board() {
    assert!(!fen_mover_has_king("8/8/8/8/8/8/8/8 w - - 0 1"));
    assert_eq!(read_fen("8/8/8/8/8/8/8/8 w - - 0 1").unwrap_err(), "InvalidBoard");
    assert!(!fen_mover_has_king("8/8/8/8/8/8/8/K7 b - - 0 1"));
    assert_eq!(read_fen("8/8/8/8/8/8/8/K7 b - - 0 1").unwrap_err(), "InvalidBoard");
}

#[test]
fn a_king_overwritten_by_a_later_piece_does_not_count() {
    // The seven skipped files wrap round to file a, where the rook replaces the king.
    assert!(!fen_mover_has_king("K7r/8/8/8/8/8/8/7k w - - 0 1"));
}

#[test]
fn texts_the_reader_refuses_anyway_go_to_the_crate() {
    assert!(fen_mover_has_king("8/8/8/8/8/8/8/8 w -"));
    assert!(fen_mover_has_king("8/8/8/8/8/8/8/8 x - - 0 1"));
    assert!(fen_mover_has_king("8/8/8/8/8/8/8/8z w - - 0 1"));
    assert!(read_fen("8/8/8/8/8/8/8/8 w -").unwrap_err().starts_with("InvalidFen"));
}

#[test]
fn a_text_with_the_movers_king_is_read_by_the_crate() {
    assert!(fen_mover_has_king("8/8/8/8/8/8/7k/K7 w - - 0 1"));
    assert_eq!(read_fen("8/8/8/8/8/8/7k/K7 w - - 0 1").unwrap(), "8/8/8/8/8/8/7k/K7 w - - 0 1");
    // A king of the other side only is read and then refused by the crate.
    assert!(fen_mover_has_king("8/8/8/8/8/8/8/K7 w - - 0 1"));
    assert_eq!(read_fen("8/8/8/8/8/8/8/K7 w - - 0 1").unwrap_err(), "InvalidBoard");
}

#[test]
fn a_pgn_game_from_a_kingless_position_is_refused() {
    let error = parse_pgn("[SetUp \"1\"]\n[FEN \"8/8/8/8/8/8/8/8 w - - 0 1\"]\n\n1. e4").unwrap_err();
    assert_eq!(error, "invalid initial FEN in game 1: InvalidBoard");
}
