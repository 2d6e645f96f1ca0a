use chess::Board;
use chess_material_studio::pgn_import::{parse_pgn, ImportedGame, ImportedGameHeaders};
use chess_material_studio::pgn_review::{PgnPositionSnapshot, PgnReviewSession};

fn parsed_games(pgn: &str) -> Vec<ImportedGame> {
    parse_pgn(pgn).expect("fixture PGN must parse")
}

fn start() -> String {
    Board::default().to_string()
}

#[test]
fn creates_a_session_from_parsed_games_at_the_first_game_and_ply() {
    let games = parsed_games("1. e4 e5 1-0");

    let session = PgnReviewSession::new(games).expect("parsed game must be coherent");

    assert_eq!(session.game_count(), 1);
    assert_eq!(session.current_game_index(), 0);
    assert_eq!(session.current_ply_index(), 0);
    assert_eq!(session.current_board(), &start());
    assert_eq!(session.current_game().moves.len(), 2);
}

#[test]
fn advances_and_rewinds_through_parsed_positions() {
    let games = parsed_games("1. e4 e5 2. Nf3 1-0");
    let expected_positions = games[0].positions.clone();
    let mut session = PgnReviewSession::new(games).expect("parsed game must be coherent");

    assert!(session.next_ply());
    assert_eq!(session.current_ply_index(), 1);
    assert_eq!(session.current_board(), &expected_positions[1]);
    assert!(session.next_ply());
    assert!(session.next_ply());
    assert_eq!(session.current_ply_index(), 3);
    assert_eq!(session.current_board(), &expected_positions[3]);

    assert!(session.previous_ply());
    assert_eq!(session.current_ply_index(), 2);
    assert_eq!(session.current_board(), &expected_positions[2]);
}

#[test]
fn ply_navigation_limits_preserve_indices_and_board() {
    let games = parsed_games("1. e4 1-0");
    let mut session = PgnReviewSession::new(games).expect("parsed game must be coherent");

    let initial_board = session.current_board().clone();
    assert!(!session.previous_ply());
    assert_eq!(session.current_game_index(), 0);
    assert_eq!(session.current_ply_index(), 0);
    assert_eq!(session.current_board(), &initial_board);

    assert!(session.next_ply());
    let final_board = session.current_board().clone();
    assert!(!session.next_ply());
    assert_eq!(session.current_game_index(), 0);
    assert_eq!(session.current_ply_index(), 1);
    assert_eq!(session.current_board(), &final_board);
}

#[test]
fn changes_games_in_source_order_and_resets_the_ply() {
    let games = parsed_games("[Event \"First\"]\n1. e4 e5 1-0\n\n[Event \"Second\"]\n1. d4 0-1");
    let second_initial_board = games[1].positions[0].clone();
    let mut session = PgnReviewSession::new(games).expect("parsed games must be coherent");

    assert!(session.next_ply());
    assert_eq!(session.current_ply_index(), 1);
    assert!(session.next_game());
    assert_eq!(session.current_game_index(), 1);
    assert_eq!(session.current_ply_index(), 0);
    assert_eq!(session.current_board(), &second_initial_board);

    assert!(session.next_ply());
    assert_eq!(session.current_ply_index(), 1);
    assert!(session.previous_game());
    assert_eq!(session.current_game_index(), 0);
    assert_eq!(session.current_ply_index(), 0);
}

#[test]
fn game_navigation_limits_preserve_indices_and_board() {
    let games = parsed_games("1. e4 1-0\n\n1. d4 0-1");
    let mut session = PgnReviewSession::new(games).expect("parsed games must be coherent");

    let first_board = session.current_board().clone();
    assert!(!session.previous_game());
    assert_eq!(session.current_game_index(), 0);
    assert_eq!(session.current_ply_index(), 0);
    assert_eq!(session.current_board(), &first_board);

    assert!(session.next_game());
    let last_board = session.current_board().clone();
    assert!(!session.next_game());
    assert_eq!(session.current_game_index(), 1);
    assert_eq!(session.current_ply_index(), 0);
    assert_eq!(session.current_board(), &last_board);
}

#[test]
fn accepts_a_zero_move_game_produced_by_the_parser() {
    let games = parsed_games("[Event \"Quiet\"]\n[Result \"1/2-1/2\"]\n\n1/2-1/2");
    let mut session = PgnReviewSession::new(games).expect("result-only game must be coherent");

    assert_eq!(session.current_game().moves.len(), 0);
    assert_eq!(session.current_game().positions.len(), 1);
    assert_eq!(session.current_ply_index(), 0);
    assert!(!session.next_ply());
    assert!(!session.previous_ply());
    assert_eq!(session.current_board(), &start());
}

#[test]
fn captures_an_initial_position_as_an_independent_snapshot() {
    let games = parsed_games("[Event \"Demo\"]\n[White \"Alice\"]\n\n1. e4 e5 1-0");
    let mut session = PgnReviewSession::new(games).expect("parsed game must be coherent");

    let candidate = session.capture_current_position();
    assert_eq!(candidate.game_index, 0);
    assert_eq!(candidate.ply_index, 0);
    assert_eq!(candidate.board, start());
    assert_eq!(candidate.headers.event.as_deref(), Some("Demo"));
    assert_eq!(candidate.headers.white.as_deref(), Some("Alice"));

    assert!(session.next_ply());
    assert_ne!(session.current_board(), &candidate.board);
    assert_eq!(candidate.board, start());
}

#[test]
fn captures_the_current_game_ply_and_board_after_navigation() {
    let games = parsed_games("1. e4 e5 1-0\n\n1. d4 d5 0-1");
    let mut session = PgnReviewSession::new(games).expect("parsed games must be coherent");

    assert!(session.next_game());
    assert!(session.next_ply());
    let current_board = session.current_board().clone();

    let candidate = session.capture_current_position();
    assert_eq!(candidate.game_index, 1);
    assert_eq!(candidate.ply_index, 1);
    assert_eq!(candidate.board, current_board);
}

#[test]
fn captures_a_setup_fen_position() {
    let fen = "8/8/8/8/8/8/8/K6k w - - 0 1";
    let games = parsed_games(&format!("[SetUp \"1\"]\n[FEN \"{fen}\"]\n\n1. Kb1"));
    let session = PgnReviewSession::new(games).expect("setup game must be coherent");

    let candidate = session.capture_current_position();
    assert_eq!(candidate.board, fen.parse::<Board>().expect("fixture FEN is valid").to_string());
    assert_eq!(candidate.headers.set_up.as_deref(), Some("1"));
    assert_eq!(candidate.headers.fen.as_deref(), Some(fen));
}

#[test]
fn captures_ply_zero_for_a_zero_move_game() {
    let games = parsed_games("[Event \"Quiet\"]\n[Result \"1/2-1/2\"]\n\n1/2-1/2");
    let session = PgnReviewSession::new(games).expect("result-only game must be coherent");

    let candidate = session.capture_current_position();
    assert_eq!(candidate.game_index, 0);
    assert_eq!(candidate.ply_index, 0);
    assert_eq!(candidate.board, start());
    assert_eq!(candidate.headers.event.as_deref(), Some("Quiet"));
}

#[test]
fn rejects_an_empty_game_collection() {
    let error = PgnReviewSession::new(Vec::new()).err().expect("empty sessions must fail");

    assert!(error.contains("no games"));
}

#[test]
fn rejects_games_without_positions_with_their_index() {
    let game = ImportedGame { headers: ImportedGameHeaders::default(), moves: Vec::new(), positions: Vec::new() };

    let error = PgnReviewSession::new(vec![game]).err().expect("game without a board must fail");

    assert!(error.contains("game 1"));
    assert!(error.contains("no positions"));
}

#[test]
fn rejects_games_with_misaligned_moves_and_positions_with_their_index() {
    let game = ImportedGame {
        headers: ImportedGameHeaders::default(),
        moves: Vec::new(),
        positions: vec![start(), start()],
    };

    let error = PgnReviewSession::new(vec![
        ImportedGame { headers: ImportedGameHeaders::default(), moves: Vec::new(), positions: vec![start()] },
        game,
    ])
    .err()
    .expect("misaligned game must fail");

    assert!(error.contains("game 2"));
    assert!(error.contains("positions"));
    assert!(error.contains("moves"));
}

#[test]
fn captures_a_standard_snapshot_that_replays_to_the_selected_middle_ply() {
    let games = parsed_games(
        "[Event \"Demo\"]\n[Site \"Madrid\"]\n[Date \"2026.09.22\"]\n[Round \"3\"]\n[White \"Alice\"]\n[Black \"Bob\"]\n[Result \"1-0\"]\n\n1. e4 e5 2. Nf3 1-0",
    );
    let mut session = PgnReviewSession::new(games).expect("parsed game must be coherent");
    let initial_snapshot = session.capture_current_snapshot();
    assert_eq!(initial_snapshot.ply_index, 0);
    assert_eq!(initial_snapshot.previous_uci(), None);
    assert_eq!(initial_snapshot.next_uci(), Some("e2e4"));
    assert_eq!(initial_snapshot.reconstruct_selected_board().unwrap(), start());
    assert!(session.next_ply());
    assert!(session.next_ply());

    let snapshot = session.capture_current_snapshot();

    assert_eq!(snapshot.source_game_index, 0);
    assert_eq!(snapshot.ply_index, 2);
    assert_eq!(snapshot.initial_fen, start());
    assert_eq!(snapshot.main_line_uci, ["e2e4", "e7e5", "g1f3"]);
    assert_eq!(snapshot.headers, session.current_game().headers);
    assert_eq!(snapshot.previous_uci(), Some("e7e5"));
    assert_eq!(snapshot.next_uci(), Some("g1f3"));
    assert_eq!(snapshot.reconstruct_selected_board().expect("snapshot must replay"), *session.current_board());
    snapshot.validate().expect("captured snapshot must validate");
}

#[test]
fn captures_a_setup_fen_snapshot_at_the_final_ply() {
    let initial_fen = "8/8/8/8/8/8/8/K6k w - - 0 1";
    let games =
        parsed_games(&format!("[SetUp \"1\"]\n[FEN \"{initial_fen}\"]\n[White \"Alice\"]\n[Black \"Bob\"]\n\n1. Kb1"));
    let mut session = PgnReviewSession::new(games).expect("setup game must be coherent");
    assert!(session.next_ply());

    let snapshot = session.capture_current_snapshot();

    assert_eq!(snapshot.ply_index, 1);
    assert_eq!(snapshot.initial_fen, initial_fen);
    assert_eq!(snapshot.main_line_uci, ["a1b1"]);
    assert_eq!(snapshot.headers.set_up.as_deref(), Some("1"));
    assert_eq!(snapshot.headers.fen.as_deref(), Some(initial_fen));
    assert_eq!(snapshot.previous_uci(), Some("a1b1"));
    assert_eq!(snapshot.next_uci(), None);
    assert_eq!(snapshot.reconstruct_selected_board().unwrap(), *session.current_board());
}

#[test]
fn captures_a_zero_move_snapshot_at_ply_zero() {
    let games = parsed_games("[Event \"Quiet\"]\n[Result \"1/2-1/2\"]\n\n1/2-1/2");
    let session = PgnReviewSession::new(games).expect("result-only game must be coherent");

    let snapshot = session.capture_current_snapshot();

    assert_eq!(snapshot.ply_index, 0);
    assert!(snapshot.main_line_uci.is_empty());
    assert_eq!(snapshot.previous_uci(), None);
    assert_eq!(snapshot.next_uci(), None);
    assert_eq!(snapshot.reconstruct_selected_board().unwrap(), start());
    snapshot.validate().unwrap();
}

fn snapshot_with(initial_fen: &str, main_line_uci: &[&str], ply_index: usize, selected_fen: String) -> PgnPositionSnapshot {
    PgnPositionSnapshot {
        source_game_index: 0,
        ply_index,
        selected_fen,
        initial_fen: initial_fen.into(),
        main_line_uci: main_line_uci.iter().map(|uci| (*uci).into()).collect(),
        headers: ImportedGameHeaders::default(),
    }
}

#[test]
fn rejects_snapshots_with_an_invalid_initial_fen() {
    let snapshot = snapshot_with("not a FEN", &[], 0, start());

    assert!(snapshot.validate().unwrap_err().contains("initial FEN"));
}

#[test]
fn rejects_snapshots_with_an_invalid_selected_fen() {
    let snapshot = snapshot_with(&start(), &[], 0, "not a FEN".into());

    assert!(snapshot.validate().unwrap_err().contains("selected FEN is invalid"));
}

#[test]
fn accepts_a_textually_distinct_selected_fen_for_the_same_board() {
    let canonical_fen = start();
    let equivalent_fen = format!("{canonical_fen} ");
    assert_ne!(equivalent_fen, canonical_fen);
    assert_eq!(equivalent_fen.parse::<Board>().expect("fixture FEN is valid"), Board::default());

    let snapshot = snapshot_with(&canonical_fen, &[], 0, equivalent_fen);

    snapshot.validate().expect("equivalent selected FEN must validate");
}

#[test]
fn rejects_snapshots_with_an_invalid_uci_or_illegal_main_line_move() {
    let invalid_uci = snapshot_with(&start(), &["not-uci"], 0, start());
    assert!(invalid_uci.validate().unwrap_err().contains("UCI"));

    let after_e4 = parsed_games("1. e4 1-0")[0].positions[1].clone();
    let illegal_move = snapshot_with(&start(), &["e2e4", "e2e5"], 1, after_e4);
    assert!(illegal_move.validate().unwrap_err().contains("illegal"));
}

#[test]
fn rejects_snapshots_with_an_out_of_range_ply_or_mismatched_selected_fen() {
    let out_of_range = snapshot_with(&start(), &["e2e4"], 2, start());
    assert!(out_of_range.validate().unwrap_err().contains("ply"));

    let mismatched_fen = snapshot_with(&start(), &["e2e4"], 1, start());
    assert!(mismatched_fen.validate().unwrap_err().contains("selected FEN"));
}

#[test]
fn reconstructs_a_standard_snapshot_into_a_navigable_single_game_session() {
    let games =
        parsed_games("[Event \"Demo\"]\n[Site \"Madrid\"]\n[White \"Alice\"]\n[Black \"Bob\"]\n\n1. e4 e5 2. Nf3 1-0");
    let expected_game = games[0].clone();
    let mut source_session = PgnReviewSession::new(games).expect("parsed game must be coherent");
    assert!(source_session.next_ply());
    assert!(source_session.next_ply());
    let snapshot = source_session.capture_current_snapshot();

    let mut session = PgnReviewSession::from_snapshot(&snapshot).expect("valid snapshot must reconstruct a session");

    assert_eq!(session.game_count(), 1);
    assert_eq!(session.current_game_index(), 0);
    assert_eq!(session.current_ply_index(), snapshot.ply_index);
    assert_eq!(session.current_game().headers, snapshot.headers);
    assert_eq!(session.current_game().moves.len(), snapshot.main_line_uci.len());
    assert_eq!(session.current_game().positions.len(), session.current_game().moves.len() + 1);
    assert_eq!(session.current_board(), &expected_game.positions[snapshot.ply_index]);

    assert!(session.previous_ply());
    assert!(session.previous_ply());
    assert_eq!(session.current_ply_index(), 0);
    assert_eq!(session.current_board(), &expected_game.positions[0]);
    assert!(!session.previous_ply());

    for expected_ply in 1..expected_game.positions.len() {
        assert!(session.next_ply());
        assert_eq!(session.current_ply_index(), expected_ply);
        assert_eq!(session.current_board(), &expected_game.positions[expected_ply]);
    }
    assert!(!session.next_ply());
}

#[test]
fn reconstructed_session_preserves_source_provenance_but_keeps_local_indices() {
    let games = parsed_games("1. e4 1-0\n\n1. d4 d5 0-1");
    let mut source_session = PgnReviewSession::new(games).expect("parsed games must be coherent");
    assert!(source_session.next_game());
    assert!(source_session.next_ply());
    let snapshot = source_session.capture_current_snapshot();
    assert_eq!(snapshot.source_game_index, 1);

    let mut session = PgnReviewSession::from_snapshot(&snapshot).expect("valid snapshot must reconstruct a session");

    assert_eq!(session.game_count(), 1);
    assert_eq!(session.current_game_index(), 0);
    assert_eq!(session.capture_current_position().game_index, 0);
    assert_eq!(session.capture_current_snapshot().source_game_index, snapshot.source_game_index);

    assert!(session.previous_ply());
    assert_eq!(session.capture_current_snapshot().source_game_index, snapshot.source_game_index);
}

#[test]
fn normal_sessions_capture_their_local_game_index_as_source_provenance() {
    let games = parsed_games("1. e4 1-0\n\n1. d4 0-1");
    let mut session = PgnReviewSession::new(games).expect("parsed games must be coherent");

    assert!(session.next_game());
    assert_eq!(session.capture_current_snapshot().source_game_index, 1);
}

#[test]
fn reconstructs_a_setup_fen_snapshot_and_navigates_from_its_selected_ply() {
    let initial_fen = "8/8/8/8/8/8/8/K6k w - - 0 1";
    let games = parsed_games(&format!("[SetUp \"1\"]\n[FEN \"{initial_fen}\"]\n\n1. Kb1"));
    let expected_game = games[0].clone();
    let mut source_session = PgnReviewSession::new(games).expect("parsed game must be coherent");
    assert!(source_session.next_ply());
    let snapshot = source_session.capture_current_snapshot();

    let mut session =
        PgnReviewSession::from_snapshot(&snapshot).expect("valid setup snapshot must reconstruct a session");

    assert_eq!(session.current_game().headers, snapshot.headers);
    assert_eq!(session.current_board(), &expected_game.positions[1]);
    assert!(session.previous_ply());
    assert_eq!(session.current_board(), &expected_game.positions[0]);
    assert!(session.next_ply());
    assert_eq!(session.current_board(), &expected_game.positions[1]);
}

#[test]
fn reconstructs_a_zero_move_snapshot_at_its_only_position() {
    let games = parsed_games("[Event \"Quiet\"]\n[Result \"1/2-1/2\"]\n\n1/2-1/2");
    let source_session = PgnReviewSession::new(games).expect("parsed game must be coherent");
    let snapshot = source_session.capture_current_snapshot();

    let mut session =
        PgnReviewSession::from_snapshot(&snapshot).expect("valid zero-move snapshot must reconstruct a session");

    assert_eq!(session.game_count(), 1);
    assert_eq!(session.current_ply_index(), 0);
    assert_eq!(session.current_game().moves.len(), 0);
    assert_eq!(session.current_game().positions.len(), 1);
    assert!(!session.next_ply());
    assert!(!session.previous_ply());
}

#[test]
fn rejects_invalid_snapshots_when_reconstructing_a_review_session() {
    let snapshot = snapshot_with(&start(), &["not-uci"], 0, start());

    assert!(PgnReviewSession::from_snapshot(&snapshot).is_err());
}
