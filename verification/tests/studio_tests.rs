use chess::{Board, ChessMove, Square};
use std::str::FromStr;
use chess_material_studio::chess_rules::PieceKind;
use chess_material_studio::config::GameMode;
use chess_material_studio::models::Puzzle;
use chess_material_studio::puzzle_play::{GameStatus, PuzzleFeedback};
use chess_material_studio::studio::{PuzzleStudio, SearchSource, SearchStep};

fn navigation_puzzle(id: &str) -> Puzzle {
    Puzzle {
        puzzle_id: id.into(),
        fen: "8/8/8/8/8/8/8/K6k w - - 0 1".into(),
        moves: "a1a2 h1h2".into(),
        rating: 1500,
        rating_deviation: 80,
        popularity: 50,
        nb_plays: 10,
        themes: "hangingPiece".into(),
        game_url: "https://lichess.org/game".into(),
        opening: String::new(),
    }
}

fn auto_advance_puzzle(id: &str) -> Puzzle {
    Puzzle {
        puzzle_id: id.into(),
        fen: "8/8/8/8/8/8/8/K6k b - - 0 1".into(),
        moves: "h1h2 a1a2".into(),
        rating: 1500,
        rating_deviation: 80,
        popularity: 50,
        nb_plays: 10,
        themes: "hangingPiece".into(),
        game_url: "https://lichess.org/game".into(),
        opening: String::new(),
    }
}

fn studio_with(puzzles: Vec<Puzzle>) -> PuzzleStudio {
    let mut studio = PuzzleStudio::new();
    studio.session.puzzles = puzzles;
    studio.session.current_puzzle = 0;
    studio.session.load_puzzle(false);
    studio
}

fn app_with_current_puzzle(id: &str) -> PuzzleStudio {
    studio_with(vec![navigation_puzzle(id)])
}

fn ids(studio: &PuzzleStudio) -> Vec<String> {
    studio.session.puzzles.iter().map(|p| p.puzzle_id.clone()).collect()
}

/// The parts of the studio that a refused batch must leave alone.
fn snapshot(studio: &PuzzleStudio) -> (Vec<String>, usize, usize, String, String, GameStatus, GameMode, Option<u8>, Option<u8>, Option<bool>, u64) {
    (
        ids(studio),
        studio.session.current_puzzle,
        studio.session.current_puzzle_move,
        studio.session.puzzle_number_ui.clone(),
        studio.session.board.clone(),
        studio.session.game_status,
        studio.session.game_mode,
        studio.session.last_move_from,
        studio.session.last_move_to,
        studio.current_favorite,
        studio.favorite_generation,
    )
}

fn loaded_context() -> PuzzleStudio {
    let mut studio = studio_with(vec![navigation_puzzle("normal-export-first"), navigation_puzzle("normal-export-current")]);
    studio.session.current_puzzle = 1;
    studio.session.load_puzzle(false);
    studio.session.puzzle_number_ui = "2".to_string();
    studio.current_favorite = Some(true);
    studio.favorite_generation = 73;
    studio
}

#[test]
fn favorite_search_error_preserves_the_loaded_puzzle() {
    let mut app = app_with_current_puzzle("loaded-favorite");
    let board = app.session.board.clone();
    app.searching = true;

    let generation = app.search_generation;
    let step = app.search_result(generation, Err("controlled search failure".into()), SearchSource::Favorites);

    assert_eq!(step, SearchStep::Failed);
    assert!(!app.searching);
    assert_eq!(app.session.puzzles[0].puzzle_id, "loaded-favorite");
    assert_eq!(app.session.board, board);
    assert_eq!(app.session.game_status, GameStatus::Playing);
    assert_eq!(app.session.feedback, PuzzleFeedback::FavoritesFailed);
    assert!(app.status_detail.contains("controlled search failure"));
}

#[test]
fn empty_favorite_search_keeps_the_historical_no_puzzles_behavior() {
    let mut app = app_with_current_puzzle("loaded-favorite");

    let generation = app.search_generation;
    let step = app.search_result(generation, Ok(Vec::new()), SearchSource::Favorites);

    assert_eq!(step, SearchStep::NoPuzzles);
    assert_eq!(app.session.game_status, GameStatus::NoPuzzles);
    assert_eq!(app.session.feedback, PuzzleFeedback::NoPuzzleFound);
    assert_eq!(app.current_favorite, None);
    assert_eq!(app.session.board, Board::default().to_string());
}

#[test]
fn normal_search_error_preserves_the_loaded_puzzle() {
    let mut app = app_with_current_puzzle("loaded-normal");
    let board = app.session.board.clone();
    app.searching = true;

    let generation = app.search_generation;
    let _ = app.search_result(generation, Err("controlled search failure".into()), SearchSource::Lichess);

    assert!(!app.searching);
    assert_eq!(app.session.puzzles[0].puzzle_id, "loaded-normal");
    assert_eq!(app.session.board, board);
    assert_eq!(app.session.game_status, GameStatus::Playing);
    assert_eq!(app.session.feedback, PuzzleFeedback::SearchFailed);
    assert!(app.status_detail.contains("controlled search failure"));
}

#[test]
fn invalid_normal_search_batch_preserves_the_loaded_context() {
    let mut app = loaded_context();
    let expected = snapshot(&app);
    app.searching = true;
    let mut invalid = navigation_puzzle("invalid-normal-search");
    invalid.moves = "a1a2 i1i2".into();

    let generation = app.search_generation;
    let step = app.search_result(generation, Ok(vec![navigation_puzzle("valid-normal-search"), invalid]), SearchSource::Lichess);

    assert_eq!(step, SearchStep::Failed);
    assert!(!app.searching);
    assert_eq!(snapshot(&app), expected);
    assert!(app.status_detail.contains("invalid-normal-search"));
    assert!(app.status_detail.contains("invalid source square"));
}

#[test]
fn valid_normal_search_batch_replaces_the_loaded_context() {
    let mut app = app_with_current_puzzle("old-normal-search");

    let generation = app.search_generation;
    let step = app.search_result(generation, Ok(vec![navigation_puzzle("new-normal-search")]), SearchSource::Lichess);

    assert_eq!(step, SearchStep::Loaded);
    assert_eq!(app.session.puzzles[0].puzzle_id, "new-normal-search");
    assert_eq!(app.session.current_puzzle, 0);
    assert_eq!(app.session.game_status, GameStatus::Playing);
    assert_eq!(app.session.puzzle_number_ui, "1");
}

#[test]
fn invalid_favorite_batch_preserves_the_loaded_context() {
    let mut app = loaded_context();
    let expected = snapshot(&app);
    let mut invalid = navigation_puzzle("invalid-favorite");
    invalid.moves = "a1a2 h1h2 a2a4".into();

    let generation = app.search_generation;
    let _ = app.search_result(generation, Ok(vec![invalid]), SearchSource::Favorites);

    assert_eq!(snapshot(&app), expected);
    assert_eq!(app.session.feedback, PuzzleFeedback::FavoritesFailed);
    assert!(app.status_detail.contains("invalid-favorite"));
    assert!(app.status_detail.contains("illegal move 'a2a4'"));
}

#[test]
fn valid_favorite_batch_replaces_the_loaded_context() {
    let mut app = app_with_current_puzzle("old-favorite");

    let generation = app.search_generation;
    let _ = app.search_result(generation, Ok(vec![navigation_puzzle("new-favorite")]), SearchSource::Favorites);

    assert_eq!(app.session.puzzles[0].puzzle_id, "new-favorite");
    assert_eq!(app.session.current_puzzle, 0);
    assert_eq!(app.session.game_status, GameStatus::Playing);
    assert_eq!(app.session.puzzle_number_ui, "1");
}

#[test]
fn invalid_project_selected_snapshot_preserves_the_loaded_context() {
    let mut app = loaded_context();
    let expected = snapshot(&app);
    let mut invalid = navigation_puzzle("invalid-project-selected");
    invalid.fen = "invalid FEN".into();

    let loaded = app.load_project_puzzles(vec![navigation_puzzle("valid-project-selected"), invalid]);

    assert_eq!(loaded, Some(false));
    assert_eq!(snapshot(&app), expected);
    assert_eq!(app.session.feedback, PuzzleFeedback::BatchRefused);
    assert!(app.status_detail.contains("invalid-project-selected"));
    assert!(app.status_detail.contains("invalid FEN"));
}

#[test]
fn project_puzzle_batch_keeps_its_order() {
    let mut app = app_with_current_puzzle("loaded");
    let batch = vec![navigation_puzzle("p1"), navigation_puzzle("p2"), navigation_puzzle("p3")];

    assert_eq!(app.load_project_puzzles(batch), Some(true));

    assert_eq!(ids(&app), vec!["p1", "p2", "p3"]);
    assert_eq!(app.session.current_puzzle, 0);
    assert_eq!(app.session.game_status, GameStatus::Playing);
    assert_eq!(app.session.from_square, None);
}

#[test]
fn empty_normal_search_keeps_the_historical_no_puzzles_behavior() {
    let mut app = app_with_current_puzzle("loaded-normal");

    let generation = app.search_generation;
    let _ = app.search_result(generation, Ok(Vec::new()), SearchSource::Lichess);

    assert_eq!(app.session.game_status, GameStatus::NoPuzzles);
    assert_eq!(app.session.feedback, PuzzleFeedback::NoPuzzleFound);
    assert_eq!(app.current_favorite, None);
}

#[test]
fn stale_normal_search_result_cannot_replace_a_newer_result() {
    let mut app = app_with_current_puzzle("loaded-normal");
    let first_generation = app.next_search_generation();
    let second_generation = app.next_search_generation();

    let _ = app.search_result(second_generation, Ok(vec![navigation_puzzle("newer-normal-search")]), SearchSource::Lichess);
    let step = app.search_result(first_generation, Ok(vec![navigation_puzzle("stale-normal-search")]), SearchSource::Lichess);

    assert_eq!(step, SearchStep::Ignored);
    assert_eq!(app.session.puzzles[0].puzzle_id, "newer-normal-search");
}

#[test]
fn stale_search_result_cannot_hide_a_newer_pending_search() {
    let mut app = app_with_current_puzzle("loaded-normal");
    let first_generation = app.next_search_generation();
    let _second_generation = app.next_search_generation();
    let expected = snapshot(&app);
    app.searching = true;

    let _ = app.search_result(first_generation, Ok(vec![navigation_puzzle("stale-normal-search")]), SearchSource::Lichess);

    assert!(app.searching);
    assert_eq!(snapshot(&app), expected);
}

#[test]
fn stale_search_error_is_invisible() {
    let mut app = app_with_current_puzzle("loaded-normal");
    let first_generation = app.next_search_generation();
    let second_generation = app.next_search_generation();

    let _ = app.search_result(second_generation, Ok(vec![navigation_puzzle("newer-normal-search")]), SearchSource::Lichess);
    let feedback_before = app.session.feedback;
    let detail_before = app.status_detail.clone();
    let board_before = app.session.board.clone();
    app.searching = true;

    let _ = app.search_result(first_generation, Err("stale search failure".into()), SearchSource::Lichess);

    assert_eq!(app.session.feedback, feedback_before);
    assert_eq!(app.status_detail, detail_before);
    assert_eq!(app.session.puzzles[0].puzzle_id, "newer-normal-search");
    assert_eq!(app.session.board, board_before);
    assert!(app.searching);
}

#[test]
fn stale_lichess_result_cannot_replace_newer_favorites_result() {
    let mut app = app_with_current_puzzle("loaded-normal");
    let lichess_generation = app.next_search_generation();
    let favorites_generation = app.next_search_generation();

    let _ = app.search_result(favorites_generation, Ok(vec![navigation_puzzle("newer-favorites-search")]), SearchSource::Favorites);
    let _ = app.search_result(lichess_generation, Ok(vec![navigation_puzzle("stale-lichess-search")]), SearchSource::Lichess);

    assert_eq!(app.session.puzzles[0].puzzle_id, "newer-favorites-search");
}

#[test]
fn only_the_current_search_response_can_clear_searching_message() {
    let mut app = app_with_current_puzzle("loaded-normal");
    let stale_generation = app.next_search_generation();
    let current_generation = app.next_search_generation();
    app.searching = true;

    let _ = app.search_result(stale_generation, Ok(Vec::new()), SearchSource::Favorites);
    assert!(app.searching);

    let _ = app.search_result(current_generation, Ok(Vec::new()), SearchSource::Favorites);
    assert!(!app.searching);
}

#[test]
fn current_favorite_status_result_updates_only_the_current_puzzle() {
    let mut app = app_with_current_puzzle("current-favorite");
    let generation = app.next_favorite_generation();

    app.favorite_reply("current-favorite", generation, Ok(true));
    assert_eq!(app.current_favorite, Some(true));

    app.favorite_reply("stale-favorite", generation, Ok(false));
    assert_eq!(app.current_favorite, Some(true));
}

#[test]
fn favorite_status_error_stays_indeterminate_and_visible() {
    let mut app = app_with_current_puzzle("favorite-error");
    let generation = app.next_favorite_generation();

    app.favorite_reply("favorite-error", generation, Err("controlled status failure".into()));

    assert_eq!(app.current_favorite, None);
    assert_eq!(app.session.feedback, PuzzleFeedback::FavoritesFailed);
    assert!(app.status_detail.contains("controlled status failure"));
}

#[test]
fn favorite_action_is_safe_without_a_current_puzzle_or_known_status() {
    let mut empty_app = PuzzleStudio::new();
    assert!(empty_app.favorite_action().is_none());
    assert_eq!(empty_app.current_favorite, None);

    let mut unknown_app = app_with_current_puzzle("unknown-favorite");
    assert!(unknown_app.favorite_action().is_none());
    assert_eq!(unknown_app.current_favorite, None);
}

#[test]
fn favorite_action_marks_a_known_state_indeterminate_before_its_task_completes() {
    let mut app = app_with_current_puzzle("pending-toggle");
    app.current_favorite = Some(false);

    let toggle = app.favorite_action().expect("a switch is asked for");

    assert_eq!(app.current_favorite, None);
    assert_eq!(toggle.puzzle.puzzle_id, "pending-toggle");
    assert_eq!(toggle.generation, app.favorite_generation);
}

#[test]
fn favorite_toggle_result_updates_only_the_matching_puzzle() {
    let mut app = app_with_current_puzzle("toggle-current");
    let generation = app.next_favorite_generation();

    app.favorite_reply("toggle-current", generation, Ok(true));
    assert_eq!(app.current_favorite, Some(true));

    app.favorite_reply("toggle-stale", generation, Ok(false));
    assert_eq!(app.current_favorite, Some(true));
}

#[test]
fn favorite_toggle_error_stays_indeterminate_and_visible() {
    let mut app = app_with_current_puzzle("toggle-error");
    let generation = app.next_favorite_generation();

    app.favorite_reply("toggle-error", generation, Err("controlled toggle failure".into()));

    assert_eq!(app.current_favorite, None);
    assert_eq!(app.session.feedback, PuzzleFeedback::FavoritesFailed);
    assert!(app.status_detail.contains("controlled toggle failure"));
}

#[test]
fn stale_status_for_the_same_puzzle_cannot_overwrite_a_newer_status() {
    let mut app = app_with_current_puzzle("same-status");
    let first_generation = app.next_favorite_generation();
    let second_generation = app.next_favorite_generation();

    app.favorite_reply("same-status", second_generation, Ok(true));
    app.favorite_reply("same-status", first_generation, Ok(false));

    assert_eq!(app.current_favorite, Some(true));
}

#[test]
fn stale_status_error_for_the_same_puzzle_is_invisible() {
    let mut app = app_with_current_puzzle("same-status-error");
    let first_generation = app.next_favorite_generation();
    let second_generation = app.next_favorite_generation();
    let feedback_before = app.session.feedback;

    app.favorite_reply("same-status-error", second_generation, Ok(true));
    app.favorite_reply("same-status-error", first_generation, Err("stale status failure".into()));

    assert_eq!(app.current_favorite, Some(true));
    assert_eq!(app.session.feedback, feedback_before);
    assert!(app.status_detail.is_empty());
}

#[test]
fn stale_status_after_a_same_puzzle_toggle_cannot_revert_the_toggle() {
    let mut app = app_with_current_puzzle("status-then-toggle");
    let status_generation = app.next_favorite_generation();
    let toggle_generation = app.next_favorite_generation();

    app.favorite_reply("status-then-toggle", toggle_generation, Ok(true));
    app.favorite_reply("status-then-toggle", status_generation, Ok(false));

    assert_eq!(app.current_favorite, Some(true));
}

#[test]
fn stale_toggle_for_the_same_puzzle_is_invisible() {
    let mut app = app_with_current_puzzle("stale-toggle");
    let toggle_generation = app.next_favorite_generation();
    let newer_generation = app.next_favorite_generation();
    let feedback_before = app.session.feedback;

    app.favorite_reply("stale-toggle", newer_generation, Ok(false));
    app.favorite_reply("stale-toggle", toggle_generation, Err("stale toggle failure".into()));

    assert_eq!(app.current_favorite, Some(false));
    assert_eq!(app.session.feedback, feedback_before);
}

#[test]
fn returning_to_a_puzzle_does_not_accept_its_first_visit_response() {
    let mut app = studio_with(vec![navigation_puzzle("first-a"), navigation_puzzle("middle-b"), navigation_puzzle("first-a")]);
    let first_a_generation = app.next_favorite_generation();

    let _ = app.show_next_puzzle();
    let _ = app.show_next_puzzle();
    let returning_a_generation = app.favorite_generation;
    assert_ne!(returning_a_generation, first_a_generation);
    app.current_favorite = Some(true);
    let feedback_before = app.session.feedback;

    app.favorite_reply("first-a", first_a_generation, Err("first visit failure".into()));

    assert_eq!(app.current_favorite, Some(true));
    assert_eq!(app.session.feedback, feedback_before);
}

#[test]
fn redo_keeps_known_favorite_state_and_generation_for_the_same_puzzle() {
    let mut app = app_with_current_puzzle("redo-favorite");
    app.current_favorite = Some(true);
    let generation_before_redo = app.favorite_generation;
    let puzzle_id_before_redo = app.current_reviewable_puzzle().unwrap().puzzle_id.clone();

    app.redo_puzzle();

    assert_eq!(app.current_reviewable_puzzle().unwrap().puzzle_id, puzzle_id_before_redo);
    assert_eq!(app.current_favorite, Some(true));
    assert_eq!(app.favorite_generation, generation_before_redo);
}

#[test]
fn drag_auto_advance_refreshes_favorites_for_the_new_puzzle() {
    let mut app = studio_with(vec![auto_advance_puzzle("drag-first"), auto_advance_puzzle("drag-second")]);
    app.current_favorite = Some(true);
    app.favorite_generation = 41;

    let (outcome, lookup) = app.play_move(0, 8, PieceKind::Queen, true);

    assert!(outcome.puzzle_changed);
    assert_eq!(app.session.current_puzzle, 1);
    assert_eq!(app.current_reviewable_puzzle().unwrap().puzzle_id, "drag-second");
    assert_eq!(app.current_favorite, None);
    assert_eq!(app.favorite_generation, 42);
    let lookup = lookup.expect("the new puzzle's mark is asked for");
    assert_eq!(lookup.puzzle_id, "drag-second");
    assert_eq!(lookup.generation, 42);
}

#[test]
fn drag_without_auto_advance_preserves_favorites_state() {
    let mut app = studio_with(vec![auto_advance_puzzle("drag-first"), auto_advance_puzzle("drag-second")]);
    app.current_favorite = Some(true);
    app.favorite_generation = 41;

    let (outcome, lookup) = app.play_move(0, 1, PieceKind::Queen, true);

    assert!(!outcome.puzzle_changed);
    assert!(lookup.is_none());
    assert_eq!(app.session.current_puzzle, 0);
    assert_eq!(app.current_favorite, Some(true));
    assert_eq!(app.favorite_generation, 41);
}

#[test]
fn empty_project_puzzle_batch_keeps_the_loaded_snapshot_stable() {
    let mut app = app_with_current_puzzle("cms-023h-existing");
    let board = app.session.board.clone();

    assert_eq!(app.load_project_puzzles(Vec::new()), None);

    assert_eq!(app.session.puzzles.len(), 1);
    assert_eq!(app.session.puzzles[0].puzzle_id, "cms-023h-existing");
    assert_eq!(app.session.current_puzzle, 0);
    assert_eq!(app.session.board, board);
}

#[test]
fn no_puzzle_state_is_not_reviewable_or_actionable() {
    let mut app = PuzzleStudio::new();
    app.session.puzzles = vec![Puzzle::default()];
    app.session.current_puzzle = 0;
    app.session.game_status = GameStatus::NoPuzzles;

    assert!(app.current_reviewable_puzzle().is_none());
    assert!(app.refresh_current_favorite_status().is_none());
    assert!(app.favorite_action().is_none());
}

#[test]
fn clicks_select_a_piece_then_play_the_move() {
    let mut app = app_with_current_puzzle("clicks");
    assert_eq!(app.session.from_square, None);
    // An empty square selects nothing.
    let (moved, _) = app.select_square(15, PieceKind::Queen, false);
    assert!(moved.is_none());
    assert_eq!(app.session.from_square, None);
    // Black, to move, selects its king on h1; a second click keeps it.
    let (moved, _) = app.select_square(7, PieceKind::Queen, false);
    assert!(moved.is_none());
    assert_eq!(app.session.from_square, Some(7));
    let (moved, _) = app.select_square(7, PieceKind::Queen, false);
    assert!(moved.is_none());
    assert_eq!(app.session.from_square, Some(7));
    // Then a click on h2 plays the solution move.
    let (moved, _) = app.select_square(15, PieceKind::Queen, false);
    assert!(moved.is_some());
    assert_eq!(app.session.from_square, None);
    assert_eq!(app.session.game_status, GameStatus::PuzzleEnded);
}

#[test]
fn next_previous_and_jump_move_between_puzzles() {
    let mut app = studio_with(vec![navigation_puzzle("a"), navigation_puzzle("b"), navigation_puzzle("c")]);
    let lookup = app.show_next_puzzle().unwrap();
    assert_eq!(lookup.puzzle_id, "b");
    assert_eq!(app.session.puzzle_number_ui, "2");
    let lookup = app.show_previous_puzzle().unwrap();
    assert_eq!(lookup.puzzle_id, "a");
    assert_eq!(app.session.puzzle_number_ui, "1");
    app.session.puzzle_number_ui = "3".to_string();
    let lookup = app.jump_to_puzzle().unwrap();
    assert_eq!(lookup.puzzle_id, "c");
    assert_eq!(app.session.current_puzzle, 2);
    app.session.puzzle_number_ui = "9".to_string();
    let _ = app.jump_to_puzzle();
    assert_eq!(app.session.current_puzzle, 2);
    assert!(app.show_previous_puzzle().is_some());
    app.select_mode(GameMode::Analysis);
    assert!(app.show_previous_puzzle().is_none());
}

#[test]
fn hint_points_at_the_solvers_next_move() {
    let mut app = app_with_current_puzzle("hint");
    app.show_hint();
    // The solver's move is h1h2: it starts on h1.
    assert_eq!(app.session.hint_square, Some(7));
}

#[test]
fn analysis_moves_can_be_taken_back_to_the_puzzle_position() {
    let mut app = app_with_current_puzzle("analysis");
    app.select_mode(GameMode::Analysis);
    assert_eq!(app.session.analysis_board, app.session.board);
    // Black to move: h1h2 on the analysis board.
    let (outcome, _) = app.play_move(7, 15, PieceKind::Queen, false);
    assert!(outcome.engine_position.is_some());
    assert_eq!(app.session.history.len(), 2);
    let back = app.go_back_move().expect("one move is taken back");
    assert_eq!(app.session.history.len(), 1);
    assert_eq!(app.session.analysis_board, app.session.board);
    assert_eq!(back, app.session.board);
    assert!(app.go_back_move().is_none());
    app.select_mode(GameMode::Puzzle);
    app.truncate_analysis_history();
    assert_eq!(app.session.history.len(), 1);
}

fn reviewable_id(app: &PuzzleStudio) -> String {
    app.current_reviewable_puzzle().map(|p| p.puzzle_id.clone()).unwrap_or_default()
}

#[test]
fn previous_next_and_jump_refresh_the_review_for_the_current_puzzle() {
    let puzzles = vec![
        navigation_puzzle("cms-023e-first"),
        navigation_puzzle("cms-023e-second"),
        navigation_puzzle("cms-023e-third"),
    ];
    let mut app = studio_with(puzzles);
    assert_eq!(reviewable_id(&app), "cms-023e-first");

    let lookup = app.show_next_puzzle().unwrap();
    assert_eq!(reviewable_id(&app), "cms-023e-second");
    assert_eq!(lookup.puzzle_id, "cms-023e-second");

    let lookup = app.show_previous_puzzle().unwrap();
    assert_eq!(reviewable_id(&app), "cms-023e-first");
    assert_eq!(lookup.puzzle_id, "cms-023e-first");

    app.session.puzzle_number_ui = "3".to_string();
    let lookup = app.jump_to_puzzle().unwrap();
    assert_eq!(reviewable_id(&app), "cms-023e-third");
    assert_eq!(lookup.puzzle_id, "cms-023e-third");
}

#[test]
fn project_puzzle_batch_preserves_order_initializes_the_board_and_refreshes_review() {
    let puzzles = vec![
        navigation_puzzle("cms-023h-first"),
        navigation_puzzle("cms-023h-second"),
        navigation_puzzle("cms-023h-third"),
    ];
    let mut app = PuzzleStudio::new();

    assert_eq!(app.load_project_puzzles(puzzles.clone()), Some(true));

    assert_eq!(ids(&app), vec!["cms-023h-first", "cms-023h-second", "cms-023h-third"]);
    assert_eq!(app.session.current_puzzle, 0);
    assert_eq!(app.session.puzzle_number_ui, "1");
    assert_eq!(app.session.game_status, GameStatus::Playing);
    let expected = Board::from_str(&puzzles[0].fen)
        .unwrap()
        .make_move_new(ChessMove::new(Square::A1, Square::A2, None));
    assert_eq!(Board::from_str(&app.session.board).unwrap(), expected);
    assert_eq!(reviewable_id(&app), "cms-023h-first");

    let _ = app.show_next_puzzle();
    assert_eq!(reviewable_id(&app), "cms-023h-second");
    let _ = app.show_previous_puzzle();
    assert_eq!(reviewable_id(&app), "cms-023h-first");
    app.session.puzzle_number_ui = "3".to_string();
    let _ = app.jump_to_puzzle();
    assert_eq!(reviewable_id(&app), "cms-023h-third");
}
