use std::str::FromStr;

use chess::{Board, ChessMove};
use chess_material_studio::export::{
    chess_alpha_light_square_glyph, diagram_plan, diagram_position, exercise_label, move_to_standard_san,
    parse_legal_uci_move, pdf_board_labels, pdf_counts, pdf_solution_spans, pdf_span_style,
    solution_line_position, standard_san_to_pdf_spans, uci_move_to_pdf_spans, PdfSolutionFont, PdfSolutionSpan,
};
use chess_material_studio::models::Puzzle;

fn fixture_puzzle_00010() -> Puzzle {
    Puzzle {
        puzzle_id: "00010".to_string(),
        fen: "r1bqkb1r/pppppppp/2n2n2/4p3/2B1P3/5N2/PPPP1PPP/RNBQK2R w KQkq - 2 3".to_string(),
        moves: "f3g5 e7e6 g5f7".to_string(),
        rating: 1700,
        rating_deviation: 80,
        popularity: 92,
        nb_plays: 7500,
        themes: "fork sacrifice middlegame".to_string(),
        game_url: "https://lichess.org/training/ghi789".to_string(),
        opening: "Italian_Game".to_string(),
    }
}

fn bare(fen: &str, moves: &str) -> Puzzle {
    Puzzle {
        puzzle_id: "test".to_string(),
        fen: fen.to_string(),
        moves: moves.to_string(),
        rating: 0,
        rating_deviation: 0,
        popularity: 0,
        nb_plays: 0,
        themes: String::new(),
        game_url: String::new(),
        opening: String::new(),
    }
}

fn span(font: PdfSolutionFont, text: &str) -> PdfSolutionSpan {
    PdfSolutionSpan { font, text: text.to_string() }
}

fn fen(x: &str) -> String {
    Board::from_str(x).unwrap().to_string()
}

fn after_trigger(puzzle: &Puzzle) -> (Board, Vec<String>) {
    let board = Board::from_str(&puzzle.fen).unwrap();
    let moves: Vec<String> = puzzle.moves.split_whitespace().map(|m| m.to_string()).collect();
    let trigger = parse_legal_uci_move(&board.to_string(), &moves[0]).unwrap();
    (board.make_move_new(ChessMove::from_str(&trigger).unwrap()), moves)
}

#[test]
fn test_pdf_board_labels_white_at_bottom() {
    let (files, ranks) = pdf_board_labels(true);
    assert_eq!(files, [0, 1, 2, 3, 4, 5, 6, 7]);
    assert_eq!(ranks, [7, 6, 5, 4, 3, 2, 1, 0]);
}

#[test]
fn test_pdf_board_labels_black_at_bottom() {
    let (files, ranks) = pdf_board_labels(false);
    assert_eq!(files, [7, 6, 5, 4, 3, 2, 1, 0]);
    assert_eq!(ranks, [0, 1, 2, 3, 4, 5, 6, 7]);
}

#[test]
fn test_chess_alpha_light_square_glyph_mapping() {
    assert_eq!(chess_alpha_light_square_glyph('K'), 'k');
    assert_eq!(chess_alpha_light_square_glyph('Q'), 'q');
    assert_eq!(chess_alpha_light_square_glyph('R'), 'r');
    assert_eq!(chess_alpha_light_square_glyph('B'), 'b');
    assert_eq!(chess_alpha_light_square_glyph('N'), 'h');
    assert_eq!(chess_alpha_light_square_glyph('x'), 'x');
    assert_eq!(chess_alpha_light_square_glyph('e'), 'e');
}

#[test]
fn test_san_to_spans_rook() {
    let spans = standard_san_to_pdf_spans("Rb1+");
    assert_eq!(spans, vec![span(PdfSolutionFont::Figurine, "r"), span(PdfSolutionFont::Regular, "b1+")]);
}

#[test]
fn test_san_to_spans_queen_capture() {
    let spans = standard_san_to_pdf_spans("Qxe7+");
    assert_eq!(spans, vec![span(PdfSolutionFont::Figurine, "q"), span(PdfSolutionFont::Regular, "xe7+")]);
}

#[test]
fn test_san_to_spans_knight() {
    let spans = standard_san_to_pdf_spans("Nxf7");
    assert_eq!(spans, vec![span(PdfSolutionFont::Figurine, "h"), span(PdfSolutionFont::Regular, "xf7")]);
}

#[test]
fn test_san_to_spans_bishop() {
    let spans = standard_san_to_pdf_spans("Bf5");
    assert_eq!(spans, vec![span(PdfSolutionFont::Figurine, "b"), span(PdfSolutionFont::Regular, "f5")]);
}

#[test]
fn test_san_to_spans_king() {
    let spans = standard_san_to_pdf_spans("Kd2");
    assert_eq!(spans, vec![span(PdfSolutionFont::Figurine, "k"), span(PdfSolutionFont::Regular, "d2")]);
}

#[test]
fn test_san_to_spans_pawn() {
    let spans = standard_san_to_pdf_spans("e4");
    assert_eq!(spans, vec![span(PdfSolutionFont::Regular, "e4")]);
}

#[test]
fn test_san_to_spans_promotion() {
    let spans = standard_san_to_pdf_spans("e1=Q");
    assert_eq!(spans, vec![span(PdfSolutionFont::Regular, "e1="), span(PdfSolutionFont::Figurine, "q")]);
}

#[test]
fn test_san_to_spans_promotion_knight() {
    let spans = standard_san_to_pdf_spans("e1=N+");
    assert_eq!(
        spans,
        vec![
            span(PdfSolutionFont::Regular, "e1="),
            span(PdfSolutionFont::Figurine, "h"),
            span(PdfSolutionFont::Regular, "+"),
        ]
    );
}

#[test]
fn test_san_to_spans_castling_kingside() {
    let spans = standard_san_to_pdf_spans("O-O");
    assert_eq!(spans, vec![span(PdfSolutionFont::Regular, "O-O")]);
}

#[test]
fn test_san_to_spans_castling_queenside() {
    let spans = standard_san_to_pdf_spans("O-O-O");
    assert_eq!(spans, vec![span(PdfSolutionFont::Regular, "O-O-O")]);
}

#[test]
fn test_san_to_spans_disambiguation_file() {
    let spans = standard_san_to_pdf_spans("Nbd2");
    assert_eq!(spans, vec![span(PdfSolutionFont::Figurine, "h"), span(PdfSolutionFont::Regular, "bd2")]);
}

#[test]
fn test_san_to_spans_disambiguation_rank() {
    let spans = standard_san_to_pdf_spans("R1a2");
    assert_eq!(spans, vec![span(PdfSolutionFont::Figurine, "r"), span(PdfSolutionFont::Regular, "1a2")]);
}

#[test]
fn test_uci_to_spans_rook() {
    let board = fen("4k3/8/8/8/8/8/8/R3K3 w - - 0 1");
    let spans = uci_move_to_pdf_spans(&board, "a1b1").unwrap();
    assert_eq!(spans, vec![span(PdfSolutionFont::Figurine, "r"), span(PdfSolutionFont::Regular, "b1")]);
}

#[test]
fn test_uci_to_spans_queen_capture_checkmate() {
    let board = fen("r1bqkb1r/pppp1ppp/2n2n2/4p2Q/2B1P3/8/PPPP1PPP/RNB1K1NR w KQkq - 4 4");
    let spans = uci_move_to_pdf_spans(&board, "h5f7").unwrap();
    assert_eq!(spans, vec![span(PdfSolutionFont::Figurine, "q"), span(PdfSolutionFont::Regular, "xf7#")]);
}

#[test]
fn test_uci_to_spans_knight() {
    let board = Board::default().to_string();
    let spans = uci_move_to_pdf_spans(&board, "g1f3").unwrap();
    assert_eq!(spans, vec![span(PdfSolutionFont::Figurine, "h"), span(PdfSolutionFont::Regular, "f3")]);
}

#[test]
fn test_uci_to_spans_bishop() {
    let board = fen("r1bqkbnr/pppppppp/2n5/4p3/4P3/5N2/PPPP1PPP/RNBQKB1R w KQkq - 2 3");
    let spans = uci_move_to_pdf_spans(&board, "f1c4").unwrap();
    assert_eq!(spans, vec![span(PdfSolutionFont::Figurine, "b"), span(PdfSolutionFont::Regular, "c4")]);
}

#[test]
fn test_uci_to_spans_king() {
    let board = fen("4k3/8/8/8/8/8/8/4K3 w - - 0 1");
    let spans = uci_move_to_pdf_spans(&board, "e1e2").unwrap();
    assert_eq!(spans, vec![span(PdfSolutionFont::Figurine, "k"), span(PdfSolutionFont::Regular, "e2")]);
}

#[test]
fn test_uci_to_spans_pawn() {
    let board = Board::default().to_string();
    let spans = uci_move_to_pdf_spans(&board, "e2e4").unwrap();
    assert_eq!(spans, vec![span(PdfSolutionFont::Regular, "e4")]);
}

#[test]
fn test_uci_to_spans_promotion() {
    let board = fen("8/4P3/8/8/8/8/8/4K2k w - - 0 1");
    let spans = uci_move_to_pdf_spans(&board, "e7e8q").unwrap();
    assert_eq!(spans, vec![span(PdfSolutionFont::Regular, "e8="), span(PdfSolutionFont::Figurine, "q")]);
}

#[test]
fn test_uci_to_spans_castling_kingside() {
    let board = fen("r3k2r/pppppppp/8/8/8/8/PPPPPPPP/R3K2R w KQkq - 0 1");
    let spans = uci_move_to_pdf_spans(&board, "e1g1").unwrap();
    assert_eq!(spans, vec![span(PdfSolutionFont::Regular, "O-O")]);
}

#[test]
fn test_uci_to_spans_castling_queenside() {
    let board = fen("r3k2r/pppppppp/8/8/8/8/PPPPPPPP/R3K2R w KQkq - 0 1");
    let spans = uci_move_to_pdf_spans(&board, "e1c1").unwrap();
    assert_eq!(spans, vec![span(PdfSolutionFont::Regular, "O-O-O")]);
}

#[test]
fn test_uci_to_spans_disambiguation_file() {
    let board = fen("4k3/8/8/8/8/8/R1R5/4K3 w - - 0 1");
    let spans = uci_move_to_pdf_spans(&board, "a2b2").unwrap();
    assert_eq!(spans, vec![span(PdfSolutionFont::Figurine, "r"), span(PdfSolutionFont::Regular, "ab2")]);
}

#[test]
fn test_uci_to_spans_disambiguation_rank() {
    let board = fen("4k3/8/8/8/8/R7/8/R3K3 w - - 0 1");
    let spans = uci_move_to_pdf_spans(&board, "a1a2").unwrap();
    assert_eq!(spans, vec![span(PdfSolutionFont::Figurine, "r"), span(PdfSolutionFont::Regular, "1a2")]);
}

#[test]
fn test_uci_to_spans_language_independent() {
    let board = Board::default().to_string();
    let spans_en = uci_move_to_pdf_spans(&board, "e2e4").unwrap();
    let spans_es = uci_move_to_pdf_spans(&board, "e2e4").unwrap();
    assert_eq!(spans_en, spans_es);
}

#[test]
fn test_uci_to_spans_sequence_matches_ucis() {
    let puzzle = fixture_puzzle_00010();
    let (mut board, moves) = after_trigger(&puzzle);
    for uci in &moves[1..] {
        let here = board.to_string();
        let spans = uci_move_to_pdf_spans(&here, uci).unwrap();
        let cm = parse_legal_uci_move(&here, uci).unwrap();
        let expected_san = move_to_standard_san(&here, &cm).unwrap();
        let expected_spans = standard_san_to_pdf_spans(&expected_san);
        assert_eq!(spans, expected_spans, "Span mismatch for UCI {}", uci);
        board = board.make_move_new(ChessMove::from_str(&cm).unwrap());
    }
}

#[test]
fn test_uci_to_spans_real_fixture_00010() {
    let puzzle = fixture_puzzle_00010();
    let (mut board, moves) = after_trigger(&puzzle);
    for uci in &moves[1..] {
        let here = board.to_string();
        let spans = uci_move_to_pdf_spans(&here, uci).unwrap();
        assert!(!spans.is_empty(), "UCI {} produced empty spans", uci);
        let cm = parse_legal_uci_move(&here, uci).unwrap();
        let san = move_to_standard_san(&here, &cm).unwrap();
        let total: String = spans.iter().map(|s| s.text.as_str()).collect();
        assert_eq!(total, san.replace('N', "h"));
        if san.starts_with(|c: char| "KQRBN".contains(c)) {
            assert!(spans.iter().any(|s| s.font == PdfSolutionFont::Figurine));
        }
        board = board.make_move_new(ChessMove::from_str(&cm).unwrap());
    }
}

#[test]
fn test_uci_to_spans_refuses_illegal_move() {
    let board = Board::default().to_string();
    assert!(uci_move_to_pdf_spans(&board, "e2e5").is_err());
    assert!(uci_move_to_pdf_spans(&board, "e2").is_err());
}

#[test]
fn test_solution_exercise_number_42() {
    assert_eq!(exercise_label(41), "42)");
}

#[test]
fn test_solution_starts_with_exercise_number() {
    let spans = pdf_solution_spans(0, &fixture_puzzle_00010()).unwrap();
    assert_eq!(spans[0], span(PdfSolutionFont::Regular, "1)"));
    let total: String = spans.iter().map(|s| s.text.as_str()).collect();
    assert!(total.starts_with("1) 1. ..."), "got: {}", total);
}

#[test]
fn pdf_solution_spans_black_first_exact() {
    let spans = pdf_solution_spans(0, &fixture_puzzle_00010()).unwrap();
    assert_eq!(
        spans,
        vec![
            span(PdfSolutionFont::Regular, "1)"),
            span(PdfSolutionFont::Regular, " 1. ... "),
            span(PdfSolutionFont::Regular, " "),
            span(PdfSolutionFont::Regular, "e6"),
            span(PdfSolutionFont::Regular, " 2. "),
            span(PdfSolutionFont::Figurine, "h"),
            span(PdfSolutionFont::Regular, "xf7"),
        ]
    );
}

#[test]
fn pdf_solution_spans_white_first_exact() {
    let puzzle = bare("r3k3/8/8/8/8/8/8/4K3 b - - 0 1", "a8a7 e1e2");
    let spans = pdf_solution_spans(41, &puzzle).unwrap();
    assert_eq!(
        spans,
        vec![
            span(PdfSolutionFont::Regular, "42)"),
            span(PdfSolutionFont::Regular, " 1. "),
            span(PdfSolutionFont::Figurine, "k"),
            span(PdfSolutionFont::Regular, "e2"),
        ]
    );
}

#[test]
fn pdf_solution_spans_refuses_bad_puzzles() {
    assert!(pdf_solution_spans(0, &bare("not a fen", "e2e4 e7e5")).is_err());
    assert!(pdf_solution_spans(0, &bare("4k3/8/8/8/8/8/8/4K3 w - - 0 1", "")).is_err());
    assert!(pdf_solution_spans(0, &bare("4k3/8/8/8/8/8/8/4K3 w - - 0 1", "e1e2 a1a2")).is_err());
}

#[test]
fn diagram_plan_of_fixture_00010() {
    let plan = diagram_plan(1, &fixture_puzzle_00010(), 750, 75).unwrap();
    assert!(!plan.white_at_bottom);
    assert_eq!(plan.number, "1");
    assert_eq!((plan.header_x, plan.header_y), (165, 780));
    assert_eq!((plan.icon_cx, plan.icon_cy), (181, 785));
    assert_eq!(plan.rank_labels.len(), 8);
    assert_eq!(plan.rank_labels[0], (65, 755, '1'));
    assert_eq!(plan.rank_labels[7], (65, 580, '8'));
    assert_eq!(plan.file_labels[0], (85, 560, 'h'));
    assert_eq!(plan.file_labels[7], (260, 560, 'a'));
    assert_eq!(plan.rows.len(), 8);
    assert_eq!(plan.rows[0], "r+ KqBhR");
}

#[test]
fn diagram_plan_refuses_a_bad_fen() {
    assert!(diagram_plan(0, &bare("bad", "e2e4"), 750, 75).is_err());
    assert!(diagram_plan(0, &bare("4k3/8/8/8/8/8/8/4K3 w - - 0 1", ""), 750, 75).is_err());
}

#[test]
fn pdf_counts_and_positions() {
    assert_eq!(pdf_counts(2, 20), (12, 2));
    assert_eq!(pdf_counts(5, 7), (7, 2));
    assert_eq!(pdf_counts(1, 6), (6, 1));
    assert_eq!(diagram_position(0), (750, 75));
    assert_eq!(diagram_position(3), (500, 325));
    assert_eq!(solution_line_position(0), (800, false));
    assert_eq!(solution_line_position(43), (26, true));
    assert_eq!(solution_line_position(44), (800, false));
    assert_eq!(pdf_span_style(PdfSolutionFont::Regular), ("Regular", 0));
    assert_eq!(pdf_span_style(PdfSolutionFont::Figurine), ("Chess Alpha", -1));
}

/// Every text that a diagram plan prints: the number, the rows of glyphs and
/// the coordinate labels.
fn plan_texts(plan: &chess_material_studio::export::DiagramPlan) -> Vec<String> {
    let mut texts = vec![plan.number.clone()];
    texts.extend(plan.rows.iter().cloned());
    texts.extend(plan.rank_labels.iter().map(|l| l.2.to_string()));
    texts.extend(plan.file_labels.iter().map(|l| l.2.to_string()));
    texts
}

#[test]
fn test_pdf_side_after_trigger_black_to_move() {
    let plan = diagram_plan(1, &fixture_puzzle_00010(), 750, 75).unwrap();
    assert!(!plan.white_at_bottom);
}

#[test]
fn test_pdf_side_after_trigger_white_to_move() {
    let puzzle = bare("r3k3/8/8/8/8/8/8/4K3 b - - 0 1", "a8a7 e1e2");
    let plan = diagram_plan(1, &puzzle, 750, 75).unwrap();
    assert!(plan.white_at_bottom);
}

#[test]
fn test_pdf_header_no_last_move_text() {
    let plan = diagram_plan(1, &fixture_puzzle_00010(), 750, 75).unwrap();
    let all_text = plan_texts(&plan).join(" ");
    assert!(!all_text.contains("Ultimo"));
    assert!(!all_text.contains("Last move"));
    assert!(!all_text.contains("last move"));
    assert!(!all_text.contains("Juegan"));
    assert!(!all_text.contains("to move"));
}

#[test]
fn test_pdf_header_contains_number() {
    let plan = diagram_plan(42, &fixture_puzzle_00010(), 750, 75).unwrap();
    let all_text = plan_texts(&plan).join("");
    assert!(all_text.contains("42"), "Header must contain exercise number '42'");
}

#[test]
fn test_pdf_header_no_trigger_san() {
    let puzzle = fixture_puzzle_00010();
    let plan = diagram_plan(1, &puzzle, 750, 75).unwrap();
    let all_text = plan_texts(&plan).join(" ");
    let board = Board::from_str(&puzzle.fen).unwrap();
    let trigger = parse_legal_uci_move(&board.to_string(), "f3g5").unwrap();
    let trigger_san = move_to_standard_san(&board.to_string(), &trigger).unwrap();
    assert!(!all_text.contains(&trigger_san), "Trigger SAN '{}' must not appear in diagram", trigger_san);
}

#[test]
fn test_pdf_coordinates_black_at_bottom() {
    let plan = diagram_plan(1, &fixture_puzzle_00010(), 750, 75).unwrap();
    let all_text = plan_texts(&plan).join("");
    for c in 'a'..='h' {
        assert!(all_text.contains(c), "File label '{}' missing", c);
    }
    for c in '1'..='8' {
        assert!(all_text.contains(c), "Rank label '{}' missing", c);
    }
}

#[test]
fn test_pdf_solution_spans_produce_mixed_fonts() {
    let board = "r1bqkb1r/pppp1ppp/2n2n2/4p2Q/2B1P3/8/PPPP1PPP/RNB1K1NR w KQkq - 4 4";
    let spans = uci_move_to_pdf_spans(board, "h5f7").unwrap();
    let fonts: Vec<&str> = spans.iter().map(|s| pdf_span_style(s.font).0).collect();
    assert!(fonts.contains(&"Chess Alpha"), "Solution must use Chess Alpha font for figurine");
    assert!(fonts.contains(&"Regular"), "Solution must use Regular font for non-figurine text");
}

#[test]
fn test_append_solution_spans_text_rise() {
    let spans = vec![
        PdfSolutionSpan { font: PdfSolutionFont::Figurine, text: "q".into() },
        PdfSolutionSpan { font: PdfSolutionFont::Regular, text: "xf7#".into() },
    ];
    let rises: Vec<i32> = spans.iter().map(|s| pdf_span_style(s.font).1).collect();
    assert!(rises.windows(2).any(|w| w[0] == -1 && w[1] == 0), "got: {:?}", rises);
    assert_eq!(rises.len(), 2);
}

#[test]
fn test_pdf_coordinates_white_at_bottom() {
    let puzzle = bare("r3k3/8/8/8/8/8/8/4K3 b - - 0 1", "a8a7 e1e2");
    let plan = diagram_plan(1, &puzzle, 750, 75).unwrap();
    let all_text = plan_texts(&plan).join("");
    for c in 'a'..='h' {
        assert!(all_text.contains(c), "File label '{}' missing", c);
    }
    for c in '1'..='8' {
        assert!(all_text.contains(c), "Rank label '{}' missing", c);
    }
}
