use chess_material_studio::models::Puzzle;
use chess_material_studio::project::{
    blank, check_project_metadata, decision_error, group_selected_puzzles, project_metadata_from_record,
    reorder_plan, review_from_record, validate_chapter_order, validate_name, validate_target_puzzle_count,
    ProjectChapter, ProjectMetadataRecord, ProjectPuzzleDecision, PuzzleReviewRecord, SelectedPuzzleRow,
    PROJECT_APPLICATION_ID, PROJECT_SCHEMA_VERSION,
};

fn chapter(id: i32, position: i32) -> ProjectChapter {
    ProjectChapter { id, name: format!("Chapter {id}"), position, target_puzzle_count: None, created_at: "2026-01-01".into() }
}

fn record(application_id: &str, version: i32, name: &str) -> ProjectMetadataRecord {
    ProjectMetadataRecord {
        application_id: application_id.into(),
        schema_version: version,
        project_name: name.into(),
        created_at: "2026-01-01T00:00:00Z".into(),
    }
}

fn row(chapter_id: i32, puzzle_id: &str) -> SelectedPuzzleRow {
    SelectedPuzzleRow {
        chapter_id,
        chapter_name: format!("Chapter {chapter_id}"),
        chapter_position: chapter_id,
        puzzle: Puzzle { puzzle_id: puzzle_id.into(), ..Puzzle::default() },
    }
}

#[test]
fn creating_rejects_empty_or_whitespace_only_project_names() {
    assert_eq!(validate_name("", "project name").unwrap_err(), "project name cannot be empty");
    assert_eq!(validate_name(" \t\n", "project name").unwrap_err(), "project name cannot be empty");
    assert!(validate_name(" Tactics ", "project name").is_ok());
    assert!(blank("   "));
    assert!(!blank(" a "));
}

#[test]
fn chapter_targets_must_be_positive() {
    assert!(validate_target_puzzle_count(None).is_ok());
    assert!(validate_target_puzzle_count(Some(12)).is_ok());
    assert_eq!(
        validate_target_puzzle_count(Some(0)).unwrap_err(),
        "target puzzle count must be greater than zero"
    );
    assert!(validate_target_puzzle_count(Some(-3)).is_err());
}

#[test]
fn reorder_rejects_duplicate_unknown_and_missing_ids_without_changes() {
    let chapters = vec![chapter(1, 1), chapter(2, 2), chapter(3, 3)];
    assert_eq!(validate_chapter_order(&chapters, &[1, 1, 2]).unwrap_err(), "chapter order contains duplicate IDs");
    assert_eq!(validate_chapter_order(&chapters, &[1, 2, 9]).unwrap_err(), "chapter order contains an unknown ID");
    assert_eq!(validate_chapter_order(&chapters, &[1, 2]).unwrap_err(), "chapter order is missing an existing ID");
    assert!(validate_chapter_order(&chapters, &[3, 1, 2]).is_ok());
    assert!(reorder_plan(&chapters, &[1, 2]).is_err());
}

#[test]
fn reordering_sparse_positions_uses_collision_free_staging() {
    let chapters = vec![chapter(7, 10), chapter(8, 20), chapter(9, 30)];
    let plan = reorder_plan(&chapters, &[9, 7, 8]).unwrap();
    assert_eq!(plan, vec![(7, 31), (8, 32), (9, 33), (9, 1), (7, 2), (8, 3)]);
}

#[test]
fn reordering_contiguous_positions_stages_above_them() {
    let chapters = vec![chapter(1, 1), chapter(2, 2)];
    let plan = reorder_plan(&chapters, &[2, 1]).unwrap();
    assert_eq!(plan, vec![(1, 3), (2, 4), (2, 1), (1, 2)]);
    assert_eq!(reorder_plan(&[], &[]).unwrap(), Vec::<(i32, i32)>::new());
    let top = vec![chapter(1, i32::MAX)];
    assert_eq!(reorder_plan(&top, &[1]).unwrap_err(), "chapter positions cannot be staged safely");
}

#[test]
fn project_metadata_is_checked_before_use() {
    assert_eq!(check_project_metadata(&record(PROJECT_APPLICATION_ID, 3, "P"), false), Ok(false));
    assert_eq!(check_project_metadata(&record(PROJECT_APPLICATION_ID, 1, "P"), false), Ok(true));
    assert_eq!(
        check_project_metadata(&record("other", 3, "P"), false).unwrap_err(),
        "SQLite file is not a Chess Material Studio project"
    );
    assert_eq!(
        check_project_metadata(&record(PROJECT_APPLICATION_ID, 3, "  "), false).unwrap_err(),
        "project metadata is missing required values"
    );
    assert_eq!(
        check_project_metadata(&record(PROJECT_APPLICATION_ID, 4, "P"), false).unwrap_err(),
        "unsupported project schema version: 4"
    );
    assert_eq!(
        check_project_metadata(&record(PROJECT_APPLICATION_ID, 0, "P"), false).unwrap_err(),
        "unsupported project schema version: 0"
    );
    assert_eq!(
        check_project_metadata(&record(PROJECT_APPLICATION_ID, 2, "P"), true).unwrap_err(),
        "project schema version 2 is not readable without an upgrade"
    );
    assert_eq!(check_project_metadata(&record(PROJECT_APPLICATION_ID, PROJECT_SCHEMA_VERSION, "P"), true), Ok(false));
    let meta = project_metadata_from_record(&record(PROJECT_APPLICATION_ID, 3, "Book"));
    assert_eq!(meta.project_name, "Book");
    assert_eq!(meta.schema_version, 3);
}

#[test]
fn project_selected_puzzles_are_grouped_in_order() {
    let groups = group_selected_puzzles(vec![row(1, "a"), row(1, "b"), row(2, "c"), row(1, "d")]);
    assert_eq!(groups.len(), 3);
    assert_eq!(groups[0].chapter_id, 1);
    assert_eq!(groups[0].puzzles.iter().map(|p| p.puzzle_id.as_str()).collect::<Vec<_>>(), vec!["a", "b"]);
    assert_eq!(groups[1].chapter_id, 2);
    assert_eq!(groups[1].chapter_name, "Chapter 2");
    assert_eq!(groups[2].puzzles[0].puzzle_id, "d");
    assert!(group_selected_puzzles(Vec::new()).is_empty());
}

#[test]
fn decisions_are_stored_as_text() {
    assert_eq!(ProjectPuzzleDecision::Selected.as_sql_value(), "selected");
    assert_eq!(ProjectPuzzleDecision::Discarded.as_sql_value(), "discarded");
    assert_eq!(ProjectPuzzleDecision::from_sql_value("selected"), Ok(ProjectPuzzleDecision::Selected));
    assert_eq!(
        ProjectPuzzleDecision::from_sql_value("maybe").unwrap_err(),
        "project puzzle review has an invalid decision"
    );
    let review = review_from_record(PuzzleReviewRecord {
        chapter_id: 4,
        puzzle: Puzzle { puzzle_id: "x".into(), ..Puzzle::default() },
        decision: "discarded".into(),
        reviewed_at: "t".into(),
    })
    .unwrap();
    assert_eq!(review.decision, ProjectPuzzleDecision::Discarded);
    assert_eq!(review.chapter_id, 4);
}

#[test]
fn duplicate_selected_puzzles_are_protected_across_chapters() {
    assert_eq!(
        decision_error(true, ProjectPuzzleDecision::Selected, "UNIQUE constraint failed"),
        "puzzle is already selected in another chapter"
    );
    assert_eq!(
        decision_error(true, ProjectPuzzleDecision::Discarded, "UNIQUE constraint failed"),
        "cannot set puzzle decision: UNIQUE constraint failed"
    );
    assert_eq!(decision_error(false, ProjectPuzzleDecision::Selected, "locked"), "cannot set puzzle decision: locked");
}
