use chess_material_studio::chunk_benchmark::{check_chunk_result, check_fresh_db, check_source_unchanged};
use chess_material_studio::chunk_benchmark::{
    ceiling_div, chunk_sizes, parse_args_from, validate_scratch_db_count, BenchmarkOutcome,
};

fn args(items: &[&str]) -> Vec<String> {
    items.iter().map(|s| s.to_string()).collect()
}

#[test]
fn test_parse_full_args() {
    match parse_args_from(&args(&["--csv", "puzzles/lichess_db_puzzle.csv", "--rows", "1000000"])).unwrap() {
        BenchmarkOutcome::Run(parsed) => {
            assert_eq!(parsed.csv, "puzzles/lichess_db_puzzle.csv");
            assert_eq!(parsed.rows, 1_000_000);
        }
        BenchmarkOutcome::Help => panic!("expected Run, got Help"),
    }
}

#[test]
fn import_chunk_benchmark_test_parse_help() {
    match parse_args_from(&args(&["--help"])).unwrap() {
        BenchmarkOutcome::Help => {}
        BenchmarkOutcome::Run(_) => panic!("expected Help, got Run"),
    }
}

#[test]
fn import_chunk_benchmark_test_parse_help_short() {
    match parse_args_from(&args(&["-h"])).unwrap() {
        BenchmarkOutcome::Help => {}
        BenchmarkOutcome::Run(_) => panic!("expected Help, got Run"),
    }
}

#[test]
fn import_chunk_benchmark_test_parse_missing_csv() {
    assert!(parse_args_from(&args(&["--rows", "1000"])).is_err());
}

#[test]
fn test_parse_missing_rows() {
    assert!(parse_args_from(&args(&["--csv", "data.csv"])).is_err());
}

#[test]
fn test_parse_rows_zero() {
    assert!(parse_args_from(&args(&["--csv", "data.csv", "--rows", "0"])).is_err());
}

#[test]
fn test_parse_rows_over_limit() {
    assert!(parse_args_from(&args(&["--csv", "data.csv", "--rows", "1000001"])).is_err());
}

#[test]
fn import_chunk_benchmark_test_parse_unknown_argument() {
    assert!(parse_args_from(&args(&["--csv", "data.csv", "--rows", "1000", "--bogus"])).is_err());
}

#[test]
fn test_ceiling_div_exact() {
    assert_eq!(ceiling_div(10, 10), 1);
    assert_eq!(ceiling_div(100, 10), 10);
}

#[test]
fn test_ceiling_div_remainder() {
    assert_eq!(ceiling_div(11, 10), 2);
    assert_eq!(ceiling_div(1, 10), 1);
    assert_eq!(ceiling_div(999, 100), 10);
}

#[test]
fn test_ceiling_div_one_million() {
    assert_eq!(ceiling_div(1_000_000, 1_000), 1_000);
    assert_eq!(ceiling_div(1_000_000, 5_000), 200);
    assert_eq!(ceiling_div(1_000_000, 10_000), 100);
    assert_eq!(ceiling_div(1_000_000, 25_000), 40);
    assert_eq!(ceiling_div(1_000_000, 50_000), 20);
    assert_eq!(ceiling_div(1_000_000, 100_000), 10);
}

#[test]
fn test_parse_rows_exact_limit() {
    match parse_args_from(&args(&["--csv", "data.csv", "--rows", "1000000"])).unwrap() {
        BenchmarkOutcome::Run(parsed) => assert_eq!(parsed.rows, 1_000_000),
        BenchmarkOutcome::Help => panic!("expected Run"),
    }
}

#[test]
fn test_parse_rows_minimum() {
    match parse_args_from(&args(&["--csv", "data.csv", "--rows", "1"])).unwrap() {
        BenchmarkOutcome::Run(parsed) => assert_eq!(parsed.rows, 1),
        BenchmarkOutcome::Help => panic!("expected Run"),
    }
}

#[test]
fn test_parse_multiple_unknown() {
    assert!(parse_args_from(&args(&["--csv", "data.csv", "--rows", "1000", "--foo", "--bar"])).is_err());
}

#[test]
fn test_validate_scratch_db_count_exact() {
    assert!(validate_scratch_db_count(chunk_sizes().len()).is_ok());
}

#[test]
fn test_validate_scratch_db_count_too_few() {
    assert!(validate_scratch_db_count(5).is_err());
}

#[test]
fn test_validate_scratch_db_count_too_many() {
    assert!(validate_scratch_db_count(7).is_err());
}

#[test]
fn benchmark_error_messages_are_exact() {
    assert_eq!(parse_args_from(&[]).unwrap_err(), "no arguments provided");
    assert_eq!(parse_args_from(&args(&["--rows", "5"])).unwrap_err(), "missing required argument: --csv");
    assert_eq!(
        parse_args_from(&args(&["--csv", "a", "--rows", "2000000"])).unwrap_err(),
        "rows limit: maximum is 1000000 (got 2000000)"
    );
    assert_eq!(parse_args_from(&args(&["--csv", "a", "--rows", "x"])).unwrap_err(), "invalid --rows: x");
    assert_eq!(parse_args_from(&args(&["--csv"])).unwrap_err(), "--csv requires a value");
    assert_eq!(validate_scratch_db_count(5).unwrap_err(), "scratch DB count mismatch: expected 6, got 5");
    assert_eq!(chunk_sizes(), vec![1_000, 5_000, 10_000, 25_000, 50_000, 100_000]);
}

#[test]
fn chunk_results_are_checked_against_the_rows_asked_for() {
    assert!(check_fresh_db(1000, 0).is_ok());
    assert_eq!(check_fresh_db(1000, 3).unwrap_err(), "DB for chunk=1000 should start with 0 rows, got 3");
    assert!(check_chunk_result(1000, 5000, 5000, 5000, 5000).is_ok());
    assert_eq!(check_chunk_result(1000, 5000, 4999, 5000, 5000).unwrap_err(), "chunk=1000: inserted_rows 4999 != requested 5000");
    assert_eq!(check_chunk_result(1000, 5000, 5000, 4998, 5000).unwrap_err(), "chunk=1000: final_rows 4998 != requested 5000");
    assert_eq!(check_chunk_result(1000, 5000, 5000, 5000, -1).unwrap_err(), "chunk=1000: checkpoint -1 != requested 5000");
    assert!(check_source_unchanged("abc", "abc").is_ok());
    assert_eq!(check_source_unchanged("abc", "abd").unwrap_err(), "SOURCE INTEGRITY VIOLATION: before=abc after=abd");
}
