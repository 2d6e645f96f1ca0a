//! The command line and the small rules of the chunk-size benchmark: which
//! CSV to read, how many rows each chunk size imports, how many transactions
//! a run takes and how many scratch databases a run must leave.

use vstd::prelude::*;
use crate::eval::opt_text;
use crate::import_args::{is_arg, message_with, parse_usize, parse_usize_spec};
use crate::text::{
    chars_of, decimal, push_decimal, push_signed_decimal, push_str, seq_eq_str, signed_decimal,
    string_from_chars,
};

verus! {

/// The largest number of rows a benchmark run may import.
pub const MAX_ROWS: usize = 1_000_000;

/// The chunk sizes that a benchmark run compares, smallest first.
pub open spec fn chunk_sizes_spec() -> Seq<usize> {
    seq![1_000usize, 5_000, 10_000, 25_000, 50_000, 100_000]
}

/// The chunk sizes that a benchmark run compares, smallest first.
pub fn chunk_sizes() -> (res: Vec<usize>)
    ensures
        res@ == chunk_sizes_spec(),
{
    let v: Vec<usize> = vec![1_000, 5_000, 10_000, 25_000, 50_000, 100_000];
    assert(v@ =~= chunk_sizes_spec());
    v
}

/// What the benchmark's command line asks for.
#[derive(Debug)]
pub struct BenchmarkArgs {
    pub csv: String,
    pub rows: usize,
}

/// Either a benchmark to run, or the usage text to print.
#[derive(Debug)]
pub enum BenchmarkOutcome {
    Run(BenchmarkArgs),
    Help,
}

/// The options read so far.
pub struct BenchmarkScan {
    pub csv: Option<Seq<char>>,
    pub rows: Option<usize>,
}

/// Reads the options from index `i` on: `--csv` and `--rows` take the next
/// argument as their value; anything else is refused.
pub open spec fn scan_benchmark_args(args: Seq<Seq<char>>, i: int, st: BenchmarkScan) -> Result<BenchmarkScan, Seq<char>>
    decreases args.len() - i,
{
    if i < 0 || i >= args.len() {
        Ok(st)
    } else {
        let a = args[i];
        let has_value = i + 1 < args.len();
        if a == "--csv"@ {
            if has_value {
                scan_benchmark_args(args, i + 2, BenchmarkScan { csv: Some(args[i + 1]), ..st })
            } else {
                Err("--csv requires a value"@)
            }
        } else if a == "--rows"@ {
            if !has_value {
                Err("--rows requires a value"@)
            } else {
                match parse_usize_spec(args[i + 1]) {
                    Some(n) => scan_benchmark_args(args, i + 2, BenchmarkScan { rows: Some(n), ..st }),
                    None => Err("invalid --rows: "@ + args[i + 1]),
                }
            }
        } else {
            Err("unknown argument: "@ + a)
        }
    }
}

/// What the options read make of the run, or why they are refused.
pub open spec fn benchmark_after_scan(r: Result<BenchmarkScan, Seq<char>>) -> Result<Option<(Seq<char>, usize)>, Seq<char>> {
    match r {
        Err(e) => Err(e),
        Ok(st) => match (st.csv, st.rows) {
            (None, _) => Err("missing required argument: --csv"@),
            (Some(_), None) => Err("missing required argument: --rows"@),
            (Some(csv), Some(rows)) => if rows == 0 {
                Err("rows must be greater than 0"@)
            } else if rows > MAX_ROWS {
                Err(
                    "rows limit: maximum is "@ + decimal(MAX_ROWS as nat) + " (got "@ + decimal(rows as nat)
                        + ")"@,
                )
            } else {
                Ok(Some((csv, rows)))
            },
        },
    }
}

/// What a benchmark command line makes: an error, the usage (`None`), or
/// the CSV and the row count.
pub open spec fn benchmark_args_spec(args: Seq<Seq<char>>) -> Result<Option<(Seq<char>, usize)>, Seq<char>> {
    if args.len() == 0 {
        Err("no arguments provided"@)
    } else if exists|i: int| 0 <= i < args.len() && (#[trigger] args[i] == "--help"@ || args[i] == "-h"@) {
        Ok(None)
    } else {
        benchmark_after_scan(scan_benchmark_args(args, 0, BenchmarkScan { csv: None, rows: None }))
    }
}

pub open spec fn benchmark_outcome_view(o: BenchmarkOutcome) -> Option<(Seq<char>, usize)> {
    match o {
        BenchmarkOutcome::Help => None,
        BenchmarkOutcome::Run(a) => Some((a.csv@, a.rows)),
    }
}

fn rows_limit_message(rows: usize) -> (res: String)
    ensures
        res@ == "rows limit: maximum is "@ + decimal(MAX_ROWS as nat) + " (got "@ + decimal(rows as nat) + ")"@,
{
    let mut out: Vec<char> = Vec::new();
    push_str(&mut out, "rows limit: maximum is ");
    push_decimal(&mut out, MAX_ROWS as u128);
    push_str(&mut out, " (got ");
    push_decimal(&mut out, rows as u128);
    push_str(&mut out, ")");
    string_from_chars(&out)
}

/// Reads the benchmark's command line.
pub fn parse_args_from(args: &[String]) -> (res: Result<BenchmarkOutcome, String>)
    ensures
        match benchmark_args_spec(args@.map_values(|a: String| a@)) {
            Ok(o) => (res matches Ok(r) && benchmark_outcome_view(r) == o),
            Err(e) => (res matches Err(m) && m@ == e),
        },
{
    let ghost av = args@.map_values(|a: String| a@);
    if args.len() == 0 {
        return Err(String::from_str("no arguments provided"));
    }
    let mut h: usize = 0;
    while h < args.len()
        invariant
            av == args@.map_values(|a: String| a@),
            h <= args.len(),
            forall|k: int| 0 <= k < h ==> !(#[trigger] av[k] == "--help"@ || av[k] == "-h"@),
        decreases args.len() - h,
    {
        assert(av[h as int] == args@[h as int]@);
        if is_arg(&args[h], "--help") || is_arg(&args[h], "-h") {
            return Ok(BenchmarkOutcome::Help);
        }
        h = h + 1;
    }
    let mut csv: Option<String> = None;
    let mut rows: Option<usize> = None;
    let ghost start = BenchmarkScan { csv: None, rows: None };
    assert(benchmark_args_spec(av) == benchmark_after_scan(scan_benchmark_args(av, 0, start)));
    let mut i: usize = 0;
    while i < args.len()
        invariant
            av == args@.map_values(|a: String| a@),
            av.len() == args@.len(),
            benchmark_args_spec(av) == benchmark_after_scan(scan_benchmark_args(av, 0, start)),
            i <= args.len(),
            scan_benchmark_args(av, 0, start) == scan_benchmark_args(
                av,
                i as int,
                BenchmarkScan { csv: opt_text(csv), rows },
            ),
        decreases args.len() - i,
    {
        let ghost cur = BenchmarkScan { csv: opt_text(csv), rows };
        let a = &args[i];
        assert(av[i as int] == a@);
        let has_value = i + 1 < args.len();
        if has_value {
            assert(av[i + 1] == args@[i + 1]@);
        }
        if is_arg(a, "--csv") {
            if !has_value {
                assert(scan_benchmark_args(av, i as int, cur) == Err::<BenchmarkScan, Seq<char>>(
                    "--csv requires a value"@,
                ));
                return Err(String::from_str("--csv requires a value"));
            }
            csv = Some(args[i + 1].clone());
            i = i + 2;
        } else if is_arg(a, "--rows") {
            if !has_value {
                assert(scan_benchmark_args(av, i as int, cur) == Err::<BenchmarkScan, Seq<char>>(
                    "--rows requires a value"@,
                ));
                return Err(String::from_str("--rows requires a value"));
            }
            match parse_usize(&chars_of(args[i + 1].as_str())) {
                Some(n) => {
                    rows = Some(n);
                },
                None => {
                    assert(scan_benchmark_args(av, i as int, cur) == Err::<BenchmarkScan, Seq<char>>(
                        "invalid --rows: "@ + av[i + 1],
                    ));
                    return Err(message_with("invalid --rows: ", &args[i + 1]));
                },
            }
            i = i + 2;
        } else {
            return Err(message_with("unknown argument: ", a));
        }
    }
    let csv = match csv {
        Some(c) => c,
        None => {
            return Err(String::from_str("missing required argument: --csv"));
        },
    };
    let rows = match rows {
        Some(r) => r,
        None => {
            return Err(String::from_str("missing required argument: --rows"));
        },
    };
    if rows == 0 {
        return Err(String::from_str("rows must be greater than 0"));
    }
    if rows > MAX_ROWS {
        return Err(rows_limit_message(rows));
    }
    Ok(BenchmarkOutcome::Run(BenchmarkArgs { csv, rows }))
}

/// How many chunks of `d` rows it takes to hold `n` rows.
pub fn ceiling_div(n: usize, d: usize) -> (res: usize)
    requires
        d > 0,
        n + d - 1 <= usize::MAX,
    ensures
        res == (n + d - 1) / (d as int),
        res * d >= n,
        n > 0 ==> (res - 1) * d < n,
{
    let r = (n + (d - 1)) / d;
    assert(r * d >= n && (n > 0 ==> (r - 1) * d < n)) by (nonlinear_arith)
        requires
            r == (n + d - 1) / (d as int),
            d > 0,
    ;
    r
}

/// Checks that a run left one scratch database for each chunk size.
pub fn validate_scratch_db_count(actual: usize) -> (res: Result<(), String>)
    ensures
        res is Ok <==> actual == chunk_sizes_spec().len(),
        res matches Err(e) ==> e@ == "scratch DB count mismatch: expected "@ + decimal(chunk_sizes_spec().len()) + ", got "@ + decimal(
            actual as nat,
        ),
{
    let expected = chunk_sizes().len();
    if actual != expected {
        let mut out: Vec<char> = Vec::new();
        push_str(&mut out, "scratch DB count mismatch: expected ");
        push_decimal(&mut out, expected as u128);
        push_str(&mut out, ", got ");
        push_decimal(&mut out, actual as u128);
        return Err(string_from_chars(&out));
    }
    Ok(())
}

/// The error when a fresh benchmark database does not start empty.
pub open spec fn fresh_db_error(chunk_size: usize, initial_rows: i64) -> Option<Seq<char>> {
    if initial_rows != 0 {
        Some("DB for chunk="@ + decimal(chunk_size as nat) + " should start with 0 rows, got "@
            + signed_decimal(initial_rows as int))
    } else {
        None
    }
}

/// Checks that a fresh benchmark database starts with no rows.
pub fn check_fresh_db(chunk_size: usize, initial_rows: i64) -> (res: Result<(), String>)
    ensures
        match fresh_db_error(chunk_size, initial_rows) {
            None => res is Ok,
            Some(e) => res matches Err(m) && m@ == e,
        },
{
    if initial_rows != 0 {
        let mut out: Vec<char> = Vec::new();
        push_str(&mut out, "DB for chunk=");
        push_decimal(&mut out, chunk_size as u128);
        push_str(&mut out, " should start with 0 rows, got ");
        push_signed_decimal(&mut out, initial_rows);
        return Err(string_from_chars(&out));
    }
    Ok(())
}

/// What the checks after one chunk size's import find wrong, in the order
/// they are made: the rows inserted, the rows in the database and the
/// checkpoint must each be the number of rows asked for.
pub open spec fn chunk_result_error(chunk_size: usize, requested: usize, inserted: usize, final_rows: i64, final_checkpoint: i64) -> Option<Seq<char>> {
    let prefix = "chunk="@ + decimal(chunk_size as nat) + ": "@;
    if inserted != requested {
        Some(prefix + "inserted_rows "@ + decimal(inserted as nat) + " != requested "@ + decimal(
            requested as nat,
        ))
    } else if final_rows != (requested as i64) {
        Some(prefix + "final_rows "@ + signed_decimal(final_rows as int) + " != requested "@
            + decimal(requested as nat))
    } else if final_checkpoint != (requested as i64) {
        Some(prefix + "checkpoint "@ + signed_decimal(final_checkpoint as int) + " != requested "@
            + decimal(requested as nat))
    } else {
        None
    }
}

/// Checks one chunk size's import against the number of rows asked for
/// (see `chunk_result_error`).
pub fn check_chunk_result(chunk_size: usize, requested: usize, inserted: usize, final_rows: i64, final_checkpoint: i64) -> (res: Result<(), String>)
    ensures
        match chunk_result_error(chunk_size, requested, inserted, final_rows, final_checkpoint) {
            None => res is Ok,
            Some(e) => res matches Err(m) && m@ == e,
        },
{
    let wanted = requested as i64;
    let mut out: Vec<char> = Vec::new();
    push_str(&mut out, "chunk=");
    push_decimal(&mut out, chunk_size as u128);
    push_str(&mut out, ": ");
    if inserted != requested {
        push_str(&mut out, "inserted_rows ");
        push_decimal(&mut out, inserted as u128);
    } else if final_rows != wanted {
        push_str(&mut out, "final_rows ");
        push_signed_decimal(&mut out, final_rows);
    } else if final_checkpoint != wanted {
        push_str(&mut out, "checkpoint ");
        push_signed_decimal(&mut out, final_checkpoint);
    } else {
        return Ok(());
    }
    push_str(&mut out, " != requested ");
    push_decimal(&mut out, requested as u128);
    Err(string_from_chars(&out))
}

/// The error when the CSV's source key changed during the benchmark.
pub open spec fn source_change_error(before: Seq<char>, after: Seq<char>) -> Option<Seq<char>> {
    if before != after {
        Some("SOURCE INTEGRITY VIOLATION: before="@ + before + " after="@ + after)
    } else {
        None
    }
}

/// Checks that the CSV's source key is the same after the benchmark as
/// before it.
pub fn check_source_unchanged(before: &str, after: &str) -> (res: Result<(), String>)
    ensures
        match source_change_error(before@, after@) {
            None => res is Ok,
            Some(e) => res matches Err(m) && m@ == e,
        },
{
    let b = chars_of(before);
    if seq_eq_str(&b, after) {
        return Ok(());
    }
    let mut out: Vec<char> = Vec::new();
    push_str(&mut out, "SOURCE INTEGRITY VIOLATION: before=");
    push_str(&mut out, before);
    push_str(&mut out, " after=");
    push_str(&mut out, after);
    Err(string_from_chars(&out))
}

} // verus!
