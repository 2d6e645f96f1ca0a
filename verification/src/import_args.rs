//! The command line of the puzzle import tool: which CSV to read, which
//! database to fill, and how much of the file to import.

use vstd::prelude::*;
use crate::eval::{all_digits, digits_value, lemma_digits_grow, opt_text};
use crate::text::{
    chars_of, decimal, push_decimal, push_signed_decimal, push_str, seq_eq_str, signed_decimal,
    string_from_chars,
};

verus! {

/// The chunk size used when none is given.
pub const DEFAULT_CHUNK_SIZE: usize = 50_000;

/// The largest chunk size accepted.
pub const MAX_CHUNK_SIZE: usize = 100_000;

/// The largest number of rows that a limited import may ask for.
pub const MAX_SAFETY_LIMIT: usize = 100_000;

/// How much of the file to import.
#[derive(Debug, Clone, Copy, PartialEq, Eq, Structural)]
pub enum ImportMode {
    Limited { max_rows: usize },
    Full,
}

/// What the command line asks for.
#[derive(Debug)]
pub struct ImportArgs {
    pub csv: String,
    pub db: String,
    pub mode: ImportMode,
    pub chunk_size: usize,
    pub resume: bool,
}

/// Either an import to run, or the usage text to print.
#[derive(Debug)]
pub enum ParseOutcome {
    Run(ImportArgs),
    Help,
}

/// What `str::parse::<usize>` reads: an optional `+` and at least one
/// digit, within the range of `usize`.
pub open spec fn parse_usize_spec(t: Seq<char>) -> Option<usize> {
    let body = if t.len() > 0 && t[0] == '+' {
        t.drop_first()
    } else {
        t
    };
    if body.len() > 0 && all_digits(body) && digits_value(body) <= usize::MAX {
        Some(digits_value(body) as usize)
    } else {
        None
    }
}

/// Reads a number as `str::parse::<usize>` does.
#[verifier::loop_isolation(false)]
pub fn parse_usize(t: &Vec<char>) -> (res: Option<usize>)
    ensures
        res == parse_usize_spec(t@),
{
    let start: usize = if t.len() > 0 && t[0] == '+' { 1 } else { 0 };
    let ghost body = t@.subrange(start as int, t@.len() as int);
    assert(body =~= (if t@.len() > 0 && t@[0] == '+' { t@.drop_first() } else { t@ }));
    if start >= t.len() {
        return None;
    }
    let mut value: u128 = 0;
    let mut i: usize = start;
    while i < t.len()
        invariant
            start <= i <= t.len(),
            all_digits(t@.subrange(start as int, i as int)),
            value == digits_value(t@.subrange(start as int, i as int)),
            value <= usize::MAX,
        decreases t.len() - i,
    {
        let c = t[i];
        if !('0' <= c && c <= '9') {
            proof {
                assert(body[i - start] == c);
            }
            return None;
        }
        assert(t@.subrange(start as int, i as int + 1).drop_last() =~= t@.subrange(start as int, i as int));
        let next: u128 = value * 10 + (c as u32 - 48) as u128;
        if next > usize::MAX as u128 {
            proof {
                if all_digits(body) {
                    lemma_digits_grow(body, (i + 1 - start) as int);
                    assert(body.take((i + 1 - start) as int) =~= t@.subrange(start as int, i as int + 1));
                }
            }
            return None;
        }
        value = next;
        i = i + 1;
    }
    assert(t@.subrange(start as int, i as int) =~= body);
    Some(value as usize)
}

/// The options read so far from the command line.
pub struct ArgScan {
    pub csv: Option<Seq<char>>,
    pub db: Option<Seq<char>>,
    pub max_rows: Option<usize>,
    pub full: bool,
    pub confirm: bool,
    pub chunk_size: Option<usize>,
    pub resume: bool,
}

/// Reads the options from index `i` on: `--csv`, `--db`, `--max-rows` and
/// `--chunk-size` take the next argument as their value; `--full`,
/// `--confirm-full-import` and `--resume` stand alone.
pub open spec fn scan_args(args: Seq<Seq<char>>, i: int, st: ArgScan) -> Result<ArgScan, Seq<char>>
    decreases args.len() - i,
{
    if i < 0 || i >= args.len() {
        Ok(st)
    } else {
        let a = args[i];
        let has_value = i + 1 < args.len();
        if a == "--csv"@ {
            if has_value {
                scan_args(args, i + 2, ArgScan { csv: Some(args[i + 1]), ..st })
            } else {
                Err("--csv requires a value"@)
            }
        } else if a == "--db"@ {
            if has_value {
                scan_args(args, i + 2, ArgScan { db: Some(args[i + 1]), ..st })
            } else {
                Err("--db requires a value"@)
            }
        } else if a == "--max-rows"@ {
            if !has_value {
                Err("--max-rows requires a value"@)
            } else {
                match parse_usize_spec(args[i + 1]) {
                    Some(n) => scan_args(args, i + 2, ArgScan { max_rows: Some(n), ..st }),
                    None => Err("invalid --max-rows: "@ + args[i + 1]),
                }
            }
        } else if a == "--full"@ {
            scan_args(args, i + 1, ArgScan { full: true, ..st })
        } else if a == "--confirm-full-import"@ {
            scan_args(args, i + 1, ArgScan { confirm: true, ..st })
        } else if a == "--chunk-size"@ {
            if !has_value {
                Err("--chunk-size requires a value"@)
            } else {
                match parse_usize_spec(args[i + 1]) {
                    Some(n) => scan_args(args, i + 2, ArgScan { chunk_size: Some(n), ..st }),
                    None => Err("invalid --chunk-size: "@ + args[i + 1]),
                }
            }
        } else if a == "--resume"@ {
            scan_args(args, i + 1, ArgScan { resume: true, ..st })
        } else {
            Err("Unknown argument: "@ + a)
        }
    }
}

/// The import that a command line asks for, taken as plain values.
pub struct ArgsView {
    pub csv: Seq<char>,
    pub db: Seq<char>,
    pub mode: ImportMode,
    pub chunk_size: usize,
    pub resume: bool,
}

/// What the options read make of the import, or why they are refused.
pub open spec fn args_from_scan(st: ArgScan) -> Result<ArgsView, Seq<char>> {
    if st.csv is None {
        Err("Missing required argument: --csv"@)
    } else if st.db is None {
        Err("Missing required argument: --db"@)
    } else if st.max_rows is Some && st.full {
        Err("Choose exactly one import mode: --max-rows <N> or --full"@)
    } else if st.max_rows is None && !st.full {
        Err("Choose exactly one import mode: --max-rows <N> or --full"@)
    } else if st.full && !st.confirm {
        Err("Full import requires --confirm-full-import"@)
    } else if st.confirm && !st.full {
        Err("--confirm-full-import requires --full"@)
    } else if st.max_rows matches Some(n) && n == 0 {
        Err("max_rows must be greater than 0"@)
    } else if st.max_rows matches Some(n) && n > MAX_SAFETY_LIMIT {
        Err("CMS-009 safety limit: --max-rows cannot exceed "@ + decimal(MAX_SAFETY_LIMIT as nat))
    } else {
        let chunk = match st.chunk_size {
            Some(c) => c,
            None => DEFAULT_CHUNK_SIZE,
        };
        if chunk == 0 {
            Err("chunk_size must be greater than 0"@)
        } else if chunk > MAX_CHUNK_SIZE {
            Err("chunk_size cannot exceed "@ + decimal(MAX_CHUNK_SIZE as nat))
        } else {
            Ok(
                ArgsView {
                    csv: st.csv->Some_0,
                    db: st.db->Some_0,
                    mode: match st.max_rows {
                        Some(n) => ImportMode::Limited { max_rows: n },
                        None => ImportMode::Full,
                    },
                    chunk_size: chunk,
                    resume: st.resume,
                },
            )
        }
    }
}

/// What a scan of the options makes of the import.
pub open spec fn after_scan(r: Result<ArgScan, Seq<char>>) -> Result<Option<ArgsView>, Seq<char>> {
    match r {
        Err(e) => Err(e),
        Ok(st) => match args_from_scan(st) {
            Err(e) => Err(e),
            Ok(a) => Ok(Some(a)),
        },
    }
}

/// The options before any is read.
pub open spec fn no_options() -> ArgScan {
    ArgScan { csv: None, db: None, max_rows: None, full: false, confirm: false, chunk_size: None, resume: false }
}

/// A command line read whole: nothing given is an error, a help flag
/// anywhere asks for the usage (`None`), else the options make the import.
pub open spec fn parse_args_spec(args: Seq<Seq<char>>) -> Result<Option<ArgsView>, Seq<char>> {
    if args.len() == 0 {
        Err("no arguments provided"@)
    } else if exists|i: int| 0 <= i < args.len() && (#[trigger] args[i] == "--help"@ || args[i] == "-h"@) {
        Ok(None)
    } else {
        after_scan(scan_args(args, 0, no_options()))
    }
}

pub open spec fn outcome_view(o: ParseOutcome) -> Option<ArgsView> {
    match o {
        ParseOutcome::Help => None,
        ParseOutcome::Run(a) => Some(
            ArgsView { csv: a.csv@, db: a.db@, mode: a.mode, chunk_size: a.chunk_size, resume: a.resume },
        ),
    }
}

pub(crate) fn is_arg(a: &String, name: &str) -> (res: bool)
    ensures
        res == (a@ == name@),
{
    seq_eq_str(&chars_of(a.as_str()), name)
}

pub(crate) fn message_with(prefix: &str, value: &String) -> (res: String)
    ensures
        res@ == prefix@ + value@,
{
    let mut out: Vec<char> = Vec::new();
    push_str(&mut out, prefix);
    push_str(&mut out, value.as_str());
    string_from_chars(&out)
}

fn message_with_number(prefix: &str, n: usize) -> (res: String)
    ensures
        res@ == prefix@ + decimal(n as nat),
{
    let mut out: Vec<char> = Vec::new();
    push_str(&mut out, prefix);
    push_decimal(&mut out, n as u128);
    string_from_chars(&out)
}

/// Reads the command line of the import tool.
pub fn parse_args_from(args: &[String]) -> (res: Result<ParseOutcome, String>)
    ensures
        match parse_args_spec(args@.map_values(|a: String| a@)) {
            Ok(o) => (res matches Ok(r) && outcome_view(r) == o),
            Err(e) => (res matches Err(m) && m@ == e),
        },
{
    let ghost av = args@.map_values(|a: String| a@);
    if args.len() == 0 {
        return Err(String::from_str("no arguments provided"));
    }
    let mut h: usize = 0;
    while h < args.len()
        invariant
            av == args@.map_values(|a: String| a@),
            h <= args.len(),
            forall|k: int| 0 <= k < h ==> !(#[trigger] av[k] == "--help"@ || av[k] == "-h"@),
        decreases args.len() - h,
    {
        assert(av[h as int] == args@[h as int]@);
        if is_arg(&args[h], "--help") || is_arg(&args[h], "-h") {
            return Ok(ParseOutcome::Help);
        }
        h = h + 1;
    }
    let mut csv: Option<String> = None;
    let mut db: Option<String> = None;
    let mut max_rows: Option<usize> = None;
    let mut full = false;
    let mut confirm = false;
    let mut chunk_size: Option<usize> = None;
    let mut resume = false;
    let ghost start = no_options();
    assert(parse_args_spec(av) == after_scan(scan_args(av, 0, start)));
    let mut i: usize = 0;
    while i < args.len()
        invariant
            av == args@.map_values(|a: String| a@),
            av.len() == args@.len(),
            parse_args_spec(av) == after_scan(scan_args(av, 0, start)),
            i <= args.len(),
            scan_args(av, 0, start) == scan_args(
                av,
                i as int,
                ArgScan {
                    csv: opt_text(csv),
                    db: opt_text(db),
                    max_rows,
                    full,
                    confirm,
                    chunk_size,
                    resume,
                },
            ),
        decreases args.len() - i,
    {
        let ghost cur = ArgScan {
            csv: opt_text(csv),
            db: opt_text(db),
            max_rows,
            full,
            confirm,
            chunk_size,
            resume,
        };
        let a = &args[i];
        assert(av[i as int] == a@);
        let has_value = i + 1 < args.len();
        if has_value {
            assert(av[i + 1] == args@[i + 1]@);
        }
        if is_arg(a, "--csv") {
            if !has_value {
                assert(scan_args(av, i as int, cur) == Err::<ArgScan, Seq<char>>("--csv requires a value"@));
                return Err(String::from_str("--csv requires a value"));
            }
            csv = Some(args[i + 1].clone());
            i = i + 2;
        } else if is_arg(a, "--db") {
            if !has_value {
                assert(scan_args(av, i as int, cur) == Err::<ArgScan, Seq<char>>("--db requires a value"@));
                return Err(String::from_str("--db requires a value"));
            }
            db = Some(args[i + 1].clone());
            i = i + 2;
        } else if is_arg(a, "--max-rows") {
            if !has_value {
                assert(scan_args(av, i as int, cur) == Err::<ArgScan, Seq<char>>("--max-rows requires a value"@));
                return Err(String::from_str("--max-rows requires a value"));
            }
            match parse_usize(&chars_of(args[i + 1].as_str())) {
                Some(n) => {
                    max_rows = Some(n);
                },
                None => {
                    assert(scan_args(av, i as int, cur) == Err::<ArgScan, Seq<char>>("invalid --max-rows: "@ + av[i + 1]));
                    return Err(message_with("invalid --max-rows: ", &args[i + 1]));
                },
            }
            i = i + 2;
        } else if is_arg(a, "--full") {
            full = true;
            i = i + 1;
        } else if is_arg(a, "--confirm-full-import") {
            confirm = true;
            i = i + 1;
        } else if is_arg(a, "--chunk-size") {
            if !has_value {
                assert(scan_args(av, i as int, cur) == Err::<ArgScan, Seq<char>>("--chunk-size requires a value"@));
                return Err(String::from_str("--chunk-size requires a value"));
            }
            match parse_usize(&chars_of(args[i + 1].as_str())) {
                Some(n) => {
                    chunk_size = Some(n);
                },
                None => {
                    assert(scan_args(av, i as int, cur) == Err::<ArgScan, Seq<char>>("invalid --chunk-size: "@ + av[i + 1]));
                    return Err(message_with("invalid --chunk-size: ", &args[i + 1]));
                },
            }
            i = i + 2;
        } else if is_arg(a, "--resume") {
            resume = true;
            i = i + 1;
        } else {
            return Err(message_with("Unknown argument: ", a));
        }
    }
    let csv = match csv {
        Some(c) => c,
        None => {
            return Err(String::from_str("Missing required argument: --csv"));
        },
    };
    let db = match db {
        Some(d) => d,
        None => {
            return Err(String::from_str("Missing required argument: --db"));
        },
    };
    if max_rows.is_some() && full {
        return Err(String::from_str("Choose exactly one import mode: --max-rows <N> or --full"));
    }
    if max_rows.is_none() && !full {
        return Err(String::from_str("Choose exactly one import mode: --max-rows <N> or --full"));
    }
    if full && !confirm {
        return Err(String::from_str("Full import requires --confirm-full-import"));
    }
    if confirm && !full {
        return Err(String::from_str("--confirm-full-import requires --full"));
    }
    let mode = match max_rows {
        Some(n) => {
            if n == 0 {
                return Err(String::from_str("max_rows must be greater than 0"));
            }
            if n > MAX_SAFETY_LIMIT {
                return Err(message_with_number("CMS-009 safety limit: --max-rows cannot exceed ", MAX_SAFETY_LIMIT));
            }
            ImportMode::Limited { max_rows: n }
        },
        None => ImportMode::Full,
    };
    let chunk = match chunk_size {
        Some(c) => c,
        None => DEFAULT_CHUNK_SIZE,
    };
    if chunk == 0 {
        return Err(String::from_str("chunk_size must be greater than 0"));
    }
    if chunk > MAX_CHUNK_SIZE {
        return Err(message_with_number("chunk_size cannot exceed ", MAX_CHUNK_SIZE));
    }
    Ok(ParseOutcome::Run(ImportArgs { csv, db, mode, chunk_size: chunk, resume }))
}


/// The checks on the paths of an import, from what the file system said of
/// them: the CSV and the database must differ, the protected database is
/// refused, a full import writes only under its own directory, and an
/// existing database is reused only when resuming (and a resume needs one).
pub fn check_import_paths(
    args: &ImportArgs,
    same_file: bool,
    protected_db: bool,
    within_full_import_dir: bool,
    db_exists: bool,
) -> (res: Result<(), String>)
    ensures
        same_file ==> (res matches Err(e) && e@ == "--csv and --db cannot resolve to the same file"@),
        !same_file && protected_db ==> (res matches Err(e) && e@ == "Refusing to use protected database: ocp.db"@),
        !same_file && !protected_db && args.mode == ImportMode::Full && !within_full_import_dir ==> (res matches Err(
            e,
        ) && e@ == "Full import DB must be within target/cms_full_import/ directory"@),
        !same_file && !protected_db && (args.mode == ImportMode::Full ==> within_full_import_dir) && db_exists
            && !args.resume ==> (res matches Err(e) && e@ == "Database already exists. Use --resume explicitly."@),
        !same_file && !protected_db && (args.mode == ImportMode::Full ==> within_full_import_dir) && !db_exists
            && args.resume ==> (res matches Err(e) && e@ == "Cannot resume: database does not exist"@),
        res is Ok <==> (!same_file && !protected_db && (args.mode == ImportMode::Full ==> within_full_import_dir)
            && db_exists == args.resume),
{
    if same_file {
        return Err(String::from_str("--csv and --db cannot resolve to the same file"));
    }
    if protected_db {
        return Err(String::from_str("Refusing to use protected database: ocp.db"));
    }
    if args.mode == ImportMode::Full && !within_full_import_dir {
        return Err(String::from_str("Full import DB must be within target/cms_full_import/ directory"));
    }
    if db_exists && !args.resume {
        return Err(String::from_str("Database already exists. Use --resume explicitly."));
    }
    if !db_exists && args.resume {
        return Err(String::from_str("Cannot resume: database does not exist"));
    }
    Ok(())
}

/// How an import of a mode is named in messages.
pub open spec fn import_kind(mode: ImportMode) -> Seq<char> {
    match mode {
        ImportMode::Limited { .. } => "limited import"@,
        ImportMode::Full => "full import"@,
    }
}

fn kind_message(prefix: &str, mode: ImportMode, suffix: &str) -> (res: String)
    ensures
        res@ == prefix@ + import_kind(mode) + suffix@,
{
    let mut out: Vec<char> = Vec::new();
    push_str(&mut out, prefix);
    match mode {
        ImportMode::Limited { .. } => push_str(&mut out, "limited import"),
        ImportMode::Full => push_str(&mut out, "full import"),
    }
    push_str(&mut out, suffix);
    string_from_chars(&out)
}

/// A resume needs exactly one checkpoint in the database.
pub fn check_checkpoint_count(mode: ImportMode, count: i64) -> (res: Result<(), String>)
    ensures
        count == 0 ==> (res matches Err(e) && e@ == "Cannot resume "@ + import_kind(mode) + ": no checkpoint found"@),
        count > 1 ==> (res matches Err(e) && e@ == "Cannot resume "@ + import_kind(mode)
            + ": multiple source checkpoints found"@),
        count <= 1 && count != 0 ==> res is Ok,
{
    if count == 0 {
        return Err(kind_message("Cannot resume ", mode, ": no checkpoint found"));
    }
    if count > 1 {
        return Err(kind_message("Cannot resume ", mode, ": multiple source checkpoints found"));
    }
    Ok(())
}

/// A resume continues only the CSV its checkpoint was made from: the key
/// stored in the database must be the one computed from the CSV, which is
/// then handed back.
pub fn check_checkpoint_source(mode: ImportMode, stored_key: &String, expected_key: &String) -> (res: Result<String, String>)
    ensures
        stored_key@ == expected_key@ ==> (res matches Ok(k) && k@ == expected_key@),
        stored_key@ != expected_key@ ==> (res matches Err(e) && e@ == "Cannot resume "@ + import_kind(mode)
            + ": CSV source identity does not match checkpoint"@),
{
    if !seq_eq_str(&chars_of(stored_key.as_str()), expected_key.as_str()) {
        return Err(kind_message("Cannot resume ", mode, ": CSV source identity does not match checkpoint"));
    }
    Ok(expected_key.clone())
}

/// What the checks after an import find wrong, if anything: the checkpoint
/// before the run (the final one less the rows inserted) must not be
/// negative; a limited import must end with no more rows, and no further
/// checkpoint, than its limit; a full import must end with as many rows as
/// its checkpoint, grown by the rows inserted.
pub open spec fn import_result_error(mode: ImportMode, inserted_rows: usize, final_rows: i64, final_checkpoint: i64) -> Option<Seq<char>> {
    let starting = final_checkpoint - (inserted_rows as i64);
    if starting < 0 {
        Some("Invariant violation: starting_checkpoint ("@ + signed_decimal(starting)
            + ") is negative"@)
    } else {
        match mode {
            ImportMode::Limited { max_rows } => if final_checkpoint > (max_rows as i64) {
                Some("Invariant violation: final_checkpoint ("@ + signed_decimal(final_checkpoint as int)
                    + ") > max_rows ("@ + decimal(max_rows as nat) + ")"@)
            } else if final_rows > (max_rows as i64) {
                Some("Invariant violation: final_rows ("@ + signed_decimal(final_rows as int)
                    + ") > max_rows ("@ + decimal(max_rows as nat) + ")"@)
            } else {
                None
            },
            ImportMode::Full => if final_rows != final_checkpoint {
                Some("Invariant violation: final_rows ("@ + signed_decimal(final_rows as int)
                    + ") != final_checkpoint ("@ + signed_decimal(final_checkpoint as int) + ")"@)
            } else if (inserted_rows as i64) != final_checkpoint - starting {
                Some("Invariant violation: inserted_rows ("@ + decimal(inserted_rows as nat)
                    + ") != final_checkpoint - starting_checkpoint ("@ + signed_decimal(
                    final_checkpoint - starting,
                ) + ")"@)
            } else {
                None
            },
        }
    }
}

/// Checks what the database holds after an import against what the import
/// set out to do (see `import_result_error`).
pub fn check_import_result(mode: ImportMode, inserted_rows: usize, final_rows: i64, final_checkpoint: i64) -> (res: Result<(), String>)
    requires
        i64::MIN <= final_checkpoint - (inserted_rows as i64) <= i64::MAX,
    ensures
        match import_result_error(mode, inserted_rows, final_rows, final_checkpoint) {
            None => res is Ok,
            Some(e) => res matches Err(m) && m@ == e,
        },
{
    let inserted = inserted_rows as i64;
    let starting = final_checkpoint - inserted;
    let mut out: Vec<char> = Vec::new();
    if starting < 0 {
        push_str(&mut out, "Invariant violation: starting_checkpoint (");
        push_signed_decimal(&mut out, starting);
        push_str(&mut out, ") is negative");
        return Err(string_from_chars(&out));
    }
    match mode {
        ImportMode::Limited { max_rows } => {
            let limit = max_rows as i64;
            if final_checkpoint > limit {
                push_str(&mut out, "Invariant violation: final_checkpoint (");
                push_signed_decimal(&mut out, final_checkpoint);
                push_str(&mut out, ") > max_rows (");
                push_decimal(&mut out, max_rows as u128);
                push_str(&mut out, ")");
                return Err(string_from_chars(&out));
            }
            if final_rows > limit {
                push_str(&mut out, "Invariant violation: final_rows (");
                push_signed_decimal(&mut out, final_rows);
                push_str(&mut out, ") > max_rows (");
                push_decimal(&mut out, max_rows as u128);
                push_str(&mut out, ")");
                return Err(string_from_chars(&out));
            }
        },
        ImportMode::Full => {
            if final_rows != final_checkpoint {
                push_str(&mut out, "Invariant violation: final_rows (");
                push_signed_decimal(&mut out, final_rows);
                push_str(&mut out, ") != final_checkpoint (");
                push_signed_decimal(&mut out, final_checkpoint);
                push_str(&mut out, ")");
                return Err(string_from_chars(&out));
            }
            let grown = final_checkpoint - starting;
            if inserted != grown {
                push_str(&mut out, "Invariant violation: inserted_rows (");
                push_decimal(&mut out, inserted_rows as u128);
                push_str(&mut out, ") != final_checkpoint - starting_checkpoint (");
                push_signed_decimal(&mut out, grown);
                push_str(&mut out, ")");
                return Err(string_from_chars(&out));
            }
        },
    }
    Ok(())
}

} // verus!
