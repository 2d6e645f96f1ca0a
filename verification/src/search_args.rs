//! The command line of the puzzle search tool: which database to read, the
//! filters of the search, and how often to run it.

use vstd::prelude::*;
use crate::eval::{opt_text, parse_i32, parse_i32_spec};
use crate::import_args::{is_arg, message_with, parse_usize, parse_usize_spec};
use crate::text::{chars_of, decimal, push_decimal, push_str, string_from_chars};

verus! {

/// The largest number of results a search may ask for.
pub const MAX_RESULT_LIMIT: usize = 10_000;

/// The largest number of times a search may be repeated.
pub const MAX_REPEAT: usize = 20;

/// Which side to move the searched puzzles may have.
#[derive(Debug, Clone, Copy, PartialEq, Eq, Structural)]
pub enum SearchSide {
    Any,
    White,
    Black,
}

/// What the search tool's command line asks for.
#[derive(Debug)]
pub struct SearchArgs {
    pub db: String,
    pub min_rating: i32,
    pub max_rating: i32,
    pub min_popularity: i32,
    pub theme: Option<String>,
    pub opening: Option<String>,
    pub side: SearchSide,
    pub limit: usize,
    pub repeat: usize,
}

/// Either a search to run, or the usage text to print.
#[derive(Debug)]
pub enum SearchOutcome {
    Run(SearchArgs),
    Help,
}

/// The options read so far.
pub struct SearchScan {
    pub db: Option<Seq<char>>,
    pub min_rating: Option<i32>,
    pub max_rating: Option<i32>,
    pub min_popularity: Option<i32>,
    pub theme: Option<Seq<char>>,
    pub opening: Option<Seq<char>>,
    pub side: Option<Seq<char>>,
    pub limit: Option<usize>,
    pub repeat: Option<usize>,
}

/// The options of the search tool; each takes the next argument as its value.
pub open spec fn is_search_option(a: Seq<char>) -> bool {
    ||| a == "--db"@
    ||| a == "--min-rating"@
    ||| a == "--max-rating"@
    ||| a == "--min-popularity"@
    ||| a == "--theme"@
    ||| a == "--opening"@
    ||| a == "--side"@
    ||| a == "--limit"@
    ||| a == "--repeat"@
}

/// Takes in one option with its value; a number that does not read is
/// refused.
pub open spec fn with_search_option(st: SearchScan, a: Seq<char>, v: Seq<char>) -> Result<SearchScan, Seq<char>> {
    if a == "--db"@ {
        Ok(SearchScan { db: Some(v), ..st })
    } else if a == "--min-rating"@ {
        match parse_i32_spec(v) {
            Some(n) => Ok(SearchScan { min_rating: Some(n), ..st }),
            None => Err("invalid --min-rating: "@ + v),
        }
    } else if a == "--max-rating"@ {
        match parse_i32_spec(v) {
            Some(n) => Ok(SearchScan { max_rating: Some(n), ..st }),
            None => Err("invalid --max-rating: "@ + v),
        }
    } else if a == "--min-popularity"@ {
        match parse_i32_spec(v) {
            Some(n) => Ok(SearchScan { min_popularity: Some(n), ..st }),
            None => Err("invalid --min-popularity: "@ + v),
        }
    } else if a == "--theme"@ {
        Ok(SearchScan { theme: Some(v), ..st })
    } else if a == "--opening"@ {
        Ok(SearchScan { opening: Some(v), ..st })
    } else if a == "--side"@ {
        Ok(SearchScan { side: Some(v), ..st })
    } else if a == "--limit"@ {
        match parse_usize_spec(v) {
            Some(n) => Ok(SearchScan { limit: Some(n), ..st }),
            None => Err("invalid --limit: "@ + v),
        }
    } else {
        match parse_usize_spec(v) {
            Some(n) => Ok(SearchScan { repeat: Some(n), ..st }),
            None => Err("invalid --repeat: "@ + v),
        }
    }
}

/// Reads the options from index `i` on.
pub open spec fn scan_search_args(args: Seq<Seq<char>>, i: int, st: SearchScan) -> Result<SearchScan, Seq<char>>
    decreases args.len() - i,
{
    if i < 0 || i >= args.len() {
        Ok(st)
    } else if !is_search_option(args[i]) {
        Err("unknown argument: "@ + args[i])
    } else if i + 1 >= args.len() {
        Err(args[i] + " requires a value"@)
    } else {
        match with_search_option(st, args[i], args[i + 1]) {
            Err(e) => Err(e),
            Ok(next) => scan_search_args(args, i + 2, next),
        }
    }
}

/// A search asked for, taken as plain values.
pub struct SearchView {
    pub db: Seq<char>,
    pub min_rating: i32,
    pub max_rating: i32,
    pub min_popularity: i32,
    pub theme: Option<Seq<char>>,
    pub opening: Option<Seq<char>>,
    pub side: SearchSide,
    pub limit: usize,
    pub repeat: usize,
}

/// The side a `--side` value names, if any: none given means any side.
pub open spec fn side_of(s: Option<Seq<char>>) -> Option<SearchSide> {
    match s {
        None => Some(SearchSide::Any),
        Some(t) => if t == "any"@ {
            Some(SearchSide::Any)
        } else if t == "white"@ {
            Some(SearchSide::White)
        } else if t == "black"@ {
            Some(SearchSide::Black)
        } else {
            None
        },
    }
}

/// What the options read make of the search, or why they are refused.
pub open spec fn search_from_scan(st: SearchScan) -> Result<SearchView, Seq<char>> {
    if st.db is None {
        Err("missing required argument: --db"@)
    } else if st.min_rating is None {
        Err("missing required argument: --min-rating"@)
    } else if st.max_rating is None {
        Err("missing required argument: --max-rating"@)
    } else if st.min_popularity is None {
        Err("missing required argument: --min-popularity"@)
    } else if st.limit is None {
        Err("missing required argument: --limit"@)
    } else if st.limit->Some_0 == 0 {
        Err("limit must be greater than 0"@)
    } else if st.limit->Some_0 > MAX_RESULT_LIMIT {
        Err("limit must be <= "@ + decimal(MAX_RESULT_LIMIT as nat) + " (got "@ + decimal(st.limit->Some_0 as nat) + ")"@)
    } else if side_of(st.side) is None {
        Err("invalid --side: "@ + st.side->Some_0 + " (expected any, white, or black)"@)
    } else {
        let repeat = match st.repeat {
            Some(r) => r,
            None => 1usize,
        };
        if repeat == 0 {
            Err("repeat must be greater than 0"@)
        } else if repeat > MAX_REPEAT {
            Err("repeat must be <= "@ + decimal(MAX_REPEAT as nat) + " (got "@ + decimal(repeat as nat) + ")"@)
        } else {
            Ok(
                SearchView {
                    db: st.db->Some_0,
                    min_rating: st.min_rating->Some_0,
                    max_rating: st.max_rating->Some_0,
                    min_popularity: st.min_popularity->Some_0,
                    theme: st.theme,
                    opening: st.opening,
                    side: side_of(st.side)->Some_0,
                    limit: st.limit->Some_0,
                    repeat,
                },
            )
        }
    }
}

pub open spec fn search_after_scan(r: Result<SearchScan, Seq<char>>) -> Result<Option<SearchView>, Seq<char>> {
    match r {
        Err(e) => Err(e),
        Ok(st) => match search_from_scan(st) {
            Err(e) => Err(e),
            Ok(v) => Ok(Some(v)),
        },
    }
}

pub open spec fn no_search_options() -> SearchScan {
    SearchScan {
        db: None,
        min_rating: None,
        max_rating: None,
        min_popularity: None,
        theme: None,
        opening: None,
        side: None,
        limit: None,
        repeat: None,
    }
}

/// A search command line read whole: nothing given is an error, a help flag
/// anywhere asks for the usage (`None`), else the options make the search.
pub open spec fn search_args_spec(args: Seq<Seq<char>>) -> Result<Option<SearchView>, Seq<char>> {
    if args.len() == 0 {
        Err("no arguments provided"@)
    } else if exists|i: int| 0 <= i < args.len() && (#[trigger] args[i] == "--help"@ || args[i] == "-h"@) {
        Ok(None)
    } else {
        search_after_scan(scan_search_args(args, 0, no_search_options()))
    }
}

pub open spec fn search_outcome_view(o: SearchOutcome) -> Option<SearchView> {
    match o {
        SearchOutcome::Help => None,
        SearchOutcome::Run(a) => Some(
            SearchView {
                db: a.db@,
                min_rating: a.min_rating,
                max_rating: a.max_rating,
                min_popularity: a.min_popularity,
                theme: opt_text(a.theme),
                opening: opt_text(a.opening),
                side: a.side,
                limit: a.limit,
                repeat: a.repeat,
            },
        ),
    }
}

/// The options read so far, as the reader holds them.
struct SearchFields {
    db: Option<String>,
    min_rating: Option<i32>,
    max_rating: Option<i32>,
    min_popularity: Option<i32>,
    theme: Option<String>,
    opening: Option<String>,
    side: Option<String>,
    limit: Option<usize>,
    repeat: Option<usize>,
}

spec fn fields_view(f: SearchFields) -> SearchScan {
    SearchScan {
        db: opt_text(f.db),
        min_rating: f.min_rating,
        max_rating: f.max_rating,
        min_popularity: f.min_popularity,
        theme: opt_text(f.theme),
        opening: opt_text(f.opening),
        side: opt_text(f.side),
        limit: f.limit,
        repeat: f.repeat,
    }
}

fn search_option(a: &String) -> (res: bool)
    ensures
        res == is_search_option(a@),
{
    is_arg(a, "--db") || is_arg(a, "--min-rating") || is_arg(a, "--max-rating") || is_arg(a, "--min-popularity")
        || is_arg(a, "--theme") || is_arg(a, "--opening") || is_arg(a, "--side") || is_arg(a, "--limit")
        || is_arg(a, "--repeat")
}

fn apply_search_option(f: &mut SearchFields, a: &String, v: &String) -> (res: Result<(), String>)
    requires
        is_search_option(a@),
    ensures
        match with_search_option(fields_view(*old(f)), a@, v@) {
            Ok(next) => res is Ok && fields_view(*final(f)) == next,
            Err(e) => (res matches Err(m) && m@ == e),
        },
{
    if is_arg(a, "--db") {
        f.db = Some(v.clone());
    } else if is_arg(a, "--min-rating") {
        match parse_i32(&chars_of(v.as_str())) {
            Some(n) => {
                f.min_rating = Some(n);
            },
            None => {
                return Err(message_with("invalid --min-rating: ", v));
            },
        }
    } else if is_arg(a, "--max-rating") {
        match parse_i32(&chars_of(v.as_str())) {
            Some(n) => {
                f.max_rating = Some(n);
            },
            None => {
                return Err(message_with("invalid --max-rating: ", v));
            },
        }
    } else if is_arg(a, "--min-popularity") {
        match parse_i32(&chars_of(v.as_str())) {
            Some(n) => {
                f.min_popularity = Some(n);
            },
            None => {
                return Err(message_with("invalid --min-popularity: ", v));
            },
        }
    } else if is_arg(a, "--theme") {
        f.theme = Some(v.clone());
    } else if is_arg(a, "--opening") {
        f.opening = Some(v.clone());
    } else if is_arg(a, "--side") {
        f.side = Some(v.clone());
    } else if is_arg(a, "--limit") {
        match parse_usize(&chars_of(v.as_str())) {
            Some(n) => {
                f.limit = Some(n);
            },
            None => {
                return Err(message_with("invalid --limit: ", v));
            },
        }
    } else {
        match parse_usize(&chars_of(v.as_str())) {
            Some(n) => {
                f.repeat = Some(n);
            },
            None => {
                return Err(message_with("invalid --repeat: ", v));
            },
        }
    }
    Ok(())
}

fn over_limit_message(prefix: &str, limit: usize, got: usize) -> (res: String)
    ensures
        res@ == prefix@ + decimal(limit as nat) + " (got "@ + decimal(got as nat) + ")"@,
{
    let mut out: Vec<char> = Vec::new();
    push_str(&mut out, prefix);
    push_decimal(&mut out, limit as u128);
    push_str(&mut out, " (got ");
    push_decimal(&mut out, got as u128);
    push_str(&mut out, ")");
    string_from_chars(&out)
}

fn text_with_suffix(text: &String, suffix: &str) -> (res: String)
    ensures
        res@ == text@ + suffix@,
{
    let mut out: Vec<char> = Vec::new();
    push_str(&mut out, text.as_str());
    push_str(&mut out, suffix);
    string_from_chars(&out)
}

fn read_side(side: &Option<String>) -> (res: Option<SearchSide>)
    ensures
        res == side_of(opt_text(*side)),
{
    match side {
        None => Some(SearchSide::Any),
        Some(t) => if is_arg(t, "any") {
            Some(SearchSide::Any)
        } else if is_arg(t, "white") {
            Some(SearchSide::White)
        } else if is_arg(t, "black") {
            Some(SearchSide::Black)
        } else {
            None
        },
    }
}

/// Reads the search tool's command line.
pub fn parse_args_from(args: &[String]) -> (res: Result<SearchOutcome, String>)
    ensures
        match search_args_spec(args@.map_values(|a: String| a@)) {
            Ok(o) => (res matches Ok(r) && search_outcome_view(r) == o),
            Err(e) => (res matches Err(m) && m@ == e),
        },
{
    let ghost av = args@.map_values(|a: String| a@);
    if args.len() == 0 {
        return Err(String::from_str("no arguments provided"));
    }
    let mut h: usize = 0;
    while h < args.len()
        invariant
            av == args@.map_values(|a: String| a@),
            h <= args.len(),
            forall|k: int| 0 <= k < h ==> !(#[trigger] av[k] == "--help"@ || av[k] == "-h"@),
        decreases args.len() - h,
    {
        assert(av[h as int] == args@[h as int]@);
        if is_arg(&args[h], "--help") || is_arg(&args[h], "-h") {
            return Ok(SearchOutcome::Help);
        }
        h = h + 1;
    }
    let mut f = SearchFields {
        db: None,
        min_rating: None,
        max_rating: None,
        min_popularity: None,
        theme: None,
        opening: None,
        side: None,
        limit: None,
        repeat: None,
    };
    let ghost start = no_search_options();
    assert(fields_view(f) == start);
    assert(search_args_spec(av) == search_after_scan(scan_search_args(av, 0, start)));
    let mut i: usize = 0;
    while i < args.len()
        invariant
            av == args@.map_values(|a: String| a@),
            av.len() == args@.len(),
            search_args_spec(av) == search_after_scan(scan_search_args(av, 0, start)),
            i <= args.len(),
            scan_search_args(av, 0, start) == scan_search_args(av, i as int, fields_view(f)),
        decreases args.len() - i,
    {
        let a = &args[i];
        assert(av[i as int] == a@);
        if !search_option(a) {
            return Err(message_with("unknown argument: ", a));
        }
        if i + 1 >= args.len() {
            return Err(text_with_suffix(a, " requires a value"));
        }
        assert(av[i + 1] == args@[i + 1]@);
        match apply_search_option(&mut f, a, &args[i + 1]) {
            Ok(()) => {},
            Err(e) => {
                return Err(e);
            },
        }
        i = i + 2;
    }
    let db = match f.db {
        Some(d) => d,
        None => {
            return Err(String::from_str("missing required argument: --db"));
        },
    };
    let min_rating = match f.min_rating {
        Some(n) => n,
        None => {
            return Err(String::from_str("missing required argument: --min-rating"));
        },
    };
    let max_rating = match f.max_rating {
        Some(n) => n,
        None => {
            return Err(String::from_str("missing required argument: --max-rating"));
        },
    };
    let min_popularity = match f.min_popularity {
        Some(n) => n,
        None => {
            return Err(String::from_str("missing required argument: --min-popularity"));
        },
    };
    let limit = match f.limit {
        Some(n) => n,
        None => {
            return Err(String::from_str("missing required argument: --limit"));
        },
    };
    if limit == 0 {
        return Err(String::from_str("limit must be greater than 0"));
    }
    if limit > MAX_RESULT_LIMIT {
        return Err(over_limit_message("limit must be <= ", MAX_RESULT_LIMIT, limit));
    }
    let side = match read_side(&f.side) {
        Some(s) => s,
        None => {
            let mut out: Vec<char> = Vec::new();
            push_str(&mut out, "invalid --side: ");
            match &f.side {
                Some(t) => push_str(&mut out, t.as_str()),
                None => {},
            }
            push_str(&mut out, " (expected any, white, or black)");
            return Err(string_from_chars(&out));
        },
    };
    let repeat = match f.repeat {
        Some(r) => r,
        None => 1,
    };
    if repeat == 0 {
        return Err(String::from_str("repeat must be greater than 0"));
    }
    if repeat > MAX_REPEAT {
        return Err(over_limit_message("repeat must be <= ", MAX_REPEAT, repeat));
    }
    Ok(
        SearchOutcome::Run(
            SearchArgs {
                db,
                min_rating,
                max_rating,
                min_popularity,
                theme: f.theme,
                opening: f.opening,
                side,
                limit,
                repeat,
            },
        ),
    )
}

} // verus!
