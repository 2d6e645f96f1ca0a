//! Reading PGN text: tag pairs and the main line of each game, validated
//! move by move against the rules of chess.

use vstd::prelude::*;
use crate::text::{
    chars_of, decimal, is_digit, is_whitespace, is_ws, push_all, push_decimal, push_str,
    seq_eq_str, string_from_chars,
};
use crate::chess_rules::{
    board_after, board_in_check, board_state, fen_read, is_board, is_legal, is_uci, legal,
    make_move, read_fen, parse_san, san_move, start_fen, start_position, status, in_check,
    BoardState,
};

verus! {

// ───────────────────────── token classes ─────────────────────────

pub open spec fn is_file_char(c: char) -> bool {
    'a' <= c && c <= 'h'
}

pub open spec fn is_promotion_rank_char(c: char) -> bool {
    c == '1' || c == '8'
}

fn is_file(c: char) -> (res: bool)
    ensures
        res == is_file_char(c),
{
    'a' <= c && c <= 'h'
}

fn is_promotion_rank(c: char) -> (res: bool)
    ensures
        res == is_promotion_rank_char(c),
{
    c == '1' || c == '8'
}

/// A numeric annotation glyph: `$` followed by one or more ASCII digits.
pub open spec fn is_nag_spec(t: Seq<char>) -> bool {
    &&& t.len() >= 2
    &&& t[0] == '$'
    &&& forall|i: int| 1 <= i < t.len() ==> is_digit(#[trigger] t[i])
}

/// A game termination marker.
pub open spec fn is_result_spec(t: Seq<char>) -> bool {
    t == "1-0"@ || t == "0-1"@ || t == "1/2-1/2"@ || t == "*"@
}

fn is_nag(t: &Vec<char>) -> (res: bool)
    ensures
        res == is_nag_spec(t@),
{
    if t.len() < 2 || t[0] != '$' {
        return false;
    }
    let mut i: usize = 1;
    while i < t.len()
        invariant
            1 <= i <= t.len(),
            forall|k: int| 1 <= k < i ==> is_digit(#[trigger] t@[k]),
        decreases t.len() - i,
    {
        if !('0' <= t[i] && t[i] <= '9') {
            return false;
        }
        i = i + 1;
    }
    true
}

fn is_result(t: &Vec<char>) -> (res: bool)
    ensures
        res == is_result_spec(t@),
{
    seq_eq_str(t, "1-0") || seq_eq_str(t, "0-1") || seq_eq_str(t, "1/2-1/2") || seq_eq_str(t, "*")
}

/// The number of leading ASCII digits from position `i` on.
pub open spec fn digits_end(t: Seq<char>, i: int) -> int
    decreases t.len() - i,
{
    if 0 <= i < t.len() && is_digit(t[i]) {
        digits_end(t, i + 1)
    } else {
        i
    }
}

/// The end of a run of `.` from position `i` on.
pub open spec fn dots_end(t: Seq<char>, i: int) -> int
    decreases t.len() - i,
{
    if 0 <= i < t.len() && t[i] == '.' {
        dots_end(t, i + 1)
    } else {
        i
    }
}

/// A token without the move number in front of it: `12.e4` is `e4`, `3...`
/// and a token of dots only are empty; digits not followed by a dot stay.
pub open spec fn strip_move_number_spec(t: Seq<char>) -> Seq<char> {
    let d = digits_end(t, 0);
    if d == 0 {
        if forall|i: int| 0 <= i < t.len() ==> #[trigger] t[i] == '.' {
            Seq::<char>::empty()
        } else {
            t
        }
    } else {
        let e = dots_end(t, d);
        if e == d {
            t
        } else {
            t.subrange(e, t.len() as int)
        }
    }
}

proof fn lemma_digits_run(t: Seq<char>, i: int, n: int)
    requires
        0 <= i <= n <= t.len(),
        forall|k: int| i <= k < n ==> is_digit(#[trigger] t[k]),
        n < t.len() ==> !is_digit(t[n]),
    ensures
        digits_end(t, i) == n,
    decreases n - i,
{
    if i < n {
        lemma_digits_run(t, i + 1, n);
    }
}

proof fn lemma_dots_run(t: Seq<char>, i: int, n: int)
    requires
        0 <= i <= n <= t.len(),
        forall|k: int| i <= k < n ==> #[trigger] t[k] == '.',
        n < t.len() ==> t[n] != '.',
    ensures
        dots_end(t, i) == n,
    decreases n - i,
{
    if i < n {
        lemma_dots_run(t, i + 1, n);
    }
}

/// A move number written against its move is dropped: a token made of a
/// number (one or more digits), one or more dots and then a text that does
/// not start with another dot becomes that text (`12.e4` is `e4`, `3...Nf6`
/// is `Nf6`).
pub proof fn law_move_number_is_dropped(number: Seq<char>, dots: Seq<char>, rest: Seq<char>)
    requires
        number.len() > 0,
        forall|k: int| 0 <= k < number.len() ==> is_digit(#[trigger] number[k]),
        dots.len() > 0,
        forall|k: int| 0 <= k < dots.len() ==> #[trigger] dots[k] == '.',
        rest.len() > 0 ==> rest[0] != '.',
    ensures
        strip_move_number_spec(number + dots + rest) == rest,
{
    let t = number + dots + rest;
    let d = number.len() as int;
    let e = d + dots.len();
    assert forall|k: int| 0 <= k < d implies is_digit(#[trigger] t[k]) by {
        assert(t[k] == number[k]);
    }
    assert(!is_digit(t[d])) by {
        assert(t[d] == dots[0]);
    }
    lemma_digits_run(t, 0, d);
    assert forall|k: int| d <= k < e implies #[trigger] t[k] == '.' by {
        assert(t[k] == dots[k - d]);
    }
    if e < t.len() {
        assert(t[e] == rest[0]);
    }
    lemma_dots_run(t, d, e);
    assert(t.subrange(e, t.len() as int) =~= rest);
}

/// Writing a move number against its move changes nothing in what a game
/// reads: a token `1.e4` (a number, dots, then a move that starts with
/// neither a digit nor a dot) is read exactly as the token `e4`.
pub proof fn law_move_number_against_the_move_reads_the_same(
    games: Seq<GameView>,
    current: Option<BuilderView>,
    number: Seq<char>,
    dots: Seq<char>,
    rest: Seq<char>,
)
    requires
        number.len() > 0,
        forall|k: int| 0 <= k < number.len() ==> is_digit(#[trigger] number[k]),
        dots.len() > 0,
        forall|k: int| 0 <= k < dots.len() ==> #[trigger] dots[k] == '.',
        rest.len() > 0,
        rest[0] != '.',
        !is_digit(rest[0]),
    ensures
        event_step(games, current, SpecEvent::Token(number + dots + rest)) == event_step(
            games,
            current,
            SpecEvent::Token(rest),
        ),
{
    law_move_number_is_dropped(number, dots, rest);
    lemma_digits_run(rest, 0, 0);
    assert(!(forall|i: int| 0 <= i < rest.len() ==> #[trigger] rest[i] == '.'));
    assert(strip_move_number_spec(rest) == rest);
}

proof fn lemma_digits_end_bounds(t: Seq<char>, i: int)
    requires
        0 <= i <= t.len(),
    ensures
        i <= digits_end(t, i) <= t.len(),
    decreases t.len() - i,
{
    if i < t.len() && is_digit(t[i]) {
        lemma_digits_end_bounds(t, i + 1);
    }
}

proof fn lemma_dots_end_bounds(t: Seq<char>, i: int)
    requires
        0 <= i <= t.len(),
    ensures
        i <= dots_end(t, i) <= t.len(),
    decreases t.len() - i,
{
    if i < t.len() && t[i] == '.' {
        lemma_dots_end_bounds(t, i + 1);
    }
}

fn subvec(t: &Vec<char>, lo: usize, hi: usize) -> (res: Vec<char>)
    requires
        lo <= hi <= t.len(),
    ensures
        res@ == t@.subrange(lo as int, hi as int),
{
    let mut res: Vec<char> = Vec::new();
    let mut i: usize = lo;
    while i < hi
        invariant
            lo <= i <= hi <= t.len(),
            res@ == t@.subrange(lo as int, i as int),
        decreases hi - i,
    {
        res.push(t[i]);
        i = i + 1;
        assert(res@ =~= t@.subrange(lo as int, i as int));
    }
    res
}

fn strip_move_number(t: &Vec<char>) -> (res: Vec<char>)
    ensures
        res@ == strip_move_number_spec(t@),
{
    let mut index: usize = 0;
    while index < t.len() && '0' <= t[index] && t[index] <= '9'
        invariant
            index <= t.len(),
            digits_end(t@, 0) == digits_end(t@, index as int),
        decreases t.len() - index,
    {
        index = index + 1;
    }
    if index == 0 {
        let mut all_dots = true;
        let mut k: usize = 0;
        while k < t.len()
            invariant
                k <= t.len(),
                all_dots == (forall|i: int| 0 <= i < k ==> #[trigger] t@[i] == '.'),
            decreases t.len() - k,
        {
            if t[k] != '.' {
                all_dots = false;
            }
            k = k + 1;
        }
        if all_dots {
            return Vec::new();
        } else {
            return t.clone();
        }
    }
    let dot_start = index;
    while index < t.len() && t[index] == '.'
        invariant
            dot_start <= index <= t.len(),
            dots_end(t@, dot_start as int) == dots_end(t@, index as int),
        decreases t.len() - index,
    {
        index = index + 1;
    }
    if index == dot_start {
        t.clone()
    } else {
        subvec(t, index, t.len())
    }
}

// ───────────────────────── SAN normalisation ─────────────────────────

/// The check or mate mark at the end of a SAN move.
#[derive(Clone, Copy, PartialEq, Eq, Structural)]
pub enum SanSuffix {
    Plain,
    Check,
    Checkmate,
}

/// Index of the first character that is not whitespace, from `i` on.
pub open spec fn ws_start(s: Seq<char>, i: int) -> int
    decreases s.len() - i,
{
    if 0 <= i < s.len() && is_ws(s[i]) {
        ws_start(s, i + 1)
    } else {
        i
    }
}

/// End of the text before trailing whitespace, looking down from `j` to `lo`.
pub open spec fn ws_end(s: Seq<char>, j: int, lo: int) -> int
    decreases j - lo,
{
    if lo < j && j <= s.len() && is_ws(s[j - 1]) {
        ws_end(s, j - 1, lo)
    } else {
        j
    }
}

/// `str::trim`: the text without leading and trailing whitespace.
pub open spec fn trim_spec(s: Seq<char>) -> Seq<char> {
    let lo = ws_start(s, 0);
    s.subrange(lo, ws_end(s, s.len() as int, lo))
}

proof fn lemma_ws_start_bounds(s: Seq<char>, i: int)
    requires
        0 <= i <= s.len(),
    ensures
        i <= ws_start(s, i) <= s.len(),
    decreases s.len() - i,
{
    if i < s.len() && is_ws(s[i]) {
        lemma_ws_start_bounds(s, i + 1);
    }
}

proof fn lemma_ws_end_bounds(s: Seq<char>, j: int, lo: int)
    requires
        0 <= lo <= j <= s.len(),
    ensures
        lo <= ws_end(s, j, lo) <= j,
    decreases j - lo,
{
    if lo < j && is_ws(s[j - 1]) {
        lemma_ws_end_bounds(s, j - 1, lo);
    }
}

/// The bounds of `s` without leading and trailing whitespace.
fn trim_bounds(s: &Vec<char>) -> (res: (usize, usize))
    ensures
        res.0 <= res.1 <= s.len(),
        res.0 == ws_start(s@, 0),
        res.1 == ws_end(s@, s@.len() as int, res.0 as int),
        s@.subrange(res.0 as int, res.1 as int) == trim_spec(s@),
{
    let mut lo: usize = 0;
    while lo < s.len() && is_whitespace(s[lo])
        invariant
            lo <= s.len(),
            ws_start(s@, 0) == ws_start(s@, lo as int),
        decreases s.len() - lo,
    {
        lo = lo + 1;
    }
    let mut hi: usize = s.len();
    while lo < hi && is_whitespace(s[hi - 1])
        invariant
            lo <= hi <= s.len(),
            ws_end(s@, s@.len() as int, lo as int) == ws_end(s@, hi as int, lo as int),
        decreases hi - lo,
    {
        hi = hi - 1;
    }
    (lo, hi)
}

/// Drops trailing `!` and `?` annotation marks.
pub open spec fn strip_marks(s: Seq<char>) -> Seq<char>
    decreases s.len(),
{
    if s.len() > 0 && (s.last() == '!' || s.last() == '?') {
        strip_marks(s.drop_last())
    } else {
        s
    }
}

/// Index of the last `=` before position `j`.
pub open spec fn last_equals(s: Seq<char>, j: int) -> Option<int>
    decreases j,
{
    if j <= 0 {
        None
    } else if s[j - 1] == '=' {
        Some(j - 1)
    } else {
        last_equals(s, j - 1)
    }
}

/// A pawn destination that may carry a promotion: `a8` or `bxa1`.
pub open spec fn is_promotion_prefix_spec(p: Seq<char>) -> bool {
    ||| (p.len() == 2 && is_file_char(p[0]) && is_promotion_rank_char(p[1]))
    ||| (p.len() == 4 && is_file_char(p[0]) && p[1] == 'x' && is_file_char(p[2])
        && is_promotion_rank_char(p[3]))
}

pub open spec fn is_promotion_piece(p: Seq<char>) -> bool {
    p == "Q"@ || p == "R"@ || p == "B"@ || p == "N"@
}

/// `a8=Q` becomes `a8Q`, the form that the SAN reader takes; anything else
/// (two `=`, an unknown piece, a prefix that is no promotion square) stays.
pub open spec fn normalize_promotion_spec(s: Seq<char>) -> Seq<char> {
    match last_equals(s, s.len() as int) {
        None => s,
        Some(k) => {
            let prefix = s.subrange(0, k);
            let promotion = s.subrange(k + 1, s.len() as int);
            if last_equals(s, k) is Some || !is_promotion_piece(promotion)
                || !is_promotion_prefix_spec(prefix) {
                s
            } else {
                prefix + promotion
            }
        },
    }
}

/// The SAN text handed to the SAN reader and the check mark that it carried.
pub open spec fn normalize_san_spec(token: Seq<char>) -> (Seq<char>, SanSuffix) {
    let s1 = strip_marks(trim_spec(token));
    let (s2, suffix) = if s1.len() > 0 && s1.last() == '+' {
        (s1.drop_last(), SanSuffix::Check)
    } else if s1.len() > 0 && s1.last() == '#' {
        (s1.drop_last(), SanSuffix::Checkmate)
    } else {
        (s1, SanSuffix::Plain)
    };
    let s3 = if s2 == "0-0"@ {
        "O-O"@
    } else if s2 == "0-0-0"@ {
        "O-O-O"@
    } else {
        s2
    };
    (normalize_promotion_spec(s3), suffix)
}

fn is_promotion_prefix(p: &Vec<char>, lo: usize, hi: usize) -> (res: bool)
    requires
        lo <= hi <= p.len(),
    ensures
        res == is_promotion_prefix_spec(p@.subrange(lo as int, hi as int)),
{
    if hi - lo == 2 {
        is_file(p[lo]) && is_promotion_rank(p[lo + 1])
    } else if hi - lo == 4 {
        is_file(p[lo]) && p[lo + 1] == 'x' && is_file(p[lo + 2]) && is_promotion_rank(p[lo + 3])
    } else {
        false
    }
}

fn find_last_equals(s: &Vec<char>, j: usize) -> (res: Option<usize>)
    requires
        j <= s.len(),
    ensures
        match res {
            Some(k) => last_equals(s@, j as int) == Some(k as int) && k < j,
            None => last_equals(s@, j as int) is None,
        },
{
    let mut i: usize = j;
    while i > 0
        invariant
            i <= j <= s.len(),
            last_equals(s@, j as int) == last_equals(s@, i as int),
        decreases i,
    {
        if s[i - 1] == '=' {
            return Some(i - 1);
        }
        i = i - 1;
    }
    None
}

fn normalize_promotion(s: Vec<char>) -> (res: Vec<char>)
    ensures
        res@ == normalize_promotion_spec(s@),
{
    match find_last_equals(&s, s.len()) {
        None => s,
        Some(k) => {
            let earlier = find_last_equals(&s, k);
            let plen = s.len() - (k + 1);
            let piece_ok = plen == 1 && (s[k + 1] == 'Q' || s[k + 1] == 'R' || s[k + 1] == 'B'
                || s[k + 1] == 'N');
            proof {
                let promotion = s@.subrange(k + 1, s@.len() as int);
                reveal_strlit("Q");
                reveal_strlit("R");
                reveal_strlit("B");
                reveal_strlit("N");
                if plen == 1 {
                    let c = s@[k + 1];
                    assert(promotion =~= seq![c]);
                    if c == 'Q' {
                        assert(promotion =~= "Q"@);
                    } else if c == 'R' {
                        assert(promotion =~= "R"@);
                    } else if c == 'B' {
                        assert(promotion =~= "B"@);
                    } else if c == 'N' {
                        assert(promotion =~= "N"@);
                    } else {
                        assert(promotion[0] != "Q"@[0]);
                        assert(promotion[0] != "R"@[0]);
                        assert(promotion[0] != "B"@[0]);
                        assert(promotion[0] != "N"@[0]);
                    }
                } else {
                    assert(promotion.len() != "Q"@.len());
                }
                assert(piece_ok == is_promotion_piece(promotion));
            }
            if earlier.is_some() || !piece_ok || !is_promotion_prefix(&s, 0, k) {
                s
            } else {
                let mut out = subvec(&s, 0, k);
                out.push(s[k + 1]);
                assert(out@ =~= s@.subrange(0, k as int) + s@.subrange(k + 1, s@.len() as int));
                out
            }
        },
    }
}

fn normalize_san(token: &Vec<char>) -> (res: (Vec<char>, SanSuffix))
    ensures
        (res.0@, res.1) == normalize_san_spec(token@),
{
    let (lo, hi0) = trim_bounds(token);
    let ghost trimmed = token@.subrange(lo as int, hi0 as int);
    let mut hi = hi0;
    while hi > lo && (token[hi - 1] == '!' || token[hi - 1] == '?')
        invariant
            lo <= hi <= hi0 <= token.len(),
            strip_marks(trimmed) == strip_marks(token@.subrange(lo as int, hi as int)),
        decreases hi - lo,
    {
        assert(token@.subrange(lo as int, hi as int).drop_last() =~= token@.subrange(
            lo as int,
            hi - 1,
        ));
        hi = hi - 1;
    }
    assert(strip_marks(token@.subrange(lo as int, hi as int)) == token@.subrange(
        lo as int,
        hi as int,
    ));
    let ghost s1 = token@.subrange(lo as int, hi as int);
    let suffix = if hi > lo && token[hi - 1] == '+' {
        hi = hi - 1;
        SanSuffix::Check
    } else if hi > lo && token[hi - 1] == '#' {
        hi = hi - 1;
        SanSuffix::Checkmate
    } else {
        SanSuffix::Plain
    };
    assert(s1.drop_last() =~= token@.subrange(lo as int, hi as int) || suffix == SanSuffix::Plain);
    let s2 = subvec(token, lo, hi);
    let s3 = if seq_eq_str(&s2, "0-0") {
        chars_of("O-O")
    } else if seq_eq_str(&s2, "0-0-0") {
        chars_of("O-O-O")
    } else {
        s2
    };
    (normalize_promotion(s3), suffix)
}

// ───────────────────────── scanning ─────────────────────────

/// What the scanner finds: a tag pair at the start of a line, or a movetext token.
pub enum SpecEvent {
    Header(Seq<char>, Seq<char>),
    Token(Seq<char>),
}

enum PgnEvent {
    Header(Vec<char>, Vec<char>),
    Token(Vec<char>),
}

impl View for PgnEvent {
    type V = SpecEvent;

    closed spec fn view(&self) -> SpecEvent {
        match self {
            PgnEvent::Header(n, v) => SpecEvent::Header(n@, v@),
            PgnEvent::Token(t) => SpecEvent::Token(t@),
        }
    }
}

/// A character that ends a movetext token.
pub open spec fn ends_token(c: char) -> bool {
    is_ws(c) || c == '{' || c == ';' || c == '(' || c == ')'
}

pub open spec fn token_end(cs: Seq<char>, i: int) -> int
    decreases cs.len() - i,
{
    if 0 <= i < cs.len() && !ends_token(cs[i]) {
        token_end(cs, i + 1)
    } else {
        i
    }
}

/// The end of a `;` comment: the next line break, or the end of the text.
pub open spec fn line_end(cs: Seq<char>, i: int) -> int
    decreases cs.len() - i,
{
    if 0 <= i < cs.len() && cs[i] != '\n' {
        line_end(cs, i + 1)
    } else {
        i
    }
}

/// The position after the `}` that closes a brace comment, searching from `j`.
pub open spec fn brace_close(cs: Seq<char>, j: int) -> Result<int, Seq<char>>
    decreases cs.len() - j,
{
    if j < 0 || j >= cs.len() {
        Err("PGN structure error: unclosed brace comment"@)
    } else if cs[j] == '}' {
        Ok(j + 1)
    } else {
        brace_close(cs, j + 1)
    }
}

/// The position after the `)` that closes a variation, with `depth` open
/// parentheses seen; comments inside are skipped as comments.
pub open spec fn variation_close(cs: Seq<char>, j: int, depth: int) -> Result<int, Seq<char>>
    decreases cs.len() - j,
{
    if j < 0 || j >= cs.len() {
        Err("PGN structure error: unclosed variation"@)
    } else if cs[j] == '(' {
        variation_close(cs, j + 1, depth + 1)
    } else if cs[j] == ')' {
        if depth - 1 == 0 {
            Ok(j + 1)
        } else {
            variation_close(cs, j + 1, depth - 1)
        }
    } else if cs[j] == '{' {
        match brace_close(cs, j + 1) {
            Ok(k) => if j < k <= cs.len() {
                variation_close(cs, k, depth)
            } else {
                Err(Seq::empty())
            },
            Err(e) => Err(e),
        }
    } else if cs[j] == ';' {
        let k = line_end(cs, j);
        if j < k <= cs.len() {
            variation_close(cs, k, depth)
        } else {
            Err(Seq::empty())
        }
    } else {
        variation_close(cs, j + 1, depth)
    }
}

pub open spec fn is_name_char(c: char) -> bool {
    ('a' <= c && c <= 'z') || ('A' <= c && c <= 'Z') || ('0' <= c && c <= '9') || c == '_'
        || c == '-'
}

pub open spec fn name_end(cs: Seq<char>, i: int) -> int
    decreases cs.len() - i,
{
    if 0 <= i < cs.len() && is_name_char(cs[i]) {
        name_end(cs, i + 1)
    } else {
        i
    }
}

/// A quoted tag value from `j` on: its characters (with `\` escaping the next
/// one) and the position after the closing quote; `Err` for an escape at the end.
pub open spec fn value_from(cs: Seq<char>, j: int, acc: Seq<char>) -> Result<(Seq<char>, int), ()>
    decreases cs.len() - j,
{
    if j < 0 || j >= cs.len() {
        Ok((acc, j))
    } else if cs[j] == '"' {
        Ok((acc, j + 1))
    } else if cs[j] == '\\' {
        if j + 1 >= cs.len() {
            Err(())
        } else {
            value_from(cs, j + 2, acc.push(cs[j + 1]))
        }
    } else {
        value_from(cs, j + 1, acc.push(cs[j]))
    }
}

pub open spec fn header_error(name: Seq<char>, what: Seq<char>) -> Seq<char> {
    "PGN structure error: header '"@ + name + what
}

/// A tag pair `[Name "value"]` starting at the `[` in position `i`: its name,
/// its value and the position after the `]`.
pub open spec fn header_at(cs: Seq<char>, i: int) -> Result<(Seq<char>, Seq<char>, int), Seq<char>> {
    let j1 = ws_start(cs, i + 1);
    let j2 = name_end(cs, j1);
    if j2 == j1 {
        Err("PGN structure error: header name is missing"@)
    } else {
        let name = cs.subrange(j1, j2);
        if j2 >= cs.len() || !is_ws(cs[j2]) {
            Err(header_error(name, "' has no value"@))
        } else {
            let j3 = ws_start(cs, j2);
            if j3 >= cs.len() || cs[j3] != '"' {
                Err(header_error(name, "' value must be quoted"@))
            } else {
                match value_from(cs, j3 + 1, Seq::empty()) {
                    Err(()) => Err(
                        "PGN structure error: incomplete escape in header '"@ + name + "'"@,
                    ),
                    Ok((value, k)) => if k == cs.len() && cs[k - 1] != '"' {
                        Err("PGN structure error: unclosed header '"@ + name + "'"@)
                    } else {
                        let k2 = ws_start(cs, k);
                        if k2 >= cs.len() || cs[k2] != ']' {
                            Err(header_error(name, "' is not closed"@))
                        } else {
                            Ok((name, value, k2 + 1))
                        }
                    },
                }
            }
        }
    }
}

pub open spec fn prepend(ev: SpecEvent, r: Result<Seq<SpecEvent>, Seq<char>>) -> Result<
    Seq<SpecEvent>,
    Seq<char>,
> {
    match r {
        Ok(evs) => Ok(seq![ev] + evs),
        Err(e) => Err(e),
    }
}

pub open spec fn prefix_events(p: Seq<SpecEvent>, r: Result<Seq<SpecEvent>, Seq<char>>) -> Result<
    Seq<SpecEvent>,
    Seq<char>,
> {
    match r {
        Ok(evs) => Ok(p + evs),
        Err(e) => Err(e),
    }
}

/// The events of PGN text from position `i` on; `line_start` tells whether
/// only whitespace stands between the last line break and `i`.
pub open spec fn scan_from(cs: Seq<char>, i: int, line_start: bool) -> Result<
    Seq<SpecEvent>,
    Seq<char>,
>
    decreases cs.len() - i,
{
    if i < 0 || i >= cs.len() {
        Ok(Seq::empty())
    } else {
        let c = cs[i];
        if is_ws(c) {
            scan_from(cs, i + 1, if c == '\n' { true } else { line_start })
        } else if line_start && c == '[' {
            match header_at(cs, i) {
                Ok((n, v, k)) => if i < k <= cs.len() {
                    prepend(SpecEvent::Header(n, v), scan_from(cs, k, false))
                } else {
                    Ok(Seq::empty())
                },
                Err(e) => Err(e),
            }
        } else if c == '{' {
            match brace_close(cs, i + 1) {
                Ok(k) => if i < k <= cs.len() {
                    scan_from(cs, k, false)
                } else {
                    Ok(Seq::empty())
                },
                Err(e) => Err(e),
            }
        } else if c == ';' {
            let k = line_end(cs, i);
            if i < k <= cs.len() {
                scan_from(cs, k, false)
            } else {
                Ok(Seq::empty())
            }
        } else if c == '(' {
            match variation_close(cs, i, 0) {
                Ok(k) => if i < k <= cs.len() {
                    scan_from(cs, k, false)
                } else {
                    Ok(Seq::empty())
                },
                Err(e) => Err(e),
            }
        } else if c == ')' || c == '}' {
            Err("PGN structure error: unexpected '"@ + seq![c] + "'"@)
        } else {
            let k = token_end(cs, i);
            if i < k <= cs.len() {
                prepend(SpecEvent::Token(cs.subrange(i, k)), scan_from(cs, k, false))
            } else {
                Ok(Seq::empty())
            }
        }
    }
}

proof fn lemma_prefix_prepend(p: Seq<SpecEvent>, e: SpecEvent, r: Result<Seq<SpecEvent>, Seq<char>>)
    ensures
        prefix_events(p, prepend(e, r)) == prefix_events(p.push(e), r),
{
    match r {
        Ok(evs) => {
            assert(p + (seq![e] + evs) =~= p.push(e) + evs);
        },
        Err(_) => {},
    }
}

fn skip_whitespace(chars: &Vec<char>, start: usize) -> (res: usize)
    requires
        start <= chars.len(),
    ensures
        res == ws_start(chars@, start as int),
        start <= res <= chars.len(),
{
    let mut index = start;
    while index < chars.len() && is_whitespace(chars[index])
        invariant
            start <= index <= chars.len(),
            ws_start(chars@, start as int) == ws_start(chars@, index as int),
        decreases chars.len() - index,
    {
        index = index + 1;
    }
    index
}

fn skip_brace_comment(chars: &Vec<char>, start: usize) -> (res: Result<usize, String>)
    requires
        start < chars.len(),
    ensures
        match brace_close(chars@, start + 1) {
            Ok(k) => res matches Ok(r) && r as int == k,
            Err(e) => res matches Err(m) && m@ == e,
        },
        res matches Ok(k) ==> start < k <= chars.len(),
{
    let mut index = start + 1;
    while index < chars.len()
        invariant
            start < index <= chars.len(),
            brace_close(chars@, start + 1) == brace_close(chars@, index as int),
        decreases chars.len() - index,
    {
        if chars[index] == '}' {
            return Ok(index + 1);
        }
        index = index + 1;
    }
    Err(string_from_chars(&chars_of("PGN structure error: unclosed brace comment")))
}

fn skip_line_comment(chars: &Vec<char>, start: usize) -> (res: usize)
    requires
        start <= chars.len(),
    ensures
        res == line_end(chars@, start as int),
        start <= res <= chars.len(),
        start < chars.len() && chars@[start as int] != '\n' ==> start < res,
{
    let mut index = start;
    while index < chars.len() && chars[index] != '\n'
        invariant
            start <= index <= chars.len(),
            line_end(chars@, start as int) == line_end(chars@, index as int),
        decreases chars.len() - index,
    {
        index = index + 1;
    }
    index
}

fn skip_variation(chars: &Vec<char>, start: usize) -> (res: Result<usize, String>)
    requires
        start < chars.len(),
        chars@[start as int] == '(',
    ensures
        match variation_close(chars@, start as int, 0) {
            Ok(k) => res matches Ok(r) && r as int == k,
            Err(e) => res matches Err(m) && m@ == e,
        },
        res matches Ok(k) ==> start < k <= chars.len(),
{
    let mut index = start;
    let mut depth: usize = 0;
    while index < chars.len()
        invariant
            start <= index <= chars.len(),
            start < chars.len(),
            chars@[start as int] == '(',
            depth <= index - start,
            index == start ==> depth == 0,
            index > start ==> depth > 0,
            variation_close(chars@, start as int, 0) == variation_close(
                chars@,
                index as int,
                depth as int,
            ),
        decreases chars.len() - index,
    {
        let c = chars[index];
        if c == '(' {
            depth = depth + 1;
            index = index + 1;
        } else if c == ')' {
            depth = depth - 1;
            index = index + 1;
            if depth == 0 {
                return Ok(index);
            }
        } else if c == '{' {
            match skip_brace_comment(chars, index) {
                Ok(k) => {
                    index = k;
                },
                Err(e) => {
                    return Err(e);
                },
            }
        } else if c == ';' {
            index = skip_line_comment(chars, index);
        } else {
            index = index + 1;
        }
    }
    Err(string_from_chars(&chars_of("PGN structure error: unclosed variation")))
}

fn header_error_text(name: &Vec<char>, what: &str) -> (res: String)
    ensures
        res@ == header_error(name@, what@),
{
    let mut m = chars_of("PGN structure error: header '");
    push_all(&mut m, name);
    push_str(&mut m, what);
    string_from_chars(&m)
}

fn quoted_name_error(prefix: &str, name: &Vec<char>) -> (res: String)
    ensures
        res@ == prefix@ + name@ + "'"@,
{
    let mut m = chars_of(prefix);
    push_all(&mut m, name);
    push_str(&mut m, "'");
    string_from_chars(&m)
}

#[verifier::loop_isolation(false)]
fn parse_header(chars: &Vec<char>, start: usize) -> (res: Result<(Vec<char>, Vec<char>, usize), String>)
    requires
        start < chars.len(),
        chars@[start as int] == '[',
    ensures
        match header_at(chars@, start as int) {
            Ok((n, v, k)) => res matches Ok(r) && r.0@ == n && r.1@ == v && r.2 == k,
            Err(e) => res matches Err(m) && m@ == e,
        },
        res matches Ok(r) ==> start < r.2 <= chars.len(),
{
    let mut index = skip_whitespace(chars, start + 1);
    let name_start = index;
    while index < chars.len() && (('a' <= chars[index] && chars[index] <= 'z') || ('A'
        <= chars[index] && chars[index] <= 'Z') || ('0' <= chars[index] && chars[index] <= '9')
        || chars[index] == '_' || chars[index] == '-')
        invariant
            name_start <= index <= chars.len(),
            name_end(chars@, name_start as int) == name_end(chars@, index as int),
        decreases chars.len() - index,
    {
        index = index + 1;
    }
    if name_start == index {
        return Err(string_from_chars(&chars_of("PGN structure error: header name is missing")));
    }
    let name = subvec_chars(chars, name_start, index);
    assert(name_start == ws_start(chars@, start + 1));
    assert(index == name_end(chars@, name_start as int));
    if index >= chars.len() || !is_whitespace(chars[index]) {
        return Err(header_error_text(&name, "' has no value"));
    }
    index = skip_whitespace(chars, index);
    if index >= chars.len() || chars[index] != '"' {
        return Err(header_error_text(&name, "' value must be quoted"));
    }
    assert(index == ws_start(chars@, name_end(chars@, ws_start(chars@, start + 1))));
    index = index + 1;
    let ghost vstart = index;
    let mut value: Vec<char> = Vec::new();
    let mut closed = false;
    while !closed && index < chars.len()
        invariant
            vstart <= index <= chars.len(),
            closed ==> value_from(chars@, vstart as int, Seq::empty()) == Ok::<
                (Seq<char>, int),
                (),
            >((value@, index as int)),
            !closed ==> value_from(chars@, vstart as int, Seq::empty()) == value_from(
                chars@,
                index as int,
                value@,
            ),
        decreases chars.len() - index,
    {
        let ghost pos = index;
        let character = chars[index];
        index = index + 1;
        if character == '"' {
            closed = true;
        } else if character == '\\' {
            if index >= chars.len() {
                assert(value_from(chars@, pos as int, value@) is Err);
                assert(value_from(chars@, vstart as int, Seq::empty()) is Err);
                assert(header_at(chars@, start as int) == Err::<(Seq<char>, Seq<char>, int), Seq<char>>(
                    "PGN structure error: incomplete escape in header '"@ + name@ + "'"@));
                return Err(
                    quoted_name_error("PGN structure error: incomplete escape in header '", &name),
                );
            }
            value.push(chars[index]);
            index = index + 1;
        } else {
            value.push(character);
        }
    }
    assert(value_from(chars@, vstart as int, Seq::empty()) == Ok::<(Seq<char>, int), ()>(
        (value@, index as int),
    ));
    if index == chars.len() && chars[index - 1] != '"' {
        return Err(quoted_name_error("PGN structure error: unclosed header '", &name));
    }
    index = skip_whitespace(chars, index);
    if index >= chars.len() || chars[index] != ']' {
        return Err(header_error_text(&name, "' is not closed"));
    }
    Ok((name, value, index + 1))
}

fn subvec_chars(t: &Vec<char>, lo: usize, hi: usize) -> (res: Vec<char>)
    requires
        lo <= hi <= t.len(),
    ensures
        res@ == t@.subrange(lo as int, hi as int),
{
    subvec(t, lo, hi)
}

fn scan_pgn(chars: &Vec<char>) -> (res: Result<Vec<PgnEvent>, String>)
    ensures
        match scan_from(chars@, 0, true) {
            Ok(evs) => res matches Ok(v) && v@.map_values(|e: PgnEvent| e@) == evs,
            Err(e) => res matches Err(m) && m@ == e,
        },
        res matches Ok(v) ==> v@.len() <= chars@.len(),
{
    let mut events: Vec<PgnEvent> = Vec::new();
    let mut index: usize = 0;
    let mut line_start = true;
    while index < chars.len()
        invariant
            index <= chars.len(),
            events@.len() <= index,
            scan_from(chars@, 0, true) == prefix_events(
                events@.map_values(|e: PgnEvent| e@),
                scan_from(chars@, index as int, line_start),
            ),
        decreases chars.len() - index,
    {
        let current = chars[index];
        let ghost old_events = events@.map_values(|e: PgnEvent| e@);
        if is_whitespace(current) {
            if current == '\n' {
                line_start = true;
            }
            index = index + 1;
            continue ;
        }
        if line_start && current == '[' {
            match parse_header(chars, index) {
                Ok((name, value, next_index)) => {
                    proof {
                        lemma_prefix_prepend(
                            old_events,
                            SpecEvent::Header(name@, value@),
                            scan_from(chars@, next_index as int, false),
                        );
                    }
                    events.push(PgnEvent::Header(name, value));
                    assert(events@.map_values(|e: PgnEvent| e@) =~= old_events.push(
                        SpecEvent::Header(name@, value@),
                    ));
                    index = next_index;
                    line_start = false;
                    continue ;
                },
                Err(e) => {
                    return Err(e);
                },
            }
        }
        line_start = false;
        if current == '{' {
            match skip_brace_comment(chars, index) {
                Ok(k) => {
                    index = k;
                },
                Err(e) => {
                    return Err(e);
                },
            }
        } else if current == ';' {
            index = skip_line_comment(chars, index);
        } else if current == '(' {
            match skip_variation(chars, index) {
                Ok(k) => {
                    index = k;
                },
                Err(e) => {
                    return Err(e);
                },
            }
        } else if current == ')' || current == '}' {
            let mut m = chars_of("PGN structure error: unexpected '");
            m.push(current);
            push_str(&mut m, "'");
            assert(m@ =~= "PGN structure error: unexpected '"@ + seq![current] + "'"@);
            return Err(string_from_chars(&m));
        } else {
            let start = index;
            while index < chars.len() && !is_whitespace(chars[index]) && chars[index] != '{'
                && chars[index] != ';' && chars[index] != '(' && chars[index] != ')'
                invariant
                    start <= index <= chars.len(),
                    token_end(chars@, start as int) == token_end(chars@, index as int),
                decreases chars.len() - index,
            {
                index = index + 1;
            }
            let token = subvec(chars, start, index);
            proof {
                lemma_prefix_prepend(
                    old_events,
                    SpecEvent::Token(token@),
                    scan_from(chars@, index as int, false),
                );
            }
            events.push(PgnEvent::Token(token));
            assert(events@.map_values(|e: PgnEvent| e@) =~= old_events.push(
                SpecEvent::Token(chars@.subrange(start as int, index as int)),
            ));
        }
    }
    assert(events@.map_values(|e: PgnEvent| e@) + Seq::<SpecEvent>::empty() =~= events@.map_values(
        |e: PgnEvent| e@,
    ));
    Ok(events)
}

// ───────────────────────── games ─────────────────────────

/// The standard tag pairs kept from a PGN game.
#[derive(Debug, Clone, Default, PartialEq, Eq)]
pub struct ImportedGameHeaders {
    pub event: Option<String>,
    pub site: Option<String>,
    pub date: Option<String>,
    pub round: Option<String>,
    pub white: Option<String>,
    pub black: Option<String>,
    pub result: Option<String>,
    pub set_up: Option<String>,
    pub fen: Option<String>,
}

/// The tag pairs as text.
pub struct HeadersView {
    pub event: Option<Seq<char>>,
    pub site: Option<Seq<char>>,
    pub date: Option<Seq<char>>,
    pub round: Option<Seq<char>>,
    pub white: Option<Seq<char>>,
    pub black: Option<Seq<char>>,
    pub result: Option<Seq<char>>,
    pub set_up: Option<Seq<char>>,
    pub fen: Option<Seq<char>>,
}

pub open spec fn opt_view(o: Option<String>) -> Option<Seq<char>> {
    match o {
        Some(s) => Some(s@),
        None => None,
    }
}

impl View for ImportedGameHeaders {
    type V = HeadersView;

    open spec fn view(&self) -> HeadersView {
        HeadersView {
            event: opt_view(self.event),
            site: opt_view(self.site),
            date: opt_view(self.date),
            round: opt_view(self.round),
            white: opt_view(self.white),
            black: opt_view(self.black),
            result: opt_view(self.result),
            set_up: opt_view(self.set_up),
            fen: opt_view(self.fen),
        }
    }
}

/// A validated PGN main line: `positions[0]` is the initial board and each
/// later position is the board after the move just before it in `moves`.
/// Boards are board FENs and moves are UCI texts (see `chess_rules`).
#[derive(Debug, Clone, PartialEq, Eq)]
pub struct ImportedGame {
    pub headers: ImportedGameHeaders,
    pub moves: Vec<String>,
    pub positions: Vec<String>,
}

pub struct GameView {
    pub headers: HeadersView,
    pub moves: Seq<Seq<char>>,
    pub positions: Seq<Seq<char>>,
}

pub open spec fn strings_view(v: Seq<String>) -> Seq<Seq<char>> {
    v.map_values(|s: String| s@)
}

impl View for ImportedGame {
    type V = GameView;

    open spec fn view(&self) -> GameView {
        GameView {
            headers: self.headers@,
            moves: strings_view(self.moves@),
            positions: strings_view(self.positions@),
        }
    }
}

pub open spec fn games_view(v: Seq<ImportedGame>) -> Seq<GameView> {
    v.map_values(|g: ImportedGame| g@)
}

/// A game on its way through the movetext.
pub struct BuilderView {
    pub headers: HeadersView,
    pub moves: Seq<Seq<char>>,
    pub positions: Seq<Seq<char>>,
    pub has_content: bool,
    pub saw_result: bool,
}

struct GameBuilder {
    headers: ImportedGameHeaders,
    moves: Vec<String>,
    positions: Vec<String>,
    has_content: bool,
    saw_result: bool,
}

impl View for GameBuilder {
    type V = BuilderView;

    closed spec fn view(&self) -> BuilderView {
        BuilderView {
            headers: self.headers@,
            moves: strings_view(self.moves@),
            positions: strings_view(self.positions@),
            has_content: self.has_content,
            saw_result: self.saw_result,
        }
    }
}

pub open spec fn no_headers() -> HeadersView {
    HeadersView {
        event: None,
        site: None,
        date: None,
        round: None,
        white: None,
        black: None,
        result: None,
        set_up: None,
        fen: None,
    }
}

pub open spec fn empty_builder() -> BuilderView {
    BuilderView {
        headers: no_headers(),
        moves: Seq::empty(),
        positions: Seq::empty(),
        has_content: false,
        saw_result: false,
    }
}

/// Records a standard tag; other tags are ignored.
pub open spec fn set_header_spec(h: HeadersView, name: Seq<char>, value: Seq<char>) -> HeadersView {
    if name == "Event"@ {
        HeadersView { event: Some(value), ..h }
    } else if name == "Site"@ {
        HeadersView { site: Some(value), ..h }
    } else if name == "Date"@ {
        HeadersView { date: Some(value), ..h }
    } else if name == "Round"@ {
        HeadersView { round: Some(value), ..h }
    } else if name == "White"@ {
        HeadersView { white: Some(value), ..h }
    } else if name == "Black"@ {
        HeadersView { black: Some(value), ..h }
    } else if name == "Result"@ {
        HeadersView { result: Some(value), ..h }
    } else if name == "SetUp"@ {
        HeadersView { set_up: Some(value), ..h }
    } else if name == "FEN"@ {
        HeadersView { fen: Some(value), ..h }
    } else {
        h
    }
}

pub open spec fn in_game(n: nat) -> Seq<char> {
    " in game "@ + decimal(n)
}

/// The initial board of a game: the `FEN` tag when `SetUp` is `"1"`, the
/// standard position when neither tag is there, an error otherwise.
pub open spec fn initial_position_spec(b: BuilderView, game_number: nat) -> Result<BuilderView, Seq<char>> {
    if b.positions.len() > 0 {
        Ok(b)
    } else {
        let set_up_one = b.headers.set_up == Some("1"@);
        match b.headers.fen {
            Some(fen) => if set_up_one {
                match fen_read(fen) {
                    Ok(board) => Ok(BuilderView { positions: seq![board], ..b }),
                    Err(e) => Err("invalid initial FEN"@ + in_game(game_number) + ": "@ + e),
                }
            } else {
                Err("PGN structure error"@ + in_game(game_number) + ": FEN requires SetUp \"1\""@)
            },
            None => if set_up_one {
                Err("PGN structure error"@ + in_game(game_number)
                    + ": SetUp \"1\" requires a FEN tag"@)
            } else {
                Ok(BuilderView { positions: seq![start_fen()], ..b })
            },
        }
    }
}

/// A main line that replays: one more board than moves, every board a board
/// FEN, every move a legal UCI move whose board follows it.
pub open spec fn replay_ok(moves: Seq<Seq<char>>, positions: Seq<Seq<char>>) -> bool {
    &&& positions.len() == moves.len() + 1
    &&& forall|i: int| 0 <= i < positions.len() ==> #[trigger] is_board(positions[i])
    &&& forall|i: int|
        0 <= i < moves.len() ==> #[trigger] is_uci(moves[i]) && is_legal(positions[i], moves[i])
            && positions[i + 1] == board_after(positions[i], moves[i])
}

pub open spec fn game_replay_ok(g: GameView) -> bool {
    replay_ok(g.moves, g.positions)
}

pub open spec fn games_replay_ok(gs: Seq<GameView>) -> bool {
    forall|i: int| 0 <= i < gs.len() ==> #[trigger] game_replay_ok(gs[i])
}

/// A game being built replays as far as it goes.
pub open spec fn boards_ok(b: BuilderView) -> bool {
    if b.positions.len() == 0 {
        b.moves.len() == 0
    } else {
        replay_ok(b.moves, b.positions)
    }
}

pub open spec fn game_of(b: BuilderView) -> GameView {
    GameView { headers: b.headers, moves: b.moves, positions: b.positions }
}

/// Closes a game: one with moves or a result is kept, numbered after the
/// games before it; an empty one is dropped.
pub open spec fn finish_spec(games: Seq<GameView>, b: BuilderView) -> Result<Seq<GameView>, Seq<char>> {
    if !(b.moves.len() > 0 || b.saw_result) {
        Ok(games)
    } else {
        match initial_position_spec(b, games.len() + 1) {
            Ok(b2) => Ok(games.push(game_of(b2))),
            Err(e) => Err(e),
        }
    }
}

pub open spec fn at_ply(token: Seq<char>, game_number: nat, ply: nat) -> Seq<char> {
    "invalid SAN move '"@ + token + "'"@ + in_game(game_number) + " at ply "@ + decimal(ply)
}

/// The move that a SAN token names on a board, with its check or mate mark
/// held against the board after it.
pub open spec fn san_step_spec(board: Seq<char>, token: Seq<char>, game_number: nat, ply: nat) -> Result<Seq<char>, Seq<char>> {
    let (normalized, suffix) = normalize_san_spec(token);
    if normalized.len() == 0 {
        Err(at_ply(token, game_number, ply))
    } else {
        match san_move(board, normalized) {
            None => Err(at_ply(token, game_number, ply)),
            Some(uci) => {
                let next = board_after(board, uci);
                if suffix == SanSuffix::Check && !board_in_check(next) {
                    Err("invalid SAN check suffix '+'"@ + in_game(game_number) + " at ply "@
                        + decimal(ply))
                } else if suffix == SanSuffix::Checkmate && board_state(next)
                    != BoardState::Checkmate {
                    Err("invalid SAN mate suffix '#'"@ + in_game(game_number) + " at ply "@
                        + decimal(ply))
                } else {
                    Ok(uci)
                }
            },
        }
    }
}

/// Plays a SAN token on the game being built.
pub open spec fn move_step_spec(b: BuilderView, token: Seq<char>, game_number: nat) -> Result<BuilderView, Seq<char>> {
    match initial_position_spec(b, game_number) {
        Err(e) => Err(e),
        Ok(b1) => if b1.positions.len() == 0 {
            Err("internal PGN position initialization failure"@)
        } else {
            let board = b1.positions.last();
            let ply = b1.moves.len() + 1;
            match san_step_spec(board, token, game_number, ply) {
                Err(e) => Err(e),
                Ok(uci) => if !is_legal(board, uci) {
                    Err(at_ply(token, game_number, ply) + ": move is illegal"@)
                } else {
                    Ok(
                        BuilderView {
                            moves: b1.moves.push(uci),
                            positions: b1.positions.push(board_after(board, uci)),
                            ..b1
                        },
                    )
                },
            }
        },
    }
}

pub open spec fn finish_current(games: Seq<GameView>, b: BuilderView) -> Result<(Seq<GameView>, Option<BuilderView>), Seq<char>> {
    match finish_spec(games, b) {
        Ok(g) => Ok((g, None)),
        Err(e) => Err(e),
    }
}

pub open spec fn or_new(c: Option<BuilderView>) -> BuilderView {
    match c {
        Some(b) => b,
        None => empty_builder(),
    }
}

/// One event read into the games so far and the game being built.
pub open spec fn event_step(games: Seq<GameView>, current: Option<BuilderView>, ev: SpecEvent) -> Result<(Seq<GameView>, Option<BuilderView>), Seq<char>> {
    match ev {
        SpecEvent::Header(name, value) => {
            let r1 = match current {
                Some(b) => if b.moves.len() > 0 || b.saw_result {
                    finish_current(games, b)
                } else {
                    Ok((games, Some(b)))
                },
                None => Ok((games, None)),
            };
            match r1 {
                Err(e) => Err(e),
                Ok((g, c)) => {
                    let b = or_new(c);
                    Ok(
                        (
                            g,
                            Some(
                                BuilderView {
                                    has_content: true,
                                    headers: set_header_spec(b.headers, name, value),
                                    ..b
                                },
                            ),
                        ),
                    )
                },
            }
        },
        SpecEvent::Token(tok) => {
            let t = strip_move_number_spec(tok);
            if t.len() == 0 || is_nag_spec(t) {
                Ok((games, current))
            } else if is_result_spec(t) {
                match current {
                    Some(b) => if b.has_content {
                        Ok((games, Some(BuilderView { saw_result: true, ..b })))
                    } else {
                        Ok((games, Some(b)))
                    },
                    None => Ok((games, None)),
                }
            } else {
                let r1 = match current {
                    Some(b) => if b.saw_result {
                        finish_current(games, b)
                    } else {
                        Ok((games, Some(b)))
                    },
                    None => Ok((games, None)),
                };
                match r1 {
                    Err(e) => Err(e),
                    Ok((g, c)) => {
                        let b = BuilderView { has_content: true, ..or_new(c) };
                        match move_step_spec(b, t, g.len() + 1) {
                            Err(e) => Err(e),
                            Ok(b2) => Ok((g, Some(b2))),
                        }
                    },
                }
            }
        },
    }
}

/// The first `k` events read, from no games and no game being built.
pub open spec fn fold_events(evs: Seq<SpecEvent>, k: int) -> Result<(Seq<GameView>, Option<BuilderView>), Seq<char>>
    decreases k,
{
    if k <= 0 {
        Ok((Seq::empty(), None))
    } else {
        match fold_events(evs, k - 1) {
            Ok((g, c)) => event_step(g, c, evs[k - 1]),
            Err(e) => Err(e),
        }
    }
}

/// What reading a PGN text gives: its games in source order, or the first
/// error met.
pub open spec fn parse_pgn_spec(input: Seq<char>) -> Result<Seq<GameView>, Seq<char>> {
    if trim_spec(input).len() == 0 {
        Err("PGN input is empty or contains no games"@)
    } else {
        match scan_from(input, 0, true) {
            Err(e) => Err(e),
            Ok(evs) => match fold_events(evs, evs.len() as int) {
                Err(e) => Err(e),
                Ok((g, c)) => {
                    let last = match c {
                        Some(b) => finish_spec(g, b),
                        None => Ok(g),
                    };
                    match last {
                        Err(e) => Err(e),
                        Ok(games) => if games.len() == 0 {
                            Err("PGN input contains no usable games"@)
                        } else {
                            Ok(games)
                        },
                    }
                },
            },
        }
    }
}

/// The first board of a game as its tags ask: with `SetUp` "1" the board
/// that its `FEN` tag reads as, otherwise (and then with no `FEN` tag) the
/// standard starting position.
pub open spec fn initial_board_ok(h: HeadersView, first: Seq<char>) -> bool {
    if h.set_up == Some("1"@) {
        h.fen matches Some(f) && fen_read(f) == Ok::<Seq<char>, Seq<char>>(first)
    } else {
        h.fen is None && first == start_fen()
    }
}

/// A read game starts from the board that its tags ask for.
pub open spec fn starts_from_tags(g: GameView) -> bool {
    g.positions.len() > 0 && initial_board_ok(g.headers, g.positions[0])
}

/// What holds between events: every game read starts from its tags, and a
/// game being built that has a board has a move and starts from its tags.
spec fn fold_starts_ok(games: Seq<GameView>, current: Option<BuilderView>) -> bool {
    &&& forall|i: int| 0 <= i < games.len() ==> #[trigger] starts_from_tags(games[i])
    &&& current matches Some(b) ==> (b.positions.len() > 0 ==> b.moves.len() > 0
        && initial_board_ok(b.headers, b.positions[0]))
}

proof fn lemma_initial_position_starts(b: BuilderView, n: nat)
    requires
        b.positions.len() > 0 ==> initial_board_ok(b.headers, b.positions[0]),
        initial_position_spec(b, n) is Ok,
    ensures
        ({
            let b2 = initial_position_spec(b, n)->Ok_0;
            &&& b2.headers == b.headers && b2.moves == b.moves
            &&& b2.positions.len() > 0 && initial_board_ok(b2.headers, b2.positions[0])
            &&& b.positions.len() > 0 ==> b2 == b
        }),
{
}

proof fn lemma_finish_starts(games: Seq<GameView>, b: BuilderView)
    requires
        fold_starts_ok(games, Some(b)),
        finish_spec(games, b) is Ok,
    ensures
        fold_starts_ok(finish_spec(games, b)->Ok_0, None),
{
    if b.moves.len() > 0 || b.saw_result {
        lemma_initial_position_starts(b, games.len() + 1);
        let b2 = initial_position_spec(b, games.len() + 1)->Ok_0;
        let g2 = games.push(game_of(b2));
        assert forall|i: int| 0 <= i < g2.len() implies #[trigger] starts_from_tags(g2[i]) by {
            if i < games.len() {
                assert(g2[i] == games[i]);
            }
        }
    }
}

proof fn lemma_event_starts(games: Seq<GameView>, current: Option<BuilderView>, ev: SpecEvent)
    requires
        fold_starts_ok(games, current),
        event_step(games, current, ev) is Ok,
    ensures
        fold_starts_ok(event_step(games, current, ev)->Ok_0.0, event_step(games, current, ev)->Ok_0.1),
{
    match ev {
        SpecEvent::Header(name, value) => {
            match current {
                Some(b) => if b.moves.len() > 0 || b.saw_result {
                    lemma_finish_starts(games, b);
                },
                None => {},
            }
        },
        SpecEvent::Token(tok) => {
            let t = strip_move_number_spec(tok);
            if t.len() == 0 || is_nag_spec(t) {
            } else if is_result_spec(t) {
            } else {
                let r1 = match current {
                    Some(b) => if b.saw_result {
                        finish_current(games, b)
                    } else {
                        Ok((games, Some(b)))
                    },
                    None => Ok((games, None)),
                };
                match current {
                    Some(b) => if b.saw_result {
                        lemma_finish_starts(games, b);
                    },
                    None => {},
                }
                let (g, c) = r1->Ok_0;
                let b = BuilderView { has_content: true, ..or_new(c) };
                assert(b.positions.len() > 0 ==> initial_board_ok(b.headers, b.positions[0]));
                lemma_initial_position_starts(b, g.len() + 1);
            }
        },
    }
}

proof fn lemma_fold_starts(evs: Seq<SpecEvent>, k: int)
    requires
        0 <= k <= evs.len(),
        fold_events(evs, k) is Ok,
    ensures
        fold_starts_ok(fold_events(evs, k)->Ok_0.0, fold_events(evs, k)->Ok_0.1),
    decreases k,
{
    if k > 0 {
        let prev = fold_events(evs, k - 1);
        if prev is Err {
            lemma_fold_error_stays(evs, k - 1, k);
        } else {
            lemma_fold_starts(evs, k - 1);
            lemma_event_starts(prev->Ok_0.0, prev->Ok_0.1, evs[k - 1]);
        }
    }
}

/// Every game that a PGN text reads as starts from the board its tags ask
/// for: with `SetUp` "1", the board of its `FEN` tag; without it, and then
/// with no `FEN` tag, the standard starting position. A text that reads
/// gives at least one game. (That each game's moves are legal and its boards
/// follow them is what `parse_pgn` ensures.)
pub proof fn law_games_start_from_their_tags(input: Seq<char>)
    ensures
        parse_pgn_spec(input) matches Ok(gs) ==> gs.len() > 0 && forall|i: int|
            0 <= i < gs.len() ==> #[trigger] starts_from_tags(gs[i]),
{
    if trim_spec(input).len() != 0 {
        match scan_from(input, 0, true) {
            Ok(evs) => {
                if fold_events(evs, evs.len() as int) is Ok {
                    lemma_fold_starts(evs, evs.len() as int);
                    let (g, c) = fold_events(evs, evs.len() as int)->Ok_0;
                    match c {
                        Some(b) => {
                            if finish_spec(g, b) is Ok {
                                lemma_finish_starts(g, b);
                            }
                        },
                        None => {},
                    }
                }
            },
            Err(_) => {},
        }
    }
}

fn new_headers() -> (res: ImportedGameHeaders)
    ensures
        res@ == no_headers(),
{
    ImportedGameHeaders {
        event: None,
        site: None,
        date: None,
        round: None,
        white: None,
        black: None,
        result: None,
        set_up: None,
        fen: None,
    }
}

fn new_builder() -> (res: GameBuilder)
    ensures
        res@ == empty_builder(),
{
    let res = GameBuilder {
        headers: new_headers(),
        moves: Vec::new(),
        positions: Vec::new(),
        has_content: false,
        saw_result: false,
    };
    assert(strings_view(res.moves@) =~= Seq::<Seq<char>>::empty());
    assert(strings_view(res.positions@) =~= Seq::<Seq<char>>::empty());
    res
}

fn set_header(headers: &mut ImportedGameHeaders, name: &Vec<char>, value: String)
    ensures
        final(headers)@ == set_header_spec(old(headers)@, name@, value@),
{
    if seq_eq_str(name, "Event") {
        headers.event = Some(value);
    } else if seq_eq_str(name, "Site") {
        headers.site = Some(value);
    } else if seq_eq_str(name, "Date") {
        headers.date = Some(value);
    } else if seq_eq_str(name, "Round") {
        headers.round = Some(value);
    } else if seq_eq_str(name, "White") {
        headers.white = Some(value);
    } else if seq_eq_str(name, "Black") {
        headers.black = Some(value);
    } else if seq_eq_str(name, "Result") {
        headers.result = Some(value);
    } else if seq_eq_str(name, "SetUp") {
        headers.set_up = Some(value);
    } else if seq_eq_str(name, "FEN") {
        headers.fen = Some(value);
    }
}

fn string_is(s: &String, lit: &str) -> (res: bool)
    ensures
        res == (s@ == lit@),
{
    let v = chars_of(s.as_str());
    seq_eq_str(&v, lit)
}

fn push_in_game(m: &mut Vec<char>, game_number: usize)
    ensures
        final(m)@ == old(m)@ + in_game(game_number as nat),
{
    push_str(m, " in game ");
    push_decimal(m, game_number as u128);
    assert(final(m)@ =~= old(m)@ + in_game(game_number as nat));
}

fn ensure_initial_position(builder: &mut GameBuilder, game_number: usize) -> (res: Result<(), String>)
    ensures
        match initial_position_spec(old(builder)@, game_number as nat) {
            Ok(b) => res is Ok && final(builder)@ == b,
            Err(e) => res matches Err(m) && m@ == e,
        },
        res is Ok ==> final(builder)@.positions.len() > 0,
        boards_ok(old(builder)@) ==> boards_ok(final(builder)@),
{
    if builder.positions.len() > 0 {
        return Ok(());
    }
    let set_up_one = match &builder.headers.set_up {
        Some(s) => string_is(s, "1"),
        None => false,
    };
    match &builder.headers.fen {
        Some(fen) => {
            if set_up_one {
                match read_fen(fen.as_str()) {
                    Ok(board) => {
                        builder.positions.push(board);
                        assert(strings_view(builder.positions@) =~= seq![board@]);
                        Ok(())
                    },
                    Err(e) => {
                        let mut m = chars_of("invalid initial FEN");
                        push_in_game(&mut m, game_number);
                        push_str(&mut m, ": ");
                        push_str(&mut m, e.as_str());
                        Err(string_from_chars(&m))
                    },
                }
            } else {
                let mut m = chars_of("PGN structure error");
                push_in_game(&mut m, game_number);
                push_str(&mut m, ": FEN requires SetUp \"1\"");
                Err(string_from_chars(&m))
            }
        },
        None => {
            if set_up_one {
                let mut m = chars_of("PGN structure error");
                push_in_game(&mut m, game_number);
                push_str(&mut m, ": SetUp \"1\" requires a FEN tag");
                Err(string_from_chars(&m))
            } else {
                let board = start_position();
                builder.positions.push(board);
                assert(strings_view(builder.positions@) =~= seq![board@]);
                Ok(())
            }
        },
    }
}

fn finish_game(builder: GameBuilder, games: &mut Vec<ImportedGame>) -> (res: Result<(), String>)
    requires
        old(games)@.len() < usize::MAX,
        boards_ok(builder@),
        games_replay_ok(games_view(old(games)@)),
    ensures
        games_replay_ok(games_view(final(games)@)),
        match finish_spec(games_view(old(games)@), builder@) {
            Ok(g) => res is Ok && games_view(final(games)@) == g,
            Err(e) => res matches Err(m) && m@ == e,
        },
        final(games)@.len() <= old(games)@.len() + 1,
{
    let mut builder = builder;
    if !(builder.moves.len() > 0 || builder.saw_result) {
        return Ok(());
    }
    let game_number = games.len() + 1;
    let r = ensure_initial_position(&mut builder, game_number);
    if r.is_err() {
        return r;
    }
    let game = ImportedGame {
        headers: builder.headers,
        moves: builder.moves,
        positions: builder.positions,
    };
    let ghost old_games = games@;
    games.push(game);
    assert(games_view(games@) =~= games_view(old_games).push(game@));
    assert(game_replay_ok(game@));
    Ok(())
}

fn san_error(token: &Vec<char>, game_number: usize, ply: usize) -> (res: Vec<char>)
    ensures
        res@ == at_ply(token@, game_number as nat, ply as nat),
{
    let mut m = chars_of("invalid SAN move '");
    push_all(&mut m, token);
    push_str(&mut m, "'");
    push_in_game(&mut m, game_number);
    push_str(&mut m, " at ply ");
    push_decimal(&mut m, ply as u128);
    assert(m@ =~= at_ply(token@, game_number as nat, ply as nat));
    m
}

fn parse_san_move(board: &String, token: &Vec<char>, game_number: usize, ply: usize) -> (res: Result<String, String>)
    requires
        is_board(board@),
    ensures
        match san_step_spec(board@, token@, game_number as nat, ply as nat) {
            Ok(u) => res matches Ok(r) && r@ == u && is_legal(board@, u) && is_uci(u),
            Err(e) => res matches Err(m) && m@ == e,
        },
{
    let (normalized, suffix) = normalize_san(token);
    if normalized.len() == 0 {
        return Err(string_from_chars(&san_error(token, game_number, ply)));
    }
    let san = string_from_chars(&normalized);
    match parse_san(board.as_str(), san.as_str()) {
        None => Err(string_from_chars(&san_error(token, game_number, ply))),
        Some(uci) => {
            let next = make_move(board.as_str(), uci.as_str());
            if suffix == SanSuffix::Check && !in_check(next.as_str()) {
                let mut m = chars_of("invalid SAN check suffix '+'");
                push_in_game(&mut m, game_number);
                push_str(&mut m, " at ply ");
                push_decimal(&mut m, ply as u128);
                return Err(string_from_chars(&m));
            }
            if suffix == SanSuffix::Checkmate {
                let st = status(next.as_str());
                if st != BoardState::Checkmate {
                    let mut m = chars_of("invalid SAN mate suffix '#'");
                    push_in_game(&mut m, game_number);
                    push_str(&mut m, " at ply ");
                    push_decimal(&mut m, ply as u128);
                    return Err(string_from_chars(&m));
                }
            }
            Ok(uci)
        },
    }
}

spec fn opt_builder_view(c: Option<GameBuilder>) -> Option<BuilderView> {
    match c {
        Some(b) => Some(b@),
        None => None,
    }
}

spec fn current_ok(c: Option<GameBuilder>, bound: nat) -> bool {
    match c {
        Some(b) => boards_ok(b@) && b@.moves.len() <= bound,
        None => true,
    }
}

proof fn lemma_fold_error_stays(evs: Seq<SpecEvent>, k: int, k2: int)
    requires
        0 <= k <= k2,
        fold_events(evs, k) is Err,
    ensures
        fold_events(evs, k2) == fold_events(evs, k),
    decreases k2 - k,
{
    if k2 > k {
        lemma_fold_error_stays(evs, k, k2 - 1);
    }
}

fn apply_header(games: &mut Vec<ImportedGame>, current: Option<GameBuilder>, name: &Vec<char>, value: &Vec<char>) -> (res: Result<Option<GameBuilder>, String>)
    requires
        games_replay_ok(games_view(old(games)@)),
        old(games)@.len() < usize::MAX,
        current_ok(current, usize::MAX as nat),
    ensures
        games_replay_ok(games_view(final(games)@)),
        match event_step(games_view(old(games)@), opt_builder_view(current), SpecEvent::Header(name@, value@)) {
            Ok((g, c)) => res matches Ok(c2) && games_view(final(games)@) == g && opt_builder_view(c2) == c,
            Err(e) => res matches Err(m) && m@ == e,
        },
        final(games)@.len() <= old(games)@.len() + 1,
        res matches Ok(c2) ==> current_ok(c2, (match current { Some(b) => b@.moves.len(), None => 0nat })),
{
    let mut cur: Option<GameBuilder> = current;
    match cur {
        Some(b) => {
            if b.moves.len() > 0 || b.saw_result {
                let r = finish_game(b, games);
                if r.is_err() {
                    return Err(r.unwrap_err());
                }
                cur = None;
            } else {
                cur = Some(b);
            }
        },
        None => {
            cur = None;
        },
    }
    let mut builder = match cur {
        Some(b) => b,
        None => new_builder(),
    };
    builder.has_content = true;
    set_header(&mut builder.headers, name, string_from_chars(value));
    Ok(Some(builder))
}

#[verifier::spinoff_prover]
#[verifier::rlimit(30)]
fn apply_token(games: &mut Vec<ImportedGame>, current: Option<GameBuilder>, tok: &Vec<char>) -> (res: Result<Option<GameBuilder>, String>)
    requires
        games_replay_ok(games_view(old(games)@)),
        old(games)@.len() < usize::MAX,
        current_ok(current, (usize::MAX - 1) as nat),
        old(games)@.len() < usize::MAX - 1,
    ensures
        games_replay_ok(games_view(final(games)@)),
        match event_step(games_view(old(games)@), opt_builder_view(current), SpecEvent::Token(tok@)) {
            Ok((g, c)) => res matches Ok(c2) && games_view(final(games)@) == g && opt_builder_view(c2) == c,
            Err(e) => res matches Err(m) && m@ == e,
        },
        final(games)@.len() <= old(games)@.len() + 1,
        res matches Ok(c2) ==> current_ok(c2, (match current { Some(b) => b@.moves.len(), None => 0nat }) + 1),
{
    let token = strip_move_number(tok);
    if token.len() == 0 || is_nag(&token) {
        return Ok(current);
    }
    if is_result(&token) {
        match current {
            Some(mut b) => {
                if b.has_content {
                    b.saw_result = true;
                }
                return Ok(Some(b));
            },
            None => {
                return Ok(None);
            },
        }
    }
    let mut cur: Option<GameBuilder> = current;
    match cur {
        Some(b) => {
            if b.saw_result {
                let r = finish_game(b, games);
                if r.is_err() {
                    return Err(r.unwrap_err());
                }
                cur = None;
            } else {
                cur = Some(b);
            }
        },
        None => {
            cur = None;
        },
    }
    let mut builder = match cur {
        Some(b) => b,
        None => new_builder(),
    };
    builder.has_content = true;
    let game_number = games.len() + 1;
    let r = ensure_initial_position(&mut builder, game_number);
    if r.is_err() {
        return Err(r.unwrap_err());
    }
    let last = builder.positions.len() - 1;
    let board = builder.positions[last].clone();
    assert(board@ == builder@.positions.last());
    assert(is_board(builder@.positions[last as int]));
    let ply = builder.moves.len() + 1;
    let uci = match parse_san_move(&board, &token, game_number, ply) {
        Ok(u) => u,
        Err(e) => {
            return Err(e);
        },
    };
    if !legal(board.as_str(), uci.as_str()) {
        let mut m = san_error(&token, game_number, ply);
        push_str(&mut m, ": move is illegal");
        return Err(string_from_chars(&m));
    }
    let next = make_move(board.as_str(), uci.as_str());
    let ghost before = builder@;
    builder.moves.push(uci);
    builder.positions.push(next);
    assert(builder@.moves =~= before.moves.push(uci@));
    assert(builder@.positions =~= before.positions.push(next@));
    Ok(Some(builder))
}

/// Parses one or more PGN games and replays only their validated main lines.
#[verifier::loop_isolation(false)]
pub fn parse_pgn(input: &str) -> (res: Result<Vec<ImportedGame>, String>)
    requires
        input@.len() < usize::MAX,
    ensures
        match parse_pgn_spec(input@) {
            Ok(games) => res matches Ok(v) && games_view(v@) == games,
            Err(e) => res matches Err(m) && m@ == e,
        },
        res matches Ok(v) ==> games_replay_ok(games_view(v@)),
{
    let chars = chars_of(input);
    let (lo, hi) = trim_bounds(&chars);
    if lo == hi {
        return Err(string_from_chars(&chars_of("PGN input is empty or contains no games")));
    }
    let events = match scan_pgn(&chars) {
        Ok(evs) => evs,
        Err(e) => {
            return Err(e);
        },
    };
    let ghost evs = events@.map_values(|e: PgnEvent| e@);
    let mut games: Vec<ImportedGame> = Vec::new();
    let mut current: Option<GameBuilder> = None;
    let mut i: usize = 0;
    assert(games_replay_ok(games_view(games@)));
    assert(games_view(games@) =~= Seq::<GameView>::empty());
    while i < events.len()
        invariant
            i <= events.len(),
            events.len() < usize::MAX,
            evs == events@.map_values(|e: PgnEvent| e@),
            games@.len() <= i,
            current_ok(current, i as nat),
            games_replay_ok(games_view(games@)),
            fold_events(evs, i as int) == Ok::<(Seq<GameView>, Option<BuilderView>), Seq<char>>(
                (games_view(games@), opt_builder_view(current)),
            ),
        decreases events.len() - i,
    {
        let cur = current;
        current = None;
        let r = match &events[i] {
            PgnEvent::Header(name, value) => apply_header(&mut games, cur, name, value),
            PgnEvent::Token(t) => apply_token(&mut games, cur, t),
        };
        match r {
            Ok(c) => {
                current = c;
            },
            Err(e) => {
                assert(fold_events(evs, i + 1) is Err);
                proof {
                    lemma_fold_error_stays(evs, i + 1, evs.len() as int);
                }
                return Err(e);
            },
        }
        i = i + 1;
    }
    assert(evs.len() == events.len());
    match current {
        Some(b) => {
            let r = finish_game(b, &mut games);
            if r.is_err() {
                return Err(r.unwrap_err());
            }
        },
        None => {},
    }
    if games.len() == 0 {
        return Err(string_from_chars(&chars_of("PGN input contains no usable games")));
    }
    Ok(games)
}

} // verus!
