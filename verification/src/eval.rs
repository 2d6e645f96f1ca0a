//! The engine side of analysis: what the interface sends a UCI engine, and
//! what it reads back from the engine's `info` lines.

use vstd::prelude::*;
use crate::coordination::{exit_persistence_action, ExitPersistenceAction};
use crate::text::{
    chars_of, decimal, digit_char, is_digit, push_decimal, push_signed_decimal, push_str,
    join_with, seq_eq_str, signed_decimal, split_words, string_from_chars, words,
};

verus! {

/// The message that stops the analysis.
pub const STOP_COMMAND: &'static str = "STOP";

/// The message that stops the analysis because the application exits.
pub const EXIT_APP_COMMAND: &'static str = "EXIT";

/// What `i32::from_str` reads: an optional sign and at least one digit,
/// within the range of `i32`.
pub open spec fn digits_value(t: Seq<char>) -> int
    decreases t.len(),
{
    if t.len() == 0 {
        0
    } else {
        digits_value(t.drop_last()) * 10 + (t.last() as int - 48)
    }
}

pub open spec fn all_digits(t: Seq<char>) -> bool {
    forall|i: int| 0 <= i < t.len() ==> is_digit(#[trigger] t[i])
}

pub open spec fn parse_i32_spec(t: Seq<char>) -> Option<i32> {
    let negative = t.len() > 0 && t[0] == '-';
    let signed = t.len() > 0 && (t[0] == '-' || t[0] == '+');
    let body = if signed {
        t.drop_first()
    } else {
        t
    };
    let value = if negative {
        -digits_value(body)
    } else {
        digits_value(body)
    };
    if body.len() > 0 && all_digits(body) && i32::MIN <= value <= i32::MAX {
        Some(value as i32)
    } else {
        None
    }
}

/// Reads a decimal integer as `str::parse::<i32>` does.
#[verifier::loop_isolation(false)]
pub fn parse_i32(t: &Vec<char>) -> (res: Option<i32>)
    ensures
        res == parse_i32_spec(t@),
{
    let negative = t.len() > 0 && t[0] == '-';
    let signed = t.len() > 0 && (t[0] == '-' || t[0] == '+');
    let start: usize = if signed { 1 } else { 0 };
    let ghost body = if signed {
        t@.drop_first()
    } else {
        t@
    };
    if start >= t.len() {
        return None;
    }
    let mut value: i64 = 0;
    let mut i: usize = start;
    while i < t.len()
        invariant
            start <= i <= t.len(),
            start == (if signed { 1int } else { 0int }),
            body == t@.subrange(start as int, t@.len() as int),
            all_digits(t@.subrange(start as int, i as int)),
            value == digits_value(t@.subrange(start as int, i as int)),
            0 <= value <= 2147483648,
        decreases t.len() - i,
    {
        let c = t[i];
        if !('0' <= c && c <= '9') {
            proof {
                let k = i - start;
                assert(body[k] == c);
                assert(!is_digit(body[k]));
                assert(!all_digits(body));
            }
            return None;
        }
        let d: i64 = (c as u32 - 48) as i64;
        assert(t@.subrange(start as int, i as int + 1).drop_last() =~= t@.subrange(start as int, i as int));
        if value * 10 + d > 2147483648 {
            proof {
                if all_digits(body) {
                    lemma_digits_grow(body, (i + 1 - start) as int);
                    assert(body.take((i + 1 - start) as int) =~= t@.subrange(start as int, i as int + 1));
                }
            }
            return None;
        }
        value = value * 10 + d;
        i = i + 1;
    }
    assert(t@.subrange(start as int, i as int) =~= body);
    if negative {
        Some((-value) as i32)
    } else if value <= 2147483647 {
        Some(value as i32)
    } else {
        None
    }
}

/// A prefix of digits weighs no more than the whole run of digits.
pub proof fn lemma_digits_grow(t: Seq<char>, n: int)
    requires
        0 <= n <= t.len(),
        all_digits(t),
    ensures
        digits_value(t) >= digits_value(t.take(n)),
        digits_value(t.take(n)) >= 0,
    decreases t.len(),
{
    if n == t.len() {
        assert(t.take(n) =~= t);
        lemma_digits_nonnegative(t);
    } else {
        assert(all_digits(t.drop_last()));
        lemma_digits_grow(t.drop_last(), n);
        assert(t.drop_last().take(n) =~= t.take(n));
        lemma_digits_nonnegative(t.drop_last());
    }
}

proof fn lemma_digits_nonnegative(t: Seq<char>)
    requires
        all_digits(t),
    ensures
        digits_value(t) >= 0,
    decreases t.len(),
{
    if t.len() > 0 {
        assert(all_digits(t.drop_last()));
        lemma_digits_nonnegative(t.drop_last());
    }
}

/// A centipawn score as pawns with two decimals, such as `-1.27`.
pub open spec fn pawns_text(cp: int) -> Seq<char> {
    let a = if cp < 0 {
        -cp
    } else {
        cp
    };
    (if cp < 0 {
        seq!['-']
    } else {
        Seq::<char>::empty()
    }) + decimal((a / 100) as nat) + seq!['.', digit_char(((a % 100) / 10) as nat), digit_char((a % 10) as nat)]
}

/// Writes a centipawn score as pawns with two decimals.
pub fn format_pawns(cp: i32) -> (res: String)
    ensures
        res@ == pawns_text(cp as int),
{
    let mut out: Vec<char> = Vec::new();
    let a: u128 = if cp < 0 {
        if cp == i32::MIN {
            2147483648u128
        } else {
            (-cp) as u128
        }
    } else {
        cp as u128
    };
    if cp < 0 {
        out.push('-');
    }
    let ghost before = out@;
    push_decimal(&mut out, a / 100);
    out.push('.');
    out.push((48u8 + ((a % 100) / 10) as u8) as char);
    out.push((48u8 + (a % 10) as u8) as char);
    string_from_chars(&out)
}

/// A move written in UCI: two square names, then for a promotion one of
/// the letters `q`, `r`, `b` or `n`.
pub open spec fn is_uci_move_text(t: Seq<char>) -> bool {
    &&& t.len() == 4 || t.len() == 5
    &&& 'a' <= t[0] <= 'h' && '1' <= t[1] <= '8'
    &&& 'a' <= t[2] <= 'h' && '1' <= t[3] <= '8'
    &&& t.len() == 5 ==> (t[4] == 'q' || t[4] == 'r' || t[4] == 'b' || t[4] == 'n')
}

/// Whether a text is a move written in UCI.
pub fn is_uci_move(t: &Vec<char>) -> (res: bool)
    ensures
        res == is_uci_move_text(t@),
{
    if t.len() != 4 && t.len() != 5 {
        return false;
    }
    let squares = 'a' <= t[0] && t[0] <= 'h' && '1' <= t[1] && t[1] <= '8' && 'a' <= t[2] && t[2]
        <= 'h' && '1' <= t[3] && t[3] <= '8';
    if !squares {
        return false;
    }
    if t.len() == 5 {
        let c = t[4];
        c == 'q' || c == 'r' || c == 'b' || c == 'n'
    } else {
        true
    }
}

/// The score that a `score` token at index `i` sets, if its type and value
/// can be read: pawns for `cp`, `Mate in N` for `mate`.
pub open spec fn score_at(tokens: Seq<Seq<char>>, i: int) -> Option<Seq<char>> {
    if i + 2 < tokens.len() {
        match parse_i32_spec(tokens[i + 2]) {
            Some(v) => if tokens[i + 1] == "cp"@ {
                Some(pawns_text(v as int))
            } else if tokens[i + 1] == "mate"@ {
                Some("Mate in "@ + signed_decimal(v as int))
            } else {
                None
            },
            None => None,
        }
    } else {
        None
    }
}

/// Reads the tokens of an `info` line from index `i` on: each `score`
/// replaces the evaluation, and the first `pv` followed by a UCI move ends
/// the reading with that move.
pub open spec fn info_scan(tokens: Seq<Seq<char>>, i: int, eval: Option<Seq<char>>) -> (Option<Seq<char>>, Option<Seq<char>>)
    decreases tokens.len() - i,
{
    if i < 0 || i >= tokens.len() {
        (eval, None)
    } else if tokens[i] == "score"@ {
        info_scan(
            tokens,
            i + 1,
            match score_at(tokens, i) {
                Some(e) => Some(e),
                None => eval,
            },
        )
    } else if tokens[i] == "pv"@ && i + 1 < tokens.len() && is_uci_move_text(tokens[i + 1]) {
        (eval, Some(tokens[i + 1]))
    } else {
        info_scan(tokens, i + 1, eval)
    }
}

/// What an engine's output line says: its evaluation and its best move.
/// `info string` lines carry free text and say nothing.
pub open spec fn info_line_spec(line: Seq<char>) -> (Option<Seq<char>>, Option<Seq<char>>) {
    let tokens = words(line);
    if tokens.len() >= 2 && tokens[0] == "info"@ && tokens[1] == "string"@ {
        (None, None)
    } else {
        info_scan(tokens, 0, None)
    }
}

pub open spec fn opt_text(o: Option<String>) -> Option<Seq<char>> {
    match o {
        Some(s) => Some(s@),
        None => None,
    }
}

fn score_of(tokens: &Vec<Vec<char>>, i: usize) -> (res: Option<String>)
    requires
        i < tokens@.len(),
    ensures
        opt_text(res) == score_at(tokens@.map_values(|t: Vec<char>| t@), i as int),
{
    let ghost ts = tokens@.map_values(|t: Vec<char>| t@);
    if tokens.len() - i <= 2 {
        return None;
    }
    assert(ts[i + 1] == tokens@[i + 1]@ && ts[i + 2] == tokens@[i + 2]@);
    match parse_i32(&tokens[i + 2]) {
        Some(v) => if seq_eq_str(&tokens[i + 1], "cp") {
            Some(format_pawns(v))
        } else if seq_eq_str(&tokens[i + 1], "mate") {
            let mut out: Vec<char> = Vec::new();
            push_str(&mut out, "Mate in ");
            push_signed_decimal(&mut out, v as i64);
            Some(string_from_chars(&out))
        } else {
            None
        },
        None => None,
    }
}

/// Extracts the evaluation and the best move from one line of engine
/// output, trusting nothing in it: `info string` payloads are free text.
pub fn parse_uci_info_line(line: &str) -> (res: (Option<String>, Option<String>))
    ensures
        (opt_text(res.0), opt_text(res.1)) == info_line_spec(line@),
{
    let chars = chars_of(line);
    let tokens = split_words(&chars);
    let ghost ts = tokens@.map_values(|t: Vec<char>| t@);
    assert(ts =~= words(line@));
    if tokens.len() >= 2 && seq_eq_str(&tokens[0], "info") && seq_eq_str(&tokens[1], "string") {
        return (None, None);
    }
    let mut eval: Option<String> = None;
    let mut i: usize = 0;
    while i < tokens.len()
        invariant
            ts == tokens@.map_values(|t: Vec<char>| t@),
            ts.len() == tokens@.len(),
            i <= tokens.len(),
            info_line_spec(line@) == info_scan(ts, i as int, opt_text(eval)),
        decreases tokens.len() - i,
    {
        assert(ts[i as int] == tokens@[i as int]@);
        if seq_eq_str(&tokens[i], "score") {
            match score_of(&tokens, i) {
                Some(e) => {
                    eval = Some(e);
                },
                None => {},
            }
        } else if seq_eq_str(&tokens[i], "pv") && i + 1 < tokens.len() {
            assert(ts[i + 1] == tokens@[i + 1]@);
            if is_uci_move(&tokens[i + 1]) {
                let best = string_from_chars(&tokens[i + 1]);
                return (eval, Some(best));
            }
        }
        i = i + 1;
    }
    (eval, None)
}

/// Whether the engine runs.
#[derive(Clone, Copy, Debug, PartialEq, Eq, Structural)]
pub enum EngineStatus {
    Started,
    TurnedOff,
}

/// The studio's side of a running engine: whether it runs, whether its
/// control channel is open, and the evaluation and best move shown.
#[derive(Debug)]
pub struct EngineLink {
    pub status: EngineStatus,
    pub connected: bool,
    pub eval: String,
    pub best_move: String,
}

/// What the engine button asks for.
#[derive(Clone, Copy, Debug, PartialEq, Eq, Structural)]
pub enum StartStep {
    /// The engine cannot start: the failure is reported.
    Refused,
    /// The engine is to be launched on the analysis position.
    Launch,
    /// The running engine is to be sent `STOP`; once sent, the channel is
    /// closed.
    SendStop,
}

/// What closing the window asks of the engine.
#[derive(Clone, Copy, Debug, PartialEq, Eq, Structural)]
pub enum CloseStep {
    /// No engine runs: go on closing.
    Close(ExitPersistenceAction),
    /// The running engine is to be sent `EXIT`; it answers when it stopped.
    SendExit,
}

/// The status line of an engine failure.
pub open spec fn engine_error_text(reason: Seq<char>) -> Seq<char> {
    "Engine error: "@ + reason
}

impl EngineLink {
    /// No engine runs.
    pub fn new() -> (res: Self)
        ensures
            res.status == EngineStatus::TurnedOff,
            !res.connected,
            res.eval@.len() == 0,
            res.best_move@.len() == 0,
    {
        EngineLink { status: EngineStatus::TurnedOff, connected: false, eval: String::new(), best_move: String::new() }
    }

    /// Forgets the engine: turned off, channel closed, nothing shown.
    pub fn clear(&mut self)
        ensures
            final(self).status == EngineStatus::TurnedOff,
            !final(self).connected,
            final(self).eval@.len() == 0,
            final(self).best_move@.len() == 0,
    {
        self.status = EngineStatus::TurnedOff;
        self.connected = false;
        self.eval = String::new();
        self.best_move = String::new();
    }

    /// An engine failure: the engine is forgotten and the status line to
    /// show is returned.
    pub fn record_failure(&mut self, reason: &str) -> (res: String)
        ensures
            final(self).status == EngineStatus::TurnedOff,
            !final(self).connected,
            final(self).eval@.len() == 0,
            final(self).best_move@.len() == 0,
            res@ == engine_error_text(reason@),
    {
        self.clear();
        let mut out: Vec<char> = Vec::new();
        push_str(&mut out, "Engine error: ");
        push_str(&mut out, reason);
        string_from_chars(&out)
    }

    /// A failure reported by the engine's task: the status line, and
    /// whether the window is to close next (when the application exits).
    pub fn failed(&mut self, reason: &str, exit_requested: bool) -> (res: (String, ExitPersistenceAction))
        ensures
            final(self).status == EngineStatus::TurnedOff,
            !final(self).connected,
            final(self).eval@.len() == 0,
            final(self).best_move@.len() == 0,
            res.0@ == engine_error_text(reason@),
            exit_requested <==> res.1 == ExitPersistenceAction::ResolveMaximizedStatus,
    {
        let text = self.record_failure(reason);
        (text, exit_persistence_action(exit_requested))
    }

    /// The engine stopped: it is forgotten, and the window closes next when
    /// the application exits.
    pub fn stopped(&mut self, exit_requested: bool) -> (res: ExitPersistenceAction)
        ensures
            final(self).status == EngineStatus::TurnedOff,
            !final(self).connected,
            final(self).eval@.len() == 0,
            final(self).best_move@.len() == 0,
            exit_requested <==> res == ExitPersistenceAction::ResolveMaximizedStatus,
    {
        self.clear();
        exit_persistence_action(exit_requested)
    }

    /// The engine's task opened its control channel; it counts only while
    /// the engine is meant to run.
    pub fn ready(&mut self)
        ensures
            final(self).status == old(self).status,
            final(self).connected == (old(self).connected || old(self).status != EngineStatus::TurnedOff),
            final(self).eval@ == old(self).eval@,
            final(self).best_move@ == old(self).best_move@,
    {
        if self.status != EngineStatus::TurnedOff {
            self.connected = true;
        }
    }

    /// The engine button. With the engine off, it starts when its path is
    /// set and names an existing file (the failure is returned otherwise);
    /// with the engine on, it asks for a stop.
    pub fn start_request(&mut self, path_is_empty: bool, path_exists: bool) -> (res: (StartStep, Option<String>))
        ensures
            old(self).status == EngineStatus::TurnedOff && path_is_empty ==> res.0 == StartStep::Refused && (res.1 matches Some(
                t,
            ) && t@ == engine_error_text("engine path is empty"@)) && final(self).status == EngineStatus::TurnedOff
                && !final(self).connected,
            old(self).status == EngineStatus::TurnedOff && !path_is_empty && !path_exists ==> res.0 == StartStep::Refused
                && (res.1 matches Some(t) && t@ == engine_error_text("engine executable does not exist"@))
                && final(self).status == EngineStatus::TurnedOff && !final(self).connected,
            old(self).status == EngineStatus::TurnedOff && !path_is_empty && path_exists ==> res.0 == StartStep::Launch
                && res.1 is None && final(self).status == EngineStatus::Started && final(self).connected == old(
                self,
            ).connected,
            old(self).status != EngineStatus::TurnedOff ==> res.0 == StartStep::SendStop && res.1 is None
                && final(self).status == old(self).status && final(self).connected == old(self).connected
                && final(self).eval@ == old(self).eval@ && final(self).best_move@ == old(self).best_move@,
    {
        if self.status == EngineStatus::TurnedOff {
            if path_is_empty {
                let text = self.record_failure("engine path is empty");
                return (StartStep::Refused, Some(text));
            }
            if !path_exists {
                let text = self.record_failure("engine executable does not exist");
                return (StartStep::Refused, Some(text));
            }
            self.status = EngineStatus::Started;
            (StartStep::Launch, None)
        } else {
            (StartStep::SendStop, None)
        }
    }

    /// The stop was sent: the channel is closed; the engine's task reports
    /// when it stopped.
    pub fn disconnect(&mut self)
        ensures
            final(self).status == old(self).status,
            !final(self).connected,
            final(self).eval@ == old(self).eval@,
            final(self).best_move@ == old(self).best_move@,
    {
        self.connected = false;
    }

    /// Closing the window: with no engine, go on closing; otherwise the
    /// engine is asked to exit first.
    pub fn close_requested(&self) -> (res: CloseStep)
        ensures
            self.status == EngineStatus::TurnedOff ==> res == CloseStep::Close(ExitPersistenceAction::ResolveMaximizedStatus),
            self.status != EngineStatus::TurnedOff ==> res == CloseStep::SendExit,
    {
        if self.status == EngineStatus::TurnedOff {
            CloseStep::Close(exit_persistence_action(true))
        } else {
            CloseStep::SendExit
        }
    }
}

/// The engine to run: its executable, the search limit it is given (such as
/// `depth 40`), and the position (a FEN) it analyses.
#[derive(Debug, Clone, Hash)]
pub struct Engine {
    pub engine_path: String,
    pub search_up_to: String,
    pub position: String,
}

impl Engine {
    /// An engine for the given path (empty when none is set), search limit
    /// and position.
    pub fn new(path: Option<String>, limit: String, position: String) -> (res: Self)
        ensures
            res.engine_path@ == match path {
                Some(p) => p@,
                None => Seq::<char>::empty(),
            },
            res.search_up_to@ == limit@,
            res.position@ == position@,
    {
        let engine_path = match path {
            Some(p) => p,
            None => String::new(),
        };
        Engine { engine_path, search_up_to: limit, position }
    }
}

/// The UCI command that sets the position to analyse.
pub open spec fn position_command_spec(fen: Seq<char>) -> Seq<char> {
    "position fen "@ + fen + "\n"@
}

/// The UCI command that starts the search.
pub open spec fn go_command_spec(limit: Seq<char>) -> Seq<char> {
    "go "@ + limit + "\n"@
}

/// Writes the UCI command that sets the position to analyse.
pub fn position_command(fen: &str) -> (res: String)
    ensures
        res@ == position_command_spec(fen@),
{
    let mut out: Vec<char> = Vec::new();
    push_str(&mut out, "position fen ");
    push_str(&mut out, fen);
    push_str(&mut out, "\n");
    string_from_chars(&out)
}

/// Writes the UCI command that starts the search.
pub fn go_command(limit: &str) -> (res: String)
    ensures
        res@ == go_command_spec(limit@),
{
    let mut out: Vec<char> = Vec::new();
    push_str(&mut out, "go ");
    push_str(&mut out, limit);
    push_str(&mut out, "\n");
    string_from_chars(&out)
}

/// One step of starting an engine: a command to write (with what it does,
/// for the error message), or a token to wait for in its output.
#[derive(Debug)]
pub enum EngineStep {
    Send { command: String, action: String },
    AwaitToken { token: String },
}

/// A startup step taken as plain values.
pub enum StepView {
    Send { command: Seq<char>, action: Seq<char> },
    AwaitToken { token: Seq<char> },
}

pub open spec fn step_view(s: EngineStep) -> StepView {
    match s {
        EngineStep::Send { command, action } => StepView::Send { command: command@, action: action@ },
        EngineStep::AwaitToken { token } => StepView::AwaitToken { token: token@ },
    }
}

/// The UCI handshake, in order: `uci` answered by `uciok`, a new game,
/// `isready` answered by `readyok`, analysis mode, then the position and
/// the search.
pub open spec fn startup_steps_spec(position: Seq<char>, limit: Seq<char>) -> Seq<StepView> {
    seq![
        StepView::Send { command: "uci\n"@, action: "sending uci"@ },
        StepView::AwaitToken { token: "uciok"@ },
        StepView::Send { command: "ucinewgame\n"@, action: "sending ucinewgame"@ },
        StepView::Send { command: "isready\n"@, action: "sending isready"@ },
        StepView::AwaitToken { token: "readyok"@ },
        StepView::Send {
            command: "setoption name UCI_AnalyseMode value true\n"@,
            action: "configuring analysis mode"@,
        },
        StepView::Send { command: position_command_spec(position), action: "sending position"@ },
        StepView::Send { command: go_command_spec(limit), action: "starting analysis"@ },
    ]
}

fn send_step(command: String, action: &str) -> (res: EngineStep)
    ensures
        step_view(res) == (StepView::Send { command: command@, action: action@ }),
{
    EngineStep::Send { command, action: String::from_str(action) }
}

fn await_step(token: &str) -> (res: EngineStep)
    ensures
        step_view(res) == (StepView::AwaitToken { token: token@ }),
{
    EngineStep::AwaitToken { token: String::from_str(token) }
}

/// The steps that start an engine on its position with its search limit.
pub fn startup_steps(engine: &Engine) -> (res: Vec<EngineStep>)
    ensures
        res@.map_values(|s: EngineStep| step_view(s)) == startup_steps_spec(engine.position@, engine.search_up_to@),
{
    let mut steps: Vec<EngineStep> = Vec::new();
    steps.push(send_step(String::from_str("uci\n"), "sending uci"));
    steps.push(await_step("uciok"));
    steps.push(send_step(String::from_str("ucinewgame\n"), "sending ucinewgame"));
    steps.push(send_step(String::from_str("isready\n"), "sending isready"));
    steps.push(await_step("readyok"));
    steps.push(send_step(String::from_str("setoption name UCI_AnalyseMode value true\n"), "configuring analysis mode"));
    steps.push(send_step(position_command(engine.position.as_str()), "sending position"));
    steps.push(send_step(go_command(engine.search_up_to.as_str()), "starting analysis"));
    assert(steps@.map_values(|s: EngineStep| step_view(s)) =~= startup_steps_spec(engine.position@, engine.search_up_to@));
    steps
}

/// What a line of engine output says of a token that is awaited: the line
/// holds it somewhere.
pub open spec fn holds_token(line: Seq<char>, token: Seq<char>) -> bool {
    exists|i: int| 0 <= i && i + token.len() <= line.len() && #[trigger] line.subrange(i, i + token.len()) == token
}

/// Whether a line of engine output holds the awaited token.
pub fn line_has_token(line: &str, token: &str) -> (res: bool)
    ensures
        res == holds_token(line@, token@),
{
    let l = chars_of(line);
    let t = chars_of(token);
    if t.len() > l.len() {
        proof {
            assert forall|i: int| 0 <= i && i + t@.len() <= l@.len() implies !(#[trigger] line@.subrange(i, i + t@.len()) == token@) by {}
        }
        return false;
    }
    let mut i: usize = 0;
    let last = l.len() - t.len();
    while i <= last
        invariant
            last == l.len() - t.len(),
            l@ == line@,
            t@ == token@,
            t.len() <= l.len(),
            i <= l.len() - t.len() + 1,
            forall|k: int| 0 <= k < i ==> #[trigger] line@.subrange(k, k + t@.len()) != token@,
        decreases l.len() - i,
    {
        let mut j: usize = 0;
        let mut same = true;
        while j < t.len()
            invariant
                l@ == line@,
                t@ == token@,
                i + t.len() <= l.len(),
                j <= t.len(),
                same == (forall|q: int| 0 <= q < j ==> l@[i + q] == t@[q]),
            decreases t.len() - j,
        {
            if l[i + j] != t[j] {
                same = false;
            }
            j = j + 1;
        }
        if same {
            assert(line@.subrange(i as int, i + t@.len()) =~= token@);
            return true;
        }
        assert(line@.subrange(i as int, i + t@.len()) != token@) by {
            let q = choose|q: int| 0 <= q < t@.len() && l@[i + q] != t@[q];
            assert(line@.subrange(i as int, i + t@.len())[q] == l@[i + q]);
        }
        i = i + 1;
    }
    false
}

/// What a message on the engine's control channel asks for: to stop (and
/// whether the application exits), or to analyse a new position with the
/// commands to send for it.
#[derive(Debug)]
pub enum EngineRequest {
    Stop { exit_requested: bool },
    Analyse { position: String, go: String },
}

/// Decides what a control message asks of a running engine: `STOP` and
/// `EXIT` stop it; anything else is a position to analyse.
pub fn engine_request(msg: &str, search_up_to: &str) -> (res: EngineRequest)
    ensures
        (msg@ == STOP_COMMAND@ || msg@ == EXIT_APP_COMMAND@) <==> res is Stop,
        res matches EngineRequest::Stop { exit_requested } ==> exit_requested == (msg@
            == EXIT_APP_COMMAND@),
        res matches EngineRequest::Analyse { position, go } ==> position@ == position_command_spec(
            msg@,
        ) && go@ == go_command_spec(search_up_to@),
{
    let chars = chars_of(msg);
    let stop = seq_eq_str(&chars, STOP_COMMAND);
    let exit = seq_eq_str(&chars, EXIT_APP_COMMAND);
    if stop || exit {
        EngineRequest::Stop { exit_requested: exit }
    } else {
        EngineRequest::Analyse { position: position_command(msg), go: go_command(search_up_to) }
    }
}

/// The reason given for an engine failure, with the failure to shut the
/// engine down added when that failed too.
pub fn with_shutdown_reason(reason: String, shutdown: Result<(), String>) -> (res: String)
    ensures
        res@ == match shutdown {
            Ok(()) => reason@,
            Err(e) => reason@ + "; shutdown failed: "@ + e@,
        },
{
    match shutdown {
        Ok(()) => reason,
        Err(e) => {
            let mut out: Vec<char> = Vec::new();
            push_str(&mut out, reason.as_str());
            push_str(&mut out, "; shutdown failed: ");
            push_str(&mut out, e.as_str());
            string_from_chars(&out)
        },
    }
}

/// The outcome of a shutdown: success when no step failed, else the
/// failures joined with `; `.
pub fn shutdown_outcome(errors: &Vec<String>) -> (res: Result<(), String>)
    ensures
        errors@.len() == 0 <==> res is Ok,
        res matches Err(e) ==> e@ == join_with(errors@.map_values(|s: String| s@), "; "@),
{
    if errors.len() == 0 {
        return Ok(());
    }
    let ghost es = errors@.map_values(|s: String| s@);
    let mut out: Vec<char> = Vec::new();
    push_str(&mut out, errors[0].as_str());
    let mut i: usize = 1;
    assert(es.take(1).drop_last() =~= Seq::<Seq<char>>::empty());
    while i < errors.len()
        invariant
            es == errors@.map_values(|s: String| s@),
            1 <= i <= errors@.len(),
            out@ == join_with(es.take(i as int), "; "@),
        decreases errors.len() - i,
    {
        push_str(&mut out, "; ");
        push_str(&mut out, errors[i].as_str());
        assert(es.take(i as int + 1).drop_last() =~= es.take(i as int));
        i = i + 1;
    }
    assert(es.take(i as int) =~= es);
    Err(string_from_chars(&out))
}

/// Takes one line of engine output into the analysis read so far: what the
/// line says replaces what was known, and what it does not say stays.
pub fn absorb_info_line(eval: &mut Option<String>, best_move: &mut Option<String>, line: &str)
    ensures
        opt_text(*final(eval)) == match info_line_spec(line@).0 {
            Some(e) => Some(e),
            None => opt_text(*old(eval)),
        },
        opt_text(*final(best_move)) == match info_line_spec(line@).1 {
            Some(m) => Some(m),
            None => opt_text(*old(best_move)),
        },
{
    let (line_eval, line_best) = parse_uci_info_line(line);
    if line_eval.is_some() {
        *eval = line_eval;
    }
    if line_best.is_some() {
        *best_move = line_best;
    }
}

} // verus!
