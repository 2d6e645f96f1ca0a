//! Solving puzzles on the board: what a click or a drag on a square does to
//! the puzzle being solved, to the free analysis board, and to the list of
//! puzzles loaded.

use vstd::prelude::*;
use rand::seq::SliceRandom;
use crate::chess_rules::{
    board_after, board_color_at, board_piece_at, board_side_to_move, board_state, color_at,
    fen_read, fen_shape, is_board, is_legal, is_move_text, is_uci, legal, make_move, move_dest,
    move_parts, move_source, move_text, read_fen, parse_uci, piece_at, side_to_move, square_text,
    start_fen, start_position, status, uci_text, BoardState, PieceKind, Side,
};
use crate::models::{Puzzle, PuzzleView};
use crate::config::GameMode;
use crate::eval::opt_text;
use crate::export::square_of;
use crate::text::{
    chars_of, decimal, is_digit, join_with, push_all, push_decimal, push_str, split_words,
    string_from_chars, words,
};

verus! {

/// The tabs of the studio's window.
#[derive(Clone, Copy, Debug, PartialEq, Eq, Structural)]
pub enum TabId {
    Search,
    Settings,
    CurrentPuzzle,
    Project,
    Pgn,
}

/// A square of the drawn board by row and column.
#[derive(Clone, Copy, Debug, PartialEq, Eq, PartialOrd, Ord)]
pub struct PositionGUI {
    row: i32,
    col: i32,
}

/// A piece and its colour, in the order of the piece images.
#[derive(Clone, Copy, Debug, PartialEq, Eq, Structural)]
pub enum PieceWithColor {
    WhitePawn,
    WhiteRook,
    WhiteKnight,
    WhiteBishop,
    WhiteQueen,
    WhiteKing,
    BlackPawn,
    BlackRook,
    BlackKnight,
    BlackBishop,
    BlackQueen,
    BlackKing,
}

impl PieceWithColor {
    /// The position of the piece's image in the list of piece images.
    pub open spec fn index_spec(self) -> nat {
        match self {
            PieceWithColor::WhitePawn => 0,
            PieceWithColor::WhiteRook => 1,
            PieceWithColor::WhiteKnight => 2,
            PieceWithColor::WhiteBishop => 3,
            PieceWithColor::WhiteQueen => 4,
            PieceWithColor::WhiteKing => 5,
            PieceWithColor::BlackPawn => 6,
            PieceWithColor::BlackRook => 7,
            PieceWithColor::BlackKnight => 8,
            PieceWithColor::BlackBishop => 9,
            PieceWithColor::BlackQueen => 10,
            PieceWithColor::BlackKing => 11,
        }
    }

    /// The position of the piece's image in the list of piece images.
    pub fn index(&self) -> (res: usize)
        ensures
            res == self.index_spec(),
    {
        match self {
            PieceWithColor::WhitePawn => 0,
            PieceWithColor::WhiteRook => 1,
            PieceWithColor::WhiteKnight => 2,
            PieceWithColor::WhiteBishop => 3,
            PieceWithColor::WhiteQueen => 4,
            PieceWithColor::WhiteKing => 5,
            PieceWithColor::BlackPawn => 6,
            PieceWithColor::BlackRook => 7,
            PieceWithColor::BlackKnight => 8,
            PieceWithColor::BlackBishop => 9,
            PieceWithColor::BlackQueen => 10,
            PieceWithColor::BlackKing => 11,
        }
    }
}

/// The promotion that a move from `from` to `to` makes: a pawn that reaches
/// its last rank becomes the chosen piece (a queen unless a rook, knight or
/// bishop was chosen).
pub open spec fn notation_promotion_spec(board: Seq<char>, promo_piece: PieceKind, from: int, to: int) -> Option<PieceKind> {
    let piece = board_piece_at(board, from as u8);
    let color = board_color_at(board, from as u8);
    if piece == Some(PieceKind::Pawn) && ((color == Some(Side::White) && to / 8 == 7) || (color
        == Some(Side::Black) && to / 8 == 0)) {
        Some(
            match promo_piece {
                PieceKind::Rook => PieceKind::Rook,
                PieceKind::Knight => PieceKind::Knight,
                PieceKind::Bishop => PieceKind::Bishop,
                _ => PieceKind::Queen,
            },
        )
    } else {
        None
    }
}

/// The UCI text of the move from `from` to `to` on a board.
pub open spec fn notation_spec(board: Seq<char>, promo_piece: PieceKind, from: int, to: int) -> Seq<char> {
    uci_text(from, to, notation_promotion_spec(board, promo_piece, from, to))
}

fn notation_promotion(board: &str, promo_piece: PieceKind, from: u8, to: u8) -> (res: Option<PieceKind>)
    requires
        is_board(board@),
        from < 64,
        to < 64,
    ensures
        res == notation_promotion_spec(board@, promo_piece, from as int, to as int),
{
    let piece = piece_at(board, from);
    let color = color_at(board, from);
    let white_last = color == Some(Side::White) && to / 8 == 7;
    let black_last = color == Some(Side::Black) && to / 8 == 0;
    if piece == Some(PieceKind::Pawn) && (white_last || black_last) {
        Some(
            match promo_piece {
                PieceKind::Rook => PieceKind::Rook,
                PieceKind::Knight => PieceKind::Knight,
                PieceKind::Bishop => PieceKind::Bishop,
                _ => PieceKind::Queen,
            },
        )
    } else {
        None
    }
}

fn push_square_name(out: &mut Vec<char>, square: u8)
    requires
        square < 64,
    ensures
        final(out)@ == old(out)@ + square_text(square as int),
{
    out.push((97u8 + square % 8) as char);
    out.push((49u8 + square / 8) as char);
}

/// Writes the move from `from` to `to` in UCI, with the chosen promotion
/// piece when a pawn reaches its last rank.
pub fn get_notation_string(board: &str, promo_piece: PieceKind, from: u8, to: u8) -> (res: String)
    requires
        is_board(board@),
        from < 64,
        to < 64,
    ensures
        res@ == notation_spec(board@, promo_piece, from as int, to as int),
{
    let mut out: Vec<char> = Vec::new();
    push_square_name(&mut out, from);
    push_square_name(&mut out, to);
    let ghost base = out@;
    match notation_promotion(board, promo_piece, from, to) {
        Some(PieceKind::Rook) => out.push('r'),
        Some(PieceKind::Knight) => out.push('n'),
        Some(PieceKind::Bishop) => out.push('b'),
        Some(_) => out.push('q'),
        None => {},
    }
    assert(out@ =~= notation_spec(board@, promo_piece, from as int, to as int));
    string_from_chars(&out)
}

/// The en passant field that a UCI engine expects: the square that the
/// pawn passed over, where the board names the pawn's own square.
pub open spec fn corrected_ep(field: Seq<char>) -> Seq<char> {
    if field == seq!['-'] {
        seq!['-']
    } else {
        seq![field[0], if field[1] == '4' { '3' } else { '6' }]
    }
}

/// A FEN whose en passant field can be corrected: four fields or more, the
/// fourth being `-` or an ASCII character and a digit.
pub open spec fn ep_correctable(fen: Seq<char>) -> bool {
    let w = words(fen);
    &&& w.len() >= 4
    &&& w[3] != seq!['-'] ==> w[3].len() >= 2 && (w[3][0] as u32) < 128 && is_digit(w[3][1])
}

/// A FEN with its en passant field corrected for a UCI engine, its fields
/// joined by single spaces.
pub open spec fn san_correct_ep_spec(fen: Seq<char>) -> Seq<char> {
    let w = words(fen);
    join_with(w.update(3, corrected_ep(w[3])), seq![' '])
}

/// Corrects the en passant field of a board's FEN for a UCI engine.
pub fn san_correct_ep(fen: &str) -> (res: String)
    requires
        ep_correctable(fen@),
    ensures
        res@ == san_correct_ep_spec(fen@),
{
    let chars = chars_of(fen);
    let fields = split_words(&chars);
    let ghost w = words(fen@);
    assert(fields@.len() == w.len());
    assert(fields@[3]@ == w[3]);
    let mut ep: Vec<char> = Vec::new();
    let f3 = &fields[3];
    if f3.len() == 1 && f3[0] == '-' {
        ep.push('-');
        assert(f3@ =~= seq!['-']);
    } else {
        ep.push(f3[0]);
        ep.push(if f3[1] == '4' { '3' } else { '6' });
    }
    assert(ep@ =~= corrected_ep(w[3]));
    let ghost parts = w.update(3, ep@);
    let mut out: Vec<char> = Vec::new();
    let mut i: usize = 0;
    while i < fields.len()
        invariant
            fields@.len() == w.len(),
            4 <= w.len(),
            forall|k: int| 0 <= k < w.len() ==> #[trigger] fields@[k]@ == w[k],
            parts == w.update(3, ep@),
            i <= fields.len(),
            out@ == join_with(parts.take(i as int), seq![' ']),
        decreases fields.len() - i,
    {
        if i > 0 {
            out.push(' ');
        }
        if i == 3 {
            push_all(&mut out, &ep);
        } else {
            push_all(&mut out, &fields[i]);
        }
        assert(parts.take(i as int + 1).drop_last() =~= parts.take(i as int));
        i = i + 1;
    }
    assert(parts.take(i as int) =~= parts);
    string_from_chars(&out)
}

/// The moves from index `k` on can be played one after the other from a
/// board: each is a UCI move that is legal where it is played.
pub open spec fn line_playable(board: Seq<char>, moves: Seq<Seq<char>>, k: int) -> bool
    decreases moves.len() - k,
{
    if k < 0 || k >= moves.len() {
        true
    } else {
        &&& is_uci(moves[k])
        &&& is_move_text(moves[k])
        &&& is_legal(board, moves[k])
        &&& line_playable(board_after(board, moves[k]), moves, k + 1)
    }
}

/// A puzzle that can be solved on the board: its position can be read, and
/// its moves (an even number: the opponent's first move, then the solver's
/// and the opponent's in turn, the solver's last) can be played.
pub open spec fn puzzle_playable(p: PuzzleView) -> bool {
    let moves = words(p.moves);
    &&& moves.len() >= 2
    &&& moves.len() % 2 == 0
    &&& fen_read(p.fen) is Ok
    &&& line_playable(fen_read(p.fen)->Ok_0, moves, 0)
}

/// Why a text cannot be read as a move: its length, its source square, its
/// destination square, or else its promotion letter.
pub open spec fn text_problem(m: Seq<char>) -> Seq<char> {
    if m.len() != 4 && m.len() != 5 {
        "invalid move '"@ + m + "'"@
    } else if square_of(m.subrange(0, 2)) is None {
        "invalid source square in move '"@ + m + "'"@
    } else if square_of(m.subrange(2, 4)) is None {
        "invalid destination square in move '"@ + m + "'"@
    } else {
        "invalid promotion in move '"@ + m + "'"@
    }
}

/// The first move of a line, from index `k` on, that cannot be played, and
/// why: it is no move, or it is not legal where it is played.
pub open spec fn line_problem(board: Seq<char>, moves: Seq<Seq<char>>, k: int) -> Option<Seq<char>>
    decreases moves.len() - k,
{
    if k < 0 || k >= moves.len() {
        None
    } else if !(is_uci(moves[k]) && is_move_text(moves[k])) {
        Some(text_problem(moves[k]))
    } else if !is_legal(board, moves[k]) {
        Some("illegal move '"@ + moves[k] + "'"@)
    } else {
        line_problem(board_after(board, moves[k]), moves, k + 1)
    }
}

/// Why a puzzle cannot be solved: its position cannot be read, one of its
/// moves cannot be played, or its moves are too few or do not end with the
/// solver's move.
pub open spec fn puzzle_problem(p: PuzzleView) -> Option<Seq<char>> {
    let moves = words(p.moves);
    match fen_read(p.fen) {
        Err(_) => Some("invalid FEN '"@ + p.fen + "'"@),
        Ok(board) => match line_problem(board, moves, 0) {
            Some(r) => Some(r),
            None => if moves.len() < 2 {
                Some("a puzzle needs at least two moves"@)
            } else if moves.len() % 2 != 0 {
                Some("the solution must end with the solver's move"@)
            } else {
                None
            },
        },
    }
}

/// A line has no problem exactly when it can be played.
pub proof fn lemma_line_problem(board: Seq<char>, moves: Seq<Seq<char>>, k: int)
    requires
        0 <= k,
    ensures
        line_problem(board, moves, k) is None <==> line_playable(board, moves, k),
    decreases moves.len() - k,
{
    if k < moves.len() {
        lemma_line_problem(board_after(board, moves[k]), moves, k + 1);
    }
}

/// A puzzle has no problem exactly when it can be solved.
pub proof fn lemma_puzzle_problem(p: PuzzleView)
    ensures
        puzzle_problem(p) is None <==> puzzle_playable(p),
{
    if fen_read(p.fen) is Ok {
        lemma_line_problem(fen_read(p.fen)->Ok_0, words(p.moves), 0);
    }
}

/// The problem of the first puzzle, from index `i` on, that cannot be
/// solved, named by its id.
pub open spec fn batch_problem(ps: Seq<PuzzleView>, i: int) -> Option<Seq<char>>
    decreases ps.len() - i,
{
    if i < 0 || i >= ps.len() {
        None
    } else {
        match puzzle_problem(ps[i]) {
            Some(r) => Some("puzzle "@ + ps[i].puzzle_id + ": "@ + r),
            None => batch_problem(ps, i + 1),
        }
    }
}

/// The error that refuses a batch: it is empty, or names its first puzzle
/// that cannot be solved.
pub open spec fn batch_error(ps: Seq<PuzzleView>) -> Seq<char> {
    if ps.len() == 0 {
        "the puzzle list is empty"@
    } else {
        batch_problem(ps, 0)->Some_0
    }
}

proof fn lemma_batch_problem(ps: Seq<PuzzleView>, i: int)
    requires
        0 <= i <= ps.len(),
    ensures
        batch_problem(ps, i) is None <==> forall|k: int| i <= k < ps.len() ==> puzzle_playable(#[trigger] ps[k]),
    decreases ps.len() - i,
{
    if i < ps.len() {
        lemma_puzzle_problem(ps[i]);
        lemma_batch_problem(ps, i + 1);
        if batch_problem(ps, i) is None {
            assert forall|k: int| i <= k < ps.len() implies puzzle_playable(#[trigger] ps[k]) by {
                if k > i {
                    assert(i + 1 <= k);
                }
            }
        }
    }
}

fn quoted(prefix: &str, text: &Vec<char>) -> (res: String)
    ensures
        res@ == prefix@ + text@ + "'"@,
{
    let mut out: Vec<char> = Vec::new();
    push_str(&mut out, prefix);
    push_all(&mut out, text);
    push_str(&mut out, "'");
    string_from_chars(&out)
}

fn square_ok(file: char, rank: char) -> (res: bool)
    ensures
        res == (square_of(seq![file, rank]) is Some),
{
    'a' <= file && file <= 'h' && '1' <= rank && rank <= '8'
}

fn text_problem_of(m: &Vec<char>) -> (res: String)
    ensures
        res@ == text_problem(m@),
{
    if m.len() != 4 && m.len() != 5 {
        return quoted("invalid move '", m);
    }
    assert(m@.subrange(0, 2) =~= seq![m@[0], m@[1]]);
    assert(m@.subrange(2, 4) =~= seq![m@[2], m@[3]]);
    if !square_ok(m[0], m[1]) {
        return quoted("invalid source square in move '", m);
    }
    if !square_ok(m[2], m[3]) {
        return quoted("invalid destination square in move '", m);
    }
    quoted("invalid promotion in move '", m)
}

fn line_problem_of(board: String, moves: &Vec<Vec<char>>) -> (res: Option<String>)
    requires
        is_board(board@),
    ensures
        opt_text(res) == line_problem(board@, moves@.map_values(|w: Vec<char>| w@), 0),
{
    let ghost ms = moves@.map_values(|w: Vec<char>| w@);
    let mut b = board;
    let mut k: usize = 0;
    while k < moves.len()
        invariant
            ms == moves@.map_values(|w: Vec<char>| w@),
            ms.len() == moves@.len(),
            k <= moves.len(),
            is_board(b@),
            line_problem(board@, ms, 0) == line_problem(b@, ms, k as int),
        decreases moves.len() - k,
    {
        assert(ms[k as int] == moves@[k as int]@);
        let text = string_from_chars(&moves[k]);
        let m = match parse_uci(text.as_str()) {
            Some(u) => u,
            None => {
                return Some(text_problem_of(&moves[k]));
            },
        };
        if !m.eq(&text) {
            return Some(text_problem_of(&moves[k]));
        }
        if !legal(b.as_str(), m.as_str()) {
            return Some(quoted("illegal move '", &moves[k]));
        }
        b = make_move(b.as_str(), m.as_str());
        k = k + 1;
    }
    None
}

/// Why a puzzle cannot be solved on the board, when it cannot.
pub fn puzzle_problem_of(p: &Puzzle) -> (res: Option<String>)
    ensures
        opt_text(res) == puzzle_problem(p@),
        res is None <==> puzzle_playable(p@),
{
    proof {
        lemma_puzzle_problem(p@);
    }
    let chars = chars_of(p.moves.as_str());
    let moves = split_words(&chars);
    assert(moves@.map_values(|w: Vec<char>| w@) =~= words(p.moves@));
    let board = match read_fen(p.fen.as_str()) {
        Ok(b) => b,
        Err(_) => {
            return Some(quoted("invalid FEN '", &chars_of(p.fen.as_str())));
        },
    };
    match line_problem_of(board, &moves) {
        Some(r) => {
            return Some(r);
        },
        None => {},
    }
    if moves.len() < 2 {
        return Some(String::from_str("a puzzle needs at least two moves"));
    }
    if moves.len() % 2 != 0 {
        return Some(String::from_str("the solution must end with the solver's move"));
    }
    None
}

/// Checks a batch of puzzles before it replaces the loaded one: it must
/// hold a puzzle, and every puzzle must be solvable on the board; the error
/// names the first puzzle that is not, and why.
pub fn validate_puzzle_batch(puzzles: &Vec<Puzzle>) -> (res: Result<(), String>)
    ensures
        res is Ok <==> puzzles@.len() > 0 && forall|i: int| 0 <= i < puzzles@.len() ==> puzzle_playable(#[trigger] puzzles@[i]@),
        puzzles@.len() == 0 ==> (res matches Err(e) && e@ == "the puzzle list is empty"@),
        puzzles@.len() > 0 ==> match batch_problem(puzzles@.map_values(|p: Puzzle| p@), 0) {
            None => res is Ok,
            Some(e) => (res matches Err(m) && m@ == e),
        },
{
    let ghost views = puzzles@.map_values(|p: Puzzle| p@);
    proof {
        lemma_batch_problem(views, 0);
    }
    if puzzles.len() == 0 {
        return Err(String::from_str("the puzzle list is empty"));
    }
    let mut i: usize = 0;
    while i < puzzles.len()
        invariant
            views == puzzles@.map_values(|p: Puzzle| p@),
            views.len() == puzzles@.len(),
            i <= puzzles.len(),
            batch_problem(views, 0) == batch_problem(views, i as int),
            forall|k: int| 0 <= k < i ==> puzzle_playable(#[trigger] puzzles@[k]@),
        decreases puzzles.len() - i,
    {
        assert(views[i as int] == puzzles@[i as int]@);
        match puzzle_problem_of(&puzzles[i]) {
            Some(r) => {
                let mut out: Vec<char> = Vec::new();
                push_str(&mut out, "puzzle ");
                push_str(&mut out, puzzles[i].puzzle_id.as_str());
                push_str(&mut out, ": ");
                push_str(&mut out, r.as_str());
                return Err(string_from_chars(&out));
            },
            None => {},
        }
        i = i + 1;
    }
    Ok(())
}

/// Calls `SliceRandom::shuffle` with the thread's random generator. The
/// order that comes out rests on chance: all that is stated is that the list
/// keeps the same puzzles, each as often as before.
#[verifier::external_body]
fn shuffle_puzzles(puzzles: &mut Vec<Puzzle>)
    ensures
        final(puzzles)@.to_multiset() == old(puzzles)@.to_multiset(),
{
    puzzles.shuffle(&mut rand::rng());
}

/// Where the solving of the loaded puzzles stands.
#[derive(Clone, Copy, Debug, PartialEq, Eq, Structural)]
pub enum GameStatus {
    Playing,
    PuzzleEnded,
    NoPuzzles,
}

/// What the status line tells the solver (each stands for one translated
/// message of the interface).
#[derive(Clone, Copy, Debug, PartialEq, Eq, Structural)]
pub enum PuzzleFeedback {
    UseSearch,
    WhiteToMove,
    BlackToMove,
    CorrectMove,
    CorrectPuzzle,
    AllPuzzlesDone,
    WrongMoveWhitePlay,
    WrongMoveBlackPlay,
    NoPuzzleFound,
    SearchFailed,
    FavoritesFailed,
    BatchRefused,
}

/// The sound that goes with a move: one piece moved, or two (the solver's
/// move and the opponent's reply).
#[derive(Clone, Copy, Debug, PartialEq, Eq, Structural)]
pub enum AudioCue {
    OnePiece,
    TwoPieces,
}

/// What a move on the board asks of the rest of the interface.
#[derive(Debug)]
pub struct MoveOutcome {
    /// Another puzzle was loaded.
    pub puzzle_changed: bool,
    /// The sound to play, if sounds are on.
    pub cue: Option<AudioCue>,
    /// The position to send to the analysing engine.
    pub engine_position: Option<String>,
}

/// The puzzles loaded and the boards they are solved and analysed on.
pub struct PuzzleSession {
    pub puzzles: Vec<Puzzle>,
    pub current_puzzle: usize,
    pub current_puzzle_move: usize,
    pub board: String,
    pub analysis_board: String,
    pub history: Vec<String>,
    pub from_square: Option<u8>,
    pub last_move_from: Option<u8>,
    pub last_move_to: Option<u8>,
    pub hint_square: Option<u8>,
    pub feedback: PuzzleFeedback,
    pub game_status: GameStatus,
    pub game_mode: GameMode,
    pub puzzle_number_ui: String,
    pub current_puzzle_side: Side,
    pub current_puzzle_fen: String,
}

/// A session taken as plain values.
pub struct SessionView {
    pub puzzles: Seq<PuzzleView>,
    pub current_puzzle: int,
    pub current_puzzle_move: int,
    pub board: Seq<char>,
    pub analysis_board: Seq<char>,
    pub history: Seq<Seq<char>>,
    pub from_square: Option<u8>,
    pub last_move_from: Option<u8>,
    pub last_move_to: Option<u8>,
    pub hint_square: Option<u8>,
    pub feedback: PuzzleFeedback,
    pub game_status: GameStatus,
    pub game_mode: GameMode,
    pub puzzle_number_ui: Seq<char>,
    pub current_puzzle_side: Side,
    pub current_puzzle_fen: Seq<char>,
}

impl View for PuzzleSession {
    type V = SessionView;

    open spec fn view(&self) -> SessionView {
        SessionView {
            puzzles: self.puzzles@.map_values(|p: Puzzle| p@),
            current_puzzle: self.current_puzzle as int,
            current_puzzle_move: self.current_puzzle_move as int,
            board: self.board@,
            analysis_board: self.analysis_board@,
            history: self.history@.map_values(|b: String| b@),
            from_square: self.from_square,
            last_move_from: self.last_move_from,
            last_move_to: self.last_move_to,
            hint_square: self.hint_square,
            feedback: self.feedback,
            game_status: self.game_status,
            game_mode: self.game_mode,
            puzzle_number_ui: self.puzzle_number_ui@,
            current_puzzle_side: self.current_puzzle_side,
            current_puzzle_fen: self.current_puzzle_fen@,
        }
    }
}

/// The moves of the puzzle being solved.
pub open spec fn current_moves(v: SessionView) -> Seq<Seq<char>> {
    words(v.puzzles[v.current_puzzle].moves)
}

/// What every session keeps: solvable puzzles, boards the chess rules can
/// read, and, while a puzzle is being solved, the index of the solver's
/// next move within its moves.
pub open spec fn session_wf(v: SessionView) -> bool {
    &&& forall|i: int| 0 <= i < v.puzzles.len() ==> puzzle_playable(#[trigger] v.puzzles[i])
    &&& v.puzzles.len() > 0 ==> 0 <= v.current_puzzle < v.puzzles.len()
    &&& is_board(v.board) && fen_shape(v.board)
    &&& is_board(v.analysis_board) && fen_shape(v.analysis_board)
    &&& forall|i: int| 0 <= i < v.history.len() ==> is_board(#[trigger] v.history[i]) && fen_shape(v.history[i])
    &&& v.game_status == GameStatus::Playing ==> v.puzzles.len() > 0 && 1 <= v.current_puzzle_move
        < current_moves(v).len() && v.current_puzzle_move % 2 == 1
}

/// Loads the puzzle at index `index`: its board after the opponent's first
/// move, with that move marked, and the solver's first move to come.
pub open spec fn load_puzzle_spec(v: SessionView, index: int, number_ui: Seq<char>) -> SessionView {
    let p = v.puzzles[index];
    let moves = words(p.moves);
    let trigger = moves[0];
    let board = board_after(fen_read(p.fen)->Ok_0, trigger);
    SessionView {
        current_puzzle: index,
        current_puzzle_move: 1,
        board: board,
        history: seq![board],
        hint_square: None,
        last_move_from: Some(move_source(trigger) as u8),
        last_move_to: Some(move_dest(trigger) as u8),
        feedback: if board_side_to_move(board) == Side::White {
            PuzzleFeedback::WhiteToMove
        } else {
            PuzzleFeedback::BlackToMove
        },
        puzzle_number_ui: number_ui,
        current_puzzle_side: board_side_to_move(board),
        current_puzzle_fen: san_correct_ep_spec(board),
        game_status: GameStatus::Playing,
        game_mode: GameMode::Puzzle,
        ..v
    }
}

pub proof fn lemma_shape_correctable(fen: Seq<char>)
    requires
        fen_shape(fen),
    ensures
        ep_correctable(fen),
{
}

/// The session before any puzzle is loaded: no puzzles, both boards and the
/// history at the starting position, puzzle mode, the number `1` typed, the
/// search invited and no square marked.
pub open spec fn fresh_session() -> SessionView {
    SessionView {
        puzzles: Seq::empty(),
        current_puzzle: 0,
        current_puzzle_move: 1,
        board: start_fen(),
        analysis_board: start_fen(),
        history: seq![start_fen()],
        from_square: None,
        last_move_from: None,
        last_move_to: None,
        hint_square: None,
        feedback: PuzzleFeedback::UseSearch,
        game_status: GameStatus::NoPuzzles,
        game_mode: GameMode::Puzzle,
        puzzle_number_ui: seq!['1'],
        current_puzzle_side: Side::White,
        current_puzzle_fen: start_fen(),
    }
}

impl PuzzleSession {
    /// A session with no puzzles, both boards at the starting position.
    pub fn new() -> (res: Self)
        ensures
            res@ == fresh_session(),
            session_wf(res@),
            res@.puzzles.len() == 0,
            res@.board == start_fen(),
            res@.analysis_board == start_fen(),
            res@.history == seq![start_fen()],
            res@.game_status == GameStatus::NoPuzzles,
            res@.game_mode == GameMode::Puzzle,
            res@.feedback == PuzzleFeedback::UseSearch,
            res@.puzzle_number_ui == seq!['1'],
            res@.current_puzzle == 0,
            res@.current_puzzle_move == 1,
            res@.from_square is None && res@.last_move_from is None && res@.last_move_to is None
                && res@.hint_square is None,
    {
        let board = start_position();
        let mut history: Vec<String> = Vec::new();
        history.push(start_position());
        let mut number: Vec<char> = Vec::new();
        number.push('1');
        let res = PuzzleSession {
            puzzles: Vec::new(),
            current_puzzle: 0,
            current_puzzle_move: 1,
            board,
            analysis_board: start_position(),
            history,
            from_square: None,
            last_move_from: None,
            last_move_to: None,
            hint_square: None,
            feedback: PuzzleFeedback::UseSearch,
            game_status: GameStatus::NoPuzzles,
            game_mode: GameMode::Puzzle,
            puzzle_number_ui: string_from_chars(&number),
            current_puzzle_side: Side::White,
            current_puzzle_fen: start_position(),
        };
        assert(res@.history =~= seq![start_fen()]);
        assert(res@.puzzles =~= Seq::<PuzzleView>::empty());
        res
    }

    /// Loads the current puzzle, after moving to the next one when asked.
    pub fn load_puzzle(&mut self, inc_counter: bool)
        requires
            session_wf(old(self)@),
            old(self)@.puzzles.len() > 0,
            inc_counter ==> old(self)@.current_puzzle + 1 < old(self)@.puzzles.len(),
        ensures
            session_wf(final(self)@),
            final(self).puzzles@ == old(self).puzzles@,
            final(self)@ == load_puzzle_spec(
                old(self)@,
                if inc_counter {
                    old(self)@.current_puzzle + 1
                } else {
                    old(self)@.current_puzzle
                },
                if inc_counter {
                    decimal((old(self)@.current_puzzle + 2) as nat)
                } else {
                    old(self)@.puzzle_number_ui
                },
            ),
    {
        let ghost v = self@;
        self.hint_square = None;
        self.current_puzzle_move = 1;
        if inc_counter {
            assert(self.puzzles@.len() == v.puzzles.len());
            assert(self.puzzles.len() <= usize::MAX);
            self.inc_puzzle_counter();
        }
        let index = self.current_puzzle;
        assert(self@.puzzles[index as int] == self.puzzles@[index as int]@);
        assert(puzzle_playable(v.puzzles[index as int]));
        let chars = chars_of(self.puzzles[index].moves.as_str());
        let moves = split_words(&chars);
        let ghost ms = words(self.puzzles@[index as int].moves@);
        assert(moves@.map_values(|w: Vec<char>| w@) =~= ms);
        assert(moves@[0]@ == ms[0]);
        let start = match read_fen(self.puzzles[index].fen.as_str()) {
            Ok(b) => b,
            Err(_) => {
                assert(false);
                return;
            },
        };
        let trigger = string_from_chars(&moves[0]);
        let (source, dest, _) = move_parts(trigger.as_str());
        self.last_move_from = Some(source);
        self.last_move_to = Some(dest);
        let board = make_move(start.as_str(), trigger.as_str());
        let mut history: Vec<String> = Vec::new();
        history.push(board.clone());
        let side = side_to_move(board.as_str());
        self.feedback = if side == Side::White {
            PuzzleFeedback::WhiteToMove
        } else {
            PuzzleFeedback::BlackToMove
        };
        self.current_puzzle_side = side;
        proof {
            lemma_shape_correctable(board@);
        }
        self.current_puzzle_fen = san_correct_ep(board.as_str());
        self.board = board;
        self.history = history;
        self.game_status = GameStatus::Playing;
        self.game_mode = GameMode::Puzzle;
        assert(self@.history =~= seq![self@.board]);
        assert(self@.puzzles == v.puzzles);
    }

    /// Moves to the next puzzle's number.
    pub fn inc_puzzle_counter(&mut self)
        requires
            old(self).current_puzzle < usize::MAX - 1,
        ensures
            final(self).puzzles@ == old(self).puzzles@,
            final(self)@ == (SessionView {
                current_puzzle: old(self)@.current_puzzle + 1,
                puzzle_number_ui: decimal((old(self)@.current_puzzle + 2) as nat),
                ..old(self)@
            }),
    {
        self.current_puzzle = self.current_puzzle + 1;
        let mut out: Vec<char> = Vec::new();
        push_decimal(&mut out, (self.current_puzzle as u128) + 1);
        self.puzzle_number_ui = string_from_chars(&out);
    }

    /// Moves back to the previous puzzle's number.
    pub fn dec_puzzle_counter(&mut self)
        requires
            old(self).current_puzzle > 0,
        ensures
            final(self).puzzles@ == old(self).puzzles@,
            final(self)@ == (SessionView {
                current_puzzle: old(self)@.current_puzzle - 1,
                puzzle_number_ui: decimal(old(self)@.current_puzzle as nat),
                ..old(self)@
            }),
    {
        self.current_puzzle = self.current_puzzle - 1;
        let mut out: Vec<char> = Vec::new();
        push_decimal(&mut out, (self.current_puzzle as u128) + 1);
        self.puzzle_number_ui = string_from_chars(&out);
    }
}

/// A move's outcome taken as plain values.
pub struct OutcomeView {
    pub puzzle_changed: bool,
    pub cue: Option<AudioCue>,
    pub engine_position: Option<Seq<char>>,
}

pub open spec fn outcome_view(o: MoveOutcome) -> OutcomeView {
    OutcomeView {
        puzzle_changed: o.puzzle_changed,
        cue: o.cue,
        engine_position: match o.engine_position {
            Some(p) => Some(p@),
            None => None,
        },
    }
}

pub open spec fn quiet() -> OutcomeView {
    OutcomeView { puzzle_changed: false, cue: None, engine_position: None }
}

/// A move on the analysis board: played when legal, and its position sent
/// to the engine.
pub open spec fn analysis_move_spec(v: SessionView, from: int, to: int, promo: PieceKind) -> (SessionView, OutcomeView) {
    let m = notation_spec(v.analysis_board, promo, from, to);
    if is_legal(v.analysis_board, m) {
        let b = board_after(v.analysis_board, m);
        (
            SessionView { analysis_board: b, history: v.history.push(b), ..v },
            OutcomeView {
                puzzle_changed: false,
                cue: Some(AudioCue::OnePiece),
                engine_position: Some(san_correct_ep_spec(b)),
            },
        )
    } else {
        (v, quiet())
    }
}

/// The last move of a puzzle was played: the next puzzle is loaded when
/// asked for, else the puzzle (or the whole list) is marked done.
pub open spec fn puzzle_done_spec(v: SessionView, auto_load_next: bool) -> (SessionView, OutcomeView) {
    if v.current_puzzle + 1 < v.puzzles.len() {
        if auto_load_next {
            (
                load_puzzle_spec(v, v.current_puzzle + 1, decimal((v.current_puzzle + 2) as nat)),
                OutcomeView { puzzle_changed: true, cue: Some(AudioCue::OnePiece), engine_position: None },
            )
        } else {
            (
                SessionView {
                    game_status: GameStatus::PuzzleEnded,
                    feedback: PuzzleFeedback::CorrectPuzzle,
                    ..v
                },
                OutcomeView { puzzle_changed: false, cue: Some(AudioCue::OnePiece), engine_position: None },
            )
        }
    } else if auto_load_next {
        (
            SessionView {
                board: start_fen(),
                history: seq![start_fen()],
                current_puzzle_move: 1,
                game_status: GameStatus::NoPuzzles,
                last_move_from: None,
                last_move_to: None,
                feedback: PuzzleFeedback::AllPuzzlesDone,
                ..v
            },
            OutcomeView { puzzle_changed: false, cue: Some(AudioCue::OnePiece), engine_position: None },
        )
    } else {
        (
            SessionView {
                game_status: GameStatus::PuzzleEnded,
                last_move_from: None,
                last_move_to: None,
                feedback: PuzzleFeedback::AllPuzzlesDone,
                ..v
            },
            OutcomeView { puzzle_changed: false, cue: Some(AudioCue::OnePiece), engine_position: None },
        )
    }
}

/// A move on the puzzle board: the expected move, or any mating move, is
/// played and answered by the opponent's next move; any other move is
/// refused with a message for the side to move. An answer that is no
/// longer legal (after a mate other than the expected one) ends the puzzle.
pub open spec fn puzzle_move_spec(v: SessionView, from: int, to: int, promo: PieceKind, auto_load_next: bool) -> (SessionView, OutcomeView) {
    let m = notation_spec(v.board, promo, from, to);
    let moves = current_moves(v);
    let expected = moves[v.current_puzzle_move];
    let legal_move = is_legal(v.board, m);
    let mates = legal_move && board_state(board_after(v.board, m)) == BoardState::Checkmate;
    if mates || (legal_move && m == expected) {
        let b1 = board_after(v.board, m);
        let k = v.current_puzzle_move + 1;
        let v2 = SessionView { board: b1, history: v.history.push(b1), current_puzzle_move: k, ..v };
        if k == moves.len() {
            puzzle_done_spec(v2, auto_load_next)
        } else {
            let reply = moves[k];
            if is_legal(b1, reply) {
                let b2 = board_after(b1, reply);
                (
                    SessionView {
                        board: b2,
                        history: v2.history.push(b2),
                        last_move_from: Some(move_source(reply) as u8),
                        last_move_to: Some(move_dest(reply) as u8),
                        current_puzzle_move: k + 1,
                        feedback: PuzzleFeedback::CorrectMove,
                        ..v2
                    },
                    OutcomeView { puzzle_changed: false, cue: Some(AudioCue::TwoPieces), engine_position: None },
                )
            } else {
                (
                    SessionView {
                        game_status: GameStatus::PuzzleEnded,
                        feedback: PuzzleFeedback::CorrectPuzzle,
                        ..v2
                    },
                    OutcomeView { puzzle_changed: false, cue: Some(AudioCue::OnePiece), engine_position: None },
                )
            }
        }
    } else {
        (
            SessionView {
                feedback: if board_side_to_move(v.board) == Side::White {
                    PuzzleFeedback::WrongMoveWhitePlay
                } else {
                    PuzzleFeedback::WrongMoveBlackPlay
                },
                ..v
            },
            quiet(),
        )
    }
}

/// A move from `from` to `to` on the board in use. A click on another
/// piece of the side to move while a puzzle is played only selects it.
pub open spec fn play_spec(v: SessionView, from: int, to: int, promo: PieceKind, auto_load_next: bool) -> (SessionView, OutcomeView) {
    let board = if v.game_mode == GameMode::Analysis {
        v.analysis_board
    } else {
        v.board
    };
    if v.game_status == GameStatus::Playing && board_color_at(board, to as u8) == Some(
        board_side_to_move(board),
    ) {
        (SessionView { from_square: Some(to as u8), ..v }, quiet())
    } else {
        let v1 = SessionView { from_square: None, ..v };
        if v.game_mode == GameMode::Analysis {
            analysis_move_spec(v1, from, to, promo)
        } else if v.puzzles.len() == 0 {
            (v1, quiet())
        } else {
            puzzle_move_spec(v1, from, to, promo, auto_load_next)
        }
    }
}

/// Solving goes on after a correct move that is not the puzzle's last: when
/// the solver plays the expected move on the puzzle board and the puzzle
/// has a further move, the legal reply to it, the opponent's reply is
/// played, the puzzle is still being solved (the same puzzle, with no other
/// loaded), and the solver is asked for the move after that reply.
pub proof fn law_correct_move_gets_the_reply(v: SessionView, from: int, to: int, promo: PieceKind, auto_load_next: bool)
    requires
        v.game_mode == GameMode::Puzzle,
        v.game_status == GameStatus::Playing,
        v.puzzles.len() > 0,
        board_color_at(v.board, to as u8) != Some(board_side_to_move(v.board)),
        0 <= v.current_puzzle_move,
        v.current_puzzle_move + 1 < current_moves(v).len(),
        is_legal(v.board, notation_spec(v.board, promo, from, to)),
        notation_spec(v.board, promo, from, to) == current_moves(v)[v.current_puzzle_move],
        is_legal(
            board_after(v.board, current_moves(v)[v.current_puzzle_move]),
            current_moves(v)[v.current_puzzle_move + 1],
        ),
    ensures
        ({
            let moves = current_moves(v);
            let k = v.current_puzzle_move;
            let (w, o) = play_spec(v, from, to, promo, auto_load_next);
            &&& w.game_status == GameStatus::Playing
            &&& w.board == board_after(board_after(v.board, moves[k]), moves[k + 1])
            &&& w.current_puzzle_move == k + 2
            &&& w.feedback == PuzzleFeedback::CorrectMove
            &&& w.puzzles == v.puzzles && w.current_puzzle == v.current_puzzle
            &&& !o.puzzle_changed
        }),
{
}

fn quiet_outcome() -> (res: MoveOutcome)
    ensures
        outcome_view(res) == quiet(),
{
    MoveOutcome { puzzle_changed: false, cue: None, engine_position: None }
}

impl PuzzleSession {
    fn play_analysis(&mut self, from: u8, to: u8, promo_piece: PieceKind) -> (res: MoveOutcome)
        requires
            session_wf(old(self)@),
            from < 64,
            to < 64,
        ensures
            final(self)@ == analysis_move_spec(old(self)@, from as int, to as int, promo_piece).0,
            outcome_view(res) == analysis_move_spec(old(self)@, from as int, to as int, promo_piece).1,
            session_wf(final(self)@),
    {
        let ghost v = self@;
        let promotion = notation_promotion(self.analysis_board.as_str(), promo_piece, from, to);
        let m = move_text(from, to, promotion);
        if legal(self.analysis_board.as_str(), m.as_str()) {
            let b = make_move(self.analysis_board.as_str(), m.as_str());
            self.history.push(b.clone());
            proof {
                lemma_shape_correctable(b@);
            }
            let corrected = san_correct_ep(b.as_str());
            self.analysis_board = b;
            assert(self@.history =~= v.history.push(self@.analysis_board));
            MoveOutcome { puzzle_changed: false, cue: Some(AudioCue::OnePiece), engine_position: Some(corrected) }
        } else {
            quiet_outcome()
        }
    }

    fn finish_puzzle(&mut self, auto_load_next: bool) -> (res: MoveOutcome)
        requires
            forall|i: int| 0 <= i < old(self)@.puzzles.len() ==> puzzle_playable(#[trigger] old(self)@.puzzles[i]),
            0 <= old(self)@.current_puzzle < old(self)@.puzzles.len(),
            is_board(old(self)@.board) && fen_shape(old(self)@.board),
            is_board(old(self)@.analysis_board) && fen_shape(old(self)@.analysis_board),
            forall|i: int| 0 <= i < old(self)@.history.len() ==> is_board(#[trigger] old(self)@.history[i]) && fen_shape(old(self)@.history[i]),
        ensures
            final(self)@ == puzzle_done_spec(old(self)@, auto_load_next).0,
            outcome_view(res) == puzzle_done_spec(old(self)@, auto_load_next).1,
            session_wf(final(self)@),
    {
        assert(self.puzzles@.len() == old(self)@.puzzles.len());
        if self.current_puzzle < self.puzzles.len() - 1 {
            if auto_load_next {
                self.game_status = GameStatus::NoPuzzles;
                self.load_puzzle(true);
                MoveOutcome { puzzle_changed: true, cue: Some(AudioCue::OnePiece), engine_position: None }
            } else {
                self.game_status = GameStatus::PuzzleEnded;
                self.feedback = PuzzleFeedback::CorrectPuzzle;
                MoveOutcome { puzzle_changed: false, cue: Some(AudioCue::OnePiece), engine_position: None }
            }
        } else {
            if auto_load_next {
                let b = start_position();
                let mut history: Vec<String> = Vec::new();
                history.push(start_position());
                self.board = b;
                self.history = history;
                self.current_puzzle_move = 1;
                self.game_status = GameStatus::NoPuzzles;
                assert(self@.history =~= seq![start_fen()]);
            } else {
                self.game_status = GameStatus::PuzzleEnded;
            }
            self.last_move_from = None;
            self.last_move_to = None;
            self.feedback = PuzzleFeedback::AllPuzzlesDone;
            MoveOutcome { puzzle_changed: false, cue: Some(AudioCue::OnePiece), engine_position: None }
        }
    }

    fn play_puzzle(&mut self, from: u8, to: u8, promo_piece: PieceKind, auto_load_next: bool) -> (res: MoveOutcome)
        requires
            session_wf(old(self)@),
            old(self)@.game_status == GameStatus::Playing,
            from < 64,
            to < 64,
        ensures
            final(self)@ == puzzle_move_spec(old(self)@, from as int, to as int, promo_piece, auto_load_next).0,
            outcome_view(res) == puzzle_move_spec(old(self)@, from as int, to as int, promo_piece, auto_load_next).1,
            session_wf(final(self)@),
    {
        let ghost v = self@;
        let promotion = notation_promotion(self.board.as_str(), promo_piece, from, to);
        let m = move_text(from, to, promotion);
        let index = self.current_puzzle;
        assert(self@.puzzles[index as int] == self.puzzles@[index as int]@);
        let chars = chars_of(self.puzzles[index].moves.as_str());
        let moves = split_words(&chars);
        let ghost ms = current_moves(v);
        assert(moves@.map_values(|w: Vec<char>| w@) =~= ms);
        let k0 = self.current_puzzle_move;
        assert(k0 < moves.len());
        assert(moves@[k0 as int]@ == ms[k0 as int]);
        let expected = string_from_chars(&moves[k0]);
        let legal_move = legal(self.board.as_str(), m.as_str());
        let mates = if legal_move {
            let after = make_move(self.board.as_str(), m.as_str());
            status(after.as_str()) == BoardState::Checkmate
        } else {
            false
        };
        if mates || (legal_move && m.eq(&expected)) {
            let b1 = make_move(self.board.as_str(), m.as_str());
            self.history.push(b1.clone());
            self.board = b1;
            let k = k0 + 1;
            self.current_puzzle_move = k;
            let ghost v2 = self@;
            assert(v2.history =~= v.history.push(v2.board));
            if k == moves.len() {
                return self.finish_puzzle(auto_load_next);
            }
            assert(moves@[k as int]@ == ms[k as int]);
            let reply = string_from_chars(&moves[k]);
            proof {
                assert(puzzle_playable(v.puzzles[v.current_puzzle]));
                lemma_line_texts(fen_read(v.puzzles[v.current_puzzle].fen)->Ok_0, ms, 0, k as int);
            }
            if legal(self.board.as_str(), reply.as_str()) {
                let (source, dest, _) = move_parts(reply.as_str());
                let b2 = make_move(self.board.as_str(), reply.as_str());
                self.history.push(b2.clone());
                self.board = b2;
                self.last_move_from = Some(source);
                self.last_move_to = Some(dest);
                self.current_puzzle_move = k + 1;
                self.feedback = PuzzleFeedback::CorrectMove;
                assert(self@.history =~= v2.history.push(self@.board));
                MoveOutcome { puzzle_changed: false, cue: Some(AudioCue::TwoPieces), engine_position: None }
            } else {
                self.game_status = GameStatus::PuzzleEnded;
                self.feedback = PuzzleFeedback::CorrectPuzzle;
                MoveOutcome { puzzle_changed: false, cue: Some(AudioCue::OnePiece), engine_position: None }
            }
        } else {
            self.feedback = if side_to_move(self.board.as_str()) == Side::White {
                PuzzleFeedback::WrongMoveWhitePlay
            } else {
                PuzzleFeedback::WrongMoveBlackPlay
            };
            quiet_outcome()
        }
    }

    /// Plays the move from `from` to `to` on the board in use, with the
    /// chosen piece for a promotion: on the analysis board any legal move,
    /// on the puzzle board the expected move or a mate. The interface only
    /// asks this while a puzzle is played, on the analysis board, or with
    /// no puzzles loaded.
    pub fn verify_and_make_move(&mut self, from: u8, to: u8, promo_piece: PieceKind, auto_load_next: bool) -> (res: MoveOutcome)
        requires
            session_wf(old(self)@),
            from < 64,
            to < 64,
            old(self)@.game_mode == GameMode::Analysis || old(self)@.game_status == GameStatus::Playing
                || old(self)@.puzzles.len() == 0,
        ensures
            final(self)@ == play_spec(old(self)@, from as int, to as int, promo_piece, auto_load_next).0,
            outcome_view(res) == play_spec(old(self)@, from as int, to as int, promo_piece, auto_load_next).1,
            session_wf(final(self)@),
    {
        let analysis = self.game_mode == GameMode::Analysis;
        let board = if analysis {
            self.analysis_board.clone()
        } else {
            self.board.clone()
        };
        let side = side_to_move(board.as_str());
        let color = color_at(board.as_str(), to);
        if self.game_status == GameStatus::Playing && color == Some(side) {
            self.from_square = Some(to);
            return quiet_outcome();
        }
        self.from_square = None;
        if analysis {
            self.play_analysis(from, to, promo_piece)
        } else if self.puzzles.len() == 0 {
            quiet_outcome()
        } else {
            self.play_puzzle(from, to, promo_piece, auto_load_next)
        }
    }
}

/// Along a line of moves that can be played, each move is a move text.
pub proof fn lemma_line_texts(board: Seq<char>, moves: Seq<Seq<char>>, k: int, j: int)
    requires
        line_playable(board, moves, k),
        0 <= k <= j < moves.len(),
    ensures
        is_uci(moves[j]),
        is_move_text(moves[j]),
    decreases j - k,
{
    if k < j {
        lemma_line_texts(board_after(board, moves[k]), moves, k + 1, j);
    }
}

proof fn lemma_shuffled_playable(old_ps: Seq<Puzzle>, new_ps: Seq<Puzzle>)
    requires
        new_ps.to_multiset() == old_ps.to_multiset(),
        forall|i: int| 0 <= i < old_ps.len() ==> puzzle_playable(#[trigger] old_ps[i]@),
    ensures
        new_ps.len() == old_ps.len(),
        forall|i: int| 0 <= i < new_ps.len() ==> puzzle_playable(#[trigger] new_ps[i]@),
{
    broadcast use vstd::seq_lib::group_to_multiset_ensures;

    assert(new_ps.len() == old_ps.len()) by {
        new_ps.to_multiset_ensures();
        old_ps.to_multiset_ensures();
    }
    assert forall|i: int| 0 <= i < new_ps.len() implies puzzle_playable(#[trigger] new_ps[i]@) by {
        new_ps.to_multiset_ensures();
        old_ps.to_multiset_ensures();
        assert(new_ps.contains(new_ps[i]));
        assert(new_ps.to_multiset().count(new_ps[i]) > 0);
        assert(old_ps.to_multiset().count(new_ps[i]) > 0);
        assert(old_ps.contains(new_ps[i]));
        let j = choose|j: int| 0 <= j < old_ps.len() && old_ps[j] == new_ps[i];
        assert(puzzle_playable(old_ps[j]@));
    }
}

impl PuzzleSession {
    /// Replaces the loaded puzzles with a batch, in a random order when
    /// asked, and loads its first puzzle; a batch that cannot be solved is
    /// refused and the session stays as it was.
    pub fn replace_puzzle_batch(&mut self, puzzles: Vec<Puzzle>, shuffle: bool) -> (res: Result<(), String>)
        requires
            session_wf(old(self)@),
        ensures
            res is Ok <==> puzzles@.len() > 0 && forall|i: int| 0 <= i < puzzles@.len() ==> puzzle_playable(#[trigger] puzzles@[i]@),
            res is Err ==> final(self)@ == old(self)@,
            res matches Err(e) ==> e@ == batch_error(puzzles@.map_values(|p: Puzzle| p@)),
            res is Ok ==> session_wf(final(self)@),
            res is Ok ==> final(self).puzzles@.to_multiset() == puzzles@.to_multiset(),
            res is Ok && !shuffle ==> final(self).puzzles@ == puzzles@,
            res is Ok ==> final(self)@ == load_puzzle_spec(
                SessionView {
                    puzzles: final(self)@.puzzles,
                    current_puzzle: 0,
                    puzzle_number_ui: seq!['1'],
                    ..old(self)@
                },
                0,
                seq!['1'],
            ),
    {
        match validate_puzzle_batch(&puzzles) {
            Ok(()) => {},
            Err(e) => {
                return Err(e);
            },
        }
        let ghost given = puzzles@;
        let mut puzzles = puzzles;
        if shuffle {
            shuffle_puzzles(&mut puzzles);
        }
        proof {
            lemma_shuffled_playable(given, puzzles@);
        }
        let ghost v = self@;
        self.puzzles = puzzles;
        self.current_puzzle = 0;
        let mut one: Vec<char> = Vec::new();
        one.push('1');
        self.puzzle_number_ui = string_from_chars(&one);
        self.game_status = GameStatus::NoPuzzles;
        let ghost before_load = self@;
        self.load_puzzle(false);
        Ok(())
    }
}

} // verus!
