//! Navigating the games read from PGN text, and reproducible snapshots of
//! one of their positions.

use vstd::prelude::*;
use crate::text::{chars_of, decimal, push_decimal, push_str, string_from_chars};
use crate::chess_rules::{
    board_after, fen_read, is_board, is_legal, is_uci, legal, make_move, read_fen, parse_uci,
    uci_parse,
};
use crate::pgn_import::{
    game_replay_ok, games_replay_ok, games_view, replay_ok, strings_view, GameView, HeadersView,
    ImportedGame, ImportedGameHeaders,
};

verus! {

/// Copies tag pairs value by value.
pub fn copy_headers(h: &ImportedGameHeaders) -> (res: ImportedGameHeaders)
    ensures
        res@ == h@,
{
    ImportedGameHeaders {
        event: copy_opt(&h.event),
        site: copy_opt(&h.site),
        date: copy_opt(&h.date),
        round: copy_opt(&h.round),
        white: copy_opt(&h.white),
        black: copy_opt(&h.black),
        result: copy_opt(&h.result),
        set_up: copy_opt(&h.set_up),
        fen: copy_opt(&h.fen),
    }
}

fn copy_opt(o: &Option<String>) -> (res: Option<String>)
    ensures
        crate::pgn_import::opt_view(res) == crate::pgn_import::opt_view(*o),
{
    match o {
        Some(s) => Some(s.clone()),
        None => None,
    }
}

fn copy_strings(v: &Vec<String>) -> (res: Vec<String>)
    ensures
        strings_view(res@) == strings_view(v@),
{
    let mut res: Vec<String> = Vec::new();
    let mut i: usize = 0;
    while i < v.len()
        invariant
            i <= v.len(),
            res@.len() == i,
            strings_view(res@) == strings_view(v@.take(i as int)),
        decreases v.len() - i,
    {
        let ghost r0 = res@;
        let c = v[i].clone();
        res.push(c);
        i = i + 1;
        assert(v@.take(i as int) =~= v@.take(i - 1).push(v@[i - 1]));
        assert(res@ =~= r0.push(c));
        assert(strings_view(res@) =~= strings_view(r0).push(c@));
        assert(strings_view(v@.take(i as int)) =~= strings_view(v@.take(i - 1)).push(v@[i - 1]@));
    }
    assert(v@.take(i as int) =~= v@);
    res
}

/// An in-memory snapshot of one position of a reviewed game.
#[derive(Debug, Clone, PartialEq, Eq)]
pub struct PgnPositionCandidate {
    pub game_index: usize,
    pub ply_index: usize,
    pub board: String,
    pub headers: ImportedGameHeaders,
}

/// A position with enough of its game to replay it without the PGN text:
/// board FENs of the initial and selected positions and the main line as
/// one UCI move per ply.
#[derive(Debug, Clone, PartialEq, Eq)]
pub struct PgnPositionSnapshot {
    pub source_game_index: usize,
    pub ply_index: usize,
    pub selected_fen: String,
    pub initial_fen: String,
    pub main_line_uci: Vec<String>,
    pub headers: ImportedGameHeaders,
}

pub struct SnapshotView {
    pub source_game_index: nat,
    pub ply_index: nat,
    pub selected_fen: Seq<char>,
    pub initial_fen: Seq<char>,
    pub main_line_uci: Seq<Seq<char>>,
    pub headers: HeadersView,
}

impl View for PgnPositionSnapshot {
    type V = SnapshotView;

    open spec fn view(&self) -> SnapshotView {
        SnapshotView {
            source_game_index: self.source_game_index as nat,
            ply_index: self.ply_index as nat,
            selected_fen: self.selected_fen@,
            initial_fen: self.initial_fen@,
            main_line_uci: strings_view(self.main_line_uci@),
            headers: self.headers@,
        }
    }
}

/// The moves and boards of a main line replayed from move `k` on, with the
/// moves and boards so far.
pub open spec fn replay_from(ucis: Seq<Seq<char>>, k: int, moves: Seq<Seq<char>>, positions: Seq<Seq<char>>) -> Result<(Seq<Seq<char>>, Seq<Seq<char>>), Seq<char>>
    decreases ucis.len() - k,
{
    if k < 0 || k >= ucis.len() || positions.len() == 0 {
        Ok((moves, positions))
    } else {
        let board = positions.last();
        match uci_parse(ucis[k]) {
            None => Err("snapshot main line has invalid UCI at ply "@ + decimal((k + 1) as nat)
                + ": "@ + ucis[k]),
            Some(m) => if !is_legal(board, m) {
                Err("snapshot main line has illegal move at ply "@ + decimal((k + 1) as nat)
                    + ": "@ + ucis[k])
            } else {
                replay_from(ucis, k + 1, moves.push(m), positions.push(board_after(board, m)))
            },
        }
    }
}

/// The game that a snapshot stands for, or why it does not replay.
pub open spec fn reconstruct_spec(s: SnapshotView) -> Result<GameView, Seq<char>> {
    match fen_read(s.initial_fen) {
        Err(e) => Err("snapshot initial FEN is invalid: "@ + e),
        Ok(b0) => if s.ply_index > s.main_line_uci.len() {
            Err("snapshot ply index "@ + decimal(s.ply_index) + " is outside the main line of "@
                + decimal(s.main_line_uci.len()) + " moves"@)
        } else {
            match replay_from(s.main_line_uci, 0, Seq::empty(), seq![b0]) {
                Err(e) => Err(e),
                Ok((moves, positions)) => match fen_read(s.selected_fen) {
                    Err(e) => Err("snapshot selected FEN is invalid: "@ + e),
                    Ok(sel) => if positions[s.ply_index as int] != sel {
                        Err("snapshot selected FEN does not match the reconstructed board"@)
                    } else {
                        Ok(GameView { headers: s.headers, moves, positions })
                    },
                },
            }
        },
    }
}

impl PgnPositionSnapshot {
    #[verifier::loop_isolation(false)]
    fn reconstruct_game(&self) -> (res: Result<ImportedGame, String>)
        ensures
            match reconstruct_spec(self@) {
                Ok(g) => res matches Ok(r) && r@ == g,
                Err(e) => res matches Err(m) && m@ == e,
            },
            res matches Ok(r) ==> game_replay_ok(r@) && r@.moves.len() == self@.main_line_uci.len(),
    {
        let mut board = match read_fen(self.initial_fen.as_str()) {
            Ok(b) => b,
            Err(e) => {
                let mut m = chars_of("snapshot initial FEN is invalid: ");
                push_str(&mut m, e.as_str());
                return Err(string_from_chars(&m));
            },
        };
        if self.ply_index > self.main_line_uci.len() {
            let mut m = chars_of("snapshot ply index ");
            push_decimal(&mut m, self.ply_index as u128);
            push_str(&mut m, " is outside the main line of ");
            push_decimal(&mut m, self.main_line_uci.len() as u128);
            push_str(&mut m, " moves");
            assert(m@ =~= "snapshot ply index "@ + decimal(self@.ply_index)
                + " is outside the main line of "@ + decimal(self@.main_line_uci.len()) + " moves"@);
            return Err(string_from_chars(&m));
        }
        let ghost b0 = board@;
        let mut moves: Vec<String> = Vec::new();
        let mut positions: Vec<String> = Vec::new();
        positions.push(board.clone());
        let ghost ucis = strings_view(self.main_line_uci@);
        let mut index: usize = 0;
        assert(strings_view(moves@) =~= Seq::<Seq<char>>::empty());
        assert(strings_view(positions@) =~= seq![b0]);
        while index < self.main_line_uci.len()
            invariant
                index <= self.main_line_uci.len(),
                ucis == strings_view(self.main_line_uci@),
                strings_view(moves@).len() == index,
                positions@.len() == index + 1,
                board@ == strings_view(positions@).last(),
                is_board(board@),
                replay_ok(strings_view(moves@), strings_view(positions@)),
                replay_from(ucis, 0, Seq::empty(), seq![b0]) == replay_from(
                    ucis,
                    index as int,
                    strings_view(moves@),
                    strings_view(positions@),
                ),
            decreases self.main_line_uci.len() - index,
        {
            let uci_text = &self.main_line_uci[index];
            assert(uci_text@ == ucis[index as int]);
            let chess_move = match parse_uci(uci_text.as_str()) {
                Some(m) => m,
                None => {
                    let mut m = chars_of("snapshot main line has invalid UCI at ply ");
                    push_decimal(&mut m, index as u128 + 1);
                    push_str(&mut m, ": ");
                    push_str(&mut m, uci_text.as_str());
                    return Err(string_from_chars(&m));
                },
            };
            if !legal(board.as_str(), chess_move.as_str()) {
                let mut m = chars_of("snapshot main line has illegal move at ply ");
                push_decimal(&mut m, index as u128 + 1);
                push_str(&mut m, ": ");
                push_str(&mut m, uci_text.as_str());
                return Err(string_from_chars(&m));
            }
            let next = make_move(board.as_str(), chess_move.as_str());
            let ghost mv0 = strings_view(moves@);
            let ghost ps0 = strings_view(positions@);
            moves.push(chess_move);
            positions.push(next.clone());
            board = next;
            assert(strings_view(moves@) =~= mv0.push(chess_move@));
            assert(strings_view(positions@) =~= ps0.push(board@));
            proof {
                let m2 = strings_view(moves@);
                let p2 = strings_view(positions@);
                assert forall|i: int| 0 <= i < m2.len() implies #[trigger] is_uci(m2[i])
                    && is_legal(p2[i], m2[i]) && p2[i + 1] == board_after(p2[i], m2[i]) by {
                    if i < mv0.len() {
                        assert(is_uci(mv0[i]));
                    }
                }
            }
            index = index + 1;
        }
        let selected = match read_fen(self.selected_fen.as_str()) {
            Ok(b) => b,
            Err(e) => {
                let mut m = chars_of("snapshot selected FEN is invalid: ");
                push_str(&mut m, e.as_str());
                return Err(string_from_chars(&m));
            },
        };
        let ply = self.ply_index;
        assert(positions@[ply as int]@ == strings_view(positions@)[ply as int]);
        if positions[ply] != selected {
            return Err(
                string_from_chars(
                    &chars_of("snapshot selected FEN does not match the reconstructed board"),
                ),
            );
        }
        Ok(ImportedGame { headers: copy_headers(&self.headers), moves, positions })
    }

    /// Replays the complete main line and returns the board at `ply_index`.
    pub fn reconstruct_selected_board(&self) -> (res: Result<String, String>)
        ensures
            match reconstruct_spec(self@) {
                Ok(g) => res matches Ok(b) && b@ == g.positions[self@.ply_index as int],
                Err(e) => res matches Err(m) && m@ == e,
            },
    {
        match self.reconstruct_game() {
            Ok(game) => {
                assert(game@.positions[self.ply_index as int] == game.positions@[self.ply_index as int]@);
                Ok(game.positions[self.ply_index].clone())
            },
            Err(e) => Err(e),
        }
    }

    /// Checks that the snapshot replays to its selected board.
    pub fn validate(&self) -> (res: Result<(), String>)
        ensures
            match reconstruct_spec(self@) {
                Ok(_) => res is Ok,
                Err(e) => res matches Err(m) && m@ == e,
            },
    {
        match self.reconstruct_game() {
            Ok(_) => Ok(()),
            Err(e) => Err(e),
        }
    }

    /// The move that led to the selected position, if any.
    pub fn previous_uci(&self) -> (res: Option<&str>)
        ensures
            match res {
                Some(u) => self.ply_index > 0 && self.ply_index <= self.main_line_uci@.len() && u@
                    == self.main_line_uci@[self.ply_index - 1]@,
                None => self.ply_index == 0 || self.ply_index > self.main_line_uci@.len(),
            },
    {
        if self.ply_index == 0 {
            return None;
        }
        let index = self.ply_index - 1;
        if index < self.main_line_uci.len() {
            Some(self.main_line_uci[index].as_str())
        } else {
            None
        }
    }

    /// The move played from the selected position, if any.
    pub fn next_uci(&self) -> (res: Option<&str>)
        ensures
            match res {
                Some(u) => self.ply_index < self.main_line_uci@.len() && u@
                    == self.main_line_uci@[self.ply_index as int]@,
                None => self.ply_index >= self.main_line_uci@.len(),
            },
    {
        if self.ply_index < self.main_line_uci.len() {
            Some(self.main_line_uci[self.ply_index].as_str())
        } else {
            None
        }
    }
}

// ───────────────────────── review session ─────────────────────────

/// Navigates validated PGN games without coupling them to the puzzle workflow.
#[derive(Debug, Clone, PartialEq, Eq)]
pub struct PgnReviewSession {
    games: Vec<ImportedGame>,
    source_game_indices: Vec<usize>,
    current_game_index: usize,
    current_ply_index: usize,
}

/// A review session: its games, the index each had in its source, and the
/// current game and ply.
pub struct SessionView {
    pub games: Seq<GameView>,
    pub sources: Seq<usize>,
    pub game: nat,
    pub ply: nat,
}

impl View for PgnReviewSession {
    type V = SessionView;

    closed spec fn view(&self) -> SessionView {
        SessionView {
            games: games_view(self.games@),
            sources: self.source_game_indices@,
            game: self.current_game_index as nat,
            ply: self.current_ply_index as nat,
        }
    }
}

/// Every game has one more position than moves.
pub open spec fn games_aligned(gs: Seq<GameView>) -> bool {
    forall|i: int| 0 <= i < gs.len() ==> #[trigger] gs[i].positions.len() == gs[i].moves.len() + 1
}

/// The session's invariant: games aligned, a source index per game, and the
/// current game and ply inside them.
pub open spec fn session_wf(v: SessionView) -> bool {
    &&& v.games.len() > 0
    &&& v.sources.len() == v.games.len()
    &&& games_aligned(v.games)
    &&& v.game < v.games.len()
    &&& v.ply < v.games[v.game as int].positions.len()
}

pub open spec fn current_board_of(v: SessionView) -> Seq<char> {
    v.games[v.game as int].positions[v.ply as int]
}

/// The first game from `k` on that cannot be reviewed, if any.
pub open spec fn check_games_from(gs: Seq<GameView>, k: int) -> Result<(), Seq<char>>
    decreases gs.len() - k,
{
    if k < 0 || k >= gs.len() {
        Ok(())
    } else {
        let g = gs[k];
        let n = (k + 1) as nat;
        if g.positions.len() == 0 {
            Err("PGN review game "@ + decimal(n) + " has no positions"@)
        } else if g.positions.len() != g.moves.len() + 1 {
            Err("PGN review game "@ + decimal(n) + " has "@ + decimal(g.positions.len())
                + " positions for "@ + decimal(g.moves.len()) + " moves; expected "@ + decimal(
                g.moves.len() + 1,
            ) + " positions"@)
        } else {
            check_games_from(gs, k + 1)
        }
    }
}

pub open spec fn identity_indices(n: nat) -> Seq<usize> {
    Seq::new(n, |i: int| i as usize)
}

/// The session over some games, at the first game's initial board.
pub open spec fn new_session_spec(gs: Seq<GameView>) -> Result<SessionView, Seq<char>> {
    if gs.len() == 0 {
        Err("PGN review session contains no games"@)
    } else {
        match check_games_from(gs, 0) {
            Err(e) => Err(e),
            Ok(()) => Ok(SessionView { games: gs, sources: identity_indices(gs.len()), game: 0, ply: 0 }),
        }
    }
}

pub open spec fn next_ply_spec(v: SessionView) -> (bool, SessionView) {
    if v.ply + 1 < v.games[v.game as int].positions.len() {
        (true, SessionView { ply: v.ply + 1, ..v })
    } else {
        (false, v)
    }
}

pub open spec fn previous_ply_spec(v: SessionView) -> (bool, SessionView) {
    if v.ply > 0 {
        (true, SessionView { ply: (v.ply - 1) as nat, ..v })
    } else {
        (false, v)
    }
}

pub open spec fn next_game_spec(v: SessionView) -> (bool, SessionView) {
    if v.game + 1 < v.games.len() {
        (true, SessionView { game: v.game + 1, ply: 0, ..v })
    } else {
        (false, v)
    }
}

pub open spec fn previous_game_spec(v: SessionView) -> (bool, SessionView) {
    if v.game > 0 {
        (true, SessionView { game: (v.game - 1) as nat, ply: 0, ..v })
    } else {
        (false, v)
    }
}

/// The snapshot of a session's current position.
pub open spec fn snapshot_spec(v: SessionView) -> SnapshotView {
    let g = v.games[v.game as int];
    SnapshotView {
        source_game_index: v.sources[v.game as int] as nat,
        ply_index: v.ply,
        selected_fen: g.positions[v.ply as int],
        initial_fen: g.positions[0],
        main_line_uci: g.moves,
        headers: g.headers,
    }
}

impl PgnReviewSession {
    /// Creates a session positioned at the first game's initial board.
    pub fn new(games: Vec<ImportedGame>) -> (res: Result<Self, String>)
        ensures
            match new_session_spec(games_view(games@)) {
                Ok(v) => res matches Ok(s) && s@ == v && session_wf(s@),
                Err(e) => res matches Err(m) && m@ == e,
            },
    {
        if games.len() == 0 {
            return Err(string_from_chars(&chars_of("PGN review session contains no games")));
        }
        let ghost gs = games_view(games@);
        let mut k: usize = 0;
        while k < games.len()
            invariant
                k <= games.len(),
                gs == games_view(games@),
                check_games_from(gs, 0) == check_games_from(gs, k as int),
                forall|i: int| 0 <= i < k ==> #[trigger] gs[i].positions.len() == gs[i].moves.len() + 1,
            decreases games.len() - k,
        {
            let game = &games[k];
            assert(game@ == gs[k as int]);
            if game.positions.len() == 0 {
                let mut m = chars_of("PGN review game ");
                push_decimal(&mut m, k as u128 + 1);
                push_str(&mut m, " has no positions");
                return Err(string_from_chars(&m));
            }
            if game.positions.len() - 1 != game.moves.len() {
                let mut m = chars_of("PGN review game ");
                push_decimal(&mut m, k as u128 + 1);
                push_str(&mut m, " has ");
                push_decimal(&mut m, game.positions.len() as u128);
                push_str(&mut m, " positions for ");
                push_decimal(&mut m, game.moves.len() as u128);
                push_str(&mut m, " moves; expected ");
                push_decimal(&mut m, game.moves.len() as u128 + 1);
                push_str(&mut m, " positions");
                return Err(string_from_chars(&m));
            }
            k = k + 1;
        }
        let mut sources: Vec<usize> = Vec::new();
        let mut j: usize = 0;
        while j < games.len()
            invariant
                j <= games.len(),
                sources@ == identity_indices(j as nat),
            decreases games.len() - j,
        {
            sources.push(j);
            j = j + 1;
            assert(sources@ =~= identity_indices(j as nat));
        }
        let s = PgnReviewSession {
            games,
            source_game_indices: sources,
            current_game_index: 0,
            current_ply_index: 0,
        };
        Ok(s)
    }

    /// Reconstructs a one-game session positioned at the snapshot's selected ply.
    pub fn from_snapshot(snapshot: &PgnPositionSnapshot) -> (res: Result<Self, String>)
        ensures
            match reconstruct_spec(snapshot@) {
                Ok(g) => res matches Ok(s) && s@ == SessionView {
                    games: seq![g],
                    sources: seq![snapshot.source_game_index],
                    game: 0,
                    ply: snapshot@.ply_index,
                } && session_wf(s@),
                Err(e) => res matches Err(m) && m@ == e,
            },
    {
        let game = match snapshot.reconstruct_game() {
            Ok(g) => g,
            Err(e) => {
                return Err(e);
            },
        };
        let ghost gv = game@;
        let mut v: Vec<ImportedGame> = Vec::new();
        v.push(game);
        assert(games_view(v@) =~= seq![gv]);
        assert(check_games_from(seq![gv], 1) is Ok);
        let mut session = match Self::new(v) {
            Ok(s) => s,
            Err(e) => {
                return Err(e);
            },
        };
        let mut sources: Vec<usize> = Vec::new();
        sources.push(snapshot.source_game_index);
        session.source_game_indices = sources;
        session.current_ply_index = snapshot.ply_index;
        assert(session@.sources =~= seq![snapshot.source_game_index]);
        Ok(session)
    }

    pub fn game_count(&self) -> (res: usize)
        ensures
            res == self@.games.len(),
    {
        self.games.len()
    }

    pub fn current_game_index(&self) -> (res: usize)
        ensures
            res == self@.game,
    {
        self.current_game_index
    }

    pub fn current_ply_index(&self) -> (res: usize)
        ensures
            res == self@.ply,
    {
        self.current_ply_index
    }

    pub fn current_game(&self) -> (res: &ImportedGame)
        requires
            session_wf(self@),
        ensures
            res@ == self@.games[self@.game as int],
    {
        &self.games[self.current_game_index]
    }

    pub fn current_board(&self) -> (res: &String)
        requires
            session_wf(self@),
        ensures
            res@ == current_board_of(self@),
    {
        let game = &self.games[self.current_game_index];
        assert(game@ == self@.games[self@.game as int]);
        &game.positions[self.current_ply_index]
    }

    /// Captures the current game, ply, board, and headers as an independent value.
    pub fn capture_current_position(&self) -> (res: PgnPositionCandidate)
        requires
            session_wf(self@),
        ensures
            res.game_index == self@.game,
            res.ply_index == self@.ply,
            res.board@ == current_board_of(self@),
            res.headers@ == self@.games[self@.game as int].headers,
    {
        let game = self.current_game();
        PgnPositionCandidate {
            game_index: self.current_game_index,
            ply_index: self.current_ply_index,
            board: self.current_board().clone(),
            headers: copy_headers(&game.headers),
        }
    }

    /// Captures the current position with its game's main line, so that it
    /// can be reproduced without the PGN text.
    pub fn capture_current_snapshot(&self) -> (res: PgnPositionSnapshot)
        requires
            session_wf(self@),
        ensures
            res@ == snapshot_spec(self@),
    {
        let game = self.current_game();
        PgnPositionSnapshot {
            source_game_index: self.source_game_indices[self.current_game_index],
            ply_index: self.current_ply_index,
            selected_fen: self.current_board().clone(),
            initial_fen: game.positions[0].clone(),
            main_line_uci: copy_strings(&game.moves),
            headers: copy_headers(&game.headers),
        }
    }

    pub fn next_ply(&mut self) -> (res: bool)
        requires
            session_wf(old(self)@),
        ensures
            (res, final(self)@) == next_ply_spec(old(self)@),
            session_wf(final(self)@),
    {
        let game = &self.games[self.current_game_index];
        assert(game@ == self@.games[self@.game as int]);
        if self.current_ply_index < game.positions.len() - 1 {
            self.current_ply_index = self.current_ply_index + 1;
            true
        } else {
            false
        }
    }

    pub fn previous_ply(&mut self) -> (res: bool)
        requires
            session_wf(old(self)@),
        ensures
            (res, final(self)@) == previous_ply_spec(old(self)@),
            session_wf(final(self)@),
    {
        if self.current_ply_index > 0 {
            self.current_ply_index = self.current_ply_index - 1;
            true
        } else {
            false
        }
    }

    pub fn next_game(&mut self) -> (res: bool)
        requires
            session_wf(old(self)@),
        ensures
            (res, final(self)@) == next_game_spec(old(self)@),
            session_wf(final(self)@),
    {
        if self.current_game_index < self.games.len() - 1 {
            self.current_game_index = self.current_game_index + 1;
            self.current_ply_index = 0;
            true
        } else {
            false
        }
    }

    pub fn previous_game(&mut self) -> (res: bool)
        requires
            session_wf(old(self)@),
        ensures
            (res, final(self)@) == previous_game_spec(old(self)@),
            session_wf(final(self)@),
    {
        if self.current_game_index > 0 {
            self.current_game_index = self.current_game_index - 1;
            self.current_ply_index = 0;
            true
        } else {
            false
        }
    }
}

// ───────────────────────── laws ─────────────────────────

/// Stepping one ply back after a successful step forward restores the session.
pub proof fn law_previous_ply_undoes_next_ply(v: SessionView)
    requires
        session_wf(v),
        next_ply_spec(v).0,
    ensures
        previous_ply_spec(next_ply_spec(v).1) == (true, v),
{
    assert(previous_ply_spec(next_ply_spec(v).1).1 == v);
}

/// Stepping one ply forward after a successful step back restores the session.
pub proof fn law_next_ply_undoes_previous_ply(v: SessionView)
    requires
        session_wf(v),
        previous_ply_spec(v).0,
    ensures
        next_ply_spec(previous_ply_spec(v).1) == (true, v),
{
    assert(next_ply_spec(previous_ply_spec(v).1).1 == v);
}

/// Navigation keeps the session well formed and never changes its games.
pub proof fn law_navigation_keeps_games(v: SessionView)
    requires
        session_wf(v),
    ensures
        session_wf(next_ply_spec(v).1) && next_ply_spec(v).1.games == v.games,
        session_wf(previous_ply_spec(v).1) && previous_ply_spec(v).1.games == v.games,
        session_wf(next_game_spec(v).1) && next_game_spec(v).1.games == v.games,
        session_wf(previous_game_spec(v).1) && previous_game_spec(v).1.games == v.games,
{
}

/// Games that replay are accepted by a review session, which starts at the
/// first game's initial board.
pub proof fn law_replayable_games_open_a_session(gs: Seq<GameView>)
    requires
        gs.len() > 0,
        games_replay_ok(gs),
    ensures
        new_session_spec(gs) == Ok::<SessionView, Seq<char>>(
            SessionView { games: gs, sources: identity_indices(gs.len()), game: 0, ply: 0 },
        ),
{
    lemma_check_replayable(gs, 0);
}

proof fn lemma_check_replayable(gs: Seq<GameView>, k: int)
    requires
        0 <= k <= gs.len(),
        games_replay_ok(gs),
    ensures
        check_games_from(gs, k) == Ok::<(), Seq<char>>(()),
    decreases gs.len() - k,
{
    if k < gs.len() {
        assert(game_replay_ok(gs[k]));
        lemma_check_replayable(gs, k + 1);
    }
}

proof fn lemma_replay_own_line(g: GameView, k: int)
    requires
        game_replay_ok(g),
        0 <= k <= g.moves.len(),
    ensures
        replay_from(g.moves, k, g.moves.take(k), g.positions.take(k + 1)) == Ok::<
            (Seq<Seq<char>>, Seq<Seq<char>>),
            Seq<char>,
        >((g.moves, g.positions)),
    decreases g.moves.len() - k,
{
    if k == g.moves.len() {
        assert(g.moves.take(k) =~= g.moves);
        assert(g.positions.take(k + 1) =~= g.positions);
    } else {
        let ps = g.positions.take(k + 1);
        assert(ps.last() == g.positions[k]);
        assert(is_uci(g.moves[k]));
        assert(g.moves.take(k).push(g.moves[k]) =~= g.moves.take(k + 1));
        assert(ps.push(board_after(g.positions[k], g.moves[k])) =~= g.positions.take(k + 2));
        lemma_replay_own_line(g, k + 1);
    }
}

/// A snapshot of a position in a game that replays reconstructs that very
/// game: same tags, same moves, same boards.
pub proof fn law_snapshot_reconstructs_current_game(v: SessionView)
    requires
        session_wf(v),
        games_replay_ok(v.games),
    ensures
        reconstruct_spec(snapshot_spec(v)) == Ok::<GameView, Seq<char>>(v.games[v.game as int]),
{
    let g = v.games[v.game as int];
    assert(game_replay_ok(g));
    assert(is_board(g.positions[0]));
    assert(is_board(g.positions[v.ply as int]));
    lemma_replay_own_line(g, 0);
    assert(g.moves.take(0) =~= Seq::<Seq<char>>::empty());
    assert(g.positions.take(1) =~= seq![g.positions[0]]);
}

/// Reopening a captured snapshot gives a one-game session at the same board,
/// whose own snapshots keep the source game's index.
pub proof fn law_snapshot_reopens_at_the_same_board(v: SessionView)
    requires
        session_wf(v),
        games_replay_ok(v.games),
    ensures
        ({
            let s = snapshot_spec(v);
            let w = SessionView {
                games: seq![v.games[v.game as int]],
                sources: seq![s.source_game_index as usize],
                game: 0,
                ply: s.ply_index,
            };
            &&& reconstruct_spec(s) == Ok::<GameView, Seq<char>>(v.games[v.game as int])
            &&& session_wf(w)
            &&& current_board_of(w) == current_board_of(v)
            &&& snapshot_spec(w) == s
        }),
{
    law_snapshot_reconstructs_current_game(v);
}

} // verus!
