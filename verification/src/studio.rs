//! The studio's answers to searches and favourite lookups: a puzzle list
//! replaces the loaded one only when it answers the latest search, and a
//! favourite mark is shown only for the puzzle and the request it answers.

use vstd::prelude::*;
use crate::chess_rules::{
    board_color_at, board_side_to_move, color_at, fen_read, move_parts,
    move_source, side_to_move, start_fen, start_position, PieceKind,
};
use crate::config::GameMode;
use crate::coordination::{next_generation, wrapping_next};
use crate::models::{Puzzle, PuzzleView};
use crate::puzzle_play::{
    batch_error, current_moves, fresh_session, lemma_line_texts, lemma_shape_correctable, load_puzzle_spec, outcome_view, play_spec,
    san_correct_ep, san_correct_ep_spec, puzzle_playable, session_wf, GameStatus, MoveOutcome,
    PuzzleFeedback, PuzzleSession, SessionView,
};
use crate::import_args::{parse_usize, parse_usize_spec};
use crate::text::{chars_of, decimal, seq_eq_str, split_words, string_from_chars};

verus! {

/// Where a list of puzzles came from.
#[derive(Clone, Copy, Debug, PartialEq, Eq, Structural)]
pub enum SearchSource {
    Lichess,
    Favorites,
}

/// What an answer to a search did.
#[derive(Clone, Copy, Debug, PartialEq, Eq, Structural)]
pub enum SearchStep {
    /// It answered an older search and was dropped.
    Ignored,
    /// The search failed, or its list could not be played; nothing else
    /// changed.
    Failed,
    /// The search found nothing: the board is cleared.
    NoPuzzles,
    /// The list replaced the loaded puzzles and its first puzzle is shown.
    Loaded,
}

/// A lookup of whether a puzzle is a favourite, with the number of the
/// request.
#[derive(Debug)]
pub struct FavoriteLookup {
    pub puzzle_id: String,
    pub generation: u64,
}

/// A switch of a puzzle's favourite mark, with the number of the request.
#[derive(Debug)]
pub struct FavoriteToggle {
    pub puzzle: Puzzle,
    pub generation: u64,
}

/// The puzzle session with the numbers of the latest search and favourite
/// requests, the favourite mark of the current puzzle (`None` while it is
/// not known), whether a search is running, and the text of the last error.
pub struct PuzzleStudio {
    pub session: PuzzleSession,
    pub search_generation: u64,
    pub favorite_generation: u64,
    pub current_favorite: Option<bool>,
    pub searching: bool,
    pub status_detail: String,
}

/// The puzzle whose review and favourite mark are shown: the current one,
/// while there are puzzles to solve.
pub open spec fn reviewable(v: SessionView) -> Option<PuzzleView> {
    if v.game_status != GameStatus::NoPuzzles && 0 <= v.current_puzzle < v.puzzles.len() {
        Some(v.puzzles[v.current_puzzle])
    } else {
        None
    }
}

/// The message shown when a search of a source fails.
pub open spec fn failed_feedback(source: SearchSource) -> PuzzleFeedback {
    match source {
        SearchSource::Lichess => PuzzleFeedback::SearchFailed,
        SearchSource::Favorites => PuzzleFeedback::FavoritesFailed,
    }
}

/// The board after a search that found nothing.
pub open spec fn cleared(v: SessionView) -> SessionView {
    SessionView {
        board: start_fen(),
        from_square: None,
        last_move_from: None,
        last_move_to: None,
        game_mode: GameMode::Puzzle,
        game_status: GameStatus::NoPuzzles,
        feedback: PuzzleFeedback::NoPuzzleFound,
        ..v
    }
}

/// The first puzzle of a new list shown on the board, with no square
/// selected.
pub open spec fn batch_loaded(old_v: SessionView, new_v: SessionView) -> bool {
    new_v == (SessionView {
        from_square: None,
        ..load_puzzle_spec(
            SessionView { puzzles: new_v.puzzles, current_puzzle: 0, puzzle_number_ui: seq!['1'], ..old_v },
            0,
            seq!['1'],
        )
    })
}

pub open spec fn all_playable(ps: Seq<Puzzle>) -> bool {
    ps.len() > 0 && forall|i: int| 0 <= i < ps.len() ==> puzzle_playable(#[trigger] ps[i]@)
}

/// A click on a square with none selected: a piece of the side to move, on
/// the board in use while a puzzle is played or on the analysis board, is
/// selected (and the hint is dropped); any other click does nothing.
pub open spec fn select_spec(v: SessionView, pos: int) -> SessionView {
    let board = if v.game_mode == GameMode::Analysis {
        v.analysis_board
    } else {
        v.board
    };
    if (v.game_status == GameStatus::Playing || v.game_mode == GameMode::Analysis) && board_color_at(
        board,
        pos as u8,
    ) == Some(board_side_to_move(board)) {
        SessionView { hint_square: None, from_square: Some(pos as u8), ..v }
    } else {
        v
    }
}

/// A move can be asked of the board: on the analysis board, while a puzzle
/// is played, or with no puzzles loaded.
pub open spec fn move_allowed(v: SessionView) -> bool {
    v.game_mode == GameMode::Analysis || v.game_status == GameStatus::Playing || v.puzzles.len() == 0
}

/// The square the hint points at: where the solver's next move starts, when
/// the puzzle has one.
pub open spec fn hint_spec(v: SessionView) -> Option<u8> {
    let moves = current_moves(v);
    if moves.len() > v.current_puzzle_move {
        Some(move_source(moves[v.current_puzzle_move]) as u8)
    } else {
        None
    }
}

/// The puzzle a typed number points at: its index when the number names one
/// of the puzzles (counting from 1), else the current one.
pub open spec fn jump_target(v: SessionView) -> int {
    match parse_usize_spec(v.puzzle_number_ui) {
        Some(i) => if 0 < i <= v.puzzles.len() {
            i - 1
        } else {
            v.current_puzzle
        },
        None => v.current_puzzle,
    }
}

fn copy_puzzle(p: &Puzzle) -> (res: Puzzle)
    ensures
        res@ == p@,
{
    Puzzle {
        puzzle_id: p.puzzle_id.clone(),
        fen: p.fen.clone(),
        moves: p.moves.clone(),
        rating: p.rating,
        rating_deviation: p.rating_deviation,
        popularity: p.popularity,
        nb_plays: p.nb_plays,
        themes: p.themes.clone(),
        game_url: p.game_url.clone(),
        opening: p.opening.clone(),
    }
}

impl PuzzleStudio {
    /// The studio keeps a well-formed session.
    pub open spec fn wf(&self) -> bool {
        session_wf(self.session@)
    }

    /// A studio with no puzzles, no request made and nothing known.
    pub fn new() -> (res: Self)
        ensures
            res.wf(),
            res.session@ == fresh_session(),
            res.search_generation == 0,
            res.favorite_generation == 0,
            res.current_favorite is None,
            !res.searching,
            res.status_detail@.len() == 0,
    {
        PuzzleStudio {
            session: PuzzleSession::new(),
            search_generation: 0,
            favorite_generation: 0,
            current_favorite: None,
            searching: false,
            status_detail: String::new(),
        }
    }

    /// The puzzle being solved, while there is one.
    pub fn current_reviewable_puzzle(&self) -> (res: Option<&Puzzle>)
        ensures
            match reviewable(self.session@) {
                Some(p) => (res matches Some(q) && q@ == p),
                None => res is None,
            },
    {
        if self.session.game_status != GameStatus::NoPuzzles && self.session.current_puzzle
            < self.session.puzzles.len() {
            Some(&self.session.puzzles[self.session.current_puzzle])
        } else {
            None
        }
    }

    /// Whether the puzzle being solved has the given id.
    pub fn current_puzzle_matches(&self, puzzle_id: &str) -> (res: bool)
        ensures
            res == (reviewable(self.session@) matches Some(p) && p.puzzle_id == puzzle_id@),
    {
        match self.current_reviewable_puzzle() {
            Some(p) => seq_eq_str(&chars_of(p.puzzle_id.as_str()), puzzle_id),
            None => false,
        }
    }

    /// Numbers a new search: only its answer will count.
    pub fn next_search_generation(&mut self) -> (res: u64)
        ensures
            final(self).search_generation == wrapping_next(old(self).search_generation),
            res == final(self).search_generation,
            final(self).session@ == old(self).session@,
            final(self).favorite_generation == old(self).favorite_generation,
            final(self).current_favorite == old(self).current_favorite,
            final(self).searching == old(self).searching,
            final(self).status_detail@ == old(self).status_detail@,
    {
        next_generation(&mut self.search_generation)
    }

    /// Numbers a new favourite request: only its answer will count.
    pub fn next_favorite_generation(&mut self) -> (res: u64)
        ensures
            final(self).favorite_generation == wrapping_next(old(self).favorite_generation),
            res == final(self).favorite_generation,
            final(self).session@ == old(self).session@,
            final(self).search_generation == old(self).search_generation,
            final(self).current_favorite == old(self).current_favorite,
            final(self).searching == old(self).searching,
            final(self).status_detail@ == old(self).status_detail@,
    {
        next_generation(&mut self.favorite_generation)
    }

    /// Forgets the favourite mark of the puzzle shown and, when a puzzle is
    /// being solved, asks for it anew under a new request number.
    pub fn refresh_current_favorite_status(&mut self) -> (res: Option<FavoriteLookup>)
        ensures
            final(self).session@ == old(self).session@,
            final(self).current_favorite is None,
            final(self).search_generation == old(self).search_generation,
            final(self).searching == old(self).searching,
            final(self).status_detail@ == old(self).status_detail@,
            match reviewable(old(self).session@) {
                None => res is None && final(self).favorite_generation == old(self).favorite_generation,
                Some(p) => final(self).favorite_generation == wrapping_next(old(self).favorite_generation) && (res matches Some(
                    l,
                ) && l.puzzle_id@ == p.puzzle_id && l.generation == final(self).favorite_generation),
            },
    {
        let puzzle_id = match self.current_reviewable_puzzle() {
            Some(p) => p.puzzle_id.clone(),
            None => {
                self.current_favorite = None;
                return None;
            },
        };
        let generation = self.next_favorite_generation();
        self.current_favorite = None;
        Some(FavoriteLookup { puzzle_id, generation })
    }

    /// Takes in the answer of a search. An answer to an older search is
    /// dropped. Otherwise the search is over: a failure is reported, an
    /// empty list clears the board, and a list whose puzzles can all be
    /// played replaces the loaded one, in a random order, showing its first
    /// puzzle (a list that cannot be played is reported and changes
    /// nothing else).
    pub fn search_result(&mut self, generation: u64, result: Result<Vec<Puzzle>, String>, source: SearchSource) -> (res: SearchStep)
        requires
            old(self).wf(),
        ensures
            final(self).wf(),
            final(self).search_generation == old(self).search_generation,
            final(self).favorite_generation == old(self).favorite_generation,
            generation != old(self).search_generation ==> res == SearchStep::Ignored && final(self).session@ == old(
                self,
            ).session@ && final(self).current_favorite == old(self).current_favorite && final(self).searching
                == old(self).searching && final(self).status_detail@ == old(self).status_detail@,
            generation == old(self).search_generation ==> !final(self).searching,
            generation == old(self).search_generation ==> match result {
                Err(e) => res == SearchStep::Failed && final(self).session@ == (SessionView {
                    feedback: failed_feedback(source),
                    ..old(self).session@
                }) && final(self).status_detail@ == e@ && final(self).current_favorite == old(
                    self,
                ).current_favorite,
                Ok(ps) => if ps@.len() == 0 {
                    res == SearchStep::NoPuzzles && final(self).session@ == cleared(old(self).session@)
                        && final(self).current_favorite is None && final(self).status_detail@
                        == old(self).status_detail@
                } else if all_playable(ps@) {
                    res == SearchStep::Loaded && batch_loaded(old(self).session@, final(self).session@)
                        && final(self).session.puzzles@.to_multiset() == ps@.to_multiset()
                        && final(self).current_favorite == old(self).current_favorite
                        && final(self).status_detail@ == old(self).status_detail@
                } else {
                    res == SearchStep::Failed && final(self).session@ == (SessionView {
                        feedback: failed_feedback(source),
                        ..old(self).session@
                    }) && final(self).current_favorite == old(self).current_favorite
                        && final(self).status_detail@ == batch_error(ps@.map_values(|p: Puzzle| p@))
                },
            },
    {
        if generation != self.search_generation {
            return SearchStep::Ignored;
        }
        self.searching = false;
        let puzzles = match result {
            Ok(p) => p,
            Err(e) => {
                self.session.feedback = match source {
                    SearchSource::Lichess => PuzzleFeedback::SearchFailed,
                    SearchSource::Favorites => PuzzleFeedback::FavoritesFailed,
                };
                self.status_detail = e;
                return SearchStep::Failed;
            },
        };
        if puzzles.len() == 0 {
            self.session.from_square = None;
            self.session.game_mode = GameMode::Puzzle;
            self.session.board = start_position();
            self.session.last_move_from = None;
            self.session.last_move_to = None;
            self.session.game_status = GameStatus::NoPuzzles;
            self.session.feedback = PuzzleFeedback::NoPuzzleFound;
            self.current_favorite = None;
            return SearchStep::NoPuzzles;
        }
        let ghost given = puzzles@;
        match self.session.replace_puzzle_batch(puzzles, true) {
            Ok(()) => {},
            Err(e) => {
                self.session.feedback = match source {
                    SearchSource::Lichess => PuzzleFeedback::SearchFailed,
                    SearchSource::Favorites => PuzzleFeedback::FavoritesFailed,
                };
                self.status_detail = e;
                return SearchStep::Failed;
            },
        }
        self.session.from_square = None;
        SearchStep::Loaded
    }

    /// Takes in a list of a project's selected puzzles: an empty list
    /// changes nothing, a list that can be played replaces the loaded one in
    /// its own order (the answer is `Some(true)`), and one that cannot is
    /// reported (`Some(false)`).
    pub fn load_project_puzzles(&mut self, puzzles: Vec<Puzzle>) -> (res: Option<bool>)
        requires
            old(self).wf(),
        ensures
            final(self).wf(),
            final(self).search_generation == old(self).search_generation,
            final(self).favorite_generation == old(self).favorite_generation,
            final(self).current_favorite == old(self).current_favorite,
            final(self).searching == old(self).searching,
            puzzles@.len() == 0 ==> res is None && final(self).session@ == old(self).session@
                && final(self).status_detail@ == old(self).status_detail@,
            puzzles@.len() > 0 && all_playable(puzzles@) ==> res == Some(true) && batch_loaded(
                old(self).session@,
                final(self).session@,
            ) && final(self).session.puzzles@ == puzzles@ && final(self).status_detail@ == old(
                self,
            ).status_detail@,
            puzzles@.len() > 0 && !all_playable(puzzles@) ==> res == Some(false) && final(self).session@ == (
            SessionView { feedback: PuzzleFeedback::BatchRefused, ..old(self).session@ })
                && final(self).status_detail@ == batch_error(puzzles@.map_values(|p: Puzzle| p@)),
    {
        if puzzles.len() == 0 {
            return None;
        }
        match self.session.replace_puzzle_batch(puzzles, false) {
            Ok(()) => {},
            Err(e) => {
                self.session.feedback = PuzzleFeedback::BatchRefused;
                self.status_detail = e;
                return Some(false);
            },
        }
        self.session.from_square = None;
        Some(true)
    }

    /// Takes in the answer to a favourite lookup or switch: it counts only
    /// for the latest favourite request and the puzzle being solved; a
    /// failure leaves the mark unknown and is reported.
    pub fn favorite_reply(&mut self, puzzle_id: &str, generation: u64, result: Result<bool, String>)
        ensures
            final(self).search_generation == old(self).search_generation,
            final(self).favorite_generation == old(self).favorite_generation,
            final(self).searching == old(self).searching,
            final(self).session.puzzles@ == old(self).session.puzzles@,
            ({
                let current = generation == old(self).favorite_generation && (reviewable(old(self).session@) matches Some(
                    p,
                ) && p.puzzle_id == puzzle_id@);
                &&& !current ==> final(self).session@ == old(self).session@ && final(self).current_favorite
                    == old(self).current_favorite && final(self).status_detail@ == old(self).status_detail@
                &&& current ==> match result {
                    Ok(b) => final(self).current_favorite == Some(b) && final(self).session@ == old(self).session@
                        && final(self).status_detail@ == old(self).status_detail@,
                    Err(e) => final(self).current_favorite is None && final(self).session@ == (SessionView {
                        feedback: PuzzleFeedback::FavoritesFailed,
                        ..old(self).session@
                    }) && final(self).status_detail@ == e@,
                }
            }),
            session_wf(old(self).session@) ==> session_wf(final(self).session@),
    {
        if generation != self.favorite_generation || !self.current_puzzle_matches(puzzle_id) {
            return;
        }
        match result {
            Ok(b) => {
                self.current_favorite = Some(b);
            },
            Err(e) => {
                self.current_favorite = None;
                self.session.feedback = PuzzleFeedback::FavoritesFailed;
                self.status_detail = e;
            },
        }
    }

    /// The favourite button: with a puzzle being solved and its mark known,
    /// the mark becomes unknown and a switch is asked for under a new
    /// request number; otherwise nothing happens.
    pub fn favorite_action(&mut self) -> (res: Option<FavoriteToggle>)
        ensures
            final(self).session@ == old(self).session@,
            final(self).search_generation == old(self).search_generation,
            final(self).searching == old(self).searching,
            final(self).status_detail@ == old(self).status_detail@,
            match reviewable(old(self).session@) {
                Some(p) if old(self).current_favorite is Some => final(self).favorite_generation
                    == wrapping_next(old(self).favorite_generation) && final(self).current_favorite is None && (res matches Some(
                    t,
                ) && t.puzzle@ == p && t.generation == final(self).favorite_generation),
                _ => res is None && final(self).favorite_generation == old(self).favorite_generation
                    && final(self).current_favorite == old(self).current_favorite,
            },
    {
        let puzzle = match self.current_reviewable_puzzle() {
            Some(p) => copy_puzzle(p),
            None => {
                return None;
            },
        };
        if self.current_favorite.is_none() {
            return None;
        }
        let generation = self.next_favorite_generation();
        self.current_favorite = None;
        Some(FavoriteToggle { puzzle, generation })
    }
    /// Plays a move on the board in use (see `PuzzleSession::verify_and_make_move`).
    /// When the last puzzle is done the favourite mark is forgotten; when
    /// another puzzle is loaded its mark is asked for.
    pub fn play_move(&mut self, from: u8, to: u8, promo_piece: PieceKind, auto_load_next: bool) -> (res: (
        MoveOutcome,
        Option<FavoriteLookup>,
    ))
        requires
            old(self).wf(),
            from < 64,
            to < 64,
            move_allowed(old(self).session@),
        ensures
            final(self).wf(),
            final(self).session@ == play_spec(old(self).session@, from as int, to as int, promo_piece, auto_load_next).0,
            outcome_view(res.0) == play_spec(old(self).session@, from as int, to as int, promo_piece, auto_load_next).1,
            final(self).search_generation == old(self).search_generation,
            final(self).searching == old(self).searching,
            final(self).status_detail@ == old(self).status_detail@,
            res.0.puzzle_changed ==> final(self).current_favorite is None && (match reviewable(final(self).session@) {
                Some(p) => final(self).favorite_generation == wrapping_next(old(self).favorite_generation) && (res.1 matches Some(
                    l,
                ) && l.puzzle_id@ == p.puzzle_id && l.generation == final(self).favorite_generation),
                None => res.1 is None && final(self).favorite_generation == old(self).favorite_generation,
            }),
            !res.0.puzzle_changed ==> res.1 is None && final(self).favorite_generation == old(
                self,
            ).favorite_generation && final(self).current_favorite == (if old(self).session@.game_status
                != GameStatus::NoPuzzles && final(self).session@.game_status == GameStatus::NoPuzzles {
                None
            } else {
                old(self).current_favorite
            }),
    {
        let was_empty = self.session.game_status == GameStatus::NoPuzzles;
        let outcome = self.session.verify_and_make_move(from, to, promo_piece, auto_load_next);
        if !was_empty && self.session.game_status == GameStatus::NoPuzzles {
            self.current_favorite = None;
        }
        if outcome.puzzle_changed {
            let lookup = self.refresh_current_favorite_status();
            (outcome, lookup)
        } else {
            (outcome, None)
        }
    }

    /// A click on a square: with no square selected it may select one; with
    /// another square selected it plays the move between them; a second
    /// click on the selected square keeps it selected.
    pub fn select_square(&mut self, pos: u8, promo_piece: PieceKind, auto_load_next: bool) -> (res: (
        Option<MoveOutcome>,
        Option<FavoriteLookup>,
    ))
        requires
            old(self).wf(),
            pos < 64,
            match old(self).session.from_square {
                Some(f) => f != pos ==> f < 64 && move_allowed(old(self).session@),
                None => true,
            },
        ensures
            final(self).wf(),
            final(self).search_generation == old(self).search_generation,
            final(self).searching == old(self).searching,
            final(self).status_detail@ == old(self).status_detail@,
            match old(self).session.from_square {
                None => final(self).session@ == select_spec(old(self).session@, pos as int) && res.0 is None
                    && res.1 is None && final(self).current_favorite == old(self).current_favorite
                    && final(self).favorite_generation == old(self).favorite_generation,
                Some(f) => if f == pos {
                    final(self).session@ == (SessionView { from_square: Some(pos), ..old(self).session@ })
                        && res.0 is None && res.1 is None && final(self).current_favorite == old(
                        self,
                    ).current_favorite && final(self).favorite_generation == old(self).favorite_generation
                } else {
                    final(self).session@ == play_spec(old(self).session@, f as int, pos as int, promo_piece, auto_load_next).0
                        && (res.0 matches Some(o) && outcome_view(o) == play_spec(
                        old(self).session@,
                        f as int,
                        pos as int,
                        promo_piece,
                        auto_load_next,
                    ).1)
                },
            },
    {
        match self.session.from_square {
            None => {
                let analysis = self.session.game_mode == GameMode::Analysis;
                let board = if analysis {
                    self.session.analysis_board.clone()
                } else {
                    self.session.board.clone()
                };
                let side = side_to_move(board.as_str());
                let color = color_at(board.as_str(), pos);
                if (self.session.game_status == GameStatus::Playing || analysis) && color == Some(side) {
                    self.session.hint_square = None;
                    self.session.from_square = Some(pos);
                }
                (None, None)
            },
            Some(f) => if f != pos {
                let (outcome, lookup) = self.play_move(f, pos, promo_piece, auto_load_next);
                (Some(outcome), lookup)
            } else {
                self.session.from_square = Some(pos);
                (None, None)
            },
        }
    }
    /// Shows where the solver's next move starts, or drops the hint when
    /// the puzzle has no move left.
    pub fn show_hint(&mut self)
        requires
            old(self).wf(),
            old(self).session@.puzzles.len() > 0,
        ensures
            final(self).wf(),
            final(self).session@ == (SessionView { hint_square: hint_spec(old(self).session@), ..old(self).session@ }),
            final(self).current_favorite == old(self).current_favorite,
            final(self).favorite_generation == old(self).favorite_generation,
            final(self).search_generation == old(self).search_generation,
    {
        let ghost v = self.session@;
        let index = self.session.current_puzzle;
        assert(v.puzzles[index as int] == self.session.puzzles@[index as int]@);
        let chars = chars_of(self.session.puzzles[index].moves.as_str());
        let moves = split_words(&chars);
        let cpm = self.session.current_puzzle_move;
        if moves.len() > cpm {
            proof {
                let ms = current_moves(v);
                assert(puzzle_playable(v.puzzles[index as int]));
                lemma_line_texts(fen_read(v.puzzles[index as int].fen)->Ok_0, ms, 0, cpm as int);
                assert(moves@[cpm as int]@ == ms[cpm as int]);
            }
            let text = string_from_chars(&moves[cpm]);
            let (source, _, _) = move_parts(text.as_str());
            self.session.hint_square = Some(source);
        } else {
            self.session.hint_square = None;
        }
    }

    /// Goes to the next puzzle and asks for its favourite mark.
    pub fn show_next_puzzle(&mut self) -> (res: Option<FavoriteLookup>)
        requires
            old(self).wf(),
            old(self).session@.current_puzzle + 1 < old(self).session@.puzzles.len(),
        ensures
            final(self).wf(),
            final(self).session@ == load_puzzle_spec(
                old(self).session@,
                old(self).session@.current_puzzle + 1,
                decimal((old(self).session@.current_puzzle + 2) as nat),
            ),
            final(self).current_favorite is None,
            final(self).favorite_generation == wrapping_next(old(self).favorite_generation),
            res matches Some(l) && l.generation == final(self).favorite_generation && l.puzzle_id@
                == old(self).session@.puzzles[old(self).session@.current_puzzle + 1].puzzle_id,
            final(self).search_generation == old(self).search_generation,
    {
        self.session.load_puzzle(true);
        self.refresh_current_favorite_status()
    }

    /// In puzzle mode, goes back to the previous puzzle and asks for its
    /// favourite mark; otherwise nothing happens.
    pub fn show_previous_puzzle(&mut self) -> (res: Option<FavoriteLookup>)
        requires
            old(self).wf(),
        ensures
            final(self).wf(),
            final(self).search_generation == old(self).search_generation,
            old(self).session@.current_puzzle > 0 && old(self).session@.game_mode == GameMode::Puzzle && old(
                self,
            ).session@.puzzles.len() > 0 ==> final(self).session@ == load_puzzle_spec(
                old(self).session@,
                old(self).session@.current_puzzle - 1,
                decimal(old(self).session@.current_puzzle as nat),
            ) && final(self).current_favorite is None && final(self).favorite_generation == wrapping_next(
                old(self).favorite_generation,
            ) && (res matches Some(l) && l.generation == final(self).favorite_generation && l.puzzle_id@
                == old(self).session@.puzzles[old(self).session@.current_puzzle - 1].puzzle_id),
            !(old(self).session@.current_puzzle > 0 && old(self).session@.game_mode == GameMode::Puzzle && old(
                self,
            ).session@.puzzles.len() > 0) ==> res is None && final(self).session@ == old(self).session@
                && final(self).current_favorite == old(self).current_favorite && final(self).favorite_generation
                == old(self).favorite_generation,
    {
        if self.session.current_puzzle > 0 && self.session.game_mode == GameMode::Puzzle
            && self.session.puzzles.len() > 0 {
            let ghost v = self.session@;
            self.session.dec_puzzle_counter();
            let ghost w = self.session@;
            self.session.game_status = GameStatus::NoPuzzles;
            proof {
                assert(session_wf(self.session@));
            }
            self.session.load_puzzle(false);
            assert(self.session@ == load_puzzle_spec(v, v.current_puzzle - 1, decimal(v.current_puzzle as nat)));
            self.refresh_current_favorite_status()
        } else {
            None
        }
    }

    /// Goes to the puzzle whose number was typed (the current one when the
    /// number names none), loads it afresh and asks for its favourite mark.
    pub fn jump_to_puzzle(&mut self) -> (res: Option<FavoriteLookup>)
        requires
            old(self).wf(),
            old(self).session@.puzzles.len() > 0,
        ensures
            final(self).wf(),
            final(self).session@ == load_puzzle_spec(
                SessionView { current_puzzle: jump_target(old(self).session@), ..old(self).session@ },
                jump_target(old(self).session@),
                old(self).session@.puzzle_number_ui,
            ),
            final(self).current_favorite is None,
            final(self).favorite_generation == wrapping_next(old(self).favorite_generation),
            res matches Some(l) && l.generation == final(self).favorite_generation && l.puzzle_id@
                == old(self).session@.puzzles[jump_target(old(self).session@)].puzzle_id,
            final(self).search_generation == old(self).search_generation,
    {
        let ghost v = self.session@;
        let typed = parse_usize(&chars_of(self.session.puzzle_number_ui.as_str()));
        let target = match typed {
            Some(i) => if i > 0 && i <= self.session.puzzles.len() {
                i - 1
            } else {
                self.session.current_puzzle
            },
            None => self.session.current_puzzle,
        };
        self.session.game_status = GameStatus::NoPuzzles;
        self.session.current_puzzle = target;
        self.session.load_puzzle(false);
        assert(self.session@ == load_puzzle_spec(
            SessionView { current_puzzle: jump_target(v), ..v },
            jump_target(v),
            v.puzzle_number_ui,
        ));
        self.refresh_current_favorite_status()
    }

    /// Starts the current puzzle again.
    pub fn redo_puzzle(&mut self)
        requires
            old(self).wf(),
            old(self).session@.puzzles.len() > 0,
        ensures
            final(self).wf(),
            final(self).session@ == load_puzzle_spec(
                old(self).session@,
                old(self).session@.current_puzzle,
                old(self).session@.puzzle_number_ui,
            ),
            final(self).current_favorite == old(self).current_favorite,
            final(self).favorite_generation == old(self).favorite_generation,
            final(self).search_generation == old(self).search_generation,
    {
        let ghost v = self.session@;
        self.session.game_status = GameStatus::NoPuzzles;
        assert(self.session@.puzzles == v.puzzles && self.session@.history == v.history);
        self.session.load_puzzle(false);
        assert(self.session@ == load_puzzle_spec(v, v.current_puzzle, v.puzzle_number_ui));
    }

    /// Switches between solving and analysing; the analysis starts from the
    /// puzzle's board.
    pub fn select_mode(&mut self, mode: GameMode)
        requires
            old(self).wf(),
        ensures
            final(self).wf(),
            mode == GameMode::Analysis ==> final(self).session@ == (SessionView {
                game_mode: mode,
                analysis_board: old(self).session@.board,
                ..old(self).session@
            }),
            mode == GameMode::Puzzle ==> final(self).session@ == (SessionView { game_mode: mode, ..old(self).session@ }),
            final(self).current_favorite == old(self).current_favorite,
            final(self).favorite_generation == old(self).favorite_generation,
            final(self).search_generation == old(self).search_generation,
    {
        self.session.game_mode = mode;
        if mode == GameMode::Analysis {
            self.session.analysis_board = self.session.board.clone();
        }
    }

    /// Drops the analysis moves played after the puzzle's position, when
    /// the analysis ends.
    pub fn truncate_analysis_history(&mut self)
        requires
            old(self).wf(),
        ensures
            final(self).wf(),
            final(self).session@ == (SessionView {
                history: if old(self).session@.history.len() > old(self).session@.current_puzzle_move {
                    old(self).session@.history.take(old(self).session@.current_puzzle_move)
                } else {
                    old(self).session@.history
                },
                ..old(self).session@
            }),
            final(self).current_favorite == old(self).current_favorite,
            final(self).favorite_generation == old(self).favorite_generation,
            final(self).search_generation == old(self).search_generation,
    {
        let ghost v = self.session@;
        let cpm = self.session.current_puzzle_move;
        self.session.history.truncate(cpm);
        assert(self.session@.history =~= (if v.history.len() > v.current_puzzle_move {
            v.history.take(v.current_puzzle_move)
        } else {
            v.history
        }));
    }

    /// Takes back the last analysis move (never one of the puzzle's own):
    /// the analysis board goes back one position, which is handed back for
    /// the engine; otherwise nothing happens.
    pub fn go_back_move(&mut self) -> (res: Option<String>)
        requires
            old(self).wf(),
            old(self).session@.game_mode == GameMode::Analysis && old(self).session@.history.len() > old(
                self,
            ).session@.current_puzzle_move ==> old(self).session@.history.len() >= 2,
        ensures
            final(self).wf(),
            final(self).current_favorite == old(self).current_favorite,
            final(self).favorite_generation == old(self).favorite_generation,
            final(self).search_generation == old(self).search_generation,
            ({
                let v = old(self).session@;
                if v.game_mode == GameMode::Analysis && v.history.len() > v.current_puzzle_move {
                    let h = v.history.drop_last();
                    final(self).session@ == (SessionView { history: h, analysis_board: h.last(), ..v }) && (res matches Some(
                        p,
                    ) && p@ == san_correct_ep_spec(h.last()))
                } else {
                    res is None && final(self).session@ == v
                }
            }),
    {
        if self.session.game_mode == GameMode::Analysis && self.session.history.len() > self.session.current_puzzle_move {
            let ghost v = self.session@;
            let _ = self.session.history.pop();
            let last = self.session.history.len() - 1;
            assert(self.session@.history =~= v.history.drop_last());
            assert(self.session@.history[last as int] == self.session.history@[last as int]@);
            let board = self.session.history[last].clone();
            proof {
                lemma_shape_correctable(board@);
            }
            let position = san_correct_ep(board.as_str());
            self.session.analysis_board = board;
            Some(position)
        } else {
            None
        }
    }
}

} // verus!
