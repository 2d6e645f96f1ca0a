//! The puzzle record, as the Lichess puzzle database describes one.

use vstd::prelude::*;
use crate::text::{count_words, words};

verus! {

/// One puzzle: a position, the moves that make it (the first one is the
/// opponent's move that sets the puzzle; the rest are the solution with the
/// opponent's replies), and its catalogue data.
#[derive(Debug, Clone, Default)]
pub struct Puzzle {
    pub puzzle_id: String,
    pub fen: String,
    pub moves: String,
    pub rating: i32,
    pub rating_deviation: i32,
    pub popularity: i32,
    pub nb_plays: i32,
    pub themes: String,
    pub game_url: String,
    pub opening: String,
}

/// A puzzle with its texts taken as character sequences.
pub struct PuzzleView {
    pub puzzle_id: Seq<char>,
    pub fen: Seq<char>,
    pub moves: Seq<char>,
    pub rating: i32,
    pub rating_deviation: i32,
    pub popularity: i32,
    pub nb_plays: i32,
    pub themes: Seq<char>,
    pub game_url: Seq<char>,
    pub opening: Seq<char>,
}

impl View for Puzzle {
    type V = PuzzleView;

    open spec fn view(&self) -> PuzzleView {
        PuzzleView {
            puzzle_id: self.puzzle_id@,
            fen: self.fen@,
            moves: self.moves@,
            rating: self.rating,
            rating_deviation: self.rating_deviation,
            popularity: self.popularity,
            nb_plays: self.nb_plays,
            themes: self.themes@,
            game_url: self.game_url@,
            opening: self.opening@,
        }
    }
}

/// The puzzles of a sequence, each taken by its view.
pub open spec fn puzzles_view(v: Seq<Puzzle>) -> Seq<PuzzleView> {
    v.map_values(|p: Puzzle| p@)
}

impl Puzzle {
    /// How many moves the solver plays: every second move after the one that
    /// sets the puzzle.
    pub fn solver_move_count(&self) -> (res: usize)
        ensures
            res == words(self.moves@).len() / 2,
    {
        count_words(self.moves.as_str()) / 2
    }
}

} // verus!
