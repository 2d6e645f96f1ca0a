//! What the interactive board shows: which square stands where, its colour,
//! the piece on it and whether it is highlighted.

use vstd::prelude::*;
use crate::chess_rules::{
    board_color_at, board_piece_at, color_at, is_board, piece_at, PieceKind, Side,
};
use crate::config::GameMode;
use crate::puzzle_play::GameStatus;

verus! {

/// One square of the board as drawn.
#[derive(Clone, Copy, Debug, PartialEq, Eq, Structural)]
pub struct SquareView {
    /// The square, numbered `8 * rank + file`.
    pub square: u8,
    /// Whether it is a light square.
    pub light: bool,
    /// The piece on it.
    pub piece: Option<PieceKind>,
    /// The colour of that piece.
    pub color: Option<Side>,
    /// Whether it is drawn highlighted.
    pub highlighted: bool,
}

/// White is drawn at the bottom when the puzzle's side is White, unless the
/// board is flipped (and then the other way round).
pub open spec fn white_at_bottom(side: Side, flip: bool) -> bool {
    (side == Side::White) != flip
}

/// The square drawn at row `row` from the top and column `col` from the
/// left: rank 8 on top and file a on the left with White at the bottom, the
/// reverse otherwise.
pub open spec fn square_at_cell(white_bottom: bool, row: int, col: int) -> int {
    if white_bottom {
        (7 - row) * 8 + col
    } else {
        row * 8 + (7 - col)
    }
}

/// Whether a square is drawn highlighted: while a puzzle is played, the
/// selected square, the squares of the last move and the hinted square;
/// otherwise only the selected square.
pub open spec fn highlighted_spec(
    mode: GameMode,
    status: GameStatus,
    from: Option<u8>,
    last_from: Option<u8>,
    last_to: Option<u8>,
    hint: Option<u8>,
    square: u8,
) -> bool {
    if mode == GameMode::Puzzle && status == GameStatus::Playing {
        from == Some(square) || last_from == Some(square) || last_to == Some(square) || hint
            == Some(square)
    } else {
        from == Some(square)
    }
}

/// The board drawn: the analysis board in analysis mode, else the puzzle's.
pub open spec fn shown_board(mode: GameMode, board: Seq<char>, analysis: Seq<char>) -> Seq<char> {
    if mode == GameMode::Analysis {
        analysis
    } else {
        board
    }
}

/// The `k`-th square drawn, reading the rows from the top and each row from
/// the left.
pub open spec fn cell_view(
    side: Side,
    flip: bool,
    mode: GameMode,
    status: GameStatus,
    board: Seq<char>,
    analysis: Seq<char>,
    from: Option<u8>,
    last_from: Option<u8>,
    last_to: Option<u8>,
    hint: Option<u8>,
    k: int,
) -> SquareView {
    let sq = square_at_cell(white_at_bottom(side, flip), k / 8, k % 8);
    SquareView {
        square: sq as u8,
        light: (sq / 8 + sq % 8) % 2 != 0,
        piece: board_piece_at(shown_board(mode, board, analysis), sq as u8),
        color: board_color_at(shown_board(mode, board, analysis), sq as u8),
        highlighted: highlighted_spec(mode, status, from, last_from, last_to, hint, sq as u8),
    }
}

/// The 64 squares of the board in the order they are drawn (rows from the
/// top, each from the left), each with its colour, its piece and whether it
/// is highlighted.
pub fn board_view_plan(
    side: Side,
    flip: bool,
    mode: GameMode,
    status: GameStatus,
    board: &str,
    analysis: &str,
    from: Option<u8>,
    last_from: Option<u8>,
    last_to: Option<u8>,
    hint: Option<u8>,
) -> (res: Vec<SquareView>)
    requires
        is_board(shown_board(mode, board@, analysis@)),
    ensures
        res@.len() == 64,
        forall|k: int|
            0 <= k < 64 ==> #[trigger] res@[k] == cell_view(
                side,
                flip,
                mode,
                status,
                board@,
                analysis@,
                from,
                last_from,
                last_to,
                hint,
                k,
            ),
{
    let white_bottom = (side == Side::White) != flip;
    let shown = if mode == GameMode::Analysis {
        analysis
    } else {
        board
    };
    let playing = mode == GameMode::Puzzle && status == GameStatus::Playing;
    let mut res: Vec<SquareView> = Vec::new();
    let mut k: u8 = 0;
    while k < 64
        invariant
            k <= 64,
            res@.len() == k,
            shown@ == shown_board(mode, board@, analysis@),
            is_board(shown@),
            white_bottom == white_at_bottom(side, flip),
            playing == (mode == GameMode::Puzzle && status == GameStatus::Playing),
            forall|j: int|
                0 <= j < k ==> #[trigger] res@[j] == cell_view(
                    side,
                    flip,
                    mode,
                    status,
                    board@,
                    analysis@,
                    from,
                    last_from,
                    last_to,
                    hint,
                    j,
                ),
        decreases 64 - k,
    {
        let row = k / 8;
        let col = k % 8;
        let sq: u8 = if white_bottom {
            (7 - row) * 8 + col
        } else {
            row * 8 + (7 - col)
        };
        assert(sq as int == square_at_cell(white_bottom, k as int / 8, k as int % 8));
        let light = (sq / 8 + sq % 8) % 2 != 0;
        let piece = piece_at(shown, sq);
        let color = color_at(shown, sq);
        let highlighted = if playing {
            from == Some(sq) || last_from == Some(sq) || last_to == Some(sq) || hint == Some(sq)
        } else {
            from == Some(sq)
        };
        res.push(SquareView { square: sq, light, piece, color, highlighted });
        k = k + 1;
    }
    res
}

} // verus!
