//! The boundary with the `chess` crate.
//!
//! A position is held as the FEN text that `chess::Board` prints for it (the
//! "board FEN"), and a move as the UCI text that `chess::ChessMove` prints.
//! Every rule of the game (legality, the board after a move, check, mate)
//! comes from the `chess` crate through the trusted items below; the names
//! that they apply stand for what the crate computes.

use vstd::prelude::*;
use std::str::FromStr;
use chess::{Board, BoardStatus, ChessMove, Color, MoveGen, Piece};
use crate::text::{chars_of, words};

verus! {

/// A kind of chess piece, in the order that the `chess` crate numbers them.
#[derive(Clone, Copy, Debug, PartialEq, Eq, Structural)]
pub enum PieceKind {
    Pawn,
    Knight,
    Bishop,
    Rook,
    Queen,
    King,
}

/// A side of the board.
#[derive(Clone, Copy, Debug, PartialEq, Eq, Structural)]
pub enum Side {
    White,
    Black,
}

/// Whether the side to move can still move, and if not, why.
#[derive(Clone, Copy, Debug, PartialEq, Eq, Structural)]
pub enum BoardState {
    Ongoing,
    Stalemate,
    Checkmate,
}

/// `Board::from_str` on a text that puts a king of the side to move on the
/// board (see `mover_king_ok`): the board FEN of the board it gives, or the
/// debug text of the error it reports.
pub uninterp spec fn fen_parse(text: Seq<char>) -> Result<Seq<char>, Seq<char>>;

/// `Board::piece_on` for a square numbered `8 * rank + file`.
pub uninterp spec fn board_piece_at(fen: Seq<char>, square: u8) -> Option<PieceKind>;

/// `Board::color_on` for a square numbered `8 * rank + file`.
pub uninterp spec fn board_color_at(fen: Seq<char>, square: u8) -> Option<Side>;

/// `Board::side_to_move`.
pub uninterp spec fn board_side_to_move(fen: Seq<char>) -> Side;

/// The UCI texts of the moves that `MoveGen::new_legal` yields, in its order.
pub uninterp spec fn board_legal_moves(fen: Seq<char>) -> Seq<Seq<char>>;

/// `Board::make_move_new`: the board FEN after a move.
pub uninterp spec fn board_after(fen: Seq<char>, uci: Seq<char>) -> Seq<char>;

/// `Board::checkers` is not empty: the side to move is in check.
pub uninterp spec fn board_in_check(fen: Seq<char>) -> bool;

/// `Board::en_passant`: the square of the pawn that may be taken en passant.
pub uninterp spec fn board_en_passant(fen: Seq<char>) -> Option<u8>;

/// `ChessMove::from_san`: the UCI text of the move that a SAN text names.
pub uninterp spec fn san_move(fen: Seq<char>, san: Seq<char>) -> Option<Seq<char>>;

/// `ChessMove::from_str` followed by `Display`: the UCI text of the move
/// that a text names. The first four characters are two squares (a file
/// letter and a rank digit each); a text of five bytes adds a promotion
/// letter `q`, `r`, `n` or `b` and is refused with any other fifth
/// character; whatever follows the squares in a longer text is ignored.
pub open spec fn uci_parse(text: Seq<char>) -> Option<Seq<char>> {
    if text.len() >= 4 && 'a' <= text[0] <= 'h' && '1' <= text[1] <= '8' && 'a' <= text[2] <= 'h'
        && '1' <= text[3] <= '8' {
        if text.len() == 5 && (text[4] as u32) < 128 {
            if text[4] == 'q' || text[4] == 'r' || text[4] == 'n' || text[4] == 'b' {
                Some(text)
            } else {
                None
            }
        } else {
            Some(text.subrange(0, 4))
        }
    } else {
        None
    }
}

/// The shape of the FEN text that `Board` prints: six fields, the fourth
/// being `-` or the name of a square.
pub open spec fn fen_shape(fen: Seq<char>) -> bool {
    let w = words(fen);
    &&& w.len() == 6
    &&& w[3] == seq!['-'] || (w[3].len() == 2 && 'a' <= w[3][0] <= 'h' && '1' <= w[3][1] <= '8')
}

/// The index of the first space of `t` at or after `from` (the length of
/// `t` when there is none).
pub open spec fn next_space(t: Seq<char>, from: int) -> int
    decreases t.len() - from,
{
    if from >= t.len() {
        t.len() as int
    } else if t[from] == ' ' {
        from
    } else {
        next_space(t, from + 1)
    }
}

/// Where `BoardBuilder::from_str` stands while it reads the placement field:
/// a rank, a file, and the letter on each of the 64 squares (a space for an
/// empty one).
pub struct PlacementState {
    pub rank: int,
    pub file: int,
    pub cells: Seq<char>,
}

/// A letter that the placement field reads as a piece.
pub open spec fn is_piece_letter(c: char) -> bool {
    c == 'r' || c == 'R' || c == 'n' || c == 'N' || c == 'b' || c == 'B' || c == 'p' || c == 'P'
        || c == 'q' || c == 'Q' || c == 'k' || c == 'K'
}

/// One character of the placement field: `/` goes down a rank (from the
/// first rank to the eighth) back to file a, a digit skips files and a piece
/// letter is put on the square and moves one file on (files wrapping round
/// after h); any other character is refused.
pub open spec fn placement_step(st: PlacementState, c: char) -> Option<PlacementState> {
    if c == '/' {
        Some(PlacementState { rank: (st.rank + 7) % 8, file: 0, ..st })
    } else if '1' <= c && c <= '8' {
        Some(PlacementState { file: (st.file + (c as int - 48)) % 8, ..st })
    } else if is_piece_letter(c) {
        Some(
            PlacementState {
                file: (st.file + 1) % 8,
                cells: st.cells.update(st.rank * 8 + st.file, c),
                ..st
            },
        )
    } else {
        None
    }
}

/// The placement read after the first `n` characters of `p`, from the
/// eighth rank, file a and an empty board.
pub open spec fn placement_after(p: Seq<char>, n: int) -> Option<PlacementState>
    decreases n,
{
    if n <= 0 {
        Some(PlacementState { rank: 7, file: 0, cells: Seq::new(64, |i: int| ' ') })
    } else {
        match placement_after(p, n - 1) {
            Some(st) => placement_step(st, p[n - 1]),
            None => None,
        }
    }
}

/// The king letter of the side that a side field names (`w`, `W`, `b` or
/// `B`), if it names one.
pub open spec fn side_king(side: Seq<char>) -> Option<char> {
    if side.len() == 1 && (side[0] == 'w' || side[0] == 'W') {
        Some('K')
    } else if side.len() == 1 && (side[0] == 'b' || side[0] == 'B') {
        Some('k')
    } else {
        None
    }
}

/// Whether a placement read puts the king letter on the board: true when the
/// placement or the side is refused.
pub open spec fn king_placed(st: Option<PlacementState>, king: Option<char>) -> bool {
    match st {
        None => true,
        Some(st) => match king {
            None => true,
            Some(k) => st.cells.contains(k),
        },
    }
}

/// Whether a text that `BoardBuilder::from_str` reads puts a king of the
/// side to move on the board: always true of a text that it refuses (fewer
/// than four space-separated fields, a placement character it does not
/// know, a side that is not `w`, `W`, `b` or `B`).
pub open spec fn mover_king_ok(t: Seq<char>) -> bool {
    let s1 = next_space(t, 0);
    let s2 = next_space(t, s1 + 1);
    let s3 = next_space(t, s2 + 1);
    s3 < t.len() ==> king_placed(
        placement_after(t.subrange(0, s1), s1),
        side_king(t.subrange(s1 + 1, s2)),
    )
}

/// A text that `Board::from_str` reads back as the board that prints it
/// (such a board has one king of each side, so the side to move has one).
pub open spec fn is_board(fen: Seq<char>) -> bool {
    &&& fen_parse(fen) == Ok::<Seq<char>, Seq<char>>(fen)
    &&& mover_king_ok(fen)
}

/// What reading a position text gives: a text whose side to move has no king
/// is refused as the crate refuses a board it finds invalid (`InvalidBoard`);
/// any other text as `Board::from_str` reads it.
pub open spec fn fen_read(text: Seq<char>) -> Result<Seq<char>, Seq<char>> {
    if mover_king_ok(text) {
        fen_parse(text)
    } else {
        Err("InvalidBoard"@)
    }
}

/// The letter of a file numbered from 0 (`a`) to 7 (`h`).
pub open spec fn file_char(file: int) -> char {
    ((97 + file) as u32) as char
}

/// The digit of a rank numbered from 0 (`1`) to 7 (`8`).
pub open spec fn rank_char(rank: int) -> char {
    ((49 + rank) as u32) as char
}

/// How `chess::Square` prints the square numbered `8 * rank + file`.
pub open spec fn square_text(square: int) -> Seq<char> {
    seq![file_char(square % 8), rank_char(square / 8)]
}

/// How `chess::Piece` prints a piece kind.
pub open spec fn piece_letter(kind: PieceKind) -> char {
    match kind {
        PieceKind::Pawn => 'p',
        PieceKind::Knight => 'n',
        PieceKind::Bishop => 'b',
        PieceKind::Rook => 'r',
        PieceKind::Queen => 'q',
        PieceKind::King => 'k',
    }
}

/// A piece that a pawn may become.
pub open spec fn is_promotion_kind(kind: PieceKind) -> bool {
    kind == PieceKind::Queen || kind == PieceKind::Rook || kind == PieceKind::Bishop
        || kind == PieceKind::Knight
}

/// How `chess::ChessMove` prints a move: source square, destination square,
/// and the letter of the promotion piece, if any.
pub open spec fn uci_text(source: int, dest: int, promotion: Option<PieceKind>) -> Seq<char> {
    square_text(source) + square_text(dest) + match promotion {
        Some(kind) => seq![piece_letter(kind)],
        None => Seq::<char>::empty(),
    }
}

/// A text that `ChessMove::from_str` reads back as the move that prints it.
pub open spec fn is_uci(text: Seq<char>) -> bool {
    uci_parse(text) == Some(text)
}

/// A move as `chess::ChessMove` prints it, with a promotion piece that
/// `ChessMove::from_str` reads back.
pub open spec fn is_move_text(text: Seq<char>) -> bool {
    exists|source: int, dest: int, promotion: Option<PieceKind>|
        0 <= source < 64 && 0 <= dest < 64 && (promotion matches Some(kind) ==> is_promotion_kind(
            kind,
        )) && text == #[trigger] uci_text(source, dest, promotion)
}

/// A move that `MoveGen::new_legal` yields on a board.
pub open spec fn is_legal(fen: Seq<char>, uci: Seq<char>) -> bool {
    board_legal_moves(fen).contains(uci)
}

/// What `Board::status` reports: mate or stalemate when no legal move is left.
pub open spec fn board_state(fen: Seq<char>) -> BoardState {
    if board_legal_moves(fen).len() == 0 {
        if board_in_check(fen) {
            BoardState::Checkmate
        } else {
            BoardState::Stalemate
        }
    } else {
        BoardState::Ongoing
    }
}

/// The board FEN of the standard starting position.
pub open spec fn start_fen() -> Seq<char> {
    "rnbqkbnr/pppppppp/8/8/8/8/PPPPPPPP/RNBQKBNR w KQkq - 0 1"@
}

/// Calls `Board::from_str` on a text. The result is the board FEN that
/// `Board`'s `Display` prints for the board read (six fields, the en
/// passant one `-` or a square), or the `Debug` text of the crate's error;
/// a board FEN is read back as the same board, and, the board being one that
/// the crate finds valid, has a king of each side. The crate looks up the
/// king of the side to move before it checks the board, so a text without
/// that king is left out.
#[verifier::external_body]
fn parse_fen(text: &str) -> (res: Result<String, String>)
    requires
        mover_king_ok(text@),
    ensures
        match res {
            Ok(fen) => fen_parse(text@) == Ok::<Seq<char>, Seq<char>>(fen@) && is_board(fen@)
                && fen_shape(fen@),
            Err(e) => fen_parse(text@) == Err::<Seq<char>, Seq<char>>(e@),
        },
{
    match Board::from_str(text) {
        Ok(board) => Ok(board.to_string()),
        Err(error) => Err(format!("{error:?}")),
    }
}

fn next_space_at(t: &Vec<char>, from: usize) -> (res: usize)
    requires
        from <= t@.len(),
    ensures
        res as int == next_space(t@, from as int),
        from <= res <= t@.len(),
{
    let mut i = from;
    while i < t.len()
        invariant
            from <= i <= t@.len(),
            next_space(t@, from as int) == next_space(t@, i as int),
        decreases t.len() - i,
    {
        if t[i] == ' ' {
            return i;
        }
        i = i + 1;
    }
    i
}

/// Whether a position text that `Board::from_str` may read puts a king of
/// the side to move on the board (see `mover_king_ok`), read the way
/// `BoardBuilder::from_str` reads it.
pub fn fen_mover_has_king(text: &str) -> (res: bool)
    ensures
        res == mover_king_ok(text@),
{
    let t = chars_of(text);
    let s1 = next_space_at(&t, 0);
    if s1 >= t.len() {
        return true;
    }
    let s2 = next_space_at(&t, s1 + 1);
    if s2 >= t.len() {
        return true;
    }
    let s3 = next_space_at(&t, s2 + 1);
    if s3 >= t.len() {
        return true;
    }
    let ghost placement = t@.subrange(0, s1 as int);
    let mut rank: usize = 7;
    let mut file: usize = 0;
    let mut cells: Vec<char> = Vec::new();
    let mut k: usize = 0;
    while k < 64
        invariant
            k <= 64,
            cells@ == Seq::new(k as nat, |i: int| ' '),
        decreases 64 - k,
    {
        cells.push(' ');
        k = k + 1;
    }
    assert(cells@ =~= Seq::new(64, |i: int| ' '));
    let mut i: usize = 0;
    while i < s1
        invariant
            t@ == text@,
            s1 as int == next_space(t@, 0),
            s2 as int == next_space(t@, s1 + 1),
            s3 as int == next_space(t@, s2 + 1),
            s3 < t@.len(),
            s1 < t@.len(),
            i <= s1,
            placement == t@.subrange(0, s1 as int),
            rank < 8,
            file < 8,
            cells@.len() == 64,
            placement_after(placement, i as int) == Some(
                PlacementState { rank: rank as int, file: file as int, cells: cells@ },
            ),
        decreases s1 - i,
    {
        let c = t[i];
        assert(c == placement[i as int]);
        if c == '/' {
            rank = (rank + 7) % 8;
            file = 0;
        } else if '1' <= c && c <= '8' {
            file = (file + (c as u32 - 48) as usize) % 8;
        } else if c == 'r' || c == 'R' || c == 'n' || c == 'N' || c == 'b' || c == 'B' || c == 'p'
            || c == 'P' || c == 'q' || c == 'Q' || c == 'k' || c == 'K' {
            cells.set(rank * 8 + file, c);
            file = (file + 1) % 8;
        } else {
            assert(!is_piece_letter(c));
            assert(placement_step(
                PlacementState { rank: rank as int, file: file as int, cells: cells@ },
                c,
            ) is None);
            assert(placement_after(placement, i as int + 1) is None);
            proof {
                lemma_placement_refused(placement, i as int, s1 as int);
            }
            assert(placement.len() == s1);
            return true;
        }
        i = i + 1;
    }
    assert(placement.len() == s1);
    let ghost side = t@.subrange(s1 + 1, s2 as int);
    let king = if s2 == s1 + 2 && (t[s1 + 1] == 'w' || t[s1 + 1] == 'W') {
        'K'
    } else if s2 == s1 + 2 && (t[s1 + 1] == 'b' || t[s1 + 1] == 'B') {
        'k'
    } else {
        assert(side_king(side) is None);
        return true;
    };
    assert(side_king(side) == Some(king));
    let ghost st = PlacementState { rank: rank as int, file: file as int, cells: cells@ };
    assert(placement_after(placement, s1 as int) == Some(st));
    let mut j: usize = 0;
    let mut found = false;
    while j < 64
        invariant
            j <= 64,
            cells@.len() == 64,
            found ==> cells@.contains(king),
            !found ==> forall|m: int| 0 <= m < j ==> cells@[m] != king,
        ensures
            found ==> cells@.contains(king),
            !found ==> forall|m: int| 0 <= m < 64 ==> cells@[m] != king,
        decreases 64 - j,
    {
        if cells[j] == king {
            assert(cells@[j as int] == king);
            found = true;
            break;
        }
        j = j + 1;
    }
    found
}

proof fn lemma_placement_refused(p: Seq<char>, i: int, n: int)
    requires
        0 <= i < n <= p.len(),
        placement_after(p, i + 1) is None,
    ensures
        placement_after(p, n) is None,
    decreases n - i,
{
    if n > i + 1 {
        lemma_placement_refused(p, i, n - 1);
    }
}

/// Reads a position text: a text whose side to move has no king is refused
/// with `InvalidBoard`, as the crate refuses a board it finds invalid; any
/// other text goes to `Board::from_str`.
pub fn read_fen(text: &str) -> (res: Result<String, String>)
    ensures
        match res {
            Ok(fen) => fen_read(text@) == Ok::<Seq<char>, Seq<char>>(fen@) && is_board(fen@)
                && fen_shape(fen@),
            Err(e) => fen_read(text@) == Err::<Seq<char>, Seq<char>>(e@),
        },
{
    if fen_mover_has_king(text) {
        parse_fen(text)
    } else {
        Err(<String as vstd::string::StringExecFns>::from_str("InvalidBoard"))
    }
}

/// Calls `Board::default`, the starting position, and prints it.
#[verifier::external_body]
pub(crate) fn start_position() -> (res: String)
    ensures
        res@ == start_fen(),
        is_board(res@),
        fen_shape(res@),
{
    Board::default().to_string()
}

/// Calls `ChessMove::from_str` on a text; a UCI text that it prints is read
/// back as the same move.
#[verifier::external_body]
pub(crate) fn parse_uci(text: &str) -> (res: Option<String>)
    ensures
        match res {
            Some(u) => uci_parse(text@) == Some(u@) && is_uci(u@) && is_move_text(u@),
            None => uci_parse(text@) is None,
        },
        is_move_text(text@) ==> res is Some && res.unwrap()@ == text@,
{
    ChessMove::from_str(text).ok().map(|m| m.to_string())
}

/// Calls `ChessMove::new` and prints the move.
#[verifier::external_body]
pub(crate) fn move_text(source: u8, dest: u8, promotion: Option<PieceKind>) -> (res: String)
    requires
        source < 64,
        dest < 64,
        promotion matches Some(kind) ==> is_promotion_kind(kind),
    ensures
        res@ == uci_text(source as int, dest as int, promotion),
        is_uci(res@),
        is_move_text(res@),
{
    let piece = match promotion {
        Some(PieceKind::Pawn) => Some(Piece::Pawn),
        Some(PieceKind::Knight) => Some(Piece::Knight),
        Some(PieceKind::Bishop) => Some(Piece::Bishop),
        Some(PieceKind::Rook) => Some(Piece::Rook),
        Some(PieceKind::Queen) => Some(Piece::Queen),
        Some(PieceKind::King) => Some(Piece::King),
        None => None,
    };
    let squares = chess::ALL_SQUARES;
    ChessMove::new(squares[source as usize], squares[dest as usize], piece).to_string()
}

/// Calls `ChessMove::from_san`. The crate only returns moves that
/// `MoveGen::new_legal` yields on the board.
#[verifier::external_body]
pub(crate) fn parse_san(fen: &str, san: &str) -> (res: Option<String>)
    requires
        is_board(fen@),
    ensures
        match res {
            Some(u) => san_move(fen@, san@) == Some(u@) && is_legal(fen@, u@) && is_uci(u@)
                && is_move_text(u@),
            None => san_move(fen@, san@) is None,
        },
{
    let board = Board::from_str(fen).unwrap();
    ChessMove::from_san(&board, san).ok().map(|m| m.to_string())
}

/// Collects `MoveGen::new_legal` into UCI texts, each read back as its move.
/// The generator only moves pieces of the side to move, so every move starts
/// on a square holding one of them.
#[verifier::external_body]
pub(crate) fn legal_moves(fen: &str) -> (res: Vec<String>)
    requires
        is_board(fen@),
    ensures
        res@.map_values(|m: String| m@) == board_legal_moves(fen@),
        forall|i: int| 0 <= i < res@.len() ==> is_uci(#[trigger] res@[i]@) && is_move_text(res@[i]@),
        forall|i: int| 0 <= i < res@.len() ==> board_piece_at(fen@, move_source(#[trigger] res@[i]@) as u8) is Some
            && board_color_at(fen@, move_source(res@[i]@) as u8) == Some(board_side_to_move(fen@)),
{
    let board = Board::from_str(fen).unwrap();
    MoveGen::new_legal(&board).map(|m| m.to_string()).collect()
}

/// Calls `Board::legal`, which searches `MoveGen::new_legal` for the move;
/// as that generator only moves pieces of the side to move, a legal move
/// starts on a square holding one of them.
#[verifier::external_body]
pub(crate) fn legal(fen: &str, uci: &str) -> (res: bool)
    requires
        is_board(fen@),
        is_uci(uci@),
    ensures
        res == is_legal(fen@, uci@),
        res ==> board_piece_at(fen@, move_source(uci@) as u8) is Some && board_color_at(
            fen@,
            move_source(uci@) as u8,
        ) == Some(board_side_to_move(fen@)),
{
    let board = Board::from_str(fen).unwrap();
    board.legal(ChessMove::from_str(uci).unwrap())
}

/// Calls `Board::make_move_new` with a legal move (the crate panics on a move
/// that captures a king, which no legal move does) and prints the result.
#[verifier::external_body]
pub(crate) fn make_move(fen: &str, uci: &str) -> (res: String)
    requires
        is_board(fen@),
        is_legal(fen@, uci@),
        is_uci(uci@),
    ensures
        res@ == board_after(fen@, uci@),
        is_board(res@),
        fen_shape(res@),
{
    let board = Board::from_str(fen).unwrap();
    board.make_move_new(ChessMove::from_str(uci).unwrap()).to_string()
}

/// Calls `Board::checkers` and tells whether it holds a piece.
#[verifier::external_body]
pub(crate) fn in_check(fen: &str) -> (res: bool)
    requires
        is_board(fen@),
    ensures
        res == board_in_check(fen@),
{
    let board = Board::from_str(fen).unwrap();
    board.checkers().popcnt() != 0
}

/// Calls `Board::status`, which reports mate or stalemate exactly when
/// `MoveGen::new_legal` yields no move, as the check decides.
#[verifier::external_body]
pub(crate) fn status(fen: &str) -> (res: BoardState)
    requires
        is_board(fen@),
    ensures
        res == board_state(fen@),
{
    let board = Board::from_str(fen).unwrap();
    match board.status() {
        BoardStatus::Ongoing => BoardState::Ongoing,
        BoardStatus::Stalemate => BoardState::Stalemate,
        BoardStatus::Checkmate => BoardState::Checkmate,
    }
}

/// Calls `Board::piece_on` on a square numbered `8 * rank + file`.
#[verifier::external_body]
pub(crate) fn piece_at(fen: &str, square: u8) -> (res: Option<PieceKind>)
    requires
        is_board(fen@),
        square < 64,
    ensures
        res == board_piece_at(fen@, square),
{
    let board = Board::from_str(fen).unwrap();
    match board.piece_on(chess::ALL_SQUARES[square as usize]) {
        Some(Piece::Pawn) => Some(PieceKind::Pawn),
        Some(Piece::Knight) => Some(PieceKind::Knight),
        Some(Piece::Bishop) => Some(PieceKind::Bishop),
        Some(Piece::Rook) => Some(PieceKind::Rook),
        Some(Piece::Queen) => Some(PieceKind::Queen),
        Some(Piece::King) => Some(PieceKind::King),
        None => None,
    }
}

/// Calls `Board::color_on` on a square numbered `8 * rank + file`; a square
/// has a colour exactly when it has a piece.
#[verifier::external_body]
pub(crate) fn color_at(fen: &str, square: u8) -> (res: Option<Side>)
    requires
        is_board(fen@),
        square < 64,
    ensures
        res == board_color_at(fen@, square),
        res is Some <==> board_piece_at(fen@, square) is Some,
{
    let board = Board::from_str(fen).unwrap();
    match board.color_on(chess::ALL_SQUARES[square as usize]) {
        Some(Color::White) => Some(Side::White),
        Some(Color::Black) => Some(Side::Black),
        None => None,
    }
}

/// Calls `Board::side_to_move`.
#[verifier::external_body]
pub(crate) fn side_to_move(fen: &str) -> (res: Side)
    requires
        is_board(fen@),
    ensures
        res == board_side_to_move(fen@),
{
    let board = Board::from_str(fen).unwrap();
    match board.side_to_move() {
        Color::White => Side::White,
        Color::Black => Side::Black,
    }
}

/// Calls `Board::en_passant` and numbers the square `8 * rank + file`.
#[verifier::external_body]
pub(crate) fn en_passant(fen: &str) -> (res: Option<u8>)
    requires
        is_board(fen@),
    ensures
        res == board_en_passant(fen@),
        res matches Some(sq) ==> sq < 64,
        res matches Some(sq) ==> (board_side_to_move(fen@) == Side::White ==> sq / 8 == 4),
        res matches Some(sq) ==> (board_side_to_move(fen@) == Side::Black ==> sq / 8 == 3),
{
    let board = Board::from_str(fen).unwrap();
    board.en_passant().map(|sq| sq.to_int())
}

/// The square numbered `8 * rank + file` that two characters name, read as
/// a file letter and a rank digit.
pub open spec fn square_at(t: Seq<char>, i: int) -> int {
    (t[i + 1] as int - 49) * 8 + (t[i] as int - 97)
}

/// The kind of piece that a lowercase letter names, as `ChessMove::from_str`
/// reads a promotion.
pub open spec fn promotion_letter(c: char) -> Option<PieceKind> {
    if c == 'q' {
        Some(PieceKind::Queen)
    } else if c == 'r' {
        Some(PieceKind::Rook)
    } else if c == 'b' {
        Some(PieceKind::Bishop)
    } else if c == 'n' {
        Some(PieceKind::Knight)
    } else {
        None
    }
}

/// The source square of a move text.
pub open spec fn move_source(m: Seq<char>) -> int {
    square_at(m, 0)
}

/// The destination square of a move text.
pub open spec fn move_dest(m: Seq<char>) -> int {
    square_at(m, 2)
}

/// The promotion piece of a move text.
pub open spec fn move_promotion(m: Seq<char>) -> Option<PieceKind> {
    if m.len() == 5 {
        promotion_letter(m[4])
    } else {
        None
    }
}

proof fn lemma_square_text(sq: int)
    requires
        0 <= sq < 64,
    ensures
        square_at(square_text(sq), 0) == sq,
        'a' <= square_text(sq)[0] <= 'h',
        '1' <= square_text(sq)[1] <= '8',
{
}

/// A move text names its own source, destination and promotion.
pub proof fn lemma_move_text_parts(m: Seq<char>)
    requires
        is_move_text(m),
    ensures
        m.len() == 4 || m.len() == 5,
        0 <= move_source(m) < 64,
        0 <= move_dest(m) < 64,
        move_promotion(m) matches Some(kind) ==> is_promotion_kind(kind),
        m.len() == 5 ==> move_promotion(m) is Some,
        m == uci_text(move_source(m), move_dest(m), move_promotion(m)),
{
    let (source, dest, promotion) = choose|source: int, dest: int, promotion: Option<PieceKind>|
        0 <= source < 64 && 0 <= dest < 64 && (promotion matches Some(kind) ==> is_promotion_kind(
            kind,
        )) && m == #[trigger] uci_text(source, dest, promotion);
    lemma_square_text(source);
    lemma_square_text(dest);
    assert(m.subrange(0, 2) == square_text(source));
    assert(m.subrange(2, 4) == square_text(dest));
    assert(move_source(m) == square_at(square_text(source), 0));
    assert(move_dest(m) == square_at(square_text(dest), 0));
    assert(move_promotion(m) == promotion);
}

/// Reads the source, destination and promotion of a move text.
pub fn move_parts(m: &str) -> (res: (u8, u8, Option<PieceKind>))
    requires
        is_move_text(m@),
    ensures
        res.0 as int == move_source(m@),
        res.1 as int == move_dest(m@),
        res.2 == move_promotion(m@),
        res.0 < 64,
        res.1 < 64,
{
    proof {
        lemma_move_text_parts(m@);
    }
    let v = chars_of(m);
    let source: u32 = ((v[1] as u32) - 49) * 8 + ((v[0] as u32) - 97);
    let dest: u32 = ((v[3] as u32) - 49) * 8 + ((v[2] as u32) - 97);
    let promotion = if v.len() == 5 {
        let c = v[4];
        if c == 'q' {
            Some(PieceKind::Queen)
        } else if c == 'r' {
            Some(PieceKind::Rook)
        } else if c == 'b' {
            Some(PieceKind::Bishop)
        } else if c == 'n' {
            Some(PieceKind::Knight)
        } else {
            None
        }
    } else {
        None
    };
    (source as u8, dest as u8, promotion)
}

} // verus!
