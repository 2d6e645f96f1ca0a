//! Settings of the studio that the rules depend on, and the move notation
//! shown to the solver in the language of the interface.

use vstd::prelude::*;
use crate::chess_rules::{
    board_after, board_piece_at, is_board, make_move, parse_san, piece_at, san_move, square_at,
    PieceKind,
};
use crate::export::{check_mark, push_check_mark};
use crate::text::{chars_of, push_all, seq_eq_str, string_from_chars};

verus! {

/// The highest puzzle rating that a search can ask for.
pub const MAX_RATING: i32 = 3600;

/// Whether the board follows a puzzle or is free for analysis.
#[derive(Clone, Copy, Debug, PartialEq, Eq, Structural)]
pub enum GameMode {
    Puzzle,
    Analysis,
}

/// The names of the pieces in the language of the interface.
#[derive(Debug, Clone)]
pub struct PieceNames {
    pub bishop: String,
    pub knight: String,
    pub rook: String,
    pub queen: String,
    pub king: String,
}

/// The uppercase form of an ASCII character.
pub open spec fn ascii_upper(c: char) -> char {
    if 'a' <= c <= 'z' {
        ((c as u32) - 32) as char
    } else {
        c
    }
}

/// The name of the piece that a promotion letter stands for; any letter
/// other than `B`, `N`, `R` and `Q` names the king.
pub open spec fn piece_localized_spec(names: PieceNames, piece: Seq<char>) -> Seq<char> {
    if piece == seq!['B'] {
        names.bishop@
    } else if piece == seq!['N'] {
        names.knight@
    } else if piece == seq!['R'] {
        names.rook@
    } else if piece == seq!['Q'] {
        names.queen@
    } else {
        names.king@
    }
}

/// Names the piece that a promotion letter stands for.
pub fn piece_localized(names: &PieceNames, piece: &Vec<char>) -> (res: Vec<char>)
    ensures
        res@ == piece_localized_spec(*names, piece@),
{
    let name = if piece.len() == 1 && piece[0] == 'B' {
        &names.bishop
    } else if piece.len() == 1 && piece[0] == 'N' {
        &names.knight
    } else if piece.len() == 1 && piece[0] == 'R' {
        &names.rook
    } else if piece.len() == 1 && piece[0] == 'Q' {
        &names.queen
    } else {
        &names.king
    };
    proof {
        if piece@.len() == 1 {
            assert(piece@ == seq![piece@[0]]);
        }
    }
    chars_of(name.as_str())
}

/// A move in UCI that the notation can read: two squares in ASCII, and an
/// ASCII character after them if there is more.
pub open spec fn coords_ok(coords: Seq<char>) -> bool {
    &&& coords.len() >= 4
    &&& 'a' <= coords[0] <= 'h' && '1' <= coords[1] <= '8'
    &&& 'a' <= coords[2] <= 'h' && '1' <= coords[3] <= '8'
    &&& coords.len() > 4 ==> (coords[4] as u32) < 128
}

/// The English piece letter and the localized piece name that start a
/// move's notation; a pawn is named by its file.
pub open spec fn notation_start(kind: PieceKind, names: PieceNames, file: Seq<char>) -> (Seq<char>, Seq<char>) {
    match kind {
        PieceKind::Pawn => (file, file),
        PieceKind::Bishop => (seq!['B'], names.bishop@),
        PieceKind::Knight => (seq!['N'], names.knight@),
        PieceKind::Rook => (seq!['R'], names.rook@),
        PieceKind::Queen => (seq!['Q'], names.queen@),
        PieceKind::King => (seq!['K'], names.king@),
    }
}

/// The English notation used to test moves with the chess rules, and the
/// localized notation shown, for a move that is not castling: a capture is
/// written with the file or rank of its piece when the plain form is
/// refused, and a promotion with the localized piece name.
pub open spec fn coord_notation(board: Seq<char>, coords: Seq<char>, kind: PieceKind, names: PieceNames) -> (Seq<char>, Seq<char>) {
    let source = square_at(coords, 0);
    let dest = square_at(coords, 2);
    let dest_text = coords.subrange(2, 4);
    let file_text = coords.subrange(0, 1);
    let rank_text = coords.subrange(1, 2);
    let promo = if coords.len() > 4 {
        seq![ascii_upper(coords[4])]
    } else {
        Seq::<char>::empty()
    };
    let (en, loc) = notation_start(kind, names, file_text);
    let captured = board_piece_at(board, dest as u8) is Some;
    let en_passant = kind == PieceKind::Pawn && !captured && source % 8 != dest % 8;
    if en_passant {
        (en, loc + seq!['x'] + dest_text + seq![' ', 'e', '.', 'p', '.'])
    } else if captured {
        let attempt = if kind == PieceKind::Pawn {
            en + seq!['x'] + dest_text + promo
        } else {
            en + seq!['x'] + dest_text
        };
        if san_move(board, attempt) is Some {
            if promo.len() == 0 {
                (en + seq!['x'] + dest_text, loc + seq!['x'] + dest_text)
            } else {
                (
                    en + seq!['x'] + dest_text + promo,
                    loc + seq!['x'] + dest_text + seq!['='] + piece_localized_spec(names, promo),
                )
            }
        } else if san_move(board, en + file_text + seq!['x'] + dest_text) is Some {
            (en, loc + file_text + seq!['x'] + dest_text)
        } else {
            (en, loc + rank_text + seq!['x'] + dest_text)
        }
    } else if kind == PieceKind::Pawn {
        if promo.len() == 0 {
            (en, dest_text)
        } else {
            (en + dest_text + promo, dest_text + seq!['='] + piece_localized_spec(names, promo))
        }
    } else if san_move(board, en + dest_text) is Some {
        (en + dest_text, loc + dest_text)
    } else if san_move(board, en + file_text + dest_text) is Some {
        (en, loc + file_text + dest_text)
    } else {
        (en, loc + rank_text + dest_text)
    }
}

/// The notation of a UCI move shown to the solver in the language of the
/// interface: `0-0` and `0-0-0` for castling, localized piece names, `e.p.`
/// for an en passant capture, and `+` or `#` when the English form is one
/// that the chess rules read back.
pub open spec fn coord_to_san_spec(board: Seq<char>, coords: Seq<char>, names: PieceNames) -> Option<Seq<char>> {
    let head = coords.take(4);
    match board_piece_at(board, square_at(coords, 0) as u8) {
        None => None,
        Some(kind) => if kind == PieceKind::King && (head == "e1g1"@ || head == "e8g8"@) {
            Some("0-0"@)
        } else if kind == PieceKind::King && (head == "e1c1"@ || head == "e8c8"@) {
            Some("0-0-0"@)
        } else {
            let (en, loc) = coord_notation(board, coords, kind, names);
            Some(
                loc + match san_move(board, en) {
                    Some(m) => check_mark(board_after(board, m)),
                    None => Seq::<char>::empty(),
                },
            )
        },
    }
}

/// Whether `x` followed by the two characters of a square appears in a text.
pub open spec fn shows_capture_on(s: Seq<char>, square: Seq<char>) -> bool {
    exists|i: int|
        0 <= i && i + 3 <= s.len() && #[trigger] s[i] == 'x' && s[i + 1] == square[0] && s[i + 2]
            == square[1]
}

proof fn lemma_capture_shown(pre: Seq<char>, dest: Seq<char>, post: Seq<char>)
    requires
        dest.len() == 2,
    ensures
        shows_capture_on(pre + seq!['x'] + dest + post, dest),
{
    let s = pre + seq!['x'] + dest + post;
    let i = pre.len() as int;
    assert(s[i] == 'x' && s[i + 1] == dest[0] && s[i + 2] == dest[1]);
}

/// A capture is shown as one: when a piece of the side moving takes one
/// standing on the destination (a move other than castling), the notation
/// shown has `x` right before the destination square, whatever the piece
/// that moves and whether or not it needs a file or rank to tell it apart.
pub proof fn law_captures_show_x(board: Seq<char>, coords: Seq<char>, names: PieceNames)
    requires
        coords_ok(coords),
        board_piece_at(board, square_at(coords, 0) as u8) is Some,
        board_piece_at(board, square_at(coords, 2) as u8) is Some,
        board_piece_at(board, square_at(coords, 0) as u8) == Some(PieceKind::King) ==> coords.take(4)
            != "e1g1"@ && coords.take(4) != "e8g8"@ && coords.take(4) != "e1c1"@ && coords.take(4)
            != "e8c8"@,
    ensures
        coord_to_san_spec(board, coords, names) matches Some(s) && shows_capture_on(
            s,
            coords.subrange(2, 4),
        ),
{
    let kind = board_piece_at(board, square_at(coords, 0) as u8)->Some_0;
    let (en, loc) = coord_notation(board, coords, kind, names);
    let dest_text = coords.subrange(2, 4);
    let file_text = coords.subrange(0, 1);
    let rank_text = coords.subrange(1, 2);
    let promo = if coords.len() > 4 {
        seq![ascii_upper(coords[4])]
    } else {
        Seq::<char>::empty()
    };
    let (en0, loc0) = notation_start(kind, names, file_text);
    let mark = match san_move(board, en) {
        Some(m) => check_mark(board_after(board, m)),
        None => Seq::<char>::empty(),
    };
    let attempt = if kind == PieceKind::Pawn {
        en0 + seq!['x'] + dest_text + promo
    } else {
        en0 + seq!['x'] + dest_text
    };
    if san_move(board, attempt) is Some {
        if promo.len() == 0 {
            assert(loc == loc0 + seq!['x'] + dest_text);
            lemma_capture_shown(loc0, dest_text, mark);
            assert(loc + mark =~= loc0 + seq!['x'] + dest_text + mark);
        } else {
            let tail = seq!['='] + piece_localized_spec(names, promo) + mark;
            lemma_capture_shown(loc0, dest_text, tail);
            assert(loc + mark =~= loc0 + seq!['x'] + dest_text + tail);
        }
    } else if san_move(board, en0 + file_text + seq!['x'] + dest_text) is Some {
        lemma_capture_shown(loc0 + file_text, dest_text, mark);
        assert(loc + mark =~= (loc0 + file_text) + seq!['x'] + dest_text + mark);
    } else {
        lemma_capture_shown(loc0 + rank_text, dest_text, mark);
        assert(loc + mark =~= (loc0 + rank_text) + seq!['x'] + dest_text + mark);
    }
}

fn chars_then(a: &Vec<char>, b: &Vec<char>) -> (res: Vec<char>)
    ensures
        res@ == a@ + b@,
{
    let mut out: Vec<char> = Vec::new();
    push_all(&mut out, a);
    push_all(&mut out, b);
    out
}

fn one_char(c: char) -> (res: Vec<char>)
    ensures
        res@ == seq![c],
{
    let mut out: Vec<char> = Vec::new();
    out.push(c);
    out
}

/// Whether the chess rules read an English SAN text as a move.
fn san_reads(board: &str, san: &Vec<char>) -> (res: bool)
    requires
        is_board(board@),
    ensures
        res == san_move(board@, san@) is Some,
{
    let text = string_from_chars(san);
    parse_san(board, text.as_str()).is_some()
}

fn localized_notation(board: &str, coords: &Vec<char>, kind: PieceKind, names: &PieceNames) -> (res: (Vec<char>, Vec<char>))
    requires
        is_board(board@),
        coords_ok(coords@),
    ensures
        (res.0@, res.1@) == coord_notation(board@, coords@, kind, *names),
{
    let source: u8 = ((coords[1] as u32 - 49) * 8 + (coords[0] as u32 - 97)) as u8;
    let dest: u8 = ((coords[3] as u32 - 49) * 8 + (coords[2] as u32 - 97)) as u8;
    let mut dest_text: Vec<char> = Vec::new();
    dest_text.push(coords[2]);
    dest_text.push(coords[3]);
    assert(dest_text@ =~= coords@.subrange(2, 4));
    let file_text = one_char(coords[0]);
    let rank_text = one_char(coords[1]);
    assert(file_text@ =~= coords@.subrange(0, 1));
    assert(rank_text@ =~= coords@.subrange(1, 2));
    let promo: Vec<char> = if coords.len() > 4 {
        let c = coords[4];
        one_char(if 'a' <= c && c <= 'z' { (((c as u32) - 32) as u8) as char } else { c })
    } else {
        Vec::new()
    };
    let (en, loc): (Vec<char>, Vec<char>) = match kind {
        PieceKind::Pawn => (one_char(coords[0]), one_char(coords[0])),
        PieceKind::Bishop => (one_char('B'), chars_of(names.bishop.as_str())),
        PieceKind::Knight => (one_char('N'), chars_of(names.knight.as_str())),
        PieceKind::Rook => (one_char('R'), chars_of(names.rook.as_str())),
        PieceKind::Queen => (one_char('Q'), chars_of(names.queen.as_str())),
        PieceKind::King => (one_char('K'), chars_of(names.king.as_str())),
    };
    let captured = piece_at(board, dest).is_some();
    let en_passant = kind == PieceKind::Pawn && !captured && source % 8 != dest % 8;
    let x = one_char('x');
    if en_passant {
        let tail = chars_of(" e.p.");
        proof {
            reveal_strlit(" e.p.");
        }
        let l = chars_then(&chars_then(&chars_then(&loc, &x), &dest_text), &tail);
        return (en, l);
    }
    if captured {
        let base = chars_then(&chars_then(&en, &x), &dest_text);
        let attempt = if kind == PieceKind::Pawn {
            chars_then(&base, &promo)
        } else {
            chars_then(&base, &Vec::new())
        };
        assert(kind != PieceKind::Pawn ==> attempt@ =~= base@);
        if san_reads(board, &attempt) {
            if promo.len() == 0 {
                let l = chars_then(&chars_then(&loc, &x), &dest_text);
                return (base, l);
            } else {
                let e = chars_then(&base, &promo);
                let l = chars_then(
                    &chars_then(&chars_then(&chars_then(&loc, &x), &dest_text), &one_char('=')),
                    &piece_localized(names, &promo),
                );
                return (e, l);
            }
        }
        let with_file = chars_then(&chars_then(&chars_then(&en, &file_text), &x), &dest_text);
        if san_reads(board, &with_file) {
            let l = chars_then(&chars_then(&chars_then(&loc, &file_text), &x), &dest_text);
            return (en, l);
        }
        let l = chars_then(&chars_then(&chars_then(&loc, &rank_text), &x), &dest_text);
        return (en, l);
    }
    if kind == PieceKind::Pawn {
        if promo.len() == 0 {
            return (en, dest_text);
        } else {
            let e = chars_then(&chars_then(&en, &dest_text), &promo);
            let l = chars_then(&chars_then(&dest_text, &one_char('=')), &piece_localized(names, &promo));
            return (e, l);
        }
    }
    let plain = chars_then(&en, &dest_text);
    if san_reads(board, &plain) {
        let l = chars_then(&loc, &dest_text);
        return (plain, l);
    }
    let with_file = chars_then(&chars_then(&en, &file_text), &dest_text);
    if san_reads(board, &with_file) {
        let l = chars_then(&chars_then(&loc, &file_text), &dest_text);
        return (en, l);
    }
    let l = chars_then(&chars_then(&loc, &rank_text), &dest_text);
    (en, l)
}

/// Writes a UCI move (such as the engine's best move) the way the solver
/// reads it, in the language of the interface; nothing when no piece
/// stands on the move's first square.
pub fn coord_to_san(board: &str, coords: &str, names: &PieceNames) -> (res: Option<String>)
    requires
        is_board(board@),
        coords_ok(coords@),
    ensures
        match coord_to_san_spec(board@, coords@, *names) {
            Some(t) => (res matches Some(s) && s@ == t),
            None => res is None,
        },
{
    let c = chars_of(coords);
    let source: u8 = ((c[1] as u32 - 49) * 8 + (c[0] as u32 - 97)) as u8;
    let kind = match piece_at(board, source) {
        Some(k) => k,
        None => {
            return None;
        },
    };
    let mut head: Vec<char> = Vec::new();
    head.push(c[0]);
    head.push(c[1]);
    head.push(c[2]);
    head.push(c[3]);
    assert(head@ =~= c@.take(4));
    if kind == PieceKind::King && (seq_eq_str(&head, "e1g1") || seq_eq_str(&head, "e8g8")) {
        return Some(string_from_chars(&chars_of("0-0")));
    }
    if kind == PieceKind::King && (seq_eq_str(&head, "e1c1") || seq_eq_str(&head, "e8c8")) {
        return Some(string_from_chars(&chars_of("0-0-0")));
    }
    let (en, mut loc) = localized_notation(board, &c, kind, names);
    let text = string_from_chars(&en);
    let ghost before = loc@;
    match parse_san(board, text.as_str()) {
        Some(m) => {
            let after = make_move(board, m.as_str());
            push_check_mark(&mut loc, after.as_str());
        },
        None => {},
    }
    Some(string_from_chars(&loc))
}

} // verus!
