//! PGN and PDF export of puzzles: moves read from UCI texts, written in
//! standard algebraic notation, and laid out for the printed sheets.

use vstd::prelude::*;
use vstd::utf8::{
    decode_utf8, encode_utf8, encode_scalar, is_char_boundary, is_char_boundary_iff_not_is_continuation_byte,
    valid_utf8_split, encode_utf8_valid_utf8, encode_utf8_decode_utf8,
};
use vstd::string::StringSliceAdditionalSpecFns;
use crate::text::{
    chars_of, decimal, push_all, push_decimal, push_signed_decimal, push_str, signed_decimal,
    split_words, string_from_chars, text_result, words,
};
use crate::models::{puzzles_view, Puzzle, PuzzleView};
use crate::chess_rules::{
    board_after, board_en_passant, board_in_check, board_legal_moves, board_piece_at,
    board_side_to_move, board_state, en_passant, fen_read, file_char, in_check, read_fen,
    side_to_move, Side, is_board, is_legal, is_move_text, is_uci, legal, legal_moves,
    make_move, move_dest, move_parts, move_promotion, move_source,
    move_text, piece_at, rank_char, square_text, status, uci_text, BoardState, PieceKind,
    board_color_at, color_at, lemma_move_text_parts,
};

verus! {

/// The length of a text in bytes of UTF-8, as `str::len` counts it.
pub open spec fn byte_len(s: Seq<char>) -> int {
    encode_utf8(s).len() as int
}

/// The text that the bytes `lo..hi` of a text's UTF-8 encoding hold, as
/// `&s[lo..hi]` gives it.
pub open spec fn byte_piece(s: Seq<char>, lo: int, hi: int) -> Seq<char> {
    decode_utf8(encode_utf8(s).subrange(lo, hi))
}

/// The texts that a move reader can cut at bytes 2 and 4 without splitting
/// a character.
pub open spec fn uci_cuts_ok(s: Seq<char>) -> bool {
    &&& byte_len(s) == 4 ==> is_char_boundary(encode_utf8(s), 2)
    &&& byte_len(s) == 5 ==> is_char_boundary(encode_utf8(s), 2) && is_char_boundary(
        encode_utf8(s),
        4,
    )
}

/// What `Square::from_str` reads: a file letter and a rank digit.
pub open spec fn square_of(t: Seq<char>) -> Option<u8> {
    if t.len() >= 2 && 'a' <= t[0] <= 'h' && '1' <= t[1] <= '8' {
        Some(((t[1] as int - 49) * 8 + (t[0] as int - 97)) as u8)
    } else {
        None
    }
}

/// The lowercase form of an ASCII character.
pub open spec fn ascii_lower(c: char) -> char {
    if 'A' <= c <= 'Z' {
        ((c as u32) + 32) as char
    } else {
        c
    }
}

/// The promotion piece that a lowercase letter names.
pub open spec fn promotion_named(c: char) -> Option<PieceKind> {
    if c == 'q' {
        Some(PieceKind::Queen)
    } else if c == 'r' {
        Some(PieceKind::Rook)
    } else if c == 'b' {
        Some(PieceKind::Bishop)
    } else if c == 'n' {
        Some(PieceKind::Knight)
    } else {
        None
    }
}

/// The promotion of a five-byte move text: its last byte, in either case.
pub open spec fn promotion_part(uci: Seq<char>) -> Result<Option<PieceKind>, Seq<char>> {
    if byte_len(uci) == 5 {
        let c = ascii_lower(byte_piece(uci, 4, 5)[0]);
        match promotion_named(c) {
            Some(kind) => Ok(Some(kind)),
            None => Err("Invalid promotion piece: '"@ + seq![c] + "'"@),
        }
    } else {
        Ok(None)
    }
}

/// Reading a UCI text as a move that is legal on a board: the move's own
/// text, or why the text was refused.
pub open spec fn parse_legal_uci_spec(board: Seq<char>, uci: Seq<char>) -> Result<Seq<char>, Seq<char>> {
    if byte_len(uci) != 4 && byte_len(uci) != 5 {
        Err("Invalid UCI length: "@ + uci)
    } else {
        let source_text = byte_piece(uci, 0, 2);
        let dest_text = byte_piece(uci, 2, 4);
        match square_of(source_text) {
            None => Err("Invalid source square '"@ + source_text + "': InvalidSquare"@),
            Some(source) => match square_of(dest_text) {
                None => Err("Invalid destination square '"@ + dest_text + "': InvalidSquare"@),
                Some(dest) => match promotion_part(uci) {
                    Err(e) => Err(e),
                    Ok(promotion) => {
                        let m = uci_text(source as int, dest as int, promotion);
                        if is_legal(board, m) {
                            Ok(m)
                        } else {
                            Err("Illegal UCI move: "@ + uci + " on board "@ + board)
                        }
                    },
                },
            },
        }
    }
}

proof fn lemma_one_byte_text(s: Seq<char>)
    requires
        encode_utf8(s).len() == 1,
    ensures
        s.len() == 1,
        (s[0] as u32) <= 0x7f,
{
    reveal_with_fuel(encode_utf8, 2);
    if s.len() > 0 {
        let c = s[0] as u32;
        assert(encode_utf8(s) == encode_scalar(c) + encode_utf8(s.drop_first()));
        if s.len() > 1 {
            let d = s.drop_first()[0] as u32;
            assert(encode_utf8(s.drop_first()) == encode_scalar(d) + encode_utf8(
                s.drop_first().drop_first(),
            ));
        }
    }
}

/// The characters that a byte range of a string holds, once cut out.
proof fn lemma_cut(s: &str, part: &str, lo: int, hi: int)
    requires
        part.spec_bytes() =~= s.spec_bytes().subrange(lo, hi),
    ensures
        part@ == byte_piece(s@, lo, hi),
{
    encode_utf8_decode_utf8(part@);
}

/// Reads a square name as `Square::from_str` does.
fn read_square(t: &Vec<char>) -> (res: Option<u8>)
    ensures
        res == square_of(t@),
{
    if t.len() >= 2 && 'a' <= t[0] && t[0] <= 'h' && '1' <= t[1] && t[1] <= '8' {
        let f: u32 = (t[0] as u32) - 97;
        let r: u32 = (t[1] as u32) - 49;
        Some((r * 8 + f) as u8)
    } else {
        None
    }
}

fn error_with(prefix: &str, middle: &Vec<char>, suffix: &str) -> (res: String)
    ensures
        res@ == prefix@ + middle@ + suffix@,
{
    let mut out: Vec<char> = Vec::new();
    push_str(&mut out, prefix);
    push_all(&mut out, middle);
    push_str(&mut out, suffix);
    string_from_chars(&out)
}

fn error_then(prefix: &str, tail: &str) -> (res: String)
    ensures
        res@ == prefix@ + tail@,
{
    let mut out: Vec<char> = Vec::new();
    push_str(&mut out, prefix);
    push_str(&mut out, tail);
    string_from_chars(&out)
}

fn error_with_two(prefix: &str, first: &str, middle: &str, second: &str) -> (res: String)
    ensures
        res@ == prefix@ + first@ + middle@ + second@,
{
    let mut out: Vec<char> = Vec::new();
    push_str(&mut out, prefix);
    push_str(&mut out, first);
    push_str(&mut out, middle);
    push_str(&mut out, second);
    string_from_chars(&out)
}

/// Reads a UCI text (two squares and, in five bytes, a promotion letter in
/// either case) as a move that is legal on the board, and gives the move's
/// own text.
pub fn parse_legal_uci_move(board: &str, uci: &str) -> (res: Result<String, String>)
    requires
        is_board(board@),
        uci_cuts_ok(uci@),
    ensures
        text_result(res) == parse_legal_uci_spec(board@, uci@),
        res matches Ok(m) ==> is_uci(m@) && is_move_text(m@) && is_legal(board@, m@),
{
    let n = uci.as_bytes().len();
    if n != 4 && n != 5 {
        return Err(error_then("Invalid UCI length: ", uci));
    }
    let ghost bytes = uci.spec_bytes();
    proof {
        encode_utf8_valid_utf8(uci@);
    }
    let (source_str, dest_str, promo): (&str, &str, Option<char>) = if n == 5 {
        let (head, tail) = uci.split_at(4);
        proof {
            valid_utf8_split(bytes, 4);
            encode_utf8_valid_utf8(head@);
            is_char_boundary_iff_not_is_continuation_byte(bytes, 2);
            is_char_boundary_iff_not_is_continuation_byte(head.spec_bytes(), 2);
        }
        let (s, d) = head.split_at(2);
        proof {
            assert(s.spec_bytes() =~= bytes.subrange(0, 2));
            assert(d.spec_bytes() =~= bytes.subrange(2, 4));
            lemma_cut(uci, s, 0, 2);
            lemma_cut(uci, d, 2, 4);
            lemma_cut(uci, tail, 4, 5);
            lemma_one_byte_text(tail@);
        }
        let t = chars_of(tail);
        (s, d, Some(t[0]))
    } else {
        let (s, d) = uci.split_at(2);
        proof {
            assert(d.spec_bytes() =~= bytes.subrange(2, 4));
            lemma_cut(uci, s, 0, 2);
            lemma_cut(uci, d, 2, 4);
        }
        (s, d, None)
    };
    let source_chars = chars_of(source_str);
    let dest_chars = chars_of(dest_str);
    let source = match read_square(&source_chars) {
        Some(sq) => sq,
        None => {
            return Err(error_with("Invalid source square '", &source_chars, "': InvalidSquare"));
        },
    };
    let dest = match read_square(&dest_chars) {
        Some(sq) => sq,
        None => {
            return Err(error_with("Invalid destination square '", &dest_chars, "': InvalidSquare"));
        },
    };
    let promotion = match promo {
        None => None,
        Some(c) => {
            let lower = if 'A' <= c && c <= 'Z' {
                (((c as u32) + 32) as u8) as char
            } else {
                c
            };
            if lower == 'q' {
                Some(PieceKind::Queen)
            } else if lower == 'r' {
                Some(PieceKind::Rook)
            } else if lower == 'b' {
                Some(PieceKind::Bishop)
            } else if lower == 'n' {
                Some(PieceKind::Knight)
            } else {
                let mut one: Vec<char> = Vec::new();
                one.push(lower);
                return Err(error_with("Invalid promotion piece: '", &one, "'"));
            }
        },
    };
    let m = move_text(source, dest, promotion);
    if legal(board, m.as_str()) {
        Ok(m)
    } else {
        Err(error_with_two("Illegal UCI move: ", uci, " on board ", board))
    }
}

/// The mark that follows a move: `#` when it mates, `+` when it checks.
pub open spec fn check_mark(after: Seq<char>) -> Seq<char> {
    if board_state(after) == BoardState::Checkmate {
        seq!['#']
    } else if board_in_check(after) {
        seq!['+']
    } else {
        Seq::<char>::empty()
    }
}

/// The letter that standard notation writes for a piece; pawns have none.
pub open spec fn piece_prefix(kind: PieceKind) -> Seq<char> {
    match kind {
        PieceKind::King => seq!['K'],
        PieceKind::Queen => seq!['Q'],
        PieceKind::Rook => seq!['R'],
        PieceKind::Bishop => seq!['B'],
        PieceKind::Knight => seq!['N'],
        PieceKind::Pawn => Seq::<char>::empty(),
    }
}

/// Another legal move of a piece of the same kind to the same square.
pub open spec fn rival(board: Seq<char>, m: Seq<char>, kind: PieceKind, other: Seq<char>) -> bool {
    &&& other != m
    &&& board_piece_at(board, move_source(other) as u8) == Some(kind)
    &&& move_dest(other) == move_dest(m)
}

pub open spec fn has_rival(board: Seq<char>, m: Seq<char>, kind: PieceKind) -> bool {
    let moves = board_legal_moves(board);
    exists|i: int| 0 <= i < moves.len() && #[trigger] rival(board, m, kind, moves[i])
}

pub open spec fn rival_on_file(board: Seq<char>, m: Seq<char>, kind: PieceKind) -> bool {
    let moves = board_legal_moves(board);
    exists|i: int|
        0 <= i < moves.len() && #[trigger] rival(board, m, kind, moves[i]) && move_source(moves[i])
            % 8 == move_source(m) % 8
}

pub open spec fn rival_on_rank(board: Seq<char>, m: Seq<char>, kind: PieceKind) -> bool {
    let moves = board_legal_moves(board);
    exists|i: int|
        0 <= i < moves.len() && #[trigger] rival(board, m, kind, moves[i]) && move_source(moves[i])
            / 8 == move_source(m) / 8
}

/// What standard notation adds to tell a piece from its rivals: the file of
/// its square if that is enough, else the rank, else both.
pub open spec fn disambiguation(board: Seq<char>, m: Seq<char>, kind: PieceKind) -> Seq<char> {
    let source = move_source(m);
    if !has_rival(board, m, kind) {
        Seq::<char>::empty()
    } else if !rival_on_file(board, m, kind) {
        seq![file_char(source % 8)]
    } else if !rival_on_rank(board, m, kind) {
        seq![rank_char(source / 8)]
    } else {
        seq![file_char(source % 8), rank_char(source / 8)]
    }
}

/// The `=` and piece letter that a promotion adds.
pub open spec fn promotion_suffix(promotion: Option<PieceKind>) -> Result<Seq<char>, Seq<char>> {
    match promotion {
        None => Ok(Seq::<char>::empty()),
        Some(PieceKind::Queen) => Ok(seq!['=', 'Q']),
        Some(PieceKind::Rook) => Ok(seq!['=', 'R']),
        Some(PieceKind::Bishop) => Ok(seq!['=', 'B']),
        Some(PieceKind::Knight) => Ok(seq!['=', 'N']),
        Some(_) => Err("Invalid promotion piece"@),
    }
}

/// A move written in standard algebraic notation with English letters:
/// `O-O` and `O-O-O` for castling, `x` for captures, `=Q` for promotions,
/// `+` for check and `#` for mate.
pub open spec fn standard_san_spec(board: Seq<char>, m: Seq<char>) -> Result<Seq<char>, Seq<char>> {
    if !is_legal(board, m) {
        Err("Illegal move on board "@ + board)
    } else {
        let source = move_source(m);
        let dest = move_dest(m);
        match board_piece_at(board, source as u8) {
            None => Err("No piece on source square"@),
            Some(kind) => {
                let mark = check_mark(board_after(board, m));
                let capture = board_piece_at(board, dest as u8) is Some || (kind == PieceKind::Pawn
                    && source % 8 != dest % 8);
                if kind == PieceKind::King && source % 8 - dest % 8 == 2 {
                    Ok(seq!['O', '-', 'O', '-', 'O'] + mark)
                } else if kind == PieceKind::King && source % 8 - dest % 8 == -2 {
                    Ok(seq!['O', '-', 'O'] + mark)
                } else {
                    let tell = if kind != PieceKind::King && kind != PieceKind::Pawn {
                        disambiguation(board, m, kind)
                    } else {
                        Seq::<char>::empty()
                    };
                    let target = if capture {
                        if kind == PieceKind::Pawn {
                            seq![file_char(source % 8), 'x'] + square_text(dest)
                        } else {
                            seq!['x'] + square_text(dest)
                        }
                    } else {
                        square_text(dest)
                    };
                    match promotion_suffix(move_promotion(m)) {
                        Err(e) => Err(e),
                        Ok(promo) => Ok(piece_prefix(kind) + tell + target + promo + mark),
                    }
                }
            },
        }
    }
}

fn push_square(out: &mut Vec<char>, square: u8)
    requires
        square < 64,
    ensures
        final(out)@ == old(out)@ + square_text(square as int),
{
    out.push((97u8 + square % 8) as char);
    out.push((49u8 + square / 8) as char);
}

/// Adds to a notation the mark of what the move does to the board after it.
pub fn push_check_mark(out: &mut Vec<char>, after: &str)
    requires
        is_board(after@),
    ensures
        final(out)@ == old(out)@ + check_mark(after@),
{
    if status(after) == BoardState::Checkmate {
        out.push('#');
    } else if in_check(after) {
        out.push('+');
    }
}

/// Looks through the legal moves for rivals of a move: whether there is one,
/// one on the same file, and one on the same rank.
fn find_rivals(board: &str, m: &String, kind: PieceKind) -> (res: (bool, bool, bool))
    requires
        is_board(board@),
        is_move_text(m@),
    ensures
        res.0 == has_rival(board@, m@, kind),
        res.1 == rival_on_file(board@, m@, kind),
        res.2 == rival_on_rank(board@, m@, kind),
{
    let moves = legal_moves(board);
    let ghost all = board_legal_moves(board@);
    let (source, dest, _) = move_parts(m.as_str());
    let mut any = false;
    let mut same_file = false;
    let mut same_rank = false;
    let mut i: usize = 0;
    assert(moves@.len() == all.len()) by {
        assert(moves@.map_values(|s: String| s@).len() == moves@.len());
    }
    while i < moves.len()
        invariant
            is_board(board@),
            is_move_text(m@),
            source as int == move_source(m@),
            dest as int == move_dest(m@),
            all == board_legal_moves(board@),
            moves@.map_values(|s: String| s@) == all,
            moves@.len() == all.len(),
            forall|k: int| 0 <= k < moves@.len() ==> is_uci(#[trigger] moves@[k]@) && is_move_text(moves@[k]@),
            i <= moves.len(),
            any == exists|j: int| 0 <= j < i && #[trigger] rival(board@, m@, kind, all[j]),
            same_file == exists|j: int|
                0 <= j < i && #[trigger] rival(board@, m@, kind, all[j]) && move_source(all[j]) % 8
                    == move_source(m@) % 8,
            same_rank == exists|j: int|
                0 <= j < i && #[trigger] rival(board@, m@, kind, all[j]) && move_source(all[j]) / 8
                    == move_source(m@) / 8,
        decreases moves.len() - i,
    {
        let other = &moves[i];
        assert(other@ == all[i as int]);
        let ghost before_any = any;
        let ghost before_file = same_file;
        let ghost before_rank = same_rank;
        let differs = !other.eq(m);
        let mut is_rival = false;
        let mut o_source: u8 = 0;
        if differs {
            let (os, o_dest, _) = move_parts(other.as_str());
            o_source = os;
            let same_kind = match piece_at(board, os) {
                Some(k) => k == kind,
                None => false,
            };
            is_rival = same_kind && o_dest == dest;
        }
        assert(is_rival == rival(board@, m@, kind, all[i as int]));
        if is_rival {
            any = true;
            if o_source % 8 == source % 8 {
                same_file = true;
            }
            if o_source / 8 == source / 8 {
                same_rank = true;
            }
        }
        proof {
            let k = i as int;
            if is_rival {
                assert(rival(board@, m@, kind, all[k]));
            }
            assert(any == ((exists|j: int| 0 <= j < k && #[trigger] rival(board@, m@, kind, all[j]))
                || rival(board@, m@, kind, all[k])));
            assert forall|j: int| 0 <= j < k + 1 && #[trigger] rival(board@, m@, kind, all[j])
                implies (0 <= j < k && rival(board@, m@, kind, all[j])) || j == k by {}
        }
        i = i + 1;
    }
    (any, same_file, same_rank)
}

/// The part of a move's notation between the piece letter and the
/// promotion: the disambiguation and the target square, with `x` for a capture.
fn push_piece_and_target(out: &mut Vec<char>, board: &str, m: &String, kind: PieceKind, capture: bool)
    requires
        is_board(board@),
        is_move_text(m@),
    ensures
        final(out)@ == old(out)@ + piece_prefix(kind) + (if kind != PieceKind::King && kind
            != PieceKind::Pawn {
            disambiguation(board@, m@, kind)
        } else {
            Seq::<char>::empty()
        }) + (if capture {
            if kind == PieceKind::Pawn {
                seq![file_char(move_source(m@) % 8), 'x'] + square_text(move_dest(m@))
            } else {
                seq!['x'] + square_text(move_dest(m@))
            }
        } else {
            square_text(move_dest(m@))
        }),
{
    let (source, dest, _) = move_parts(m.as_str());
    let ghost start = out@;
    match kind {
        PieceKind::King => out.push('K'),
        PieceKind::Queen => out.push('Q'),
        PieceKind::Rook => out.push('R'),
        PieceKind::Bishop => out.push('B'),
        PieceKind::Knight => out.push('N'),
        PieceKind::Pawn => {},
    }
    let ghost after_prefix = out@;
    assert(after_prefix =~= start + piece_prefix(kind));
    if kind != PieceKind::King && kind != PieceKind::Pawn {
        let (any, same_file, same_rank) = find_rivals(board, m, kind);
        if any {
            if !same_file {
                out.push((97u8 + source % 8) as char);
            } else if !same_rank {
                out.push((49u8 + source / 8) as char);
            } else {
                out.push((97u8 + source % 8) as char);
                out.push((49u8 + source / 8) as char);
            }
        }
    }
    let ghost after_tell = out@;
    assert(after_tell =~= after_prefix + (if kind != PieceKind::King && kind != PieceKind::Pawn {
        disambiguation(board@, m@, kind)
    } else {
        Seq::<char>::empty()
    }));
    if capture {
        if kind == PieceKind::Pawn {
            out.push((97u8 + source % 8) as char);
            out.push('x');
        } else {
            out.push('x');
        }
    }
    push_square(out, dest);
    assert(out@ =~= after_tell + (if capture {
        if kind == PieceKind::Pawn {
            seq![file_char(move_source(m@) % 8), 'x'] + square_text(move_dest(m@))
        } else {
            seq!['x'] + square_text(move_dest(m@))
        }
    } else {
        square_text(move_dest(m@))
    }));
}

fn push_promotion(out: &mut Vec<char>, promotion: Option<PieceKind>) -> (ok: bool)
    ensures
        ok == promotion_suffix(promotion) is Ok,
        ok ==> final(out)@ == old(out)@ + promotion_suffix(promotion)->Ok_0,
{
    match promotion {
        None => {},
        Some(PieceKind::Queen) => {
            out.push('=');
            out.push('Q');
        },
        Some(PieceKind::Rook) => {
            out.push('=');
            out.push('R');
        },
        Some(PieceKind::Bishop) => {
            out.push('=');
            out.push('B');
        },
        Some(PieceKind::Knight) => {
            out.push('=');
            out.push('N');
        },
        Some(_) => {
            return false;
        },
    }
    assert(out@ =~= old(out)@ + promotion_suffix(promotion)->Ok_0);
    true
}

/// Writes a legal move in standard algebraic notation, with English piece
/// letters whatever the language of the interface.
pub fn move_to_standard_san(board: &str, m: &String) -> (res: Result<String, String>)
    requires
        is_board(board@),
        is_uci(m@),
        is_move_text(m@),
    ensures
        text_result(res) == standard_san_spec(board@, m@),
        is_legal(board@, m@) ==> res is Ok,
{
    proof {
        lemma_move_text_parts(m@);
    }
    if !legal(board, m.as_str()) {
        return Err(error_then("Illegal move on board ", board));
    }
    let (source, dest, promotion) = move_parts(m.as_str());
    let kind = match piece_at(board, source) {
        Some(k) => k,
        None => {
            return Err(String::from_str("No piece on source square"));
        },
    };
    let after = make_move(board, m.as_str());
    let capture = piece_at(board, dest).is_some() || (kind == PieceKind::Pawn && source % 8 != dest
        % 8);
    let mut out: Vec<char> = Vec::new();
    if kind == PieceKind::King && source % 8 >= dest % 8 && source % 8 - dest % 8 == 2 {
        out.push('O');
        out.push('-');
        out.push('O');
        out.push('-');
        out.push('O');
        push_check_mark(&mut out, after.as_str());
        assert(out@ =~= seq!['O', '-', 'O', '-', 'O'] + check_mark(after@));
        return Ok(string_from_chars(&out));
    }
    if kind == PieceKind::King && dest % 8 >= source % 8 && dest % 8 - source % 8 == 2 {
        out.push('O');
        out.push('-');
        out.push('O');
        push_check_mark(&mut out, after.as_str());
        assert(out@ =~= seq!['O', '-', 'O'] + check_mark(after@));
        return Ok(string_from_chars(&out));
    }
    push_piece_and_target(&mut out, board, m, kind, capture);
    if !push_promotion(&mut out, promotion) {
        return Err(String::from_str("Invalid promotion piece"));
    }
    push_check_mark(&mut out, after.as_str());
    Ok(string_from_chars(&out))
}

/// The en passant field of standard FEN: the square that the pawn that
/// just moved two squares passed over.
pub open spec fn en_passant_field(board: Seq<char>) -> Seq<char> {
    match board_en_passant(board) {
        None => seq!['-'],
        Some(sq) => {
            let rank = if board_side_to_move(board) == Side::White {
                sq / 8 + 1
            } else {
                sq / 8 - 1
            };
            square_text(rank * 8 + sq % 8)
        },
    }
}

/// The FEN that a PGN file carries for a board: the board's placement,
/// side to move and castling rights, the standard en passant field, and
/// the counters `0 1`.
pub open spec fn pgn_fen_spec(board: Seq<char>) -> Result<Seq<char>, Seq<char>> {
    let fields = words(board);
    if fields.len() != 6 {
        Err("Unexpected FEN field count: "@ + decimal(fields.len()))
    } else {
        Ok(fields[0] + seq![' '] + fields[1] + seq![' '] + fields[2] + seq![' '] + en_passant_field(
            board,
        ) + seq![' ', '0', ' ', '1'])
    }
}

/// Writes the FEN of a board for a PGN file, with the en passant square
/// that standard FEN names (the crate names the pawn's own square).
pub fn board_to_pgn_fen(board: &str) -> (res: Result<String, String>)
    requires
        is_board(board@),
    ensures
        text_result(res) == pgn_fen_spec(board@),
{
    let chars = chars_of(board);
    let fields = split_words(&chars);
    if fields.len() != 6 {
        let mut out: Vec<char> = Vec::new();
        push_str(&mut out, "Unexpected FEN field count: ");
        push_decimal(&mut out, fields.len() as u128);
        return Err(string_from_chars(&out));
    }
    let mut out: Vec<char> = Vec::new();
    push_all(&mut out, &fields[0]);
    out.push(' ');
    push_all(&mut out, &fields[1]);
    out.push(' ');
    push_all(&mut out, &fields[2]);
    out.push(' ');
    let ghost before_ep = out@;
    match en_passant(board) {
        None => out.push('-'),
        Some(sq) => {
            let rank: u8 = if side_to_move(board) == Side::White {
                sq / 8 + 1
            } else {
                sq / 8 - 1
            };
            push_square(&mut out, rank * 8 + sq % 8);
        },
    }
    assert(out@ =~= before_ep + en_passant_field(board@));
    out.push(' ');
    out.push('0');
    out.push(' ');
    out.push('1');
    let ghost f = words(board@);
    assert(out@ =~= f[0] + seq![' '] + f[1] + seq![' '] + f[2] + seq![' '] + en_passant_field(board@)
        + seq![' ', '0', ' ', '1']);
    Ok(string_from_chars(&out))
}

/// One header line of a PGN file: `[Name "value"]`.
pub open spec fn header_line(name: Seq<char>, value: Seq<char>) -> Seq<char> {
    "["@ + name + " \""@ + value + "\"]\n"@
}

/// The header lines that name the game, its players and its position.
pub open spec fn pgn_headers_top(p: PuzzleView, date: Seq<char>, solver_white: bool, fen: Seq<char>) -> Seq<char> {
    header_line("Event"@, "Chess Puzzle"@) + header_line(
        "Site"@,
        "https://lichess.org/training/"@ + p.puzzle_id,
    ) + header_line("Date"@, date) + header_line("Round"@, "-"@) + header_line(
        "White"@,
        if solver_white {
            "Player"@
        } else {
            "Opponent"@
        },
    ) + header_line(
        "Black"@,
        if solver_white {
            "Opponent"@
        } else {
            "Player"@
        },
    ) + header_line("Result"@, "*"@) + header_line("GameID"@, p.game_url) + header_line(
        "FEN"@,
        fen,
    ) + header_line("SetUp"@, "1"@)
}

/// The header lines that carry the puzzle's catalogue data, and the empty
/// line after the headers.
pub open spec fn pgn_headers_data(p: PuzzleView) -> Seq<char> {
    (if p.opening.len() > 0 {
        header_line("Opening"@, p.opening)
    } else {
        Seq::<char>::empty()
    }) + header_line("PuzzleRating"@, signed_decimal(p.rating as int)) + header_line(
        "PuzzleRatingDeviation"@,
        signed_decimal(p.rating_deviation as int),
    ) + header_line("PuzzlePopularity"@, signed_decimal(p.popularity as int)) + header_line(
        "PuzzleNbPlays"@,
        signed_decimal(p.nb_plays as int),
    ) + header_line("PuzzleThemes"@, p.themes) + seq!['\n']
}

/// The header block that a puzzle's PGN game opens with, and the empty line
/// after it.
pub open spec fn pgn_headers(p: PuzzleView, date: Seq<char>, solver_white: bool, fen: Seq<char>) -> Seq<char> {
    pgn_headers_top(p, date, solver_white, fen) + pgn_headers_data(p)
}

/// What goes before a move in the move text: its number when White moves,
/// `N...` when Black moves first, else a space.
pub open spec fn move_lead(white_moves: bool, number: nat, text: Seq<char>, first: bool) -> Seq<char> {
    if white_moves {
        (if text.len() > 0 {
            seq![' ']
        } else {
            Seq::<char>::empty()
        }) + decimal(number) + seq!['.', ' ']
    } else if first {
        decimal(number) + seq!['.', '.', '.', ' ']
    } else {
        seq![' ']
    }
}

/// The move text of the solution moves from index `k` on, played from a
/// board, after the text written so far.
pub open spec fn solution_text(
    board: Seq<char>,
    moves: Seq<Seq<char>>,
    k: int,
    number: nat,
    text: Seq<char>,
    first: bool,
) -> Result<Seq<char>, Seq<char>>
    decreases moves.len() - k,
{
    if k < 0 || k >= moves.len() {
        Ok(text)
    } else {
        match parse_legal_uci_spec(board, moves[k]) {
            Err(e) => Err("Solution move error: "@ + e),
            Ok(m) => match standard_san_spec(board, m) {
                Err(e) => Err(e),
                Ok(san) => {
                    let lead = move_lead(
                        board_side_to_move(board) == Side::White,
                        number,
                        text,
                        first,
                    );
                    let after = board_after(board, m);
                    let next_number = if board_side_to_move(after) == Side::White {
                        number + 1
                    } else {
                        number
                    };
                    solution_text(after, moves, k + 1, next_number, text + lead + san, false)
                },
            },
        }
    }
}

/// The solution moves from index `k` on can be read without cutting a
/// character in two, up to the first one that is refused.
pub open spec fn solution_cuts_ok(board: Seq<char>, moves: Seq<Seq<char>>, k: int) -> bool
    decreases moves.len() - k,
{
    if k < 0 || k >= moves.len() {
        true
    } else {
        &&& uci_cuts_ok(moves[k])
        &&& match parse_legal_uci_spec(board, moves[k]) {
            Err(_) => true,
            Ok(m) => match standard_san_spec(board, m) {
                Err(_) => true,
                Ok(_) => solution_cuts_ok(board_after(board, m), moves, k + 1),
            },
        }
    }
}

/// The board on which a puzzle starts: the position after the opponent's
/// first move.
pub open spec fn puzzle_start(p: PuzzleView) -> Result<Seq<char>, Seq<char>> {
    let moves = words(p.moves);
    if moves.len() == 0 {
        Err("Puzzle has no moves"@)
    } else {
        match fen_read(p.fen) {
            Err(e) => Err("Invalid FEN '"@ + p.fen + "': "@ + e),
            Ok(original) => match parse_legal_uci_spec(original, moves[0]) {
                Err(e) => Err("Trigger move error: "@ + e),
                Ok(trigger) => Ok(board_after(original, trigger)),
            },
        }
    }
}

/// A puzzle's moves can be read without cutting a character in two, up to
/// the first one that is refused.
pub open spec fn puzzle_cuts_ok(p: PuzzleView) -> bool {
    let moves = words(p.moves);
    &&& (moves.len() > 0 && fen_read(p.fen) is Ok) ==> uci_cuts_ok(moves[0])
    &&& puzzle_start(p) matches Ok(start) ==> (pgn_fen_spec(start) is Ok ==> solution_cuts_ok(
        start,
        moves,
        1,
    ))
}

/// A puzzle as one PGN game: the headers, then the solution (the moves after
/// the opponent's first one) in standard notation, ending with `*`.
#[verifier::opaque]
pub open spec fn pgn_game_spec(p: PuzzleView, date: Seq<char>) -> Result<Seq<char>, Seq<char>> {
    match puzzle_start(p) {
        Err(e) => Err(e),
        Ok(start) => match pgn_fen_spec(start) {
            Err(e) => Err(e),
            Ok(fen) => match solution_text(start, words(p.moves), 1, 1, Seq::<char>::empty(), true) {
                Err(e) => Err(e),
                Ok(text) => Ok(pgn_headers(
                    p,
                    date,
                    board_side_to_move(start) == Side::White,
                    fen,
                ) + if text.len() == 0 {
                    seq!['*', '\n']
                } else {
                    text + seq![' ', '*', '\n']
                }),
            },
        },
    }
}

fn push_header(out: &mut Vec<char>, name: &str, value: &Vec<char>)
    ensures
        final(out)@ == old(out)@ + header_line(name@, value@),
{
    push_str(out, "[");
    push_str(out, name);
    push_str(out, " \"");
    push_all(out, value);
    push_str(out, "\"]\n");
}

fn push_number_header(out: &mut Vec<char>, name: &str, value: i32)
    ensures
        final(out)@ == old(out)@ + header_line(name@, signed_decimal(value as int)),
{
    let mut digits: Vec<char> = Vec::new();
    push_signed_decimal(&mut digits, value as i64);
    push_header(out, name, &digits);
}

fn push_headers_top(out: &mut Vec<char>, p: &Puzzle, date: &str, solver_white: bool, fen: &String)
    ensures
        final(out)@ == old(out)@ + pgn_headers_top(p@, date@, solver_white, fen@),
{
    let ghost start = out@;
    push_header(out, "Event", &chars_of("Chess Puzzle"));
    let mut site: Vec<char> = Vec::new();
    push_str(&mut site, "https://lichess.org/training/");
    push_str(&mut site, p.puzzle_id.as_str());
    push_header(out, "Site", &site);
    push_header(out, "Date", &chars_of(date));
    push_header(out, "Round", &chars_of("-"));
    if solver_white {
        push_header(out, "White", &chars_of("Player"));
        push_header(out, "Black", &chars_of("Opponent"));
    } else {
        push_header(out, "White", &chars_of("Opponent"));
        push_header(out, "Black", &chars_of("Player"));
    }
    push_header(out, "Result", &chars_of("*"));
    push_header(out, "GameID", &chars_of(p.game_url.as_str()));
    push_header(out, "FEN", &chars_of(fen.as_str()));
    push_header(out, "SetUp", &chars_of("1"));
    assert(out@ =~= start + pgn_headers_top(p@, date@, solver_white, fen@));
}

fn push_headers_data(out: &mut Vec<char>, p: &Puzzle)
    ensures
        final(out)@ == old(out)@ + pgn_headers_data(p@),
{
    let ghost start = out@;
    if !p.opening.as_str().is_empty() {
        push_header(out, "Opening", &chars_of(p.opening.as_str()));
    }
    let ghost after_opening = out@;
    assert(after_opening =~= start + (if p@.opening.len() > 0 {
        header_line("Opening"@, p@.opening)
    } else {
        Seq::<char>::empty()
    }));
    push_number_header(out, "PuzzleRating", p.rating);
    push_number_header(out, "PuzzleRatingDeviation", p.rating_deviation);
    push_number_header(out, "PuzzlePopularity", p.popularity);
    push_number_header(out, "PuzzleNbPlays", p.nb_plays);
    push_header(out, "PuzzleThemes", &chars_of(p.themes.as_str()));
    out.push('\n');
    assert(out@ =~= start + pgn_headers_data(p@));
}

fn push_headers(out: &mut Vec<char>, p: &Puzzle, date: &str, solver_white: bool, fen: &String)
    ensures
        final(out)@ == old(out)@ + pgn_headers(p@, date@, solver_white, fen@),
{
    let ghost start = out@;
    push_headers_top(out, p, date, solver_white, fen);
    push_headers_data(out, p);
    assert(out@ =~= start + pgn_headers(p@, date@, solver_white, fen@));
}

fn push_lead(out: &mut Vec<char>, white_moves: bool, number: usize, first: bool)
    ensures
        final(out)@ == old(out)@ + move_lead(white_moves, number as nat, old(out)@, first),
{
    let ghost start = out@;
    if white_moves {
        if out.len() > 0 {
            out.push(' ');
        }
        push_decimal(out, number as u128);
        out.push('.');
        out.push(' ');
    } else if first {
        push_decimal(out, number as u128);
        out.push('.');
        out.push('.');
        out.push('.');
        out.push(' ');
    } else {
        out.push(' ');
    }
    assert(out@ =~= start + move_lead(white_moves, number as nat, start, first));
}

/// Writes the solution moves, from index 1 on, after the board on which
/// the puzzle starts.
fn write_solution(start: &String, moves: &Vec<Vec<char>>) -> (res: Result<Vec<char>, String>)
    requires
        is_board(start@),
        solution_cuts_ok(start@, moves@.map_values(|w: Vec<char>| w@), 1),
    ensures
        match res {
            Ok(text) => solution_text(start@, moves@.map_values(|w: Vec<char>| w@), 1, 1, Seq::<char>::empty(), true) == Ok::<Seq<char>, Seq<char>>(text@),
            Err(e) => solution_text(start@, moves@.map_values(|w: Vec<char>| w@), 1, 1, Seq::<char>::empty(), true) == Err::<Seq<char>, Seq<char>>(e@),
        },
{
    let ghost ms = moves@.map_values(|w: Vec<char>| w@);
    let mut board = start.clone();
    let mut number: usize = 1;
    let mut text: Vec<char> = Vec::new();
    let mut first = true;
    let mut k: usize = 1;
    assert(board@ == start@);
    while k < moves.len()
        invariant
            ms == moves@.map_values(|w: Vec<char>| w@),
            ms.len() == moves@.len(),
            1 <= k,
            number <= k,
            is_board(board@),
            solution_cuts_ok(board@, ms, k as int),
            solution_text(start@, ms, 1, 1, Seq::<char>::empty(), true) == solution_text(
                board@,
                ms,
                k as int,
                number as nat,
                text@,
                first,
            ),
        decreases moves.len() - k,
    {
        assert(ms[k as int] == moves@[k as int]@);
        let u = string_from_chars(&moves[k]);
        let m = match parse_legal_uci_move(board.as_str(), u.as_str()) {
            Ok(m) => m,
            Err(e) => {
                return Err(error_then("Solution move error: ", e.as_str()));
            },
        };
        let san = match move_to_standard_san(board.as_str(), &m) {
            Ok(san) => san,
            Err(e) => {
                return Err(e);
            },
        };
        let white_moves = side_to_move(board.as_str()) == Side::White;
        push_lead(&mut text, white_moves, number, first);
        push_str(&mut text, san.as_str());
        board = make_move(board.as_str(), m.as_str());
        if side_to_move(board.as_str()) == Side::White {
            number = number + 1;
        }
        first = false;
        k = k + 1;
    }
    Ok(text)
}

/// Builds the PGN game of a puzzle, dated with the given text.
pub fn build_pgn_game(puzzle: &Puzzle, date: &str) -> (res: Result<String, String>)
    requires
        puzzle_cuts_ok(puzzle@),
    ensures
        text_result(res) == pgn_game_spec(puzzle@, date@),
{
    reveal(pgn_game_spec);
    let moves_chars = chars_of(puzzle.moves.as_str());
    let moves = split_words(&moves_chars);
    let ghost ms = moves@.map_values(|w: Vec<char>| w@);
    assert(ms =~= words(puzzle.moves@));
    if moves.len() == 0 {
        return Err(String::from_str("Puzzle has no moves"));
    }
    let original = match read_fen(puzzle.fen.as_str()) {
        Ok(b) => b,
        Err(e) => {
            return Err(error_with_two("Invalid FEN '", puzzle.fen.as_str(), "': ", e.as_str()));
        },
    };
    let first_move = string_from_chars(&moves[0]);
    let trigger = match parse_legal_uci_move(original.as_str(), first_move.as_str()) {
        Ok(m) => m,
        Err(e) => {
            return Err(error_then("Trigger move error: ", e.as_str()));
        },
    };
    let start = make_move(original.as_str(), trigger.as_str());
    let fen = match board_to_pgn_fen(start.as_str()) {
        Ok(f) => f,
        Err(e) => {
            return Err(e);
        },
    };
    let text = match write_solution(&start, &moves) {
        Ok(t) => t,
        Err(e) => {
            return Err(e);
        },
    };
    let solver_white = side_to_move(start.as_str()) == Side::White;
    let mut out: Vec<char> = Vec::new();
    push_headers(&mut out, puzzle, date, solver_white, &fen);
    let ghost head = out@;
    if text.len() == 0 {
        out.push('*');
        out.push('\n');
    } else {
        push_all(&mut out, &text);
        out.push(' ');
        out.push('*');
        out.push('\n');
    }
    assert(out@ =~= head + if text@.len() == 0 {
        seq!['*', '\n']
    } else {
        text@ + seq![' ', '*', '\n']
    });
    Ok(string_from_chars(&out))
}

/// The PGN games of the puzzles from index `i` on, after the text written so
/// far, each but the last followed by an empty line; or the first error.
pub open spec fn pgn_content_from(ps: Seq<PuzzleView>, date: Seq<char>, i: int, text: Seq<char>) -> Result<Seq<char>, Seq<char>>
    decreases ps.len() - i,
{
    if i < 0 || i >= ps.len() {
        Ok(text)
    } else {
        match pgn_game_spec(ps[i], date) {
            Err(e) => Err(e),
            Ok(game) => pgn_content_from(
                ps,
                date,
                i + 1,
                text + game + if i + 1 < ps.len() {
                    seq!['\n']
                } else {
                    Seq::<char>::empty()
                },
            ),
        }
    }
}

/// Texts one after the other, a newline between two of them.
pub open spec fn joined_lines(texts: Seq<Seq<char>>) -> Seq<char>
    decreases texts.len(),
{
    if texts.len() == 0 {
        Seq::empty()
    } else if texts.len() == 1 {
        texts[0]
    } else {
        texts[0] + seq!['\n'] + joined_lines(texts.drop_first())
    }
}

proof fn lemma_content_joins(ps: Seq<PuzzleView>, date: Seq<char>, games: Seq<Seq<char>>, i: int, text: Seq<char>)
    requires
        0 <= i <= ps.len(),
        games.len() == ps.len(),
        forall|k: int| i <= k < ps.len() ==> pgn_game_spec(#[trigger] ps[k], date) == Ok::<Seq<char>, Seq<char>>(games[k]),
    ensures
        pgn_content_from(ps, date, i, text) == Ok::<Seq<char>, Seq<char>>(text + joined_lines(games.subrange(i, ps.len() as int))),
    decreases ps.len() - i,
{
    let rest = games.subrange(i, ps.len() as int);
    if i == ps.len() {
        assert(rest.len() == 0);
        assert(text + joined_lines(rest) =~= text);
    } else {
        let sep = if i + 1 < ps.len() { seq!['\n'] } else { Seq::<char>::empty() };
        assert(pgn_game_spec(ps[i], date) == Ok::<Seq<char>, Seq<char>>(games[i]));
        lemma_content_joins(ps, date, games, i + 1, text + games[i] + sep);
        let tail = games.subrange(i + 1, ps.len() as int);
        assert(rest.drop_first() =~= tail);
        assert(rest[0] == games[i]);
        if i + 1 < ps.len() {
            assert(joined_lines(rest) == games[i] + seq!['\n'] + joined_lines(tail));
        } else {
            assert(tail.len() == 0);
            assert(joined_lines(rest) == games[i]);
            assert(joined_lines(tail) =~= Seq::<char>::empty());
        }
        assert(text + games[i] + sep + joined_lines(tail) =~= text + joined_lines(rest));
    }
}

proof fn lemma_content_first_error(ps: Seq<PuzzleView>, date: Seq<char>, j: int, i: int, text: Seq<char>)
    requires
        0 <= i <= j < ps.len(),
        forall|k: int| i <= k < j ==> #[trigger] pgn_game_spec(ps[k], date) is Ok,
        pgn_game_spec(ps[j], date) is Err,
    ensures
        pgn_content_from(ps, date, i, text) == Err::<Seq<char>, Seq<char>>(pgn_game_spec(ps[j], date)->Err_0),
    decreases j - i,
{
    if i < j {
        assert(pgn_game_spec(ps[i], date) is Ok);
        let sep = if i + 1 < ps.len() { seq!['\n'] } else { Seq::<char>::empty() };
        lemma_content_first_error(ps, date, j, i + 1, text + pgn_game_spec(ps[i], date)->Ok_0 + sep);
    }
}

/// A PGN export of puzzles whose games can all be written is those games,
/// in the puzzles' order, a newline between two of them (the empty text for
/// no puzzle).
pub proof fn law_pgn_content_joins_the_games(ps: Seq<PuzzleView>, date: Seq<char>, games: Seq<Seq<char>>)
    requires
        games.len() == ps.len(),
        forall|k: int| 0 <= k < ps.len() ==> pgn_game_spec(#[trigger] ps[k], date) == Ok::<Seq<char>, Seq<char>>(games[k]),
    ensures
        pgn_content_from(ps, date, 0, Seq::<char>::empty()) == Ok::<Seq<char>, Seq<char>>(joined_lines(games)),
{
    lemma_content_joins(ps, date, games, 0, Seq::<char>::empty());
    assert(games.subrange(0, ps.len() as int) =~= games);
    assert(Seq::<char>::empty() + joined_lines(games) =~= joined_lines(games));
}

/// A PGN export fails with the error of the first puzzle whose game cannot
/// be written.
pub proof fn law_pgn_content_reports_the_first_error(ps: Seq<PuzzleView>, date: Seq<char>, j: int)
    requires
        0 <= j < ps.len(),
        forall|k: int| 0 <= k < j ==> #[trigger] pgn_game_spec(ps[k], date) is Ok,
        pgn_game_spec(ps[j], date) is Err,
    ensures
        pgn_content_from(ps, date, 0, Seq::<char>::empty()) == Err::<Seq<char>, Seq<char>>(pgn_game_spec(ps[j], date)->Err_0),
{
    lemma_content_first_error(ps, date, j, 0, Seq::<char>::empty());
}

/// Every puzzle that a PGN export reaches has moves that can be read without
/// cutting a character in two.
pub open spec fn content_cuts_ok(ps: Seq<PuzzleView>, date: Seq<char>, i: int) -> bool
    decreases ps.len() - i,
{
    if i < 0 || i >= ps.len() {
        true
    } else {
        puzzle_cuts_ok(ps[i]) && (pgn_game_spec(ps[i], date) is Ok ==> content_cuts_ok(
            ps,
            date,
            i + 1,
        ))
    }
}

/// Builds the PGN file of a list of puzzles: their games in order, with an
/// empty line between two games; the first puzzle that cannot be written
/// stops the export with its error.
pub fn build_pgn_content(puzzles: &[Puzzle], date: &str) -> (res: Result<String, String>)
    requires
        content_cuts_ok(puzzles_view(puzzles@), date@, 0),
    ensures
        text_result(res) == pgn_content_from(puzzles_view(puzzles@), date@, 0, Seq::<char>::empty()),
{
    let ghost ps = puzzles_view(puzzles@);
    let mut out: Vec<char> = Vec::new();
    let mut i: usize = 0;
    while i < puzzles.len()
        invariant
            ps == puzzles_view(puzzles@),
            ps.len() == puzzles@.len(),
            i <= puzzles@.len(),
            content_cuts_ok(ps, date@, i as int),
            pgn_content_from(ps, date@, 0, Seq::<char>::empty()) == pgn_content_from(
                ps,
                date@,
                i as int,
                out@,
            ),
        decreases puzzles.len() - i,
    {
        assert(ps[i as int] == puzzles@[i as int]@);
        let game = match build_pgn_game(&puzzles[i], date) {
            Ok(g) => g,
            Err(e) => {
                return Err(e);
            },
        };
        let ghost before = out@;
        push_str(&mut out, game.as_str());
        if i + 1 < puzzles.len() {
            out.push('\n');
        }
        assert(out@ =~= before + game@ + if i + 1 < ps.len() {
            seq!['\n']
        } else {
            Seq::<char>::empty()
        });
        i = i + 1;
    }
    Ok(string_from_chars(&out))
}

/// The font of a piece of solution text in the PDF sheet.
#[derive(Clone, Copy, Debug, PartialEq, Eq, Structural)]
pub enum PdfSolutionFont {
    Regular,
    Figurine,
}

/// A piece of solution text and the font it is set in.
#[derive(Debug, Clone, PartialEq)]
pub struct PdfSolutionSpan {
    pub font: PdfSolutionFont,
    pub text: String,
}

/// A span with its text taken as a character sequence.
pub struct SpanView {
    pub font: PdfSolutionFont,
    pub text: Seq<char>,
}

impl View for PdfSolutionSpan {
    type V = SpanView;

    open spec fn view(&self) -> SpanView {
        SpanView { font: self.font, text: self.text@ }
    }
}

/// The spans of a list, each taken by its view.
pub open spec fn spans_view(v: Seq<PdfSolutionSpan>) -> Seq<SpanView> {
    v.map_values(|sp: PdfSolutionSpan| sp@)
}

/// The Chess Alpha glyph of a piece letter on a light square (the knight is
/// `h` in that font); any other character stays as it is.
pub open spec fn light_square_glyph(c: char) -> char {
    if c == 'K' {
        'k'
    } else if c == 'Q' {
        'q'
    } else if c == 'R' {
        'r'
    } else if c == 'B' {
        'b'
    } else if c == 'N' {
        'h'
    } else {
        c
    }
}

/// Maps a SAN piece letter to its Chess Alpha light-square glyph.
pub fn chess_alpha_light_square_glyph(san_piece: char) -> (res: char)
    ensures
        res == light_square_glyph(san_piece),
{
    match san_piece {
        'K' => 'k',
        'Q' => 'q',
        'R' => 'r',
        'B' => 'b',
        'N' => 'h',
        other => other,
    }
}

/// The characters of a SAN text that are set as figurines: a piece letter
/// at the start, or a promotion piece after `=`.
pub open spec fn figurine_at(san: Seq<char>, i: int) -> bool {
    ||| i == 0 && (san[0] == 'K' || san[0] == 'Q' || san[0] == 'R' || san[0] == 'B' || san[0]
        == 'N')
    ||| i > 0 && san[i - 1] == '=' && (san[i] == 'Q' || san[i] == 'R' || san[i] == 'B' || san[i]
        == 'N')
}

/// The spans of the first `n` characters of a SAN text: the spans closed so
/// far, and the regular text not yet closed.
pub open spec fn spans_scan(san: Seq<char>, n: int) -> (Seq<SpanView>, Seq<char>)
    decreases n,
{
    if n <= 0 {
        (Seq::<SpanView>::empty(), Seq::<char>::empty())
    } else {
        let (done, regular) = spans_scan(san, n - 1);
        let c = san[n - 1];
        if figurine_at(san, n - 1) {
            let closed = if regular.len() > 0 {
                done.push(SpanView { font: PdfSolutionFont::Regular, text: regular })
            } else {
                done
            };
            (
                closed.push(SpanView { font: PdfSolutionFont::Figurine, text: seq![light_square_glyph(c)] }),
                Seq::<char>::empty(),
            )
        } else {
            (done, regular.push(c))
        }
    }
}

/// A SAN text as PDF spans: castling stays one regular span; otherwise each
/// figurine character is a span of its own, between runs of regular text.
pub open spec fn san_spans(san: Seq<char>) -> Seq<SpanView> {
    if san.len() >= 3 && san[0] == 'O' && san[1] == '-' && san[2] == 'O' {
        seq![SpanView { font: PdfSolutionFont::Regular, text: san }]
    } else {
        let (done, regular) = spans_scan(san, san.len() as int);
        if regular.len() > 0 {
            done.push(SpanView { font: PdfSolutionFont::Regular, text: regular })
        } else {
            done
        }
    }
}

/// The text that a list of spans prints, one span after the other.
pub open spec fn spans_text(spans: Seq<SpanView>) -> Seq<char>
    decreases spans.len(),
{
    if spans.len() == 0 {
        Seq::<char>::empty()
    } else {
        spans_text(spans.drop_last()) + spans.last().text
    }
}

/// A SAN text with each figurine character replaced by its glyph.
pub open spec fn figurine_text(san: Seq<char>) -> Seq<char> {
    Seq::new(san.len(), |i: int| if figurine_at(san, i) { light_square_glyph(san[i]) } else { san[i] })
}

proof fn lemma_spans_text_push(spans: Seq<SpanView>, sp: SpanView)
    ensures
        spans_text(spans.push(sp)) == spans_text(spans) + sp.text,
{
    assert(spans.push(sp).drop_last() =~= spans);
}

proof fn lemma_scan_text(san: Seq<char>, n: int)
    requires
        0 <= n <= san.len(),
    ensures
        spans_text(spans_scan(san, n).0) + spans_scan(san, n).1 == figurine_text(san).take(n),
        forall|k: int| 0 <= k < spans_scan(san, n).0.len() ==> (#[trigger] spans_scan(san, n).0[k]).text.len() > 0,
    decreases n,
{
    if n == 0 {
        assert(figurine_text(san).take(0) =~= Seq::<char>::empty());
    } else {
        lemma_scan_text(san, n - 1);
        let (done, regular) = spans_scan(san, n - 1);
        let c = san[n - 1];
        let ft = figurine_text(san);
        assert(ft.take(n) =~= ft.take(n - 1).push(ft[n - 1]));
        if figurine_at(san, n - 1) {
            let closed = if regular.len() > 0 {
                done.push(SpanView { font: PdfSolutionFont::Regular, text: regular })
            } else {
                done
            };
            let fig = SpanView { font: PdfSolutionFont::Figurine, text: seq![light_square_glyph(c)] };
            if regular.len() > 0 {
                lemma_spans_text_push(done, SpanView { font: PdfSolutionFont::Regular, text: regular });
            } else {
                assert(regular =~= Seq::<char>::empty());
                assert(spans_text(done) + regular =~= spans_text(done));
            }
            lemma_spans_text_push(closed, fig);
            assert(spans_scan(san, n).0 == closed.push(fig));
            assert(spans_scan(san, n).1 =~= Seq::<char>::empty());
            assert(spans_text(closed.push(fig)) + Seq::<char>::empty() =~= ft.take(n));
        } else {
            assert(spans_scan(san, n).0 == done);
            assert(spans_scan(san, n).1 == regular.push(c));
            assert(spans_text(done) + regular.push(c) =~= (spans_text(done) + regular).push(c));
        }
    }
}

/// The spans of a SAN text print the text itself, each figurine character
/// replaced by its glyph (castling stays as written), and no span is empty
/// (for a non-empty text).
pub proof fn law_spans_spell_the_san(san: Seq<char>)
    ensures
        spans_text(san_spans(san)) == if san.len() >= 3 && san[0] == 'O' && san[1] == '-' && san[2] == 'O' {
            san
        } else {
            figurine_text(san)
        },
        san.len() > 0 ==> forall|k: int| 0 <= k < san_spans(san).len() ==> (#[trigger] san_spans(san)[k]).text.len() > 0,
{
    if san.len() >= 3 && san[0] == 'O' && san[1] == '-' && san[2] == 'O' {
        lemma_spans_text_push(Seq::<SpanView>::empty(), SpanView { font: PdfSolutionFont::Regular, text: san });
        assert(Seq::<SpanView>::empty().push(SpanView { font: PdfSolutionFont::Regular, text: san }) =~= san_spans(san));
        assert(spans_text(Seq::<SpanView>::empty()) + san =~= san);
    } else {
        let n = san.len() as int;
        lemma_scan_text(san, n);
        let (done, regular) = spans_scan(san, n);
        assert(figurine_text(san).take(n) =~= figurine_text(san));
        if regular.len() > 0 {
            lemma_spans_text_push(done, SpanView { font: PdfSolutionFont::Regular, text: regular });
        } else {
            assert(spans_text(done) + regular =~= spans_text(done));
        }
    }
}

fn regular_span(text: &Vec<char>) -> (res: PdfSolutionSpan)
    ensures
        res@ == (SpanView { font: PdfSolutionFont::Regular, text: text@ }),
{
    PdfSolutionSpan { font: PdfSolutionFont::Regular, text: string_from_chars(text) }
}

fn regular_text_span(text: &str) -> (res: PdfSolutionSpan)
    ensures
        res@ == (SpanView { font: PdfSolutionFont::Regular, text: text@ }),
{
    PdfSolutionSpan { font: PdfSolutionFont::Regular, text: string_from_chars(&chars_of(text)) }
}

/// Converts standard SAN to PDF spans, with piece letters set as Chess Alpha
/// figurines.
pub fn standard_san_to_pdf_spans(san: &str) -> (res: Vec<PdfSolutionSpan>)
    ensures
        spans_view(res@) == san_spans(san@),
{
    let chars = chars_of(san);
    let mut spans: Vec<PdfSolutionSpan> = Vec::new();
    if chars.len() >= 3 && chars[0] == 'O' && chars[1] == '-' && chars[2] == 'O' {
        spans.push(regular_span(&chars));
        assert(spans_view(spans@) =~= san_spans(san@));
        return spans;
    }
    let mut regular: Vec<char> = Vec::new();
    let mut i: usize = 0;
    while i < chars.len()
        invariant
            chars@ == san@,
            i <= chars.len(),
            spans_view(spans@) == spans_scan(chars@, i as int).0,
            regular@ == spans_scan(chars@, i as int).1,
        decreases chars.len() - i,
    {
        let c = chars[i];
        let piece_start = i == 0 && (c == 'K' || c == 'Q' || c == 'R' || c == 'B' || c == 'N');
        let promo_piece = i > 0 && chars[i - 1] == '=' && (c == 'Q' || c == 'R' || c == 'B' || c
            == 'N');
        if piece_start || promo_piece {
            if regular.len() > 0 {
                spans.push(regular_span(&regular));
                regular = Vec::new();
            }
            let mut one: Vec<char> = Vec::new();
            one.push(chess_alpha_light_square_glyph(c));
            spans.push(PdfSolutionSpan { font: PdfSolutionFont::Figurine, text: string_from_chars(&one) });
        } else {
            regular.push(c);
        }
        i = i + 1;
        assert(spans_view(spans@) =~= spans_scan(chars@, i as int).0);
    }
    if regular.len() > 0 {
        spans.push(regular_span(&regular));
    }
    assert(spans_view(spans@) =~= san_spans(san@));
    spans
}

/// The spans of a UCI move read on a board, by way of its standard SAN.
pub open spec fn uci_spans_spec(board: Seq<char>, uci: Seq<char>) -> Result<Seq<SpanView>, Seq<char>> {
    match parse_legal_uci_spec(board, uci) {
        Err(e) => Err(e),
        Ok(m) => match standard_san_spec(board, m) {
            Err(e) => Err(e),
            Ok(san) => Ok(san_spans(san)),
        },
    }
}

/// Converts a UCI move to PDF spans through its standard SAN.
pub fn uci_move_to_pdf_spans(board: &str, uci: &str) -> (res: Result<Vec<PdfSolutionSpan>, String>)
    requires
        is_board(board@),
        uci_cuts_ok(uci@),
    ensures
        match res {
            Ok(spans) => uci_spans_spec(board@, uci@) == Ok::<Seq<SpanView>, Seq<char>>(spans_view(spans@)),
            Err(e) => uci_spans_spec(board@, uci@) == Err::<Seq<SpanView>, Seq<char>>(e@),
        },
{
    let m = match parse_legal_uci_move(board, uci) {
        Ok(m) => m,
        Err(e) => {
            return Err(e);
        },
    };
    let san = match move_to_standard_san(board, &m) {
        Ok(san) => san,
        Err(e) => {
            return Err(e);
        },
    };
    Ok(standard_san_to_pdf_spans(san.as_str()))
}

/// The label of an exercise in the solutions: its number from 1, then `)`.
pub open spec fn exercise_label_spec(puzzle_number: nat) -> Seq<char> {
    decimal(puzzle_number + 1) + seq![')']
}

/// Writes the label that opens an exercise's solution line.
pub fn exercise_label(puzzle_number: usize) -> (res: String)
    ensures
        res@ == exercise_label_spec(puzzle_number as nat),
{
    let mut out: Vec<char> = Vec::new();
    push_decimal(&mut out, (puzzle_number as u128) + 1);
    out.push(')');
    string_from_chars(&out)
}

/// The span that goes before a solution move: its number when the move
/// opens a full move, else a space.
pub open spec fn pdf_move_lead(half: nat, label: nat) -> Seq<char> {
    if half % 2 == 0 {
        seq![' ']
    } else {
        seq![' '] + decimal(label) + seq!['.', ' ']
    }
}

/// The spans of the solution moves from index `k` on, played from a board,
/// after the spans written so far.
pub open spec fn pdf_moves_from(
    board: Seq<char>,
    moves: Seq<Seq<char>>,
    k: int,
    half: nat,
    label: nat,
    spans: Seq<SpanView>,
) -> Result<Seq<SpanView>, Seq<char>>
    decreases moves.len() - k,
{
    if k < 0 || k >= moves.len() {
        Ok(spans)
    } else {
        let lead = SpanView { font: PdfSolutionFont::Regular, text: pdf_move_lead(half, label) };
        let next_label = if half % 2 == 0 {
            label
        } else {
            label + 1
        };
        match parse_legal_uci_spec(board, moves[k]) {
            Err(e) => Err(e),
            Ok(m) => match standard_san_spec(board, m) {
                Err(e) => Err(e),
                Ok(san) => pdf_moves_from(
                    board_after(board, m),
                    moves,
                    k + 1,
                    half + 1,
                    next_label,
                    spans.push(lead) + san_spans(san),
                ),
            },
        }
    }
}

/// A puzzle's solution line on the PDF sheet: the exercise label, ` 1. ... `
/// when Black plays first, then the numbered moves as figurine spans.
pub open spec fn pdf_solution_spec(puzzle_number: nat, p: PuzzleView) -> Result<Seq<SpanView>, Seq<char>> {
    match puzzle_start(p) {
        Err(e) => Err(e),
        Ok(start) => {
            let label = SpanView { font: PdfSolutionFont::Regular, text: exercise_label_spec(puzzle_number) };
            if board_side_to_move(start) == Side::Black {
                pdf_moves_from(
                    start,
                    words(p.moves),
                    1,
                    2,
                    2,
                    seq![label, SpanView { font: PdfSolutionFont::Regular, text: " 1. ... "@ }],
                )
            } else {
                pdf_moves_from(start, words(p.moves), 1, 1, 1, seq![label])
            }
        },
    }
}

/// A puzzle's moves can be read for its solution line without cutting a
/// character in two, up to the first one that is refused.
pub open spec fn solution_line_cuts_ok(p: PuzzleView) -> bool {
    let moves = words(p.moves);
    &&& (moves.len() > 0 && fen_read(p.fen) is Ok) ==> uci_cuts_ok(moves[0])
    &&& puzzle_start(p) matches Ok(start) ==> solution_cuts_ok(start, moves, 1)
}

/// The board on which a puzzle starts, after the opponent's first move.
fn start_board(puzzle: &Puzzle, moves: &Vec<Vec<char>>) -> (res: Result<String, String>)
    requires
        moves@.map_values(|w: Vec<char>| w@) == words(puzzle.moves@),
        (moves@.len() > 0 && fen_read(puzzle.fen@) is Ok) ==> uci_cuts_ok(moves@[0]@),
    ensures
        text_result(res) == puzzle_start(puzzle@),
        res matches Ok(b) ==> is_board(b@),
{
    if moves.len() == 0 {
        return Err(String::from_str("Puzzle has no moves"));
    }
    assert(words(puzzle.moves@)[0] == moves@[0]@);
    let original = match read_fen(puzzle.fen.as_str()) {
        Ok(b) => b,
        Err(e) => {
            return Err(error_with_two("Invalid FEN '", puzzle.fen.as_str(), "': ", e.as_str()));
        },
    };
    let first_move = string_from_chars(&moves[0]);
    let trigger = match parse_legal_uci_move(original.as_str(), first_move.as_str()) {
        Ok(m) => m,
        Err(e) => {
            return Err(error_then("Trigger move error: ", e.as_str()));
        },
    };
    Ok(make_move(original.as_str(), trigger.as_str()))
}

/// Builds the solution line of a puzzle for the PDF sheet. Where the line
/// cannot be built (the puzzle's position or a move is refused), the error
/// says why.
pub fn pdf_solution_spans(puzzle_number: usize, puzzle: &Puzzle) -> (res: Result<Vec<PdfSolutionSpan>, String>)
    requires
        solution_line_cuts_ok(puzzle@),
    ensures
        match res {
            Ok(spans) => pdf_solution_spec(puzzle_number as nat, puzzle@) == Ok::<Seq<SpanView>, Seq<char>>(spans_view(spans@)),
            Err(e) => pdf_solution_spec(puzzle_number as nat, puzzle@) == Err::<Seq<SpanView>, Seq<char>>(e@),
        },
{
    let moves_chars = chars_of(puzzle.moves.as_str());
    let moves = split_words(&moves_chars);
    let ghost ms = moves@.map_values(|w: Vec<char>| w@);
    assert(ms =~= words(puzzle.moves@));
    let start = match start_board(puzzle, &moves) {
        Ok(b) => b,
        Err(e) => {
            return Err(e);
        },
    };
    let mut spans: Vec<PdfSolutionSpan> = Vec::new();
    spans.push(PdfSolutionSpan { font: PdfSolutionFont::Regular, text: exercise_label(puzzle_number) });
    let mut half: u128 = 1;
    let mut label: u128 = 1;
    if side_to_move(start.as_str()) == Side::Black {
        spans.push(regular_text_span(" 1. ... "));
        half = 2;
        label = 2;
    }
    let mut board = start;
    let mut k: usize = 1;
    assert(spans_view(spans@) =~= if board_side_to_move(board@) == Side::Black {
        seq![
            SpanView { font: PdfSolutionFont::Regular, text: exercise_label_spec(puzzle_number as nat) },
            SpanView { font: PdfSolutionFont::Regular, text: " 1. ... "@ },
        ]
    } else {
        seq![SpanView { font: PdfSolutionFont::Regular, text: exercise_label_spec(puzzle_number as nat) }]
    });
    while k < moves.len()
        invariant
            ms == moves@.map_values(|w: Vec<char>| w@),
            ms.len() == moves@.len(),
            1 <= k,
            half <= k + 1,
            label <= k + 1,
            is_board(board@),
            solution_cuts_ok(board@, ms, k as int),
            pdf_solution_spec(puzzle_number as nat, puzzle@) == pdf_moves_from(
                board@,
                ms,
                k as int,
                half as nat,
                label as nat,
                spans_view(spans@),
            ),
        decreases moves.len() - k,
    {
        assert(ms[k as int] == moves@[k as int]@);
        let ghost before = spans_view(spans@);
        let mut lead: Vec<char> = Vec::new();
        lead.push(' ');
        if half % 2 != 0 {
            push_decimal(&mut lead, label);
            lead.push('.');
            lead.push(' ');
            label = label + 1;
        }
        assert(lead@ =~= pdf_move_lead(half as nat, (if half % 2 == 0 { label } else { (label - 1) as u128 }) as nat));
        let u = string_from_chars(&moves[k]);
        let m = match parse_legal_uci_move(board.as_str(), u.as_str()) {
            Ok(m) => m,
            Err(e) => {
                return Err(e);
            },
        };
        let san = match move_to_standard_san(board.as_str(), &m) {
            Ok(san) => san,
            Err(e) => {
                return Err(e);
            },
        };
        spans.push(regular_span(&lead));
        let mut more = standard_san_to_pdf_spans(san.as_str());
        let ghost mid = spans@;
        let ghost added = more@;
        spans.append(&mut more);
        assert(spans_view(spans@) =~= spans_view(mid) + spans_view(added));
        assert(spans_view(mid) =~= before.push(SpanView { font: PdfSolutionFont::Regular, text: lead@ }));
        board = make_move(board.as_str(), m.as_str());
        half = half + 1;
        k = k + 1;
    }
    Ok(spans)
}

/// The order in which a diagram lists files (left to right) and ranks (top
/// to bottom): from White's side when White is at the bottom.
pub open spec fn label_file(white_at_bottom: bool, i: int) -> int {
    if white_at_bottom {
        i
    } else {
        7 - i
    }
}

pub open spec fn label_rank(white_at_bottom: bool, i: int) -> int {
    if white_at_bottom {
        7 - i
    } else {
        i
    }
}

/// The files and ranks of a diagram, in the order they are drawn.
pub fn pdf_board_labels(white_at_bottom: bool) -> (res: ([i32; 8], [i32; 8]))
    ensures
        forall|i: int| 0 <= i < 8 ==> res.0@[i] == label_file(white_at_bottom, i),
        forall|i: int| 0 <= i < 8 ==> res.1@[i] == label_rank(white_at_bottom, i),
        res.0@.len() == 8,
        res.1@.len() == 8,
{
    if white_at_bottom {
        ([0, 1, 2, 3, 4, 5, 6, 7], [7, 6, 5, 4, 3, 2, 1, 0])
    } else {
        ([7, 6, 5, 4, 3, 2, 1, 0], [0, 1, 2, 3, 4, 5, 6, 7])
    }
}

/// The Chess Alpha glyph of a square: a piece in its colour's letters
/// (lowercase on a light square), else the light or dark empty square.
pub open spec fn diagram_glyph(kind: Option<PieceKind>, side: Option<Side>, light: bool) -> char {
    match kind {
        None => if light {
            ' '
        } else {
            '+'
        },
        Some(k) => {
            let dark_glyph = if side == Some(Side::White) {
                match k {
                    PieceKind::Pawn => 'P',
                    PieceKind::Rook => 'R',
                    PieceKind::Knight => 'H',
                    PieceKind::Bishop => 'B',
                    PieceKind::Queen => 'Q',
                    PieceKind::King => 'K',
                }
            } else {
                match k {
                    PieceKind::Rook => 'T',
                    PieceKind::Knight => 'J',
                    PieceKind::Bishop => 'N',
                    PieceKind::Queen => 'W',
                    PieceKind::King => 'L',
                    PieceKind::Pawn => 'O',
                }
            };
            if light {
                ascii_lower(dark_glyph)
            } else {
                dark_glyph
            }
        },
    }
}

/// The glyph of the square on a rank and file of a board.
pub open spec fn square_glyph(board: Seq<char>, rank: int, file: int) -> char {
    let square = (rank * 8 + file) as u8;
    diagram_glyph(
        board_piece_at(board, square),
        board_color_at(board, square),
        (rank + file) % 2 != 0,
    )
}

/// One drawn rank of a diagram: the glyphs of its squares in drawing order.
pub open spec fn diagram_row(board: Seq<char>, white_at_bottom: bool, i: int) -> Seq<char> {
    Seq::new(8, |j: int| square_glyph(board, label_rank(white_at_bottom, i), label_file(white_at_bottom, j)))
}

/// What a puzzle's diagram shows, placed from a corner point: its number
/// and the side-to-move marker above the board, the rank and file labels,
/// and the glyph rows from top to bottom.
pub struct DiagramPlan {
    pub white_at_bottom: bool,
    pub number: String,
    pub header_x: i32,
    pub header_y: i32,
    pub icon_cx: i32,
    pub icon_cy: i32,
    pub rank_labels: Vec<(i32, i32, char)>,
    pub rows: Vec<String>,
    pub file_labels: Vec<(i32, i32, char)>,
}

/// Where and what the `i`-th rank label of a diagram is.
pub open spec fn rank_label(white_at_bottom: bool, start_x: int, start_y: int, i: int) -> (i32, i32, char) {
    ((start_y - 10) as i32, (start_x - i * 25 + 5) as i32, rank_char(label_rank(white_at_bottom, i)))
}

/// Where and what the `i`-th file label of a diagram is.
pub open spec fn file_label(white_at_bottom: bool, start_x: int, start_y: int, i: int) -> (i32, i32, char) {
    ((start_y + i * 25 + 10) as i32, (start_x - 190) as i32, file_char(label_file(white_at_bottom, i)))
}

/// The diagram of a board after the puzzle's first move, numbered `index`,
/// placed from the corner point (`start_x`, `start_y`).
pub open spec fn diagram_plan_ok(
    plan: DiagramPlan,
    index: nat,
    board: Seq<char>,
    start_x: int,
    start_y: int,
) -> bool {
    let white = board_side_to_move(board) == Side::White;
    let num_width = decimal(index).len() * 7;
    &&& plan.white_at_bottom == white
    &&& plan.number@ == decimal(index)
    &&& plan.header_x == start_y + 100 - (num_width + 14) / 2
    &&& plan.header_y == start_x + 30
    &&& plan.icon_cx == plan.header_x + num_width + 9
    &&& plan.icon_cy == plan.header_y + 5
    &&& plan.rank_labels@.len() == 8
    &&& forall|i: int| 0 <= i < 8 ==> #[trigger] plan.rank_labels@[i] == rank_label(white, start_x, start_y, i)
    &&& plan.rows@.len() == 8
    &&& forall|i: int| 0 <= i < 8 ==> #[trigger] plan.rows@[i]@ == diagram_row(board, white, i)
    &&& plan.file_labels@.len() == 8
    &&& forall|i: int| 0 <= i < 8 ==> #[trigger] plan.file_labels@[i] == file_label(white, start_x, start_y, i)
}

/// Ten to the power `k`.
pub open spec fn pow10(k: nat) -> nat
    decreases k,
{
    if k == 0 {
        1
    } else {
        10 * pow10((k - 1) as nat)
    }
}

proof fn lemma_decimal_len(n: nat, k: nat)
    requires
        1 <= k,
        n < pow10(k),
    ensures
        1 <= decimal(n).len() <= k,
    decreases n,
{
    if n >= 10 {
        assert(k >= 2) by {
            if k == 1 {
                reveal_with_fuel(pow10, 2);
                assert(pow10(1) == 10);
            }
        }
        assert(n / 10 < pow10((k - 1) as nat));
        lemma_decimal_len(n / 10, (k - 1) as nat);
    }
}

fn glyph_row(board: &str, white_at_bottom: bool, i: usize) -> (res: String)
    requires
        is_board(board@),
        i < 8,
    ensures
        res@ == diagram_row(board@, white_at_bottom, i as int),
{
    let rank: u8 = if white_at_bottom { 7 - i as u8 } else { i as u8 };
    let mut row: Vec<char> = Vec::new();
    let mut j: u8 = 0;
    while j < 8
        invariant
            is_board(board@),
            i < 8,
            rank < 8,
            j <= 8,
            rank as int == label_rank(white_at_bottom, i as int),
            row@.len() == j,
            forall|k: int| 0 <= k < j ==> #[trigger] row@[k] == square_glyph(board@, rank as int, label_file(white_at_bottom, k)),
        decreases 8 - j,
    {
        let file: u8 = if white_at_bottom { j } else { 7 - j };
        let square = rank * 8 + file;
        let light = (rank + file) % 2 != 0;
        let glyph = match piece_at(board, square) {
            None => if light {
                ' '
            } else {
                '+'
            },
            Some(k) => {
                let dark_glyph = if color_at(board, square) == Some(Side::White) {
                    match k {
                        PieceKind::Pawn => 'P',
                        PieceKind::Rook => 'R',
                        PieceKind::Knight => 'H',
                        PieceKind::Bishop => 'B',
                        PieceKind::Queen => 'Q',
                        PieceKind::King => 'K',
                    }
                } else {
                    match k {
                        PieceKind::Rook => 'T',
                        PieceKind::Knight => 'J',
                        PieceKind::Bishop => 'N',
                        PieceKind::Queen => 'W',
                        PieceKind::King => 'L',
                        PieceKind::Pawn => 'O',
                    }
                };
                if light {
                    (((dark_glyph as u32) + 32) as u8) as char
                } else {
                    dark_glyph
                }
            },
        };
        row.push(glyph);
        j = j + 1;
    }
    assert(row@ =~= diagram_row(board@, white_at_bottom, i as int));
    string_from_chars(&row)
}

/// Plans the diagram of a puzzle for the PDF sheet: the board after the
/// opponent's first move, with White at the bottom when White is to move.
pub fn diagram_plan(index: usize, puzzle: &Puzzle, start_x: i32, start_y: i32) -> (res: Result<DiagramPlan, String>)
    requires
        i32::MIN + 190 <= start_x <= i32::MAX - 40,
        i32::MIN + 10 <= start_y <= i32::MAX - 185,
        words(puzzle.moves@).len() > 0 ==> uci_cuts_ok(words(puzzle.moves@)[0]),
    ensures
        match res {
            Ok(plan) => puzzle_start(puzzle@) matches Ok(board) && diagram_plan_ok(
                plan,
                index as nat,
                board,
                start_x as int,
                start_y as int,
            ),
            Err(e) => puzzle_start(puzzle@) == Err::<Seq<char>, Seq<char>>(e@),
        },
{
    let moves_chars = chars_of(puzzle.moves.as_str());
    let moves = split_words(&moves_chars);
    assert(moves@.map_values(|w: Vec<char>| w@) =~= words(puzzle.moves@));
    let board = match start_board(puzzle, &moves) {
        Ok(b) => b,
        Err(e) => {
            return Err(e);
        },
    };
    let white = side_to_move(board.as_str()) == Side::White;
    let mut digits: Vec<char> = Vec::new();
    push_decimal(&mut digits, index as u128);
    proof {
        reveal_with_fuel(pow10, 21);
        assert(pow10(20) == 100000000000000000000nat);
        lemma_decimal_len(index as nat, 20);
    }
    let num_width: i32 = (digits.len() as i32) * 7;
    let total_width: i32 = num_width + 4 + 10;
    let header_x = start_y + 100 - total_width / 2;
    let header_y = start_x + 30;
    let icon_cx = header_x + num_width + 4 + 10 / 2;
    let icon_cy = header_y + 5;
    let mut rank_labels: Vec<(i32, i32, char)> = Vec::new();
    let mut rows: Vec<String> = Vec::new();
    let mut file_labels: Vec<(i32, i32, char)> = Vec::new();
    let mut i: usize = 0;
    while i < 8
        invariant
            is_board(board@),
            white == (board_side_to_move(board@) == Side::White),
            i32::MIN + 190 <= start_x <= i32::MAX - 40,
            i32::MIN + 10 <= start_y <= i32::MAX - 185,
            i <= 8,
            rank_labels@.len() == i,
            rows@.len() == i,
            file_labels@.len() == i,
            forall|k: int| 0 <= k < i ==> #[trigger] rank_labels@[k] == rank_label(white, start_x as int, start_y as int, k),
            forall|k: int| 0 <= k < i ==> #[trigger] rows@[k]@ == diagram_row(board@, white, k),
            forall|k: int| 0 <= k < i ==> #[trigger] file_labels@[k] == file_label(white, start_x as int, start_y as int, k),
        decreases 8 - i,
    {
        let ii = i as i32;
        let rank: u8 = if white { 7 - i as u8 } else { i as u8 };
        let file: u8 = if white { i as u8 } else { 7 - i as u8 };
        rank_labels.push((start_y - 10, start_x - ii * 25 + 5, (49u8 + rank) as char));
        rows.push(glyph_row(board.as_str(), white, i));
        file_labels.push((start_y + ii * 25 + 10, start_x - 190, (97u8 + file) as char));
        i = i + 1;
    }
    let plan = DiagramPlan {
        white_at_bottom: white,
        number: string_from_chars(&digits),
        header_x,
        header_y,
        icon_cx,
        icon_cy,
        rank_labels,
        rows,
        file_labels,
    };
    Ok(plan)
}

/// How many diagram pages and how many solution lines a PDF sheet of a
/// puzzle list gets: six diagrams a page, for the pages asked for, or for
/// all puzzles when they fit in fewer.
pub open spec fn pdf_counts_spec(number_of_pages: i32, puzzle_count: usize) -> (usize, usize) {
    if ((6 * number_of_pages) as usize) > puzzle_count {
        (puzzle_count, ((puzzle_count + 5) / 6) as usize)
    } else {
        ((6 * number_of_pages) as usize, number_of_pages as usize)
    }
}

/// Counts the solution lines and the diagram pages of a PDF sheet.
pub fn pdf_counts(number_of_pages: i32, puzzle_count: usize) -> (res: (usize, usize))
    requires
        -357_913_941 <= number_of_pages <= 357_913_941,
    ensures
        res == pdf_counts_spec(number_of_pages, puzzle_count),
{
    let wanted = (6 * number_of_pages) as usize;
    if wanted > puzzle_count {
        (puzzle_count, puzzle_count / 6 + if puzzle_count % 6 == 0 { 0 } else { 1 })
    } else {
        (wanted, number_of_pages as usize)
    }
}

/// Where the `i`-th of the six diagrams of a page stands: two columns, three
/// rows.
pub fn diagram_position(i: usize) -> (res: (i32, i32))
    requires
        i < 6,
    ensures
        res.0 == 750 - 250 * (i / 2) as int,
        res.1 == if i % 2 == 0 {
            75int
        } else {
            325int
        },
{
    let row = (i / 2) as i32;
    (750 - 250 * row, if i % 2 == 0 { 75 } else { 325 })
}

/// Where the `j`-th solution line stands on its page, and whether a new page
/// starts after it: 44 lines a page, from the top down.
pub fn solution_line_position(j: usize) -> (res: (i32, bool))
    ensures
        res.0 == 800 - 18 * (j % 44) as int,
        res.1 == ((j + 1) % 44 == 0),
{
    let row = (j % 44) as i32;
    (800 - 18 * row, j % 44 == 43)
}

/// The font name and the text rise (in points) that a span is set with:
/// figurines are lowered a point.
pub fn pdf_span_style(font: PdfSolutionFont) -> (res: (&'static str, i32))
    ensures
        font == PdfSolutionFont::Regular ==> res.0@ == "Regular"@ && res.1 == 0,
        font == PdfSolutionFont::Figurine ==> res.0@ == "Chess Alpha"@ && res.1 == -1,
{
    match font {
        PdfSolutionFont::Regular => ("Regular", 0),
        PdfSolutionFont::Figurine => ("Chess Alpha", -1),
    }
}

} // verus!
