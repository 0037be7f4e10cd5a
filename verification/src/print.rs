//! Turning positions and bitboards into text: an 8x8 board of piece
//! letters and the castling rights.
use crate::bitboard::{bit_set, lemma_bit_shr};
use crate::board::{Board, CASTLE_BK, CASTLE_BQ, CASTLE_WK, CASTLE_WQ};
use crate::defs::Bitboard;
use vstd::prelude::*;

verus! {

/// The character of an empty square.
pub const ASCII_EMPTY_SQUARE: char = '.';

/// The letters of the white pieces, by piece type (pawns are `I`).
pub const WHITE_CHARS: [char; 6] = ['K', 'Q', 'R', 'B', 'N', 'I'];

/// The letters of the black pieces, by piece type (pawns are `i`).
pub const BLACK_CHARS: [char; 6] = ['k', 'q', 'r', 'b', 'n', 'i'];

/// The character shown on square `i` after the pieces of types below `p`
/// were drawn over `c`: for each type, white first, then black; a later
/// piece on the same square covers an earlier one.
pub open spec fn drawn_char(board: Board, i: u64, c: char, p: int) -> char
    decreases p,
{
    if p <= 0 {
        c
    } else {
        let below = drawn_char(board, i, c, p - 1);
        let after_white = if bit_set(board.bb_pieces[0][p - 1], i) { WHITE_CHARS[p - 1] } else { below };
        if bit_set(board.bb_pieces[1][p - 1], i) { BLACK_CHARS[p - 1] } else { after_white }
    }
}

/// Puts `character` on every square of `ascii_board` whose bit is set in
/// `bitboard`; the other squares keep their character.
pub fn put_character_on_square(bitboard: Bitboard, ascii_board: &mut [char; 64], character: char)
    ensures
        forall|i: int| 0 <= i < 64 ==> #[trigger] final(ascii_board)[i] == if bit_set(bitboard, i as u64) {
            character
        } else {
            old(ascii_board)[i]
        },
{
    let mut i: usize = 0;
    while i < 64
        invariant
            0 <= i <= 64,
            forall|j: int| 0 <= j < i ==> #[trigger] ascii_board[j] == if bit_set(bitboard, j as u64) {
                character
            } else {
                old(ascii_board)[j]
            },
            forall|j: int| i <= j < 64 ==> #[trigger] ascii_board[j] == old(ascii_board)[j],
        decreases 64 - i,
    {
        proof {
            lemma_bit_shr(bitboard, i as u64, 0);
            assert(bit_set(bitboard, i as u64) == ((bitboard >> (i as u64)) & 1 == 1)) by {
                assert(((bitboard >> (i as u64)) >> 0u64) == (bitboard >> (i as u64))) by (bit_vector);
            }
        }
        if (bitboard >> (i as u64)) & 1 == 1 {
            ascii_board[i] = character;
        }
        i += 1;
    }
}

/// Draws the pieces of a position on an ASCII board, by piece type from
/// king to pawn, white before black.
pub fn bitboards_to_ascii(board: &Board, ascii_board: &mut [char; 64])
    ensures
        forall|i: int| 0 <= i < 64 ==> #[trigger] final(ascii_board)[i] == drawn_char(*board, i as u64, old(ascii_board)[i], 6),
{
    let ghost start = *ascii_board;
    let mut piece: usize = 0;
    while piece < 6
        invariant
            0 <= piece <= 6,
            forall|i: int| 0 <= i < 64 ==> #[trigger] ascii_board[i] == drawn_char(*board, i as u64, start[i], piece as int),
        decreases 6 - piece,
    {
        put_character_on_square(board.bb_pieces[0][piece], ascii_board, WHITE_CHARS[piece]);
        put_character_on_square(board.bb_pieces[1][piece], ascii_board, BLACK_CHARS[piece]);
        piece += 1;
    }
}

/// The castling rights as text: `K`, `Q`, `k`, `q` for those present, in
/// that order.
pub open spec fn castling_text(p: u8) -> Seq<char> {
    (if p & CASTLE_WK > 0 { seq!['K'] } else { Seq::empty() })
        + (if p & CASTLE_WQ > 0 { seq!['Q'] } else { Seq::empty() })
        + (if p & CASTLE_BK > 0 { seq!['k'] } else { Seq::empty() })
        + (if p & CASTLE_BQ > 0 { seq!['q'] } else { Seq::empty() })
}

/// The castling rights as text.
pub fn castling_as_string(permissions: u8) -> (s: String)
    ensures
        s@ == castling_text(permissions),
{
    proof {
        reveal_strlit("K");
        reveal_strlit("Q");
        reveal_strlit("k");
        reveal_strlit("q");
        reveal_strlit("");
    }
    let mut s = String::new();
    let p = permissions;
    s.append(if p & CASTLE_WK > 0 { "K" } else { "" });
    s.append(if p & CASTLE_WQ > 0 { "Q" } else { "" });
    s.append(if p & CASTLE_BK > 0 { "k" } else { "" });
    s.append(if p & CASTLE_BQ > 0 { "q" } else { "" });
    proof {
        assert(s@ =~= castling_text(p));
    }
    s
}

} // verus!
