//! Parsing squares, promotion pieces and moves in coordinate notation.
use crate::defs::{BISHOP, KNIGHT, PNONE, QUEEN, ROOK};
use crate::movegen::defs::square_name;
use vstd::prelude::*;
use vstd::string::StringSliceAdditionalSpecFns;

verus! {

/// The ASCII lowercase of a byte (other bytes stay as they are).
pub open spec fn lower(b: u8) -> u8 {
    if 65 <= b <= 90 {
        (b + 32) as u8
    } else {
        b
    }
}

/// The square named by a file byte and a rank byte, the file in either
/// case.
pub open spec fn square_of(f: u8, r: u8) -> Option<int> {
    if 97 <= lower(f) <= 104 && 49 <= r <= 56 {
        Some((r - 49) * 8 + (lower(f) - 97))
    } else {
        None
    }
}

/// The promotion piece named by a letter, in either case.
pub open spec fn promotion_of(c: u8) -> Option<int> {
    if lower(c) == 113 {
        Some(QUEEN as int)
    } else if lower(c) == 114 {
        Some(ROOK as int)
    } else if lower(c) == 98 {
        Some(BISHOP as int)
    } else if lower(c) == 110 {
        Some(KNIGHT as int)
    } else {
        None
    }
}

/// A move in coordinate notation, read from its bytes: four bytes naming
/// the from- and the to-square, and optionally a fifth naming the
/// promotion piece; `(from, to, promotion)`, with "no piece" when there is
/// no promotion.
pub open spec fn parsed_move(b: Seq<u8>) -> Option<(int, int, int)> {
    if b.len() != 4 && b.len() != 5 {
        None
    } else {
        match (square_of(b[0], b[1]), square_of(b[2], b[3])) {
            (Some(f), Some(t)) => if b.len() == 5 {
                match promotion_of(b[4]) {
                    Some(p) => Some((f, t, p)),
                    None => None,
                }
            } else {
                Some((f, t, PNONE as int))
            },
            _ => None,
        }
    }
}

/// Where the move text can be cut into its square names without cutting
/// a character in two.
pub open spec fn move_text_cuttable(b: Seq<u8>) -> bool {
    (b.len() == 4 || b.len() == 5) ==> {
        &&& vstd::utf8::is_char_boundary(b, 2)
        &&& square_of(b[0], b[1]) is Some ==> vstd::utf8::is_char_boundary(b, 4)
    }
}

/// The square named by a file letter and a rank digit, each given as a
/// byte; the file in either case.
fn square_from_bytes(f: u8, r: u8) -> (sq: Option<usize>)
    ensures
        match square_of(f, r) {
            Some(s) => sq == Some(s as usize),
            None => sq is None,
        },
{
    let lf = if 65 <= f && f <= 90 { f + 32 } else { f };
    if 97 <= lf && lf <= 104 && 49 <= r && r <= 56 {
        Some(((r - 49) as usize) * 8 + ((lf - 97) as usize))
    } else {
        None
    }
}

/// Turns a move such as "e2e4" or "e7e8q" into its from-square, its
/// to-square and its promotion piece (or "no piece"). Letters may be in
/// either case.
pub fn algebraic_move_to_square_numbers(m: &str) -> (r: Result<(usize, usize, usize), ()>)
    requires
        move_text_cuttable(m.spec_bytes()),
    ensures
        match parsed_move(m.spec_bytes()) {
            Some(p) => r == Ok::<(usize, usize, usize), ()>((p.0 as usize, p.1 as usize, p.2 as usize)),
            None => r is Err,
        },
{
    let b = m.as_bytes();
    let len = b.len();
    if len != 4 && len != 5 {
        return Err(());
    }
    let from = square_from_bytes(b[0], b[1]);
    let to = square_from_bytes(b[2], b[3]);
    match (from, to) {
        (Some(f), Some(t)) => {
            if len == 5 {
                match promotion_piece_byte(b[4]) {
                    Some(p) => Ok((f, t, p)),
                    None => Err(()),
                }
            } else {
                Ok((f, t, PNONE))
            }
        },
        _ => Err(()),
    }
}

/// The promotion piece named by a byte.
fn promotion_piece_byte(c: u8) -> (p: Option<usize>)
    ensures
        match promotion_of(c) {
            Some(x) => p == Some(x as usize),
            None => p is None,
        },
{
    let lc = if 65 <= c && c <= 90 { c + 32 } else { c };
    if lc == 113 {
        Some(QUEEN)
    } else if lc == 114 {
        Some(ROOK)
    } else if lc == 98 {
        Some(BISHOP)
    } else if lc == 110 {
        Some(KNIGHT)
    } else {
        None
    }
}

/// The number of the square with the given name, such as "e4" (lower
/// case only), or `None` if it names no square.
pub fn algebraic_square_to_number(algebraic_square: &str) -> (sq: Option<usize>)
    ensures
        match sq {
            Some(s) => s < 64 && algebraic_square@ == square_name(s as int),
            None => forall|s: int| 0 <= s < 64 ==> algebraic_square@ != square_name(s),
        },
{
    proof {
        broadcast use vstd::string::is_ascii_spec_bytes;
    }
    if !algebraic_square.is_ascii() {
        proof {
            assert forall|s: int| 0 <= s < 64 implies algebraic_square@ != square_name(s) by {
                if algebraic_square@ == square_name(s) {
                    assert(vstd::utf8::is_ascii_chars(square_name(s)));
                }
            }
        }
        return None;
    }
    let b = algebraic_square.as_bytes();
    if b.len() != 2 {
        proof {
            assert forall|s: int| 0 <= s < 64 implies algebraic_square@ != square_name(s) by {
                assert(square_name(s).len() == 2);
            }
        }
        return None;
    }
    let f = b[0];
    let r = b[1];
    proof {
        vstd::utf8::is_ascii_chars_nat_bound(algebraic_square@);
        assert(f == algebraic_square@[0] as u8);
        assert(r == algebraic_square@[1] as u8);
        assert((algebraic_square@[0] as int) < 128);
        assert((algebraic_square@[1] as int) < 128);
        assert(f as int == algebraic_square@[0] as int);
        assert(r as int == algebraic_square@[1] as int);
    }
    if 97 <= f && f <= 104 && 49 <= r && r <= 56 {
        let sq = ((r - 49) as usize) * 8 + ((f - 97) as usize);
        proof {
            assert(algebraic_square@ =~= square_name(sq as int));
        }
        Some(sq)
    } else {
        proof {
            assert forall|s: int| 0 <= s < 64 implies algebraic_square@ != square_name(s) by {
                if algebraic_square@ == square_name(s) {
                    assert(algebraic_square@[0] == square_name(s)[0]);
                    assert(algebraic_square@[1] == square_name(s)[1]);
                }
            }
        }
        None
    }
}

/// The promotion piece named by a letter, in either case: queen, rook,
/// bishop or knight; `None` for any other character.
pub fn promotion_piece_letter_to_number(piece_letter: char) -> (p: Option<usize>)
    ensures
        p == if piece_letter == 'q' || piece_letter == 'Q' {
            Some(QUEEN)
        } else if piece_letter == 'r' || piece_letter == 'R' {
            Some(ROOK)
        } else if piece_letter == 'b' || piece_letter == 'B' {
            Some(BISHOP)
        } else if piece_letter == 'n' || piece_letter == 'N' {
            Some(KNIGHT)
        } else {
            None::<usize>
        },
{
    match piece_letter {
        'q' | 'Q' => Some(QUEEN),
        'r' | 'R' => Some(ROOK),
        'b' | 'B' => Some(BISHOP),
        'n' | 'N' => Some(KNIGHT),
        _ => None,
    }
}


/// A square name names exactly one square.
pub proof fn lemma_square_name_unique(a: int, b: int)
    requires
        0 <= a < 64,
        0 <= b < 64,
        square_name(a) == square_name(b),
    ensures
        a == b,
{
    assert(square_name(a)[0] == square_name(b)[0]);
    assert(square_name(a)[1] == square_name(b)[1]);
}

/// Reading back the coordinate text of a move gives its from-square,
/// to-square and promotion piece: the text that `Move::as_string` writes
/// (two square names and the promotion letter, none when there is no
/// promotion) is what `algebraic_move_to_square_numbers` reads.
pub proof fn lemma_move_text_round_trip(from: int, to: int, promotion: int)
    requires
        0 <= from < 64,
        0 <= to < 64,
        promotion == QUEEN || promotion == ROOK || promotion == BISHOP || promotion == KNIGHT || promotion == PNONE,
    ensures
        parsed_move(vstd::utf8::encode_utf8(square_name(from) + square_name(to) + crate::movegen::defs::promotion_name(promotion)))
            == Some((from, to, promotion)),
{
    let chars = square_name(from) + square_name(to) + crate::movegen::defs::promotion_name(promotion);
    assert(vstd::utf8::is_ascii_chars(chars));
    vstd::utf8::is_ascii_chars_encode_utf8(chars);
    let b = vstd::utf8::encode_utf8(chars);
    assert(b[0] == chars[0] as u8);
    assert(b[1] == chars[1] as u8);
    assert(b[2] == chars[2] as u8);
    assert(b[3] == chars[3] as u8);
    if promotion != PNONE {
        assert(b[4] == chars[4] as u8);
    }
}

} // verus!
