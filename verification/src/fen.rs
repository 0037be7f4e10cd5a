//! Reading a position in Forsyth-Edwards Notation: six fields separated
//! by spaces (piece placement, side to move, castling rights, en-passant
//! square, half-move clock, full-move number). A field that breaks the
//! notation's rules is not accepted; the functions here are defined for
//! the accepted ones.
use crate::bitboard::{bit_set, lemma_bit_or, lemma_bit_zero};
use crate::board::{Board, GameState, CASTLE_BK, CASTLE_BQ, CASTLE_WK, CASTLE_WQ};
use crate::defs::{BISHOP, BLACK, KING, KNIGHT, PAWN, PNONE, QUEEN, ROOK, WHITE};
use vstd::prelude::*;
use vstd::string::StringSliceAdditionalSpecFns;

verus! {

pub const NR_OF_FEN_PARTS: usize = 6;
pub const MAX_FULL_MOVES: u16 = 9999;

/// The side and piece type a placement letter stands for.
pub open spec fn fen_piece(c: u8) -> Option<(int, int)> {
    if c == 107 { Some((BLACK as int, KING as int)) }
    else if c == 113 { Some((BLACK as int, QUEEN as int)) }
    else if c == 114 { Some((BLACK as int, ROOK as int)) }
    else if c == 98 { Some((BLACK as int, BISHOP as int)) }
    else if c == 110 { Some((BLACK as int, KNIGHT as int)) }
    else if c == 112 { Some((BLACK as int, PAWN as int)) }
    else if c == 75 { Some((WHITE as int, KING as int)) }
    else if c == 81 { Some((WHITE as int, QUEEN as int)) }
    else if c == 82 { Some((WHITE as int, ROOK as int)) }
    else if c == 66 { Some((WHITE as int, BISHOP as int)) }
    else if c == 78 { Some((WHITE as int, KNIGHT as int)) }
    else if c == 80 { Some((WHITE as int, PAWN as int)) }
    else { None }
}

/// Where the placement reader stands: rank, file, and the piece
/// bitboards so far, white's six then black's six.
pub struct PlacementState {
    pub rank: int,
    pub file: int,
    pub bbs: Seq<u64>,
}

/// One character of the placement field. A piece letter adds its piece
/// on the current square and moves one file on; a digit skips that many
/// files; a slash, allowed only after exactly eight files and above the
/// first rank, goes to the start of the next rank down. Anything else, or
/// counting past what the counters hold, is not accepted (`None`).
pub open spec fn placement_step(st: PlacementState, c: u8) -> Option<PlacementState> {
    let square = st.rank * 8 + st.file;
    if square > 255 {
        None
    } else {
        match fen_piece(c) {
            Some((s, p)) => {
                let k = s * 6 + p;
                if square >= 64 || st.bbs[k] + (1u64 << square as u64) > u64::MAX || st.file + 1 > 255 {
                    None
                } else {
                    Some(PlacementState {
                        rank: st.rank,
                        file: st.file + 1,
                        bbs: st.bbs.update(k, (st.bbs[k] + (1u64 << square as u64)) as u64),
                    })
                }
            },
            None => if 49 <= c <= 56 {
                if st.file + (c - 48) > 255 {
                    None
                } else {
                    Some(PlacementState { rank: st.rank, file: st.file + (c - 48), bbs: st.bbs })
                }
            } else if c == 47 {
                if st.file != 8 || st.rank == 0 {
                    None
                } else {
                    Some(PlacementState { rank: st.rank - 1, file: 0, bbs: st.bbs })
                }
            } else {
                None
            },
        }
    }
}

/// The placement reader at the start: top rank, first file, no pieces.
pub open spec fn placement_start() -> PlacementState {
    PlacementState { rank: 7, file: 0, bbs: Seq::new(12, |i: int| 0u64) }
}

/// The placement reader after the characters `part`.
pub open spec fn placement_run(part: Seq<u8>) -> Option<PlacementState>
    decreases part.len(),
{
    if part.len() == 0 {
        Some(placement_start())
    } else {
        match placement_run(part.drop_last()) {
            Some(st) => placement_step(st, part.last()),
            None => None,
        }
    }
}

/// The value of a string of decimal digits.
pub open spec fn decimal(digits: Seq<u8>) -> int
    decreases digits.len(),
{
    if digits.len() == 0 {
        0
    } else {
        decimal(digits.drop_last()) * 10 + (digits.last() - 48)
    }
}

/// The digits of a number: what follows an optional plus sign.
pub open spec fn number_digits(b: Seq<u8>) -> Seq<u8> {
    if b.len() > 0 && b[0] == 43 {
        b.drop_first()
    } else {
        b
    }
}

/// Every byte is a decimal digit.
pub open spec fn all_digits(s: Seq<u8>) -> bool {
    forall|i: int| 0 <= i < s.len() ==> 48 <= #[trigger] s[i] <= 57
}

/// An unsigned number as Rust's `from_str` reads it: an optional plus
/// sign and at least one decimal digit, at most `max`.
pub open spec fn parse_unsigned(b: Seq<u8>, max: int) -> Option<int> {
    let digits = number_digits(b);
    if digits.len() == 0 || !all_digits(digits) {
        None
    } else if decimal(digits) > max {
        None
    } else {
        Some(decimal(digits))
    }
}

/// The side-to-move field: `w` or `b`.
pub open spec fn side_field(b: Seq<u8>) -> Option<u8> {
    if b.len() == 1 && b[0] == 119 {
        Some(WHITE as u8)
    } else if b.len() == 1 && b[0] == 98 {
        Some(BLACK as u8)
    } else {
        None
    }
}

/// The castling bit a letter stands for, if it stands for one.
pub open spec fn castle_bit(c: u8) -> Option<u8> {
    if c == 75 { Some(CASTLE_WK) }
    else if c == 81 { Some(CASTLE_WQ) }
    else if c == 107 { Some(CASTLE_BK) }
    else if c == 113 { Some(CASTLE_BQ) }
    else { None }
}

/// The sum of the castling bits of the letters (a letter given twice
/// counts twice).
pub open spec fn castle_sum(b: Seq<u8>) -> int
    decreases b.len(),
{
    if b.len() == 0 {
        0
    } else {
        castle_sum(b.drop_last()) + match castle_bit(b.last()) {
            Some(x) => x as int,
            None => 0int,
        }
    }
}

/// The castling rights named by the letters of `b`, each letter counted
/// as often as it occurs: `K` white kingside, `Q` white queenside, `k`
/// black kingside, `q` black queenside.
pub open spec fn named_rights(b: Seq<u8>) -> int {
    let m = b.to_multiset();
    m.count(75u8) * CASTLE_WK + m.count(81u8) * CASTLE_WQ + m.count(107u8) * CASTLE_BK + m.count(113u8) * CASTLE_BQ
}

proof fn lemma_castle_sum_counts(b: Seq<u8>)
    requires
        forall|i: int| 0 <= i < b.len() ==> castle_bit(#[trigger] b[i]) is Some,
    ensures
        castle_sum(b) == named_rights(b),
    decreases b.len(),
{
    broadcast use vstd::seq_lib::group_to_multiset_ensures;
    if b.len() == 0 {
        assert(b.to_multiset() =~= vstd::multiset::Multiset::<u8>::empty());
    } else {
        let p = b.drop_last();
        assert forall|i: int| 0 <= i < p.len() implies castle_bit(#[trigger] p[i]) is Some by {
            assert(p[i] == b[i]);
        }
        lemma_castle_sum_counts(p);
        assert(p.push(b.last()) =~= b);
        assert(b.to_multiset() =~= p.to_multiset().insert(b.last()));
        assert(castle_bit(b[b.len() - 1]) is Some);
    }
}

/// Each castling letter sets its own right, whatever the order of the
/// letters: a field of two to four letters grants white kingside for `K`,
/// white queenside for `Q`, black kingside for `k` and black queenside for
/// `q`, and nothing else (so `KQ` gives 3 and `Kk` gives 5).
pub proof fn lemma_castling_letters(b: Seq<u8>)
    requires
        2 <= b.len() <= 4,
        castling_field(b) is Some,
    ensures
        castling_field(b)->0 == named_rights(b),
        b.no_duplicates() ==> castling_field(b)->0 == (if b.contains(75u8) { CASTLE_WK as int } else { 0 })
            + (if b.contains(81u8) { CASTLE_WQ as int } else { 0 }) + (if b.contains(107u8) {
            CASTLE_BK as int
        } else {
            0
        }) + (if b.contains(113u8) { CASTLE_BQ as int } else { 0 }),
{
    broadcast use vstd::seq_lib::group_to_multiset_ensures;
    lemma_castle_sum_counts(b);
    if b.no_duplicates() {
        assert forall|c: u8| b.to_multiset().count(c) <= 1 by {
            lemma_count_no_duplicates(b, c);
        }
    }
}

proof fn lemma_count_no_duplicates(b: Seq<u8>, c: u8)
    requires
        b.no_duplicates(),
    ensures
        b.to_multiset().count(c) <= 1,
    decreases b.len(),
{
    broadcast use vstd::seq_lib::group_to_multiset_ensures;
    if b.len() > 0 {
        let p = b.drop_last();
        assert(p.push(b.last()) =~= b);
        assert(p.no_duplicates());
        lemma_count_no_duplicates(p, c);
        if b.last() == c && p.contains(c) {
            let i = choose|i: int| 0 <= i < p.len() && p[i] == c;
            assert(b[i] == b[b.len() - 1]);
        }
    }
}

/// The castling field: empty; a single `-` or castling letter (which sets
/// no right); or two to four castling letters, whose bits are added up.
/// `None` if it is not accepted.
pub open spec fn castling_field(b: Seq<u8>) -> Option<int> {
    if b.len() == 0 {
        Some(0)
    } else if b.len() == 1 {
        if b[0] == 45 || castle_bit(b[0]) is Some { Some(0) } else { None }
    } else if b.len() <= 4 && forall|i: int| 0 <= i < b.len() ==> castle_bit(#[trigger] b[i]) is Some {
        Some(castle_sum(b))
    } else {
        None
    }
}

/// The en-passant field: empty or `-` (no square), or a file letter and
/// the rank digit 3 or 6. The outer option is `None` if it is not
/// accepted.
pub open spec fn en_passant_field(b: Seq<u8>) -> Option<Option<int>> {
    if b.len() == 0 || (b.len() == 1 && b[0] == 45) {
        Some(None)
    } else if b.len() == 2 && 97 <= b[0] <= 104 && (b[1] == 51 || b[1] == 54) {
        Some(Some((b[1] - 49) * 8 + (b[0] - 97)))
    } else {
        None
    }
}

/// The half-move clock field: one or two characters holding a number up
/// to 50.
pub open spec fn halfmove_field(b: Seq<u8>) -> Option<int> {
    if (b.len() == 1 || b.len() == 2) && parse_unsigned(b, 255) is Some && parse_unsigned(b, 255)->0 <= 50 {
        parse_unsigned(b, 255)
    } else {
        None
    }
}

/// The full-move number field: a number up to the maximum.
pub open spec fn fullmove_field(b: Seq<u8>) -> Option<int> {
    if parse_unsigned(b, 65535) is Some && parse_unsigned(b, 65535)->0 <= MAX_FULL_MOVES {
        parse_unsigned(b, 65535)
    } else {
        None
    }
}

/// The fields of a text separated by single spaces (empty fields
/// included), as `str::split` gives them.
pub open spec fn split_spaces(b: Seq<u8>) -> Seq<Seq<u8>>
    decreases b.len(),
{
    if b.len() == 0 {
        seq![Seq::empty()]
    } else {
        let prev = split_spaces(b.drop_last());
        if b.last() == 32 {
            prev.push(Seq::empty())
        } else {
            prev.update(prev.len() - 1, prev.last().push(b.last()))
        }
    }
}

proof fn lemma_split_nonempty(b: Seq<u8>)
    ensures
        split_spaces(b).len() >= 1,
    decreases b.len(),
{
    if b.len() > 0 {
        lemma_split_nonempty(b.drop_last());
    }
}

/// All six fields are accepted.
pub open spec fn fen_accepted(b: Seq<u8>) -> bool {
    let parts = split_spaces(b);
    &&& parts.len() == NR_OF_FEN_PARTS
    &&& placement_run(parts[0]) is Some
    &&& side_field(parts[1]) is Some
    &&& castling_field(parts[2]) is Some
    &&& en_passant_field(parts[3]) is Some
    &&& halfmove_field(parts[4]) is Some
    &&& fullmove_field(parts[5]) is Some
}

/// Reads the placement field into the piece bitboards of `board`.
fn part_0(part: &[u8], board: &mut Board)
    requires
        placement_run(part@) is Some,
    ensures
        forall|s: int, p: int| 0 <= s < 2 && 0 <= p < 6 ==> #[trigger] final(board).bb_pieces[s][p]
            == old(board).bb_pieces[s][p] | placement_run(part@)->0.bbs[s * 6 + p],
        final(board).bb_side == old(board).bb_side,
        final(board).piece_list == old(board).piece_list,
        final(board).game_state == old(board).game_state,
        final(board).history@ == old(board).history@,
{
    let mut bbs: [[u64; 6]; 2] = [[0u64; 6]; 2];
    let mut rank: u8 = 7;
    let mut file: u8 = 0;
    let mut i: usize = 0;
    proof {
        assert(part@.take(0) =~= Seq::<u8>::empty());
    }
    while i < part.len()
        invariant
            0 <= i <= part@.len(),
            placement_run(part@) is Some,
            placement_run(part@.take(i as int)) is Some,
            placement_run(part@.take(i as int))->0.rank == rank,
            placement_run(part@.take(i as int))->0.file == file,
            placement_run(part@.take(i as int))->0.bbs.len() == 12,
            forall|s: int, p: int| 0 <= s < 2 && 0 <= p < 6 ==> #[trigger] bbs[s][p] == placement_run(part@.take(i as int))->0.bbs[s * 6 + p],
        decreases part@.len() - i,
    {
        proof {
            assert(part@.take(i as int + 1).drop_last() =~= part@.take(i as int));
            lemma_run_prefix(part@, i as int + 1);
        }
        let c = part[i];
        let ghost st = placement_run(part@.take(i as int))->0;
        proof {
            assert(part@.take(i as int + 1).last() == c);
            assert(placement_run(part@.take(i as int + 1)) == placement_step(st, c));
        }
        let square: u8 = rank * 8 + file;
        let which: Option<(usize, usize)> = if c == 107 { Some((BLACK, KING)) }
            else if c == 113 { Some((BLACK, QUEEN)) }
            else if c == 114 { Some((BLACK, ROOK)) }
            else if c == 98 { Some((BLACK, BISHOP)) }
            else if c == 110 { Some((BLACK, KNIGHT)) }
            else if c == 112 { Some((BLACK, PAWN)) }
            else if c == 75 { Some((WHITE, KING)) }
            else if c == 81 { Some((WHITE, QUEEN)) }
            else if c == 82 { Some((WHITE, ROOK)) }
            else if c == 66 { Some((WHITE, BISHOP)) }
            else if c == 78 { Some((WHITE, KNIGHT)) }
            else if c == 80 { Some((WHITE, PAWN)) }
            else { None };
        match which {
            Some((s, p)) => {
                let ghost k = s * 6 + p;
                assert(fen_piece(c) == Some((s as int, p as int)));
                let mut row = bbs[s];
                row[p] = row[p] + (1u64 << square);
                bbs[s] = row;
                file += 1;
                proof {
                    let st2 = placement_step(st, c)->0;
                    assert forall|a: int, q: int| 0 <= a < 2 && 0 <= q < 6 implies #[trigger] bbs[a][q] == st2.bbs[a * 6 + q] by {
                        if a * 6 + q == k {
                            assert(a == s && q == p);
                        }
                    }
                }
            },
            None => {
                if 49 <= c && c <= 56 {
                    file += c - 48;
                } else {
                    rank -= 1;
                    file = 0;
                }
            },
        }
        i += 1;
    }
    proof {
        assert(part@.take(part@.len() as int) =~= part@);
    }
    let mut s: usize = 0;
    while s < 2
        invariant
            0 <= s <= 2,
            placement_run(part@) is Some,
            forall|a: int, p: int| 0 <= a < 2 && 0 <= p < 6 ==> #[trigger] bbs[a][p] == placement_run(part@)->0.bbs[a * 6 + p],
            forall|a: int, p: int| 0 <= a < s && 0 <= p < 6 ==> #[trigger] board.bb_pieces[a][p]
                == old(board).bb_pieces[a][p] | bbs[a][p],
            forall|a: int, p: int| s <= a < 2 && 0 <= p < 6 ==> #[trigger] board.bb_pieces[a][p] == old(board).bb_pieces[a][p],
            board.bb_side == old(board).bb_side,
            board.piece_list == old(board).piece_list,
            board.game_state == old(board).game_state,
            board.history@ == old(board).history@,
        decreases 2 - s,
    {
        let mut row = board.bb_pieces[s];
        let mut p: usize = 0;
        while p < 6
            invariant
                0 <= p <= 6,
                s < 2,
                forall|q: int| 0 <= q < p ==> #[trigger] row[q] == old(board).bb_pieces[s as int][q] | bbs[s as int][q],
                forall|q: int| p <= q < 6 ==> #[trigger] row[q] == old(board).bb_pieces[s as int][q],
            decreases 6 - p,
        {
            row[p] = row[p] | bbs[s][p];
            p += 1;
        }
        board.bb_pieces[s] = row;
        s += 1;
    }
}

/// Each step of a run that gets through `part` got through its prefixes.
proof fn lemma_run_prefix(part: Seq<u8>, n: int)
    requires
        0 <= n <= part.len(),
        placement_run(part) is Some,
    ensures
        placement_run(part.take(n)) is Some,
    decreases part.len() - n,
{
    if n < part.len() {
        lemma_run_prefix(part, n + 1);
        assert(part.take(n + 1).drop_last() =~= part.take(n));
    } else {
        assert(part.take(n) =~= part);
    }
}


/// Reads the side-to-move field.
fn part_1(part: &[u8], board: &mut Board)
    requires
        side_field(part@) is Some,
    ensures
        *final(board) == (Board { game_state: GameState { active_color: side_field(part@)->0, ..old(board).game_state }, ..*old(board) }),
{
    if part[0] == 119 {
        board.game_state.active_color = WHITE as u8;
    } else {
        board.game_state.active_color = BLACK as u8;
    }
}

/// Reads the castling field, adding the rights to those already set.
fn part_2(part: &[u8], board: &mut Board)
    requires
        castling_field(part@) is Some,
        old(board).game_state.castling + 32 <= u8::MAX,
    ensures
        *final(board) == (Board {
            game_state: GameState {
                castling: (old(board).game_state.castling + castling_field(part@)->0) as u8,
                ..old(board).game_state
            },
            ..*old(board)
        }),
{
    let length = part.len();
    if length > 1 {
        let mut i: usize = 0;
        proof {
            assert(part@.take(0) =~= Seq::<u8>::empty());
        }
        while i < length
            invariant
                0 <= i <= length,
                length == part@.len(),
                2 <= length <= 4,
                forall|k: int| 0 <= k < part@.len() ==> castle_bit(#[trigger] part@[k]) is Some,
                board.game_state.castling == old(board).game_state.castling + castle_sum(part@.take(i as int)),
                castle_sum(part@.take(i as int)) <= 8 * i,
                *board == (Board { game_state: GameState { castling: board.game_state.castling, ..old(board).game_state }, ..*old(board) }),
                old(board).game_state.castling + 32 <= u8::MAX,
            decreases length - i,
        {
            proof {
                assert(part@.take(i as int + 1).drop_last() =~= part@.take(i as int));
                assert(part@.take(i as int + 1).last() == part@[i as int]);
            }
            let c = part[i];
            let bit: u8 = if c == 75 {
                CASTLE_WK
            } else if c == 81 {
                CASTLE_WQ
            } else if c == 107 {
                CASTLE_BK
            } else {
                CASTLE_BQ
            };
            board.game_state.castling = board.game_state.castling + bit;
            i += 1;
        }
        proof {
            assert(part@.take(length as int) =~= part@);
        }
    }
}

/// Reads the en-passant field.
fn part_3(part: &[u8], board: &mut Board)
    requires
        en_passant_field(part@) is Some,
    ensures
        en_passant_field(part@)->0 matches Some(sq) ==> *final(board) == (Board {
            game_state: GameState { en_passant: Some(sq as u8), ..old(board).game_state },
            ..*old(board)
        }),
        en_passant_field(part@)->0 is None ==> *final(board) == *old(board),
{
    if part.len() == 2 {
        let file = part[0] - 97;
        let rank = part[1] - 49;
        board.game_state.en_passant = Some(rank * 8 + file);
    }
}

/// Reads an unsigned number the way `from_str` does: an optional plus
/// sign, then decimal digits; `None` unless the value is at most `max`.
fn parse_number(b: &[u8], max: u32) -> (r: Option<u32>)
    requires
        max >= 9,
    ensures
        match parse_unsigned(b@, max as int) {
            Some(v) => r == Some(v as u32),
            None => r is None,
        },
{
    let start: usize = if b.len() > 0 && b[0] == 43 { 1 } else { 0 };
    let ghost digits = number_digits(b@);
    proof {
        assert(digits =~= b@.subrange(start as int, b@.len() as int));
    }
    if start >= b.len() {
        return None;
    }
    let mut value: u32 = 0;
    let mut i: usize = start;
    proof {
        assert(digits.take(0) =~= Seq::<u8>::empty());
    }
    while i < b.len()
        invariant
            start <= i <= b@.len(),
            digits =~= b@.subrange(start as int, b@.len() as int),
            digits == number_digits(b@),
            forall|k: int| 0 <= k < i - start ==> 48 <= #[trigger] digits[k] <= 57,
            value == decimal(digits.take(i - start)),
            value <= max,
            max >= 9,
        decreases b@.len() - i,
    {
        let c = b[i];
        if c < 48 || c > 57 {
            proof {
                let k = i - start;
                assert(!(48 <= digits[k] <= 57));
                assert(!all_digits(digits));
            }
            return None;
        }
        proof {
            assert(digits.take(i - start + 1).drop_last() =~= digits.take(i - start));
            assert(digits.take(i - start + 1).last() == c);
        }
        let d = (c - 48) as u32;
        if value > (max - d) / 10 {
            proof {
                assert(decimal(digits.take(i - start + 1)) > max) by (nonlinear_arith)
                    requires
                        decimal(digits.take(i - start + 1)) == value * 10 + d,
                        value > (max - d) / 10,
                        d <= 9,
                        d <= max || true,
                ;
                if all_digits(digits) {
                    lemma_decimal_prefix_bound(digits, i - start + 1);
                }
            }
            return None;
        }
        proof {
            assert(value * 10 + d <= max) by (nonlinear_arith)
                requires
                    value <= (max - d) / 10,
                    d <= 9,
            ;
        }
        value = value * 10 + d;
        i += 1;
    }
    proof {
        assert(digits.take(digits.len() as int) =~= digits);
        assert(digits.len() == b@.len() - start);
        assert(all_digits(digits));
    }
    Some(value)
}


/// With decimal digits only, a number is at least the number formed by
/// any of its prefixes.
proof fn lemma_decimal_prefix_bound(digits: Seq<u8>, n: int)
    requires
        0 <= n <= digits.len(),
        forall|k: int| 0 <= k < digits.len() ==> 48 <= #[trigger] digits[k] <= 57,
    ensures
        decimal(digits) >= decimal(digits.take(n)),
        decimal(digits) >= 0,
    decreases digits.len(),
{
    if digits.len() == 0 {
        assert(digits.take(n) =~= digits);
    } else if n == digits.len() {
        assert(digits.take(n) =~= digits);
        lemma_decimal_prefix_bound(digits.drop_last(), 0);
    } else {
        lemma_decimal_prefix_bound(digits.drop_last(), n);
        assert(digits.drop_last().take(n) =~= digits.take(n));
    }
}



/// Reads the half-move clock field.
fn part_4(part: &[u8], board: &mut Board)
    requires
        halfmove_field(part@) is Some,
    ensures
        *final(board) == (Board {
            game_state: GameState { halfmove_clock: halfmove_field(part@)->0 as u8, ..old(board).game_state },
            ..*old(board)
        }),
{
    let r = parse_number(part, 255);
    proof {
        assert(parse_unsigned(part@, 255u32 as int) is Some);
        lemma_parse_range(part@, 255);
    }
    if let Some(x) = r {
        board.game_state.halfmove_clock = x as u8;
    }
}

/// Reads the full-move number field.
fn part_5(part: &[u8], board: &mut Board)
    requires
        fullmove_field(part@) is Some,
    ensures
        *final(board) == (Board {
            game_state: GameState { fullmove_number: fullmove_field(part@)->0 as u16, ..old(board).game_state },
            ..*old(board)
        }),
{
    let r = parse_number(part, 65535);
    proof {
        assert(parse_unsigned(part@, 65535u32 as int) is Some);
        lemma_parse_range(part@, 65535);
    }
    if let Some(x) = r {
        board.game_state.fullmove_number = x as u16;
    }
}

/// Splits a text at every space, keeping empty fields.
fn split_fields(b: &[u8]) -> (parts: Vec<Vec<u8>>)
    ensures
        parts@.len() == split_spaces(b@).len(),
        forall|k: int| 0 <= k < parts@.len() ==> (#[trigger] parts@[k])@ == split_spaces(b@)[k],
{
    let mut parts: Vec<Vec<u8>> = Vec::new();
    let mut current: Vec<u8> = Vec::new();
    let mut i: usize = 0;
    proof {
        assert(b@.take(0) =~= Seq::<u8>::empty());
    }
    while i < b.len()
        invariant
            0 <= i <= b@.len(),
            parts@.len() + 1 == split_spaces(b@.take(i as int)).len(),
            forall|k: int| 0 <= k < parts@.len() ==> (#[trigger] parts@[k])@ == split_spaces(b@.take(i as int))[k],
            current@ == split_spaces(b@.take(i as int)).last(),
        decreases b@.len() - i,
    {
        proof {
            assert(b@.take(i as int + 1).drop_last() =~= b@.take(i as int));
            assert(b@.take(i as int + 1).last() == b@[i as int]);
            lemma_split_nonempty(b@.take(i as int));
        }
        if b[i] == 32 {
            let mut done: Vec<u8> = Vec::new();
            std::mem::swap(&mut done, &mut current);
            parts.push(done);
        } else {
            current.push(b[i]);
        }
        i += 1;
    }
    proof {
        assert(b@.take(b@.len() as int) =~= b@);
    }
    parts.push(current);
    parts
}

/// The position described by an accepted FEN text: the pieces of the
/// placement field with the side bitboards and piece list derived from
/// them, and the game state of the other fields on an otherwise empty
/// board.
pub open spec fn fen_board(board: Board, b: Seq<u8>) -> bool {
    let parts = split_spaces(b);
    let st = placement_run(parts[0])->0;
    &&& forall|s: int, p: int| 0 <= s < 2 && 0 <= p < 6 ==> #[trigger] board.bb_pieces[s][p] == st.bbs[s * 6 + p]
    &&& forall|s: int| 0 <= s < 2 ==> #[trigger] board.bb_side[s] == crate::board::side_union(board.bb_pieces[s], 6)
    &&& forall|t: int| 0 <= t < 64 ==> #[trigger] board.piece_list[t] == crate::board::piece_on(board.bb_pieces, t as u64, 6)
    &&& board.game_state.active_color == side_field(parts[1])->0
    &&& board.game_state.castling == castling_field(parts[2])->0
    &&& board.game_state.en_passant == match en_passant_field(parts[3])->0 {
        Some(sq) => Some(sq as u8),
        None => None,
    }
    &&& board.game_state.halfmove_clock == halfmove_field(parts[4])->0
    &&& board.game_state.fullmove_number == fullmove_field(parts[5])->0
    &&& board.game_state.zobrist_key == 0
    &&& board.game_state.phase_value == 0
    &&& board.history@.len() == 0
}

/// Sets up the board from a FEN text.
pub fn read(fen_string: &str, board: &mut Board)
    requires
        fen_accepted(fen_string.spec_bytes()),
    ensures
        fen_board(*final(board), fen_string.spec_bytes()),
{
    let fen_parts = split_fields(fen_string.as_bytes());
    let ghost parts = split_spaces(fen_string.spec_bytes());
    board.reset();
    part_0(fen_parts[0].as_slice(), board);
    proof {
        assert forall|s: int, p: int| 0 <= s < 2 && 0 <= p < 6 implies #[trigger] board.bb_pieces[s][p]
            == placement_run(parts[0])->0.bbs[s * 6 + p] by {
            let x = placement_run(parts[0])->0.bbs[s * 6 + p];
            assert(0u64 | x == x) by (bit_vector);
        }
    }
    part_1(fen_parts[1].as_slice(), board);
    part_2(fen_parts[2].as_slice(), board);
    part_3(fen_parts[3].as_slice(), board);
    part_4(fen_parts[4].as_slice(), board);
    part_5(fen_parts[5].as_slice(), board);
    board.init_pieces();
    proof {
        lemma_castle_sum_bound(parts[2]);
        lemma_parse_range(parts[4], 255);
        lemma_parse_range(parts[5], 65535);
    }
}

/// A number that is read lies between zero and the maximum.
proof fn lemma_parse_range(b: Seq<u8>, max: int)
    ensures
        parse_unsigned(b, max) matches Some(v) ==> 0 <= v <= max,
{
    let digits = number_digits(b);
    if parse_unsigned(b, max) is Some {
        lemma_decimal_prefix_bound(digits, 0);
    }
}

/// Each castling letter adds at most eight.
proof fn lemma_castle_sum_bound(b: Seq<u8>)
    ensures
        0 <= castle_sum(b) <= 8 * b.len(),
        castling_field(b) matches Some(x) ==> 0 <= x <= 32,
    decreases b.len(),
{
    if b.len() > 0 {
        lemma_castle_sum_bound(b.drop_last());
    }
}


/// Whether the placement field is accepted.
fn placement_accepted(part: &[u8]) -> (ok: bool)
    ensures
        ok == placement_run(part@) is Some,
{
    let mut bbs: [[u64; 6]; 2] = [[0u64; 6]; 2];
    let mut rank: u8 = 7;
    let mut file: u8 = 0;
    let mut i: usize = 0;
    proof {
        assert(part@.take(0) =~= Seq::<u8>::empty());
    }
    while i < part.len()
        invariant
            0 <= i <= part@.len(),
            placement_run(part@.take(i as int)) is Some,
            placement_run(part@.take(i as int))->0.rank == rank,
            placement_run(part@.take(i as int))->0.file == file,
            placement_run(part@.take(i as int))->0.bbs.len() == 12,
            forall|s: int, p: int| 0 <= s < 2 && 0 <= p < 6 ==> #[trigger] bbs[s][p] == placement_run(part@.take(i as int))->0.bbs[s * 6 + p],
        decreases part@.len() - i,
    {
        proof {
            assert(part@.take(i as int + 1).drop_last() =~= part@.take(i as int));
        }
        let c = part[i];
        let ghost st = placement_run(part@.take(i as int))->0;
        proof {
            assert(part@.take(i as int + 1).last() == c);
            assert(placement_run(part@.take(i as int + 1)) == placement_step(st, c));
        }
        let square: u16 = (rank as u16) * 8 + (file as u16);
        if square > 255 {
            proof { lemma_run_fails(part@, i as int + 1); }
            return false;
        }
        let which: Option<(usize, usize)> = if c == 107 { Some((BLACK, KING)) }
            else if c == 113 { Some((BLACK, QUEEN)) }
            else if c == 114 { Some((BLACK, ROOK)) }
            else if c == 98 { Some((BLACK, BISHOP)) }
            else if c == 110 { Some((BLACK, KNIGHT)) }
            else if c == 112 { Some((BLACK, PAWN)) }
            else if c == 75 { Some((WHITE, KING)) }
            else if c == 81 { Some((WHITE, QUEEN)) }
            else if c == 82 { Some((WHITE, ROOK)) }
            else if c == 66 { Some((WHITE, BISHOP)) }
            else if c == 78 { Some((WHITE, KNIGHT)) }
            else if c == 80 { Some((WHITE, PAWN)) }
            else { None };
        match which {
            Some((s, p)) => {
                let ghost k = s * 6 + p;
                assert(fen_piece(c) == Some((s as int, p as int)));
                if square >= 64 || file == 255 {
                    proof { lemma_run_fails(part@, i as int + 1); }
                    return false;
                }
                let add = 1u64 << (square as u64);
                if bbs[s][p] > u64::MAX - add {
                    proof { lemma_run_fails(part@, i as int + 1); }
                    return false;
                }
                let mut row = bbs[s];
                row[p] = row[p] + add;
                bbs[s] = row;
                file += 1;
                proof {
                    let st2 = placement_step(st, c)->0;
                    assert forall|a: int, q: int| 0 <= a < 2 && 0 <= q < 6 implies #[trigger] bbs[a][q] == st2.bbs[a * 6 + q] by {
                        if a * 6 + q == k {
                            assert(a == s && q == p);
                        }
                    }
                }
            },
            None => {
                if 49 <= c && c <= 56 {
                    if (file as u16) + ((c - 48) as u16) > 255 {
                        proof { lemma_run_fails(part@, i as int + 1); }
                        return false;
                    }
                    file += c - 48;
                } else if c == 47 {
                    if file != 8 || rank == 0 {
                        proof { lemma_run_fails(part@, i as int + 1); }
                        return false;
                    }
                    rank -= 1;
                    file = 0;
                } else {
                    proof { lemma_run_fails(part@, i as int + 1); }
                    return false;
                }
            },
        }
        i += 1;
    }
    proof {
        assert(part@.take(part@.len() as int) =~= part@);
    }
    true
}

/// A run that fails on a prefix fails on the whole.
proof fn lemma_run_fails(part: Seq<u8>, n: int)
    requires
        0 <= n <= part.len(),
        placement_run(part.take(n)) is None,
    ensures
        placement_run(part) is None,
{
    if placement_run(part) is Some {
        lemma_run_prefix(part, n);
    }
}

/// Whether the castling field is accepted.
fn castling_accepted(part: &[u8]) -> (ok: bool)
    ensures
        ok == castling_field(part@) is Some,
{
    let len = part.len();
    if len == 0 {
        return true;
    }
    if len == 1 {
        let c = part[0];
        return c == 45 || c == 75 || c == 81 || c == 107 || c == 113;
    }
    if len > 4 {
        return false;
    }
    let mut i: usize = 0;
    while i < len
        invariant
            0 <= i <= len,
            len == part@.len(),
            2 <= len <= 4,
            forall|k: int| 0 <= k < i ==> castle_bit(#[trigger] part@[k]) is Some,
        decreases len - i,
    {
        let c = part[i];
        if !(c == 75 || c == 81 || c == 107 || c == 113) {
            proof {
                assert(castle_bit(part@[i as int]) is None);
                assert(!(forall|k: int| 0 <= k < part@.len() ==> castle_bit(#[trigger] part@[k]) is Some));
                assert(castling_field(part@) is None);
            }
            return false;
        }
        i += 1;
    }
    true
}

/// Whether the en-passant field is accepted.
fn en_passant_accepted(part: &[u8]) -> (ok: bool)
    ensures
        ok == en_passant_field(part@) is Some,
{
    let len = part.len();
    (len == 0) || (len == 1 && part[0] == 45) || (len == 2 && 97 <= part[0] && part[0] <= 104 && (part[1] == 51 || part[1] == 54))
}

/// Whether a text is a FEN position that `read` accepts: six fields,
/// each following the notation's rules.
pub fn fen_valid(fen_string: &str) -> (ok: bool)
    ensures
        ok == fen_accepted(fen_string.spec_bytes()),
{
    let bytes = fen_string.as_bytes();
    let parts = split_fields(bytes);
    if parts.len() != NR_OF_FEN_PARTS {
        return false;
    }
    let ghost sp = split_spaces(fen_string.spec_bytes());
    proof {
        assert(bytes@ == fen_string.spec_bytes());
        assert(parts@[0]@ == sp[0]);
        assert(parts@[1]@ == sp[1]);
        assert(parts@[2]@ == sp[2]);
        assert(parts@[3]@ == sp[3]);
        assert(parts@[4]@ == sp[4]);
        assert(parts@[5]@ == sp[5]);
    }
    let side_ok = {
        let p = &parts[1];
        p.len() == 1 && (p[0] == 119 || p[0] == 98)
    };
    let half_ok = {
        let p = parts[4].as_slice();
        (p.len() == 1 || p.len() == 2) && match parse_number(p, 255) {
            Some(x) => x <= 50,
            None => false,
        }
    };
    let full_ok = match parse_number(parts[5].as_slice(), 65535) {
        Some(x) => x <= 9999,
        None => false,
    };
    let place_ok = placement_accepted(parts[0].as_slice());
    let castle_ok = castling_accepted(parts[2].as_slice());
    let ep_ok = en_passant_accepted(parts[3].as_slice());
    proof {
        lemma_parse_range(sp[4], 255);
        lemma_parse_range(sp[5], 65535);
        assert(place_ok == (placement_run(sp[0]) is Some));
        assert(side_ok == (side_field(sp[1]) is Some));
        assert(castle_ok == (castling_field(sp[2]) is Some));
        assert(ep_ok == (en_passant_field(sp[3]) is Some));
        assert(half_ok == (halfmove_field(sp[4]) is Some));
        assert(full_ok == (fullmove_field(sp[5]) is Some));
    }
    place_ok && side_ok && castle_ok && ep_ok && half_ok && full_ok
}

} // verus!
