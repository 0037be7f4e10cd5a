//! Attack boards of the non-sliding pieces (king, knight, pawns) and the
//! masks of the sliding pieces (rook, bishop).
use crate::bitboard::{bit_set, lemma_bit_and, lemma_bit_not, lemma_bit_or, lemma_bit_shl, lemma_bit_shr, lemma_bit_single};
use crate::geometry::{dir_df, dir_dr, file_of, in_ray, lemma_empty_ray, lemma_file_bits, lemma_rank_bits, rank_of, ray, ray_bb, ray_index, walk, Direction};
use vstd::prelude::*;

verus! {

/// Square `t` is next to square `sq` (a king on `sq` attacks `t`).
pub open spec fn king_target(sq: int, t: int) -> bool {
    &&& 0 <= t < 64
    &&& t != sq
    &&& -1 <= file_of(t) - file_of(sq) <= 1
    &&& -1 <= rank_of(t) - rank_of(sq) <= 1
}

/// A knight on `sq` attacks `t`.
pub open spec fn knight_target(sq: int, t: int) -> bool {
    let df = file_of(t) - file_of(sq);
    let dr = rank_of(t) - rank_of(sq);
    &&& 0 <= t < 64
    &&& (((df == 1 || df == -1) && (dr == 2 || dr == -2)) || ((df == 2 || df == -2) && (dr == 1
        || dr == -1)))
}

/// A pawn of `side` (0 white, moving up; 1 black, moving down) on `sq`
/// attacks `t`.
pub open spec fn pawn_target(side: int, sq: int, t: int) -> bool {
    let df = file_of(t) - file_of(sq);
    &&& 0 <= t < 64
    &&& (df == 1 || df == -1)
    &&& rank_of(t) == rank_of(sq) + (if side == 0 { 1int } else { -1int })
}

/// The bitboard of file `f`.
pub open spec fn file_mask(f: u64) -> u64 {
    0x0101010101010101u64 << f
}

/// The bitboard of rank `r`.
pub open spec fn rank_mask(r: u64) -> u64 {
    0xFFu64 << (r * 8)
}

pub proof fn lemma_file_mask(f: u64, i: u64)
    requires
        f < 8,
        i < 64,
    ensures
        bit_set(file_mask(f), i) == (i % 8 == f),
{
    lemma_file_bits(f, i);
}

pub proof fn lemma_rank_mask(r: u64, i: u64)
    requires
        r < 8,
        i < 64,
    ensures
        bit_set(rank_mask(r), i) == (i / 8 == r),
{
    lemma_rank_bits(r, i);
}

/// The bitboard of file `f`.
pub fn file_bb(f: u64) -> (bb: u64)
    requires
        f < 8,
    ensures
        bb == file_mask(f),
        forall|i: u64| i < 64 ==> bit_set(bb, i) == (i % 8 == f),
{
    proof {
        assert forall|i: u64| i < 64 implies #[trigger] bit_set(file_mask(f), i) == (i % 8 == f) by {
            lemma_file_bits(f, i);
        }
    }
    0x0101010101010101u64 << f
}

/// The bitboard of rank `r`.
pub fn rank_bb(r: u64) -> (bb: u64)
    requires
        r < 8,
    ensures
        bb == rank_mask(r),
        forall|i: u64| i < 64 ==> bit_set(bb, i) == (i / 8 == r),
{
    proof {
        assert forall|i: u64| i < 64 implies #[trigger] bit_set(rank_mask(r), i) == (i / 8 == r) by {
            lemma_rank_bits(r, i);
        }
    }
    0xFFu64 << (r * 8)
}

/// A single square, masked and shifted up by `k`.
proof fn lemma_term_shl(s: u64, m: u64, k: u64, t: u64)
    requires
        s < 64,
        k < 64,
        t < 64,
    ensures
        bit_set(((1u64 << s) & m) << k, t) == (t >= k && t - k == s && bit_set(m, s)),
{
    lemma_bit_shl((1u64 << s) & m, k, t);
    if t >= k {
        lemma_bit_and(1u64 << s, m, (t - k) as u64);
        lemma_bit_single(s, (t - k) as u64);
    }
}

/// A single square, masked and shifted down by `k`.
proof fn lemma_term_shr(s: u64, m: u64, k: u64, t: u64)
    requires
        s < 64,
        k < 64,
        t < 64,
    ensures
        bit_set(((1u64 << s) & m) >> k, t) == (t + k < 64 && t + k == s && bit_set(m, s)),
{
    lemma_bit_shr((1u64 << s) & m, k, t);
    if t + k < 64 {
        lemma_bit_and(1u64 << s, m, (t + k) as u64);
        lemma_bit_single(s, (t + k) as u64);
    }
}

proof fn lemma_not2(a: u64, b: u64, i: u64)
    requires
        i < 64,
    ensures
        bit_set(!a & !b, i) == (!bit_set(a, i) && !bit_set(b, i)),
{
    lemma_bit_and(!a, !b, i);
    lemma_bit_not(a, i);
    lemma_bit_not(b, i);
}

proof fn lemma_not3(a: u64, b: u64, c: u64, i: u64)
    requires
        i < 64,
    ensures
        bit_set(!a & !b & !c, i) == (!bit_set(a, i) && !bit_set(b, i) && !bit_set(c, i)),
{
    lemma_not2(a, b, i);
    lemma_bit_and(!a & !b, !c, i);
    lemma_bit_not(c, i);
}

proof fn lemma_or8(a: u64, b: u64, c: u64, d: u64, e: u64, f: u64, g: u64, h: u64, i: u64)
    requires
        i < 64,
    ensures
        bit_set(a | b | c | d | e | f | g | h, i) == (bit_set(a, i) || bit_set(b, i) || bit_set(
            c,
            i,
        ) || bit_set(d, i) || bit_set(e, i) || bit_set(f, i) || bit_set(g, i) || bit_set(h, i)),
{
    lemma_bit_or(a, b, i);
    lemma_bit_or(a | b, c, i);
    lemma_bit_or(a | b | c, d, i);
    lemma_bit_or(a | b | c | d, e, i);
    lemma_bit_or(a | b | c | d | e, f, i);
    lemma_bit_or(a | b | c | d | e | f, g, i);
    lemma_bit_or(a | b | c | d | e | f | g, h, i);
}

/// The king attack bitboard of `sq`, built by shifting the square one
/// step in each direction, unless that step leaves the board.
pub open spec fn king_bb(sq: u64) -> u64 {
    let b = 1u64 << sq;
    let fa = file_mask(0);
    let fh = file_mask(7);
    let r1 = rank_mask(0);
    let r8 = rank_mask(7);
    (b & (!fa & !r8)) << 7 | (b & !r8) << 8 | (b & (!fh & !r8)) << 9 | (b & !fh) << 1 | (b & (!fh
        & !r1)) >> 7 | (b & !r1) >> 8 | (b & (!fa & !r1)) >> 9 | (b & !fa) >> 1
}

/// The knight attack bitboard of `sq`.
pub open spec fn knight_bb(sq: u64) -> u64 {
    let b = 1u64 << sq;
    let fa = file_mask(0);
    let fb = file_mask(1);
    let fg = file_mask(6);
    let fh = file_mask(7);
    let r1 = rank_mask(0);
    let r2 = rank_mask(1);
    let r7 = rank_mask(6);
    let r8 = rank_mask(7);
    (b & (!r8 & !r7 & !fa)) << 15 | (b & (!r8 & !r7 & !fh)) << 17 | (b & (!fa & !fb & !r8)) << 6
        | (b & (!fg & !fh & !r8)) << 10 | (b & (!r1 & !r2 & !fa)) >> 17 | (b & (!r1 & !r2 & !fh))
        >> 15 | (b & (!fa & !fb & !r1)) >> 10 | (b & (!fg & !fh & !r1)) >> 6
}

/// The squares a pawn of `side` (0 white, 1 black) on `sq` attacks.
pub open spec fn pawn_bb(side: int, sq: u64) -> u64 {
    let b = 1u64 << sq;
    let fa = file_mask(0);
    let fh = file_mask(7);
    if side == 0 {
        (b & !fa) << 7 | (b & !fh) << 9
    } else {
        (b & !fa) >> 9 | (b & !fh) >> 7
    }
}

pub proof fn lemma_king_bb(sq: u64, t: u64)
    requires
        sq < 64,
        t < 64,
    ensures
        bit_set(king_bb(sq), t) == king_target(sq as int, t as int),
{
    let fa = file_mask(0);
    let fh = file_mask(7);
    let r1 = rank_mask(0);
    let r8 = rank_mask(7);
    let b = 1u64 << sq;
    lemma_or8(
        (b & (!fa & !r8)) << 7,
        (b & !r8) << 8,
        (b & (!fh & !r8)) << 9,
        (b & !fh) << 1,
        (b & (!fh & !r1)) >> 7,
        (b & !r1) >> 8,
        (b & (!fa & !r1)) >> 9,
        (b & !fa) >> 1,
        t,
    );
    lemma_term_shl(sq, !fa & !r8, 7, t);
    lemma_term_shl(sq, !r8, 8, t);
    lemma_term_shl(sq, !fh & !r8, 9, t);
    lemma_term_shl(sq, !fh, 1, t);
    lemma_term_shr(sq, !fh & !r1, 7, t);
    lemma_term_shr(sq, !r1, 8, t);
    lemma_term_shr(sq, !fa & !r1, 9, t);
    lemma_term_shr(sq, !fa, 1, t);
    lemma_not2(fa, r8, sq);
    lemma_bit_not(r8, sq);
    lemma_not2(fh, r8, sq);
    lemma_bit_not(fh, sq);
    lemma_not2(fh, r1, sq);
    lemma_bit_not(r1, sq);
    lemma_not2(fa, r1, sq);
    lemma_bit_not(fa, sq);
    lemma_file_mask(0, sq);
    lemma_file_mask(7, sq);
    lemma_rank_mask(0, sq);
    lemma_rank_mask(7, sq);
}

pub proof fn lemma_knight_bb(sq: u64, t: u64)
    requires
        sq < 64,
        t < 64,
    ensures
        bit_set(knight_bb(sq), t) == knight_target(sq as int, t as int),
{
    let fa = file_mask(0);
    let fb = file_mask(1);
    let fg = file_mask(6);
    let fh = file_mask(7);
    let r1 = rank_mask(0);
    let r2 = rank_mask(1);
    let r7 = rank_mask(6);
    let r8 = rank_mask(7);
    let b = 1u64 << sq;
    lemma_or8(
        (b & (!r8 & !r7 & !fa)) << 15,
        (b & (!r8 & !r7 & !fh)) << 17,
        (b & (!fa & !fb & !r8)) << 6,
        (b & (!fg & !fh & !r8)) << 10,
        (b & (!r1 & !r2 & !fa)) >> 17,
        (b & (!r1 & !r2 & !fh)) >> 15,
        (b & (!fa & !fb & !r1)) >> 10,
        (b & (!fg & !fh & !r1)) >> 6,
        t,
    );
    lemma_term_shl(sq, !r8 & !r7 & !fa, 15, t);
    lemma_term_shl(sq, !r8 & !r7 & !fh, 17, t);
    lemma_term_shl(sq, !fa & !fb & !r8, 6, t);
    lemma_term_shl(sq, !fg & !fh & !r8, 10, t);
    lemma_term_shr(sq, !r1 & !r2 & !fa, 17, t);
    lemma_term_shr(sq, !r1 & !r2 & !fh, 15, t);
    lemma_term_shr(sq, !fa & !fb & !r1, 10, t);
    lemma_term_shr(sq, !fg & !fh & !r1, 6, t);
    lemma_not3(r8, r7, fa, sq);
    lemma_not3(r8, r7, fh, sq);
    lemma_not3(fa, fb, r8, sq);
    lemma_not3(fg, fh, r8, sq);
    lemma_not3(r1, r2, fa, sq);
    lemma_not3(r1, r2, fh, sq);
    lemma_not3(fa, fb, r1, sq);
    lemma_not3(fg, fh, r1, sq);
    lemma_file_mask(0, sq);
    lemma_file_mask(1, sq);
    lemma_file_mask(6, sq);
    lemma_file_mask(7, sq);
    lemma_rank_mask(0, sq);
    lemma_rank_mask(1, sq);
    lemma_rank_mask(6, sq);
    lemma_rank_mask(7, sq);
}

pub proof fn lemma_pawn_bb(side: int, sq: u64, t: u64)
    requires
        side == 0 || side == 1,
        sq < 64,
        t < 64,
    ensures
        bit_set(pawn_bb(side, sq), t) == pawn_target(side, sq as int, t as int),
{
    let fa = file_mask(0);
    let fh = file_mask(7);
    let b = 1u64 << sq;
    if side == 0 {
        lemma_bit_or((b & !fa) << 7, (b & !fh) << 9, t);
        lemma_term_shl(sq, !fa, 7, t);
        lemma_term_shl(sq, !fh, 9, t);
    } else {
        lemma_bit_or((b & !fa) >> 9, (b & !fh) >> 7, t);
        lemma_term_shr(sq, !fa, 9, t);
        lemma_term_shr(sq, !fh, 7, t);
    }
    lemma_bit_not(fa, sq);
    lemma_bit_not(fh, sq);
    lemma_file_mask(0, sq);
    lemma_file_mask(7, sq);
}

/// All squares a king on `sq` attacks.
pub fn king_board(sq: u64) -> (bb: u64)
    requires
        sq < 64,
    ensures
        bb == king_bb(sq),
        forall|t: u64| t < 64 ==> bit_set(bb, t) == king_target(sq as int, t as int),
{
    let fa = file_bb(0);
    let fh = file_bb(7);
    let r1 = rank_bb(0);
    let r8 = rank_bb(7);
    let b = 1u64 << sq;
    let bb = (b & (!fa & !r8)) << 7 | (b & !r8) << 8 | (b & (!fh & !r8)) << 9 | (b & !fh) << 1 | (b
        & (!fh & !r1)) >> 7 | (b & !r1) >> 8 | (b & (!fa & !r1)) >> 9 | (b & !fa) >> 1;
    proof {
        assert forall|t: u64| t < 64 implies bit_set(bb, t) == king_target(sq as int, t as int) by {
            lemma_king_bb(sq, t);
        }
    }
    bb
}

/// All squares a knight on `sq` attacks.
pub fn knight_board(sq: u64) -> (bb: u64)
    requires
        sq < 64,
    ensures
        bb == knight_bb(sq),
        forall|t: u64| t < 64 ==> bit_set(bb, t) == knight_target(sq as int, t as int),
{
    let fa = file_bb(0);
    let fb = file_bb(1);
    let fg = file_bb(6);
    let fh = file_bb(7);
    let r1 = rank_bb(0);
    let r2 = rank_bb(1);
    let r7 = rank_bb(6);
    let r8 = rank_bb(7);
    let b = 1u64 << sq;
    let bb = (b & (!r8 & !r7 & !fa)) << 15 | (b & (!r8 & !r7 & !fh)) << 17 | (b & (!fa & !fb & !r8))
        << 6 | (b & (!fg & !fh & !r8)) << 10 | (b & (!r1 & !r2 & !fa)) >> 17 | (b & (!r1 & !r2
        & !fh)) >> 15 | (b & (!fa & !fb & !r1)) >> 10 | (b & (!fg & !fh & !r1)) >> 6;
    proof {
        assert forall|t: u64| t < 64 implies bit_set(bb, t) == knight_target(sq as int, t as int) by {
            lemma_knight_bb(sq, t);
        }
    }
    bb
}

/// The squares a white pawn (first) and a black pawn (second) on `sq` attack.
pub fn pawn_boards(sq: u64) -> (bbs: (u64, u64))
    requires
        sq < 64,
    ensures
        bbs.0 == pawn_bb(0, sq),
        bbs.1 == pawn_bb(1, sq),
        forall|t: u64| t < 64 ==> bit_set(bbs.0, t) == pawn_target(0, sq as int, t as int),
        forall|t: u64| t < 64 ==> bit_set(bbs.1, t) == pawn_target(1, sq as int, t as int),
{
    let fa = file_bb(0);
    let fh = file_bb(7);
    let b = 1u64 << sq;
    let w = (b & !fa) << 7 | (b & !fh) << 9;
    let bl = (b & !fa) >> 9 | (b & !fh) >> 7;
    proof {
        assert forall|t: u64| t < 64 implies bit_set(w, t) == pawn_target(0, sq as int, t as int) by {
            lemma_pawn_bb(0, sq, t);
        }
        assert forall|t: u64| t < 64 implies bit_set(bl, t) == pawn_target(1, sq as int, t as int) by {
            lemma_pawn_bb(1, sq, t);
        }
    }
    (w, bl)
}

/// Square `t` is an edge square that does not share the edge with `sq`.
/// Such squares are left out of slider masks.
pub open spec fn edge_excluded(sq: int, t: int) -> bool {
    ||| (file_of(t) == 0 && file_of(sq) != 0)
    ||| (file_of(t) == 7 && file_of(sq) != 7)
    ||| (rank_of(t) == 0 && rank_of(sq) != 0)
    ||| (rank_of(t) == 7 && rank_of(sq) != 7)
}

/// Square `t` shares a file or a rank with `sq`.
pub open spec fn on_line(sq: int, t: int) -> bool {
    0 <= t < 64 && t != sq && (file_of(t) == file_of(sq) || rank_of(t) == rank_of(sq))
}

/// Square `t` shares a diagonal with `sq`.
pub open spec fn on_diagonal(sq: int, t: int) -> bool {
    let df = file_of(t) - file_of(sq);
    let dr = rank_of(t) - rank_of(sq);
    0 <= t < 64 && t != sq && (df == dr || df == -dr)
}

/// `t` is in the rook mask of `sq`: on its file or rank, without the far edges.
pub open spec fn rook_mask_target(sq: int, t: int) -> bool {
    on_line(sq, t) && !edge_excluded(sq, t)
}

/// `t` is in the bishop mask of `sq`: on its diagonals, without the edges.
pub open spec fn bishop_mask_target(sq: int, t: int) -> bool {
    on_diagonal(sq, t) && !edge_excluded(sq, t)
}

/// The board edges, except the edges that hold the square (file, rank).
pub open spec fn edges_value(file: u64, rank: u64) -> u64 {
    (file_mask(0) & !file_mask(file)) | (file_mask(7) & !file_mask(file)) | (rank_mask(0) & !rank_mask(
        rank,
    )) | (rank_mask(7) & !rank_mask(rank))
}

/// The rook mask of square `sq`, as a bitboard expression.
pub open spec fn rook_mask_value(sq: u64) -> u64 {
    (file_mask(sq % 8) | rank_mask(sq / 8)) & !edges_value(sq % 8, sq / 8) & !(1u64 << sq)
}

/// The bishop mask of square `sq`, as a bitboard expression: the four
/// diagonal rays on an empty board, without the edges.
pub open spec fn bishop_mask_value(sq: u64) -> u64 {
    (ray_bb(0, sq as int, Direction::UpLeft) | ray_bb(0, sq as int, Direction::UpRight) | ray_bb(
        0,
        sq as int,
        Direction::DownRight,
    ) | ray_bb(0, sq as int, Direction::DownLeft)) & !edges_value(sq % 8, sq / 8)
}

/// The board edges, except the edges that hold the square (file, rank).
pub fn edges_without(file: u64, rank: u64) -> (bb: u64)
    requires
        file < 8,
        rank < 8,
    ensures
        bb == edges_value(file, rank),
        forall|t: u64| t < 64 ==> bit_set(bb, t) == edge_excluded((rank * 8 + file) as int, t as int),
{
    let bb_piece_file = file_bb(file);
    let bb_piece_rank = rank_bb(rank);
    let fa = file_bb(0);
    let fh = file_bb(7);
    let r1 = rank_bb(0);
    let r8 = rank_bb(7);
    let bb = (fa & !bb_piece_file) | (fh & !bb_piece_file) | (r1 & !bb_piece_rank) | (r8
        & !bb_piece_rank);
    proof {
        assert forall|t: u64| t < 64 implies bit_set(bb, t) == edge_excluded((rank * 8 + file) as int, t as int) by {
            lemma_bit_or(fa & !bb_piece_file, fh & !bb_piece_file, t);
            lemma_bit_or((fa & !bb_piece_file) | (fh & !bb_piece_file), r1 & !bb_piece_rank, t);
            lemma_bit_or(
                (fa & !bb_piece_file) | (fh & !bb_piece_file) | (r1 & !bb_piece_rank),
                r8 & !bb_piece_rank,
                t,
            );
            lemma_bit_and(fa, !bb_piece_file, t);
            lemma_bit_and(fh, !bb_piece_file, t);
            lemma_bit_and(r1, !bb_piece_rank, t);
            lemma_bit_and(r8, !bb_piece_rank, t);
            lemma_bit_not(bb_piece_file, t);
            lemma_bit_not(bb_piece_rank, t);
        }
    }
    bb
}

/// The rook mask of `sq`: the squares on its file and rank, without the
/// square itself and without the edges it does not stand on.
pub fn create_rook_mask(square: u8) -> (bb: u64)
    requires
        square < 64,
    ensures
        forall|t: u64| t < 64 ==> bit_set(bb, t) == rook_mask_target(square as int, t as int),
        bb == rook_mask_value(square as u64),
{
    let sq = square as u64;
    let file = sq % 8;
    let rank = sq / 8;
    let bb_rook_square = 1u64 << sq;
    let bb_edges = edges_without(file, rank);
    let bb_file = file_bb(file);
    let bb_rank = rank_bb(rank);
    let bb_mask = bb_file | bb_rank;
    let bb = bb_mask & !bb_edges & !bb_rook_square;
    proof {
        assert forall|t: u64| t < 64 implies bit_set(bb, t) == rook_mask_target(sq as int, t as int) by {
            lemma_bit_and(bb_mask & !bb_edges, !bb_rook_square, t);
            lemma_bit_and(bb_mask, !bb_edges, t);
            lemma_bit_not(bb_edges, t);
            lemma_bit_not(bb_rook_square, t);
            lemma_bit_single(sq, t);
            lemma_bit_or(bb_file, bb_rank, t);
        }
    }
    bb
}

/// The bishop mask of `sq`: the squares on its diagonals, without the edges.
pub fn create_bishop_mask(square: u8) -> (bb: u64)
    requires
        square < 64,
    ensures
        forall|t: u64| t < 64 ==> bit_set(bb, t) == bishop_mask_target(square as int, t as int),
        bb == bishop_mask_value(square as u64),
{
    let sq = square as u64;
    let file = sq % 8;
    let rank = sq / 8;
    let bb_edges = edges_without(file, rank);
    let bb_up_left = ray(0, sq, Direction::UpLeft);
    let bb_up_right = ray(0, sq, Direction::UpRight);
    let bb_down_right = ray(0, sq, Direction::DownRight);
    let bb_down_left = ray(0, sq, Direction::DownLeft);
    let bb_rays = bb_up_left | bb_up_right | bb_down_right | bb_down_left;
    let bb = bb_rays & !bb_edges;
    proof {
        assert forall|t: u64| t < 64 implies bit_set(bb, t) == bishop_mask_target(sq as int, t as int) by {
            lemma_bit_and(bb_rays, !bb_edges, t);
            lemma_bit_not(bb_edges, t);
            lemma_bit_or(bb_up_left, bb_up_right, t);
            lemma_bit_or(bb_up_left | bb_up_right, bb_down_right, t);
            lemma_bit_or(bb_up_left | bb_up_right | bb_down_right, bb_down_left, t);
            lemma_empty_ray(sq as int, Direction::UpLeft, t as int);
            lemma_empty_ray(sq as int, Direction::UpRight, t as int);
            lemma_empty_ray(sq as int, Direction::DownRight, t as int);
            lemma_empty_ray(sq as int, Direction::DownLeft, t as int);
        }
    }
    bb
}

} // verus!
