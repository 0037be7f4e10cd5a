//! Attacks of the sliding pieces (rook, bishop, queen).
use crate::attacks::{bishop_mask_target, rook_mask_target};
use crate::bitboard::{bit_set, lemma_bit_and, lemma_bit_or, lemma_bit_xor, lemma_bit_zero, lemma_bits_equal};
use crate::geometry::{dir_df, dir_dr, file_of, in_ray, lemma_ray_bb_bits, on_board, rank_of, ray, ray_bb, ray_steps, sq_of, walk, Direction};
use vstd::prelude::*;

verus! {

/// A rook on `sq` attacks `t`, with the pieces on `occ` blocking its view.
pub open spec fn rook_attack_target(occ: u64, sq: int, t: int) -> bool {
    ||| in_ray(occ, sq, Direction::Up, t)
    ||| in_ray(occ, sq, Direction::Right, t)
    ||| in_ray(occ, sq, Direction::Down, t)
    ||| in_ray(occ, sq, Direction::Left, t)
}

/// A bishop on `sq` attacks `t`, with the pieces on `occ` blocking its view.
pub open spec fn bishop_attack_target(occ: u64, sq: int, t: int) -> bool {
    ||| in_ray(occ, sq, Direction::UpLeft, t)
    ||| in_ray(occ, sq, Direction::UpRight, t)
    ||| in_ray(occ, sq, Direction::DownRight, t)
    ||| in_ray(occ, sq, Direction::DownLeft, t)
}

/// The rook attack bitboard of `sq` with blockers `occ`.
pub open spec fn rook_bb(occ: u64, sq: int) -> u64 {
    ray_bb(occ, sq, Direction::Up) | ray_bb(occ, sq, Direction::Right) | ray_bb(occ, sq, Direction::Down)
        | ray_bb(occ, sq, Direction::Left)
}

/// The bishop attack bitboard of `sq` with blockers `occ`.
pub open spec fn bishop_bb(occ: u64, sq: int) -> u64 {
    ray_bb(occ, sq, Direction::UpLeft) | ray_bb(occ, sq, Direction::UpRight) | ray_bb(occ, sq, Direction::DownRight)
        | ray_bb(occ, sq, Direction::DownLeft)
}

/// The slider attack bitboard of a rook (`is_rook`) or a bishop.
pub open spec fn slider_bb(occ: u64, sq: int, is_rook: bool) -> u64 {
    if is_rook { rook_bb(occ, sq) } else { bishop_bb(occ, sq) }
}

pub proof fn lemma_rook_bits(occ: u64, sq: int, t: u64)
    requires
        0 <= sq < 64,
        t < 64,
    ensures
        bit_set(rook_bb(occ, sq), t) == rook_attack_target(occ, sq, t as int),
{
    let a = ray_bb(occ, sq, Direction::Up);
    let b = ray_bb(occ, sq, Direction::Right);
    let c = ray_bb(occ, sq, Direction::Down);
    let d = ray_bb(occ, sq, Direction::Left);
    lemma_bit_or(a, b, t);
    lemma_bit_or(a | b, c, t);
    lemma_bit_or(a | b | c, d, t);
    lemma_ray_bb_bits(occ, sq, Direction::Up, t);
    lemma_ray_bb_bits(occ, sq, Direction::Right, t);
    lemma_ray_bb_bits(occ, sq, Direction::Down, t);
    lemma_ray_bb_bits(occ, sq, Direction::Left, t);
}

pub proof fn lemma_bishop_bits(occ: u64, sq: int, t: u64)
    requires
        0 <= sq < 64,
        t < 64,
    ensures
        bit_set(bishop_bb(occ, sq), t) == bishop_attack_target(occ, sq, t as int),
{
    let a = ray_bb(occ, sq, Direction::UpLeft);
    let b = ray_bb(occ, sq, Direction::UpRight);
    let c = ray_bb(occ, sq, Direction::DownRight);
    let d = ray_bb(occ, sq, Direction::DownLeft);
    lemma_bit_or(a, b, t);
    lemma_bit_or(a | b, c, t);
    lemma_bit_or(a | b | c, d, t);
    lemma_ray_bb_bits(occ, sq, Direction::UpLeft, t);
    lemma_ray_bb_bits(occ, sq, Direction::UpRight, t);
    lemma_ray_bb_bits(occ, sq, Direction::DownRight, t);
    lemma_ray_bb_bits(occ, sq, Direction::DownLeft, t);
}

/// All squares a rook on `square` attacks, given the occupancy `occ`.
pub fn rook_attacks(occ: u64, square: u64) -> (bb: u64)
    requires
        square < 64,
    ensures
        bb == rook_bb(occ, square as int),
{
    ray(occ, square, Direction::Up) | ray(occ, square, Direction::Right) | ray(occ, square, Direction::Down)
        | ray(occ, square, Direction::Left)
}

/// All squares a bishop on `square` attacks, given the occupancy `occ`.
pub fn bishop_attacks(occ: u64, square: u64) -> (bb: u64)
    requires
        square < 64,
    ensures
        bb == bishop_bb(occ, square as int),
{
    ray(occ, square, Direction::UpLeft) | ray(occ, square, Direction::UpRight) | ray(occ, square, Direction::DownRight)
        | ray(occ, square, Direction::DownLeft)
}

/// Blockers `bb1` and `bb2` agree on square number `k` of the line.
pub open spec fn agree_at(bb1: u64, bb2: u64, f: int, r: int, d: Direction, k: int) -> bool {
    bit_set(bb1, sq_of(walk(f, dir_df(d), k), walk(r, dir_dr(d), k)) as u64) == bit_set(
        bb2,
        sq_of(walk(f, dir_df(d), k), walk(r, dir_dr(d), k)) as u64,
    )
}

/// A ray only depends on the blockers before the last square of its line.
proof fn lemma_steps_agree(bb1: u64, bb2: u64, f: int, r: int, d: Direction, fuel: nat)
    requires
        on_board(f, r),
        forall|k: int|
            k >= 1 && on_board(walk(f, dir_df(d), k + 1), walk(r, dir_dr(d), k + 1))
                ==> #[trigger] agree_at(bb1, bb2, f, r, d, k),
    ensures
        ray_steps(bb1, f, r, d, fuel) == ray_steps(bb2, f, r, d, fuel),
    decreases fuel,
{
    let nf = f + dir_df(d);
    let nr = r + dir_dr(d);
    if fuel > 0 && on_board(nf, nr) {
        assert(walk(f, dir_df(d), 1) == nf && walk(r, dir_dr(d), 1) == nr);
        if on_board(walk(f, dir_df(d), 2), walk(r, dir_dr(d), 2)) {
            assert(agree_at(bb1, bb2, f, r, d, 1));
            assert forall|k: int|
                k >= 1 && on_board(walk(nf, dir_df(d), k + 1), walk(nr, dir_dr(d), k + 1))
                    implies #[trigger] agree_at(bb1, bb2, nf, nr, d, k) by {
                assert(walk(nf, dir_df(d), k + 1) == walk(f, dir_df(d), k + 2));
                assert(walk(nr, dir_dr(d), k + 1) == walk(r, dir_dr(d), k + 2));
                assert(agree_at(bb1, bb2, f, r, d, k + 1));
                assert(walk(nf, dir_df(d), k) == walk(f, dir_df(d), k + 1));
                assert(walk(nr, dir_dr(d), k) == walk(r, dir_dr(d), k + 1));
            }
            lemma_steps_agree(bb1, bb2, nf, nr, d, (fuel - 1) as nat);
        } else {
            assert(!on_board(nf + dir_df(d), nr + dir_dr(d)));
            assert(ray_steps(bb1, nf, nr, d, (fuel - 1) as nat) == 0);
            assert(ray_steps(bb2, nf, nr, d, (fuel - 1) as nat) == 0);
        }
    }
}

/// Rays with equal step counts have equal bitboards.
proof fn lemma_ray_bb_steps(bb1: u64, bb2: u64, sq: int, d: Direction)
    requires
        0 <= sq < 64,
        ray_steps(bb1, file_of(sq), rank_of(sq), d, 8) == ray_steps(bb2, file_of(sq), rank_of(sq), d, 8),
    ensures
        ray_bb(bb1, sq, d) == ray_bb(bb2, sq, d),
{
    assert forall|t: u64| t < 64 implies bit_set(ray_bb(bb1, sq, d), t) == bit_set(ray_bb(bb2, sq, d), t) by {
        lemma_ray_bb_bits(bb1, sq, d, t);
        lemma_ray_bb_bits(bb2, sq, d, t);
    }
    lemma_bits_equal(ray_bb(bb1, sq, d), ray_bb(bb2, sq, d));
}

/// Masking the occupancy with a slider mask keeps every square that can
/// stop the ray.
proof fn lemma_ray_masked(occ: u64, mask: u64, sq: int, d: Direction)
    requires
        0 <= sq < 64,
        forall|k: int|
            k >= 1 && on_board(walk(file_of(sq), dir_df(d), k + 1), walk(rank_of(sq), dir_dr(d), k + 1))
                ==> #[trigger] bit_set(mask, sq_of(walk(file_of(sq), dir_df(d), k), walk(rank_of(sq), dir_dr(d), k)) as u64),
    ensures
        ray_bb(occ & mask, sq, d) == ray_bb(occ, sq, d),
{
    let f = file_of(sq);
    let r = rank_of(sq);
    assert forall|k: int|
        k >= 1 && on_board(walk(f, dir_df(d), k + 1), walk(r, dir_dr(d), k + 1))
            implies #[trigger] agree_at(occ & mask, occ, f, r, d, k) by {
        let s = sq_of(walk(f, dir_df(d), k), walk(r, dir_dr(d), k));
        assert(bit_set(mask, s as u64));
        assert(0 <= s < 64);
        lemma_bit_and(occ, mask, s as u64);
    }
    lemma_steps_agree(occ & mask, occ, f, r, d, 8);
    lemma_ray_bb_steps(occ & mask, occ, sq, d);
}

/// The squares a rook passes before the last square of its line are in its mask.
proof fn lemma_rook_line_in_mask(sq: int, d: Direction, k: int)
    requires
        0 <= sq < 64,
        d == Direction::Up || d == Direction::Right || d == Direction::Down || d == Direction::Left,
        k >= 1,
        on_board(walk(file_of(sq), dir_df(d), k + 1), walk(rank_of(sq), dir_dr(d), k + 1)),
    ensures
        rook_mask_target(sq, sq_of(walk(file_of(sq), dir_df(d), k), walk(rank_of(sq), dir_dr(d), k))),
{
    let s = sq_of(walk(file_of(sq), dir_df(d), k), walk(rank_of(sq), dir_dr(d), k));
    assert(file_of(s) == walk(file_of(sq), dir_df(d), k));
    assert(rank_of(s) == walk(rank_of(sq), dir_dr(d), k));
}

/// The squares a bishop passes before the last square of its line are in its mask.
proof fn lemma_bishop_line_in_mask(sq: int, d: Direction, k: int)
    requires
        0 <= sq < 64,
        d == Direction::UpLeft || d == Direction::UpRight || d == Direction::DownRight || d
            == Direction::DownLeft,
        k >= 1,
        on_board(walk(file_of(sq), dir_df(d), k + 1), walk(rank_of(sq), dir_dr(d), k + 1)),
    ensures
        bishop_mask_target(sq, sq_of(walk(file_of(sq), dir_df(d), k), walk(rank_of(sq), dir_dr(d), k))),
{
    let s = sq_of(walk(file_of(sq), dir_df(d), k), walk(rank_of(sq), dir_dr(d), k));
    assert(file_of(s) == walk(file_of(sq), dir_df(d), k));
    assert(rank_of(s) == walk(rank_of(sq), dir_dr(d), k));
}

proof fn lemma_rook_ray_masked(occ: u64, mask: u64, sq: int, d: Direction)
    requires
        0 <= sq < 64,
        d == Direction::Up || d == Direction::Right || d == Direction::Down || d == Direction::Left,
        forall|t: u64| t < 64 ==> bit_set(mask, t) == rook_mask_target(sq, t as int),
    ensures
        ray_bb(occ & mask, sq, d) == ray_bb(occ, sq, d),
{
    assert forall|k: int|
        k >= 1 && on_board(walk(file_of(sq), dir_df(d), k + 1), walk(rank_of(sq), dir_dr(d), k + 1))
            implies #[trigger] bit_set(mask, sq_of(walk(file_of(sq), dir_df(d), k), walk(rank_of(sq), dir_dr(d), k)) as u64) by {
        lemma_rook_line_in_mask(sq, d, k);
        let s = sq_of(walk(file_of(sq), dir_df(d), k), walk(rank_of(sq), dir_dr(d), k));
        assert(0 <= s < 64);
        assert(bit_set(mask, s as u64) == rook_mask_target(sq, s));
    }
    lemma_ray_masked(occ, mask, sq, d);
}

proof fn lemma_bishop_ray_masked(occ: u64, mask: u64, sq: int, d: Direction)
    requires
        0 <= sq < 64,
        d == Direction::UpLeft || d == Direction::UpRight || d == Direction::DownRight || d
            == Direction::DownLeft,
        forall|t: u64| t < 64 ==> bit_set(mask, t) == bishop_mask_target(sq, t as int),
    ensures
        ray_bb(occ & mask, sq, d) == ray_bb(occ, sq, d),
{
    assert forall|k: int|
        k >= 1 && on_board(walk(file_of(sq), dir_df(d), k + 1), walk(rank_of(sq), dir_dr(d), k + 1))
            implies #[trigger] bit_set(mask, sq_of(walk(file_of(sq), dir_df(d), k), walk(rank_of(sq), dir_dr(d), k)) as u64) by {
        lemma_bishop_line_in_mask(sq, d, k);
        let s = sq_of(walk(file_of(sq), dir_df(d), k), walk(rank_of(sq), dir_dr(d), k));
        assert(0 <= s < 64);
        assert(bit_set(mask, s as u64) == bishop_mask_target(sq, s));
    }
    lemma_ray_masked(occ, mask, sq, d);
}

/// The rook attacks only depend on the occupancy within the rook mask.
pub proof fn lemma_rook_masked(occ: u64, mask: u64, sq: int)
    requires
        0 <= sq < 64,
        forall|t: u64| t < 64 ==> bit_set(mask, t) == rook_mask_target(sq, t as int),
    ensures
        rook_bb(occ & mask, sq) == rook_bb(occ, sq),
{
    lemma_rook_ray_masked(occ, mask, sq, Direction::Up);
    lemma_rook_ray_masked(occ, mask, sq, Direction::Right);
    lemma_rook_ray_masked(occ, mask, sq, Direction::Down);
    lemma_rook_ray_masked(occ, mask, sq, Direction::Left);
}

/// The bishop attacks only depend on the occupancy within the bishop mask.
pub proof fn lemma_bishop_masked(occ: u64, mask: u64, sq: int)
    requires
        0 <= sq < 64,
        forall|t: u64| t < 64 ==> bit_set(mask, t) == bishop_mask_target(sq, t as int),
    ensures
        bishop_bb(occ & mask, sq) == bishop_bb(occ, sq),
{
    lemma_bishop_ray_masked(occ, mask, sq, Direction::UpLeft);
    lemma_bishop_ray_masked(occ, mask, sq, Direction::UpRight);
    lemma_bishop_ray_masked(occ, mask, sq, Direction::DownRight);
    lemma_bishop_ray_masked(occ, mask, sq, Direction::DownLeft);
}

/// A rook always attacks at least one square.
pub proof fn lemma_rook_nonzero(occ: u64, sq: int)
    requires
        0 <= sq < 64,
    ensures
        rook_bb(occ, sq) != 0,
{
    let f = file_of(sq);
    let r = rank_of(sq);
    let d = if r < 7 { Direction::Up } else { Direction::Down };
    let t = sq_of(f + dir_df(d), r + dir_dr(d));
    assert(ray_steps(occ, f, r, d, 8) >= 1);
    assert(file_of(t) == f + dir_df(d) && rank_of(t) == r + dir_dr(d));
    assert(in_ray(occ, sq, d, t));
    lemma_rook_bits(occ, sq, t as u64);
    if rook_bb(occ, sq) == 0 {
        lemma_bit_zero(t as u64);
    }
}

/// A bishop always attacks at least one square.
pub proof fn lemma_bishop_nonzero(occ: u64, sq: int)
    requires
        0 <= sq < 64,
    ensures
        bishop_bb(occ, sq) != 0,
{
    let f = file_of(sq);
    let r = rank_of(sq);
    let d = if f < 7 && r < 7 {
        Direction::UpRight
    } else if f > 0 && r < 7 {
        Direction::UpLeft
    } else if f < 7 && r > 0 {
        Direction::DownRight
    } else {
        Direction::DownLeft
    };
    let t = sq_of(f + dir_df(d), r + dir_dr(d));
    assert(ray_steps(occ, f, r, d, 8) >= 1);
    assert(file_of(t) == f + dir_df(d) && rank_of(t) == r + dir_dr(d));
    assert(in_ray(occ, sq, d, t));
    lemma_bishop_bits(occ, sq, t as u64);
    if bishop_bb(occ, sq) == 0 {
        lemma_bit_zero(t as u64);
    }
}

/// No square is attacked both along a line and along a diagonal, so the
/// queen's attacks are the rook's and the bishop's attacks together.
pub proof fn lemma_queen_xor(occ: u64, sq: int)
    requires
        0 <= sq < 64,
    ensures
        rook_bb(occ, sq) ^ bishop_bb(occ, sq) == rook_bb(occ, sq) | bishop_bb(occ, sq),
{
    let r = rook_bb(occ, sq);
    let b = bishop_bb(occ, sq);
    assert forall|t: u64| t < 64 implies bit_set(r ^ b, t) == bit_set(r | b, t) by {
        lemma_bit_xor(r, b, t);
        lemma_bit_or(r, b, t);
        lemma_rook_bits(occ, sq, t);
        lemma_bishop_bits(occ, sq, t);
    }
    lemma_bits_equal(r ^ b, r | b);
}

} // verus!
