//! Files, ranks, directions and sliding rays on the 8x8 board.
use crate::bitboard::{bit_set, lemma_bit_or, lemma_bit_single, lemma_bit_zero, lemma_bits_equal, lemma_single_and_nonzero};
use vstd::prelude::*;

verus! {

/// The eight directions a sliding piece can move in.
#[derive(Clone, Copy, PartialEq, Eq)]
pub enum Direction {
    Up,
    Right,
    Down,
    Left,
    UpLeft,
    UpRight,
    DownRight,
    DownLeft,
}

/// The file (column, 0 = A) of a square.
pub open spec fn file_of(sq: int) -> int {
    sq % 8
}

/// The rank (row, 0 = first rank) of a square.
pub open spec fn rank_of(sq: int) -> int {
    sq / 8
}

/// The square on the given file and rank.
pub open spec fn sq_of(f: int, r: int) -> int {
    r * 8 + f
}

pub open spec fn on_board(f: int, r: int) -> bool {
    0 <= f < 8 && 0 <= r < 8
}

/// File step of a direction.
pub open spec fn dir_df(d: Direction) -> int {
    match d {
        Direction::Up => 0,
        Direction::Right => 1,
        Direction::Down => 0,
        Direction::Left => -1,
        Direction::UpLeft => -1,
        Direction::UpRight => 1,
        Direction::DownRight => 1,
        Direction::DownLeft => -1,
    }
}

/// Rank step of a direction.
pub open spec fn dir_dr(d: Direction) -> int {
    match d {
        Direction::Up => 1,
        Direction::Right => 0,
        Direction::Down => -1,
        Direction::Left => 0,
        Direction::UpLeft => 1,
        Direction::UpRight => 1,
        Direction::DownRight => -1,
        Direction::DownLeft => -1,
    }
}

/// The coordinate `x` moved `k` steps with step `d` (-1, 0 or 1).
pub open spec fn walk(x: int, d: int, k: int) -> int {
    if d == 1 {
        x + k
    } else if d == -1 {
        x - k
    } else {
        x
    }
}

/// Number of squares a slider on (f, r) sees in direction `d` when the
/// pieces on `bb` block it: it stops at the board edge, or on the first
/// blocker (which it sees).
pub open spec fn ray_steps(bb: u64, f: int, r: int, d: Direction, fuel: nat) -> nat
    decreases fuel,
{
    let nf = f + dir_df(d);
    let nr = r + dir_dr(d);
    if fuel == 0 || !on_board(nf, nr) {
        0
    } else if bit_set(bb, sq_of(nf, nr) as u64) {
        1
    } else {
        1 + ray_steps(bb, nf, nr, d, (fuel - 1) as nat)
    }
}

/// How many steps in direction `d` lead from (f, r) towards square `t`
/// (meaningful only when `t` lies on that line).
pub open spec fn ray_index(t: int, f: int, r: int, d: Direction) -> int {
    if dir_dr(d) == 1 {
        rank_of(t) - r
    } else if dir_dr(d) == -1 {
        r - rank_of(t)
    } else if dir_df(d) == 1 {
        file_of(t) - f
    } else {
        f - file_of(t)
    }
}

/// Square `t` is one of the first `n` squares from (f, r) in direction `d`.
pub open spec fn within_ray(t: int, f: int, r: int, d: Direction, n: int) -> bool {
    let k = ray_index(t, f, r, d);
    &&& 0 <= t < 64
    &&& 1 <= k <= n
    &&& file_of(t) == walk(f, dir_df(d), k)
    &&& rank_of(t) == walk(r, dir_dr(d), k)
}

/// Square `t` is seen by a slider on `sq` looking in direction `d`, with
/// the pieces of `bb` blocking its view.
pub open spec fn in_ray(bb: u64, sq: int, d: Direction, t: int) -> bool {
    within_ray(t, file_of(sq), rank_of(sq), d, ray_steps(bb, file_of(sq), rank_of(sq), d, 8) as int)
}

/// Bits of the A-file bitboard moved to file `f`.
pub proof fn lemma_file_bits(f: u64, i: u64)
    requires
        f < 8,
        i < 64,
    ensures
        bit_set(0x0101010101010101u64 << f, i) == (i % 8 == f),
{
    assert(f < 8 && i < 64 ==> ((((0x0101010101010101u64 << f) >> i) & 1u64 == 1u64) == (i % 8
        == f))) by (bit_vector);
}

/// Bits of the first-rank bitboard moved to rank `r`.
pub proof fn lemma_rank_bits(r: u64, i: u64)
    requires
        r < 8,
        i < 64,
    ensures
        bit_set(0xFFu64 << (r * 8), i) == (i / 8 == r),
{
    assert(r < 8 && i < 64 ==> ((((0xFFu64 << (r * 8)) >> i) & 1u64 == 1u64) == (i / 8 == r)))
        by (bit_vector);
}

/// The bitboard of the ray from (f, r) in direction `d`, blocked by `bb`.
pub open spec fn ray_walk_bb(bb: u64, f: int, r: int, d: Direction, fuel: nat) -> u64
    decreases fuel,
{
    let nf = f + dir_df(d);
    let nr = r + dir_dr(d);
    if fuel == 0 || !on_board(nf, nr) {
        0
    } else if bit_set(bb, sq_of(nf, nr) as u64) {
        1u64 << (sq_of(nf, nr) as u64)
    } else {
        (1u64 << (sq_of(nf, nr) as u64)) | ray_walk_bb(bb, nf, nr, d, (fuel - 1) as nat)
    }
}

/// The bitboard of the squares a slider on `sq` sees in direction `d`
/// when the pieces on `bb` block it.
pub open spec fn ray_bb(bb: u64, sq: int, d: Direction) -> u64 {
    ray_walk_bb(bb, file_of(sq), rank_of(sq), d, 8)
}

proof fn lemma_ray_walk_bits(bb: u64, f: int, r: int, d: Direction, fuel: nat, t: u64)
    requires
        on_board(f, r),
        t < 64,
    ensures
        bit_set(ray_walk_bb(bb, f, r, d, fuel), t) == within_ray(t as int, f, r, d, ray_steps(bb, f, r, d, fuel) as int),
    decreases fuel,
{
    let nf = f + dir_df(d);
    let nr = r + dir_dr(d);
    if fuel == 0 || !on_board(nf, nr) {
        lemma_bit_zero(t);
    } else {
        let s = sq_of(nf, nr) as u64;
        lemma_bit_single(s, t);
        lemma_within_ray_extend(t as int, f, r, d, 0, nf, nr);
        if !bit_set(bb, s) {
            lemma_bit_or(1u64 << s, ray_walk_bb(bb, nf, nr, d, (fuel - 1) as nat), t);
            lemma_ray_walk_bits(bb, nf, nr, d, (fuel - 1) as nat, t);
            let n = ray_steps(bb, nf, nr, d, (fuel - 1) as nat) as int;
            let k = ray_index(t as int, f, r, d);
            assert(ray_index(t as int, nf, nr, d) == k - 1);
            if within_ray(t as int, f, r, d, 1 + n) && k >= 2 {
                assert(within_ray(t as int, nf, nr, d, n));
            }
        }
    }
}

/// Bit `t` of a ray bitboard is set exactly when `t` is on the ray.
pub proof fn lemma_ray_bb_bits(bb: u64, sq: int, d: Direction, t: u64)
    requires
        0 <= sq < 64,
        t < 64,
    ensures
        bit_set(ray_bb(bb, sq, d), t) == in_ray(bb, sq, d, t as int),
{
    lemma_ray_walk_bits(bb, file_of(sq), rank_of(sq), d, 8, t);
}

/// Can a piece on (file, rank) take one step in direction `d`?
fn can_step(file: u64, rank: u64, direction: Direction) -> (b: bool)
    requires
        file < 8,
        rank < 8,
    ensures
        b == on_board(file + dir_df(direction), rank + dir_dr(direction)),
{
    match direction {
        Direction::Up => rank != 7,
        Direction::Right => file != 7,
        Direction::Down => rank != 0,
        Direction::Left => file != 0,
        Direction::UpLeft => rank != 7 && file != 0,
        Direction::UpRight => rank != 7 && file != 7,
        Direction::DownRight => rank != 0 && file != 7,
        Direction::DownLeft => rank != 0 && file != 0,
    }
}

proof fn lemma_ray_steps_bound(bb: u64, f: int, r: int, d: Direction, fuel: nat)
    ensures
        ray_steps(bb, f, r, d, fuel) <= fuel,
    decreases fuel,
{
    if fuel > 0 {
        lemma_ray_steps_bound(bb, f + dir_df(d), r + dir_dr(d), d, (fuel - 1) as nat);
    }
}

proof fn lemma_within_ray_extend(t: int, f0: int, r0: int, d: Direction, i: int, nf: int, nr: int)
    requires
        0 <= t < 64,
        0 <= i,
        on_board(nf, nr),
        nf == walk(f0, dir_df(d), i + 1),
        nr == walk(r0, dir_dr(d), i + 1),
    ensures
        within_ray(t, f0, r0, d, i + 1) == (within_ray(t, f0, r0, d, i) || t == sq_of(nf, nr)),
{
    if t == sq_of(nf, nr) {
        assert(file_of(t) == nf && rank_of(t) == nr);
        assert(ray_index(t, f0, r0, d) == i + 1);
    }
    if within_ray(t, f0, r0, d, i + 1) && ray_index(t, f0, r0, d) == i + 1 {
        assert(t == sq_of(file_of(t), rank_of(t)));
    }
}

/// After seven steps in any direction a piece stands on the edge it walks towards.
proof fn lemma_walk_limit(f0: int, r0: int, d: Direction, i: int, f: int, r: int)
    requires
        on_board(f0, r0),
        on_board(f, r),
        1 <= i,
        f == walk(f0, dir_df(d), i),
        r == walk(r0, dir_dr(d), i),
    ensures
        i <= 7,
        i == 7 ==> !on_board(f + dir_df(d), r + dir_dr(d)),
{
}

/// On an empty board a slider sees every square along its line, up to the edge.
pub proof fn lemma_empty_steps(f: int, r: int, d: Direction, fuel: nat, k: int)
    requires
        on_board(f, r),
        k >= 1,
    ensures
        (k <= ray_steps(0u64, f, r, d, fuel)) == (k <= fuel && on_board(
            walk(f, dir_df(d), k),
            walk(r, dir_dr(d), k),
        )),
    decreases fuel,
{
    let nf = f + dir_df(d);
    let nr = r + dir_dr(d);
    if fuel > 0 && on_board(nf, nr) {
        lemma_bit_zero(sq_of(nf, nr) as u64);
        if k >= 2 {
            lemma_empty_steps(nf, nr, d, (fuel - 1) as nat, k - 1);
        }
    }
}

/// A slider on an empty board sees exactly the squares along its line.
pub proof fn lemma_empty_ray(sq: int, d: Direction, t: int)
    requires
        0 <= sq < 64,
    ensures
        in_ray(0u64, sq, d, t) == (0 <= t < 64 && ray_index(t, file_of(sq), rank_of(sq), d) >= 1
            && file_of(t) == walk(file_of(sq), dir_df(d), ray_index(t, file_of(sq), rank_of(sq), d))
            && rank_of(t) == walk(rank_of(sq), dir_dr(d), ray_index(t, file_of(sq), rank_of(sq), d))),
{
    let k = ray_index(t, file_of(sq), rank_of(sq), d);
    if k >= 1 {
        lemma_empty_steps(file_of(sq), rank_of(sq), d, 8, k);
    }
}

/// Creates the ray of a slider on `square` in the given direction: all
/// squares up to the board edge, or up to and including the first square
/// that is set in `bb_in`.
pub fn ray(bb_in: u64, square: u64, direction: Direction) -> (bb_ray: u64)
    requires
        square < 64,
    ensures
        forall|t: u64| t < 64 ==> bit_set(bb_ray, t) == in_ray(bb_in, square as int, direction, t as int),
        bb_ray == ray_bb(bb_in, square as int, direction),
{
    let ghost f0 = file_of(square as int);
    let ghost r0 = rank_of(square as int);
    let ghost df = dir_df(direction);
    let ghost dr = dir_dr(direction);
    let ghost total = ray_steps(bb_in, f0, r0, direction, 8);
    let mut file = square % 8;
    let mut rank = square / 8;
    let mut bb_ray: u64 = 0;
    let mut done = false;
    let ghost mut i: int = 0;
    proof {
        assert forall|t: u64| t < 64 implies bit_set(bb_ray, t) == within_ray(t as int, f0, r0, direction, i) by {
            lemma_bit_zero(t);
        }
    }
    while !done
        invariant
            0 <= i <= 7,
            square < 64,
            file < 8,
            rank < 8,
            file == walk(f0, df, i),
            rank == walk(r0, dr, i),
            df == dir_df(direction),
            dr == dir_dr(direction),
            total == ray_steps(bb_in, f0, r0, direction, 8),
            f0 == file_of(square as int),
            r0 == rank_of(square as int),
            forall|t: u64| t < 64 ==> bit_set(bb_ray, t) == within_ray(t as int, f0, r0, direction, i),
            !done ==> total == i + ray_steps(bb_in, file as int, rank as int, direction, (8 - i) as nat),
            done ==> total == i,
        decreases (8 - i) + (if done { 0int } else { 1int }),
    {
        done = true;
        if can_step(file, rank, direction) {
            let ghost old_ray = bb_ray;
            let ghost (ofile, orank) = (file as int, rank as int);
            match direction {
                Direction::Up => { rank = rank + 1; },
                Direction::Right => { file = file + 1; },
                Direction::Down => { rank = rank - 1; },
                Direction::Left => { file = file - 1; },
                Direction::UpLeft => { rank = rank + 1; file = file - 1; },
                Direction::UpRight => { rank = rank + 1; file = file + 1; },
                Direction::DownRight => { rank = rank - 1; file = file + 1; },
                Direction::DownLeft => { rank = rank - 1; file = file - 1; },
            }
            let sq = rank * 8 + file;
            let bb_square = 1u64 << sq;
            bb_ray = bb_ray | bb_square;
            done = (bb_square & bb_in) > 0;
            proof {
                lemma_single_and_nonzero(sq, bb_in);
                assert(file == ofile + df && rank == orank + dr);
                assert forall|t: u64| t < 64 implies bit_set(bb_ray, t) == within_ray(
                    t as int,
                    f0,
                    r0,
                    direction,
                    i + 1,
                ) by {
                    lemma_bit_or(old_ray, bb_square, t);
                    lemma_bit_single(sq, t);
                    lemma_within_ray_extend(t as int, f0, r0, direction, i, file as int, rank as int);
                }
                i = i + 1;
                lemma_walk_limit(f0, r0, direction, i, file as int, rank as int);
            }
        } else {
            proof {
                assert(ray_steps(bb_in, file as int, rank as int, direction, (8 - i) as nat) == 0);
            }
        }
    }
    proof {
        assert forall|t: u64| t < 64 implies bit_set(bb_ray, t) == in_ray(bb_in, square as int, direction, t as int) by {}
        assert forall|t: u64| t < 64 implies bit_set(bb_ray, t) == bit_set(ray_bb(bb_in, square as int, direction), t) by {
            lemma_ray_bb_bits(bb_in, square as int, direction, t);
        }
        lemma_bits_equal(bb_ray, ray_bb(bb_in, square as int, direction));
    }
    bb_ray
}

} // verus!
