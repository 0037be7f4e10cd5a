//! Attack masks generated on a 10x12 "mailbox" board: the 8x8 board sits
//! inside a border two ranks high at the top and bottom and one file
//! wide at each side, so that stepping off the board always lands on a
//! border square. Adding a direction to a mailbox square gives the
//! neighbouring square in that direction, or a border square.
use crate::attacks::{
    bishop_mask_target, king_bb, king_board, king_target, knight_bb, knight_board, knight_target,
    rook_mask_target,
};
use crate::bitboard::{bit_set, lemma_bit_or, lemma_bit_single, lemma_bit_zero, lemma_bits_equal};
use crate::geometry::{file_of, rank_of};
use vstd::prelude::*;

verus! {

pub const MAILBOX_FILES: u8 = 10;
pub const MAILBOX_RANKS: u8 = 12;
pub const MAILBOX_SIZE: usize = 120;
pub const INVALID_SQUARE: u8 = 255;

/// The mailbox square of board square `sq`.
pub open spec fn mailbox_of(sq: int) -> int {
    21 + 10 * (sq / 8) + sq % 8
}

/// Mailbox square `m` lies on the board.
pub open spec fn on_board(m: int) -> bool {
    20 <= m <= 99 && 1 <= m % 10 <= 8
}

/// The board square of an on-board mailbox square.
pub open spec fn board_of(m: int) -> int {
    (m / 10 - 2) * 8 + (m % 10 - 1)
}

/// The helper board: for each mailbox square its board square (or the
/// invalid marker on the border), and for each board square its mailbox
/// square.
pub struct HelperBoard {
    pub mailbox: [u8; 120],
    pub real: [u8; 64],
}

/// The helper board maps the two boards onto each other.
pub open spec fn helper_ok(h: HelperBoard) -> bool {
    &&& forall|m: int| 0 <= m < 120 ==> #[trigger] h.mailbox[m] == if on_board(m) {
        board_of(m) as u8
    } else {
        INVALID_SQUARE
    }
    &&& forall|sq: int| 0 <= sq < 64 ==> #[trigger] h.real[sq] == mailbox_of(sq)
}

/// A square `rank` ranks and `file` files away from the board's corner,
/// where rank and file may lie up to two beyond the board: its mailbox
/// square is on the board exactly when the square is, and then it is
/// that square.
pub proof fn lemma_mailbox_step(rank: int, file: int)
    requires
        -2 <= rank <= 9,
        -1 <= file <= 8,
        rank == -2 ==> file >= -1,
    ensures
        on_board(21 + 10 * rank + file) <==> (0 <= rank <= 7 && 0 <= file <= 7),
        (0 <= rank <= 7 && 0 <= file <= 7) ==> board_of(21 + 10 * rank + file) == 8 * rank + file,
{
}

/// As `lemma_mailbox_step`, for steps of two files (knight moves).
pub proof fn lemma_mailbox_far(rank: int, file: int)
    requires
        -1 <= rank <= 8,
        -2 <= file <= 9,
    ensures
        on_board(21 + 10 * rank + file) <==> (0 <= rank <= 7 && 0 <= file <= 7),
        (0 <= rank <= 7 && 0 <= file <= 7) ==> board_of(21 + 10 * rank + file) == 8 * rank + file,
{
}

impl HelperBoard {
    /// Builds the helper board: the border squares are invalid, the board
    /// squares are numbered from A1 upward.
    pub fn new() -> (h: Self)
        ensures
            helper_ok(h),
    {
        let mut helper_board = HelperBoard { mailbox: [0u8; 120], real: [0u8; 64] };
        let mut real_board_square: usize = 0;
        let mut rank: u8 = 0;
        while rank < MAILBOX_RANKS
            invariant
                0 <= rank <= 12,
                real_board_square == if rank < 2 { 0int } else if rank <= 10 { (rank - 2) * 8 } else { 64int },
                forall|m: int| 0 <= m < rank * 10 ==> #[trigger] helper_board.mailbox[m] == if on_board(m) {
                    board_of(m) as u8
                } else {
                    INVALID_SQUARE
                },
                forall|sq: int| 0 <= sq < real_board_square ==> #[trigger] helper_board.real[sq] == mailbox_of(sq),
            decreases 12 - rank,
        {
            let mut file: u8 = 0;
            while file < MAILBOX_FILES
                invariant
                    0 <= rank < 12,
                    0 <= file <= 10,
                    real_board_square == (if rank < 2 { 0int } else if rank <= 10 { (rank - 2) * 8 } else { 64int })
                        + if 2 <= rank <= 9 { if file == 0 { 0int } else if file <= 9 { file - 1 } else { 8int } } else { 0int },
                    forall|m: int| 0 <= m < rank * 10 + file ==> #[trigger] helper_board.mailbox[m] == if on_board(m) {
                        board_of(m) as u8
                    } else {
                        INVALID_SQUARE
                    },
                    forall|sq: int| 0 <= sq < real_board_square ==> #[trigger] helper_board.real[sq] == mailbox_of(sq),
                decreases 10 - file,
            {
                let square = (rank as usize) * 10 + (file as usize);
                let invalid = file == 0 || file == 9 || rank == 0 || rank == 1 || rank == 10 || rank == 11;
                proof {
                    assert(on_board(square as int) == !invalid);
                }
                if invalid {
                    helper_board.mailbox[square] = INVALID_SQUARE;
                } else {
                    proof {
                        assert(board_of(square as int) == real_board_square);
                        assert(mailbox_of(real_board_square as int) == square);
                    }
                    helper_board.mailbox[square] = real_board_square as u8;
                    helper_board.real[real_board_square] = square as u8;
                    real_board_square += 1;
                }
                file += 1;
            }
            rank += 1;
        }
        helper_board
    }
}

impl Default for HelperBoard {
    /// The helper board, as `new` builds it.
    fn default() -> (h: Self)
        ensures
            helper_ok(h),
    {
        HelperBoard::new()
    }
}


pub const DIRECTIONS_KING: [i8; 8] = [-11, -10, -9, -1, 1, 9, 10, 11];
pub const DIRECTIONS_KNIGHT: [i8; 8] = [-21, -19, -12, -8, 8, 12, 19, 21];
pub const DIRECTIONS_ROOK: [i8; 4] = [-10, -1, 1, 10];
pub const DIRECTIONS_BISHOP: [i8; 4] = [-11, -9, 9, 11];

/// One step in mailbox direction `d` from board square `sq` lands on
/// board square `t`.
pub open spec fn step_target(sq: int, d: int, t: int) -> bool {
    on_board(mailbox_of(sq) + d) && board_of(mailbox_of(sq) + d) == t
}

/// Some direction among the first `n` of `dirs` leads from `sq` to `t`
/// in one step.
pub open spec fn some_step(sq: int, dirs: Seq<i8>, n: int, t: int) -> bool {
    exists|k: int| 0 <= k < n && #[trigger] step_target(sq, dirs[k] as int, t)
}

/// Adds to each square's mask the squares one step away in each of the
/// given directions.
pub fn non_slider(masks: &mut [u64; 64], directions: &[i8; 8], h: &HelperBoard)
    requires
        helper_ok(*h),
        forall|k: int| 0 <= k < 8 ==> -21 <= #[trigger] directions[k] <= 21,
    ensures
        forall|i: int, t: u64| 0 <= i < 64 && t < 64 ==> #[trigger] bit_set(final(masks)[i], t) == (bit_set(old(masks)[i], t)
            || some_step(i, directions@, 8, t as int)),
{
    let mut i: usize = 0;
    while i < 64
        invariant
            0 <= i <= 64,
            helper_ok(*h),
            forall|k: int| 0 <= k < 8 ==> -21 <= #[trigger] directions[k] <= 21,
            forall|j: int, t: u64| 0 <= j < i && t < 64 ==> #[trigger] bit_set(masks[j], t) == (bit_set(old(masks)[j], t)
                || some_step(j, directions@, 8, t as int)),
            forall|j: int| i <= j < 64 ==> #[trigger] masks[j] == old(masks)[j],
        decreases 64 - i,
    {
        let mut acc = masks[i];
        let mut k: usize = 0;
        while k < 8
            invariant
                0 <= k <= 8,
                i < 64,
                helper_ok(*h),
                forall|q: int| 0 <= q < 8 ==> -21 <= #[trigger] directions[q] <= 21,
                forall|t: u64| t < 64 ==> #[trigger] bit_set(acc, t) == (bit_set(old(masks)[i as int], t)
                    || some_step(i as int, directions@, k as int, t as int)),
            decreases 8 - k,
        {
            let d = directions[k];
            let mailbox_square = h.real[i] as i8;
            proof {
                assert(21 <= mailbox_of(i as int) <= 98);
            }
            let try_square = (mailbox_square + d) as usize;
            let ghost before = acc;
            if h.mailbox[try_square] != INVALID_SQUARE {
                let legal_square = h.mailbox[try_square];
                proof {
                    assert(on_board(try_square as int));
                    assert(0 <= board_of(try_square as int) < 64);
                }
                acc = acc | (1u64 << (legal_square as u64));
                proof {
                    assert forall|t: u64| t < 64 implies #[trigger] bit_set(acc, t) == (bit_set(old(masks)[i as int], t)
                        || some_step(i as int, directions@, k as int + 1, t as int)) by {
                        lemma_bit_or(before, 1u64 << (legal_square as u64), t);
                        lemma_bit_single(legal_square as u64, t);
                        if step_target(i as int, directions@[k as int] as int, t as int) {
                            assert(some_step(i as int, directions@, k as int + 1, t as int));
                        }
                        if some_step(i as int, directions@, k as int + 1, t as int) {
                            let q = choose|q: int| 0 <= q < k + 1 && #[trigger] step_target(i as int, directions@[q] as int, t as int);
                            if q < k {
                                assert(some_step(i as int, directions@, k as int, t as int));
                            }
                        }
                    }
                }
            } else {
                proof {
                    assert(!on_board(try_square as int));
                    assert forall|t: u64| t < 64 implies #[trigger] bit_set(acc, t) == (bit_set(old(masks)[i as int], t)
                        || some_step(i as int, directions@, k as int + 1, t as int)) by {
                        if some_step(i as int, directions@, k as int + 1, t as int) {
                            let q = choose|q: int| 0 <= q < k + 1 && #[trigger] step_target(i as int, directions@[q] as int, t as int);
                            if q < k {
                                assert(some_step(i as int, directions@, k as int, t as int));
                            }
                        }
                        if some_step(i as int, directions@, k as int, t as int) {
                            let q = choose|q: int| 0 <= q < k && #[trigger] step_target(i as int, directions@[q] as int, t as int);
                            assert(some_step(i as int, directions@, k as int + 1, t as int));
                        }
                    }
                }
            }
            k += 1;
        }
        masks[i] = acc;
        i += 1;
    }
}


/// One step from `sq` in the direction of `drank` ranks and `dfile`
/// files lands, through the mailbox, where it should: on the board square
/// that many ranks and files away, if there is one.
pub proof fn lemma_step_at(sq: int, drank: int, dfile: int, t: int)
    requires
        0 <= sq < 64,
        -2 <= drank <= 2,
        -2 <= dfile <= 2,
        -1 <= drank <= 1 || -1 <= dfile <= 1,
    ensures
        step_target(sq, 10 * drank + dfile, t) <==> (0 <= rank_of(sq) + drank <= 7 && 0 <= file_of(sq) + dfile <= 7
            && t == 8 * (rank_of(sq) + drank) + file_of(sq) + dfile),
{
    let r = sq / 8;
    let f = sq % 8;
    assert(mailbox_of(sq) + 10 * drank + dfile == 21 + 10 * (r + drank) + (f + dfile));
    if -1 <= dfile <= 1 {
        lemma_mailbox_step(r + drank, f + dfile);
    } else {
        lemma_mailbox_far(r + drank, f + dfile);
    }
}

/// The king directions lead in one step exactly to the squares a king
/// attacks.
pub proof fn lemma_king_steps(sq: int, t: int)
    requires
        0 <= sq < 64,
        0 <= t < 64,
    ensures
        some_step(sq, DIRECTIONS_KING@, 8, t) <==> king_target(sq, t),
{
    let dirs = DIRECTIONS_KING@;
    let pairs = seq![(-1int, -1int), (-1, 0), (-1, 1), (0, -1), (0, 1), (1, -1), (1, 0), (1, 1)];
    assert forall|k: int| 0 <= k < 8 implies dirs[k] as int == 10 * pairs[k].0 + pairs[k].1 by {}
    assert forall|k: int| 0 <= k < 8 implies #[trigger] step_target(sq, dirs[k] as int, t) <==> (0 <= rank_of(sq) + pairs[k].0 <= 7
        && 0 <= file_of(sq) + pairs[k].1 <= 7 && t == 8 * (rank_of(sq) + pairs[k].0) + file_of(sq) + pairs[k].1) by {
        lemma_step_at(sq, pairs[k].0, pairs[k].1, t);
    }
    if king_target(sq, t) {
        let dr = rank_of(t) - rank_of(sq);
        let df = file_of(t) - file_of(sq);
        let k = (dr + 1) * 3 + (df + 1) - if (dr + 1) * 3 + (df + 1) > 4 { 1int } else { 0int };
        assert(0 <= k < 8);
        assert(pairs[k] == (dr, df));
        assert(step_target(sq, dirs[k] as int, t));
    }
}

/// The knight directions lead in one step exactly to the squares a
/// knight attacks.
pub proof fn lemma_knight_steps(sq: int, t: int)
    requires
        0 <= sq < 64,
        0 <= t < 64,
    ensures
        some_step(sq, DIRECTIONS_KNIGHT@, 8, t) <==> knight_target(sq, t),
{
    let dirs = DIRECTIONS_KNIGHT@;
    let pairs = seq![(-2int, -1int), (-2, 1), (-1, -2), (-1, 2), (1, -2), (1, 2), (2, -1), (2, 1)];
    assert forall|k: int| 0 <= k < 8 implies dirs[k] as int == 10 * pairs[k].0 + pairs[k].1 by {}
    assert forall|k: int| 0 <= k < 8 implies #[trigger] step_target(sq, dirs[k] as int, t) <==> (0 <= rank_of(sq) + pairs[k].0 <= 7
        && 0 <= file_of(sq) + pairs[k].1 <= 7 && t == 8 * (rank_of(sq) + pairs[k].0) + file_of(sq) + pairs[k].1) by {
        lemma_step_at(sq, pairs[k].0, pairs[k].1, t);
    }
    if knight_target(sq, t) {
        let dr = rank_of(t) - rank_of(sq);
        let df = file_of(t) - file_of(sq);
        if dr == -2 && df == -1 { assert(step_target(sq, dirs[0] as int, t)); }
        else if dr == -2 && df == 1 { assert(step_target(sq, dirs[1] as int, t)); }
        else if dr == -1 && df == -2 { assert(step_target(sq, dirs[2] as int, t)); }
        else if dr == -1 && df == 2 { assert(step_target(sq, dirs[3] as int, t)); }
        else if dr == 1 && df == -2 { assert(step_target(sq, dirs[4] as int, t)); }
        else if dr == 1 && df == 2 { assert(step_target(sq, dirs[5] as int, t)); }
        else if dr == 2 && df == -1 { assert(step_target(sq, dirs[6] as int, t)); }
        else { assert(step_target(sq, dirs[7] as int, t)); }
    }
}


/// The first `n` steps from `sq` in mailbox direction `d` all stay on
/// the board.
pub open spec fn walk_reaches(sq: int, d: int, n: int) -> bool {
    forall|i: int| 1 <= i <= n ==> #[trigger] on_board(mailbox_of(sq) + i * d)
}

/// Walking in a straight line stays on the board for `n` steps exactly
/// when the `n`-th square is on the board.
proof fn lemma_walk(sq: int, dr: int, df: int, n: int)
    requires
        0 <= sq < 64,
        -1 <= dr <= 1,
        -1 <= df <= 1,
        dr != 0 || df != 0,
        0 <= n <= 9,
    ensures
        walk_reaches(sq, 10 * dr + df, n) <==> (n == 0 || (0 <= rank_of(sq) + n * dr <= 7 && 0 <= file_of(sq) + n * df <= 7)),
        n >= 1 && walk_reaches(sq, 10 * dr + df, n) ==> board_of(mailbox_of(sq) + n * (10 * dr + df)) == 8 * (rank_of(sq) + n * dr) + file_of(sq) + n * df,
    decreases n,
{
    let d = 10 * dr + df;
    let r = rank_of(sq);
    let f = file_of(sq);
    if n == 0 {
        assert(walk_reaches(sq, d, 0));
    } else {
        lemma_walk(sq, dr, df, n - 1);
        assert(n * d == 10 * (n * dr) + n * df) by (nonlinear_arith)
            requires d == 10 * dr + df;
        assert((n - 1) * dr == n * dr - dr) by (nonlinear_arith);
        assert((n - 1) * df == n * df - df) by (nonlinear_arith);
        assert(-9 <= n * dr <= 9 && -9 <= n * df <= 9) by (nonlinear_arith)
            requires -1 <= dr <= 1, -1 <= df <= 1, 0 <= n <= 9;
        assert(mailbox_of(sq) + n * d == 21 + 10 * (r + n * dr) + (f + n * df));
        if walk_reaches(sq, d, n - 1) && (n == 1 || (0 <= r + (n - 1) * dr <= 7 && 0 <= f + (n - 1) * df <= 7)) {
            lemma_mailbox_step(r + n * dr, f + n * df);
            if on_board(mailbox_of(sq) + n * d) {
                assert forall|i: int| 1 <= i <= n implies #[trigger] on_board(mailbox_of(sq) + i * d) by {
                    if i < n {
                        assert(walk_reaches(sq, d, n - 1));
                    }
                }
            }
        } else {
            assert(!walk_reaches(sq, d, n - 1));
            assert(!walk_reaches(sq, d, n));
            if n >= 2 {
                assert(!(0 <= r + (n - 1) * dr <= 7 && 0 <= f + (n - 1) * df <= 7));
            }
        }
    }
}


/// How many squares lie on the board from `sq` onward in the direction
/// of `dr` ranks and `df` files (each -1, 0 or 1, not both 0).
pub open spec fn edge_steps(sq: int, dr: int, df: int) -> int {
    let by_rank = if dr == 1 { 7 - rank_of(sq) } else if dr == -1 { rank_of(sq) } else { 8int };
    let by_file = if df == 1 { 7 - file_of(sq) } else if df == -1 { file_of(sq) } else { 8int };
    if by_rank < by_file { by_rank } else { by_file }
}

/// The square `j` steps from `sq` in the direction of `dr` ranks and
/// `df` files.
pub open spec fn ray_square(sq: int, dr: int, df: int, j: int) -> int {
    8 * (rank_of(sq) + j * dr) + file_of(sq) + j * df
}

/// The rank step of a mailbox direction.
pub open spec fn dir_rank(d: int) -> int {
    if d >= 9 { 1 } else if d <= -9 { -1 } else { 0 }
}

/// The file step of a mailbox direction.
pub open spec fn dir_file(d: int) -> int {
    d - 10 * dir_rank(d)
}

/// A mailbox direction of a slider: one step along a rank, a file or a
/// diagonal.
pub open spec fn slider_dir(d: int) -> bool {
    d == -11 || d == -10 || d == -9 || d == -1 || d == 1 || d == 9 || d == 10 || d == 11
}

/// The walk stays on the board for `n` steps exactly when `n` is at most
/// the number of squares to the edge.
proof fn lemma_walk_edge(sq: int, d: int, n: int)
    requires
        0 <= sq < 64,
        slider_dir(d),
        0 <= n <= 9,
    ensures
        walk_reaches(sq, d, n) <==> n <= edge_steps(sq, dir_rank(d), dir_file(d)),
        n >= 1 && walk_reaches(sq, d, n) ==> board_of(mailbox_of(sq) + n * d) == ray_square(sq, dir_rank(d), dir_file(d), n),
        0 <= edge_steps(sq, dir_rank(d), dir_file(d)) <= 7,
{
    let dr = dir_rank(d);
    let df = dir_file(d);
    assert(d == 10 * dr + df);
    lemma_walk(sq, dr, df, n);
    assert(-9 <= n * dr <= 9 && -9 <= n * df <= 9) by (nonlinear_arith)
        requires -1 <= dr <= 1, -1 <= df <= 1, 0 <= n <= 9;
    if dr == 1 { assert(n * dr == n) by (nonlinear_arith) requires dr == 1; }
    if dr == -1 { assert(n * dr == -n) by (nonlinear_arith) requires dr == -1; }
    if dr == 0 { assert(n * dr == 0) by (nonlinear_arith) requires dr == 0; }
    if df == 1 { assert(n * df == n) by (nonlinear_arith) requires df == 1; }
    if df == -1 { assert(n * df == -n) by (nonlinear_arith) requires df == -1; }
    if df == 0 { assert(n * df == 0) by (nonlinear_arith) requires df == 0; }
}

/// Walks from `sq` in direction `d` like a slider on an empty board and
/// collects every square it passes except the last one before the edge;
/// also counts them.
pub(crate) fn walk(h: &HelperBoard, sq: usize, d: i8) -> (r: (u64, u8))
    requires
        helper_ok(*h),
        sq < 64,
        slider_dir(d as int),
    ensures
        forall|t: u64| t < 64 ==> #[trigger] bit_set(r.0, t) == exists|j: int|
            1 <= j < edge_steps(sq as int, dir_rank(d as int), dir_file(d as int))
                && ray_square(sq as int, dir_rank(d as int), dir_file(d as int), j) == t,
        r.1 == if edge_steps(sq as int, dir_rank(d as int), dir_file(d as int)) >= 1 {
            edge_steps(sq as int, dir_rank(d as int), dir_file(d as int)) - 1
        } else {
            0
        },
{
    let ghost m = mailbox_of(sq as int);
    let ghost dr = dir_rank(d as int);
    let ghost df = dir_file(d as int);
    let ghost e = edge_steps(sq as int, dr, df);
    proof {
        lemma_walk_edge(sq as int, d as int, 0);
        assert(21 <= m <= 98);
    }
    let mut current_mailbox_square = h.real[sq] as i8;
    let mut next_mailbox_square = current_mailbox_square + d;
    let mut bits: u64 = 0;
    let mut count: u8 = 0;
    let ghost mut j: int = 0;
    proof {
        assert forall|t: u64| t < 64 implies #[trigger] bit_set(bits, t) == exists|i: int| 1 <= i <= j && i < e && ray_square(sq as int, dr, df, i) == t by {
            lemma_bit_zero(t);
        }
    }
    while h.mailbox[next_mailbox_square as usize] != INVALID_SQUARE
        invariant
            helper_ok(*h),
            sq < 64,
            slider_dir(d as int),
            m == mailbox_of(sq as int),
            21 <= m <= 98,
            dr == dir_rank(d as int) && df == dir_file(d as int),
            e == edge_steps(sq as int, dr, df),
            0 <= e <= 7,
            0 <= j <= e,
            current_mailbox_square == m + j * d,
            next_mailbox_square == m + (j + 1) * d,
            0 <= next_mailbox_square < 120,
            count == if j < e { j } else if e >= 1 { e - 1 } else { 0 },
            forall|t: u64| t < 64 ==> #[trigger] bit_set(bits, t) == exists|i: int| 1 <= i <= j && i < e && ray_square(sq as int, dr, df, i) == t,
        decreases 7 - j,
    {
        proof {
            lemma_walk_edge(sq as int, d as int, j + 1);
            assert(on_board(m + (j + 1) * d));
            if !walk_reaches(sq as int, d as int, j + 1) {
                lemma_walk_edge(sq as int, d as int, j);
                if j >= 1 {
                    assert(walk_reaches(sq as int, d as int, j));
                }
                assert forall|i: int| 1 <= i <= j + 1 implies #[trigger] on_board(mailbox_of(sq as int) + i * (d as int)) by {
                    if i <= j {
                        assert(walk_reaches(sq as int, d as int, j));
                    }
                }
            }
            assert(j + 1 <= e);
            assert((j + 1) * d == j * d + d) by (nonlinear_arith);
            assert((j + 2) * d == (j + 1) * d + d) by (nonlinear_arith);
        }
        current_mailbox_square = current_mailbox_square + d;
        next_mailbox_square = next_mailbox_square + d;
        proof {
            j = j + 1;
            lemma_walk_edge(sq as int, d as int, j);
            assert(board_of(m + j * d) == ray_square(sq as int, dr, df, j));
            assert(0 <= m + j * d < 120);
        }
        if h.mailbox[next_mailbox_square as usize] != INVALID_SQUARE {
            let valid_square = h.mailbox[current_mailbox_square as usize];
            let ghost before = bits;
            proof {
                assert(on_board(m + (j + 1) * d));
                lemma_walk_edge(sq as int, d as int, j + 1);
                if !walk_reaches(sq as int, d as int, j + 1) {
                    assert forall|i: int| 1 <= i <= j + 1 implies #[trigger] on_board(mailbox_of(sq as int) + i * (d as int)) by {
                        if i <= j {
                            assert(walk_reaches(sq as int, d as int, j));
                        }
                    }
                }
                assert(j < e);
                assert(0 <= valid_square < 64);
            }
            bits = bits | (1u64 << (valid_square as u64));
            count = count + 1;
            proof {
                assert forall|t: u64| t < 64 implies #[trigger] bit_set(bits, t) == exists|i: int| 1 <= i <= j && i < e && ray_square(sq as int, dr, df, i) == t by {
                    lemma_bit_or(before, 1u64 << (valid_square as u64), t);
                    lemma_bit_single(valid_square as u64, t);
                    if valid_square == t {
                        assert(1 <= j <= j && j < e && ray_square(sq as int, dr, df, j) == t);
                    }
                }
            }
        } else {
            proof {
                lemma_walk_edge(sq as int, d as int, j + 1);
                assert(!walk_reaches(sq as int, d as int, j + 1));
                assert(j >= e);
                assert forall|t: u64| t < 64 implies #[trigger] bit_set(bits, t) == exists|i: int| 1 <= i <= j && i < e && ray_square(sq as int, dr, df, i) == t by {
                    if exists|i: int| 1 <= i <= j && i < e && ray_square(sq as int, dr, df, i) == t {
                        let i = choose|i: int| 1 <= i <= j && i < e && ray_square(sq as int, dr, df, i) == t;
                        assert(1 <= i <= j - 1 && i < e && ray_square(sq as int, dr, df, i) == t);
                    }
                }
            }
        }
    }
    proof {
        lemma_walk_edge(sq as int, d as int, j + 1);
        assert(!walk_reaches(sq as int, d as int, j + 1)) by {
            if walk_reaches(sq as int, d as int, j + 1) {
                assert(on_board(mailbox_of(sq as int) + (j + 1) * (d as int)));
            }
        }
    }
    (bits, count)
}


/// Square `t` lies in the walk from `sq` in the direction of `dr` ranks
/// and `df` files, the last square before the edge left out.
pub open spec fn in_ray(sq: int, dr: int, df: int, t: int) -> bool {
    exists|j: int| 1 <= j < edge_steps(sq, dr, df) && #[trigger] ray_square(sq, dr, df, j) == t
}

/// The walks along the rank and the file of `sq` together give the rook
/// mask of `sq`.
pub proof fn lemma_rook_rays(sq: int, t: int)
    requires
        0 <= sq < 64,
        0 <= t < 64,
    ensures
        (in_ray(sq, -1, 0, t) || in_ray(sq, 0, -1, t) || in_ray(sq, 0, 1, t) || in_ray(sq, 1, 0, t))
            <==> rook_mask_target(sq, t),
{
    let r = rank_of(sq);
    let f = file_of(sq);
    let rt = rank_of(t);
    let ft = file_of(t);
    assert(t == 8 * rt + ft);
    if in_ray(sq, -1, 0, t) {
        let j = choose|j: int| 1 <= j < edge_steps(sq, -1, 0) && #[trigger] ray_square(sq, -1, 0, j) == t;
        assert(rt == r - j && ft == f);
    }
    if in_ray(sq, 1, 0, t) {
        let j = choose|j: int| 1 <= j < edge_steps(sq, 1, 0) && #[trigger] ray_square(sq, 1, 0, j) == t;
        assert(rt == r + j && ft == f);
    }
    if in_ray(sq, 0, -1, t) {
        let j = choose|j: int| 1 <= j < edge_steps(sq, 0, -1) && #[trigger] ray_square(sq, 0, -1, j) == t;
        assert(rt == r && ft == f - j);
    }
    if in_ray(sq, 0, 1, t) {
        let j = choose|j: int| 1 <= j < edge_steps(sq, 0, 1) && #[trigger] ray_square(sq, 0, 1, j) == t;
        assert(rt == r && ft == f + j);
    }
    if rook_mask_target(sq, t) {
        if ft == f && rt < r {
            assert(ray_square(sq, -1, 0, r - rt) == t);
        } else if ft == f && rt > r {
            assert(ray_square(sq, 1, 0, rt - r) == t);
        } else if rt == r && ft < f {
            assert(ray_square(sq, 0, -1, f - ft) == t);
        } else {
            assert(ray_square(sq, 0, 1, ft - f) == t);
        }
    }
}

/// The walks along the diagonals of `sq` together give the bishop mask
/// of `sq`.
pub proof fn lemma_bishop_rays(sq: int, t: int)
    requires
        0 <= sq < 64,
        0 <= t < 64,
    ensures
        (in_ray(sq, -1, -1, t) || in_ray(sq, -1, 1, t) || in_ray(sq, 1, -1, t) || in_ray(sq, 1, 1, t))
            <==> bishop_mask_target(sq, t),
{
    let r = rank_of(sq);
    let f = file_of(sq);
    let rt = rank_of(t);
    let ft = file_of(t);
    assert(t == 8 * rt + ft);
    if in_ray(sq, -1, -1, t) {
        let j = choose|j: int| 1 <= j < edge_steps(sq, -1, -1) && #[trigger] ray_square(sq, -1, -1, j) == t;
        assert(rt == r - j && ft == f - j);
    }
    if in_ray(sq, -1, 1, t) {
        let j = choose|j: int| 1 <= j < edge_steps(sq, -1, 1) && #[trigger] ray_square(sq, -1, 1, j) == t;
        assert(rt == r - j && ft == f + j);
    }
    if in_ray(sq, 1, -1, t) {
        let j = choose|j: int| 1 <= j < edge_steps(sq, 1, -1) && #[trigger] ray_square(sq, 1, -1, j) == t;
        assert(rt == r + j && ft == f - j);
    }
    if in_ray(sq, 1, 1, t) {
        let j = choose|j: int| 1 <= j < edge_steps(sq, 1, 1) && #[trigger] ray_square(sq, 1, 1, j) == t;
        assert(rt == r + j && ft == f + j);
    }
    if bishop_mask_target(sq, t) {
        if rt < r && ft < f {
            assert(ray_square(sq, -1, -1, r - rt) == t);
        } else if rt < r && ft > f {
            assert(ray_square(sq, -1, 1, r - rt) == t);
        } else if rt > r && ft < f {
            assert(ray_square(sq, 1, -1, rt - r) == t);
        } else {
            assert(ray_square(sq, 1, 1, rt - r) == t);
        }
    }
}


/// Some direction among the first `n` of `dirs` has `t` in its walk from
/// `sq`.
pub open spec fn some_ray(sq: int, dirs: Seq<i8>, n: int, t: int) -> bool {
    exists|k: int| 0 <= k < n && #[trigger] in_ray(sq, dir_rank(dirs[k] as int), dir_file(dirs[k] as int), t)
}

/// Adds to each square's mask the walks in each of the given directions.
pub fn slider(masks: &mut [u64; 64], directions: &[i8; 4], h: &HelperBoard)
    requires
        helper_ok(*h),
        forall|k: int| 0 <= k < 4 ==> slider_dir(#[trigger] directions[k] as int),
    ensures
        forall|i: int, t: u64| 0 <= i < 64 && t < 64 ==> #[trigger] bit_set(final(masks)[i], t) == (bit_set(old(masks)[i], t)
            || some_ray(i, directions@, 4, t as int)),
{
    let mut i: usize = 0;
    while i < 64
        invariant
            0 <= i <= 64,
            helper_ok(*h),
            forall|k: int| 0 <= k < 4 ==> slider_dir(#[trigger] directions[k] as int),
            forall|j: int, t: u64| 0 <= j < i && t < 64 ==> #[trigger] bit_set(masks[j], t) == (bit_set(old(masks)[j], t)
                || some_ray(j, directions@, 4, t as int)),
            forall|j: int| i <= j < 64 ==> #[trigger] masks[j] == old(masks)[j],
        decreases 64 - i,
    {
        let mut acc = masks[i];
        let mut k: usize = 0;
        while k < 4
            invariant
                0 <= k <= 4,
                i < 64,
                helper_ok(*h),
                forall|q: int| 0 <= q < 4 ==> slider_dir(#[trigger] directions[q] as int),
                forall|t: u64| t < 64 ==> #[trigger] bit_set(acc, t) == (bit_set(old(masks)[i as int], t)
                    || some_ray(i as int, directions@, k as int, t as int)),
            decreases 4 - k,
        {
            let d = directions[k];
            proof {
                assert(slider_dir(directions@[k as int] as int));
            }
            let (bits, _count) = walk(h, i, d);
            let ghost before = acc;
            acc = acc | bits;
            proof {
                assert forall|t: u64| t < 64 implies #[trigger] bit_set(acc, t) == (bit_set(old(masks)[i as int], t)
                    || some_ray(i as int, directions@, k as int + 1, t as int)) by {
                    lemma_bit_or(before, bits, t);
                    let dk = directions@[k as int] as int;
                    if in_ray(i as int, dir_rank(dk), dir_file(dk), t as int) {
                        assert(some_ray(i as int, directions@, k as int + 1, t as int));
                    }
                    if some_ray(i as int, directions@, k as int + 1, t as int) {
                        let q = choose|q: int| 0 <= q < k + 1 && #[trigger] in_ray(i as int, dir_rank(directions@[q] as int), dir_file(directions@[q] as int), t as int);
                        if q < k {
                            assert(some_ray(i as int, directions@, k as int, t as int));
                        }
                    }
                    if some_ray(i as int, directions@, k as int, t as int) {
                        let q = choose|q: int| 0 <= q < k && #[trigger] in_ray(i as int, dir_rank(directions@[q] as int), dir_file(directions@[q] as int), t as int);
                        assert(some_ray(i as int, directions@, k as int + 1, t as int));
                    }
                }
            }
            k += 1;
        }
        masks[i] = acc;
        i += 1;
    }
}

/// The masks of all piece types generated on the mailbox board.
pub struct MaskSet {
    pub king: [u64; 64],
    pub knight: [u64; 64],
    pub rook: [u64; 64],
    pub bishop: [u64; 64],
}

/// Generates the king, knight, rook and bishop masks of every square.
/// They are the king and knight attacks, and the rook and bishop masks
/// used for magic indexing (the lines through the square without the far
/// edges).
pub fn create() -> (m: MaskSet)
    ensures
        forall|sq: int| 0 <= sq < 64 ==> #[trigger] m.king[sq] == king_bb(sq as u64),
        forall|sq: int| 0 <= sq < 64 ==> #[trigger] m.knight[sq] == knight_bb(sq as u64),
        forall|sq: int, t: u64| 0 <= sq < 64 && t < 64 ==> #[trigger] bit_set(m.rook[sq], t) == rook_mask_target(sq, t as int),
        forall|sq: int, t: u64| 0 <= sq < 64 && t < 64 ==> #[trigger] bit_set(m.bishop[sq], t) == bishop_mask_target(sq, t as int),
{
    let helper_board = HelperBoard::new();
    let mut m = MaskSet { king: [0u64; 64], knight: [0u64; 64], rook: [0u64; 64], bishop: [0u64; 64] };
    let directions_king: [i8; 8] = [-11, -10, -9, -1, 1, 9, 10, 11];
    let directions_knight: [i8; 8] = [-21, -19, -12, -8, 8, 12, 19, 21];
    let directions_rook: [i8; 4] = [-10, -1, 1, 10];
    let directions_bishop: [i8; 4] = [-11, -9, 9, 11];
    proof {
        assert(directions_king@ == DIRECTIONS_KING@);
        assert(directions_knight@ == DIRECTIONS_KNIGHT@);
    }
    non_slider(&mut m.king, &directions_king, &helper_board);
    non_slider(&mut m.knight, &directions_knight, &helper_board);
    slider(&mut m.rook, &directions_rook, &helper_board);
    slider(&mut m.bishop, &directions_bishop, &helper_board);
    proof {
        assert forall|sq: int| 0 <= sq < 64 implies #[trigger] m.king[sq] == king_bb(sq as u64) by {
            assert forall|t: u64| t < 64 implies bit_set(m.king[sq], t) == bit_set(king_bb(sq as u64), t) by {
                lemma_bit_zero(t);
                lemma_king_steps(sq, t as int);
                crate::attacks::lemma_king_bb(sq as u64, t);
            }
            lemma_bits_equal(m.king[sq], king_bb(sq as u64));
        }
        assert forall|sq: int| 0 <= sq < 64 implies #[trigger] m.knight[sq] == knight_bb(sq as u64) by {
            assert forall|t: u64| t < 64 implies bit_set(m.knight[sq], t) == bit_set(knight_bb(sq as u64), t) by {
                lemma_bit_zero(t);
                lemma_knight_steps(sq, t as int);
                crate::attacks::lemma_knight_bb(sq as u64, t);
            }
            lemma_bits_equal(m.knight[sq], knight_bb(sq as u64));
        }
        assert forall|sq: int, t: u64| 0 <= sq < 64 && t < 64 implies #[trigger] bit_set(m.rook[sq], t) == rook_mask_target(sq, t as int) by {
            lemma_bit_zero(t);
            lemma_rook_rays(sq, t as int);
            let dirs = directions_rook@;
            assert(dir_rank(dirs[0] as int) == -1 && dir_file(dirs[0] as int) == 0);
            assert(dir_rank(dirs[1] as int) == 0 && dir_file(dirs[1] as int) == -1);
            assert(dir_rank(dirs[2] as int) == 0 && dir_file(dirs[2] as int) == 1);
            assert(dir_rank(dirs[3] as int) == 1 && dir_file(dirs[3] as int) == 0);
            if some_ray(sq, dirs, 4, t as int) {
                let q = choose|q: int| 0 <= q < 4 && #[trigger] in_ray(sq, dir_rank(dirs[q] as int), dir_file(dirs[q] as int), t as int);
            }
            if in_ray(sq, -1, 0, t as int) { assert(in_ray(sq, dir_rank(dirs[0] as int), dir_file(dirs[0] as int), t as int)); }
            if in_ray(sq, 0, -1, t as int) { assert(in_ray(sq, dir_rank(dirs[1] as int), dir_file(dirs[1] as int), t as int)); }
            if in_ray(sq, 0, 1, t as int) { assert(in_ray(sq, dir_rank(dirs[2] as int), dir_file(dirs[2] as int), t as int)); }
            if in_ray(sq, 1, 0, t as int) { assert(in_ray(sq, dir_rank(dirs[3] as int), dir_file(dirs[3] as int), t as int)); }
        }
        assert forall|sq: int, t: u64| 0 <= sq < 64 && t < 64 implies #[trigger] bit_set(m.bishop[sq], t) == bishop_mask_target(sq, t as int) by {
            lemma_bit_zero(t);
            lemma_bishop_rays(sq, t as int);
            let dirs = directions_bishop@;
            assert(dir_rank(dirs[0] as int) == -1 && dir_file(dirs[0] as int) == -1);
            assert(dir_rank(dirs[1] as int) == -1 && dir_file(dirs[1] as int) == 1);
            assert(dir_rank(dirs[2] as int) == 1 && dir_file(dirs[2] as int) == -1);
            assert(dir_rank(dirs[3] as int) == 1 && dir_file(dirs[3] as int) == 1);
            if some_ray(sq, dirs, 4, t as int) {
                let q = choose|q: int| 0 <= q < 4 && #[trigger] in_ray(sq, dir_rank(dirs[q] as int), dir_file(dirs[q] as int), t as int);
            }
            if in_ray(sq, -1, -1, t as int) { assert(in_ray(sq, dir_rank(dirs[0] as int), dir_file(dirs[0] as int), t as int)); }
            if in_ray(sq, -1, 1, t as int) { assert(in_ray(sq, dir_rank(dirs[1] as int), dir_file(dirs[1] as int), t as int)); }
            if in_ray(sq, 1, -1, t as int) { assert(in_ray(sq, dir_rank(dirs[2] as int), dir_file(dirs[2] as int), t as int)); }
            if in_ray(sq, 1, 1, t as int) { assert(in_ray(sq, dir_rank(dirs[3] as int), dir_file(dirs[3] as int), t as int)); }
        }
    }
    m
}

} // verus!
