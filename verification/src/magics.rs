//! Attack tables of the king, knight and pawns, and the slider masks,
//! generated on the mailbox helper board.
use crate::attacks::{bishop_mask_target, king_bb, knight_bb, pawn_bb, pawn_target, rook_mask_target};
use crate::bitboard::{bit_set, lemma_bit_or, lemma_bit_single, lemma_bit_zero, lemma_bits_equal};
use crate::defs::{Bitboard, Piece, Side, BISHOP, BLACK, KING, KNIGHT, ROOK, WHITE};
use crate::geometry::{file_of, rank_of};
use crate::masks::{
    dir_file, dir_rank, edge_steps, helper_ok, in_ray, lemma_bishop_rays, lemma_king_steps,
    lemma_knight_steps, lemma_rook_rays, lemma_step_at, non_slider, on_board, board_of,
    mailbox_of, slider_dir, some_step, step_target, walk, HelperBoard, DIRECTIONS_KING,
    DIRECTIONS_KNIGHT, INVALID_SQUARE,
};
use crate::movements::{PAWN_SQUARES_END, PAWN_SQUARES_START};
use vstd::prelude::*;

verus! {

/// The rook's mailbox directions: up, right, down, left.
pub const DIRECTIONS_ROOK: [i8; 4] = [10, 1, -10, -1];
/// The bishop's mailbox directions: up-right, down-right, down-left,
/// up-left.
pub const DIRECTIONS_BISHOP: [i8; 4] = [11, -9, -11, 9];

/// The slider masks of every square, and per square and direction the
/// number of squares in the mask along that direction.
pub struct SliderInfo {
    pub rook_move_masks: [Bitboard; 64],
    pub bishop_move_masks: [Bitboard; 64],
    pub rook_squares_in_ray: [[i8; 4]; 64],
    pub bishop_squares_in_ray: [[i8; 4]; 64],
}

impl SliderInfo {
    /// Empty masks and counts.
    pub fn new() -> (s: Self)
        ensures
            forall|i: int| 0 <= i < 64 ==> #[trigger] s.rook_move_masks[i] == 0,
            forall|i: int| 0 <= i < 64 ==> #[trigger] s.bishop_move_masks[i] == 0,
            forall|i: int, k: int| 0 <= i < 64 && 0 <= k < 4 ==> #[trigger] s.rook_squares_in_ray[i][k] == 0,
            forall|i: int, k: int| 0 <= i < 64 && 0 <= k < 4 ==> #[trigger] s.bishop_squares_in_ray[i][k] == 0,
    {
        SliderInfo {
            rook_move_masks: [0u64; 64],
            bishop_move_masks: [0u64; 64],
            rook_squares_in_ray: [[0i8; 4]; 64],
            bishop_squares_in_ray: [[0i8; 4]; 64],
        }
    }
}

impl Default for SliderInfo {
    /// Empty masks and counts, as `new` gives them.
    fn default() -> (s: Self)
        ensures
            forall|i: int| 0 <= i < 64 ==> #[trigger] s.rook_move_masks[i] == 0,
            forall|i: int| 0 <= i < 64 ==> #[trigger] s.bishop_move_masks[i] == 0,
            forall|i: int, k: int| 0 <= i < 64 && 0 <= k < 4 ==> #[trigger] s.rook_squares_in_ray[i][k] == 0,
            forall|i: int, k: int| 0 <= i < 64 && 0 <= k < 4 ==> #[trigger] s.bishop_squares_in_ray[i][k] == 0,
    {
        SliderInfo::new()
    }
}

/// The attack tables of the non-sliding pieces.
pub struct Magics {
    pub king: [Bitboard; 64],
    pub knight: [Bitboard; 64],
    pub pawns: [[Bitboard; 64]; 2],
}

/// The tables are filled: king and knight attacks on every square, pawn
/// attacks where a pawn can stand.
pub open spec fn magics_ready(m: Magics) -> bool {
    &&& forall|sq: int| 0 <= sq < 64 ==> #[trigger] m.king[sq] == king_bb(sq as u64)
    &&& forall|sq: int| 0 <= sq < 64 ==> #[trigger] m.knight[sq] == knight_bb(sq as u64)
    &&& forall|s: int, sq: int| 0 <= s < 2 && 0 <= sq < 64 ==> #[trigger] m.pawns[s][sq] == if PAWN_SQUARES_START <= sq < PAWN_SQUARES_END {
        pawn_bb(s, sq as u64)
    } else {
        0u64
    }
}

/// The number of squares in the mask of `sq` along direction `d`.
pub open spec fn squares_in_ray(sq: int, d: int) -> int {
    let e = edge_steps(sq, dir_rank(d), dir_file(d));
    if e >= 1 { e - 1 } else { 0 }
}

impl Magics {
    /// Empty tables.
    pub fn new() -> (m: Self)
        ensures
            forall|i: int| 0 <= i < 64 ==> #[trigger] m.king[i] == 0,
            forall|i: int| 0 <= i < 64 ==> #[trigger] m.knight[i] == 0,
            forall|i: int| 0 <= i < 64 ==> #[trigger] m.pawns[0][i] == 0,
            forall|i: int| 0 <= i < 64 ==> #[trigger] m.pawns[1][i] == 0,
    {
        Magics { king: [0u64; 64], knight: [0u64; 64], pawns: [[0u64; 64]; 2] }
    }

    /// Fills the tables of an empty `Magics` and computes the slider
    /// masks, which are returned.
    pub fn initialize(&mut self) -> (info: SliderInfo)
        requires
            forall|i: int| 0 <= i < 64 ==> #[trigger] old(self).king[i] == 0,
            forall|i: int| 0 <= i < 64 ==> #[trigger] old(self).knight[i] == 0,
            forall|i: int| 0 <= i < 64 ==> #[trigger] old(self).pawns[0][i] == 0,
            forall|i: int| 0 <= i < 64 ==> #[trigger] old(self).pawns[1][i] == 0,
        ensures
            magics_ready(*final(self)),
            forall|sq: int, t: u64| 0 <= sq < 64 && t < 64 ==> #[trigger] bit_set(info.rook_move_masks[sq], t) == rook_mask_target(sq, t as int),
            forall|sq: int, t: u64| 0 <= sq < 64 && t < 64 ==> #[trigger] bit_set(info.bishop_move_masks[sq], t) == bishop_mask_target(sq, t as int),
            forall|sq: int, k: int| 0 <= sq < 64 && 0 <= k < 4 ==> #[trigger] info.rook_squares_in_ray[sq][k] == squares_in_ray(sq, DIRECTIONS_ROOK[k] as int),
            forall|sq: int, k: int| 0 <= sq < 64 && 0 <= k < 4 ==> #[trigger] info.bishop_squares_in_ray[sq][k] == squares_in_ray(sq, DIRECTIONS_BISHOP[k] as int),
    {
        let helper_board = HelperBoard::new();
        let mut slider_info = SliderInfo::new();
        self.init_non_slider_attacks(KING, &helper_board);
        self.init_non_slider_attacks(KNIGHT, &helper_board);
        self.init_pawn_attacks(&helper_board);
        Magics::calc_slider_info(ROOK, &mut slider_info, &helper_board);
        Magics::calc_slider_info(BISHOP, &mut slider_info, &helper_board);
        slider_info
    }

    /// The attacks of a king or knight on `square`; nothing for other
    /// pieces.
    pub fn get_non_slider_attacks(&self, piece: Piece, square: usize) -> (bb: Bitboard)
        requires
            magics_ready(*self),
            square < 64,
        ensures
            piece == KING ==> bb == king_bb(square as u64),
            piece == KNIGHT ==> bb == knight_bb(square as u64),
            piece != KING && piece != KNIGHT ==> bb == 0,
    {
        if piece == KING {
            self.king[square]
        } else if piece == KNIGHT {
            self.knight[square]
        } else {
            0
        }
    }

    /// The squares a pawn of `side` on `square` attacks.
    pub fn get_pawn_attacks(&self, side: Side, square: usize) -> (bb: Bitboard)
        requires
            magics_ready(*self),
            side < 2,
            square < 64,
        ensures
            bb == if PAWN_SQUARES_START <= square < PAWN_SQUARES_END {
                pawn_bb(side as int, square as u64)
            } else {
                0u64
            },
    {
        self.pawns[side][square]
    }

    /// Fills the king (or knight) table of an empty table by stepping in
    /// each of the piece's directions on the mailbox board.
    fn init_non_slider_attacks(&mut self, piece: Piece, helper: &HelperBoard)
        requires
            piece == KING || piece == KNIGHT,
            helper_ok(*helper),
            piece == KING ==> forall|i: int| 0 <= i < 64 ==> #[trigger] old(self).king[i] == 0,
            piece == KNIGHT ==> forall|i: int| 0 <= i < 64 ==> #[trigger] old(self).knight[i] == 0,
        ensures
            piece == KING ==> forall|sq: int| 0 <= sq < 64 ==> #[trigger] final(self).king[sq] == king_bb(sq as u64),
            piece == KING ==> final(self).knight == old(self).knight,
            piece == KNIGHT ==> forall|sq: int| 0 <= sq < 64 ==> #[trigger] final(self).knight[sq] == knight_bb(sq as u64),
            piece == KNIGHT ==> final(self).king == old(self).king,
            final(self).pawns == old(self).pawns,
    {
        if piece == KING {
            let dirs: [i8; 8] = [-11, -10, -9, -1, 1, 9, 10, 11];
            proof {
                assert(dirs@ == DIRECTIONS_KING@);
            }
            non_slider(&mut self.king, &dirs, helper);
            proof {
                assert forall|sq: int| 0 <= sq < 64 implies #[trigger] self.king[sq] == king_bb(sq as u64) by {
                    assert forall|t: u64| t < 64 implies bit_set(self.king[sq], t) == bit_set(king_bb(sq as u64), t) by {
                        lemma_bit_zero(t);
                        lemma_king_steps(sq, t as int);
                        crate::attacks::lemma_king_bb(sq as u64, t);
                    }
                    lemma_bits_equal(self.king[sq], king_bb(sq as u64));
                }
            }
        } else {
            let dirs: [i8; 8] = [-21, -19, -12, -8, 8, 12, 19, 21];
            proof {
                assert(dirs@ == DIRECTIONS_KNIGHT@);
            }
            non_slider(&mut self.knight, &dirs, helper);
            proof {
                assert forall|sq: int| 0 <= sq < 64 implies #[trigger] self.knight[sq] == knight_bb(sq as u64) by {
                    assert forall|t: u64| t < 64 implies bit_set(self.knight[sq], t) == bit_set(knight_bb(sq as u64), t) by {
                        lemma_bit_zero(t);
                        lemma_knight_steps(sq, t as int);
                        crate::attacks::lemma_knight_bb(sq as u64, t);
                    }
                    lemma_bits_equal(self.knight[sq], knight_bb(sq as u64));
                }
            }
        }
    }

    /// Fills the pawn tables of both sides on the squares a pawn can
    /// stand on: one step diagonally forward on the mailbox board.
    fn init_pawn_attacks(&mut self, helper: &HelperBoard)
        requires
            helper_ok(*helper),
            forall|i: int| 0 <= i < 64 ==> #[trigger] old(self).pawns[0][i] == 0,
            forall|i: int| 0 <= i < 64 ==> #[trigger] old(self).pawns[1][i] == 0,
        ensures
            forall|s: int, sq: int| 0 <= s < 2 && 0 <= sq < 64 ==> #[trigger] final(self).pawns[s][sq] == if PAWN_SQUARES_START <= sq < PAWN_SQUARES_END {
                pawn_bb(s, sq as u64)
            } else {
                0u64
            },
            final(self).king == old(self).king,
            final(self).knight == old(self).knight,
    {
        let mut white = self.pawns[WHITE];
        let mut black = self.pawns[BLACK];
        let mut sq: usize = PAWN_SQUARES_START;
        proof {
            assert forall|s: int| 0 <= s < 64 implies #[trigger] white[s] == 0u64 && black[s] == 0u64 by {
                assert(old(self).pawns[0][s] == 0 && old(self).pawns[1][s] == 0);
            }
        }
        while sq < PAWN_SQUARES_END
            invariant
                PAWN_SQUARES_START <= sq <= PAWN_SQUARES_END,
                helper_ok(*helper),
                forall|s: int| 0 <= s < 64 ==> #[trigger] white[s] == if PAWN_SQUARES_START <= s < sq { pawn_bb(0, s as u64) } else { 0u64 },
                forall|s: int| 0 <= s < 64 ==> #[trigger] black[s] == if PAWN_SQUARES_START <= s < sq { pawn_bb(1, s as u64) } else { 0u64 },
            decreases PAWN_SQUARES_END - sq,
        {
            let mailbox_square = helper.real[sq] as i8;
            proof {
                assert(21 <= mailbox_of(sq as int) <= 98);
            }
            let mut w: u64 = 0;
            let mut b: u64 = 0;
            let mut k: usize = 0;
            let directions: [i8; 2] = [9, 11];
            proof {
                assert forall|t: u64| t < 64 implies !bit_set(0u64, t) by {
                    lemma_bit_zero(t);
                }
            }
            while k < 2
                invariant
                    0 <= k <= 2,
                    8 <= sq < 56,
                    helper_ok(*helper),
                    mailbox_square == mailbox_of(sq as int),
                    directions@ == seq![9i8, 11i8],
                    forall|t: u64| t < 64 ==> #[trigger] bit_set(w, t) == exists|q: int| 0 <= q < k && step_target(sq as int, directions@[q] as int, t as int),
                    forall|t: u64| t < 64 ==> #[trigger] bit_set(b, t) == exists|q: int| 0 <= q < k && step_target(sq as int, -(directions@[q] as int), t as int),
                decreases 2 - k,
            {
                let d = directions[k];
                let try_white = (mailbox_square + d) as usize;
                let try_black = (mailbox_square - d) as usize;
                let ghost (w0, b0) = (w, b);
                if helper.mailbox[try_white] != INVALID_SQUARE {
                    let valid_square = helper.mailbox[try_white];
                    proof {
                        assert(on_board(try_white as int));
                    }
                    w = w | (1u64 << (valid_square as u64));
                }
                if helper.mailbox[try_black] != INVALID_SQUARE {
                    let valid_square = helper.mailbox[try_black];
                    proof {
                        assert(on_board(try_black as int));
                    }
                    b = b | (1u64 << (valid_square as u64));
                }
                proof {
                    assert forall|t: u64| t < 64 implies #[trigger] bit_set(w, t) == exists|q: int| 0 <= q < k + 1 && step_target(sq as int, directions@[q] as int, t as int) by {
                        if on_board(try_white as int) {
                            lemma_bit_or(w0, 1u64 << (board_of(try_white as int) as u64), t);
                            lemma_bit_single(board_of(try_white as int) as u64, t);
                        }
                        if exists|q: int| 0 <= q < k + 1 && step_target(sq as int, directions@[q] as int, t as int) {
                            let q = choose|q: int| 0 <= q < k + 1 && step_target(sq as int, directions@[q] as int, t as int);
                            if q < k {
                                assert(exists|q: int| 0 <= q < k && step_target(sq as int, directions@[q] as int, t as int));
                            }
                        }
                        if step_target(sq as int, directions@[k as int] as int, t as int) {
                            assert(exists|q: int| 0 <= q < k + 1 && step_target(sq as int, directions@[q] as int, t as int));
                        }
                        if exists|q: int| 0 <= q < k && step_target(sq as int, directions@[q] as int, t as int) {
                            let q = choose|q: int| 0 <= q < k && step_target(sq as int, directions@[q] as int, t as int);
                            assert(exists|q: int| 0 <= q < k + 1 && step_target(sq as int, directions@[q] as int, t as int));
                        }
                    }
                    assert forall|t: u64| t < 64 implies #[trigger] bit_set(b, t) == exists|q: int| 0 <= q < k + 1 && step_target(sq as int, -(directions@[q] as int), t as int) by {
                        if on_board(try_black as int) {
                            lemma_bit_or(b0, 1u64 << (board_of(try_black as int) as u64), t);
                            lemma_bit_single(board_of(try_black as int) as u64, t);
                        }
                        if exists|q: int| 0 <= q < k + 1 && step_target(sq as int, -(directions@[q] as int), t as int) {
                            let q = choose|q: int| 0 <= q < k + 1 && step_target(sq as int, -(directions@[q] as int), t as int);
                            if q < k {
                                assert(exists|q: int| 0 <= q < k && step_target(sq as int, -(directions@[q] as int), t as int));
                            }
                        }
                        if step_target(sq as int, -(directions@[k as int] as int), t as int) {
                            assert(exists|q: int| 0 <= q < k + 1 && step_target(sq as int, -(directions@[q] as int), t as int));
                        }
                        if exists|q: int| 0 <= q < k && step_target(sq as int, -(directions@[q] as int), t as int) {
                            let q = choose|q: int| 0 <= q < k && step_target(sq as int, -(directions@[q] as int), t as int);
                            assert(exists|q: int| 0 <= q < k + 1 && step_target(sq as int, -(directions@[q] as int), t as int));
                        }
                    }
                }
                k += 1;
            }
            proof {
                assert forall|t: u64| t < 64 implies bit_set(w, t) == bit_set(pawn_bb(0, sq as u64), t) by {
                    crate::attacks::lemma_pawn_bb(0, sq as u64, t);
                    lemma_step_at(sq as int, 1, -1, t as int);
                    lemma_step_at(sq as int, 1, 1, t as int);
                    assert(directions@[0] as int == 10 * 1 + -1);
                    assert(directions@[1] as int == 10 * 1 + 1);
                    if pawn_target(0, sq as int, t as int) {
                        if file_of(t as int) == file_of(sq as int) - 1 {
                            assert(step_target(sq as int, directions@[0] as int, t as int));
                        } else {
                            assert(step_target(sq as int, directions@[1] as int, t as int));
                        }
                    }
                }
                lemma_bits_equal(w, pawn_bb(0, sq as u64));
                assert forall|t: u64| t < 64 implies bit_set(b, t) == bit_set(pawn_bb(1, sq as u64), t) by {
                    crate::attacks::lemma_pawn_bb(1, sq as u64, t);
                    lemma_step_at(sq as int, -1, 1, t as int);
                    lemma_step_at(sq as int, -1, -1, t as int);
                    assert(-(directions@[0] as int) == 10 * -1 + 1);
                    assert(-(directions@[1] as int) == 10 * -1 + -1);
                    if pawn_target(1, sq as int, t as int) {
                        if file_of(t as int) == file_of(sq as int) + 1 {
                            assert(step_target(sq as int, -(directions@[0] as int), t as int));
                        } else {
                            assert(step_target(sq as int, -(directions@[1] as int), t as int));
                        }
                    }
                }
                lemma_bits_equal(b, pawn_bb(1, sq as u64));
            }
            white[sq] = w;
            black[sq] = b;
            sq += 1;
        }
        self.pawns = [white, black];
    }

    /// Computes the rook (or bishop) masks into `info` by walking from
    /// each square in each of the piece's directions, and counts the
    /// squares found in each direction.
    pub fn calc_slider_info(piece: Piece, info: &mut SliderInfo, helper: &HelperBoard)
        requires
            piece == ROOK || piece == BISHOP,
            helper_ok(*helper),
            piece == ROOK ==> forall|i: int| 0 <= i < 64 ==> #[trigger] old(info).rook_move_masks[i] == 0,
            piece == BISHOP ==> forall|i: int| 0 <= i < 64 ==> #[trigger] old(info).bishop_move_masks[i] == 0,
            piece == ROOK ==> forall|i: int, k: int| 0 <= i < 64 && 0 <= k < 4 ==> #[trigger] old(info).rook_squares_in_ray[i][k] == 0,
            piece == BISHOP ==> forall|i: int, k: int| 0 <= i < 64 && 0 <= k < 4 ==> #[trigger] old(info).bishop_squares_in_ray[i][k] == 0,
        ensures
            piece == ROOK ==> forall|sq: int, t: u64| 0 <= sq < 64 && t < 64 ==> #[trigger] bit_set(final(info).rook_move_masks[sq], t) == rook_mask_target(sq, t as int),
            piece == ROOK ==> forall|sq: int, k: int| 0 <= sq < 64 && 0 <= k < 4 ==> #[trigger] final(info).rook_squares_in_ray[sq][k] == squares_in_ray(sq, DIRECTIONS_ROOK[k] as int),
            piece == ROOK ==> final(info).bishop_move_masks == old(info).bishop_move_masks && final(info).bishop_squares_in_ray == old(info).bishop_squares_in_ray,
            piece == BISHOP ==> forall|sq: int, t: u64| 0 <= sq < 64 && t < 64 ==> #[trigger] bit_set(final(info).bishop_move_masks[sq], t) == bishop_mask_target(sq, t as int),
            piece == BISHOP ==> forall|sq: int, k: int| 0 <= sq < 64 && 0 <= k < 4 ==> #[trigger] final(info).bishop_squares_in_ray[sq][k] == squares_in_ray(sq, DIRECTIONS_BISHOP[k] as int),
            piece == BISHOP ==> final(info).rook_move_masks == old(info).rook_move_masks && final(info).rook_squares_in_ray == old(info).rook_squares_in_ray,
    {
        let directions: [i8; 4] = if piece == ROOK { [10, 1, -10, -1] } else { [11, -9, -11, 9] };
        let ghost dirs = directions@;
        proof {
            if piece == ROOK {
                assert(dirs == DIRECTIONS_ROOK@);
            } else {
                assert(dirs == DIRECTIONS_BISHOP@);
            }
        }
        let mut masks: [u64; 64] = [0u64; 64];
        let mut counts: [[i8; 4]; 64] = [[0i8; 4]; 64];
        let mut sq: usize = 0;
        while sq < 64
            invariant
                0 <= sq <= 64,
                helper_ok(*helper),
                dirs == directions@,
                forall|k: int| 0 <= k < 4 ==> slider_dir(#[trigger] dirs[k] as int),
                forall|s: int, t: u64| 0 <= s < sq && t < 64 ==> #[trigger] bit_set(masks[s], t) == exists|k: int| 0 <= k < 4
                    && in_ray(s, dir_rank(dirs[k] as int), dir_file(dirs[k] as int), t as int),
                forall|s: int, k: int| 0 <= s < sq && 0 <= k < 4 ==> #[trigger] counts[s][k] == squares_in_ray(s, dirs[k] as int),
            decreases 64 - sq,
        {
            let mut acc: u64 = 0;
            let mut row: [i8; 4] = [0i8; 4];
            let mut i: usize = 0;
            proof {
                assert forall|t: u64| t < 64 implies !bit_set(0u64, t) by {
                    lemma_bit_zero(t);
                }
            }
            while i < 4
                invariant
                    0 <= i <= 4,
                    sq < 64,
                    helper_ok(*helper),
                    dirs == directions@,
                    forall|k: int| 0 <= k < 4 ==> slider_dir(#[trigger] dirs[k] as int),
                    forall|t: u64| t < 64 ==> #[trigger] bit_set(acc, t) == exists|k: int| 0 <= k < i
                        && in_ray(sq as int, dir_rank(dirs[k] as int), dir_file(dirs[k] as int), t as int),
                    forall|k: int| 0 <= k < i ==> #[trigger] row[k] == squares_in_ray(sq as int, dirs[k] as int),
                decreases 4 - i,
            {
                let d = directions[i];
                let (bits, count) = walk(helper, sq, d);
                let ghost before = acc;
                acc = acc | bits;
                row[i] = count as i8;
                proof {
                    assert forall|t: u64| t < 64 implies #[trigger] bit_set(acc, t) == exists|k: int| 0 <= k < i + 1
                        && in_ray(sq as int, dir_rank(dirs[k] as int), dir_file(dirs[k] as int), t as int) by {
                        lemma_bit_or(before, bits, t);
                        let di = dirs[i as int] as int;
                        if in_ray(sq as int, dir_rank(di), dir_file(di), t as int) {
                            assert(exists|k: int| 0 <= k < i + 1 && in_ray(sq as int, dir_rank(dirs[k] as int), dir_file(dirs[k] as int), t as int));
                        }
                        if exists|k: int| 0 <= k < i + 1 && in_ray(sq as int, dir_rank(dirs[k] as int), dir_file(dirs[k] as int), t as int) {
                            let k = choose|k: int| 0 <= k < i + 1 && in_ray(sq as int, dir_rank(dirs[k] as int), dir_file(dirs[k] as int), t as int);
                            if k < i {
                                assert(exists|k: int| 0 <= k < i && in_ray(sq as int, dir_rank(dirs[k] as int), dir_file(dirs[k] as int), t as int));
                            }
                        }
                        if exists|k: int| 0 <= k < i && in_ray(sq as int, dir_rank(dirs[k] as int), dir_file(dirs[k] as int), t as int) {
                            let k = choose|k: int| 0 <= k < i && in_ray(sq as int, dir_rank(dirs[k] as int), dir_file(dirs[k] as int), t as int);
                            assert(exists|k: int| 0 <= k < i + 1 && in_ray(sq as int, dir_rank(dirs[k] as int), dir_file(dirs[k] as int), t as int));
                        }
                    }
                }
                i += 1;
            }
            masks[sq] = acc;
            counts[sq] = row;
            sq += 1;
        }
        proof {
            assert forall|s: int, t: u64| 0 <= s < 64 && t < 64 implies #[trigger] bit_set(masks[s], t) == if piece == ROOK {
                rook_mask_target(s, t as int)
            } else {
                bishop_mask_target(s, t as int)
            } by {
                let a = dir_rank(dirs[0] as int);
                if piece == ROOK {
                    lemma_rook_rays(s, t as int);
                    assert(dir_rank(dirs[0] as int) == 1 && dir_file(dirs[0] as int) == 0);
                    assert(dir_rank(dirs[1] as int) == 0 && dir_file(dirs[1] as int) == 1);
                    assert(dir_rank(dirs[2] as int) == -1 && dir_file(dirs[2] as int) == 0);
                    assert(dir_rank(dirs[3] as int) == 0 && dir_file(dirs[3] as int) == -1);
                    if exists|k: int| 0 <= k < 4 && in_ray(s, dir_rank(dirs[k] as int), dir_file(dirs[k] as int), t as int) {
                        let k = choose|k: int| 0 <= k < 4 && in_ray(s, dir_rank(dirs[k] as int), dir_file(dirs[k] as int), t as int);
                    }
                    if in_ray(s, 1, 0, t as int) { assert(in_ray(s, dir_rank(dirs[0] as int), dir_file(dirs[0] as int), t as int)); }
                    if in_ray(s, 0, 1, t as int) { assert(in_ray(s, dir_rank(dirs[1] as int), dir_file(dirs[1] as int), t as int)); }
                    if in_ray(s, -1, 0, t as int) { assert(in_ray(s, dir_rank(dirs[2] as int), dir_file(dirs[2] as int), t as int)); }
                    if in_ray(s, 0, -1, t as int) { assert(in_ray(s, dir_rank(dirs[3] as int), dir_file(dirs[3] as int), t as int)); }
                } else {
                    lemma_bishop_rays(s, t as int);
                    assert(dir_rank(dirs[0] as int) == 1 && dir_file(dirs[0] as int) == 1);
                    assert(dir_rank(dirs[1] as int) == -1 && dir_file(dirs[1] as int) == 1);
                    assert(dir_rank(dirs[2] as int) == -1 && dir_file(dirs[2] as int) == -1);
                    assert(dir_rank(dirs[3] as int) == 1 && dir_file(dirs[3] as int) == -1);
                    if exists|k: int| 0 <= k < 4 && in_ray(s, dir_rank(dirs[k] as int), dir_file(dirs[k] as int), t as int) {
                        let k = choose|k: int| 0 <= k < 4 && in_ray(s, dir_rank(dirs[k] as int), dir_file(dirs[k] as int), t as int);
                    }
                    if in_ray(s, 1, 1, t as int) { assert(in_ray(s, dir_rank(dirs[0] as int), dir_file(dirs[0] as int), t as int)); }
                    if in_ray(s, -1, 1, t as int) { assert(in_ray(s, dir_rank(dirs[1] as int), dir_file(dirs[1] as int), t as int)); }
                    if in_ray(s, -1, -1, t as int) { assert(in_ray(s, dir_rank(dirs[2] as int), dir_file(dirs[2] as int), t as int)); }
                    if in_ray(s, 1, -1, t as int) { assert(in_ray(s, dir_rank(dirs[3] as int), dir_file(dirs[3] as int), t as int)); }
                }
            }
        }
        if piece == ROOK {
            info.rook_move_masks = masks;
            info.rook_squares_in_ray = counts;
        } else {
            info.bishop_move_masks = masks;
            info.bishop_squares_in_ray = counts;
        }
    }
}

impl Default for Magics {
    /// Empty tables, as `new` gives them.
    fn default() -> (m: Self)
        ensures
            forall|i: int| 0 <= i < 64 ==> #[trigger] m.king[i] == 0,
            forall|i: int| 0 <= i < 64 ==> #[trigger] m.knight[i] == 0,
            forall|i: int| 0 <= i < 64 ==> #[trigger] m.pawns[0][i] == 0,
            forall|i: int| 0 <= i < 64 ==> #[trigger] m.pawns[1][i] == 0,
    {
        Magics::new()
    }
}

} // verus!
