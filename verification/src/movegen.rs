//! The move generator: attack tables for all pieces, and the generation
//! of pseudo-legal moves.
pub mod attackboards;
pub mod castle;
pub mod create;
pub mod defs;
pub mod info;
pub mod init;
pub mod movedefs;
pub mod movelist;
pub mod rays;

use crate::attacks::{lemma_rank_mask, rank_bb, rank_mask, king_bb, king_target, knight_bb, knight_target, lemma_king_bb, lemma_knight_bb, lemma_pawn_bb, pawn_bb, pawn_target};
use crate::bitboard::{bit_set, bits_seq, lemma_bit_and, lemma_bit_not, lemma_bit_or, lemma_bit_shl, lemma_bit_shr, lemma_bit_single, lemma_bit_zero, lemma_bits_equal, rotate_left};
use crate::board::{Board, CASTLE_BK, CASTLE_BQ, CASTLE_WK, CASTLE_WQ};
use info::attacked;
use crate::misc::bits;
use defs::{encode, Move};
use movelist::MoveList;
use crate::defs::{Bitboard, Piece, Side, Square, BISHOP, KING, KNIGHT, PAWN, PNONE, QUEEN, ROOK, WHITE};
use crate::movements::magics::{constants_fit, lookup, magic_data_ok, table_ok, Magics};
use crate::sliders::{bishop_attacks, bishop_bb, lemma_queen_xor, rook_attacks, rook_bb};
use vstd::prelude::*;

pub use crate::movements::magics::{BISHOP_TABLE_SIZE, ROOK_TABLE_SIZE};

verus! {

/// The attack tables of all pieces on all squares.
pub struct MoveGenerator {
    pub king: Vec<Bitboard>,
    pub knight: Vec<Bitboard>,
    pub pawns: Vec<Vec<Bitboard>>,
    pub rook: Vec<Bitboard>,
    pub bishop: Vec<Bitboard>,
    pub rook_magics: Vec<Magics>,
    pub bishop_magics: Vec<Magics>,
    pub rook_indexed: bool,
    pub bishop_indexed: bool,
}

/// `table` holds, for every square, the attacks of a king (`piece == KING`)
/// or a knight on that square.
pub open spec fn non_slider_table_ok(table: Seq<u64>, piece: int) -> bool {
    &&& table.len() == 64
    &&& forall|sq: int|
        0 <= sq < 64 ==> #[trigger] table[sq] == (if piece == KING {
            king_bb(sq as u64)
        } else {
            knight_bb(sq as u64)
        })
}

/// `table` holds, for every square, the captures of a pawn of `side`.
pub open spec fn pawn_table_ok(table: Seq<u64>, side: int) -> bool {
    &&& table.len() == 64
    &&& forall|sq: int| 0 <= sq < 64 ==> #[trigger] table[sq] == pawn_bb(side, sq as u64)
}

/// The attacks of a slider of type `piece` on `sq`, given `occupancy`.
pub open spec fn slider_attacks_spec(piece: int, sq: int, occupancy: u64) -> u64 {
    if piece == ROOK {
        rook_bb(occupancy, sq)
    } else if piece == BISHOP {
        bishop_bb(occupancy, sq)
    } else {
        rook_bb(occupancy, sq) | bishop_bb(occupancy, sq)
    }
}

impl MoveGenerator {
    /// All attack tables are filled in correctly.
    pub open spec fn wf(&self) -> bool {
        &&& non_slider_table_ok(self.king@, KING as int)
        &&& non_slider_table_ok(self.knight@, KNIGHT as int)
        &&& self.pawns@.len() == 2
        &&& pawn_table_ok(self.pawns@[0]@, 0)
        &&& pawn_table_ok(self.pawns@[1]@, 1)
        &&& self.rook_indexed ==> table_ok(self.rook@, self.rook_magics@, true, 64)
        &&& self.bishop_indexed ==> table_ok(self.bishop@, self.bishop_magics@, false, 64)
    }

    /// Creates the move generator, with all its attack tables. The built-in
    /// magic numbers index both slider tables, which are marked indexed.
    pub fn new() -> (mg: Self)
        ensures
            mg.wf(),
            mg.rook_indexed == constants_fit(true),
            mg.bishop_indexed == constants_fit(false),
            mg.rook_indexed,
            mg.bishop_indexed,
            magic_data_ok(mg.rook_magics@, true),
            magic_data_ok(mg.bishop_magics@, false),
    {
        let mut empty: Vec<Bitboard> = Vec::new();
        while empty.len() < 64
            invariant
                empty.len() <= 64,
            decreases 64 - empty.len(),
        {
            empty.push(0);
        }
        let mut pawns: Vec<Vec<Bitboard>> = Vec::new();
        pawns.push(empty.clone());
        pawns.push(empty.clone());
        let mut mg = Self {
            king: empty.clone(),
            knight: empty.clone(),
            pawns,
            rook: Vec::new(),
            bishop: Vec::new(),
            rook_magics: Vec::new(),
            bishop_magics: Vec::new(),
            rook_indexed: false,
            bishop_indexed: false,
        };
        mg.init_king();
        mg.init_knight();
        mg.init_pawns();
        mg.init_magics(ROOK);
        mg.init_magics(BISHOP);
        mg
    }

    /// Returns non-slider (king, knight) attacks for the given square.
    pub fn get_non_slider_attacks(&self, piece: Piece, square: Square) -> (bb: Bitboard)
        requires
            self.wf(),
            piece == KING || piece == KNIGHT,
            square < 64,
        ensures
            bb == (if piece == KING { king_bb(square as u64) } else { knight_bb(square as u64) }),
            forall|t: u64| t < 64 ==> bit_set(bb, t) == (if piece == KING {
                king_target(square as int, t as int)
            } else {
                knight_target(square as int, t as int)
            }),
    {
        let bb = if piece == KING { self.king[square] } else { self.knight[square] };
        proof {
            assert forall|t: u64| t < 64 implies bit_set(bb, t) == (if piece == KING {
                king_target(square as int, t as int)
            } else {
                knight_target(square as int, t as int)
            }) by {
                lemma_king_bb(square as u64, t);
                lemma_knight_bb(square as u64, t);
            }
        }
        bb
    }

    /// Returns slider attacks for rook, bishop and queen.
    pub fn get_slider_attacks(&self, piece: Piece, square: Square, occupancy: Bitboard) -> (bb: Bitboard)
        requires
            self.wf(),
            piece == ROOK || piece == BISHOP || piece == QUEEN,
            square < 64,
        ensures
            bb == slider_attacks_spec(piece as int, square as int, occupancy),
    {
        if piece == ROOK {
            self.rook_lookup(square, occupancy)
        } else if piece == BISHOP {
            self.bishop_lookup(square, occupancy)
        } else {
            let r = self.rook_lookup(square, occupancy);
            let b = self.bishop_lookup(square, occupancy);
            proof {
                lemma_queen_xor(occupancy, square as int);
            }
            r ^ b
        }
    }

    fn rook_lookup(&self, square: Square, occupancy: Bitboard) -> (bb: Bitboard)
        requires
            self.wf(),
            square < 64,
        ensures
            bb == rook_bb(occupancy, square as int),
    {
        if self.rook_indexed {
            lookup(&self.rook, &self.rook_magics, true, square, occupancy)
        } else {
            rook_attacks(occupancy, square as u64)
        }
    }

    fn bishop_lookup(&self, square: Square, occupancy: Bitboard) -> (bb: Bitboard)
        requires
            self.wf(),
            square < 64,
        ensures
            bb == bishop_bb(occupancy, square as int),
    {
        if self.bishop_indexed {
            lookup(&self.bishop, &self.bishop_magics, false, square, occupancy)
        } else {
            bishop_attacks(occupancy, square as u64)
        }
    }

    /// Returns the squares a pawn of `side` on `square` attacks.
    pub fn get_pawn_attacks(&self, side: Side, square: Square) -> (bb: Bitboard)
        requires
            self.wf(),
            side < 2,
            square < 64,
        ensures
            bb == pawn_bb(side as int, square as u64),
            forall|t: u64| t < 64 ==> bit_set(bb, t) == pawn_target(side as int, square as int, t as int),
    {
        let bb = self.pawns[side][square];
        proof {
            assert forall|t: u64| t < 64 implies bit_set(bb, t) == pawn_target(side as int, square as int, t as int) by {
                lemma_pawn_bb(side as int, square as u64, t);
            }
        }
        bb
    }
}

/// A move with data `d`.
pub open spec fn mv(d: int) -> Move {
    Move { data: d as usize }
}

/// The moves (one, or four promotions) of `piece` from `from` to `to`.
pub open spec fn move_datas(board: Board, piece: int, from: int, to: int) -> Seq<Move> {
    let is_pawn = piece == PAWN;
    let capture = board.piece_list[to] as int;
    let en_passant = is_pawn && board.game_state.en_passant == Some(to as u8);
    let promotion_rank = if board.game_state.active_color == WHITE { 7int } else { 0int };
    let promotion = is_pawn && to / 8 == promotion_rank;
    let distance = if to > from { to - from } else { from - to };
    let double_step = is_pawn && distance == 16;
    let castling = piece == KING && distance == 2;
    if !promotion {
        seq![mv(encode(piece, from, to, capture, PNONE as int, en_passant, double_step, castling))]
    } else {
        seq![
            mv(encode(piece, from, to, capture, QUEEN as int, en_passant, double_step, castling)),
            mv(encode(piece, from, to, capture, ROOK as int, en_passant, double_step, castling)),
            mv(encode(piece, from, to, capture, BISHOP as int, en_passant, double_step, castling)),
            mv(encode(piece, from, to, capture, KNIGHT as int, en_passant, double_step, castling)),
        ]
    }
}

/// The moves of `piece` from `from` to each of `targets`, in order.
pub open spec fn targets_moves(board: Board, piece: int, from: int, targets: Seq<u64>) -> Seq<Move>
    decreases targets.len(),
{
    if targets.len() == 0 {
        Seq::empty()
    } else {
        move_datas(board, piece, from, targets[0] as int) + targets_moves(
            board,
            piece,
            from,
            targets.drop_first(),
        )
    }
}

/// Packing the fields with shifts and or-s is adding them up.
proof fn lemma_pack(p: usize, f: usize, t: usize, c: usize, pr: usize, e: usize, d: usize, cs: usize)
    by (bit_vector)
    requires
        p < 8,
        f < 64,
        t < 64,
        c < 8,
        pr < 8,
        e < 2,
        d < 2,
        cs < 2,
    ensures
        (p | f << 3usize | t << 9usize | c << 15usize | e << 21usize | d << 22usize | cs << 23usize) | (pr
            << 18usize) == p + f * 8 + t * 512 + c * 32768 + pr * 262144 + e * 2097152 + d * 4194304
            + cs * 8388608,
{
}

proof fn lemma_targets_moves_cons(board: Board, piece: int, from: int, x: u64, rest: Seq<u64>)
    ensures
        targets_moves(board, piece, from, seq![x] + rest) == move_datas(board, piece, from, x as int)
            + targets_moves(board, piece, from, rest),
{
    assert((seq![x] + rest).drop_first() =~= rest);
    assert((seq![x] + rest)[0] == x);
}

/// The squares `piece` (king, knight or slider) of the side to move can
/// go to from `from`: the squares it attacks that hold no piece of its own.
pub open spec fn piece_targets(board: Board, piece: int, from: u64) -> u64 {
    let occupancy = board.bb_side[0] | board.bb_side[1];
    let us = board.game_state.active_color as int;
    let attacks = if piece == KING {
        king_bb(from)
    } else if piece == KNIGHT {
        knight_bb(from)
    } else {
        slider_attacks_spec(piece, from as int, occupancy)
    };
    attacks & !board.bb_side[us]
}

/// The moves of the pieces of type `piece` standing on `froms`, in order.
pub open spec fn pieces_moves(board: Board, piece: int, froms: Seq<u64>) -> Seq<Move>
    decreases froms.len(),
{
    if froms.len() == 0 {
        Seq::empty()
    } else {
        targets_moves(board, piece, froms[0] as int, bits_seq(piece_targets(board, piece, froms[0])))
            + pieces_moves(board, piece, froms.drop_first())
    }
}

proof fn lemma_pieces_moves_cons(board: Board, piece: int, x: u64, rest: Seq<u64>)
    ensures
        pieces_moves(board, piece, seq![x] + rest) == targets_moves(board, piece, x as int, bits_seq(piece_targets(board, piece, x)))
            + pieces_moves(board, piece, rest),
{
    assert((seq![x] + rest).drop_first() =~= rest);
    assert((seq![x] + rest)[0] == x);
}

/// The squares a pawn of the side to move on `from` can push to: one
/// step forward onto an empty square, and from there a second step onto
/// an empty square of its fourth rank.
pub open spec fn pawn_push_bb(board: Board, from: int) -> (u64, u64) {
    let white = board.game_state.active_color == WHITE;
    let empty = !(board.bb_side[0] | board.bb_side[1]);
    let up = if white { from + 8 } else { from - 8 };
    let two = if white { from + 16 } else { from - 16 };
    let fourth = if white { 3int } else { 4int };
    let one_bb = if bit_set(empty, up as u64) { 1u64 << (up as u64) } else { 0u64 };
    let two_bb = if bit_set(empty, up as u64) && two / 8 == fourth && bit_set(empty, two as u64) {
        1u64 << (two as u64)
    } else {
        0u64
    };
    (one_bb, two_bb)
}

/// All squares a pawn of the side to move on `from` can go to: pushes,
/// captures of opponent pieces, and the en-passant capture.
pub open spec fn pawn_targets(board: Board, from: u64) -> u64 {
    let us = board.game_state.active_color as int;
    let attacks = pawn_bb(us, from);
    let captures = attacks & board.bb_side[1 - us];
    let en_passant = match board.game_state.en_passant {
        Some(e) => attacks & (1u64 << (e as u64)),
        None => 0u64,
    };
    pawn_push_bb(board, from as int).0 | pawn_push_bb(board, from as int).1 | captures | en_passant
}

/// The moves of the pawns standing on `froms`, in order.
pub open spec fn pawns_moves(board: Board, froms: Seq<u64>) -> Seq<Move>
    decreases froms.len(),
{
    if froms.len() == 0 {
        Seq::empty()
    } else {
        targets_moves(board, PAWN as int, froms[0] as int, bits_seq(pawn_targets(board, froms[0])))
            + pawns_moves(board, froms.drop_first())
    }
}

proof fn lemma_pawns_moves_cons(board: Board, x: u64, rest: Seq<u64>)
    ensures
        pawns_moves(board, seq![x] + rest) == targets_moves(board, PAWN as int, x as int, bits_seq(pawn_targets(board, x)))
            + pawns_moves(board, rest),
{
    assert((seq![x] + rest).drop_first() =~= rest);
    assert((seq![x] + rest)[0] == x);
}

/// No pawn of the side to move stands on its last rank.
pub open spec fn pawns_can_advance(board: Board) -> bool {
    let us = board.game_state.active_color as int;
    forall|t: u64|
        t < 64 && #[trigger] bit_set(board.bb_pieces[us][PAWN as int], t) ==> (if us == WHITE {
            t < 56
        } else {
            t >= 8
        })
}

proof fn lemma_single_and(s: u64, m: u64)
    requires
        s < 64,
    ensures
        (1u64 << s) & m == (if bit_set(m, s) { 1u64 << s } else { 0u64 }),
{
    let l = (1u64 << s) & m;
    let r = if bit_set(m, s) { 1u64 << s } else { 0u64 };
    assert forall|t: u64| t < 64 implies bit_set(l, t) == bit_set(r, t) by {
        lemma_bit_and(1u64 << s, m, t);
        lemma_bit_single(s, t);
        lemma_bit_zero(t);
    }
    lemma_bits_equal(l, r);
}

/// The rotation trick of the pawn double step gives the second push square.
proof fn lemma_two_step(white: bool, from: u64, empty: u64, one: u64, fourth: u64, two_exec: u64)
    requires
        from < 64,
        white ==> from < 56,
        !white ==> from >= 8,
        one == (if white {
            if bit_set(empty, (from + 8) as u64) { 1u64 << ((from + 8) as u64) } else { 0u64 }
        } else {
            if bit_set(empty, (from - 8) as u64) { 1u64 << ((from - 8) as u64) } else { 0u64 }
        }),
        forall|i: u64| i < 64 ==> bit_set(fourth, i) == (i / 8 == (if white { 3u64 } else { 4u64 })),
        two_exec == (if white {
            (one << 8u64) | (one >> 56u64)
        } else {
            (one << 56u64) | (one >> 8u64)
        }) & empty & fourth,
    ensures
        two_exec == (if white {
            pawn_two(empty, from as int + 8, from as int + 16, 3)
        } else {
            pawn_two(empty, from as int - 8, from as int - 16, 4)
        }),
{
    let up = if white { (from + 8) as u64 } else { (from - 8) as u64 };
    let two = if white { from as int + 16 } else { from as int - 16 };
    let rot = if white { (one << 8u64) | (one >> 56u64) } else { (one << 56u64) | (one >> 8u64) };
    let spec_two = if white { pawn_two(empty, from as int + 8, from as int + 16, 3) } else { pawn_two(empty, from as int - 8, from as int - 16, 4) };
    assert forall|t: u64| t < 64 implies bit_set(two_exec, t) == bit_set(spec_two, t) by {
        lemma_bit_and(rot & empty, fourth, t);
        lemma_bit_and(rot, empty, t);
        if white {
            lemma_bit_or(one << 8u64, one >> 56u64, t);
            lemma_bit_shl(one, 8, t);
            lemma_bit_shr(one, 56, t);
            if t >= 8 {
                lemma_bit_single(up, (t - 8) as u64);
                lemma_bit_zero((t - 8) as u64);
            }
            if t + 56 < 64 {
                lemma_bit_single(up, (t + 56) as u64);
                lemma_bit_zero((t + 56) as u64);
            }
        } else {
            lemma_bit_or(one << 56u64, one >> 8u64, t);
            lemma_bit_shl(one, 56, t);
            lemma_bit_shr(one, 8, t);
            if t >= 56 {
                lemma_bit_single(up, (t - 56) as u64);
                lemma_bit_zero((t - 56) as u64);
            }
            if t + 8 < 64 {
                lemma_bit_single(up, (t + 8) as u64);
                lemma_bit_zero((t + 8) as u64);
            }
        }
        if 0 <= two < 64 {
            lemma_bit_single(two as u64, t);
        }
        lemma_bit_zero(t);
    }
    lemma_bits_equal(two_exec, spec_two);
}

/// The double-step square `two` as a bitboard, when the square `up` in
/// between and `two` itself are empty and `two` is on rank `fourth`.
pub open spec fn pawn_two(empty: u64, up: int, two: int, fourth: int) -> u64 {
    if bit_set(empty, up as u64) && two / 8 == fourth && bit_set(empty, two as u64) {
        1u64 << (two as u64)
    } else {
        0u64
    }
}

/// The king moves of one castling: allowed when the side has the right,
/// the squares `blockers` between king and rook are empty, and the king's
/// square `start` and the square `pass` it crosses are not attacked. (The
/// landing square is checked when the move is made.) The king on `from`
/// moves two squares: `to` is its target bitboard.
pub open spec fn castle_side_moves(
    board: Board,
    right: u8,
    blockers: u64,
    start: int,
    pass: int,
    from: int,
    to: u64,
) -> Seq<Move> {
    let opponent = 1 - board.game_state.active_color as int;
    let occupancy = board.bb_side[0] | board.bb_side[1];
    if board.game_state.castling & right > 0 && !((occupancy & blockers) > 0) && !attacked(
        board,
        opponent,
        start,
    ) && !attacked(board, opponent, pass) {
        targets_moves(board, KING as int, from, bits_seq(to))
    } else {
        Seq::empty()
    }
}

/// The castling moves of the side to move, whose king stands on `from`.
pub open spec fn castling_moves(board: Board, from: int) -> Seq<Move> {
    let us = board.game_state.active_color;
    let castling = board.game_state.castling;
    let king_side = ((1u64 << (from as u64)) << 2u64);
    let queen_side = ((1u64 << (from as u64)) >> 2u64);
    if us == WHITE && (castling & (CASTLE_WK | CASTLE_WQ)) > 0 {
        castle_side_moves(board, CASTLE_WK, (1u64 << 5u64) | (1u64 << 6u64), 4, 5, from, king_side)
            + castle_side_moves(board, CASTLE_WQ, (1u64 << 1u64) | (1u64 << 2u64) | (1u64 << 3u64), 4, 3, from, queen_side)
    } else if us == 1 && (castling & (CASTLE_BK | CASTLE_BQ)) > 0 {
        castle_side_moves(board, CASTLE_BK, (1u64 << 61u64) | (1u64 << 62u64), 60, 61, from, king_side)
            + castle_side_moves(board, CASTLE_BQ, (1u64 << 57u64) | (1u64 << 58u64) | (1u64 << 59u64), 60, 59, from, queen_side)
    } else {
        Seq::empty()
    }
}

/// The square of the king of `side` (the lowest one, should there be more).
pub open spec fn king_square(board: Board, side: int) -> int {
    vstd::std_specs::bits::u64_trailing_zeros(board.bb_pieces[side][KING as int]) as int
}

/// All pseudo-legal moves of the side to move, in generation order: king,
/// knights, rooks, bishops, queens, pawns, castling.
pub open spec fn all_moves(board: Board) -> Seq<Move> {
    let us = board.game_state.active_color as int;
    let pieces = board.bb_pieces[us];
    pieces_moves(board, KING as int, bits_seq(pieces[KING as int])) + pieces_moves(
        board,
        KNIGHT as int,
        bits_seq(pieces[KNIGHT as int]),
    ) + pieces_moves(board, ROOK as int, bits_seq(pieces[ROOK as int])) + pieces_moves(
        board,
        BISHOP as int,
        bits_seq(pieces[BISHOP as int]),
    ) + pieces_moves(board, QUEEN as int, bits_seq(pieces[QUEEN as int])) + pawns_moves(
        board,
        bits_seq(pieces[PAWN as int]),
    ) + castling_moves(board, king_square(board, us))
}

/// The position can be handed to the move generator: the bitboards are
/// consistent, the side to move has a king, and none of its pawns stands
/// on its last rank.
pub open spec fn generatable(board: Board) -> bool {
    &&& board.wf()
    &&& board.bb_pieces[board.game_state.active_color as int][KING as int] != 0
    &&& pawns_can_advance(board)
}

impl MoveGenerator {
    /// Generates all pseudo-legal moves of the side to move.
    pub fn gen_all_moves(&self, board: &Board, ml: &mut MoveList)
        requires
            self.wf(),
            generatable(*board),
        ensures
            final(ml)@ == old(ml)@ + all_moves(*board),
    {
        let ghost start = ml@;
        let ghost us = board.game_state.active_color as int;
        let ghost pieces = board.bb_pieces[us];
        self.piece(board, KING, ml);
        self.piece(board, KNIGHT, ml);
        self.piece(board, ROOK, ml);
        self.piece(board, BISHOP, ml);
        self.piece(board, QUEEN, ml);
        let ghost a = ml@;
        proof {
            let k = pieces_moves(*board, KING as int, bits_seq(pieces[KING as int]));
            let n = pieces_moves(*board, KNIGHT as int, bits_seq(pieces[KNIGHT as int]));
            let r = pieces_moves(*board, ROOK as int, bits_seq(pieces[ROOK as int]));
            let b = pieces_moves(*board, BISHOP as int, bits_seq(pieces[BISHOP as int]));
            let q = pieces_moves(*board, QUEEN as int, bits_seq(pieces[QUEEN as int]));
            assert(a =~= start + (k + n + r + b + q));
        }
        self.pawns(board, ml);
        self.castling(board, ml);
        proof {
            assert(ml@ =~= start + all_moves(*board));
        }
    }

    /// Generates the castling moves (the king part) of the side to move.
    pub fn castling(&self, board: &Board, list: &mut MoveList)
        requires
            self.wf(),
            board.wf(),
            board.bb_pieces[board.game_state.active_color as int][KING as int] != 0,
        ensures
            final(list)@ == old(list)@ + castling_moves(*board, king_square(*board, board.game_state.active_color as int)),
    {
        let us = board.game_state.active_color as usize;
        let opponent = if us == WHITE { 1 } else { 0 };
        let castle_perms_white = (board.game_state.castling & (CASTLE_WK | CASTLE_WQ)) > 0;
        let castle_perms_black = (board.game_state.castling & (CASTLE_BK | CASTLE_BQ)) > 0;
        let bb_occupancy = board.occupancy();
        let mut bb_king = board.get_pieces(KING, us);
        let from = bits::next(&mut bb_king);
        let ghost start_list = list@;
        if us == WHITE && castle_perms_white {
            if board.game_state.castling & CASTLE_WK > 0 {
                let bb_kingside_blockers: u64 = (1u64 << 5u64) | (1u64 << 6u64);
                let is_kingside_blocked = (bb_occupancy & bb_kingside_blockers) > 0;
                if !is_kingside_blocked && !self.square_attacked(board, opponent, 4)
                    && !self.square_attacked(board, opponent, 5) {
                    let to = (1u64 << (from as u64)) << 2u64;
                    self.add_move(board, KING, from, to, list);
                }
            }
            let ghost mid_list = list@;
            if board.game_state.castling & CASTLE_WQ > 0 {
                let bb_queenside_blockers: u64 = (1u64 << 1u64) | (1u64 << 2u64) | (1u64 << 3u64);
                let is_queenside_blocked = (bb_occupancy & bb_queenside_blockers) > 0;
                if !is_queenside_blocked && !self.square_attacked(board, opponent, 4)
                    && !self.square_attacked(board, opponent, 3) {
                    let to = (1u64 << (from as u64)) >> 2u64;
                    self.add_move(board, KING, from, to, list);
                }
            }
            proof {
                assert(list@ =~= start_list + castling_moves(*board, from as int));
            }
        }
        if us == 1 && castle_perms_black {
            if board.game_state.castling & CASTLE_BK > 0 {
                let bb_kingside_blockers: u64 = (1u64 << 61u64) | (1u64 << 62u64);
                let is_kingside_blocked = (bb_occupancy & bb_kingside_blockers) > 0;
                if !is_kingside_blocked && !self.square_attacked(board, opponent, 60)
                    && !self.square_attacked(board, opponent, 61) {
                    let to = (1u64 << (from as u64)) << 2u64;
                    self.add_move(board, KING, from, to, list);
                }
            }
            if board.game_state.castling & CASTLE_BQ > 0 {
                let bb_queenside_blockers: u64 = (1u64 << 57u64) | (1u64 << 58u64) | (1u64 << 59u64);
                let is_queenside_blocked = (bb_occupancy & bb_queenside_blockers) > 0;
                if !is_queenside_blocked && !self.square_attacked(board, opponent, 60)
                    && !self.square_attacked(board, opponent, 59) {
                    let to = (1u64 << (from as u64)) >> 2u64;
                    self.add_move(board, KING, from, to, list);
                }
            }
            proof {
                assert(list@ =~= start_list + castling_moves(*board, from as int));
            }
        }
        proof {
            assert(list@ =~= old(list)@ + castling_moves(*board, from as int));
        }
    }

    /// Generates the pseudo-legal pawn moves of the side to move: single
    /// and double pushes, captures and en-passant captures.
    pub fn pawns(&self, board: &Board, list: &mut MoveList)
        requires
            self.wf(),
            board.wf(),
            pawns_can_advance(*board),
        ensures
            final(list)@ == old(list)@ + pawns_moves(
                *board,
                bits_seq(board.bb_pieces[board.game_state.active_color as int][PAWN as int]),
            ),
    {
        let us = board.game_state.active_color as usize;
        let white = us == WHITE;
        let bb_opponent_pieces = if white { board.bb_side[1] } else { board.bb_side[0] };
        let bb_empty = !board.occupancy();
        let bb_fourth = if white { rank_bb(3) } else { rank_bb(4) };
        let mut bb_pawns = board.get_pieces(PAWN, us);
        let rotation: u32 = if white { 72 } else { 56 };
        let ghost all_pawns = bb_pawns;
        let ghost total = pawns_moves(*board, bits_seq(bb_pawns));
        proof {
            assert(old(list)@ + total =~= list@ + pawns_moves(*board, bits_seq(bb_pawns)));
        }
        while bb_pawns > 0
            invariant
                self.wf(),
                board.wf(),
                pawns_can_advance(*board),
                us == board.game_state.active_color,
                white == (us == WHITE),
                bb_opponent_pieces == board.bb_side[1 - us],
                bb_empty == !(board.bb_side[0] | board.bb_side[1]),
                forall|i: u64| i < 64 ==> bit_set(bb_fourth, i) == (i / 8 == (if white { 3u64 } else { 4u64 })),
                rotation == (if white { 72u32 } else { 56u32 }),
                all_pawns == board.bb_pieces[us as int][PAWN as int],
                forall|t: u64| t < 64 && bit_set(bb_pawns, t) ==> bit_set(all_pawns, t),
                total == pawns_moves(*board, bits_seq(board.bb_pieces[board.game_state.active_color as int][PAWN as int])),
                old(list)@ + total == list@ + pawns_moves(*board, bits_seq(bb_pawns)),
            decreases bb_pawns,
        {
            let ghost before = bb_pawns;
            let ghost list_before = list@;
            let from = bits::next(&mut bb_pawns);
            proof {
                crate::bitboard::lemma_pop_smaller(before, from as u64);
                assert(bits_seq(before) == seq![from as u64] + bits_seq(bb_pawns));
                lemma_pawns_moves_cons(*board, from as u64, bits_seq(bb_pawns));
                assert(bit_set(all_pawns, from as u64));
                assert forall|t: u64| t < 64 && bit_set(bb_pawns, t) implies bit_set(all_pawns, t) by {}
            }
            let up = if white { from + 8 } else { from - 8 };
            let bb_push = 1u64 << (up as u64);
            let bb_one_step = bb_push & bb_empty;
            let bb_two_step = rotate_left(bb_one_step, rotation) & bb_empty & bb_fourth;
            let bb_targets = self.get_pawn_attacks(us, from);
            let bb_captures = bb_targets & bb_opponent_pieces;
            let bb_ep_capture = match board.game_state.en_passant {
                Some(ep) => bb_targets & (1u64 << (ep as u64)),
                None => 0,
            };
            let bb_moves = bb_one_step | bb_two_step | bb_captures | bb_ep_capture;
            proof {
                lemma_single_and(up as u64, bb_empty);
                lemma_two_step(white, from as u64, bb_empty, bb_one_step, bb_fourth, bb_two_step);
                assert(bb_moves == pawn_targets(*board, from as u64));
            }
            self.add_move(board, PAWN, from, bb_moves, list);
            proof {
                assert(list@ =~= list_before + targets_moves(*board, PAWN as int, from as int, bits_seq(pawn_targets(*board, from as u64))));
            }
        }
        proof {
            assert(bits_seq(bb_pawns) =~= Seq::<u64>::empty());
            assert(list@ =~= old(list)@ + total);
        }
    }

    /// Generates the pseudo-legal moves of the pieces of type `piece`
    /// (king, knight, rook, bishop or queen) of the side to move.
    pub fn piece(&self, board: &Board, piece: Piece, list: &mut MoveList)
        requires
            self.wf(),
            board.wf(),
            piece == KING || piece == KNIGHT || piece == ROOK || piece == BISHOP || piece == QUEEN,
        ensures
            final(list)@ == old(list)@ + pieces_moves(
                *board,
                piece as int,
                bits_seq(board.bb_pieces[board.game_state.active_color as int][piece as int]),
            ),
    {
        let us = board.game_state.active_color as usize;
        let bb_occupancy = board.occupancy();
        let bb_own_pieces = board.bb_side[us];
        let mut bb_pieces = board.get_pieces(piece, us);
        let ghost total = pieces_moves(*board, piece as int, bits_seq(bb_pieces));
        proof {
            assert(old(list)@ + total =~= list@ + pieces_moves(*board, piece as int, bits_seq(bb_pieces)));
        }
        while bb_pieces > 0
            invariant
                self.wf(),
                board.wf(),
                piece == KING || piece == KNIGHT || piece == ROOK || piece == BISHOP || piece == QUEEN,
                us == board.game_state.active_color,
                bb_occupancy == board.bb_side[0] | board.bb_side[1],
                bb_own_pieces == board.bb_side[us as int],
                total == pieces_moves(*board, piece as int, bits_seq(board.bb_pieces[board.game_state.active_color as int][piece as int])),
                old(list)@ + total == list@ + pieces_moves(*board, piece as int, bits_seq(bb_pieces)),
            decreases bb_pieces,
        {
            let ghost before = bb_pieces;
            let ghost list_before = list@;
            let from = bits::next(&mut bb_pieces);
            proof {
                crate::bitboard::lemma_pop_smaller(before, from as u64);
                assert(bits_seq(before) == seq![from as u64] + bits_seq(bb_pieces));
                lemma_pieces_moves_cons(*board, piece as int, from as u64, bits_seq(bb_pieces));
            }
            let bb_target = if piece == KING || piece == KNIGHT {
                self.get_non_slider_attacks(piece, from)
            } else {
                self.get_slider_attacks(piece, from, bb_occupancy)
            };
            let bb_moves = bb_target & !bb_own_pieces;
            self.add_move(board, piece, from, bb_moves, list);
            proof {
                assert(list@ =~= list_before + targets_moves(*board, piece as int, from as int, bits_seq(piece_targets(*board, piece as int, from as u64))));
            }
        }
        proof {
            assert(bits_seq(bb_pieces) =~= Seq::<u64>::empty());
            assert(list@ =~= old(list)@ + total);
        }
    }

    /// Turns the targets `to` of `piece` on `from` into moves and appends
    /// them to `list`. A pawn reaching the last rank gives four moves, one
    /// for each promotion piece.
    pub fn add_move(&self, board: &Board, piece: Piece, from: Square, to: Bitboard, list: &mut MoveList)
        requires
            board.wf(),
            piece < 6,
            from < 64,
        ensures
            final(list)@ == old(list)@ + targets_moves(*board, piece as int, from as int, bits_seq(to)),
    {
        let mut bb_to = to;
        let us = board.game_state.active_color as usize;
        let promotion_rank: usize = if us == WHITE { 7 } else { 0 };
        let is_pawn = piece == PAWN;
        let ghost total = targets_moves(*board, piece as int, from as int, bits_seq(to));
        proof {
            assert(old(list)@ + total =~= list@ + targets_moves(*board, piece as int, from as int, bits_seq(bb_to)));
        }
        while bb_to > 0
            invariant
                board.wf(),
                piece < 6,
                from < 64,
                is_pawn == (piece == PAWN),
                us == board.game_state.active_color,
                promotion_rank == (if us == WHITE { 7usize } else { 0usize }),
                total == targets_moves(*board, piece as int, from as int, bits_seq(to)),
                old(list)@ + total == list@ + targets_moves(*board, piece as int, from as int, bits_seq(bb_to)),
            decreases bb_to,
        {
            let ghost before = bb_to;
            let ghost list_before = list@;
            let to_square = bits::next(&mut bb_to);
            proof {
                crate::bitboard::lemma_pop_smaller(before, to_square as u64);
                assert(bits_seq(before) == seq![to_square as u64] + bits_seq(bb_to));
                lemma_targets_moves_cons(*board, piece as int, from as int, to_square as u64, bits_seq(bb_to));
            }
            let capture = board.piece_list[to_square];
            let en_passant = match board.game_state.en_passant {
                Some(square) => is_pawn && (square as usize == to_square),
                None => false,
            };
            let promotion = is_pawn && to_square / 8 == promotion_rank;
            let distance = if to_square > from { to_square - from } else { from - to_square };
            let double_step = is_pawn && distance == 16;
            let castling = piece == KING && distance == 2;
            let e: usize = if en_passant { 1 } else { 0 };
            let d: usize = if double_step { 1 } else { 0 };
            let c: usize = if castling { 1 } else { 0 };
            let base = piece | from << 3usize | to_square << 9usize | capture << 15usize | e << 21usize
                | d << 22usize | c << 23usize;
            proof {
                assert(capture <= 6);
            }
            if !promotion {
                proof { lemma_pack(piece, from, to_square, capture, PNONE, e, d, c); }
                list.push(Move::new(base | (PNONE << 18usize)));
            } else {
                proof {
                    lemma_pack(piece, from, to_square, capture, QUEEN, e, d, c);
                    lemma_pack(piece, from, to_square, capture, ROOK, e, d, c);
                    lemma_pack(piece, from, to_square, capture, BISHOP, e, d, c);
                    lemma_pack(piece, from, to_square, capture, KNIGHT, e, d, c);
                }
                list.push(Move::new(base | (QUEEN << 18usize)));
                list.push(Move::new(base | (ROOK << 18usize)));
                list.push(Move::new(base | (BISHOP << 18usize)));
                list.push(Move::new(base | (KNIGHT << 18usize)));
            }
            proof {
                assert(list@ =~= list_before + move_datas(*board, piece as int, from as int, to_square as int));
            }
        }
        proof {
            assert(bits_seq(bb_to) =~= Seq::<u64>::empty());
            assert(list@ =~= old(list)@ + total);
        }
    }
}

} // verus!
