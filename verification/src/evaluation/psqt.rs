//! Piece-square tables holding a middlegame and an endgame value per
//! square. The tables are written from white's point of view as a chess
//! diagram, A8 first; white reads them through `FLIP`, black directly.
use crate::board::Board;
use crate::defs::{BLACK, WHITE};
use crate::evaluation::defs::{W, FLIP};
use crate::evaluation::{
    bb_terms, lemma_side_terms_unfold, lemma_sum_done, lemma_sum_step, lemma_terms_empty,
    lemma_flip_is_xor, lemma_flip_twice, lemma_mirror_terms, lemma_side_total_sums, lemma_terms_step, running_sums_within,
    seq_sum, side_terms, side_total, square_terms, sum_to, Evaluation,
};
use crate::bitboard::bit_set;
use crate::misc::bits;
use vstd::prelude::*;

verus! {

pub const PSQT_KING_MG: [i16; 64] = [
    0, 0, 0, 0, 0, 0, 0, 0,
    0, 0, 0, 0, 0, 0, 0, 0,
    0, 0, 0, 0, 0, 0, 0, 0,
    0, 0, 0, 20, 20, 0, 0, 0,
    0, 0, 0, 20, 20, 0, 0, 0,
    0, 0, 0, 0, 0, 0, 0, 0,
    0, 0, 0, -10, -10, 0, 0, 0,
    0, 0, 20, -10, -10, 0, 20, 0,
];

pub const PSQT_KING_EG: [i16; 64] = [
    -95, -95, -90, -90, -90, -90, -95, -95,
    -95, -50, -50, -50, -50, -50, -50, -95,
    -90, -50, -20, -20, -20, -20, -50, -90,
    -90, -50, -20, 0, 0, -20, -50, -90,
    -90, -50, -20, 0, 0, -20, -50, -90,
    -90, -50, -20, -20, -20, -20, -50, -90,
    -95, -50, -50, -50, -50, -50, -50, -95,
    -95, -95, -90, -90, -90, -90, -95, -95,
];

pub const PSQT_QUEEN_MG: [i16; 64] = [
    865, 902, 922, 911, 964, 948, 933, 928,
    886, 865, 903, 921, 888, 951, 923, 940,
    902, 901, 907, 919, 936, 978, 965, 966,
    881, 885, 897, 894, 898, 929, 906, 915,
    907, 884, 899, 896, 904, 906, 912, 911,
    895, 916, 900, 902, 904, 912, 924, 917,
    874, 899, 918, 908, 915, 924, 911, 906,
    906, 899, 906, 918, 898, 890, 878, 858,
];

pub const PSQT_QUEEN_EG: [i16; 64] = [
    918, 937, 943, 945, 934, 926, 924, 942,
    907, 945, 946, 951, 982, 933, 928, 912,
    896, 921, 926, 967, 963, 937, 924, 915,
    926, 944, 939, 962, 983, 957, 981, 950,
    893, 949, 942, 970, 952, 956, 953, 936,
    911, 892, 933, 928, 934, 942, 934, 924,
    907, 898, 883, 903, 903, 893, 886, 888,
    886, 887, 890, 872, 916, 890, 906, 879,
];

pub const PSQT_ROOK_MG: [i16; 64] = [
    493, 511, 487, 515, 514, 483, 485, 495,
    493, 498, 529, 534, 546, 544, 483, 508,
    465, 490, 499, 497, 483, 519, 531, 480,
    448, 464, 476, 495, 484, 506, 467, 455,
    442, 451, 468, 470, 476, 472, 498, 454,
    441, 461, 468, 465, 478, 481, 478, 452,
    443, 472, 467, 476, 483, 500, 487, 423,
    459, 463, 470, 479, 480, 480, 446, 458,
];

pub const PSQT_ROOK_EG: [i16; 64] = [
    506, 500, 508, 502, 504, 507, 505, 503,
    505, 506, 502, 502, 491, 497, 506, 501,
    504, 503, 499, 500, 500, 495, 496, 496,
    503, 502, 510, 500, 502, 504, 500, 505,
    505, 509, 509, 506, 504, 503, 496, 495,
    500, 503, 500, 505, 498, 498, 499, 489,
    496, 495, 502, 505, 498, 498, 491, 499,
    492, 497, 498, 496, 493, 493, 497, 480,
];

pub const PSQT_BISHOP_MG: [i16; 64] = [
    292, 338, 254, 283, 299, 294, 337, 323,
    316, 342, 319, 319, 360, 385, 343, 295,
    342, 377, 373, 374, 368, 392, 385, 363,
    332, 338, 356, 384, 370, 380, 337, 341,
    327, 354, 353, 366, 373, 346, 345, 341,
    335, 350, 351, 347, 352, 361, 350, 344,
    333, 354, 354, 339, 344, 353, 367, 333,
    309, 341, 342, 325, 334, 332, 302, 313,
];

pub const PSQT_BISHOP_EG: [i16; 64] = [
    288, 278, 287, 292, 293, 290, 287, 277,
    289, 294, 301, 288, 296, 289, 294, 281,
    292, 289, 296, 292, 296, 300, 296, 293,
    293, 302, 305, 305, 306, 302, 296, 297,
    289, 293, 304, 308, 298, 301, 291, 288,
    285, 294, 304, 303, 306, 294, 290, 280,
    285, 284, 291, 299, 300, 290, 284, 271,
    277, 292, 286, 295, 294, 288, 290, 285,
];

pub const PSQT_KNIGHT_MG: [i16; 64] = [
    116, 228, 271, 270, 338, 213, 278, 191,
    225, 247, 353, 331, 321, 360, 300, 281,
    258, 354, 343, 362, 389, 428, 375, 347,
    300, 332, 325, 360, 349, 379, 339, 333,
    298, 322, 325, 321, 337, 332, 332, 303,
    287, 297, 316, 319, 327, 320, 327, 294,
    276, 259, 300, 304, 308, 322, 296, 292,
    208, 290, 257, 274, 296, 284, 293, 284,
];

pub const PSQT_KNIGHT_EG: [i16; 64] = [
    229, 236, 269, 250, 257, 249, 219, 188,
    252, 274, 263, 281, 273, 258, 260, 229,
    253, 264, 290, 289, 278, 275, 263, 243,
    267, 280, 299, 301, 299, 293, 285, 264,
    263, 273, 293, 301, 296, 293, 284, 261,
    258, 276, 278, 290, 287, 274, 260, 255,
    241, 259, 270, 277, 276, 262, 260, 237,
    253, 233, 258, 264, 261, 260, 234, 215,
];

pub const PSQT_PAWN_MG: [i16; 64] = [
    100, 100, 100, 100, 100, 100, 100, 100,
    176, 214, 147, 194, 189, 214, 132, 77,
    82, 88, 106, 113, 150, 146, 110, 73,
    67, 93, 83, 95, 97, 92, 99, 63,
    55, 74, 80, 89, 94, 86, 90, 55,
    55, 70, 68, 69, 76, 81, 101, 66,
    52, 84, 66, 60, 69, 99, 117, 60,
    100, 100, 100, 100, 100, 100, 100, 100,
];

pub const PSQT_PAWN_EG: [i16; 64] = [
    100, 100, 100, 100, 100, 100, 100, 100,
    277, 270, 252, 229, 240, 233, 264, 285,
    190, 197, 182, 168, 155, 150, 180, 181,
    128, 117, 108, 102, 93, 100, 110, 110,
    107, 101, 89, 85, 86, 83, 92, 91,
    96, 96, 85, 92, 88, 83, 85, 82,
    107, 99, 97, 97, 100, 89, 89, 84,
    100, 100, 100, 100, 100, 100, 100, 100,
];

/// Middlegame values of all piece types, indexed by piece type.
pub const PSQT_MG: [[i16; 64]; 6] = [
    PSQT_KING_MG, PSQT_QUEEN_MG, PSQT_ROOK_MG, PSQT_BISHOP_MG, PSQT_KNIGHT_MG, PSQT_PAWN_MG,
];

/// Endgame values of all piece types, indexed by piece type.
pub const PSQT_EG: [[i16; 64]; 6] = [
    PSQT_KING_EG, PSQT_QUEEN_EG, PSQT_ROOK_EG, PSQT_BISHOP_EG, PSQT_KNIGHT_EG, PSQT_PAWN_EG,
];

/// Pairs up the middlegame and endgame tables of one piece type.
fn psqt_row(mg: &[i16; 64], eg: &[i16; 64]) -> (row: [W; 64])
    ensures
        forall|i: int| 0 <= i < 64 ==> #[trigger] row[i] == W(mg[i], eg[i]),
{
    let mut row = [W(0, 0); 64];
    let mut i: usize = 0;
    while i < 64
        invariant
            0 <= i <= 64,
            forall|j: int| 0 <= j < i ==> #[trigger] row[j] == W(mg[j], eg[j]),
        decreases 64 - i,
    {
        row[i] = W(mg[i], eg[i]);
        i += 1;
    }
    row
}

/// The tables of all piece types, indexed by piece type: the set the
/// engine evaluates with.
pub fn psqt_set() -> (set: [[W; 64]; 6])
    ensures
        forall|p: int, i: int| 0 <= p < 6 && 0 <= i < 64 ==> #[trigger] set[p][i] == W(PSQT_MG[p][i], PSQT_EG[p][i]),
{
    [
        psqt_row(&PSQT_KING_MG, &PSQT_KING_EG),
        psqt_row(&PSQT_QUEEN_MG, &PSQT_QUEEN_EG),
        psqt_row(&PSQT_ROOK_MG, &PSQT_ROOK_EG),
        psqt_row(&PSQT_BISHOP_MG, &PSQT_BISHOP_EG),
        psqt_row(&PSQT_KNIGHT_MG, &PSQT_KNIGHT_EG),
        psqt_row(&PSQT_PAWN_MG, &PSQT_PAWN_EG),
    ]
}

/// The middlegame value of a white piece on a square.
pub open spec fn white_mg(set: [[W; 64]; 6]) -> spec_fn(int, u64) -> int {
    |p: int, sq: u64| set[p][FLIP[sq as int] as int].0 as int
}

/// The endgame value of a white piece on a square.
pub open spec fn white_eg(set: [[W; 64]; 6]) -> spec_fn(int, u64) -> int {
    |p: int, sq: u64| set[p][FLIP[sq as int] as int].1 as int
}

/// The middlegame value of a black piece on a square.
pub open spec fn black_mg(set: [[W; 64]; 6]) -> spec_fn(int, u64) -> int {
    |p: int, sq: u64| set[p][sq as int].0 as int
}

/// The endgame value of a black piece on a square.
pub open spec fn black_eg(set: [[W; 64]; 6]) -> spec_fn(int, u64) -> int {
    |p: int, sq: u64| set[p][sq as int].1 as int
}

/// Each of the four running sums stays within `i16`.
pub open spec fn psqt_sums_fit(board: Board, set: [[W; 64]; 6]) -> bool {
    &&& running_sums_within(side_terms(board.bb_pieces[WHITE as int], white_mg(set), 0), i16::MIN as int, i16::MAX as int)
    &&& running_sums_within(side_terms(board.bb_pieces[WHITE as int], white_eg(set), 0), i16::MIN as int, i16::MAX as int)
    &&& running_sums_within(side_terms(board.bb_pieces[BLACK as int], black_mg(set), 0), i16::MIN as int, i16::MAX as int)
    &&& running_sums_within(side_terms(board.bb_pieces[BLACK as int], black_eg(set), 0), i16::MIN as int, i16::MAX as int)
}

impl Evaluation {
    /// Adds up the table values of all pieces: `(white, black)`, each as a
    /// middlegame/endgame pair. This is done once after a position is set
    /// up; the engine then updates the values incrementally.
    pub fn psqt_apply(board: &Board, psqt_set: &[[W; 64]; 6]) -> (r: (W, W))
        requires
            psqt_sums_fit(*board, *psqt_set),
        ensures
            r.0.0 == side_total(board.bb_pieces[WHITE as int], white_mg(*psqt_set)),
            r.0.1 == side_total(board.bb_pieces[WHITE as int], white_eg(*psqt_set)),
            r.1.0 == side_total(board.bb_pieces[BLACK as int], black_mg(*psqt_set)),
            r.1.1 == side_total(board.bb_pieces[BLACK as int], black_eg(*psqt_set)),
    {
        let mut psqt_w_mg: i16 = 0;
        let mut psqt_w_eg: i16 = 0;
        let mut psqt_b_mg: i16 = 0;
        let mut psqt_b_eg: i16 = 0;
        let bb_white = board.bb_pieces[WHITE];
        let bb_black = board.bb_pieces[BLACK];
        let ghost set = *psqt_set;
        let ghost (v1, v2, v3, v4) = (white_mg(set), white_eg(set), black_mg(set), black_eg(set));
        let ghost full1 = side_terms(bb_white, v1, 0);
        let ghost full2 = side_terms(bb_white, v2, 0);
        let ghost full3 = side_terms(bb_black, v3, 0);
        let ghost full4 = side_terms(bb_black, v4, 0);
        let ghost mut done1: Seq<int> = Seq::empty();
        let ghost mut done2: Seq<int> = Seq::empty();
        let ghost mut done3: Seq<int> = Seq::empty();
        let ghost mut done4: Seq<int> = Seq::empty();
        proof {
            assert(full1 =~= done1 + side_terms(bb_white, v1, 0));
            assert(full2 =~= done2 + side_terms(bb_white, v2, 0));
            assert(full3 =~= done3 + side_terms(bb_black, v3, 0));
            assert(full4 =~= done4 + side_terms(bb_black, v4, 0));
        }
        let mut piece_type: usize = 0;
        while piece_type < 6
            invariant
                0 <= piece_type <= 6,
                bb_white == board.bb_pieces[WHITE as int],
                bb_black == board.bb_pieces[BLACK as int],
                set == *psqt_set,
                v1 == white_mg(set) && v2 == white_eg(set) && v3 == black_mg(set) && v4 == black_eg(set),
                full1 == side_terms(bb_white, v1, 0),
                full2 == side_terms(bb_white, v2, 0),
                full3 == side_terms(bb_black, v3, 0),
                full4 == side_terms(bb_black, v4, 0),
                running_sums_within(full1, i16::MIN as int, i16::MAX as int),
                running_sums_within(full2, i16::MIN as int, i16::MAX as int),
                running_sums_within(full3, i16::MIN as int, i16::MAX as int),
                running_sums_within(full4, i16::MIN as int, i16::MAX as int),
                full1 == done1 + side_terms(bb_white, v1, piece_type as int),
                full2 == done2 + side_terms(bb_white, v2, piece_type as int),
                full3 == done3 + side_terms(bb_black, v3, piece_type as int),
                full4 == done4 + side_terms(bb_black, v4, piece_type as int),
                psqt_w_mg == seq_sum(done1),
                psqt_w_eg == seq_sum(done2),
                psqt_b_mg == seq_sum(done3),
                psqt_b_eg == seq_sum(done4),
            decreases 6 - piece_type,
        {
            let mut white_pieces = bb_white[piece_type];
            let mut black_pieces = bb_black[piece_type];
            proof {
                lemma_side_terms_unfold(bb_white, v1, piece_type as int);
                lemma_side_terms_unfold(bb_white, v2, piece_type as int);
                lemma_side_terms_unfold(bb_black, v3, piece_type as int);
                lemma_side_terms_unfold(bb_black, v4, piece_type as int);
            }
            let ghost rest1 = side_terms(bb_white, v1, piece_type + 1);
            let ghost rest2 = side_terms(bb_white, v2, piece_type + 1);
            let ghost rest3 = side_terms(bb_black, v3, piece_type + 1);
            let ghost rest4 = side_terms(bb_black, v4, piece_type + 1);
            proof {
                assert(full1 =~= done1 + (bb_terms(v1, piece_type as int, white_pieces) + rest1));
                assert(full2 =~= done2 + (bb_terms(v2, piece_type as int, white_pieces) + rest2));
                assert(full3 =~= done3 + (bb_terms(v3, piece_type as int, black_pieces) + rest3));
                assert(full4 =~= done4 + (bb_terms(v4, piece_type as int, black_pieces) + rest4));
            }
            while white_pieces > 0
                invariant
                    0 <= piece_type < 6,
                    set == *psqt_set,
                    v1 == white_mg(set) && v2 == white_eg(set),
                    running_sums_within(full1, i16::MIN as int, i16::MAX as int),
                    running_sums_within(full2, i16::MIN as int, i16::MAX as int),
                    full1 == done1 + (bb_terms(v1, piece_type as int, white_pieces) + rest1),
                    full2 == done2 + (bb_terms(v2, piece_type as int, white_pieces) + rest2),
                    psqt_w_mg == seq_sum(done1),
                    psqt_w_eg == seq_sum(done2),
                decreases white_pieces,
            {
                let ghost before = white_pieces;
                let ghost pending1 = bb_terms(v1, piece_type as int, before);
                let ghost pending2 = bb_terms(v2, piece_type as int, before);
                let square = bits::next(&mut white_pieces);
                proof {
                    lemma_terms_step(v1, piece_type as int, before, square as u64);
                    lemma_terms_step(v2, piece_type as int, before, square as u64);
                    crate::bitboard::lemma_pop_smaller(before, square as u64);
                    let x1 = v1(piece_type as int, square as u64);
                    let x2 = v2(piece_type as int, square as u64);
                    let tail1 = bb_terms(v1, piece_type as int, white_pieces) + rest1;
                    let tail2 = bb_terms(v2, piece_type as int, white_pieces) + rest2;
                    assert(pending1 + rest1 =~= seq![x1] + tail1);
                    assert(pending2 + rest2 =~= seq![x2] + tail2);
                    lemma_sum_step(full1, done1, x1, tail1);
                    lemma_sum_step(full2, done2, x2, tail2);
                    assert(i16::MIN <= seq_sum(full1.take(done1.len() as int + 1)) <= i16::MAX);
                    assert(i16::MIN <= seq_sum(full2.take(done2.len() as int + 1)) <= i16::MAX);
                    done1 = done1.push(x1);
                    done2 = done2.push(x2);
                }
                psqt_w_mg += psqt_set[piece_type][FLIP[square]].mg();
                psqt_w_eg += psqt_set[piece_type][FLIP[square]].eg();
            }
            while black_pieces > 0
                invariant
                    0 <= piece_type < 6,
                    set == *psqt_set,
                    v3 == black_mg(set) && v4 == black_eg(set),
                    running_sums_within(full3, i16::MIN as int, i16::MAX as int),
                    running_sums_within(full4, i16::MIN as int, i16::MAX as int),
                    full3 == done3 + (bb_terms(v3, piece_type as int, black_pieces) + rest3),
                    full4 == done4 + (bb_terms(v4, piece_type as int, black_pieces) + rest4),
                    psqt_b_mg == seq_sum(done3),
                    psqt_b_eg == seq_sum(done4),
                decreases black_pieces,
            {
                let ghost before = black_pieces;
                let ghost pending3 = bb_terms(v3, piece_type as int, before);
                let ghost pending4 = bb_terms(v4, piece_type as int, before);
                let square = bits::next(&mut black_pieces);
                proof {
                    lemma_terms_step(v3, piece_type as int, before, square as u64);
                    lemma_terms_step(v4, piece_type as int, before, square as u64);
                    crate::bitboard::lemma_pop_smaller(before, square as u64);
                    let x3 = v3(piece_type as int, square as u64);
                    let x4 = v4(piece_type as int, square as u64);
                    let tail3 = bb_terms(v3, piece_type as int, black_pieces) + rest3;
                    let tail4 = bb_terms(v4, piece_type as int, black_pieces) + rest4;
                    assert(pending3 + rest3 =~= seq![x3] + tail3);
                    assert(pending4 + rest4 =~= seq![x4] + tail4);
                    lemma_sum_step(full3, done3, x3, tail3);
                    lemma_sum_step(full4, done4, x4, tail4);
                    assert(i16::MIN <= seq_sum(full3.take(done3.len() as int + 1)) <= i16::MAX);
                    assert(i16::MIN <= seq_sum(full4.take(done4.len() as int + 1)) <= i16::MAX);
                    done3 = done3.push(x3);
                    done4 = done4.push(x4);
                }
                psqt_b_mg += psqt_set[piece_type][square].mg();
                psqt_b_eg += psqt_set[piece_type][square].eg();
            }
            proof {
                lemma_terms_empty(v1, piece_type as int);
                lemma_terms_empty(v2, piece_type as int);
                lemma_terms_empty(v3, piece_type as int);
                lemma_terms_empty(v4, piece_type as int);
                assert(full1 =~= done1 + side_terms(bb_white, v1, piece_type + 1));
                assert(full2 =~= done2 + side_terms(bb_white, v2, piece_type + 1));
                assert(full3 =~= done3 + side_terms(bb_black, v3, piece_type + 1));
                assert(full4 =~= done4 + side_terms(bb_black, v4, piece_type + 1));
            }
            piece_type += 1;
        }
        proof {
            assert(side_terms(bb_white, v1, 6) =~= Seq::<int>::empty());
            assert(side_terms(bb_white, v2, 6) =~= Seq::<int>::empty());
            assert(side_terms(bb_black, v3, 6) =~= Seq::<int>::empty());
            assert(side_terms(bb_black, v4, 6) =~= Seq::<int>::empty());
            lemma_sum_done(full1, done1);
            lemma_sum_done(full2, done2);
            lemma_sum_done(full3, done3);
            lemma_sum_done(full4, done4);
        }
        (W(psqt_w_mg, psqt_w_eg), W(psqt_b_mg, psqt_b_eg))
    }
}

/// Mirrored pieces with mirrored values give the same side total.
proof fn lemma_mirror_side(
    bbs2: [u64; 6],
    bbs1: [u64; 6],
    v2: spec_fn(int, u64) -> int,
    v1: spec_fn(int, u64) -> int,
)
    requires
        forall|p: int, t: u64| 0 <= p < 6 && t < 64 ==> #[trigger] bit_set(bbs2[p], t) == bit_set(bbs1[p], FLIP[t as int] as u64),
        forall|p: int, t: u64| 0 <= p < 6 && t < 64 ==> #[trigger] v2(p, t) == v1(p, FLIP[t as int] as u64),
    ensures
        side_total(bbs2, v2) == side_total(bbs1, v1),
{
    assert forall|p: int| 0 <= p < 6 implies sum_to(#[trigger] square_terms(v2, p, bbs2[p]), 64) == sum_to(
        square_terms(v1, p, bbs1[p]),
        64,
    ) by {
        assert forall|t: u64| t < 64 implies bit_set(bbs2[p], t) == bit_set(bbs1[p], FLIP[t as int] as u64) by {
            assert(bit_set(bbs2[p], t) == bit_set(bbs1[p], FLIP[t as int] as u64));
        }
        assert forall|t: u64| t < 64 implies v2(p, t) == v1(p, FLIP[t as int] as u64) by {
            assert(v2(p, t) == v1(p, FLIP[t as int] as u64));
        }
        lemma_mirror_terms(v2, v1, p, bbs2[p], bbs1[p]);
    }
    lemma_side_total_sums(bbs2, v2);
    lemma_side_total_sums(bbs1, v1);
    assert(sum_to(square_terms(v2, 0, bbs2[0]), 64) == sum_to(square_terms(v1, 0, bbs1[0]), 64));
    assert(sum_to(square_terms(v2, 1, bbs2[1]), 64) == sum_to(square_terms(v1, 1, bbs1[1]), 64));
    assert(sum_to(square_terms(v2, 2, bbs2[2]), 64) == sum_to(square_terms(v1, 2, bbs1[2]), 64));
    assert(sum_to(square_terms(v2, 3, bbs2[3]), 64) == sum_to(square_terms(v1, 3, bbs1[3]), 64));
    assert(sum_to(square_terms(v2, 4, bbs2[4]), 64) == sum_to(square_terms(v1, 4, bbs1[4]), 64));
    assert(sum_to(square_terms(v2, 5, bbs2[5]), 64) == sum_to(square_terms(v1, 5, bbs1[5]), 64));
}

/// Mirroring a position, so that white and black swap sides and rank 1
/// becomes rank 8 (a white piece of type `p` on `sq` is a black piece of
/// type `p` on `sq ^ 56`, and the other way round), swaps the two sides'
/// table sums as `psqt_apply` gives them: white reads the tables through
/// `FLIP`, black reads them as they stand.
pub proof fn lemma_psqt_mirror(b1: Board, b2: Board, set: [[W; 64]; 6])
    requires
        forall|p: int, t: u64|
            0 <= p < 6 && t < 64 ==> #[trigger] bit_set(b2.bb_pieces[WHITE as int][p], t) == bit_set(
                b1.bb_pieces[BLACK as int][p],
                t ^ 56,
            ),
        forall|p: int, t: u64|
            0 <= p < 6 && t < 64 ==> #[trigger] bit_set(b2.bb_pieces[BLACK as int][p], t) == bit_set(
                b1.bb_pieces[WHITE as int][p],
                t ^ 56,
            ),
    ensures
        side_total(b2.bb_pieces[WHITE as int], white_mg(set)) == side_total(b1.bb_pieces[BLACK as int], black_mg(set)),
        side_total(b2.bb_pieces[WHITE as int], white_eg(set)) == side_total(b1.bb_pieces[BLACK as int], black_eg(set)),
        side_total(b2.bb_pieces[BLACK as int], black_mg(set)) == side_total(b1.bb_pieces[WHITE as int], white_mg(set)),
        side_total(b2.bb_pieces[BLACK as int], black_eg(set)) == side_total(b1.bb_pieces[WHITE as int], white_eg(set)),
{
    let w2 = b2.bb_pieces[WHITE as int];
    let k2 = b2.bb_pieces[BLACK as int];
    let w1 = b1.bb_pieces[WHITE as int];
    let k1 = b1.bb_pieces[BLACK as int];
    assert forall|p: int, t: u64| 0 <= p < 6 && t < 64 implies #[trigger] white_mg(set)(p, t) == black_mg(set)(
        p,
        FLIP[t as int] as u64,
    ) && white_eg(set)(p, t) == black_eg(set)(p, FLIP[t as int] as u64) && black_mg(set)(p, t) == white_mg(set)(
        p,
        FLIP[t as int] as u64,
    ) && black_eg(set)(p, t) == white_eg(set)(p, FLIP[t as int] as u64) by {
        lemma_flip_twice(t as int);
    }
    assert forall|p: int, t: u64| 0 <= p < 6 && t < 64 implies #[trigger] bit_set(w2[p], t) == bit_set(k1[p], FLIP[t as int] as u64) by {
        lemma_flip_is_xor(t);
        assert(bit_set(b2.bb_pieces[WHITE as int][p], t) == bit_set(b1.bb_pieces[BLACK as int][p], t ^ 56));
    }
    assert forall|p: int, t: u64| 0 <= p < 6 && t < 64 implies #[trigger] bit_set(k2[p], t) == bit_set(w1[p], FLIP[t as int] as u64) by {
        lemma_flip_is_xor(t);
        assert(bit_set(b2.bb_pieces[BLACK as int][p], t) == bit_set(b1.bb_pieces[WHITE as int][p], t ^ 56));
    }
    lemma_mirror_side(w2, k1, white_mg(set), black_mg(set));
    lemma_mirror_side(w2, k1, white_eg(set), black_eg(set));
    lemma_mirror_side(k2, w1, black_mg(set), white_mg(set));
    lemma_mirror_side(k2, w1, black_eg(set), white_eg(set));
}

} // verus!
