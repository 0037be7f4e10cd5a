//! Piece-square tables kept as two separate collections, one for the
//! middlegame and one for the endgame. Like the combined tables they are
//! written from white's point of view, A8 first.
use crate::board::Board;
use crate::defs::{BLACK, WHITE};
use crate::evaluation::defs::FLIP;
use crate::evaluation::{
    bb_terms, lemma_side_terms_unfold, lemma_sum_done, lemma_sum_step, lemma_terms_empty,
    lemma_terms_step, running_sums_within, seq_sum, side_terms, side_total, Evaluation,
};
use crate::misc::bits;
use vstd::prelude::*;

verus! {

pub const KING_MG: [i16; 64] = [
    -11, 70, 55, 31, -37, -16, 22, 22,
    37, 24, 25, 36, 16, 8, -12, -31,
    33, 26, 42, 11, 11, 40, 35, -2,
    0, -9, 1, -21, -20, -22, -15, -60,
    -25, 16, -27, -67, -81, -58, -40, -62,
    7, -2, -37, -77, -79, -60, -23, -26,
    12, 15, -13, -72, -56, -28, 15, 17,
    -6, 44, 29, -58, 8, -25, 34, 28,
];

pub const QUEEN_MG: [i16; 64] = [
    865, 902, 922, 911, 964, 948, 933, 928,
    886, 865, 903, 921, 888, 951, 923, 940,
    902, 901, 907, 919, 936, 978, 965, 966,
    881, 885, 897, 894, 898, 929, 906, 915,
    907, 884, 899, 896, 904, 906, 912, 911,
    895, 916, 900, 902, 904, 912, 924, 917,
    874, 899, 918, 908, 915, 924, 911, 906,
    906, 899, 906, 918, 898, 890, 878, 858,
];

pub const ROOK_MG: [i16; 64] = [
    493, 511, 487, 515, 514, 483, 485, 495,
    493, 498, 529, 534, 546, 544, 483, 508,
    465, 490, 499, 497, 483, 519, 531, 480,
    448, 464, 476, 495, 484, 506, 467, 455,
    442, 451, 468, 470, 476, 472, 498, 454,
    441, 461, 468, 465, 478, 481, 478, 452,
    443, 472, 467, 476, 483, 500, 487, 423,
    459, 463, 470, 479, 480, 480, 446, 458,
];

pub const BISHOP_MG: [i16; 64] = [
    292, 338, 254, 283, 299, 294, 337, 323,
    316, 342, 319, 319, 360, 385, 343, 295,
    342, 377, 373, 374, 368, 392, 385, 363,
    332, 338, 356, 384, 370, 380, 337, 341,
    327, 354, 353, 366, 373, 346, 345, 341,
    335, 350, 351, 347, 352, 361, 350, 344,
    333, 354, 354, 339, 344, 353, 367, 333,
    309, 341, 342, 325, 334, 332, 302, 313,
];

pub const KNIGHT_MG: [i16; 64] = [
    116, 228, 271, 270, 338, 213, 278, 191,
    225, 247, 353, 331, 321, 360, 300, 281,
    258, 354, 343, 362, 389, 428, 375, 347,
    300, 332, 325, 360, 349, 379, 339, 333,
    298, 322, 325, 321, 337, 332, 332, 303,
    287, 297, 316, 319, 327, 320, 327, 294,
    276, 259, 300, 304, 308, 322, 296, 292,
    208, 290, 257, 274, 296, 284, 293, 284,
];

pub const PAWN_MG: [i16; 64] = [
    100, 100, 100, 100, 100, 100, 100, 100,
    176, 214, 147, 194, 189, 214, 132, 77,
    82, 88, 106, 113, 150, 146, 110, 73,
    67, 93, 83, 95, 97, 92, 99, 63,
    55, 74, 80, 89, 94, 86, 90, 55,
    55, 70, 68, 69, 76, 81, 101, 66,
    52, 84, 66, 60, 69, 99, 117, 60,
    100, 100, 100, 100, 100, 100, 100, 100,
];

pub const KING_EG: [i16; 64] = [
    -74, -43, -23, -25, -11, 10, 1, -12,
    -18, 6, 4, 9, 7, 26, 14, 8,
    -3, 6, 10, 6, 8, 24, 27, 3,
    -16, 8, 13, 20, 14, 19, 10, -3,
    -25, -14, 13, 20, 24, 15, 1, -15,
    -27, -10, 9, 20, 23, 14, 2, -12,
    -32, -17, 4, 14, 15, 5, -10, -22,
    -55, -40, -23, -6, -20, -8, -28, -47,
];

pub const QUEEN_EG: [i16; 64] = [
    918, 937, 943, 945, 934, 926, 924, 942,
    907, 945, 946, 951, 982, 933, 928, 912,
    896, 921, 926, 967, 963, 937, 924, 915,
    926, 944, 939, 962, 983, 957, 981, 950,
    893, 949, 942, 970, 952, 956, 953, 936,
    911, 892, 933, 928, 934, 942, 934, 924,
    907, 898, 883, 903, 903, 893, 886, 888,
    886, 887, 890, 872, 916, 890, 906, 879,
];

pub const ROOK_EG: [i16; 64] = [
    506, 500, 508, 502, 504, 507, 505, 503,
    505, 506, 502, 502, 491, 497, 506, 501,
    504, 503, 499, 500, 500, 495, 496, 496,
    503, 502, 510, 500, 502, 504, 500, 505,
    505, 509, 509, 506, 504, 503, 496, 495,
    500, 503, 500, 505, 498, 498, 499, 489,
    496, 495, 502, 505, 498, 498, 491, 499,
    492, 497, 498, 496, 493, 493, 497, 480,
];

pub const BISHOP_EG: [i16; 64] = [
    288, 278, 287, 292, 293, 290, 287, 277,
    289, 294, 301, 288, 296, 289, 294, 281,
    292, 289, 296, 292, 296, 300, 296, 293,
    293, 302, 305, 305, 306, 302, 296, 297,
    289, 293, 304, 308, 298, 301, 291, 288,
    285, 294, 304, 303, 306, 294, 290, 280,
    285, 284, 291, 299, 300, 290, 284, 271,
    277, 292, 286, 295, 294, 288, 290, 285,
];

pub const KNIGHT_EG: [i16; 64] = [
    229, 236, 269, 250, 257, 249, 219, 188,
    252, 274, 263, 281, 273, 258, 260, 229,
    253, 264, 290, 289, 278, 275, 263, 243,
    267, 280, 299, 301, 299, 293, 285, 264,
    263, 273, 293, 301, 296, 293, 284, 261,
    258, 276, 278, 290, 287, 274, 260, 255,
    241, 259, 270, 277, 276, 262, 260, 237,
    253, 233, 258, 264, 261, 260, 234, 215,
];

pub const PAWN_EG: [i16; 64] = [
    100, 100, 100, 100, 100, 100, 100, 100,
    277, 270, 252, 229, 240, 233, 264, 285,
    190, 197, 182, 168, 155, 150, 180, 181,
    128, 117, 108, 102, 93, 100, 110, 110,
    107, 101, 89, 85, 86, 83, 92, 91,
    96, 96, 85, 92, 88, 83, 85, 82,
    107, 99, 97, 97, 100, 89, 89, 84,
    100, 100, 100, 100, 100, 100, 100, 100,
];

/// Middlegame tables, indexed by piece type.
pub const PST_MG: [[i16; 64]; 6] = [KING_MG, QUEEN_MG, ROOK_MG, BISHOP_MG, KNIGHT_MG, PAWN_MG];

/// Endgame tables, indexed by piece type.
pub const PST_EG: [[i16; 64]; 6] = [KING_EG, QUEEN_EG, ROOK_EG, BISHOP_EG, KNIGHT_EG, PAWN_EG];

/// The value of a white piece on a square in a collection of tables.
pub open spec fn white_value(tables: [[i16; 64]; 6]) -> spec_fn(int, u64) -> int {
    |p: int, sq: u64| tables[p][FLIP[sq as int] as int] as int
}

/// The value of a black piece on a square in a collection of tables.
pub open spec fn black_value(tables: [[i16; 64]; 6]) -> spec_fn(int, u64) -> int {
    |p: int, sq: u64| tables[p][sq as int] as int
}

impl Evaluation {
    /// Adds up the table values of all pieces of each side: `(white,
    /// black)`. These are the initial values; the engine updates them
    /// incrementally during play.
    pub fn pst_apply(board: &Board, pst_collection: &[[i16; 64]; 6]) -> (r: (i16, i16))
        requires
            running_sums_within(side_terms(board.bb_pieces[WHITE as int], white_value(*pst_collection), 0), i16::MIN as int, i16::MAX as int),
            running_sums_within(side_terms(board.bb_pieces[BLACK as int], black_value(*pst_collection), 0), i16::MIN as int, i16::MAX as int),
        ensures
            r.0 == side_total(board.bb_pieces[WHITE as int], white_value(*pst_collection)),
            r.1 == side_total(board.bb_pieces[BLACK as int], black_value(*pst_collection)),
    {
        let mut pst_w: i16 = 0;
        let mut pst_b: i16 = 0;
        let bb_white = board.bb_pieces[WHITE];
        let bb_black = board.bb_pieces[BLACK];
        let ghost vw = white_value(*pst_collection);
        let ghost vb = black_value(*pst_collection);
        let ghost full_w = side_terms(bb_white, vw, 0);
        let ghost full_b = side_terms(bb_black, vb, 0);
        let ghost mut done_w: Seq<int> = Seq::empty();
        let ghost mut done_b: Seq<int> = Seq::empty();
        proof {
            assert(full_w =~= done_w + side_terms(bb_white, vw, 0));
            assert(full_b =~= done_b + side_terms(bb_black, vb, 0));
        }
        let mut piece_type: usize = 0;
        while piece_type < 6
            invariant
                0 <= piece_type <= 6,
                bb_white == board.bb_pieces[WHITE as int],
                bb_black == board.bb_pieces[BLACK as int],
                vw == white_value(*pst_collection),
                vb == black_value(*pst_collection),
                full_w == side_terms(bb_white, vw, 0),
                full_b == side_terms(bb_black, vb, 0),
                running_sums_within(full_w, i16::MIN as int, i16::MAX as int),
                running_sums_within(full_b, i16::MIN as int, i16::MAX as int),
                full_w == done_w + side_terms(bb_white, vw, piece_type as int),
                full_b == done_b + side_terms(bb_black, vb, piece_type as int),
                pst_w == seq_sum(done_w),
                pst_b == seq_sum(done_b),
            decreases 6 - piece_type,
        {
            let mut white_pieces = bb_white[piece_type];
            let mut black_pieces = bb_black[piece_type];
            proof {
                lemma_side_terms_unfold(bb_white, vw, piece_type as int);
                lemma_side_terms_unfold(bb_black, vb, piece_type as int);
            }
            let ghost rest_w = side_terms(bb_white, vw, piece_type + 1);
            let ghost rest_b = side_terms(bb_black, vb, piece_type + 1);
            proof {
                assert(full_w =~= done_w + (bb_terms(vw, piece_type as int, white_pieces) + rest_w));
                assert(full_b =~= done_b + (bb_terms(vb, piece_type as int, black_pieces) + rest_b));
            }
            while white_pieces > 0
                invariant
                    0 <= piece_type < 6,
                    vw == white_value(*pst_collection),
                    running_sums_within(full_w, i16::MIN as int, i16::MAX as int),
                    full_w == done_w + (bb_terms(vw, piece_type as int, white_pieces) + rest_w),
                    pst_w == seq_sum(done_w),
                decreases white_pieces,
            {
                let ghost before = white_pieces;
                let ghost pending = bb_terms(vw, piece_type as int, before);
                let square = bits::next(&mut white_pieces);
                proof {
                    lemma_terms_step(vw, piece_type as int, before, square as u64);
                    crate::bitboard::lemma_pop_smaller(before, square as u64);
                    let x = vw(piece_type as int, square as u64);
                    let tail = bb_terms(vw, piece_type as int, white_pieces) + rest_w;
                    assert(pending + rest_w =~= seq![x] + tail);
                    lemma_sum_step(full_w, done_w, x, tail);
                    assert(i16::MIN <= seq_sum(full_w.take(done_w.len() as int + 1)) <= i16::MAX);
                    done_w = done_w.push(x);
                }
                pst_w += pst_collection[piece_type][FLIP[square]];
            }
            while black_pieces > 0
                invariant
                    0 <= piece_type < 6,
                    vb == black_value(*pst_collection),
                    running_sums_within(full_b, i16::MIN as int, i16::MAX as int),
                    full_b == done_b + (bb_terms(vb, piece_type as int, black_pieces) + rest_b),
                    pst_b == seq_sum(done_b),
                decreases black_pieces,
            {
                let ghost before = black_pieces;
                let ghost pending = bb_terms(vb, piece_type as int, before);
                let square = bits::next(&mut black_pieces);
                proof {
                    lemma_terms_step(vb, piece_type as int, before, square as u64);
                    crate::bitboard::lemma_pop_smaller(before, square as u64);
                    let x = vb(piece_type as int, square as u64);
                    let tail = bb_terms(vb, piece_type as int, black_pieces) + rest_b;
                    assert(pending + rest_b =~= seq![x] + tail);
                    lemma_sum_step(full_b, done_b, x, tail);
                    assert(i16::MIN <= seq_sum(full_b.take(done_b.len() as int + 1)) <= i16::MAX);
                    done_b = done_b.push(x);
                }
                pst_b += pst_collection[piece_type][square];
            }
            proof {
                lemma_terms_empty(vw, piece_type as int);
                lemma_terms_empty(vb, piece_type as int);
                assert(full_w =~= done_w + side_terms(bb_white, vw, piece_type + 1));
                assert(full_b =~= done_b + side_terms(bb_black, vb, piece_type + 1));
            }
            piece_type += 1;
        }
        proof {
            assert(side_terms(bb_white, vw, 6) =~= Seq::<int>::empty());
            assert(side_terms(bb_black, vb, 6) =~= Seq::<int>::empty());
            lemma_sum_done(full_w, done_w);
            lemma_sum_done(full_b, done_b);
        }
        (pst_w, pst_b)
    }
}

} // verus!
