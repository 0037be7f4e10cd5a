//! Material count.
use crate::board::Board;
use crate::defs::{BLACK, WHITE};
use crate::evaluation::defs::PIECE_VALUES;
use crate::evaluation::{
    lemma_side_terms_unfold, lemma_sum_done, lemma_sum_step, lemma_terms_empty, lemma_terms_step,
    running_sums_within, seq_sum, side_terms, side_total,
};
use crate::misc::bits;
use vstd::prelude::*;

verus! {

/// The material value of a piece, whatever square it stands on.
pub open spec fn material_value() -> spec_fn(int, u64) -> int {
    |piece: int, sq: u64| PIECE_VALUES[piece] as int
}

/// Adds up the material of each side: `(white, black)`.
pub fn count(board: &Board) -> (material: (u16, u16))
    requires
        running_sums_within(side_terms(board.bb_pieces[WHITE as int], material_value(), 0), 0, u16::MAX as int),
        running_sums_within(side_terms(board.bb_pieces[BLACK as int], material_value(), 0), 0, u16::MAX as int),
    ensures
        material.0 == side_total(board.bb_pieces[WHITE as int], material_value()),
        material.1 == side_total(board.bb_pieces[BLACK as int], material_value()),
{
    let mut white_material: u16 = 0;
    let mut black_material: u16 = 0;
    let bb_w = board.bb_pieces[WHITE];
    let bb_b = board.bb_pieces[BLACK];
    let ghost v = material_value();
    let ghost full_w = side_terms(bb_w, v, 0);
    let ghost full_b = side_terms(bb_b, v, 0);
    let ghost mut done_w: Seq<int> = Seq::empty();
    let ghost mut done_b: Seq<int> = Seq::empty();
    proof {
        assert(full_w =~= done_w + side_terms(bb_w, v, 0));
        assert(full_b =~= done_b + side_terms(bb_b, v, 0));
    }
    let mut piece: usize = 0;
    while piece < 6
        invariant
            0 <= piece <= 6,
            bb_w == board.bb_pieces[WHITE as int],
            bb_b == board.bb_pieces[BLACK as int],
            v == material_value(),
            full_w == side_terms(bb_w, v, 0),
            full_b == side_terms(bb_b, v, 0),
            running_sums_within(full_w, 0, u16::MAX as int),
            running_sums_within(full_b, 0, u16::MAX as int),
            full_w == done_w + side_terms(bb_w, v, piece as int),
            full_b == done_b + side_terms(bb_b, v, piece as int),
            white_material == seq_sum(done_w),
            black_material == seq_sum(done_b),
        decreases 6 - piece,
    {
        let mut white_pieces = bb_w[piece];
        let mut black_pieces = bb_b[piece];
        proof {
            lemma_side_terms_unfold(bb_w, v, piece as int);
            lemma_side_terms_unfold(bb_b, v, piece as int);
        }
        let ghost rest_w = side_terms(bb_w, v, piece + 1);
        let ghost rest_b = side_terms(bb_b, v, piece + 1);
        proof {
            assert(full_w =~= done_w + (crate::evaluation::bb_terms(v, piece as int, white_pieces) + rest_w));
            assert(full_b =~= done_b + (crate::evaluation::bb_terms(v, piece as int, black_pieces) + rest_b));
        }
        while white_pieces > 0
            invariant
                0 <= piece < 6,
                v == material_value(),
                running_sums_within(full_w, 0, u16::MAX as int),
                full_w == done_w + (crate::evaluation::bb_terms(v, piece as int, white_pieces) + rest_w),
                white_material == seq_sum(done_w),
            decreases white_pieces,
        {
            let ghost before = white_pieces;
            let ghost pending = crate::evaluation::bb_terms(v, piece as int, before);
            let sq = bits::next(&mut white_pieces);
            proof {
                lemma_terms_step(v, piece as int, before, sq as u64);
                crate::bitboard::lemma_pop_smaller(before, sq as u64);
                let x = v(piece as int, sq as u64);
                let tail = crate::evaluation::bb_terms(v, piece as int, white_pieces) + rest_w;
                assert(pending + rest_w =~= seq![x] + tail);
                lemma_sum_step(full_w, done_w, x, tail);
                assert(seq_sum(full_w.take(done_w.len() as int + 1)) <= u16::MAX);
                done_w = done_w.push(x);
            }
            white_material += PIECE_VALUES[piece];
        }
        while black_pieces > 0
            invariant
                0 <= piece < 6,
                v == material_value(),
                running_sums_within(full_b, 0, u16::MAX as int),
                full_b == done_b + (crate::evaluation::bb_terms(v, piece as int, black_pieces) + rest_b),
                black_material == seq_sum(done_b),
            decreases black_pieces,
        {
            let ghost before = black_pieces;
            let ghost pending = crate::evaluation::bb_terms(v, piece as int, before);
            let sq = bits::next(&mut black_pieces);
            proof {
                lemma_terms_step(v, piece as int, before, sq as u64);
                crate::bitboard::lemma_pop_smaller(before, sq as u64);
                let x = v(piece as int, sq as u64);
                let tail = crate::evaluation::bb_terms(v, piece as int, black_pieces) + rest_b;
                assert(pending + rest_b =~= seq![x] + tail);
                lemma_sum_step(full_b, done_b, x, tail);
                assert(seq_sum(full_b.take(done_b.len() as int + 1)) <= u16::MAX);
                done_b = done_b.push(x);
            }
            black_material += PIECE_VALUES[piece];
        }
        proof {
            lemma_terms_empty(v, piece as int);
            assert(full_w =~= done_w + side_terms(bb_w, v, piece + 1));
            assert(full_b =~= done_b + side_terms(bb_b, v, piece + 1));
        }
        piece += 1;
    }
    proof {
        assert(side_terms(bb_w, v, 6) =~= Seq::<int>::empty());
        assert(side_terms(bb_b, v, 6) =~= Seq::<int>::empty());
        lemma_sum_done(full_w, done_w);
        lemma_sum_done(full_b, done_b);
    }
    (white_material, black_material)
}

} // verus!
