//! Game phase.
use crate::board::Board;
use crate::defs::{BLACK, WHITE};
use crate::evaluation::defs::PHASE_VALUES;
use crate::evaluation::{
    bb_terms, lemma_side_terms_unfold, lemma_sum_done, lemma_sum_step, lemma_terms_empty,
    lemma_terms_step, running_sums_within, seq_sum, side_terms, side_total, Evaluation,
};
use crate::misc::bits;
use vstd::prelude::*;

verus! {

/// The phase value of a piece, whatever square it stands on.
pub open spec fn phase_value() -> spec_fn(int, u64) -> int {
    |piece: int, sq: u64| PHASE_VALUES[piece] as int
}

impl Evaluation {
    /// Adds up the phase values of all pieces of both sides. This is the
    /// initial game phase; the engine updates it incrementally as pieces
    /// are traded.
    pub fn count_phase(board: &Board) -> (phase: i16)
        requires
            running_sums_within(side_terms(board.bb_pieces[WHITE as int], phase_value(), 0), i16::MIN as int, i16::MAX as int),
            running_sums_within(side_terms(board.bb_pieces[BLACK as int], phase_value(), 0), i16::MIN as int, i16::MAX as int),
            i16::MIN <= side_total(board.bb_pieces[WHITE as int], phase_value()) + side_total(board.bb_pieces[BLACK as int], phase_value()) <= i16::MAX,
        ensures
            phase == side_total(board.bb_pieces[WHITE as int], phase_value()) + side_total(board.bb_pieces[BLACK as int], phase_value()),
    {
        let mut phase_w: i16 = 0;
        let mut phase_b: i16 = 0;
        let bb_w = board.bb_pieces[WHITE];
        let bb_b = board.bb_pieces[BLACK];
        let ghost v = phase_value();
        let ghost full_w = side_terms(bb_w, v, 0);
        let ghost full_b = side_terms(bb_b, v, 0);
        let ghost mut done_w: Seq<int> = Seq::empty();
        let ghost mut done_b: Seq<int> = Seq::empty();
        proof {
            assert(full_w =~= done_w + side_terms(bb_w, v, 0));
            assert(full_b =~= done_b + side_terms(bb_b, v, 0));
        }
        let mut piece_type: usize = 0;
        while piece_type < 6
            invariant
                0 <= piece_type <= 6,
                bb_w == board.bb_pieces[WHITE as int],
                bb_b == board.bb_pieces[BLACK as int],
                v == phase_value(),
                full_w == side_terms(bb_w, v, 0),
                full_b == side_terms(bb_b, v, 0),
                running_sums_within(full_w, i16::MIN as int, i16::MAX as int),
                running_sums_within(full_b, i16::MIN as int, i16::MAX as int),
                full_w == done_w + side_terms(bb_w, v, piece_type as int),
                full_b == done_b + side_terms(bb_b, v, piece_type as int),
                phase_w == seq_sum(done_w),
                phase_b == seq_sum(done_b),
            decreases 6 - piece_type,
        {
            let mut white_pieces = bb_w[piece_type];
            let mut black_pieces = bb_b[piece_type];
            proof {
                lemma_side_terms_unfold(bb_w, v, piece_type as int);
                lemma_side_terms_unfold(bb_b, v, piece_type as int);
            }
            let ghost rest_w = side_terms(bb_w, v, piece_type + 1);
            let ghost rest_b = side_terms(bb_b, v, piece_type + 1);
            proof {
                assert(full_w =~= done_w + (bb_terms(v, piece_type as int, white_pieces) + rest_w));
                assert(full_b =~= done_b + (bb_terms(v, piece_type as int, black_pieces) + rest_b));
            }
            while white_pieces > 0
                invariant
                    0 <= piece_type < 6,
                    v == phase_value(),
                    running_sums_within(full_w, i16::MIN as int, i16::MAX as int),
                    full_w == done_w + (bb_terms(v, piece_type as int, white_pieces) + rest_w),
                    phase_w == seq_sum(done_w),
                decreases white_pieces,
            {
                let ghost before = white_pieces;
                let ghost pending = bb_terms(v, piece_type as int, before);
                let sq = bits::next(&mut white_pieces);
                proof {
                    lemma_terms_step(v, piece_type as int, before, sq as u64);
                    crate::bitboard::lemma_pop_smaller(before, sq as u64);
                    let x = v(piece_type as int, sq as u64);
                    let tail = bb_terms(v, piece_type as int, white_pieces) + rest_w;
                    assert(pending + rest_w =~= seq![x] + tail);
                    lemma_sum_step(full_w, done_w, x, tail);
                    assert(i16::MIN <= seq_sum(full_w.take(done_w.len() as int + 1)) <= i16::MAX);
                    done_w = done_w.push(x);
                }
                phase_w += PHASE_VALUES[piece_type];
            }
            while black_pieces > 0
                invariant
                    0 <= piece_type < 6,
                    v == phase_value(),
                    running_sums_within(full_b, i16::MIN as int, i16::MAX as int),
                    full_b == done_b + (bb_terms(v, piece_type as int, black_pieces) + rest_b),
                    phase_b == seq_sum(done_b),
                decreases black_pieces,
            {
                let ghost before = black_pieces;
                let ghost pending = bb_terms(v, piece_type as int, before);
                let sq = bits::next(&mut black_pieces);
                proof {
                    lemma_terms_step(v, piece_type as int, before, sq as u64);
                    crate::bitboard::lemma_pop_smaller(before, sq as u64);
                    let x = v(piece_type as int, sq as u64);
                    let tail = bb_terms(v, piece_type as int, black_pieces) + rest_b;
                    assert(pending + rest_b =~= seq![x] + tail);
                    lemma_sum_step(full_b, done_b, x, tail);
                    assert(i16::MIN <= seq_sum(full_b.take(done_b.len() as int + 1)) <= i16::MAX);
                    done_b = done_b.push(x);
                }
                phase_b += PHASE_VALUES[piece_type];
            }
            proof {
                lemma_terms_empty(v, piece_type as int);
                assert(full_w =~= done_w + side_terms(bb_w, v, piece_type + 1));
                assert(full_b =~= done_b + side_terms(bb_b, v, piece_type + 1));
            }
            piece_type += 1;
        }
        proof {
            assert(side_terms(bb_w, v, 6) =~= Seq::<int>::empty());
            assert(side_terms(bb_b, v, 6) =~= Seq::<int>::empty());
            lemma_sum_done(full_w, done_w);
            lemma_sum_done(full_b, done_b);
        }
        phase_w + phase_b
    }
}

} // verus!
