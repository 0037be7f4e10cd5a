//! Evaluation helpers: material count, game phase and the piece-square
//! tables. Each of them walks the pieces of both sides and adds up one
//! value per piece; the sums are described here once.
use crate::bitboard::{bit_set, bits_seq, lemma_bit_single, lemma_bit_xor, lemma_bit_zero, lemma_pop_smaller};
use vstd::prelude::*;

pub mod defs;
pub mod material;
pub mod phase;
pub mod psqt;
pub mod pst;

verus! {

/// Namespace of the evaluation functions.
pub struct Evaluation;

/// The sum of a sequence of integers.
pub open spec fn seq_sum(s: Seq<int>) -> int
    decreases s.len(),
{
    if s.len() == 0 {
        0
    } else {
        seq_sum(s.drop_last()) + s.last()
    }
}

/// Every running total of `s`, from the empty prefix up to the whole
/// sequence, lies within `lo..=hi`.
pub open spec fn running_sums_within(s: Seq<int>, lo: int, hi: int) -> bool {
    forall|k: int| 0 <= k <= s.len() ==> lo <= #[trigger] seq_sum(s.take(k)) <= hi
}

/// The values `value(piece, square)` of the pieces on the set squares of
/// `bb`, lowest square first.
pub open spec fn bb_terms(value: spec_fn(int, u64) -> int, piece: int, bb: u64) -> Seq<int> {
    bits_seq(bb).map_values(|sq: u64| value(piece, sq))
}

/// The values of all pieces of one side, piece type `p` and up, in the
/// order in which the evaluation visits them: by piece type, then by
/// square from low to high.
pub open spec fn side_terms(bbs: [u64; 6], value: spec_fn(int, u64) -> int, p: int) -> Seq<int>
    decreases 6 - p,
{
    if p < 0 || p >= 6 {
        Seq::empty()
    } else {
        bb_terms(value, p, bbs[p]) + side_terms(bbs, value, p + 1)
    }
}

/// The total of the values of all pieces of one side.
pub open spec fn side_total(bbs: [u64; 6], value: spec_fn(int, u64) -> int) -> int {
    seq_sum(side_terms(bbs, value, 0))
}

/// Taking the lowest piece off `bb` moves its value from the pending
/// terms to the consumed ones.
pub proof fn lemma_terms_step(value: spec_fn(int, u64) -> int, piece: int, bb: u64, sq: u64)
    requires
        bb != 0,
        sq == vstd::std_specs::bits::u64_trailing_zeros(bb),
    ensures
        bb_terms(value, piece, bb) == seq![value(piece, sq)] + bb_terms(
            value,
            piece,
            bb ^ (1u64 << sq),
        ),
{
    vstd::std_specs::bits::axiom_u64_trailing_zeros(bb);
    lemma_pop_smaller(bb, sq);
    let rest = bits_seq(bb ^ (1u64 << sq));
    assert(bits_seq(bb) == seq![sq] + rest);
    assert(bb_terms(value, piece, bb) =~= seq![value(piece, sq)] + bb_terms(value, piece, bb ^ (1u64 << sq)));
}

/// A bitboard without pieces contributes no terms.
pub proof fn lemma_terms_empty(value: spec_fn(int, u64) -> int, piece: int)
    ensures
        bb_terms(value, piece, 0u64) == Seq::<int>::empty(),
{
    assert(bb_terms(value, piece, 0u64) =~= Seq::<int>::empty());
}

/// Appending one value to the consumed prefix of `full`: the new running
/// total is the old one plus that value, and it is one of the running
/// totals of `full`.
pub proof fn lemma_sum_step(full: Seq<int>, consumed: Seq<int>, x: int, rest: Seq<int>)
    requires
        full == consumed + (seq![x] + rest),
    ensures
        seq_sum(consumed.push(x)) == seq_sum(consumed) + x,
        full.take(consumed.len() as int + 1) == consumed.push(x),
        full == consumed.push(x) + rest,
{
    assert(consumed.push(x).drop_last() =~= consumed);
    assert(full.take(consumed.len() as int + 1) =~= consumed.push(x));
    assert(full =~= consumed.push(x) + rest);
}

/// When nothing is pending any more, the consumed prefix is everything.
pub proof fn lemma_sum_done(full: Seq<int>, consumed: Seq<int>)
    requires
        full == consumed + Seq::<int>::empty(),
    ensures
        full == consumed,
{
    assert(full =~= consumed);
}

/// Moving on to the next piece type: its terms come next.
pub proof fn lemma_side_terms_unfold(bbs: [u64; 6], value: spec_fn(int, u64) -> int, p: int)
    requires
        0 <= p < 6,
    ensures
        side_terms(bbs, value, p) == bb_terms(value, p, bbs[p]) + side_terms(bbs, value, p + 1),
{
}

/// The sum of `g(0) + ... + g(n - 1)`.
pub open spec fn sum_to(g: spec_fn(int) -> int, n: int) -> int
    decreases n,
{
    if n <= 0 {
        0
    } else {
        sum_to(g, n - 1) + g(n - 1)
    }
}

/// Reading the squares in mirrored order (rank 8 first) gives the same sum.
pub proof fn lemma_flip_sum(g: spec_fn(int) -> int)
    ensures
        sum_to(|t: int| g(crate::evaluation::defs::FLIP[t] as int), 64) == sum_to(g, 64),
{
    reveal_with_fuel(sum_to, 65);
}

/// Mirroring twice gives the square back.
pub proof fn lemma_flip_twice(t: int)
    requires
        0 <= t < 64,
    ensures
        crate::evaluation::defs::FLIP[t] < 64,
        crate::evaluation::defs::FLIP[crate::evaluation::defs::FLIP[t] as int] == t,
{
    let ghost flip = crate::evaluation::defs::FLIP;
    assert(flip@ =~= seq![
        56usize, 57, 58, 59, 60, 61, 62, 63, 48, 49, 50, 51, 52, 53, 54, 55, 40, 41, 42, 43, 44, 45, 46, 47,
        32, 33, 34, 35, 36, 37, 38, 39, 24, 25, 26, 27, 28, 29, 30, 31, 16, 17, 18, 19, 20, 21, 22, 23,
        8, 9, 10, 11, 12, 13, 14, 15, 0, 1, 2, 3, 4, 5, 6, 7,
    ]);
    assert(forall|k: int| 0 <= k < 64 ==> #[trigger] flip@[k] == 56 - 8 * (k / 8) + k % 8);
}

/// Mirroring a square top to bottom is flipping bits 3 to 5 of its
/// number: `FLIP` maps square `t` to `t ^ 56`.
pub proof fn lemma_flip_is_xor(t: u64)
    requires
        t < 64,
    ensures
        crate::evaluation::defs::FLIP[t as int] as u64 == t ^ 56,
{
    lemma_flip_twice(t as int);
    let ghost flip = crate::evaluation::defs::FLIP;
    assert(flip@ =~= seq![
        56usize, 57, 58, 59, 60, 61, 62, 63, 48, 49, 50, 51, 52, 53, 54, 55, 40, 41, 42, 43, 44, 45, 46, 47,
        32, 33, 34, 35, 36, 37, 38, 39, 24, 25, 26, 27, 28, 29, 30, 31, 16, 17, 18, 19, 20, 21, 22, 23,
        8, 9, 10, 11, 12, 13, 14, 15, 0, 1, 2, 3, 4, 5, 6, 7,
    ]);
    assert(flip@[t as int] == 56 - 8 * (t / 8) + t % 8);
    assert((t ^ 56) + 8 * (t / 8) == 56 + t % 8) by (bit_vector)
        requires
            t < 64,
    ;
}

/// The values of the pieces of type `piece` on `bb`, square by square:
/// `value(piece, t)` where a piece stands on `t`, 0 elsewhere.
pub open spec fn square_terms(value: spec_fn(int, u64) -> int, piece: int, bb: u64) -> spec_fn(int) -> int {
    |t: int| if bit_set(bb, t as u64) { value(piece, t as u64) } else { 0 }
}

/// Sums of functions that agree on `0..n` are equal.
pub proof fn lemma_sum_ext(g: spec_fn(int) -> int, h: spec_fn(int) -> int, n: int)
    requires
        forall|t: int| 0 <= t < n ==> #[trigger] g(t) == h(t),
    ensures
        sum_to(g, n) == sum_to(h, n),
    decreases n,
{
    if n > 0 {
        lemma_sum_ext(g, h, n - 1);
    }
}

/// Sums of functions that differ only at `s` differ by the difference there.
pub proof fn lemma_sum_point(g: spec_fn(int) -> int, h: spec_fn(int) -> int, n: int, s: int)
    requires
        0 <= s < n,
        forall|t: int| 0 <= t < n && t != s ==> #[trigger] g(t) == h(t),
    ensures
        sum_to(g, n) == sum_to(h, n) + g(s) - h(s),
    decreases n,
{
    if n - 1 == s {
        lemma_sum_ext(g, h, n - 1);
    } else {
        lemma_sum_point(g, h, n - 1, s);
    }
}

/// The sum of a sequence with one more value in front.
pub proof fn lemma_seq_sum_prepend(x: int, rest: Seq<int>)
    ensures
        seq_sum(seq![x] + rest) == x + seq_sum(rest),
    decreases rest.len(),
{
    if rest.len() > 0 {
        lemma_seq_sum_prepend(x, rest.drop_last());
        assert((seq![x] + rest).drop_last() =~= seq![x] + rest.drop_last());
        assert((seq![x] + rest).last() == rest.last());
    } else {
        assert(seq![x] + rest =~= seq![x]);
        assert(seq![x].drop_last() =~= Seq::<int>::empty());
        assert(seq_sum(seq![x]) == seq_sum(seq![x].drop_last()) + x);
        assert(seq_sum(rest) == 0);
    }
}

/// The sum of two sequences one after the other.
pub proof fn lemma_seq_sum_concat(a: Seq<int>, b: Seq<int>)
    ensures
        seq_sum(a + b) == seq_sum(a) + seq_sum(b),
    decreases b.len(),
{
    if b.len() > 0 {
        lemma_seq_sum_concat(a, b.drop_last());
        assert((a + b).drop_last() =~= a + b.drop_last());
    } else {
        assert(a + b =~= a);
    }
}

/// Visiting the pieces of `bb` lowest square first sums the same values
/// as going over all squares.
pub proof fn lemma_terms_sum(value: spec_fn(int, u64) -> int, piece: int, bb: u64)
    ensures
        seq_sum(bb_terms(value, piece, bb)) == sum_to(square_terms(value, piece, bb), 64),
    decreases bb,
{
    if bb == 0 {
        lemma_terms_empty(value, piece);
        assert forall|t: int| 0 <= t < 64 implies #[trigger] square_terms(value, piece, bb)(t) == (|t: int| 0int)(t) by {
            lemma_bit_zero(t as u64);
        }
        lemma_sum_ext(square_terms(value, piece, bb), |t: int| 0int, 64);
        assert(sum_to(|t: int| 0int, 64) == 0) by {
            reveal_with_fuel(sum_to, 65);
        }
    } else {
        let sq = vstd::std_specs::bits::u64_trailing_zeros(bb) as u64;
        vstd::std_specs::bits::axiom_u64_trailing_zeros(bb);
        lemma_pop_smaller(bb, sq);
        let rest = bb ^ (1u64 << sq);
        lemma_terms_step(value, piece, bb, sq);
        lemma_seq_sum_prepend(value(piece, sq), bb_terms(value, piece, rest));
        lemma_terms_sum(value, piece, rest);
        assert forall|t: int| 0 <= t < 64 && t != sq implies #[trigger] square_terms(value, piece, bb)(t)
            == square_terms(value, piece, rest)(t) by {
            lemma_bit_xor(bb, 1u64 << sq, t as u64);
            lemma_bit_single(sq, t as u64);
        }
        lemma_bit_xor(bb, 1u64 << sq, sq);
        lemma_bit_single(sq, sq);
        assert(bit_set(bb, sq));
        lemma_sum_point(square_terms(value, piece, bb), square_terms(value, piece, rest), 64, sq as int);
    }
}

/// The total of one side, piece type by piece type.
pub proof fn lemma_side_total_sums(bbs: [u64; 6], value: spec_fn(int, u64) -> int)
    ensures
        side_total(bbs, value) == sum_to(square_terms(value, 0, bbs[0]), 64) + sum_to(square_terms(value, 1, bbs[1]), 64)
            + sum_to(square_terms(value, 2, bbs[2]), 64) + sum_to(square_terms(value, 3, bbs[3]), 64)
            + sum_to(square_terms(value, 4, bbs[4]), 64) + sum_to(square_terms(value, 5, bbs[5]), 64),
{
    assert(side_terms(bbs, value, 6) =~= Seq::<int>::empty());
    assert forall|q: int| 0 <= q < 6 implies seq_sum(#[trigger] side_terms(bbs, value, q)) == seq_sum(
        bb_terms(value, q, bbs[q]),
    ) + seq_sum(side_terms(bbs, value, q + 1)) by {
        lemma_side_terms_unfold(bbs, value, q);
        lemma_seq_sum_concat(bb_terms(value, q, bbs[q]), side_terms(bbs, value, q + 1));
    }
    assert(seq_sum(side_terms(bbs, value, 6)) == 0);
    lemma_terms_sum(value, 0, bbs[0]);
    lemma_terms_sum(value, 1, bbs[1]);
    lemma_terms_sum(value, 2, bbs[2]);
    lemma_terms_sum(value, 3, bbs[3]);
    lemma_terms_sum(value, 4, bbs[4]);
    lemma_terms_sum(value, 5, bbs[5]);
    assert(seq_sum(side_terms(bbs, value, 5)) == seq_sum(bb_terms(value, 5, bbs[5])) + 0);
    assert(seq_sum(side_terms(bbs, value, 4)) == seq_sum(bb_terms(value, 4, bbs[4])) + seq_sum(side_terms(bbs, value, 5)));
    assert(seq_sum(side_terms(bbs, value, 3)) == seq_sum(bb_terms(value, 3, bbs[3])) + seq_sum(side_terms(bbs, value, 4)));
    assert(seq_sum(side_terms(bbs, value, 2)) == seq_sum(bb_terms(value, 2, bbs[2])) + seq_sum(side_terms(bbs, value, 3)));
    assert(seq_sum(side_terms(bbs, value, 1)) == seq_sum(bb_terms(value, 1, bbs[1])) + seq_sum(side_terms(bbs, value, 2)));
    assert(seq_sum(side_terms(bbs, value, 0)) == seq_sum(bb_terms(value, 0, bbs[0])) + seq_sum(side_terms(bbs, value, 1)));
}

/// Mirroring the pieces of one type (rank 1 to rank 8) with values that
/// mirror along keeps their sum.
pub proof fn lemma_mirror_terms(
    v2: spec_fn(int, u64) -> int,
    v1: spec_fn(int, u64) -> int,
    p: int,
    bb2: u64,
    bb1: u64,
)
    requires
        forall|t: u64| t < 64 ==> bit_set(bb2, t) == bit_set(bb1, crate::evaluation::defs::FLIP[t as int] as u64),
        forall|t: u64| t < 64 ==> v2(p, t) == v1(p, crate::evaluation::defs::FLIP[t as int] as u64),
    ensures
        sum_to(square_terms(v2, p, bb2), 64) == sum_to(square_terms(v1, p, bb1), 64),
{
    let g = square_terms(v1, p, bb1);
    assert forall|t: int| 0 <= t < 64 implies #[trigger] square_terms(v2, p, bb2)(t) == (|t: int| g(
        crate::evaluation::defs::FLIP[t] as int,
    ))(t) by {
        lemma_flip_twice(t);
        assert(bit_set(bb2, t as u64) == bit_set(bb1, crate::evaluation::defs::FLIP[t] as u64));
        assert(v2(p, t as u64) == v1(p, crate::evaluation::defs::FLIP[t] as u64));
    }
    lemma_sum_ext(square_terms(v2, p, bb2), |t: int| g(crate::evaluation::defs::FLIP[t] as int), 64);
    lemma_flip_sum(g);
}

} // verus!
