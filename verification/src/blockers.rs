//! Enumerating all create_blocker_boards of a slider mask (the "blocker boards").
use vstd::prelude::*;
use vstd::relations::injective_on;

verus! {

/// `b` only holds squares of `mask`.
pub open spec fn is_subset(b: u64, mask: u64) -> bool {
    b & !mask == 0
}

/// The Carry-Rippler step: `(n - d) & d` is the next subset of `d` after `n`.
proof fn lemma_carry_rippler(n: u64, d: u64, m: u64)
    by (bit_vector)
    requires
        n & !d == 0,
        m & !d == 0,
    ensures
        ((n - d) as u64 & d) & !d == 0,
        n <= d,
        n == d ==> (n - d) as u64 & d == 0,
        n != d ==> (n - d) as u64 & d > n,
        n < m ==> (n - d) as u64 & d <= m,
{
}

proof fn lemma_wrapping_sub(n: u64, d: u64)
    ensures
        vstd::wrapping::u64_specs::wrapping_sub(n, d) == (n - d) as u64,
{
    assert((if n - d < 0 { (n - d + 0x1_0000_0000_0000_0000) as u64 } else { (n - d) as u64 }) == (n
        - d) as u64) by (bit_vector);
}

/// `boards` is the list of all create_blocker_boards of `mask`, in increasing order.
pub open spec fn all_subsets_sorted(boards: Seq<u64>, mask: u64) -> bool {
    &&& forall|i: int, j: int| 0 <= i < j < boards.len() ==> boards[i] < boards[j]
    &&& forall|i: int| 0 <= i < boards.len() ==> is_subset(#[trigger] boards[i], mask)
    &&& forall|b: u64| is_subset(b, mask) ==> boards.contains(b)
}

/// The number of blocker boards of a mask: the subsets of its squares.
pub open spec fn subset_count(mask: u64) -> nat {
    Set::new(|b: u64| is_subset(b, mask)).len()
}

/// 2 to the power `k`.
pub open spec fn two_to(k: nat) -> nat
    decreases k,
{
    if k == 0 {
        1
    } else {
        2 * two_to((k - 1) as nat)
    }
}

/// How subsets of `x` and of `x` shifted down by one relate.
proof fn lemma_subset_halves(x: u64, b: u64, c: u64)
    by (bit_vector)
    ensures
        x / 2 == x >> 1u64,
        x % 2 == x & 1u64,
        b & !x == 0 ==> (b >> 1u64) & !(x >> 1u64) == 0,
        b & !x == 0 && x & 1u64 == 0 ==> b == (b >> 1u64) << 1u64,
        b & 1u64 == 0 ==> b == (b >> 1u64) << 1u64,
        b & 1u64 == 1 ==> b == ((b >> 1u64) << 1u64) | 1u64,
        c & !(x >> 1u64) == 0 ==> (c << 1u64) & !x == 0,
        c & !(x >> 1u64) == 0 && x & 1u64 == 1 ==> ((c << 1u64) | 1u64) & !x == 0,
        c & !(x >> 1u64) == 0 ==> (c << 1u64) >> 1u64 == c,
        ((c << 1u64) | 1u64) >> 1u64 == c << 1u64 >> 1u64,
        (c << 1u64) & 1u64 == 0,
        ((c << 1u64) | 1u64) & 1u64 == 1,
        b & !0u64 == 0 <==> b == 0,
        b & 1u64 == 0 || b & 1u64 == 1,
{
}

/// A mask with `k` squares has 2^k subsets.
pub proof fn lemma_subset_count(x: u64)
    ensures
        Set::new(|b: u64| is_subset(b, x)).finite(),
        subset_count(x) == two_to(crate::bitboard::pop_count(x)),
    decreases x,
{
    let sx = Set::new(|b: u64| is_subset(b, x));
    if x == 0 {
        assert forall|b: u64| #[trigger] sx.contains(b) <==> b == 0 by {
            lemma_subset_halves(x, b, 0);
        }
        assert(sx =~= set![0u64]);
        assert(set![0u64].len() == 1) by {
            assert(set![0u64] =~= Set::<u64>::empty().insert(0u64));
        }
    } else {
        let y = x / 2;
        lemma_subset_halves(x, 0, 0);
        lemma_subset_count(y);
        let sy = Set::new(|c: u64| is_subset(c, y));
        let evens = sy.map(|c: u64| c << 1u64);
        let odds = sy.map(|c: u64| (c << 1u64) | 1u64);
        assert(injective_on(|c: u64| c << 1u64, sy)) by {
            assert forall|c1: u64, c2: u64|
                sy.contains(c1) && sy.contains(c2) && #[trigger] (c1 << 1u64) == #[trigger] (c2 << 1u64) implies c1 == c2 by {
                lemma_subset_halves(x, 0, c1);
                lemma_subset_halves(x, 0, c2);
            }
        }
        assert(injective_on(|c: u64| (c << 1u64) | 1u64, sy)) by {
            assert forall|c1: u64, c2: u64|
                sy.contains(c1) && sy.contains(c2) && #[trigger] ((c1 << 1u64) | 1u64) == #[trigger] ((c2 << 1u64)
                    | 1u64) implies c1 == c2 by {
                lemma_subset_halves(x, 0, c1);
                lemma_subset_halves(x, 0, c2);
            }
        }
        vstd::set_lib::lemma_map_size(sy, evens, |c: u64| c << 1u64);
        vstd::set_lib::lemma_map_size(sy, odds, |c: u64| (c << 1u64) | 1u64);
        if x & 1u64 == 0 {
            assert forall|b: u64| #[trigger] sx.contains(b) <==> evens.contains(b) by {
                lemma_subset_halves(x, b, b >> 1u64);
                if sx.contains(b) {
                    assert(sy.contains(b >> 1u64));
                }
                if evens.contains(b) {
                    let c = choose|c: u64| sy.contains(c) && b == c << 1u64;
                    lemma_subset_halves(x, b, c);
                }
            }
            assert(sx =~= evens);
        } else {
            assert forall|b: u64| #[trigger] sx.contains(b) <==> (evens + odds).contains(b) by {
                lemma_subset_halves(x, b, b >> 1u64);
                if sx.contains(b) {
                    assert(sy.contains(b >> 1u64));
                    if b & 1u64 == 0 {
                        assert(evens.contains(b));
                    } else {
                        assert(b == ((b >> 1u64) << 1u64) | 1u64);
                        assert(odds.contains(b));
                    }
                }
                if evens.contains(b) {
                    let c = choose|c: u64| sy.contains(c) && b == c << 1u64;
                    lemma_subset_halves(x, b, c);
                }
                if odds.contains(b) {
                    let c = choose|c: u64| sy.contains(c) && b == (c << 1u64) | 1u64;
                    lemma_subset_halves(x, b, c);
                }
            }
            assert(evens.disjoint(odds)) by {
                assert forall|b: u64| evens.contains(b) implies !odds.contains(b) by {
                    let c = choose|c: u64| sy.contains(c) && b == c << 1u64;
                    lemma_subset_halves(x, b, c);
                    if odds.contains(b) {
                        let d = choose|d: u64| sy.contains(d) && b == (d << 1u64) | 1u64;
                        lemma_subset_halves(x, b, d);
                    }
                }
            }
            vstd::set_lib::lemma_set_disjoint_lens(evens, odds);
            assert(sx =~= evens + odds);
        }
    }
}

/// A sorted list of all subsets of a mask holds `subset_count(mask)`
/// boards: 2 to the power of the number of squares in the mask.
pub proof fn lemma_subsets_count(boards: Seq<u64>, mask: u64)
    requires
        all_subsets_sorted(boards, mask),
    ensures
        boards.len() == subset_count(mask),
        boards.len() == two_to(crate::bitboard::pop_count(mask)),
{
    lemma_subset_count(mask);
    assert(boards.no_duplicates()) by {
        assert forall|i: int, j: int|
            0 <= i < boards.len() && 0 <= j < boards.len() && i != j implies boards[i] != boards[j] by {
            if i < j {
                assert(boards[i] < boards[j]);
            } else {
                assert(boards[j] < boards[i]);
            }
        }
    }
    boards.unique_seq_to_set();
    assert(boards.to_set() =~= Set::new(|b: u64| is_subset(b, mask)));
}

/// Generates all blocker boards (create_blocker_boards) of a slider mask with the
/// Carry-Rippler method: the list starts with the empty board and holds
/// every subset of `mask` exactly once, in increasing order.
pub fn create_blocker_boards(mask: u64) -> (boards: Vec<u64>)
    ensures
        all_subsets_sorted(boards@, mask),
        boards@.len() >= 1,
        boards@[0] == 0,
{
    let d: u64 = mask;
    let mut boards: Vec<u64> = Vec::new();
    let mut n: u64 = 0;
    proof {
        assert(0u64 & !d == 0) by (bit_vector);
    }
    loop
        invariant_except_break
            forall|i: int| 0 <= i < boards@.len() ==> #[trigger] boards@[i] < n,
        invariant
            d == mask,
            is_subset(n, d),
            boards@.len() == 0 ==> n == 0,
            forall|i: int, j: int| 0 <= i < j < boards@.len() ==> boards@[i] < boards@[j],
            forall|i: int| 0 <= i < boards@.len() ==> is_subset(#[trigger] boards@[i], d),
            forall|b: u64| is_subset(b, d) && b < n ==> boards@.contains(b),
            boards@.len() >= 1 ==> boards@[0] == 0,
        ensures
            all_subsets_sorted(boards@, mask),
            boards@.len() >= 1,
            boards@[0] == 0,
        decreases d - n + (if boards@.len() == 0 { 1int } else { 0int }),
    {
        let ghost prev = boards@;
        boards.push(n);
        let nx = n.wrapping_sub(d) & d;
        proof {
            lemma_wrapping_sub(n, d);
            lemma_carry_rippler(n, d, 0);
            assert forall|b: u64| is_subset(b, d) && b <= n implies boards@.contains(b) by {
                if b < n {
                    assert(prev.contains(b));
                    let k = choose|k: int| 0 <= k < prev.len() && prev[k] == b;
                    assert(boards@[k] == b);
                } else {
                    assert(boards@[boards@.len() - 1] == b);
                }
            }
        }
        if nx == 0 {
            proof {
                assert forall|b: u64| is_subset(b, d) implies boards@.contains(b) by {
                    lemma_carry_rippler(b, d, 0);
                }
            }
            break;
        }
        proof {
            assert forall|b: u64| is_subset(b, d) && b < nx implies boards@.contains(b) by {
                lemma_carry_rippler(n, d, b);
            }
            lemma_carry_rippler(nx, d, 0);
        }
        n = nx;
    }
    boards
}

} // verus!
