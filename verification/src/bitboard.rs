//! Bit-level facts about bitboards, and the geometry of the board.
use vstd::prelude::*;

verus! {

/// Bit `i` of `bb` is set.
pub open spec fn bit_set(bb: u64, i: u64) -> bool {
    (bb >> i) & 1u64 == 1u64
}

pub proof fn lemma_bit_or(a: u64, b: u64, i: u64)
    requires
        i < 64,
    ensures
        bit_set(a | b, i) == (bit_set(a, i) || bit_set(b, i)),
{
    assert(i < 64 ==> (((a | b) >> i) & 1u64 == 1u64) == (((a >> i) & 1u64 == 1u64) || ((b
        >> i) & 1u64 == 1u64))) by (bit_vector);
}

pub proof fn lemma_bit_and(a: u64, b: u64, i: u64)
    requires
        i < 64,
    ensures
        bit_set(a & b, i) == (bit_set(a, i) && bit_set(b, i)),
{
    assert(i < 64 ==> (((a & b) >> i) & 1u64 == 1u64) == (((a >> i) & 1u64 == 1u64) && ((b
        >> i) & 1u64 == 1u64))) by (bit_vector);
}

pub proof fn lemma_bit_xor(a: u64, b: u64, i: u64)
    requires
        i < 64,
    ensures
        bit_set(a ^ b, i) == (bit_set(a, i) != bit_set(b, i)),
{
    assert(i < 64 ==> (((a ^ b) >> i) & 1u64 == 1u64) == (((a >> i) & 1u64 == 1u64) != ((b
        >> i) & 1u64 == 1u64))) by (bit_vector);
}

pub proof fn lemma_bit_not(a: u64, i: u64)
    requires
        i < 64,
    ensures
        bit_set(!a, i) == !bit_set(a, i),
{
    assert(i < 64 ==> (((!a) >> i) & 1u64 == 1u64) == !((a >> i) & 1u64 == 1u64))
        by (bit_vector);
}

pub proof fn lemma_bit_zero(i: u64)
    ensures
        !bit_set(0u64, i),
{
    assert((0u64 >> i) & 1u64 == 0u64) by (bit_vector);
}

pub proof fn lemma_bit_single(s: u64, i: u64)
    requires
        s < 64,
        i < 64,
    ensures
        bit_set(1u64 << s, i) == (s == i),
{
    assert(s < 64 && i < 64 ==> ((((1u64 << s) >> i) & 1u64 == 1u64) == (s == i)))
        by (bit_vector);
}

pub proof fn lemma_bit_shl(x: u64, k: u64, i: u64)
    requires
        k < 64,
        i < 64,
    ensures
        bit_set(x << k, i) == (i >= k && bit_set(x, (i - k) as u64)),
{
    assert(k < 64 && i < 64 ==> ((((x << k) >> i) & 1u64 == 1u64) == (i >= k && ((x >> ((i
        - k) as u64)) & 1u64 == 1u64)))) by (bit_vector);
}

pub proof fn lemma_bit_shr(x: u64, k: u64, i: u64)
    requires
        k < 64,
        i < 64,
    ensures
        bit_set(x >> k, i) == (i + k < 64 && bit_set(x, (i + k) as u64)),
{
    assert(k < 64 && i < 64 ==> ((((x >> k) >> i) & 1u64 == 1u64) == (i + k < 64 && ((x >> ((i
        + k) as u64)) & 1u64 == 1u64)))) by (bit_vector);
}

/// Two bitboards with the same bits are equal.
pub proof fn lemma_bits_equal(a: u64, b: u64)
    requires
        forall|i: u64| i < 64 ==> bit_set(a, i) == bit_set(b, i),
    ensures
        a == b,
{
    if a != b {
        let c = a ^ b;
        assert(a != b ==> a ^ b != 0) by (bit_vector);
        vstd::std_specs::bits::axiom_u64_trailing_zeros(c);
        let t = vstd::std_specs::bits::u64_trailing_zeros(c) as u64;
        lemma_bit_xor(a, b, t);
        assert(bit_set(a, t) == bit_set(b, t));
    }
}

/// `(1 << s) & x` is non-zero exactly when bit `s` of `x` is set.
pub proof fn lemma_single_and_nonzero(s: u64, x: u64)
    requires
        s < 64,
    ensures
        (((1u64 << s) & x) > 0) == bit_set(x, s),
        (((1u64 << s) & x) != 0) == bit_set(x, s),
{
    assert(s < 64 ==> (((1u64 << s) & x) > 0) == ((x >> s) & 1u64 == 1u64)) by (bit_vector);
    assert(s < 64 ==> (((1u64 << s) & x) != 0) == ((x >> s) & 1u64 == 1u64)) by (bit_vector);
}

/// A bitboard is non-zero exactly when one of its bits is set.
pub proof fn lemma_nonzero_has_bit(a: u64)
    ensures
        a != 0 <==> exists|i: u64| i < 64 && bit_set(a, i),
{
    if a != 0 {
        vstd::std_specs::bits::axiom_u64_trailing_zeros(a);
        let t = vstd::std_specs::bits::u64_trailing_zeros(a) as u64;
        assert(bit_set(a, t));
    } else {
        assert forall|i: u64| i < 64 implies !bit_set(a, i) by {
            lemma_bit_zero(i);
        }
    }
}

/// Bitboards `a` and `b` share a square.
pub open spec fn hits(a: u64, b: u64) -> bool {
    exists|t: u64| t < 64 && bit_set(a, t) && bit_set(b, t)
}

/// `a & b` is positive exactly when `a` and `b` share a square.
pub proof fn lemma_and_positive(a: u64, b: u64)
    ensures
        ((a & b) > 0) == hits(a, b),
        ((a & b) != 0) == hits(a, b),
{
    lemma_nonzero_has_bit(a & b);
    if a & b != 0 {
        let t = choose|i: u64| i < 64 && bit_set(a & b, i);
        lemma_bit_and(a, b, t);
    }
    if hits(a, b) {
        let t = choose|i: u64| i < 64 && bit_set(a, i) && bit_set(b, i);
        lemma_bit_and(a, b, t);
    }
}

/// Removing a set bit makes a bitboard smaller.
pub proof fn lemma_pop_smaller(x: u64, s: u64)
    by (bit_vector)
    requires
        s < 64,
        (x >> s) & 1u64 == 1u64,
    ensures
        x ^ (1u64 << s) < x,
{
}

/// The set bits of `bb`, lowest first.
pub open spec fn bits_seq(bb: u64) -> Seq<u64>
    decreases bb,
{
    if bb == 0 {
        Seq::empty()
    } else {
        let s = vstd::std_specs::bits::u64_trailing_zeros(bb) as u64;
        proof {
            vstd::std_specs::bits::axiom_u64_trailing_zeros(bb);
            lemma_pop_smaller(bb, s);
        }
        seq![s] + bits_seq(bb ^ (1u64 << s))
    }
}

/// The number of set bits of `x`.
pub open spec fn pop_count(x: u64) -> nat
    decreases x,
{
    if x == 0 {
        0
    } else {
        (x % 2) as nat + pop_count(x / 2)
    }
}

/// The number of set bits among the lowest `n` bits of `x`.
pub open spec fn low_bits(x: u64, n: nat) -> nat
    decreases n,
{
    if n == 0 {
        0
    } else {
        (x & 1u64) as nat + low_bits(x >> 1u64, (n - 1) as nat)
    }
}

proof fn lemma_halve(x: u64)
    by (bit_vector)
    ensures
        x % 2 == x & 1u64,
        x / 2 == x >> 1u64,
{
}

/// Counting the set bits from the bottom, the lowest `n` of them hold them
/// all when `x` is below 2^n.
pub proof fn lemma_pop_count_low_bits(x: u64, n: nat)
    requires
        x < vstd::arithmetic::power2::pow2(n),
    ensures
        pop_count(x) == low_bits(x, n),
    decreases n,
{
    lemma_halve(x);
    if n == 0 {
        vstd::arithmetic::power2::lemma2_to64();
    } else {
        vstd::arithmetic::power2::lemma_pow2_unfold(n);
        lemma_pop_count_low_bits(x >> 1u64, (n - 1) as nat);
    }
}

/// A number below 2^k has at most k set bits.
proof fn lemma_pop_count_bound(x: u64, k: nat)
    requires
        x < vstd::arithmetic::power2::pow2(k),
    ensures
        pop_count(x) <= k,
    decreases k,
{
    if k > 0 && x > 0 {
        vstd::arithmetic::power2::lemma_pow2_unfold(k);
        lemma_pop_count_bound(x / 2, (k - 1) as nat);
    } else if x > 0 {
        vstd::arithmetic::power2::lemma2_to64();
    }
}

/// The number of set bits of `x`.
pub(crate) fn count_ones(x: u64) -> (n: u32)
    ensures
        n == pop_count(x),
        n <= 64,
{
    proof {
        vstd::arithmetic::power2::lemma2_to64();
        lemma_pop_count_bound(x, 64);
    }
    let mut rest = x;
    let mut n: u32 = 0;
    while rest != 0
        invariant
            n + pop_count(rest) == pop_count(x),
            pop_count(x) <= 64,
        decreases rest,
    {
        n = n + (rest % 2) as u32;
        rest = rest / 2;
    }
    n
}

/// Rotates the bits of `x` left by `n` (modulo 64): the bits that fall off
/// at the top come back at the bottom.
pub(crate) fn rotate_left(x: u64, n: u32) -> (r: u64)
    ensures
        r == (x << ((n % 64) as u64)) | (x >> (((64 - n % 64) % 64) as u64)),
{
    let k = (n % 64) as u64;
    if k == 0 {
        proof {
            assert((x << 0u64) | (x >> 0u64) == x) by (bit_vector);
        }
        x
    } else {
        (x << k) | (x >> (64 - k))
    }
}

} // verus!
