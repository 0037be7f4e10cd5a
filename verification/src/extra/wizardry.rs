//! Searching magic numbers for the rook and bishop attack tables by
//! trying random candidates until one indexes every blocker board of a
//! square without collision.
use crate::attacks::{create_bishop_mask, create_rook_mask};
use crate::bitboard::{count_ones, pop_count};
use crate::blockers::{all_subsets_sorted, create_blocker_boards, is_subset, lemma_subsets_count};
use crate::defs::{Piece, BISHOP, ROOK};
use crate::movements::layout::lemma_layout_ok;
use crate::movements::magics::{
    boards_before, entry_ok, indices_distinct, layout_ok, lemma_boards_before_grows, lemma_index_fits,
    lemma_slider_nonzero, slider_mask, square_layout_ok, table_size, lemma_write_keeps, magic_index, mask_ok, square_ok, table_ok,
    Magics, BISHOP_TABLE_SIZE, ROOK_TABLE_SIZE,
};
use crate::sliders::{bishop_attacks, rook_attacks, slider_bb};
use rand_chacha::ChaChaRng;
use vstd::prelude::*;

verus! {

#[verifier::external_type_specification]
#[verifier::external_body]
pub struct ExChaChaRng(rand_chacha::ChaCha20Rng);

/// Calls `SeedableRng::from_rng` for `ChaChaRng` with the operating
/// system's generator `OsRng` as the seed source; the error it returns
/// when the system gives no random bytes comes back as `None`. Nothing is
/// stated of the generator, nor of when the system fails.
#[verifier::external_body]
fn rng_from_os() -> Option<ChaChaRng> {
    <ChaChaRng as rand::SeedableRng>::from_rng(rand::rngs::OsRng).ok()
}

/// Calls `Rng::gen::<u64>` on the generator: a random 64-bit number.
/// Nothing is stated of it.
#[verifier::external_body]
fn random_u64(rng: &mut ChaChaRng) -> u64 {
    rand::Rng::gen::<u64>(rng)
}

/// A magic number found for a square, with where its attack boards lie
/// in the table and how many candidates it took.
#[derive(Copy, Clone)]
pub struct FoundMagic {
    pub square: usize,
    pub magic: Magics,
    pub end: u64,
    pub attempts: u64,
}

/// The magic sends every blocker board to a slot of the square's part of
/// the table (`slots_len` entries from its offset), and no two boards to
/// the same slot.
pub open spec fn magic_fits(magic: Magics, boards: Seq<u64>, slots_len: int) -> bool {
    &&& forall|j: int|
        0 <= j < boards.len() ==> magic.offset <= #[trigger] magic_index(magic, boards[j]) as usize as int
            && magic_index(magic, boards[j]) as usize as int <= magic.offset + slots_len - 1
    &&& forall|a: int, b: int|
        #![trigger magic_index(magic, boards[a]), magic_index(magic, boards[b])]
        0 <= a < b < boards.len() ==> magic_index(magic, boards[a]) as usize != magic_index(
            magic,
            boards[b],
        ) as usize
}

/// Some blocker board among the first `n` goes to slot `k` of the square's
/// part of the table.
pub open spec fn slot_hit(magic: Magics, boards: Seq<u64>, n: int, k: int) -> bool {
    exists|j: int|
        0 <= j < n && #[trigger] magic_index(magic, boards[j]) as usize as int == magic.offset + k
}

/// Tries `candidate` on the blocker boards of one square: fills a slot
/// list of `slots_len` entries (the square's part of the table) with the
/// attack boards at their magic index minus the offset. It succeeds
/// exactly when the magic fits: every board lands in the square's part of
/// the table, each in a slot of its own; the slots no board lands in stay
/// empty.
fn try_magic(
    magic: Magics,
    sq: u64,
    is_rook: bool,
    blocker_boards: &Vec<u64>,
    slots_len: usize,
) -> (r: Option<Vec<u64>>)
    requires
        sq < 64,
        1 <= magic.shift < 64,
        magic.offset < 0x4000_0000_0000_0000,
        mask_ok(magic.mask, sq as int, is_rook),
        all_subsets_sorted(blocker_boards@, magic.mask),
    ensures
        r is Some <==> magic_fits(magic, blocker_boards@, slots_len as int),
        r matches Some(slots) ==> {
            &&& slots@.len() == slots_len
            &&& forall|j: int| 0 <= j < blocker_boards@.len() ==> {
                let idx = #[trigger] magic_index(magic, blocker_boards@[j]) as usize as int;
                &&& magic.offset <= idx < magic.offset + slots_len
                &&& slots@[idx - magic.offset] == slider_bb(blocker_boards@[j], sq as int, is_rook)
            }
            &&& forall|k: int|
                0 <= k < slots_len && !slot_hit(magic, blocker_boards@, blocker_boards@.len() as int, k)
                    ==> #[trigger] slots@[k] == 0
        },
{
    let mut slots: Vec<u64> = Vec::new();
    while slots.len() < slots_len
        invariant
            slots.len() <= slots_len,
            forall|i: int| 0 <= i < slots.len() ==> slots@[i] == 0,
        decreases slots_len - slots.len(),
    {
        slots.push(0);
    }
    let ghost boards = blocker_boards@;
    let mut i: usize = 0;
    while i < blocker_boards.len()
        invariant
            sq < 64,
            boards == blocker_boards@,
            slots@.len() == slots_len,
            1 <= magic.shift < 64,
            magic.offset < 0x4000_0000_0000_0000,
            i <= boards.len(),
            forall|j: int| 0 <= j < i ==> {
                let idx = #[trigger] magic_index(magic, boards[j]) as usize as int;
                &&& magic.offset <= idx < magic.offset + slots_len
                &&& slots@[idx - magic.offset] == slider_bb(boards[j], sq as int, is_rook)
            },
            forall|a: int, b: int|
                #![trigger magic_index(magic, boards[a]), magic_index(magic, boards[b])]
                0 <= a < b < i ==> magic_index(magic, boards[a]) as usize != magic_index(magic, boards[b]) as usize,
            forall|k: int|
                0 <= k < slots_len && !slot_hit(magic, boards, i as int, k) ==> #[trigger] slots@[k] == 0,
        decreases boards.len() - i,
    {
        let b = blocker_boards[i];
        proof {
            lemma_index_fits(magic, b);
        }
        let index = magic.get_index(b);
        if (index as u64) < magic.offset {
            proof {
                assert(!magic_fits(magic, boards, slots_len as int)) by {
                    if magic_fits(magic, boards, slots_len as int) {
                        assert(magic.offset <= magic_index(magic, boards[i as int]) as usize as int);
                    }
                }
            }
            return None;
        }
        let local = ((index as u64) - magic.offset) as usize;
        if local >= slots.len() {
            proof {
                assert(!magic_fits(magic, boards, slots_len as int)) by {
                    if magic_fits(magic, boards, slots_len as int) {
                        assert(magic_index(magic, boards[i as int]) as usize as int <= magic.offset + slots_len - 1);
                    }
                }
            }
            return None;
        }
        if slots[local] != 0 {
            proof {
                assert(slot_hit(magic, boards, i as int, local as int));
                let j = choose|j: int|
                    0 <= j < i && #[trigger] magic_index(magic, boards[j]) as usize as int == magic.offset + local;
                assert(!magic_fits(magic, boards, slots_len as int)) by {
                    if magic_fits(magic, boards, slots_len as int) {
                        assert(magic_index(magic, boards[j]) as usize != magic_index(magic, boards[i as int]) as usize);
                    }
                }
            }
            return None;
        }
        let attacks = if is_rook { rook_attacks(b, sq) } else { bishop_attacks(b, sq) };
        let ghost before = slots@;
        slots.set(local, attacks);
        proof {
            assert forall|j: int| 0 <= j < i + 1 implies {
                let idx = #[trigger] magic_index(magic, boards[j]) as usize as int;
                &&& magic.offset <= idx < magic.offset + slots_len
                &&& slots@[idx - magic.offset] == slider_bb(boards[j], sq as int, is_rook)
            } by {
                if j < i {
                    lemma_slider_nonzero(boards[j], sq as int, is_rook);
                }
            }
            assert forall|a: int, c: int|
                #![trigger magic_index(magic, boards[a]), magic_index(magic, boards[c])]
                0 <= a < c < i + 1 implies magic_index(magic, boards[a]) as usize != magic_index(magic, boards[c]) as usize by {
                if c == i {
                    lemma_slider_nonzero(boards[a], sq as int, is_rook);
                    assert(before[magic_index(magic, boards[a]) as usize as int - magic.offset] != 0);
                }
            }
            assert forall|k: int|
                0 <= k < slots_len && !slot_hit(magic, boards, i + 1, k) implies #[trigger] slots@[k] == 0 by {
                if k == local {
                    assert(magic_index(magic, boards[i as int]) as usize as int == magic.offset + k);
                }
                if slot_hit(magic, boards, i as int, k) {
                    let j = choose|j: int|
                        0 <= j < i && #[trigger] magic_index(magic, boards[j]) as usize as int == magic.offset + k;
                    assert(0 <= j < i + 1);
                }
            }
        }
        i += 1;
    }
    Some(slots)
}

/// Why no magics were found.
#[derive(Copy, Clone, PartialEq, Eq, Debug)]
pub enum MagicsError {
    /// The operating system gave no random bytes to seed the generator.
    NoEntropy,
    /// No candidate worked for this square (the first field) after the
    /// number of attempts in the second field, all that the count allows.
    OutOfCandidates(usize, u64),
}

/// The magic found for square `s`: its mask, a shift of 64 less the
/// number of squares in the mask, its part of the table right after the
/// parts of the squares before it, and no two blocker boards on one index.
pub open spec fn found_ok(f: FoundMagic, s: int, is_rook: bool) -> bool {
    &&& f.square == s
    &&& f.magic.mask == slider_mask(s, is_rook)
    &&& f.magic.shift == 64 - pop_count(f.magic.mask)
    &&& f.magic.offset == boards_before(s, is_rook)
    &&& f.end == boards_before(s + 1, is_rook) - 1
    &&& indices_distinct(f.magic)
}

/// A magic that fits the sorted list of all blocker boards of its mask
/// gives distinct boards distinct indices.
proof fn lemma_fits_distinct(m: Magics, boards: Seq<u64>, len: int)
    requires
        magic_fits(m, boards, len),
        all_subsets_sorted(boards, m.mask),
    ensures
        indices_distinct(m),
{
    assert forall|b1: u64, b2: u64|
        #![trigger magic_index(m, b1), magic_index(m, b2)]
        is_subset(b1, m.mask) && is_subset(b2, m.mask) && b1 != b2 implies magic_index(m, b1) as usize
            != magic_index(m, b2) as usize by {
        assert(boards.contains(b1));
        assert(boards.contains(b2));
        let i = choose|i: int| 0 <= i < boards.len() && boards[i] == b1;
        let j = choose|j: int| 0 <= j < boards.len() && boards[j] == b2;
        if i < j {
            assert(magic_index(m, boards[i]) as usize != magic_index(m, boards[j]) as usize);
        } else {
            assert(magic_index(m, boards[j]) as usize != magic_index(m, boards[i]) as usize);
        }
    }
}

/// Searches magic numbers for the rook (`piece == ROOK`) or the bishop,
/// square by square: random candidates (each the and of three random
/// numbers) are tried until one indexes all blocker boards of the square
/// without collision. Returns the attack table and the magics found. It
/// fails only when the system gives no random bytes or when a square runs
/// out of candidates; the masks always lay out the table.
#[verifier::rlimit(50)]
#[verifier::spinoff_prover]
pub fn find_magics(piece: Piece) -> (r: Result<(Vec<u64>, Vec<FoundMagic>), MagicsError>)
    requires
        piece == ROOK || piece == BISHOP,
    ensures
        r matches Ok((table, found)) ==> {
            &&& layout_ok(piece == ROOK)
            &&& found@.len() == 64
            &&& table@.len() == table_size(piece == ROOK)
            &&& table_ok(table@, found@.map_values(|f: FoundMagic| f.magic), piece == ROOK, 64)
            &&& forall|s: int| 0 <= s < 64 ==> found_ok(#[trigger] found@[s], s, piece == ROOK)
        },
        r matches Err(MagicsError::OutOfCandidates(sq, n)) ==> sq < 64 && n == u64::MAX,
{
    let is_rook = piece == ROOK;
    let size = if is_rook { ROOK_TABLE_SIZE } else { BISHOP_TABLE_SIZE };
    let mut table: Vec<u64> = Vec::new();
    while table.len() < size
        invariant
            table.len() <= size,
            forall|i: int| 0 <= i < table.len() ==> table@[i] == 0,
        decreases size - table.len(),
    {
        table.push(0);
    }
    proof {
        lemma_layout_ok(is_rook);
    }
    let mut random = match rng_from_os() {
        Some(rng) => rng,
        None => {
            return Err(MagicsError::NoEntropy);
        },
    };
    let mut found: Vec<FoundMagic> = Vec::new();
    let mut offset: u64 = 0;
    let mut sq: u64 = 0;
    while sq < 64
        invariant
            is_rook == (piece == ROOK),
            sq <= 64,
            found@.len() == sq,
            forall|s: int| 0 <= s < sq ==> found_ok(#[trigger] found@[s], s, is_rook),
            layout_ok(is_rook),
            table_ok(table@, found@.map_values(|f: FoundMagic| f.magic), is_rook, sq as int),
            offset == boards_before(sq as int, is_rook),
            offset <= table.len(),
            forall|k: int| offset <= k < table.len() ==> table@[k] == 0,
            table.len() == size,
            size == table_size(is_rook),
            size <= ROOK_TABLE_SIZE,
        decreases 64 - sq,
    {
        let mask = if is_rook { create_rook_mask(sq as u8) } else { create_bishop_mask(sq as u8) };
        let bits = count_ones(mask);
        proof {
            assert(square_layout_ok(sq as int, is_rook));
        }
        let blocker_boards = create_blocker_boards(mask);
        let permutations = blocker_boards.len() as u64;
        proof {
            lemma_subsets_count(blocker_boards@, mask);
        }
        proof {
            lemma_boards_before_grows(sq as int + 1, 64, is_rook);
        }
        let end = offset + permutations - 1;
        let mut attempts: u64 = 0;
        let mut result: Option<(Magics, Vec<u64>)> = None;
        while result.is_none()
            invariant
                is_rook == (piece == ROOK),
                sq < 64,
                1 <= bits < 64,
                offset + permutations <= size,
                size <= ROOK_TABLE_SIZE,
                mask_ok(mask, sq as int, is_rook),
                all_subsets_sorted(blocker_boards@, mask),
                permutations == blocker_boards@.len(),
                result matches Some((m, slots)) ==> {
                    &&& m.mask == mask
                    &&& m.offset == offset
                    &&& m.shift == 64 - bits
                    &&& magic_fits(m, blocker_boards@, permutations as int)
                    &&& 1 <= m.shift < 64
                    &&& slots@.len() == permutations
                    &&& forall|j: int| 0 <= j < blocker_boards@.len() ==> {
                        let idx = #[trigger] magic_index(m, blocker_boards@[j]) as usize as int;
                        &&& offset <= idx < offset + permutations
                        &&& slots@[idx - offset] == slider_bb(blocker_boards@[j], sq as int, is_rook)
                    }
                },
            decreases u64::MAX - attempts, if result is None { 1int } else { 0int },
        {
            if attempts == u64::MAX {
                return Err(MagicsError::OutOfCandidates(sq as usize, attempts));
            }
            attempts += 1;
            let nr = random_u64(&mut random) & random_u64(&mut random) & random_u64(&mut random);
            let candidate = Magics { mask, shift: (64 - bits) as u8, offset, magic: nr };
            match try_magic(candidate, sq, is_rook, &blocker_boards, permutations as usize) {
                Some(slots) => {
                    result = Some((candidate, slots));
                },
                None => {},
            }
        }
        let (magic, slots) = match result {
            Some(x) => x,
            None => {
                return Err(MagicsError::OutOfCandidates(sq as usize, attempts));
            },
        };
        let ghost done = found@.map_values(|f: FoundMagic| f.magic);
        let mut k: usize = 0;
        while k < slots.len()
            invariant
                0 <= k <= slots@.len(),
                slots@.len() == permutations,
                offset + permutations <= table@.len(),
                table.len() == size,
                sq < 64,
                done.len() == sq,
                table_ok(table@, done, is_rook, sq as int),
                forall|q: int| offset + k <= q < table.len() ==> table@[q] == 0,
                forall|q: int| offset <= q < offset + k ==> table@[q] == slots@[q - offset],
            decreases slots@.len() - k,
        {
            let pos = (offset as usize) + k;
            let ghost old_table = table@;
            if slots[k] != 0 {
                table.set(pos, slots[k]);
                proof {
                    lemma_write_keeps(old_table, done, is_rook, sq as int, pos as int, slots@[k as int]);
                }
            }
            k += 1;
        }
        let entry = FoundMagic { square: sq as usize, magic, end, attempts };
        let ghost before = found@;
        found.push(entry);
        proof {
            lemma_fits_distinct(magic, blocker_boards@, permutations as int);
            assert(found_ok(entry, sq as int, is_rook));
            assert forall|s: int| 0 <= s < sq + 1 implies found_ok(#[trigger] found@[s], s, is_rook) by {
                if s < sq {
                    assert(found@[s] == before[s]);
                }
            }
            let ms = found@.map_values(|f: FoundMagic| f.magic);
            assert(ms =~= done.push(magic));
            assert forall|s: int| 0 <= s < sq + 1 implies #[trigger] square_ok(table@, ms, s, is_rook) by {
                if s < sq {
                    assert(square_ok(table@, done, s, is_rook));
                    assert(ms[s] == done[s]);
                } else {
                    assert(ms[s] == magic);
                    assert forall|b: u64| is_subset(b, ms[s].mask) implies #[trigger] entry_ok(table@, ms[s], s, is_rook, b) by {
                        assert(blocker_boards@.contains(b));
                        let j = choose|j: int| 0 <= j < blocker_boards@.len() && blocker_boards@[j] == b;
                        let idx = magic_index(magic, blocker_boards@[j]) as usize as int;
                        assert(offset <= idx < offset + permutations);
                    }
                }
            }
        }
        offset = offset + permutations;
        sq = sq + 1;
    }
    Ok((table, found))
}

} // verus!
