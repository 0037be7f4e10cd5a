//! Magic numbers and magic indexing of the slider attack tables.
use crate::attacks::{bishop_mask_target, bishop_mask_value, create_bishop_mask, create_rook_mask, rook_mask_target, rook_mask_value};
use crate::bitboard::{bit_set, count_ones, pop_count};
use crate::blockers::{is_subset, create_blocker_boards, lemma_subsets_count, two_to};
use crate::movements::fit::lemma_constants_fit;
use crate::movements::layout::lemma_layout_ok;
use crate::sliders::{bishop_attacks, lemma_bishop_masked, lemma_bishop_nonzero, lemma_rook_masked, lemma_rook_nonzero, rook_attacks, slider_bb};
use vstd::prelude::*;

verus! {

/// Rook magic numbers, one per square. Changing them breaks the attack tables.
pub const ROOK_MAGICS: [u64; 64] = [
    324259448050975248u64, 162139001189302336u64, 4647750006529359880u64, 144121785691422736u64,
    16176938657641660544u64, 9367489423970945072u64, 36051338366288384u64, 36029147746665088u64,
    3518447965192208u64, 4614078830617822340u64, 9241949523864129664u64, 11540615780106252u64,
    730287067600519297u64, 144819425575437312u64, 1225261127674627584u64, 40814017656160512u64,
    594475700577118276u64, 283675082228259u64, 148058037853261952u64, 14411662294658320384u64,
    2394186703782912u64, 1157847866488718336u64, 2306407062973841412u64, 4576167411597460u64,
    2323857959626489888u64, 18860477004136448u64, 621497027752297522u64, 3027553647748714496u64,
    9241953785514295424u64, 1970363492082688u64, 1729664285938024960u64, 4836870457972064321u64,
    141012374650913u64, 4652253601601699840u64, 58687601506263040u64, 281543780081672u64,
    1157433900411130112u64, 81628378934806544u64, 2310366730829959192u64, 2900476768907429780u64,
    36558770110480u64, 9042384969023488u64, 180425597514743824u64, 5487636764434923528u64,
    5766860422494879764u64, 9224498487624761348u64, 41702298761822218u64, 45599234000551940u64,
    70370891935872u64, 19210671497487104u64, 387030266675328u64, 289215847808893056u64,
    576469550545240192u64, 1153216449143113729u64, 9350715278336u64, 288521763922764288u64,
    282782794268833u64, 595672521157161122u64, 436884352794689609u64, 9241667927690743809u64,
    5188428314494240769u64, 1157988067282792450u64, 1152939243166828548u64, 4611967569673330817u64,
];

/// Bishop magic numbers, one per square. Changing them breaks the attack tables.
pub const BISHOP_MAGICS: [u64; 64] = [
    2310454429704290569u64, 37163502750244928u64, 145330200115150856u64, 573953659699200u64,
    9845999220824211456u64, 574016004032512u64, 10093699283674480640u64, 2306407060834902016u64,
    2883575003184432136u64, 1747410678824308864u64, 9259405249167245312u64, 936784527773139074u64,
    4629702641998381057u64, 201028145628315697u64, 4899992295377881088u64, 4630405483133404688u64,
    153474299838154784u64, 2286992943744036u64, 434597432802681416u64, 865817269052115456u64,
    9156750026475656u64, 599823317909770240u64, 4578375142474880u64, 2308525819264500224u64,
    18596057879421451u64, 18331093560345096u64, 2305880392877736000u64, 56602859688444160u64,
    5382084129205534724u64, 5767422822691897608u64, 283691220206592u64, 144398865845093376u64,
    1163523824685120u64, 20267333288223264u64, 325489801822240u64, 4755836425302245636u64,
    594475563668865152u64, 1162496335329427604u64, 9244765235704371236u64, 576667461564269056u64,
    146371454722771202u64, 426679365288452u64, 13724105480340736u64, 1152922330050364928u64,
    4620737202526097424u64, 1316476062695166464u64, 13981996823661781640u64, 12430506881068303489u64,
    5193780677221351424u64, 426612797737280u64, 37445932288049152u64, 1171147012042137601u64,
    504403227018657856u64, 4629845569785954560u64, 4686013077882208273u64, 1154056209263894528u64,
    613054853085794304u64, 9025075185721408u64, 9571249324951568u64, 10999715432448u64,
    290408795603472u64, 10664524198170591488u64, 5924513492108288u64, 90511840181764112u64,
];

/// Total number of rook blocker boards over all squares.
pub const ROOK_TABLE_SIZE: usize = 102_400;
/// Total number of bishop blocker boards over all squares.
pub const BISHOP_TABLE_SIZE: usize = 5_248;

/// The magic data of one square:
/// `mask` is the rook or bishop mask of the square, `shift` is
/// 64 minus the number of bits in the mask, `offset` is where the square's
/// attack boards start in the attack table, and `magic` is the magic number.
#[derive(Copy, Clone)]
pub struct Magics {
    pub mask: u64,
    pub shift: u8,
    pub offset: u64,
    pub magic: u64,
}

/// The attack table index a magic gives for an occupancy:
/// ((occupancy & mask) * magic mod 2^64) / 2^shift + offset.
pub open spec fn magic_index(m: Magics, occupancy: u64) -> int {
    (vstd::wrapping::u64_specs::wrapping_mul(occupancy & m.mask, m.magic) as nat / vstd::arithmetic::power2::pow2(m.shift as nat)) + m.offset
}

impl Magics {
    /// Computes the index of the attack board for `occupancy` in the
    /// attack table (a perfect hash of the blocker boards of the square).
    /// The index must fit in 64 bits.
    pub fn get_index(&self, occupancy: u64) -> (index: usize)
        requires
            self.shift < 64,
            magic_index(*self, occupancy) <= u64::MAX,
        ensures
            index as int == magic_index(*self, occupancy) as usize as int,
    {
        let blockerboard = occupancy & self.mask;
        let product = blockerboard.wrapping_mul(self.magic);
        let shift = self.shift;
        proof {
            vstd::bits::lemma_u64_shr_is_div(product, shift as u64);
        }
        ((product >> shift) + self.offset) as usize
    }
}

/// With a shift of at least 1 and an offset below 2^63, every index fits
/// in 64 bits.
pub proof fn lemma_index_fits(m: Magics, occupancy: u64)
    requires
        1 <= m.shift < 64,
        m.offset < 0x8000_0000_0000_0000,
    ensures
        magic_index(m, occupancy) <= u64::MAX,
{
    let product = vstd::wrapping::u64_specs::wrapping_mul(occupancy & m.mask, m.magic);
    let shift = m.shift as u64;
    vstd::bits::lemma_u64_shr_is_div(product, shift);
    assert(shift >= 1 ==> product >> shift <= 0x7FFF_FFFF_FFFF_FFFFu64) by (bit_vector);
}

/// `mask` is the rook mask (`is_rook`) or the bishop mask of `sq`.
pub open spec fn mask_ok(mask: u64, sq: int, is_rook: bool) -> bool {
    forall|t: u64|
        t < 64 ==> bit_set(mask, t) == (if is_rook {
            rook_mask_target(sq, t as int)
        } else {
            bishop_mask_target(sq, t as int)
        })
}

/// The magic of square `sq` can be used to index an attack table.
pub open spec fn magic_ok(m: Magics, sq: int, is_rook: bool) -> bool {
    &&& 1 <= m.shift < 64
    &&& m.offset < 0x8000_0000_0000_0000
    &&& mask_ok(m.mask, sq, is_rook)
}

/// The attack table holds, at the magic index of blocker board `b`, the
/// slider attacks of square `sq` with blockers `b`.
pub open spec fn entry_ok(table: Seq<u64>, m: Magics, sq: int, is_rook: bool, b: u64) -> bool {
    let idx = magic_index(m, b) as usize as int;
    0 <= idx < table.len() && table[idx] == slider_bb(b, sq, is_rook)
}

/// All blocker boards of square `sq` are correctly indexed.
pub open spec fn square_ok(table: Seq<u64>, magics: Seq<Magics>, sq: int, is_rook: bool) -> bool {
    &&& magic_ok(magics[sq], sq, is_rook)
    &&& forall|b: u64| is_subset(b, magics[sq].mask) ==> #[trigger] entry_ok(table, magics[sq], sq, is_rook, b)
}

/// The first `n` squares of the attack table are correctly indexed.
pub open spec fn table_ok(table: Seq<u64>, magics: Seq<Magics>, is_rook: bool, n: int) -> bool {
    &&& magics.len() >= n
    &&& forall|s: int| 0 <= s < n ==> #[trigger] square_ok(table, magics, s, is_rook)
}

pub(crate) proof fn lemma_slider_nonzero(occ: u64, sq: int, is_rook: bool)
    requires
        0 <= sq < 64,
    ensures
        slider_bb(occ, sq, is_rook) != 0,
{
    if is_rook {
        lemma_rook_nonzero(occ, sq);
    } else {
        lemma_bishop_nonzero(occ, sq);
    }
}

/// Writing into an empty slot keeps all correctly indexed entries.
pub(crate) proof fn lemma_write_keeps(
    table: Seq<u64>,
    magics: Seq<Magics>,
    is_rook: bool,
    n: int,
    idx: int,
    v: u64,
)
    requires
        0 <= n <= 64,
        table_ok(table, magics, is_rook, n),
        0 <= idx < table.len(),
        table[idx] == 0,
    ensures
        table_ok(table.update(idx, v), magics, is_rook, n),
{
    let t2 = table.update(idx, v);
    assert forall|s: int| 0 <= s < n implies #[trigger] square_ok(t2, magics, s, is_rook) by {
        assert(square_ok(table, magics, s, is_rook));
        assert forall|b: u64| is_subset(b, magics[s].mask) implies #[trigger] entry_ok(t2, magics[s], s, is_rook, b) by {
            assert(entry_ok(table, magics[s], s, is_rook, b));
            lemma_slider_nonzero(b, s, is_rook);
        }
    }
}

/// The slider mask of square `s`: the rook mask (`is_rook`) or the bishop
/// mask.
pub open spec fn slider_mask(s: int, is_rook: bool) -> u64 {
    if is_rook {
        rook_mask_value(s as u64)
    } else {
        bishop_mask_value(s as u64)
    }
}

/// The number of blocker boards of the first `n` squares: where the part
/// of square `n` starts in the attack table.
pub open spec fn boards_before(n: int, is_rook: bool) -> nat
    decreases n,
{
    if n <= 0 {
        0
    } else {
        boards_before(n - 1, is_rook) + two_to(pop_count(slider_mask(n - 1, is_rook)))
    }
}

/// The size of the attack table of the rook (`is_rook`) or the bishop.
pub open spec fn table_size(is_rook: bool) -> int {
    if is_rook {
        ROOK_TABLE_SIZE as int
    } else {
        BISHOP_TABLE_SIZE as int
    }
}

/// The mask of square `s` has between 1 and 63 squares, and the parts of
/// the squares up to `s` fit in the table.
pub open spec fn square_layout_ok(s: int, is_rook: bool) -> bool {
    &&& 1 <= pop_count(slider_mask(s, is_rook)) <= 63
    &&& boards_before(s + 1, is_rook) <= table_size(is_rook)
}

/// The masks lay out the attack table: every square's mask is usable and
/// the squares' parts fill the table exactly.
pub open spec fn layout_ok(is_rook: bool) -> bool {
    &&& forall|s: int| 0 <= s < 64 ==> #[trigger] square_layout_ok(s, is_rook)
    &&& boards_before(64, is_rook) == table_size(is_rook)
}

/// The part of the table of a later square starts no earlier.
pub proof fn lemma_boards_before_grows(a: int, b: int, is_rook: bool)
    requires
        0 <= a <= b,
    ensures
        boards_before(a, is_rook) <= boards_before(b, is_rook),
    decreases b - a,
{
    if a < b {
        lemma_boards_before_grows(a, b - 1, is_rook);
    }
}

/// No two blocker boards of the magic's mask get the same index.
pub open spec fn indices_distinct(m: Magics) -> bool {
    forall|b1: u64, b2: u64|
        #![trigger magic_index(m, b1), magic_index(m, b2)]
        is_subset(b1, m.mask) && is_subset(b2, m.mask) && b1 != b2 ==> magic_index(m, b1) as usize
            != magic_index(m, b2) as usize
}

/// The magic data of the first squares, as the attack table lays them out:
/// each square has its rook (`is_rook`) or bishop mask, its magic constant,
/// a shift of 64 less the number of squares in the mask, and its part of
/// the table right after the part of the square before it, starting at 0.
pub open spec fn magic_data_ok(magics: Seq<Magics>, is_rook: bool) -> bool {
    &&& magics.len() <= 64
    &&& forall|s: int|
        0 <= s < magics.len() ==> {
            &&& mask_ok((#[trigger] magics[s]).mask, s, is_rook)
            &&& magics[s].magic == if is_rook { ROOK_MAGICS[s] } else { BISHOP_MAGICS[s] }
            &&& magics[s].shift == 64 - pop_count(magics[s].mask)
            &&& magics[s].offset == if s == 0 {
                0
            } else {
                magics[s - 1].offset + two_to(pop_count(magics[s - 1].mask))
            }
        }
}

/// Where the part of the table after the last built square starts.
pub open spec fn next_offset(magics: Seq<Magics>) -> int {
    if magics.len() == 0 {
        0
    } else {
        magics.last().offset + two_to(pop_count(magics.last().mask))
    }
}

/// Where the part of the attack table that belongs to square `s` ends:
/// its offset plus one entry for each blocker board of its mask.
pub open spec fn part_end(magics: Seq<Magics>, s: int) -> int {
    magics[s].offset + two_to(pop_count(magics[s].mask))
}

/// Index `t` lies in the part of the table of square `s`.
pub open spec fn in_part(magics: Seq<Magics>, s: int, t: int) -> bool {
    0 <= s < magics.len() && magics[s].offset <= t < part_end(magics, s)
}

/// Index `t` lies in the part of some square.
pub open spec fn covered(magics: Seq<Magics>, t: int) -> bool {
    exists|s: int| #[trigger] in_part(magics, s, t)
}

/// The parts of the squares lie one after the other without overlap, and
/// together they cover the table up to `next_offset`, leaving no gap.
pub open spec fn parts_tile(magics: Seq<Magics>) -> bool {
    &&& forall|s1: int, s2: int|
        #![trigger magics[s1], magics[s2]]
        0 <= s1 < s2 < magics.len() ==> part_end(magics, s1) <= magics[s2].offset
    &&& forall|t: int| 0 <= t < next_offset(magics) ==> #[trigger] covered(magics, t)
}

/// Laid out as `magic_data_ok` says, the parts of the squares tile the
/// attack table: the index ranges offset..offset + 2^(bits in the mask)
/// are disjoint and together cover 0..next_offset.
pub proof fn lemma_parts_tile(magics: Seq<Magics>, is_rook: bool)
    requires
        magic_data_ok(magics, is_rook),
    ensures
        parts_tile(magics),
    decreases magics.len(),
{
    if magics.len() > 0 {
        let n = magics.len() - 1;
        let p = magics.drop_last();
        assert forall|s: int| 0 <= s < p.len() implies {
            &&& mask_ok((#[trigger] p[s]).mask, s, is_rook)
            &&& p[s].magic == if is_rook { ROOK_MAGICS[s] } else { BISHOP_MAGICS[s] }
            &&& p[s].shift == 64 - pop_count(p[s].mask)
            &&& p[s].offset == if s == 0 {
                0
            } else {
                p[s - 1].offset + two_to(pop_count(p[s - 1].mask))
            }
        } by {
            assert(p[s] == magics[s]);
            assert(mask_ok(magics[s].mask, s, is_rook));
            if s > 0 {
                assert(p[s - 1] == magics[s - 1]);
            }
        }
        lemma_parts_tile(p, is_rook);
        assert(magics[n] == magics.last());
        if n > 0 {
            assert(magics[n].offset == part_end(magics, n - 1));
            assert(p.last() == magics[n - 1]);
            assert(next_offset(p) == magics[n].offset);
        } else {
            assert(magics[n].offset == 0);
        }
        assert forall|s1: int, s2: int|
            #![trigger magics[s1], magics[s2]]
            0 <= s1 < s2 < magics.len() implies part_end(magics, s1) <= magics[s2].offset by {
            assert(magics[s1] == p[s1]);
            if s2 < n {
                assert(magics[s2] == p[s2]);
                assert(part_end(p, s1) <= p[s2].offset);
            } else if s1 < n - 1 {
                assert(magics[n - 1] == p[n - 1]);
                assert(part_end(p, s1) <= p[n - 1].offset);
            }
        }
        assert forall|t: int| 0 <= t < next_offset(magics) implies #[trigger] covered(magics, t) by {
            if t >= magics[n].offset {
                assert(in_part(magics, n, t));
            } else {
                assert(covered(p, t));
                let s = choose|s: int| #[trigger] in_part(p, s, t);
                assert(p[s] == magics[s]);
                assert(in_part(magics, s, t));
            }
        }
    }
}

/// Appending the magic data of the next square keeps the layout.
proof fn lemma_push_magic_data(magics: Seq<Magics>, magic: Magics, is_rook: bool)
    requires
        magic_data_ok(magics, is_rook),
        magics.len() < 64,
        mask_ok(magic.mask, magics.len() as int, is_rook),
        magic.magic == if is_rook { ROOK_MAGICS[magics.len() as int] } else { BISHOP_MAGICS[magics.len() as int] },
        magic.shift == 64 - pop_count(magic.mask),
        magic.offset == next_offset(magics),
    ensures
        magic_data_ok(magics.push(magic), is_rook),
        next_offset(magics.push(magic)) == next_offset(magics) + two_to(pop_count(magic.mask)),
{
    let m2 = magics.push(magic);
    assert forall|s: int| 0 <= s < m2.len() implies {
        &&& mask_ok((#[trigger] m2[s]).mask, s, is_rook)
        &&& m2[s].magic == if is_rook { ROOK_MAGICS[s] } else { BISHOP_MAGICS[s] }
        &&& m2[s].shift == 64 - pop_count(m2[s].mask)
        &&& m2[s].offset == if s == 0 {
            0
        } else {
            m2[s - 1].offset + two_to(pop_count(m2[s - 1].mask))
        }
    } by {
        if s < magics.len() {
            assert(m2[s] == magics[s]);
            assert(mask_ok(magics[s].mask, s, is_rook));
            if s > 0 {
                assert(m2[s - 1] == magics[s - 1]);
            }
        } else if s > 0 {
            assert(m2[s - 1] == magics.last());
        }
    }
    assert(m2.last() == magic);
}

/// The built-in magic number of square `s`.
pub open spec fn magic_constant(s: int, is_rook: bool) -> u64 {
    if is_rook {
        ROOK_MAGICS[s]
    } else {
        BISHOP_MAGICS[s]
    }
}

/// The magic data of square `s` built from the built-in magic number: its
/// mask, a shift of 64 less the number of squares in the mask, and its part
/// of the table right after the parts of the squares before it.
pub open spec fn built_magic(s: int, is_rook: bool) -> Magics {
    Magics {
        mask: slider_mask(s, is_rook),
        shift: (64 - pop_count(slider_mask(s, is_rook))) as u8,
        offset: boards_before(s, is_rook) as u64,
        magic: magic_constant(s, is_rook),
    }
}

/// The magic sends every blocker board of its mask into its part of the
/// table, and no two boards to the same index.
pub open spec fn square_fits(m: Magics) -> bool {
    &&& forall|b: u64|
        is_subset(b, m.mask) ==> m.offset <= #[trigger] magic_index(m, b) as usize as int
            && magic_index(m, b) as usize as int <= m.offset + two_to(pop_count(m.mask)) - 1
    &&& indices_distinct(m)
}

/// The built-in magic numbers index the whole attack table: the masks lay
/// it out, and every square's magic fits its blocker boards.
pub open spec fn constants_fit(is_rook: bool) -> bool {
    &&& layout_ok(is_rook)
    &&& forall|s: int| 0 <= s < 64 ==> #[trigger] square_fits(built_magic(s, is_rook))
}

/// Some blocker board among the first `n` goes to table index `k`.
pub open spec fn board_hit(m: Magics, boards: Seq<u64>, n: int, k: int) -> bool {
    exists|j: int| 0 <= j < n && #[trigger] magic_index(m, boards[j]) as usize as int == k
}

/// Builds the attack table of the rook (`is_rook`) or the bishop, indexed
/// by the built-in magic numbers, and the magic data of every square. The
/// flag tells whether the magic numbers index the whole table; it is set
/// exactly when they do, which they do (`lemma_constants_fit`), and then the
/// table is correct for all 64 squares.
/// The magic data is that of the squares built, each laid out after the
/// one before it.
#[verifier::rlimit(50)]
#[verifier::spinoff_prover]
pub fn build_table(is_rook: bool) -> (res: (Vec<u64>, Vec<Magics>, bool))
    ensures
        res.0@.len() == table_size(is_rook),
        magic_data_ok(res.1@, is_rook),
        res.2 == constants_fit(is_rook),
        res.2,
        res.2 ==> {
            &&& res.1@.len() == 64
            &&& next_offset(res.1@) == res.0@.len()
            &&& table_ok(res.0@, res.1@, is_rook, 64)
        },
{
    let size = if is_rook { ROOK_TABLE_SIZE } else { BISHOP_TABLE_SIZE };
    let mut table: Vec<u64> = Vec::new();
    while table.len() < size
        invariant
            table.len() <= size,
            forall|i: int| 0 <= i < table.len() ==> table@[i] == 0,
        decreases size - table.len(),
    {
        table.push(0);
    }
    proof {
        lemma_layout_ok(is_rook);
        lemma_constants_fit(is_rook);
    }
    let mut magics: Vec<Magics> = Vec::new();
    let mut offset: u64 = 0;
    let mut sq: u64 = 0;
    while sq < 64
        invariant
            sq <= 64,
            magics@.len() == sq,
            table_ok(table@, magics@, is_rook, sq as int),
            magic_data_ok(magics@, is_rook),
            offset == next_offset(magics@),
            offset == boards_before(sq as int, is_rook),
            layout_ok(is_rook),
            constants_fit(is_rook),
            forall|s: int| 0 <= s < sq ==> #[trigger] square_fits(built_magic(s, is_rook)),
            forall|k: int| offset <= k < size ==> table@[k] == 0,
            offset <= table.len(),
            table.len() == size,
            size == table_size(is_rook),
            size <= ROOK_TABLE_SIZE,
        decreases 64 - sq,
    {
        let mask = if is_rook { create_rook_mask(sq as u8) } else { create_bishop_mask(sq as u8) };
        let bits = count_ones(mask);
        proof {
            assert(square_layout_ok(sq as int, is_rook));
        }
        let blocker_boards = create_blocker_boards(mask);
        let permutations = blocker_boards.len() as u64;
        proof {
            lemma_subsets_count(blocker_boards@, mask);
        }
        proof {
            lemma_boards_before_grows(sq as int + 1, 64, is_rook);
        }
        let end = offset + permutations - 1;
        let nr = if is_rook { ROOK_MAGICS[sq as usize] } else { BISHOP_MAGICS[sq as usize] };
        let magic = Magics { mask, shift: (64 - bits) as u8, offset, magic: nr };
        proof {
            assert(magic == built_magic(sq as int, is_rook));
        }
        let ghost done = magics@;
        let ghost boards = blocker_boards@;
        let mut i: usize = 0;
        while i < blocker_boards.len()
            invariant
                sq < 64,
                magics@ == done,
                constants_fit(is_rook),
                boards == blocker_boards@,
                done.len() == sq,
                size == table_size(is_rook),
                magic_data_ok(done, is_rook),
                offset == next_offset(done),
                magic.magic == nr,
                nr == if is_rook { ROOK_MAGICS[sq as int] } else { BISHOP_MAGICS[sq as int] },
                magic.shift == 64 - pop_count(mask),
                magic == built_magic(sq as int, is_rook),
                permutations == two_to(pop_count(mask)),
                permutations == boards.len(),
                offset + permutations <= size,
                end == offset + permutations - 1,
                table_ok(table@, done, is_rook, sq as int),
                table.len() == size,
                magic.mask == mask,
                1 <= magic.shift < 64,
                magic.offset == offset,
                offset < 0x8000_0000_0000_0000,
                mask_ok(mask, sq as int, is_rook),
                crate::blockers::all_subsets_sorted(boards, mask),
                i <= boards.len(),
                forall|j: int| 0 <= j < i ==> #[trigger] entry_ok(table@, magic, sq as int, is_rook, boards[j]),
                forall|j: int|
                    0 <= j < i ==> offset <= #[trigger] magic_index(magic, boards[j]) as usize as int
                        && magic_index(magic, boards[j]) as usize as int <= end,
                forall|a: int, c: int|
                    #![trigger magic_index(magic, boards[a]), magic_index(magic, boards[c])]
                    0 <= a < c < i ==> magic_index(magic, boards[a]) as usize != magic_index(magic, boards[c]) as usize,
                forall|k: int| offset <= k < size && !board_hit(magic, boards, i as int, k) ==> #[trigger] table@[k] == 0,
            decreases boards.len() - i,
        {
            let b = blocker_boards[i];
            proof {
                lemma_index_fits(magic, b);
                assert(is_subset(boards[i as int], mask));
            }
            let index = magic.get_index(b);
            if index >= table.len() {
                proof {
                    assert(!square_fits(magic));
                    assert(!constants_fit(is_rook));
                }
                return (table, magics, false);
            }
            if table[index] != 0 {
                proof {
                    assert(!square_fits(magic)) by {
                        if square_fits(magic) {
                            assert(offset <= magic_index(magic, boards[i as int]) as usize as int);
                            assert(board_hit(magic, boards, i as int, index as int));
                            let j = choose|j: int|
                                0 <= j < i && #[trigger] magic_index(magic, boards[j]) as usize as int == index as int;
                            assert(boards[j] < boards[i as int]);
                            assert(is_subset(boards[j], mask));
                            assert(magic_index(magic, boards[j]) as usize != magic_index(magic, boards[i as int]) as usize);
                        }
                    }
                    assert(!constants_fit(is_rook));
                }
                return (table, magics, false);
            }
            let fail_low = (index as u64) < offset;
            let fail_high = (index as u64) > end;
            if fail_low || fail_high {
                proof {
                    assert(!square_fits(magic));
                    assert(!constants_fit(is_rook));
                }
                return (table, magics, false);
            }
            let attacks = if is_rook { rook_attacks(b, sq) } else { bishop_attacks(b, sq) };
            let ghost old_table = table@;
            table.set(index, attacks);
            proof {
                lemma_write_keeps(old_table, done, is_rook, sq as int, index as int, attacks);
                assert forall|j: int| 0 <= j < i + 1 implies #[trigger] entry_ok(table@, magic, sq as int, is_rook, boards[j]) by {
                    if j < i {
                        assert(entry_ok(old_table, magic, sq as int, is_rook, boards[j]));
                        lemma_slider_nonzero(boards[j], sq as int, is_rook);
                    }
                }
                assert forall|a: int, c: int|
                    #![trigger magic_index(magic, boards[a]), magic_index(magic, boards[c])]
                    0 <= a < c < i + 1 implies magic_index(magic, boards[a]) as usize != magic_index(magic, boards[c]) as usize by {
                    if c == i {
                        assert(entry_ok(old_table, magic, sq as int, is_rook, boards[a]));
                        lemma_slider_nonzero(boards[a], sq as int, is_rook);
                    }
                }
                assert forall|k: int| offset <= k < size && !board_hit(magic, boards, i + 1, k) implies #[trigger] table@[k] == 0 by {
                    if k == index as int {
                        assert(magic_index(magic, boards[i as int]) as usize as int == k);
                    }
                    if board_hit(magic, boards, i as int, k) {
                        let j = choose|j: int|
                            0 <= j < i && #[trigger] magic_index(magic, boards[j]) as usize as int == k;
                        assert(0 <= j < i + 1);
                    }
                }
            }
            i = i + 1;
        }
        proof {
            assert forall|b1: u64, b2: u64|
                #![trigger magic_index(magic, b1), magic_index(magic, b2)]
                is_subset(b1, magic.mask) && is_subset(b2, magic.mask) && b1 != b2 implies magic_index(magic, b1) as usize
                    != magic_index(magic, b2) as usize by {
                assert(boards.contains(b1));
                assert(boards.contains(b2));
                let x = choose|x: int| 0 <= x < boards.len() && boards[x] == b1;
                let y = choose|y: int| 0 <= y < boards.len() && boards[y] == b2;
                if x < y {
                    assert(magic_index(magic, boards[x]) as usize != magic_index(magic, boards[y]) as usize);
                } else {
                    assert(magic_index(magic, boards[y]) as usize != magic_index(magic, boards[x]) as usize);
                }
            }
            assert forall|b: u64| is_subset(b, magic.mask) implies offset <= #[trigger] magic_index(magic, b) as usize as int
                && magic_index(magic, b) as usize as int <= offset + two_to(pop_count(magic.mask)) - 1 by {
                assert(boards.contains(b));
                let x = choose|x: int| 0 <= x < boards.len() && boards[x] == b;
                assert(offset <= magic_index(magic, boards[x]) as usize as int);
            }
            assert(square_fits(magic));
            assert forall|k: int| offset + permutations <= k < size implies table@[k] == 0 by {
                if board_hit(magic, boards, boards.len() as int, k) {
                    let j = choose|j: int|
                        0 <= j < boards.len() && #[trigger] magic_index(magic, boards[j]) as usize as int == k;
                }
            }
        }
        let ghost before = magics@;
        magics.push(magic);
        proof {
            lemma_push_magic_data(before, magic, is_rook);
            assert forall|s: int| 0 <= s < sq + 1 implies #[trigger] square_ok(table@, magics@, s, is_rook) by {
                if s < sq {
                    assert(square_ok(table@, before, s, is_rook));
                    assert(magics@[s] == before[s]);
                } else {
                    assert forall|b: u64| is_subset(b, magics@[s].mask) implies #[trigger] entry_ok(table@, magics@[s], s, is_rook, b) by {
                        assert(boards.contains(b));
                        let j = choose|j: int| 0 <= j < boards.len() && boards[j] == b;
                        assert(entry_ok(table@, magic, sq as int, is_rook, boards[j]));
                    }
                }
            }
        }
        offset = offset + permutations;
        sq = sq + 1;
    }
    (table, magics, true)
}

/// Looks up the attacks of a rook (`is_rook`) or bishop on `sq` for the
/// occupancy `occupancy` in a correctly built attack table.
pub fn lookup(table: &Vec<u64>, magics: &Vec<Magics>, is_rook: bool, sq: usize, occupancy: u64) -> (bb: u64)
    requires
        table_ok(table@, magics@, is_rook, 64),
        sq < 64,
    ensures
        bb == slider_bb(occupancy, sq as int, is_rook),
{
    let m = magics[sq];
    proof {
        assert(square_ok(table@, magics@, sq as int, is_rook));
        let b = occupancy & m.mask;
        let mask = m.mask;
        assert((occupancy & mask) & !mask == 0 && (occupancy & mask) & mask == occupancy & mask) by (bit_vector);
        assert(entry_ok(table@, m, sq as int, is_rook, b));
        assert(magic_index(m, occupancy) == magic_index(m, b));
        if is_rook {
            lemma_rook_masked(occupancy, mask, sq as int);
        } else {
            lemma_bishop_masked(occupancy, mask, sq as int);
        }
    }
    proof {
        lemma_index_fits(m, occupancy);
    }
    let index = m.get_index(occupancy);
    table[index]
}

} // verus!
