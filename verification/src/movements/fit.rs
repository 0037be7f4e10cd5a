//! The built-in magic numbers index the slider attack tables: on every
//! square each blocker board lands in the square's part of the table, and
//! no two land on the same index.
use crate::blockers::{is_subset, two_to};
use crate::bitboard::pop_count;
use crate::movements::layout::{
    bishop_mask_bits, bishop_mask_table, lemma_bishop_table, lemma_layout_ok, lemma_mask_bits, lemma_rook_table,
    mask_bits, rook_mask_bits, rook_mask_table,
};
use crate::movements::magics::{
    boards_before, built_magic, constants_fit, indices_distinct, lemma_boards_before_grows, magic_constant,
    magic_index, slider_mask, square_fits, table_size, BISHOP_MAGICS, ROOK_MAGICS,
};
use vstd::prelude::*;

verus! {

/// The built-in magic numbers, one per square.
proof fn lemma_magic_constants()
    ensures
        ROOK_MAGICS@ == seq![
            324259448050975248u64,
            162139001189302336u64,
            4647750006529359880u64,
            144121785691422736u64,
            16176938657641660544u64,
            9367489423970945072u64,
            36051338366288384u64,
            36029147746665088u64,
            3518447965192208u64,
            4614078830617822340u64,
            9241949523864129664u64,
            11540615780106252u64,
            730287067600519297u64,
            144819425575437312u64,
            1225261127674627584u64,
            40814017656160512u64,
            594475700577118276u64,
            283675082228259u64,
            148058037853261952u64,
            14411662294658320384u64,
            2394186703782912u64,
            1157847866488718336u64,
            2306407062973841412u64,
            4576167411597460u64,
            2323857959626489888u64,
            18860477004136448u64,
            621497027752297522u64,
            3027553647748714496u64,
            9241953785514295424u64,
            1970363492082688u64,
            1729664285938024960u64,
            4836870457972064321u64,
            141012374650913u64,
            4652253601601699840u64,
            58687601506263040u64,
            281543780081672u64,
            1157433900411130112u64,
            81628378934806544u64,
            2310366730829959192u64,
            2900476768907429780u64,
            36558770110480u64,
            9042384969023488u64,
            180425597514743824u64,
            5487636764434923528u64,
            5766860422494879764u64,
            9224498487624761348u64,
            41702298761822218u64,
            45599234000551940u64,
            70370891935872u64,
            19210671497487104u64,
            387030266675328u64,
            289215847808893056u64,
            576469550545240192u64,
            1153216449143113729u64,
            9350715278336u64,
            288521763922764288u64,
            282782794268833u64,
            595672521157161122u64,
            436884352794689609u64,
            9241667927690743809u64,
            5188428314494240769u64,
            1157988067282792450u64,
            1152939243166828548u64,
            4611967569673330817u64,
        ],
        BISHOP_MAGICS@ == seq![
            2310454429704290569u64,
            37163502750244928u64,
            145330200115150856u64,
            573953659699200u64,
            9845999220824211456u64,
            574016004032512u64,
            10093699283674480640u64,
            2306407060834902016u64,
            2883575003184432136u64,
            1747410678824308864u64,
            9259405249167245312u64,
            936784527773139074u64,
            4629702641998381057u64,
            201028145628315697u64,
            4899992295377881088u64,
            4630405483133404688u64,
            153474299838154784u64,
            2286992943744036u64,
            434597432802681416u64,
            865817269052115456u64,
            9156750026475656u64,
            599823317909770240u64,
            4578375142474880u64,
            2308525819264500224u64,
            18596057879421451u64,
            18331093560345096u64,
            2305880392877736000u64,
            56602859688444160u64,
            5382084129205534724u64,
            5767422822691897608u64,
            283691220206592u64,
            144398865845093376u64,
            1163523824685120u64,
            20267333288223264u64,
            325489801822240u64,
            4755836425302245636u64,
            594475563668865152u64,
            1162496335329427604u64,
            9244765235704371236u64,
            576667461564269056u64,
            146371454722771202u64,
            426679365288452u64,
            13724105480340736u64,
            1152922330050364928u64,
            4620737202526097424u64,
            1316476062695166464u64,
            13981996823661781640u64,
            12430506881068303489u64,
            5193780677221351424u64,
            426612797737280u64,
            37445932288049152u64,
            1171147012042137601u64,
            504403227018657856u64,
            4629845569785954560u64,
            4686013077882208273u64,
            1154056209263894528u64,
            613054853085794304u64,
            9025075185721408u64,
            9571249324951568u64,
            10999715432448u64,
            290408795603472u64,
            10664524198170591488u64,
            5924513492108288u64,
            90511840181764112u64,
        ],
{
    assert(ROOK_MAGICS@ =~= seq![
            324259448050975248u64,
            162139001189302336u64,
            4647750006529359880u64,
            144121785691422736u64,
            16176938657641660544u64,
            9367489423970945072u64,
            36051338366288384u64,
            36029147746665088u64,
            3518447965192208u64,
            4614078830617822340u64,
            9241949523864129664u64,
            11540615780106252u64,
            730287067600519297u64,
            144819425575437312u64,
            1225261127674627584u64,
            40814017656160512u64,
            594475700577118276u64,
            283675082228259u64,
            148058037853261952u64,
            14411662294658320384u64,
            2394186703782912u64,
            1157847866488718336u64,
            2306407062973841412u64,
            4576167411597460u64,
            2323857959626489888u64,
            18860477004136448u64,
            621497027752297522u64,
            3027553647748714496u64,
            9241953785514295424u64,
            1970363492082688u64,
            1729664285938024960u64,
            4836870457972064321u64,
            141012374650913u64,
            4652253601601699840u64,
            58687601506263040u64,
            281543780081672u64,
            1157433900411130112u64,
            81628378934806544u64,
            2310366730829959192u64,
            2900476768907429780u64,
            36558770110480u64,
            9042384969023488u64,
            180425597514743824u64,
            5487636764434923528u64,
            5766860422494879764u64,
            9224498487624761348u64,
            41702298761822218u64,
            45599234000551940u64,
            70370891935872u64,
            19210671497487104u64,
            387030266675328u64,
            289215847808893056u64,
            576469550545240192u64,
            1153216449143113729u64,
            9350715278336u64,
            288521763922764288u64,
            282782794268833u64,
            595672521157161122u64,
            436884352794689609u64,
            9241667927690743809u64,
            5188428314494240769u64,
            1157988067282792450u64,
            1152939243166828548u64,
            4611967569673330817u64,
        ]);
    assert(BISHOP_MAGICS@ =~= seq![
            2310454429704290569u64,
            37163502750244928u64,
            145330200115150856u64,
            573953659699200u64,
            9845999220824211456u64,
            574016004032512u64,
            10093699283674480640u64,
            2306407060834902016u64,
            2883575003184432136u64,
            1747410678824308864u64,
            9259405249167245312u64,
            936784527773139074u64,
            4629702641998381057u64,
            201028145628315697u64,
            4899992295377881088u64,
            4630405483133404688u64,
            153474299838154784u64,
            2286992943744036u64,
            434597432802681416u64,
            865817269052115456u64,
            9156750026475656u64,
            599823317909770240u64,
            4578375142474880u64,
            2308525819264500224u64,
            18596057879421451u64,
            18331093560345096u64,
            2305880392877736000u64,
            56602859688444160u64,
            5382084129205534724u64,
            5767422822691897608u64,
            283691220206592u64,
            144398865845093376u64,
            1163523824685120u64,
            20267333288223264u64,
            325489801822240u64,
            4755836425302245636u64,
            594475563668865152u64,
            1162496335329427604u64,
            9244765235704371236u64,
            576667461564269056u64,
            146371454722771202u64,
            426679365288452u64,
            13724105480340736u64,
            1152922330050364928u64,
            4620737202526097424u64,
            1316476062695166464u64,
            13981996823661781640u64,
            12430506881068303489u64,
            5193780677221351424u64,
            426612797737280u64,
            37445932288049152u64,
            1171147012042137601u64,
            504403227018657856u64,
            4629845569785954560u64,
            4686013077882208273u64,
            1154056209263894528u64,
            613054853085794304u64,
            9025075185721408u64,
            9571249324951568u64,
            10999715432448u64,
            290408795603472u64,
            10664524198170591488u64,
            5924513492108288u64,
            90511840181764112u64,
        ]);
}

/// Multiplying in 64 bits, and keeping the blocker board within its mask.
proof fn lemma_product(b: u64, mask: u64, magic: u64)
    by (bit_vector)
    ensures
        vstd::wrapping::u64_specs::wrapping_mul(b, magic) == (b * magic) as u64,
        b & !mask == 0 ==> b & mask == b,
{
}

/// The built-in rook magics of squares 0 to 15: every blocker board of
/// the square's mask lands below 2^(squares in the mask), and distinct
/// boards land apart.
#[verifier::rlimit(100)]
proof fn lemma_rook_fits_0(b1: u64, b2: u64)
    by (bit_vector)
    ensures
        b1 & !0x000101010101017Eu64 == 0 ==> (b1 * 324259448050975248u64) as u64 >> 52u64 < 4096u64,
        b1 & !0x000101010101017Eu64 == 0 && b2 & !0x000101010101017Eu64 == 0 && b1 != b2 ==> (b1 * 324259448050975248u64) as u64 >> 52u64
            != (b2 * 324259448050975248u64) as u64 >> 52u64,
        b1 & !0x000202020202027Cu64 == 0 ==> (b1 * 162139001189302336u64) as u64 >> 53u64 < 2048u64,
        b1 & !0x000202020202027Cu64 == 0 && b2 & !0x000202020202027Cu64 == 0 && b1 != b2 ==> (b1 * 162139001189302336u64) as u64 >> 53u64
            != (b2 * 162139001189302336u64) as u64 >> 53u64,
        b1 & !0x000404040404047Au64 == 0 ==> (b1 * 4647750006529359880u64) as u64 >> 53u64 < 2048u64,
        b1 & !0x000404040404047Au64 == 0 && b2 & !0x000404040404047Au64 == 0 && b1 != b2 ==> (b1 * 4647750006529359880u64) as u64 >> 53u64
            != (b2 * 4647750006529359880u64) as u64 >> 53u64,
        b1 & !0x0008080808080876u64 == 0 ==> (b1 * 144121785691422736u64) as u64 >> 53u64 < 2048u64,
        b1 & !0x0008080808080876u64 == 0 && b2 & !0x0008080808080876u64 == 0 && b1 != b2 ==> (b1 * 144121785691422736u64) as u64 >> 53u64
            != (b2 * 144121785691422736u64) as u64 >> 53u64,
        b1 & !0x001010101010106Eu64 == 0 ==> (b1 * 16176938657641660544u64) as u64 >> 53u64 < 2048u64,
        b1 & !0x001010101010106Eu64 == 0 && b2 & !0x001010101010106Eu64 == 0 && b1 != b2 ==> (b1 * 16176938657641660544u64) as u64 >> 53u64
            != (b2 * 16176938657641660544u64) as u64 >> 53u64,
        b1 & !0x002020202020205Eu64 == 0 ==> (b1 * 9367489423970945072u64) as u64 >> 53u64 < 2048u64,
        b1 & !0x002020202020205Eu64 == 0 && b2 & !0x002020202020205Eu64 == 0 && b1 != b2 ==> (b1 * 9367489423970945072u64) as u64 >> 53u64
            != (b2 * 9367489423970945072u64) as u64 >> 53u64,
        b1 & !0x004040404040403Eu64 == 0 ==> (b1 * 36051338366288384u64) as u64 >> 53u64 < 2048u64,
        b1 & !0x004040404040403Eu64 == 0 && b2 & !0x004040404040403Eu64 == 0 && b1 != b2 ==> (b1 * 36051338366288384u64) as u64 >> 53u64
            != (b2 * 36051338366288384u64) as u64 >> 53u64,
        b1 & !0x008080808080807Eu64 == 0 ==> (b1 * 36029147746665088u64) as u64 >> 52u64 < 4096u64,
        b1 & !0x008080808080807Eu64 == 0 && b2 & !0x008080808080807Eu64 == 0 && b1 != b2 ==> (b1 * 36029147746665088u64) as u64 >> 52u64
            != (b2 * 36029147746665088u64) as u64 >> 52u64,
        b1 & !0x0001010101017E00u64 == 0 ==> (b1 * 3518447965192208u64) as u64 >> 53u64 < 2048u64,
        b1 & !0x0001010101017E00u64 == 0 && b2 & !0x0001010101017E00u64 == 0 && b1 != b2 ==> (b1 * 3518447965192208u64) as u64 >> 53u64
            != (b2 * 3518447965192208u64) as u64 >> 53u64,
        b1 & !0x0002020202027C00u64 == 0 ==> (b1 * 4614078830617822340u64) as u64 >> 54u64 < 1024u64,
        b1 & !0x0002020202027C00u64 == 0 && b2 & !0x0002020202027C00u64 == 0 && b1 != b2 ==> (b1 * 4614078830617822340u64) as u64 >> 54u64
            != (b2 * 4614078830617822340u64) as u64 >> 54u64,
        b1 & !0x0004040404047A00u64 == 0 ==> (b1 * 9241949523864129664u64) as u64 >> 54u64 < 1024u64,
        b1 & !0x0004040404047A00u64 == 0 && b2 & !0x0004040404047A00u64 == 0 && b1 != b2 ==> (b1 * 9241949523864129664u64) as u64 >> 54u64
            != (b2 * 9241949523864129664u64) as u64 >> 54u64,
        b1 & !0x0008080808087600u64 == 0 ==> (b1 * 11540615780106252u64) as u64 >> 54u64 < 1024u64,
        b1 & !0x0008080808087600u64 == 0 && b2 & !0x0008080808087600u64 == 0 && b1 != b2 ==> (b1 * 11540615780106252u64) as u64 >> 54u64
            != (b2 * 11540615780106252u64) as u64 >> 54u64,
        b1 & !0x0010101010106E00u64 == 0 ==> (b1 * 730287067600519297u64) as u64 >> 54u64 < 1024u64,
        b1 & !0x0010101010106E00u64 == 0 && b2 & !0x0010101010106E00u64 == 0 && b1 != b2 ==> (b1 * 730287067600519297u64) as u64 >> 54u64
            != (b2 * 730287067600519297u64) as u64 >> 54u64,
        b1 & !0x0020202020205E00u64 == 0 ==> (b1 * 144819425575437312u64) as u64 >> 54u64 < 1024u64,
        b1 & !0x0020202020205E00u64 == 0 && b2 & !0x0020202020205E00u64 == 0 && b1 != b2 ==> (b1 * 144819425575437312u64) as u64 >> 54u64
            != (b2 * 144819425575437312u64) as u64 >> 54u64,
        b1 & !0x0040404040403E00u64 == 0 ==> (b1 * 1225261127674627584u64) as u64 >> 54u64 < 1024u64,
        b1 & !0x0040404040403E00u64 == 0 && b2 & !0x0040404040403E00u64 == 0 && b1 != b2 ==> (b1 * 1225261127674627584u64) as u64 >> 54u64
            != (b2 * 1225261127674627584u64) as u64 >> 54u64,
        b1 & !0x0080808080807E00u64 == 0 ==> (b1 * 40814017656160512u64) as u64 >> 53u64 < 2048u64,
        b1 & !0x0080808080807E00u64 == 0 && b2 & !0x0080808080807E00u64 == 0 && b1 != b2 ==> (b1 * 40814017656160512u64) as u64 >> 53u64
            != (b2 * 40814017656160512u64) as u64 >> 53u64,
{
}
/// The built-in rook magics of squares 16 to 31: every blocker board of
/// the square's mask lands below 2^(squares in the mask), and distinct
/// boards land apart.
#[verifier::rlimit(100)]
proof fn lemma_rook_fits_1(b1: u64, b2: u64)
    by (bit_vector)
    ensures
        b1 & !0x00010101017E0100u64 == 0 ==> (b1 * 594475700577118276u64) as u64 >> 53u64 < 2048u64,
        b1 & !0x00010101017E0100u64 == 0 && b2 & !0x00010101017E0100u64 == 0 && b1 != b2 ==> (b1 * 594475700577118276u64) as u64 >> 53u64
            != (b2 * 594475700577118276u64) as u64 >> 53u64,
        b1 & !0x00020202027C0200u64 == 0 ==> (b1 * 283675082228259u64) as u64 >> 54u64 < 1024u64,
        b1 & !0x00020202027C0200u64 == 0 && b2 & !0x00020202027C0200u64 == 0 && b1 != b2 ==> (b1 * 283675082228259u64) as u64 >> 54u64
            != (b2 * 283675082228259u64) as u64 >> 54u64,
        b1 & !0x00040404047A0400u64 == 0 ==> (b1 * 148058037853261952u64) as u64 >> 54u64 < 1024u64,
        b1 & !0x00040404047A0400u64 == 0 && b2 & !0x00040404047A0400u64 == 0 && b1 != b2 ==> (b1 * 148058037853261952u64) as u64 >> 54u64
            != (b2 * 148058037853261952u64) as u64 >> 54u64,
        b1 & !0x0008080808760800u64 == 0 ==> (b1 * 14411662294658320384u64) as u64 >> 54u64 < 1024u64,
        b1 & !0x0008080808760800u64 == 0 && b2 & !0x0008080808760800u64 == 0 && b1 != b2 ==> (b1 * 14411662294658320384u64) as u64 >> 54u64
            != (b2 * 14411662294658320384u64) as u64 >> 54u64,
        b1 & !0x00101010106E1000u64 == 0 ==> (b1 * 2394186703782912u64) as u64 >> 54u64 < 1024u64,
        b1 & !0x00101010106E1000u64 == 0 && b2 & !0x00101010106E1000u64 == 0 && b1 != b2 ==> (b1 * 2394186703782912u64) as u64 >> 54u64
            != (b2 * 2394186703782912u64) as u64 >> 54u64,
        b1 & !0x00202020205E2000u64 == 0 ==> (b1 * 1157847866488718336u64) as u64 >> 54u64 < 1024u64,
        b1 & !0x00202020205E2000u64 == 0 && b2 & !0x00202020205E2000u64 == 0 && b1 != b2 ==> (b1 * 1157847866488718336u64) as u64 >> 54u64
            != (b2 * 1157847866488718336u64) as u64 >> 54u64,
        b1 & !0x00404040403E4000u64 == 0 ==> (b1 * 2306407062973841412u64) as u64 >> 54u64 < 1024u64,
        b1 & !0x00404040403E4000u64 == 0 && b2 & !0x00404040403E4000u64 == 0 && b1 != b2 ==> (b1 * 2306407062973841412u64) as u64 >> 54u64
            != (b2 * 2306407062973841412u64) as u64 >> 54u64,
        b1 & !0x00808080807E8000u64 == 0 ==> (b1 * 4576167411597460u64) as u64 >> 53u64 < 2048u64,
        b1 & !0x00808080807E8000u64 == 0 && b2 & !0x00808080807E8000u64 == 0 && b1 != b2 ==> (b1 * 4576167411597460u64) as u64 >> 53u64
            != (b2 * 4576167411597460u64) as u64 >> 53u64,
        b1 & !0x000101017E010100u64 == 0 ==> (b1 * 2323857959626489888u64) as u64 >> 53u64 < 2048u64,
        b1 & !0x000101017E010100u64 == 0 && b2 & !0x000101017E010100u64 == 0 && b1 != b2 ==> (b1 * 2323857959626489888u64) as u64 >> 53u64
            != (b2 * 2323857959626489888u64) as u64 >> 53u64,
        b1 & !0x000202027C020200u64 == 0 ==> (b1 * 18860477004136448u64) as u64 >> 54u64 < 1024u64,
        b1 & !0x000202027C020200u64 == 0 && b2 & !0x000202027C020200u64 == 0 && b1 != b2 ==> (b1 * 18860477004136448u64) as u64 >> 54u64
            != (b2 * 18860477004136448u64) as u64 >> 54u64,
        b1 & !0x000404047A040400u64 == 0 ==> (b1 * 621497027752297522u64) as u64 >> 54u64 < 1024u64,
        b1 & !0x000404047A040400u64 == 0 && b2 & !0x000404047A040400u64 == 0 && b1 != b2 ==> (b1 * 621497027752297522u64) as u64 >> 54u64
            != (b2 * 621497027752297522u64) as u64 >> 54u64,
        b1 & !0x0008080876080800u64 == 0 ==> (b1 * 3027553647748714496u64) as u64 >> 54u64 < 1024u64,
        b1 & !0x0008080876080800u64 == 0 && b2 & !0x0008080876080800u64 == 0 && b1 != b2 ==> (b1 * 3027553647748714496u64) as u64 >> 54u64
            != (b2 * 3027553647748714496u64) as u64 >> 54u64,
        b1 & !0x001010106E101000u64 == 0 ==> (b1 * 9241953785514295424u64) as u64 >> 54u64 < 1024u64,
        b1 & !0x001010106E101000u64 == 0 && b2 & !0x001010106E101000u64 == 0 && b1 != b2 ==> (b1 * 9241953785514295424u64) as u64 >> 54u64
            != (b2 * 9241953785514295424u64) as u64 >> 54u64,
        b1 & !0x002020205E202000u64 == 0 ==> (b1 * 1970363492082688u64) as u64 >> 54u64 < 1024u64,
        b1 & !0x002020205E202000u64 == 0 && b2 & !0x002020205E202000u64 == 0 && b1 != b2 ==> (b1 * 1970363492082688u64) as u64 >> 54u64
            != (b2 * 1970363492082688u64) as u64 >> 54u64,
        b1 & !0x004040403E404000u64 == 0 ==> (b1 * 1729664285938024960u64) as u64 >> 54u64 < 1024u64,
        b1 & !0x004040403E404000u64 == 0 && b2 & !0x004040403E404000u64 == 0 && b1 != b2 ==> (b1 * 1729664285938024960u64) as u64 >> 54u64
            != (b2 * 1729664285938024960u64) as u64 >> 54u64,
        b1 & !0x008080807E808000u64 == 0 ==> (b1 * 4836870457972064321u64) as u64 >> 53u64 < 2048u64,
        b1 & !0x008080807E808000u64 == 0 && b2 & !0x008080807E808000u64 == 0 && b1 != b2 ==> (b1 * 4836870457972064321u64) as u64 >> 53u64
            != (b2 * 4836870457972064321u64) as u64 >> 53u64,
{
}
/// The built-in rook magics of squares 32 to 47: every blocker board of
/// the square's mask lands below 2^(squares in the mask), and distinct
/// boards land apart.
#[verifier::rlimit(100)]
proof fn lemma_rook_fits_2(b1: u64, b2: u64)
    by (bit_vector)
    ensures
        b1 & !0x0001017E01010100u64 == 0 ==> (b1 * 141012374650913u64) as u64 >> 53u64 < 2048u64,
        b1 & !0x0001017E01010100u64 == 0 && b2 & !0x0001017E01010100u64 == 0 && b1 != b2 ==> (b1 * 141012374650913u64) as u64 >> 53u64
            != (b2 * 141012374650913u64) as u64 >> 53u64,
        b1 & !0x0002027C02020200u64 == 0 ==> (b1 * 4652253601601699840u64) as u64 >> 54u64 < 1024u64,
        b1 & !0x0002027C02020200u64 == 0 && b2 & !0x0002027C02020200u64 == 0 && b1 != b2 ==> (b1 * 4652253601601699840u64) as u64 >> 54u64
            != (b2 * 4652253601601699840u64) as u64 >> 54u64,
        b1 & !0x0004047A04040400u64 == 0 ==> (b1 * 58687601506263040u64) as u64 >> 54u64 < 1024u64,
        b1 & !0x0004047A04040400u64 == 0 && b2 & !0x0004047A04040400u64 == 0 && b1 != b2 ==> (b1 * 58687601506263040u64) as u64 >> 54u64
            != (b2 * 58687601506263040u64) as u64 >> 54u64,
        b1 & !0x0008087608080800u64 == 0 ==> (b1 * 281543780081672u64) as u64 >> 54u64 < 1024u64,
        b1 & !0x0008087608080800u64 == 0 && b2 & !0x0008087608080800u64 == 0 && b1 != b2 ==> (b1 * 281543780081672u64) as u64 >> 54u64
            != (b2 * 281543780081672u64) as u64 >> 54u64,
        b1 & !0x0010106E10101000u64 == 0 ==> (b1 * 1157433900411130112u64) as u64 >> 54u64 < 1024u64,
        b1 & !0x0010106E10101000u64 == 0 && b2 & !0x0010106E10101000u64 == 0 && b1 != b2 ==> (b1 * 1157433900411130112u64) as u64 >> 54u64
            != (b2 * 1157433900411130112u64) as u64 >> 54u64,
        b1 & !0x0020205E20202000u64 == 0 ==> (b1 * 81628378934806544u64) as u64 >> 54u64 < 1024u64,
        b1 & !0x0020205E20202000u64 == 0 && b2 & !0x0020205E20202000u64 == 0 && b1 != b2 ==> (b1 * 81628378934806544u64) as u64 >> 54u64
            != (b2 * 81628378934806544u64) as u64 >> 54u64,
        b1 & !0x0040403E40404000u64 == 0 ==> (b1 * 2310366730829959192u64) as u64 >> 54u64 < 1024u64,
        b1 & !0x0040403E40404000u64 == 0 && b2 & !0x0040403E40404000u64 == 0 && b1 != b2 ==> (b1 * 2310366730829959192u64) as u64 >> 54u64
            != (b2 * 2310366730829959192u64) as u64 >> 54u64,
        b1 & !0x0080807E80808000u64 == 0 ==> (b1 * 2900476768907429780u64) as u64 >> 53u64 < 2048u64,
        b1 & !0x0080807E80808000u64 == 0 && b2 & !0x0080807E80808000u64 == 0 && b1 != b2 ==> (b1 * 2900476768907429780u64) as u64 >> 53u64
            != (b2 * 2900476768907429780u64) as u64 >> 53u64,
        b1 & !0x00017E0101010100u64 == 0 ==> (b1 * 36558770110480u64) as u64 >> 53u64 < 2048u64,
        b1 & !0x00017E0101010100u64 == 0 && b2 & !0x00017E0101010100u64 == 0 && b1 != b2 ==> (b1 * 36558770110480u64) as u64 >> 53u64
            != (b2 * 36558770110480u64) as u64 >> 53u64,
        b1 & !0x00027C0202020200u64 == 0 ==> (b1 * 9042384969023488u64) as u64 >> 54u64 < 1024u64,
        b1 & !0x00027C0202020200u64 == 0 && b2 & !0x00027C0202020200u64 == 0 && b1 != b2 ==> (b1 * 9042384969023488u64) as u64 >> 54u64
            != (b2 * 9042384969023488u64) as u64 >> 54u64,
        b1 & !0x00047A0404040400u64 == 0 ==> (b1 * 180425597514743824u64) as u64 >> 54u64 < 1024u64,
        b1 & !0x00047A0404040400u64 == 0 && b2 & !0x00047A0404040400u64 == 0 && b1 != b2 ==> (b1 * 180425597514743824u64) as u64 >> 54u64
            != (b2 * 180425597514743824u64) as u64 >> 54u64,
        b1 & !0x0008760808080800u64 == 0 ==> (b1 * 5487636764434923528u64) as u64 >> 54u64 < 1024u64,
        b1 & !0x0008760808080800u64 == 0 && b2 & !0x0008760808080800u64 == 0 && b1 != b2 ==> (b1 * 5487636764434923528u64) as u64 >> 54u64
            != (b2 * 5487636764434923528u64) as u64 >> 54u64,
        b1 & !0x00106E1010101000u64 == 0 ==> (b1 * 5766860422494879764u64) as u64 >> 54u64 < 1024u64,
        b1 & !0x00106E1010101000u64 == 0 && b2 & !0x00106E1010101000u64 == 0 && b1 != b2 ==> (b1 * 5766860422494879764u64) as u64 >> 54u64
            != (b2 * 5766860422494879764u64) as u64 >> 54u64,
        b1 & !0x00205E2020202000u64 == 0 ==> (b1 * 9224498487624761348u64) as u64 >> 54u64 < 1024u64,
        b1 & !0x00205E2020202000u64 == 0 && b2 & !0x00205E2020202000u64 == 0 && b1 != b2 ==> (b1 * 9224498487624761348u64) as u64 >> 54u64
            != (b2 * 9224498487624761348u64) as u64 >> 54u64,
        b1 & !0x00403E4040404000u64 == 0 ==> (b1 * 41702298761822218u64) as u64 >> 54u64 < 1024u64,
        b1 & !0x00403E4040404000u64 == 0 && b2 & !0x00403E4040404000u64 == 0 && b1 != b2 ==> (b1 * 41702298761822218u64) as u64 >> 54u64
            != (b2 * 41702298761822218u64) as u64 >> 54u64,
        b1 & !0x00807E8080808000u64 == 0 ==> (b1 * 45599234000551940u64) as u64 >> 53u64 < 2048u64,
        b1 & !0x00807E8080808000u64 == 0 && b2 & !0x00807E8080808000u64 == 0 && b1 != b2 ==> (b1 * 45599234000551940u64) as u64 >> 53u64
            != (b2 * 45599234000551940u64) as u64 >> 53u64,
{
}
/// The built-in rook magics of squares 48 to 63: every blocker board of
/// the square's mask lands below 2^(squares in the mask), and distinct
/// boards land apart.
#[verifier::rlimit(100)]
proof fn lemma_rook_fits_3(b1: u64, b2: u64)
    by (bit_vector)
    ensures
        b1 & !0x007E010101010100u64 == 0 ==> (b1 * 70370891935872u64) as u64 >> 53u64 < 2048u64,
        b1 & !0x007E010101010100u64 == 0 && b2 & !0x007E010101010100u64 == 0 && b1 != b2 ==> (b1 * 70370891935872u64) as u64 >> 53u64
            != (b2 * 70370891935872u64) as u64 >> 53u64,
        b1 & !0x007C020202020200u64 == 0 ==> (b1 * 19210671497487104u64) as u64 >> 54u64 < 1024u64,
        b1 & !0x007C020202020200u64 == 0 && b2 & !0x007C020202020200u64 == 0 && b1 != b2 ==> (b1 * 19210671497487104u64) as u64 >> 54u64
            != (b2 * 19210671497487104u64) as u64 >> 54u64,
        b1 & !0x007A040404040400u64 == 0 ==> (b1 * 387030266675328u64) as u64 >> 54u64 < 1024u64,
        b1 & !0x007A040404040400u64 == 0 && b2 & !0x007A040404040400u64 == 0 && b1 != b2 ==> (b1 * 387030266675328u64) as u64 >> 54u64
            != (b2 * 387030266675328u64) as u64 >> 54u64,
        b1 & !0x0076080808080800u64 == 0 ==> (b1 * 289215847808893056u64) as u64 >> 54u64 < 1024u64,
        b1 & !0x0076080808080800u64 == 0 && b2 & !0x0076080808080800u64 == 0 && b1 != b2 ==> (b1 * 289215847808893056u64) as u64 >> 54u64
            != (b2 * 289215847808893056u64) as u64 >> 54u64,
        b1 & !0x006E101010101000u64 == 0 ==> (b1 * 576469550545240192u64) as u64 >> 54u64 < 1024u64,
        b1 & !0x006E101010101000u64 == 0 && b2 & !0x006E101010101000u64 == 0 && b1 != b2 ==> (b1 * 576469550545240192u64) as u64 >> 54u64
            != (b2 * 576469550545240192u64) as u64 >> 54u64,
        b1 & !0x005E202020202000u64 == 0 ==> (b1 * 1153216449143113729u64) as u64 >> 54u64 < 1024u64,
        b1 & !0x005E202020202000u64 == 0 && b2 & !0x005E202020202000u64 == 0 && b1 != b2 ==> (b1 * 1153216449143113729u64) as u64 >> 54u64
            != (b2 * 1153216449143113729u64) as u64 >> 54u64,
        b1 & !0x003E404040404000u64 == 0 ==> (b1 * 9350715278336u64) as u64 >> 54u64 < 1024u64,
        b1 & !0x003E404040404000u64 == 0 && b2 & !0x003E404040404000u64 == 0 && b1 != b2 ==> (b1 * 9350715278336u64) as u64 >> 54u64
            != (b2 * 9350715278336u64) as u64 >> 54u64,
        b1 & !0x007E808080808000u64 == 0 ==> (b1 * 288521763922764288u64) as u64 >> 53u64 < 2048u64,
        b1 & !0x007E808080808000u64 == 0 && b2 & !0x007E808080808000u64 == 0 && b1 != b2 ==> (b1 * 288521763922764288u64) as u64 >> 53u64
            != (b2 * 288521763922764288u64) as u64 >> 53u64,
        b1 & !0x7E01010101010100u64 == 0 ==> (b1 * 282782794268833u64) as u64 >> 52u64 < 4096u64,
        b1 & !0x7E01010101010100u64 == 0 && b2 & !0x7E01010101010100u64 == 0 && b1 != b2 ==> (b1 * 282782794268833u64) as u64 >> 52u64
            != (b2 * 282782794268833u64) as u64 >> 52u64,
        b1 & !0x7C02020202020200u64 == 0 ==> (b1 * 595672521157161122u64) as u64 >> 53u64 < 2048u64,
        b1 & !0x7C02020202020200u64 == 0 && b2 & !0x7C02020202020200u64 == 0 && b1 != b2 ==> (b1 * 595672521157161122u64) as u64 >> 53u64
            != (b2 * 595672521157161122u64) as u64 >> 53u64,
        b1 & !0x7A04040404040400u64 == 0 ==> (b1 * 436884352794689609u64) as u64 >> 53u64 < 2048u64,
        b1 & !0x7A04040404040400u64 == 0 && b2 & !0x7A04040404040400u64 == 0 && b1 != b2 ==> (b1 * 436884352794689609u64) as u64 >> 53u64
            != (b2 * 436884352794689609u64) as u64 >> 53u64,
        b1 & !0x7608080808080800u64 == 0 ==> (b1 * 9241667927690743809u64) as u64 >> 53u64 < 2048u64,
        b1 & !0x7608080808080800u64 == 0 && b2 & !0x7608080808080800u64 == 0 && b1 != b2 ==> (b1 * 9241667927690743809u64) as u64 >> 53u64
            != (b2 * 9241667927690743809u64) as u64 >> 53u64,
        b1 & !0x6E10101010101000u64 == 0 ==> (b1 * 5188428314494240769u64) as u64 >> 53u64 < 2048u64,
        b1 & !0x6E10101010101000u64 == 0 && b2 & !0x6E10101010101000u64 == 0 && b1 != b2 ==> (b1 * 5188428314494240769u64) as u64 >> 53u64
            != (b2 * 5188428314494240769u64) as u64 >> 53u64,
        b1 & !0x5E20202020202000u64 == 0 ==> (b1 * 1157988067282792450u64) as u64 >> 53u64 < 2048u64,
        b1 & !0x5E20202020202000u64 == 0 && b2 & !0x5E20202020202000u64 == 0 && b1 != b2 ==> (b1 * 1157988067282792450u64) as u64 >> 53u64
            != (b2 * 1157988067282792450u64) as u64 >> 53u64,
        b1 & !0x3E40404040404000u64 == 0 ==> (b1 * 1152939243166828548u64) as u64 >> 53u64 < 2048u64,
        b1 & !0x3E40404040404000u64 == 0 && b2 & !0x3E40404040404000u64 == 0 && b1 != b2 ==> (b1 * 1152939243166828548u64) as u64 >> 53u64
            != (b2 * 1152939243166828548u64) as u64 >> 53u64,
        b1 & !0x7E80808080808000u64 == 0 ==> (b1 * 4611967569673330817u64) as u64 >> 52u64 < 4096u64,
        b1 & !0x7E80808080808000u64 == 0 && b2 & !0x7E80808080808000u64 == 0 && b1 != b2 ==> (b1 * 4611967569673330817u64) as u64 >> 52u64
            != (b2 * 4611967569673330817u64) as u64 >> 52u64,
{
}
/// The built-in bishop magics of squares 0 to 31: every blocker board of
/// the square's mask lands below 2^(squares in the mask), and distinct
/// boards land apart.
#[verifier::rlimit(100)]
proof fn lemma_bishop_fits_0(b1: u64, b2: u64)
    by (bit_vector)
    ensures
        b1 & !0x0040201008040200u64 == 0 ==> (b1 * 2310454429704290569u64) as u64 >> 58u64 < 64u64,
        b1 & !0x0040201008040200u64 == 0 && b2 & !0x0040201008040200u64 == 0 && b1 != b2 ==> (b1 * 2310454429704290569u64) as u64 >> 58u64
            != (b2 * 2310454429704290569u64) as u64 >> 58u64,
        b1 & !0x0000402010080400u64 == 0 ==> (b1 * 37163502750244928u64) as u64 >> 59u64 < 32u64,
        b1 & !0x0000402010080400u64 == 0 && b2 & !0x0000402010080400u64 == 0 && b1 != b2 ==> (b1 * 37163502750244928u64) as u64 >> 59u64
            != (b2 * 37163502750244928u64) as u64 >> 59u64,
        b1 & !0x0000004020100A00u64 == 0 ==> (b1 * 145330200115150856u64) as u64 >> 59u64 < 32u64,
        b1 & !0x0000004020100A00u64 == 0 && b2 & !0x0000004020100A00u64 == 0 && b1 != b2 ==> (b1 * 145330200115150856u64) as u64 >> 59u64
            != (b2 * 145330200115150856u64) as u64 >> 59u64,
        b1 & !0x0000000040221400u64 == 0 ==> (b1 * 573953659699200u64) as u64 >> 59u64 < 32u64,
        b1 & !0x0000000040221400u64 == 0 && b2 & !0x0000000040221400u64 == 0 && b1 != b2 ==> (b1 * 573953659699200u64) as u64 >> 59u64
            != (b2 * 573953659699200u64) as u64 >> 59u64,
        b1 & !0x0000000002442800u64 == 0 ==> (b1 * 9845999220824211456u64) as u64 >> 59u64 < 32u64,
        b1 & !0x0000000002442800u64 == 0 && b2 & !0x0000000002442800u64 == 0 && b1 != b2 ==> (b1 * 9845999220824211456u64) as u64 >> 59u64
            != (b2 * 9845999220824211456u64) as u64 >> 59u64,
        b1 & !0x0000000204085000u64 == 0 ==> (b1 * 574016004032512u64) as u64 >> 59u64 < 32u64,
        b1 & !0x0000000204085000u64 == 0 && b2 & !0x0000000204085000u64 == 0 && b1 != b2 ==> (b1 * 574016004032512u64) as u64 >> 59u64
            != (b2 * 574016004032512u64) as u64 >> 59u64,
        b1 & !0x0000020408102000u64 == 0 ==> (b1 * 10093699283674480640u64) as u64 >> 59u64 < 32u64,
        b1 & !0x0000020408102000u64 == 0 && b2 & !0x0000020408102000u64 == 0 && b1 != b2 ==> (b1 * 10093699283674480640u64) as u64 >> 59u64
            != (b2 * 10093699283674480640u64) as u64 >> 59u64,
        b1 & !0x0002040810204000u64 == 0 ==> (b1 * 2306407060834902016u64) as u64 >> 58u64 < 64u64,
        b1 & !0x0002040810204000u64 == 0 && b2 & !0x0002040810204000u64 == 0 && b1 != b2 ==> (b1 * 2306407060834902016u64) as u64 >> 58u64
            != (b2 * 2306407060834902016u64) as u64 >> 58u64,
        b1 & !0x0020100804020000u64 == 0 ==> (b1 * 2883575003184432136u64) as u64 >> 59u64 < 32u64,
        b1 & !0x0020100804020000u64 == 0 && b2 & !0x0020100804020000u64 == 0 && b1 != b2 ==> (b1 * 2883575003184432136u64) as u64 >> 59u64
            != (b2 * 2883575003184432136u64) as u64 >> 59u64,
        b1 & !0x0040201008040000u64 == 0 ==> (b1 * 1747410678824308864u64) as u64 >> 59u64 < 32u64,
        b1 & !0x0040201008040000u64 == 0 && b2 & !0x0040201008040000u64 == 0 && b1 != b2 ==> (b1 * 1747410678824308864u64) as u64 >> 59u64
            != (b2 * 1747410678824308864u64) as u64 >> 59u64,
        b1 & !0x00004020100A0000u64 == 0 ==> (b1 * 9259405249167245312u64) as u64 >> 59u64 < 32u64,
        b1 & !0x00004020100A0000u64 == 0 && b2 & !0x00004020100A0000u64 == 0 && b1 != b2 ==> (b1 * 9259405249167245312u64) as u64 >> 59u64
            != (b2 * 9259405249167245312u64) as u64 >> 59u64,
        b1 & !0x0000004022140000u64 == 0 ==> (b1 * 936784527773139074u64) as u64 >> 59u64 < 32u64,
        b1 & !0x0000004022140000u64 == 0 && b2 & !0x0000004022140000u64 == 0 && b1 != b2 ==> (b1 * 936784527773139074u64) as u64 >> 59u64
            != (b2 * 936784527773139074u64) as u64 >> 59u64,
        b1 & !0x0000000244280000u64 == 0 ==> (b1 * 4629702641998381057u64) as u64 >> 59u64 < 32u64,
        b1 & !0x0000000244280000u64 == 0 && b2 & !0x0000000244280000u64 == 0 && b1 != b2 ==> (b1 * 4629702641998381057u64) as u64 >> 59u64
            != (b2 * 4629702641998381057u64) as u64 >> 59u64,
        b1 & !0x0000020408500000u64 == 0 ==> (b1 * 201028145628315697u64) as u64 >> 59u64 < 32u64,
        b1 & !0x0000020408500000u64 == 0 && b2 & !0x0000020408500000u64 == 0 && b1 != b2 ==> (b1 * 201028145628315697u64) as u64 >> 59u64
            != (b2 * 201028145628315697u64) as u64 >> 59u64,
        b1 & !0x0002040810200000u64 == 0 ==> (b1 * 4899992295377881088u64) as u64 >> 59u64 < 32u64,
        b1 & !0x0002040810200000u64 == 0 && b2 & !0x0002040810200000u64 == 0 && b1 != b2 ==> (b1 * 4899992295377881088u64) as u64 >> 59u64
            != (b2 * 4899992295377881088u64) as u64 >> 59u64,
        b1 & !0x0004081020400000u64 == 0 ==> (b1 * 4630405483133404688u64) as u64 >> 59u64 < 32u64,
        b1 & !0x0004081020400000u64 == 0 && b2 & !0x0004081020400000u64 == 0 && b1 != b2 ==> (b1 * 4630405483133404688u64) as u64 >> 59u64
            != (b2 * 4630405483133404688u64) as u64 >> 59u64,
        b1 & !0x0010080402000200u64 == 0 ==> (b1 * 153474299838154784u64) as u64 >> 59u64 < 32u64,
        b1 & !0x0010080402000200u64 == 0 && b2 & !0x0010080402000200u64 == 0 && b1 != b2 ==> (b1 * 153474299838154784u64) as u64 >> 59u64
            != (b2 * 153474299838154784u64) as u64 >> 59u64,
        b1 & !0x0020100804000400u64 == 0 ==> (b1 * 2286992943744036u64) as u64 >> 59u64 < 32u64,
        b1 & !0x0020100804000400u64 == 0 && b2 & !0x0020100804000400u64 == 0 && b1 != b2 ==> (b1 * 2286992943744036u64) as u64 >> 59u64
            != (b2 * 2286992943744036u64) as u64 >> 59u64,
        b1 & !0x004020100A000A00u64 == 0 ==> (b1 * 434597432802681416u64) as u64 >> 57u64 < 128u64,
        b1 & !0x004020100A000A00u64 == 0 && b2 & !0x004020100A000A00u64 == 0 && b1 != b2 ==> (b1 * 434597432802681416u64) as u64 >> 57u64
            != (b2 * 434597432802681416u64) as u64 >> 57u64,
        b1 & !0x0000402214001400u64 == 0 ==> (b1 * 865817269052115456u64) as u64 >> 57u64 < 128u64,
        b1 & !0x0000402214001400u64 == 0 && b2 & !0x0000402214001400u64 == 0 && b1 != b2 ==> (b1 * 865817269052115456u64) as u64 >> 57u64
            != (b2 * 865817269052115456u64) as u64 >> 57u64,
        b1 & !0x0000024428002800u64 == 0 ==> (b1 * 9156750026475656u64) as u64 >> 57u64 < 128u64,
        b1 & !0x0000024428002800u64 == 0 && b2 & !0x0000024428002800u64 == 0 && b1 != b2 ==> (b1 * 9156750026475656u64) as u64 >> 57u64
            != (b2 * 9156750026475656u64) as u64 >> 57u64,
        b1 & !0x0002040850005000u64 == 0 ==> (b1 * 599823317909770240u64) as u64 >> 57u64 < 128u64,
        b1 & !0x0002040850005000u64 == 0 && b2 & !0x0002040850005000u64 == 0 && b1 != b2 ==> (b1 * 599823317909770240u64) as u64 >> 57u64
            != (b2 * 599823317909770240u64) as u64 >> 57u64,
        b1 & !0x0004081020002000u64 == 0 ==> (b1 * 4578375142474880u64) as u64 >> 59u64 < 32u64,
        b1 & !0x0004081020002000u64 == 0 && b2 & !0x0004081020002000u64 == 0 && b1 != b2 ==> (b1 * 4578375142474880u64) as u64 >> 59u64
            != (b2 * 4578375142474880u64) as u64 >> 59u64,
        b1 & !0x0008102040004000u64 == 0 ==> (b1 * 2308525819264500224u64) as u64 >> 59u64 < 32u64,
        b1 & !0x0008102040004000u64 == 0 && b2 & !0x0008102040004000u64 == 0 && b1 != b2 ==> (b1 * 2308525819264500224u64) as u64 >> 59u64
            != (b2 * 2308525819264500224u64) as u64 >> 59u64,
        b1 & !0x0008040200020400u64 == 0 ==> (b1 * 18596057879421451u64) as u64 >> 59u64 < 32u64,
        b1 & !0x0008040200020400u64 == 0 && b2 & !0x0008040200020400u64 == 0 && b1 != b2 ==> (b1 * 18596057879421451u64) as u64 >> 59u64
            != (b2 * 18596057879421451u64) as u64 >> 59u64,
        b1 & !0x0010080400040800u64 == 0 ==> (b1 * 18331093560345096u64) as u64 >> 59u64 < 32u64,
        b1 & !0x0010080400040800u64 == 0 && b2 & !0x0010080400040800u64 == 0 && b1 != b2 ==> (b1 * 18331093560345096u64) as u64 >> 59u64
            != (b2 * 18331093560345096u64) as u64 >> 59u64,
        b1 & !0x0020100A000A1000u64 == 0 ==> (b1 * 2305880392877736000u64) as u64 >> 57u64 < 128u64,
        b1 & !0x0020100A000A1000u64 == 0 && b2 & !0x0020100A000A1000u64 == 0 && b1 != b2 ==> (b1 * 2305880392877736000u64) as u64 >> 57u64
            != (b2 * 2305880392877736000u64) as u64 >> 57u64,
        b1 & !0x0040221400142200u64 == 0 ==> (b1 * 56602859688444160u64) as u64 >> 55u64 < 512u64,
        b1 & !0x0040221400142200u64 == 0 && b2 & !0x0040221400142200u64 == 0 && b1 != b2 ==> (b1 * 56602859688444160u64) as u64 >> 55u64
            != (b2 * 56602859688444160u64) as u64 >> 55u64,
        b1 & !0x0002442800284400u64 == 0 ==> (b1 * 5382084129205534724u64) as u64 >> 55u64 < 512u64,
        b1 & !0x0002442800284400u64 == 0 && b2 & !0x0002442800284400u64 == 0 && b1 != b2 ==> (b1 * 5382084129205534724u64) as u64 >> 55u64
            != (b2 * 5382084129205534724u64) as u64 >> 55u64,
        b1 & !0x0004085000500800u64 == 0 ==> (b1 * 5767422822691897608u64) as u64 >> 57u64 < 128u64,
        b1 & !0x0004085000500800u64 == 0 && b2 & !0x0004085000500800u64 == 0 && b1 != b2 ==> (b1 * 5767422822691897608u64) as u64 >> 57u64
            != (b2 * 5767422822691897608u64) as u64 >> 57u64,
        b1 & !0x0008102000201000u64 == 0 ==> (b1 * 283691220206592u64) as u64 >> 59u64 < 32u64,
        b1 & !0x0008102000201000u64 == 0 && b2 & !0x0008102000201000u64 == 0 && b1 != b2 ==> (b1 * 283691220206592u64) as u64 >> 59u64
            != (b2 * 283691220206592u64) as u64 >> 59u64,
        b1 & !0x0010204000402000u64 == 0 ==> (b1 * 144398865845093376u64) as u64 >> 59u64 < 32u64,
        b1 & !0x0010204000402000u64 == 0 && b2 & !0x0010204000402000u64 == 0 && b1 != b2 ==> (b1 * 144398865845093376u64) as u64 >> 59u64
            != (b2 * 144398865845093376u64) as u64 >> 59u64,
{
}
/// The built-in bishop magics of squares 32 to 63: every blocker board of
/// the square's mask lands below 2^(squares in the mask), and distinct
/// boards land apart.
#[verifier::rlimit(100)]
proof fn lemma_bishop_fits_1(b1: u64, b2: u64)
    by (bit_vector)
    ensures
        b1 & !0x0004020002040800u64 == 0 ==> (b1 * 1163523824685120u64) as u64 >> 59u64 < 32u64,
        b1 & !0x0004020002040800u64 == 0 && b2 & !0x0004020002040800u64 == 0 && b1 != b2 ==> (b1 * 1163523824685120u64) as u64 >> 59u64
            != (b2 * 1163523824685120u64) as u64 >> 59u64,
        b1 & !0x0008040004081000u64 == 0 ==> (b1 * 20267333288223264u64) as u64 >> 59u64 < 32u64,
        b1 & !0x0008040004081000u64 == 0 && b2 & !0x0008040004081000u64 == 0 && b1 != b2 ==> (b1 * 20267333288223264u64) as u64 >> 59u64
            != (b2 * 20267333288223264u64) as u64 >> 59u64,
        b1 & !0x00100A000A102000u64 == 0 ==> (b1 * 325489801822240u64) as u64 >> 57u64 < 128u64,
        b1 & !0x00100A000A102000u64 == 0 && b2 & !0x00100A000A102000u64 == 0 && b1 != b2 ==> (b1 * 325489801822240u64) as u64 >> 57u64
            != (b2 * 325489801822240u64) as u64 >> 57u64,
        b1 & !0x0022140014224000u64 == 0 ==> (b1 * 4755836425302245636u64) as u64 >> 55u64 < 512u64,
        b1 & !0x0022140014224000u64 == 0 && b2 & !0x0022140014224000u64 == 0 && b1 != b2 ==> (b1 * 4755836425302245636u64) as u64 >> 55u64
            != (b2 * 4755836425302245636u64) as u64 >> 55u64,
        b1 & !0x0044280028440200u64 == 0 ==> (b1 * 594475563668865152u64) as u64 >> 55u64 < 512u64,
        b1 & !0x0044280028440200u64 == 0 && b2 & !0x0044280028440200u64 == 0 && b1 != b2 ==> (b1 * 594475563668865152u64) as u64 >> 55u64
            != (b2 * 594475563668865152u64) as u64 >> 55u64,
        b1 & !0x0008500050080400u64 == 0 ==> (b1 * 1162496335329427604u64) as u64 >> 57u64 < 128u64,
        b1 & !0x0008500050080400u64 == 0 && b2 & !0x0008500050080400u64 == 0 && b1 != b2 ==> (b1 * 1162496335329427604u64) as u64 >> 57u64
            != (b2 * 1162496335329427604u64) as u64 >> 57u64,
        b1 & !0x0010200020100800u64 == 0 ==> (b1 * 9244765235704371236u64) as u64 >> 59u64 < 32u64,
        b1 & !0x0010200020100800u64 == 0 && b2 & !0x0010200020100800u64 == 0 && b1 != b2 ==> (b1 * 9244765235704371236u64) as u64 >> 59u64
            != (b2 * 9244765235704371236u64) as u64 >> 59u64,
        b1 & !0x0020400040201000u64 == 0 ==> (b1 * 576667461564269056u64) as u64 >> 59u64 < 32u64,
        b1 & !0x0020400040201000u64 == 0 && b2 & !0x0020400040201000u64 == 0 && b1 != b2 ==> (b1 * 576667461564269056u64) as u64 >> 59u64
            != (b2 * 576667461564269056u64) as u64 >> 59u64,
        b1 & !0x0002000204081000u64 == 0 ==> (b1 * 146371454722771202u64) as u64 >> 59u64 < 32u64,
        b1 & !0x0002000204081000u64 == 0 && b2 & !0x0002000204081000u64 == 0 && b1 != b2 ==> (b1 * 146371454722771202u64) as u64 >> 59u64
            != (b2 * 146371454722771202u64) as u64 >> 59u64,
        b1 & !0x0004000408102000u64 == 0 ==> (b1 * 426679365288452u64) as u64 >> 59u64 < 32u64,
        b1 & !0x0004000408102000u64 == 0 && b2 & !0x0004000408102000u64 == 0 && b1 != b2 ==> (b1 * 426679365288452u64) as u64 >> 59u64
            != (b2 * 426679365288452u64) as u64 >> 59u64,
        b1 & !0x000A000A10204000u64 == 0 ==> (b1 * 13724105480340736u64) as u64 >> 57u64 < 128u64,
        b1 & !0x000A000A10204000u64 == 0 && b2 & !0x000A000A10204000u64 == 0 && b1 != b2 ==> (b1 * 13724105480340736u64) as u64 >> 57u64
            != (b2 * 13724105480340736u64) as u64 >> 57u64,
        b1 & !0x0014001422400000u64 == 0 ==> (b1 * 1152922330050364928u64) as u64 >> 57u64 < 128u64,
        b1 & !0x0014001422400000u64 == 0 && b2 & !0x0014001422400000u64 == 0 && b1 != b2 ==> (b1 * 1152922330050364928u64) as u64 >> 57u64
            != (b2 * 1152922330050364928u64) as u64 >> 57u64,
        b1 & !0x0028002844020000u64 == 0 ==> (b1 * 4620737202526097424u64) as u64 >> 57u64 < 128u64,
        b1 & !0x0028002844020000u64 == 0 && b2 & !0x0028002844020000u64 == 0 && b1 != b2 ==> (b1 * 4620737202526097424u64) as u64 >> 57u64
            != (b2 * 4620737202526097424u64) as u64 >> 57u64,
        b1 & !0x0050005008040200u64 == 0 ==> (b1 * 1316476062695166464u64) as u64 >> 57u64 < 128u64,
        b1 & !0x0050005008040200u64 == 0 && b2 & !0x0050005008040200u64 == 0 && b1 != b2 ==> (b1 * 1316476062695166464u64) as u64 >> 57u64
            != (b2 * 1316476062695166464u64) as u64 >> 57u64,
        b1 & !0x0020002010080400u64 == 0 ==> (b1 * 13981996823661781640u64) as u64 >> 59u64 < 32u64,
        b1 & !0x0020002010080400u64 == 0 && b2 & !0x0020002010080400u64 == 0 && b1 != b2 ==> (b1 * 13981996823661781640u64) as u64 >> 59u64
            != (b2 * 13981996823661781640u64) as u64 >> 59u64,
        b1 & !0x0040004020100800u64 == 0 ==> (b1 * 12430506881068303489u64) as u64 >> 59u64 < 32u64,
        b1 & !0x0040004020100800u64 == 0 && b2 & !0x0040004020100800u64 == 0 && b1 != b2 ==> (b1 * 12430506881068303489u64) as u64 >> 59u64
            != (b2 * 12430506881068303489u64) as u64 >> 59u64,
        b1 & !0x0000020408102000u64 == 0 ==> (b1 * 5193780677221351424u64) as u64 >> 59u64 < 32u64,
        b1 & !0x0000020408102000u64 == 0 && b2 & !0x0000020408102000u64 == 0 && b1 != b2 ==> (b1 * 5193780677221351424u64) as u64 >> 59u64
            != (b2 * 5193780677221351424u64) as u64 >> 59u64,
        b1 & !0x0000040810204000u64 == 0 ==> (b1 * 426612797737280u64) as u64 >> 59u64 < 32u64,
        b1 & !0x0000040810204000u64 == 0 && b2 & !0x0000040810204000u64 == 0 && b1 != b2 ==> (b1 * 426612797737280u64) as u64 >> 59u64
            != (b2 * 426612797737280u64) as u64 >> 59u64,
        b1 & !0x00000A1020400000u64 == 0 ==> (b1 * 37445932288049152u64) as u64 >> 59u64 < 32u64,
        b1 & !0x00000A1020400000u64 == 0 && b2 & !0x00000A1020400000u64 == 0 && b1 != b2 ==> (b1 * 37445932288049152u64) as u64 >> 59u64
            != (b2 * 37445932288049152u64) as u64 >> 59u64,
        b1 & !0x0000142240000000u64 == 0 ==> (b1 * 1171147012042137601u64) as u64 >> 59u64 < 32u64,
        b1 & !0x0000142240000000u64 == 0 && b2 & !0x0000142240000000u64 == 0 && b1 != b2 ==> (b1 * 1171147012042137601u64) as u64 >> 59u64
            != (b2 * 1171147012042137601u64) as u64 >> 59u64,
        b1 & !0x0000284402000000u64 == 0 ==> (b1 * 504403227018657856u64) as u64 >> 59u64 < 32u64,
        b1 & !0x0000284402000000u64 == 0 && b2 & !0x0000284402000000u64 == 0 && b1 != b2 ==> (b1 * 504403227018657856u64) as u64 >> 59u64
            != (b2 * 504403227018657856u64) as u64 >> 59u64,
        b1 & !0x0000500804020000u64 == 0 ==> (b1 * 4629845569785954560u64) as u64 >> 59u64 < 32u64,
        b1 & !0x0000500804020000u64 == 0 && b2 & !0x0000500804020000u64 == 0 && b1 != b2 ==> (b1 * 4629845569785954560u64) as u64 >> 59u64
            != (b2 * 4629845569785954560u64) as u64 >> 59u64,
        b1 & !0x0000201008040200u64 == 0 ==> (b1 * 4686013077882208273u64) as u64 >> 59u64 < 32u64,
        b1 & !0x0000201008040200u64 == 0 && b2 & !0x0000201008040200u64 == 0 && b1 != b2 ==> (b1 * 4686013077882208273u64) as u64 >> 59u64
            != (b2 * 4686013077882208273u64) as u64 >> 59u64,
        b1 & !0x0000402010080400u64 == 0 ==> (b1 * 1154056209263894528u64) as u64 >> 59u64 < 32u64,
        b1 & !0x0000402010080400u64 == 0 && b2 & !0x0000402010080400u64 == 0 && b1 != b2 ==> (b1 * 1154056209263894528u64) as u64 >> 59u64
            != (b2 * 1154056209263894528u64) as u64 >> 59u64,
        b1 & !0x0002040810204000u64 == 0 ==> (b1 * 613054853085794304u64) as u64 >> 58u64 < 64u64,
        b1 & !0x0002040810204000u64 == 0 && b2 & !0x0002040810204000u64 == 0 && b1 != b2 ==> (b1 * 613054853085794304u64) as u64 >> 58u64
            != (b2 * 613054853085794304u64) as u64 >> 58u64,
        b1 & !0x0004081020400000u64 == 0 ==> (b1 * 9025075185721408u64) as u64 >> 59u64 < 32u64,
        b1 & !0x0004081020400000u64 == 0 && b2 & !0x0004081020400000u64 == 0 && b1 != b2 ==> (b1 * 9025075185721408u64) as u64 >> 59u64
            != (b2 * 9025075185721408u64) as u64 >> 59u64,
        b1 & !0x000A102040000000u64 == 0 ==> (b1 * 9571249324951568u64) as u64 >> 59u64 < 32u64,
        b1 & !0x000A102040000000u64 == 0 && b2 & !0x000A102040000000u64 == 0 && b1 != b2 ==> (b1 * 9571249324951568u64) as u64 >> 59u64
            != (b2 * 9571249324951568u64) as u64 >> 59u64,
        b1 & !0x0014224000000000u64 == 0 ==> (b1 * 10999715432448u64) as u64 >> 59u64 < 32u64,
        b1 & !0x0014224000000000u64 == 0 && b2 & !0x0014224000000000u64 == 0 && b1 != b2 ==> (b1 * 10999715432448u64) as u64 >> 59u64
            != (b2 * 10999715432448u64) as u64 >> 59u64,
        b1 & !0x0028440200000000u64 == 0 ==> (b1 * 290408795603472u64) as u64 >> 59u64 < 32u64,
        b1 & !0x0028440200000000u64 == 0 && b2 & !0x0028440200000000u64 == 0 && b1 != b2 ==> (b1 * 290408795603472u64) as u64 >> 59u64
            != (b2 * 290408795603472u64) as u64 >> 59u64,
        b1 & !0x0050080402000000u64 == 0 ==> (b1 * 10664524198170591488u64) as u64 >> 59u64 < 32u64,
        b1 & !0x0050080402000000u64 == 0 && b2 & !0x0050080402000000u64 == 0 && b1 != b2 ==> (b1 * 10664524198170591488u64) as u64 >> 59u64
            != (b2 * 10664524198170591488u64) as u64 >> 59u64,
        b1 & !0x0020100804020000u64 == 0 ==> (b1 * 5924513492108288u64) as u64 >> 59u64 < 32u64,
        b1 & !0x0020100804020000u64 == 0 && b2 & !0x0020100804020000u64 == 0 && b1 != b2 ==> (b1 * 5924513492108288u64) as u64 >> 59u64
            != (b2 * 5924513492108288u64) as u64 >> 59u64,
        b1 & !0x0040201008040200u64 == 0 ==> (b1 * 90511840181764112u64) as u64 >> 58u64 < 64u64,
        b1 & !0x0040201008040200u64 == 0 && b2 & !0x0040201008040200u64 == 0 && b1 != b2 ==> (b1 * 90511840181764112u64) as u64 >> 58u64
            != (b2 * 90511840181764112u64) as u64 >> 58u64,
{
}
/// What the built-in magic of square `s` does to blocker boards of its
/// mask: where they land before the offset is added, and that distinct
/// boards land apart.
proof fn lemma_fits_at(s: int, is_rook: bool, b1: u64, b2: u64)
    requires
        0 <= s < 64,
    ensures
        ({
            let mask = slider_mask(s, is_rook);
            let magic = magic_constant(s, is_rook);
            let shift = (64 - mask_bits(s, is_rook)) as u64;
            &&& is_subset(b1, mask) ==> (b1 * magic) as u64 >> shift < two_to(mask_bits(s, is_rook))
            &&& is_subset(b1, mask) && is_subset(b2, mask) && b1 != b2 ==> (b1 * magic) as u64 >> shift != (b2
                * magic) as u64 >> shift
        }),
{
    lemma_magic_constants();
    reveal_with_fuel(two_to, 13);
    if is_rook {
        lemma_rook_table(s as u64);
        if s < 16 {
            lemma_rook_fits_0(b1, b2);
        } else if s < 32 {
            lemma_rook_fits_1(b1, b2);
        } else if s < 48 {
            lemma_rook_fits_2(b1, b2);
        } else {
            lemma_rook_fits_3(b1, b2);
        }
    } else {
        lemma_bishop_table(s as u64);
        if s < 32 {
            lemma_bishop_fits_0(b1, b2);
        } else {
            lemma_bishop_fits_1(b1, b2);
        }
    }
}

/// The built-in magic of every square fits its blocker boards.
pub proof fn lemma_square_fits(s: int, is_rook: bool)
    requires
        0 <= s < 64,
    ensures
        square_fits(built_magic(s, is_rook)),
{
    let m = built_magic(s, is_rook);
    lemma_layout_ok(is_rook);
    lemma_mask_bits(s, is_rook);
    lemma_boards_before_grows(s + 1, 64, is_rook);
    assert(m.offset == boards_before(s, is_rook));
    assert(m.shift as u64 == 64 - mask_bits(s, is_rook));
    assert forall|b: u64| is_subset(b, m.mask) implies m.offset <= #[trigger] magic_index(m, b) as usize as int
        && magic_index(m, b) as usize as int <= m.offset + two_to(pop_count(m.mask)) - 1 by {
        lemma_product(b, m.mask, m.magic);
        lemma_fits_at(s, is_rook, b, b);
        vstd::bits::lemma_u64_shr_is_div((b * m.magic) as u64, m.shift as u64);
    }
    assert forall|b1: u64, b2: u64|
        #![trigger magic_index(m, b1), magic_index(m, b2)]
        is_subset(b1, m.mask) && is_subset(b2, m.mask) && b1 != b2 implies magic_index(m, b1) as usize
            != magic_index(m, b2) as usize by {
        lemma_product(b1, m.mask, m.magic);
        lemma_product(b2, m.mask, m.magic);
        lemma_fits_at(s, is_rook, b1, b2);
        lemma_fits_at(s, is_rook, b1, b1);
        lemma_fits_at(s, is_rook, b2, b2);
        vstd::bits::lemma_u64_shr_is_div((b1 * m.magic) as u64, m.shift as u64);
        vstd::bits::lemma_u64_shr_is_div((b2 * m.magic) as u64, m.shift as u64);
    }
}

/// The built-in magic numbers index the whole attack table of both
/// sliders.
pub proof fn lemma_constants_fit(is_rook: bool)
    ensures
        constants_fit(is_rook),
{
    lemma_layout_ok(is_rook);
    assert forall|s: int| 0 <= s < 64 implies #[trigger] square_fits(built_magic(s, is_rook)) by {
        lemma_square_fits(s, is_rook);
    }
}

} // verus!
