use rustic::board::Board;
use rustic::defs::{BISHOP, PAWN, PNONE, ROOK};
use rustic::extra::wizardry::find_magics;
use rustic::fen::read;
use rustic::misc::active_side::in_check;
use rustic::movegen::movelist::MoveList;
use rustic::movegen::MoveGenerator;
use rustic::movements::magics::lookup;
use rustic::sliders::{bishop_attacks, rook_attacks};

fn board_from(fen: &str) -> Board {
    let mut b = Board::new();
    read(fen, &mut b);
    b
}

#[test]
fn start_position_has_twenty_moves() {
    let mg = MoveGenerator::new();
    let b = board_from("rnbqkbnr/pppppppp/8/8/8/8/PPPPPPPP/RNBQKBNR w KQkq - 0 1");
    let mut ml = MoveList::new();
    mg.gen_all_moves(&b, &mut ml);
    assert_eq!(ml.len(), 20);
}

#[test]
fn kiwipete_has_forty_eight_moves() {
    let mg = MoveGenerator::new();
    let b = board_from("r3k2r/p1ppqpb1/bn2pnp1/3PN3/1p2P3/2N2Q1p/PPPBBPPP/R3K2R w KQkq - 0 1");
    let mut ml = MoveList::new();
    mg.gen_all_moves(&b, &mut ml);
    assert_eq!(ml.len(), 48);
}

#[test]
fn check_detection() {
    let mg = MoveGenerator::new();
    assert!(in_check(&board_from("4k3/8/8/8/8/8/8/4KR1r w - - 0 1"), &mg) == false);
    assert!(in_check(&board_from("4k3/8/8/8/8/8/8/r3K3 w - - 0 1"), &mg));
    assert!(in_check(&board_from("4k3/8/8/8/8/8/3p4/4K3 w - - 0 1"), &mg));
    assert!(!in_check(&board_from("4k3/8/8/8/8/8/4p3/4K3 w - - 0 1"), &mg));
}

#[test]
fn found_bishop_magics_index_correctly() {
    let (table, found) = find_magics(BISHOP).expect("magics");
    assert_eq!(found.len(), 64);
    let magics: Vec<_> = found.iter().map(|f| f.magic).collect();
    for sq in [0usize, 27, 63] {
        for occ in [0u64, 0x0000_0010_2000_0000, 0xFFFF_FFFF_FFFF_FFFF] {
            assert_eq!(lookup(&table, &magics, false, sq, occ), bishop_attacks(occ, sq as u64));
        }
    }
}

#[test]
fn found_rook_magics_index_correctly() {
    let (table, found) = find_magics(ROOK).expect("magics");
    let magics: Vec<_> = found.iter().map(|f| f.magic).collect();
    assert_eq!(found[63].square, 63);
    assert_eq!(table.len(), 102_400);
    assert_eq!(found[0].magic.offset, 0);
    assert_eq!(found[0].magic.shift, 52);
    assert_eq!(found[0].end, 4095);
    assert_eq!(found[1].magic.offset, 4096);
    for sq in [0usize, 36] {
        for occ in [0u64, 0x0010_0000_0010_0010] {
            assert_eq!(lookup(&table, &magics, true, sq, occ), rook_attacks(occ, sq as u64));
        }
    }
}

#[test]
fn generated_moves_read_back_their_fields() {
    let mg = MoveGenerator::new();
    let b = board_from("rnbqkbnr/pppppppp/8/8/8/8/PPPPPPPP/RNBQKBNR w KQkq - 0 1");
    let mut ml = MoveList::new();
    mg.gen_all_moves(&b, &mut ml);
    let mut found = false;
    for i in 0..ml.len() {
        let m = ml.get_move(i);
        if m.from() == 12 && m.to() == 28 {
            found = true;
            assert_eq!(m.piece(), PAWN);
            assert_eq!(m.captured(), PNONE);
            assert_eq!(m.promoted(), PNONE);
            assert!(m.double_step());
            assert!(!m.en_passant());
            assert!(!m.castling());
            assert_eq!(m.sort_score(), 0);
            assert_eq!(m.as_string(), "e2e4");
        }
    }
    assert!(found);
}

#[test]
fn built_tables_lay_squares_side_by_side() {
    let (table, magics, ok) = rustic::movements::magics::build_table(true);
    assert!(ok);
    assert_eq!(table.len(), 102_400);
    assert_eq!(magics.len(), 64);
    assert_eq!(magics[0].offset, 0);
    // The rook mask of a1 has 12 squares: 4096 blocker boards.
    assert_eq!(magics[0].shift, 52);
    assert_eq!(magics[1].offset, 4096);
    let (btable, _, bok) = rustic::movements::magics::build_table(false);
    assert!(bok);
    assert_eq!(btable.len(), 5_248);
}

#[test]
fn square_parts_fill_the_attack_tables() {
    let mg = MoveGenerator::new();
    for (magics, size) in [(&mg.rook_magics, 102_400u64), (&mg.bishop_magics, 5_248u64)] {
        assert_eq!(magics.len(), 64);
        let mut next = 0u64;
        for m in magics.iter() {
            assert_eq!(m.offset, next);
            next = m.offset + (1u64 << m.mask.count_ones());
        }
        assert_eq!(next, size);
    }
    assert_eq!(mg.rook.len(), 102_400);
    assert_eq!(mg.bishop.len(), 5_248);
}

#[test]
fn magic_index_without_shift() {
    let m = rustic::movements::magics::Magics { mask: 0x0F, shift: 0, offset: 10, magic: 1 };
    assert_eq!(m.get_index(0xFF), 25);
}

#[test]
fn built_in_magics_index_both_tables() {
    let mg = MoveGenerator::new();
    assert!(mg.rook_indexed);
    assert!(mg.bishop_indexed);
}

#[test]
fn sort_score_reads_back() {
    let mut m = rustic::movegen::defs::Move::new(12 * 8 + 28 * 512 + 5);
    let before = m.get_move();
    m.set_score(300);
    assert_eq!(m.sort_score(), 300);
    assert_eq!(m.get_move(), before);
}
