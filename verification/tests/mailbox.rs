use rustic::attacks::{create_bishop_mask, king_board, knight_board, pawn_boards, create_rook_mask};
use rustic::defs::{BISHOP, KING, KNIGHT, QUEEN};
use rustic::magics::Magics;
use rustic::masks::{create, HelperBoard};
use rustic::movegen::movedefs::Move as Move64;
use rustic::movements::Movements;

#[test]
fn helper_board_layout() {
    let h = HelperBoard::new();
    assert_eq!(h.real[0], 21);
    assert_eq!(h.real[63], 98);
    assert_eq!(h.mailbox[21], 0);
    assert_eq!(h.mailbox[98], 63);
    assert_eq!(h.mailbox[20], 255);
    assert_eq!(h.mailbox[29], 255);
    assert_eq!(h.mailbox[5], 255);
    assert_eq!(h.mailbox[119], 255);
}

#[test]
fn mailbox_masks_match_bitboard_masks() {
    let m = create();
    for sq in 0..64u64 {
        assert_eq!(m.king[sq as usize], king_board(sq));
        assert_eq!(m.knight[sq as usize], knight_board(sq));
        assert_eq!(m.rook[sq as usize], create_rook_mask(sq as u8));
        assert_eq!(m.bishop[sq as usize], create_bishop_mask(sq as u8));
    }
    // Rook on a1: a2..a7 and b1..g1.
    assert_eq!(m.rook[0], 0x0001_0101_0101_017E);
}

#[test]
fn mailbox_attack_tables() {
    let mut m = Magics::new();
    let info = m.initialize();
    assert_eq!(m.get_non_slider_attacks(KING, 0), 0x302);
    assert_eq!(m.get_non_slider_attacks(KNIGHT, 0), knight_board(0));
    assert_eq!(m.get_non_slider_attacks(QUEEN, 0), 0);
    assert_eq!(m.get_pawn_attacks(0, 12), pawn_boards(12).0);
    assert_eq!(m.get_pawn_attacks(1, 52), pawn_boards(52).1);
    assert_eq!(m.get_pawn_attacks(0, 3), 0);
    assert_eq!(info.rook_move_masks[27], create_rook_mask(27));
    assert_eq!(info.bishop_move_masks[27], create_bishop_mask(27));
    // d4: up 3 (d5..d7), right 3 (e4..g4), down 2 (d3, d2), left 2 (c4, b4).
    assert_eq!(info.rook_squares_in_ray[27], [3, 3, 2, 2]);
    // a1 bishop: up-right 6, all others 0.
    assert_eq!(info.bishop_squares_in_ray[0], [6, 0, 0, 0]);
    let _ = BISHOP;
}

#[test]
fn movements_tables() {
    let mut mv = Movements::new();
    mv.initialize();
    assert_eq!(mv.get_non_slider_attacks(KING, 63), king_board(63));
    assert_eq!(mv.get_pawn_attacks(0, 8), pawn_boards(8).0);
    assert_eq!(mv.get_pawn_attacks(1, 60), 0);
    assert_eq!(mv.rook_magics[0].mask, create_rook_mask(0));
    assert_eq!(mv.rook_magics[0].shift, 64 - 12);
    assert_eq!(mv.bishop_magics[27].shift, 64 - 9);
}

#[test]
fn compact_move_fields() {
    let data: u64 = 5 | (12 << 3) | (28 << 9) | (4 << 15) | (1 << 18) | (1 << 21) | (1 << 23);
    let m = Move64 { data };
    assert_eq!(m.piece(), 5);
    assert_eq!(m.from(), 12);
    assert_eq!(m.to(), 28);
    assert_eq!(m.captured(), 4);
    assert_eq!(m.promoted(), 1);
    assert!(m.en_passant());
    assert!(!m.double_step());
    assert!(m.castling());
}

#[test]
fn defaults_are_empty_or_built() {
    let h = HelperBoard::default();
    assert_eq!(h.real[0], 21);
    let m = Magics::default();
    assert_eq!(m.king[27], 0);
    let mv = Movements::default();
    assert_eq!(mv.king[27], 0);
}
