use rustic::board::Board;
use rustic::defs::{KING, PAWN, PNONE, ROOK};
use rustic::fen::{fen_valid, read};

const START: &str = "rnbqkbnr/pppppppp/8/8/8/8/PPPPPPPP/RNBQKBNR w KQkq - 0 1";

#[test]
fn reads_start_position() {
    let mut b = Board::new();
    read(START, &mut b);
    assert_eq!(b.bb_pieces[0][PAWN], 0xFF00);
    assert_eq!(b.bb_pieces[1][PAWN], 0x00FF_0000_0000_0000);
    assert_eq!(b.bb_pieces[0][KING], 1 << 4);
    assert_eq!(b.bb_pieces[1][ROOK], (1 << 56) | (1 << 63));
    assert_eq!(b.bb_side[0], 0xFFFF);
    assert_eq!(b.bb_side[1], 0xFFFF_0000_0000_0000);
    assert_eq!(b.piece_list[4], KING);
    assert_eq!(b.piece_list[30], PNONE);
    assert_eq!(b.game_state.active_color, 0);
    assert_eq!(b.game_state.castling, 15);
    assert_eq!(b.game_state.en_passant, None);
    assert_eq!(b.game_state.halfmove_clock, 0);
    assert_eq!(b.game_state.fullmove_number, 1);
}

#[test]
fn reads_other_fields() {
    let mut b = Board::new();
    read("8/8/8/8/4p3/8/8/8 b Kq e3 12 40", &mut b);
    assert_eq!(b.game_state.active_color, 1);
    assert_eq!(b.game_state.castling, 1 + 8);
    assert_eq!(b.game_state.en_passant, Some(20));
    assert_eq!(b.game_state.halfmove_clock, 12);
    assert_eq!(b.game_state.fullmove_number, 40);
}

#[test]
fn single_castling_letter_sets_no_right() {
    let mut b = Board::new();
    read("8/8/8/8/8/8/8/8 w K - 0 1", &mut b);
    assert_eq!(b.game_state.castling, 0);
}

#[test]
fn validity_checks() {
    assert!(fen_valid(START));
    assert!(!fen_valid("rnbqkbnr/pppppppp/8/8/8/8/PPPPPPPP/RNBQKBNR w KQkq - 0"));
    assert!(!fen_valid("rnbqkbnr/pppppppp/8/8/8/8/PPPPPPPP/RNBQKBNX w KQkq - 0 1"));
    assert!(!fen_valid("rnbqkbnr/pppppppp/7/8/8/8/PPPPPPPP/RNBQKBNR w KQkq - 0 1"));
    assert!(!fen_valid("8/8/8/8/8/8/8/8 x - - 0 1"));
    assert!(!fen_valid("8/8/8/8/8/8/8/8 w KQkqK - 0 1"));
    assert!(!fen_valid("8/8/8/8/8/8/8/8 w - e4 0 1"));
    assert!(!fen_valid("8/8/8/8/8/8/8/8 w - - 51 1"));
    assert!(!fen_valid("8/8/8/8/8/8/8/8 w - - 0 10000"));
    assert!(fen_valid("8/8/8/8/8/8/8/8 w - - +5 0009999"));
    assert!(!fen_valid("8/8/8/8/8/8/8/8 w - - + 1"));
    assert!(!fen_valid("8/8/8/8/8/8/8/8/8 w - - 0 1"));
}
