use rustic::board::Board;
use rustic::evaluation::defs::{W, PHASE_VALUES, PIECE_VALUES};
use rustic::evaluation::material::count;
use rustic::evaluation::psqt::{psqt_set, PSQT_EG, PSQT_MG};
use rustic::evaluation::pst::{PST_EG, PST_MG};
use rustic::evaluation::Evaluation;
use rustic::fen::read;

const START: &str = "rnbqkbnr/pppppppp/8/8/8/8/PPPPPPPP/RNBQKBNR w KQkq - 0 1";

fn start_board() -> Board {
    let mut b = Board::new();
    read(START, &mut b);
    b
}

#[test]
fn material_of_start_position() {
    let b = start_board();
    assert_eq!(count(&b), (3960, 3960));
}

#[test]
fn material_of_empty_board_is_zero() {
    let b = Board::new();
    assert_eq!(count(&b), (0, 0));
}

#[test]
fn material_single_queen() {
    let mut b = Board::new();
    read("8/8/8/8/8/8/8/Q7 w - - 0 1", &mut b);
    assert_eq!(count(&b), (PIECE_VALUES[1], 0));
}

#[test]
fn phase_of_start_position() {
    let b = start_board();
    assert_eq!(Evaluation::count_phase(&b), 5560);
    let expected: i16 = 2 * (PHASE_VALUES[1] + 2 * PHASE_VALUES[2] + 2 * PHASE_VALUES[3] + 2 * PHASE_VALUES[4]);
    assert_eq!(Evaluation::count_phase(&b), expected);
}

#[test]
fn psqt_white_uses_flipped_table() {
    let mut b = Board::new();
    // A white king on a1 reads the table's element 56; a black king on a8 reads element 56 too.
    read("k7/8/8/8/8/8/8/K7 w - - 0 1", &mut b);
    let (w, bl) = Evaluation::psqt_apply(&b, &psqt_set());
    assert_eq!((w.mg(), w.eg()), (PSQT_MG[0][56], PSQT_EG[0][56]));
    assert_eq!((bl.mg(), bl.eg()), (PSQT_MG[0][56], PSQT_EG[0][56]));
    assert!(w == W(0, -95));
}

#[test]
fn psqt_start_position_is_symmetric() {
    let b = start_board();
    let (w, bl) = Evaluation::psqt_apply(&b, &psqt_set());
    assert!(w == bl);
}

#[test]
fn pst_start_position_is_symmetric() {
    let b = start_board();
    let (w, bl) = Evaluation::pst_apply(&b, &PST_MG);
    assert_eq!(w, bl);
    let (we, be) = Evaluation::pst_apply(&b, &PST_EG);
    assert_eq!(we, be);
}

#[test]
fn pst_single_pawn() {
    let mut b = Board::new();
    read("8/8/8/8/4P3/8/8/8 w - - 0 1", &mut b);
    // e4 is square 28; white reads element FLIP[28] = 36.
    assert_eq!(Evaluation::pst_apply(&b, &PST_MG), (PST_MG[5][36], 0));
}

#[test]
fn mirrored_position_swaps_psqt_sums() {
    let mut b1 = Board::new();
    read("r3k3/8/8/8/8/8/8/4K2R w - - 0 1", &mut b1);
    let mut b2 = Board::new();
    read("4k2r/8/8/8/8/8/8/R3K3 w - - 0 1", &mut b2);
    let set = psqt_set();
    let (w1, k1) = Evaluation::psqt_apply(&b1, &set);
    let (w2, k2) = Evaluation::psqt_apply(&b2, &set);
    assert_eq!((w2.0, w2.1), (k1.0, k1.1));
    assert_eq!((k2.0, k2.1), (w1.0, w1.1));
}
