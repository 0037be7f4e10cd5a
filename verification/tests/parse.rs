use rustic::defs::{BISHOP, KNIGHT, PNONE, QUEEN, ROOK};
use rustic::misc::parse::{
    algebraic_move_to_square_numbers, algebraic_square_to_number, promotion_piece_letter_to_number,
};

#[test]
fn square_names() {
    assert_eq!(algebraic_square_to_number("a1"), Some(0));
    assert_eq!(algebraic_square_to_number("e4"), Some(28));
    assert_eq!(algebraic_square_to_number("h8"), Some(63));
    assert_eq!(algebraic_square_to_number("i1"), None);
    assert_eq!(algebraic_square_to_number("a9"), None);
    assert_eq!(algebraic_square_to_number("E4"), None);
    assert_eq!(algebraic_square_to_number("e44"), None);
    assert_eq!(algebraic_square_to_number("é"), None);
}

#[test]
fn promotion_letters() {
    assert_eq!(promotion_piece_letter_to_number('q'), Some(QUEEN));
    assert_eq!(promotion_piece_letter_to_number('R'), Some(ROOK));
    assert_eq!(promotion_piece_letter_to_number('b'), Some(BISHOP));
    assert_eq!(promotion_piece_letter_to_number('N'), Some(KNIGHT));
    assert_eq!(promotion_piece_letter_to_number('k'), None);
    assert_eq!(promotion_piece_letter_to_number('x'), None);
}

#[test]
fn moves() {
    assert_eq!(algebraic_move_to_square_numbers("e2e4"), Ok((12, 28, PNONE)));
    assert_eq!(algebraic_move_to_square_numbers("E7E8Q"), Ok((52, 60, QUEEN)));
    assert_eq!(algebraic_move_to_square_numbers("a7a8n"), Ok((48, 56, KNIGHT)));
    assert_eq!(algebraic_move_to_square_numbers("e7e8k"), Err(()));
    assert_eq!(algebraic_move_to_square_numbers("e2e"), Err(()));
    assert_eq!(algebraic_move_to_square_numbers("e2e4qq"), Err(()));
    assert_eq!(algebraic_move_to_square_numbers("z2e4"), Err(()));
}
