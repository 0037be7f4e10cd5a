use rustic::board::{Board, GameState};
use rustic::fen::read;
use rustic::movegen::MoveGenerator;
use rustic::misc::result::{
    game_over, is_draw, is_fifty_move_rule, is_insufficient_material, is_repetition, GameResult,
};

fn board_from(fen: &str) -> Board {
    let mut b = Board::new();
    read(fen, &mut b);
    b
}

fn state(key: u64, hmc: u8) -> GameState {
    let mut g = GameState::new();
    g.zobrist_key = key;
    g.halfmove_clock = hmc;
    g
}

#[test]
fn fifty_move_rule() {
    let mut b = Board::new();
    b.game_state.halfmove_clock = 99;
    assert!(!is_fifty_move_rule(&b));
    b.game_state.halfmove_clock = 100;
    assert!(is_fifty_move_rule(&b));
}

#[test]
fn insufficient_material() {
    assert!(is_insufficient_material(&board_from("k7/8/8/8/8/8/8/K7 w - - 0 1")));
    assert!(is_insufficient_material(&board_from("k7/8/8/8/8/8/8/KB6 w - - 0 1")));
    assert!(is_insufficient_material(&board_from("k7/8/8/8/8/8/8/KNN5 w - - 0 1")));
    assert!(!is_insufficient_material(&board_from("k7/8/8/8/8/8/8/KBB5 w - - 0 1")));
    // Two bishops on squares of one colour cannot mate.
    assert!(is_insufficient_material(&board_from("k7/8/8/8/8/8/8/KB1B4 w - - 0 1")));
    assert!(is_insufficient_material(&board_from("kb6/2b5/8/8/8/8/8/K7 w - - 0 1")));
    assert!(!is_insufficient_material(&board_from("k7/8/8/8/8/8/8/KBN5 w - - 0 1")));
    assert!(!is_insufficient_material(&board_from("k7/p7/8/8/8/8/8/K7 w - - 0 1")));
    assert!(!is_insufficient_material(&board_from("k7/8/8/8/8/8/8/KR6 w - - 0 1")));
    assert!(!is_insufficient_material(&board_from(
        "rnbqkbnr/pppppppp/8/8/8/8/PPPPPPPP/RNBQKBNR w KQkq - 0 1"
    )));
}

#[test]
fn repetitions_stop_at_irreversible_move() {
    let mut b = Board::new();
    b.game_state.zobrist_key = 7;
    b.history = vec![state(7, 3), state(7, 0), state(1, 1), state(7, 2), state(2, 3)];
    // Walking back: 2 (no), 7 (yes), 1 (no), 7 (yes, clock 0: stop).
    assert_eq!(is_repetition(&b), 2);
    b.history = vec![state(7, 3)];
    assert_eq!(is_repetition(&b), 1);
    b.history = vec![state(8, 3)];
    assert_eq!(is_repetition(&b), 0);
}

#[test]
fn draw_detection() {
    let mut b = board_from("k7/8/8/8/8/8/8/KR6 w - - 0 1");
    b.history = vec![state(99, 0)];
    assert!(!is_draw(&b));
    b.game_state.halfmove_clock = 100;
    assert!(is_draw(&b));
}

#[test]
fn game_results() {
    let mg = MoveGenerator::new();
    // Black to move, checked by a protected queen, without a legal move.
    let mate = board_from("k7/1Q6/1K6/8/8/8/8/8 b - - 0 1");
    assert!(game_over(&mate, &mg, false) == GameResult::Checkmate);
    // Black to move, not in check, without a legal move.
    let stale = board_from("k7/8/1Q6/8/8/8/8/K7 b - - 0 1");
    assert!(game_over(&stale, &mg, false) == GameResult::Stalemate);
    // With a legal move: two bare kings.
    let bare = board_from("k7/8/8/8/8/8/8/K7 w - - 0 1");
    assert!(game_over(&bare, &mg, true) == GameResult::Insufficient);
    let mut rook = board_from("k7/8/8/8/8/8/8/KR6 w - - 100 60");
    assert!(game_over(&rook, &mg, true) == GameResult::FiftyMoves);
    rook.game_state.halfmove_clock = 4;
    rook.game_state.zobrist_key = 7;
    rook.history = vec![state(7, 0), state(3, 1), state(7, 2), state(5, 3)];
    assert!(game_over(&rook, &mg, true) == GameResult::ThreeFold);
    rook.history = vec![state(7, 0), state(3, 1), state(6, 2), state(5, 3)];
    assert!(game_over(&rook, &mg, true) == GameResult::Running);
}
