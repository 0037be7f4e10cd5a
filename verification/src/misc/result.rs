//! How a game ends or may be declared drawn: the fifty-move rule,
//! repetitions and insufficient material.
use crate::bitboard::{bit_set, count_ones, hits, lemma_and_positive, pop_count};
use crate::board::{Board, GameState};
use crate::defs::{BISHOP, BLACK, KING, KNIGHT, PAWN, QUEEN, ROOK, WHITE};
use crate::misc::active_side::in_check;
use crate::movegen::info::attacked;
use crate::movegen::{king_square, MoveGenerator};
use vstd::prelude::*;

verus! {

/// The number of half moves without a capture or pawn move after which
/// the game is drawn.
pub const MAX_MOVE_RULE: u8 = 100;

/// How a game ended, or that it goes on.
#[derive(Copy, Clone, PartialEq, Eq, Structural)]
pub enum GameResult {
    Checkmate,
    Stalemate,
    Insufficient,
    FiftyMoves,
    ThreeFold,
    Running,
}

/// Whether the fifty-move rule applies.
pub fn is_fifty_move_rule(board: &Board) -> (b: bool)
    ensures
        b == (board.game_state.halfmove_clock >= MAX_MOVE_RULE),
{
    board.game_state.halfmove_clock >= MAX_MOVE_RULE
}

/// The number of earlier positions, from index `i` back, with hash key
/// `key`; the walk stops after the first position reached by a capture or
/// a pawn move (half-move clock 0), since nothing before it can recur.
pub open spec fn repetitions(history: Seq<GameState>, key: u64, i: int) -> nat
    decreases i + 1,
{
    if i < 0 || i >= history.len() {
        0
    } else {
        (if history[i].zobrist_key == key { 1nat } else { 0nat }) + if history[i].halfmove_clock == 0 {
            0nat
        } else {
            repetitions(history, key, i - 1)
        }
    }
}

/// How often the current position occurred before, counted back to the
/// last capture or pawn move.
pub fn is_repetition(board: &Board) -> (count: u8)
    requires
        1 <= board.history@.len() <= 32768,
        repetitions(board.history@, board.game_state.zobrist_key, board.history@.len() - 1) <= 255,
    ensures
        count == repetitions(board.history@, board.game_state.zobrist_key, board.history@.len() - 1),
{
    let mut count: u8 = 0;
    let mut stop = false;
    let mut i: i16 = (board.history.len() - 1) as i16;
    let ghost key = board.game_state.zobrist_key;
    let ghost h = board.history@;
    let ghost total = repetitions(h, key, h.len() - 1);
    while i >= 0 && !stop
        invariant
            h == board.history@,
            key == board.game_state.zobrist_key,
            -1 <= i < h.len(),
            total == repetitions(h, key, h.len() - 1),
            total <= 255,
            stop ==> count == total,
            !stop ==> count + repetitions(h, key, i as int) == total,
        decreases i + 1, if stop { 0int } else { 1int },
    {
        let historic = &board.history[i as usize];
        if historic.zobrist_key == board.game_state.zobrist_key {
            count += 1;
        }
        stop = historic.halfmove_clock == 0;
        i -= 1;
    }
    count
}

/// The colour of square `t`: 0 for the dark squares (a1 among them), 1 for
/// the light ones.
pub open spec fn square_colour(t: int) -> int {
    (t % 8 + t / 8) % 2
}

/// `bb` has a piece on a square of colour `c`.
pub open spec fn on_colour(bb: u64, c: int) -> bool {
    exists|t: u64| t < 64 && #[trigger] bit_set(bb, t) && square_colour(t as int) == c
}

/// The dark squares.
pub const DARK_SQUARES: u64 = 0xAA55_AA55_AA55_AA55;

/// The light squares.
pub const LIGHT_SQUARES: u64 = 0x55AA_55AA_55AA_55AA;

proof fn lemma_square_colours(t: u64)
    requires
        t < 64,
    ensures
        bit_set(DARK_SQUARES, t) == (square_colour(t as int) == 0),
        bit_set(LIGHT_SQUARES, t) == (square_colour(t as int) == 1),
{
    assert(t < 64 ==> (((0xAA55_AA55_AA55_AA55u64 >> t) & 1u64 == 1u64) == ((t % 8 + t / 8) % 2 == 0)))
        by (bit_vector);
    assert(t < 64 ==> (((0x55AA_55AA_55AA_55AAu64 >> t) & 1u64 == 1u64) == ((t % 8 + t / 8) % 2 == 1)))
        by (bit_vector);
}

/// Whether `bb` has a piece on a square of colour `c` (0 dark, 1 light).
fn has_on_colour(bb: u64, c: u64) -> (r: bool)
    requires
        c < 2,
    ensures
        r == on_colour(bb, c as int),
{
    let squares = if c == 0 { DARK_SQUARES } else { LIGHT_SQUARES };
    proof {
        lemma_and_positive(bb, squares);
        if hits(bb, squares) {
            let t = choose|t: u64| t < 64 && bit_set(bb, t) && bit_set(squares, t);
            lemma_square_colours(t);
        }
        if on_colour(bb, c as int) {
            let t = choose|t: u64| t < 64 && #[trigger] bit_set(bb, t) && square_colour(t as int) == c;
            lemma_square_colours(t);
        }
    }
    (bb & squares) != 0
}

/// Neither side can mate: no pawns, no queens, no rooks, and no side with
/// bishops on squares of both colours or with a bishop and a knight.
pub open spec fn insufficient(board: Board) -> bool {
    let w = board.bb_pieces[WHITE as int];
    let b = board.bb_pieces[BLACK as int];
    !(pop_count(w[PAWN as int]) > 0 || pop_count(b[PAWN as int]) > 0
        || pop_count(w[QUEEN as int]) > 0 || pop_count(b[QUEEN as int]) > 0
        || pop_count(w[ROOK as int]) > 0 || pop_count(b[ROOK as int]) > 0
        || (on_colour(w[BISHOP as int], 0) && on_colour(w[BISHOP as int], 1))
        || (on_colour(b[BISHOP as int], 0) && on_colour(b[BISHOP as int], 1))
        || (pop_count(w[BISHOP as int]) > 0 && pop_count(w[KNIGHT as int]) > 0)
        || (pop_count(b[BISHOP as int]) > 0 && pop_count(b[KNIGHT as int]) > 0))
}

/// A non-empty bitboard has a positive number of pieces.
proof fn lemma_pop_count_positive(x: u64)
    requires
        x != 0,
    ensures
        pop_count(x) > 0,
    decreases x,
{
    if x % 2 == 0 {
        lemma_pop_count_positive(x / 2);
    }
}

/// What decides whether material suffices to mate, over all positions:
/// a pawn, rook or queen of either side always suffices, and so does a
/// bishop together with a knight of the same side, or two bishops of one
/// side on squares of different colours; when neither side has a pawn,
/// rook, queen or bishop (kings and knights only), the material is
/// insufficient.
pub proof fn lemma_material_suffices(board: Board, side: int, s1: u64, s2: u64)
    requires
        side == WHITE || side == BLACK,
        s1 < 64,
        s2 < 64,
    ensures
        board.bb_pieces[side][PAWN as int] != 0 ==> !insufficient(board),
        board.bb_pieces[side][ROOK as int] != 0 ==> !insufficient(board),
        board.bb_pieces[side][QUEEN as int] != 0 ==> !insufficient(board),
        bit_set(board.bb_pieces[side][BISHOP as int], s1) && bit_set(board.bb_pieces[side][KNIGHT as int], s2)
            ==> !insufficient(board),
        bit_set(board.bb_pieces[side][BISHOP as int], s1) && bit_set(board.bb_pieces[side][BISHOP as int], s2)
            && square_colour(s1 as int) != square_colour(s2 as int) ==> !insufficient(board),
        (forall|c: int, p: int|
            (c == WHITE || c == BLACK) && (p == PAWN || p == ROOK || p == QUEEN || p == BISHOP)
                ==> #[trigger] board.bb_pieces[c][p] == 0) ==> insufficient(board),
{
    let bb = board.bb_pieces[side];
    if bb[PAWN as int] != 0 {
        lemma_pop_count_positive(bb[PAWN as int]);
    }
    if bb[ROOK as int] != 0 {
        lemma_pop_count_positive(bb[ROOK as int]);
    }
    if bb[QUEEN as int] != 0 {
        lemma_pop_count_positive(bb[QUEEN as int]);
    }
    if bit_set(bb[BISHOP as int], s1) {
        crate::bitboard::lemma_bit_zero(s1);
        lemma_pop_count_positive(bb[BISHOP as int]);
        assert(on_colour(bb[BISHOP as int], square_colour(s1 as int)));
    }
    if bit_set(bb[KNIGHT as int], s2) {
        crate::bitboard::lemma_bit_zero(s2);
        lemma_pop_count_positive(bb[KNIGHT as int]);
    }
    if bit_set(bb[BISHOP as int], s2) {
        assert(on_colour(bb[BISHOP as int], square_colour(s2 as int)));
    }
    if forall|c: int, p: int|
        (c == WHITE || c == BLACK) && (p == PAWN || p == ROOK || p == QUEEN || p == BISHOP)
            ==> #[trigger] board.bb_pieces[c][p] == 0 {
        let w = board.bb_pieces[WHITE as int];
        let b = board.bb_pieces[BLACK as int];
        assert(w[PAWN as int] == 0 && b[PAWN as int] == 0 && w[ROOK as int] == 0 && b[ROOK as int] == 0);
        assert(w[QUEEN as int] == 0 && b[QUEEN as int] == 0 && w[BISHOP as int] == 0 && b[BISHOP as int] == 0);
        assert(pop_count(0u64) == 0);
        assert forall|c: int| !on_colour(0u64, c) by {
            assert forall|t: u64| !bit_set(0u64, t) by {
                crate::bitboard::lemma_bit_zero(t);
            }
        }
    }
}

/// Whether there is too little material left for either side to mate.
pub fn is_insufficient_material(board: &Board) -> (b: bool)
    ensures
        b == insufficient(*board),
{
    let w_p = count_ones(board.get_pieces(PAWN, WHITE)) > 0;
    let b_p = count_ones(board.get_pieces(PAWN, BLACK)) > 0;
    let w_q = count_ones(board.get_pieces(QUEEN, WHITE)) > 0;
    let b_q = count_ones(board.get_pieces(QUEEN, BLACK)) > 0;
    let w_r = count_ones(board.get_pieces(ROOK, WHITE)) > 0;
    let b_r = count_ones(board.get_pieces(ROOK, BLACK)) > 0;
    let w_bishops = board.get_pieces(BISHOP, WHITE);
    let b_bishops = board.get_pieces(BISHOP, BLACK);
    let w_b = has_on_colour(w_bishops, 0) && has_on_colour(w_bishops, 1);
    let b_b = has_on_colour(b_bishops, 0) && has_on_colour(b_bishops, 1);
    let w_bn = count_ones(w_bishops) > 0 && count_ones(board.get_pieces(KNIGHT, WHITE)) > 0;
    let b_bn = count_ones(b_bishops) > 0 && count_ones(board.get_pieces(KNIGHT, BLACK)) > 0;
    !(w_p || b_p || w_q || b_q || w_r || b_r || w_b || b_b || w_bn || b_bn)
}

/// Whether the position counts as a draw: too little material, a
/// repetition, or the fifty-move rule.
pub fn is_draw(board: &Board) -> (b: bool)
    requires
        1 <= board.history@.len() <= 32768,
        repetitions(board.history@, board.game_state.zobrist_key, board.history@.len() - 1) <= 255,
    ensures
        b == (insufficient(*board)
            || repetitions(board.history@, board.game_state.zobrist_key, board.history@.len() - 1) > 0
            || board.game_state.halfmove_clock >= MAX_MOVE_RULE),
{
    is_insufficient_material(board) || is_repetition(board) > 0 || is_fifty_move_rule(board)
}

/// How the game stands: without a legal move for the side to move it is
/// mate when that side is in check and stalemate otherwise; with one, it is
/// a draw by material, by the fifty-move rule or by threefold repetition
/// (two earlier occurrences), in that order, or it goes on. Whether a legal
/// move exists is found by playing the pseudo-legal moves on the board, and
/// is handed in as `has_move`.
pub fn game_over(board: &Board, mg: &MoveGenerator, has_move: bool) -> (r: GameResult)
    requires
        mg.wf(),
        board.game_state.active_color < 2,
        !has_move ==> board.bb_pieces[board.game_state.active_color as int][KING as int] != 0,
        has_move && !insufficient(*board) && board.game_state.halfmove_clock < MAX_MOVE_RULE ==> {
            &&& 1 <= board.history@.len() <= 32768
            &&& repetitions(board.history@, board.game_state.zobrist_key, board.history@.len() - 1)
                <= 255
        },
    ensures
        r == if !has_move {
            if attacked(
                *board,
                1 - board.game_state.active_color,
                king_square(*board, board.game_state.active_color as int),
            ) {
                GameResult::Checkmate
            } else {
                GameResult::Stalemate
            }
        } else if insufficient(*board) {
            GameResult::Insufficient
        } else if board.game_state.halfmove_clock >= MAX_MOVE_RULE {
            GameResult::FiftyMoves
        } else if repetitions(board.history@, board.game_state.zobrist_key, board.history@.len() - 1)
            >= 2 {
            GameResult::ThreeFold
        } else {
            GameResult::Running
        },
{
    if !has_move {
        if in_check(board, mg) {
            GameResult::Checkmate
        } else {
            GameResult::Stalemate
        }
    } else if is_insufficient_material(board) {
        GameResult::Insufficient
    } else if is_fifty_move_rule(board) {
        GameResult::FiftyMoves
    } else if is_repetition(board) >= 2 {
        GameResult::ThreeFold
    } else {
        GameResult::Running
    }
}

} // verus!
