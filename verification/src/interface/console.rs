//! The console interface: what a line typed at the console asks for.
//! Playing a move, taking one back, searching and running perft act on the
//! board and are done by the caller; this module decides which of them a
//! line asks for, and reads the moves typed in coordinate notation.
use crate::defs::{Piece, Square, PNONE};
use crate::misc::parse::{promotion_of, promotion_piece_letter_to_number};
use vstd::prelude::*;
use vstd::string::StringSliceAdditionalSpecFns;

verus! {

/// The console loop ends.
pub const CMD_QUIT: u64 = 0;

/// The console loop goes on.
pub const CMD_CONTINUE: u64 = 1;

/// Errors when reading a typed move.
pub const ERR_MV_NO_ERROR: u8 = 0;

pub const ERR_MV_SQUARE_ERROR: u8 = 1;

pub const ERR_MV_NOT_PROMOTION: u8 = 2;

pub const ERR_MV_LENGTH_WRONG: u8 = 3;

/// A move read from the console: from-square, to-square and promotion
/// piece ("no piece" when there is none), or the number of the error.
pub type ParseMoveResult = Result<(Square, Square, Piece), u8>;

/// What a line typed at the console asks for.
#[derive(Debug)]
pub enum ConsoleCommand {
    Quit,
    Perft,
    Suite,
    Clear,
    TakeMove,
    Search,
    MakeMove(ParseMoveResult),
}

impl ConsoleCommand {
    /// Whether the console loop ends or goes on after this command.
    pub fn code(&self) -> (c: u64)
        ensures
            c == if *self is Quit { CMD_QUIT } else { CMD_CONTINUE },
    {
        match self {
            ConsoleCommand::Quit => CMD_QUIT,
            _ => CMD_CONTINUE,
        }
    }
}

/// The square named by a file letter and a rank digit, given as bytes
/// ("a1" to "h8", lower case).
pub open spec fn named_square(f: u8, r: u8) -> Option<int> {
    if 97 <= f <= 104 && 49 <= r <= 56 {
        Some((r - 49) * 8 + (f - 97))
    } else {
        None
    }
}

/// What reading the bytes `b` of a typed move gives: a wrong length is
/// reported first; then, with five bytes, a last character that names no
/// promotion piece; then a pair of characters that names no square.
pub open spec fn console_move(b: Seq<u8>) -> ParseMoveResult {
    if b.len() != 4 && b.len() != 5 {
        Err(ERR_MV_LENGTH_WRONG)
    } else if b.len() == 5 && promotion_of(b[4]) is None {
        Err(ERR_MV_NOT_PROMOTION)
    } else if named_square(b[0], b[1]) is None || named_square(b[2], b[3]) is None {
        Err(ERR_MV_SQUARE_ERROR)
    } else {
        Ok(
            (
                named_square(b[0], b[1])->0 as usize,
                named_square(b[2], b[3])->0 as usize,
                if b.len() == 5 {
                    promotion_of(b[4])->0 as usize
                } else {
                    PNONE
                },
            ),
        )
    }
}

/// The text of a typed move can be cut into its two square names: after
/// its first two bytes, and, where these name a square, after the next two.
pub open spec fn console_move_cuttable(b: Seq<u8>) -> bool {
    (b.len() == 4 || b.len() == 5) ==> {
        &&& vstd::utf8::is_char_boundary(b, 2)
        &&& named_square(b[0], b[1]) is Some ==> vstd::utf8::is_char_boundary(b, 4)
    }
}

/// The square named by two bytes.
fn square_from_name(f: u8, r: u8) -> (sq: Option<Square>)
    ensures
        match named_square(f, r) {
            Some(s) => sq == Some(s as usize),
            None => sq is None,
        },
{
    if 97 <= f && f <= 104 && 49 <= r && r <= 56 {
        Some(((r - 49) as usize) * 8 + ((f - 97) as usize))
    } else {
        None
    }
}

/// The promotion piece named by the last character of a typed move, whose
/// last byte is `c`; a byte of a longer character names none.
fn promotion_from_last(c: u8) -> (p: Option<Piece>)
    ensures
        match promotion_of(c) {
            Some(x) => p == Some(x as usize),
            None => p is None,
        },
{
    if c < 128 {
        promotion_piece_letter_to_number(c as char)
    } else {
        None
    }
}

/// Reads a move typed in coordinate notation, such as "e2e4" or "e7e8q":
/// the squares in lower case, the promotion letter in either case.
pub fn parse_move(input: &str) -> (result: ParseMoveResult)
    requires
        console_move_cuttable(input.spec_bytes()),
    ensures
        result == console_move(input.spec_bytes()),
{
    let b = input.as_bytes();
    let length = b.len();
    let mut from: Square = 0;
    let mut to: Square = 0;
    let mut promotion_piece: Piece = PNONE;
    let mut error: u8 = ERR_MV_NO_ERROR;

    if length == 4 || length == 5 {
        match (square_from_name(b[0], b[1]), square_from_name(b[2], b[3])) {
            (Some(f), Some(t)) => {
                from = f;
                to = t;
            },
            _ => {
                error = ERR_MV_SQUARE_ERROR;
            },
        }
    }
    if length == 5 {
        match promotion_from_last(b[4]) {
            Some(p) => {
                promotion_piece = p;
            },
            None => {
                error = ERR_MV_NOT_PROMOTION;
            },
        }
    }
    if length != 4 && length != 5 {
        error = ERR_MV_LENGTH_WRONG;
    }
    if error == ERR_MV_NO_ERROR {
        Ok((from, to, promotion_piece))
    } else {
        Err(error)
    }
}

/// Whether two byte strings are equal.
fn same_bytes(a: &[u8], b: &[u8]) -> (same: bool)
    ensures
        same == (a@ == b@),
{
    if a.len() != b.len() {
        return false;
    }
    let mut i: usize = 0;
    while i < a.len()
        invariant
            a@.len() == b@.len(),
            i <= a@.len(),
            forall|k: int| 0 <= k < i ==> a@[k] == b@[k],
        decreases a@.len() - i,
    {
        if a[i] != b[i] {
            return false;
        }
        i += 1;
    }
    proof {
        assert(a@ =~= b@);
    }
    true
}

/// What a console line, without its line break, asks for: the words
/// "quit" or "exit", "perft", "suite", "clear", "t" (take back) and "m"
/// (search a move) are commands; anything else is a move to play.
pub open spec fn console_command(b: Seq<u8>) -> ConsoleCommand {
    if b == "quit".spec_bytes() || b == "exit".spec_bytes() {
        ConsoleCommand::Quit
    } else if b == "perft".spec_bytes() {
        ConsoleCommand::Perft
    } else if b == "suite".spec_bytes() {
        ConsoleCommand::Suite
    } else if b == "clear".spec_bytes() {
        ConsoleCommand::Clear
    } else if b == "t".spec_bytes() {
        ConsoleCommand::TakeMove
    } else if b == "m".spec_bytes() {
        ConsoleCommand::Search
    } else {
        ConsoleCommand::MakeMove(console_move(b))
    }
}

/// Decides what a console line, without its line break, asks for.
pub fn parse_input(input: &str) -> (command: ConsoleCommand)
    requires
        console_command(input.spec_bytes()) is MakeMove ==> console_move_cuttable(
            input.spec_bytes(),
        ),
    ensures
        command == console_command(input.spec_bytes()),
{
    let b = input.as_bytes();
    if same_bytes(b, "quit".as_bytes()) || same_bytes(b, "exit".as_bytes()) {
        ConsoleCommand::Quit
    } else if same_bytes(b, "perft".as_bytes()) {
        ConsoleCommand::Perft
    } else if same_bytes(b, "suite".as_bytes()) {
        ConsoleCommand::Suite
    } else if same_bytes(b, "clear".as_bytes()) {
        ConsoleCommand::Clear
    } else if same_bytes(b, "t".as_bytes()) {
        ConsoleCommand::TakeMove
    } else if same_bytes(b, "m".as_bytes()) {
        ConsoleCommand::Search
    } else {
        ConsoleCommand::MakeMove(parse_move(input))
    }
}

} // verus!
