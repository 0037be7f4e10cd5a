use rustic::defs::{PNONE, QUEEN};
use rustic::interface::console::{
    parse_input, parse_move, ConsoleCommand, CMD_CONTINUE, CMD_QUIT, ERR_MV_LENGTH_WRONG,
    ERR_MV_NOT_PROMOTION, ERR_MV_SQUARE_ERROR,
};

#[test]
fn console_words() {
    assert!(matches!(parse_input("quit"), ConsoleCommand::Quit));
    assert!(matches!(parse_input("exit"), ConsoleCommand::Quit));
    assert!(matches!(parse_input("perft"), ConsoleCommand::Perft));
    assert!(matches!(parse_input("suite"), ConsoleCommand::Suite));
    assert!(matches!(parse_input("clear"), ConsoleCommand::Clear));
    assert!(matches!(parse_input("t"), ConsoleCommand::TakeMove));
    assert!(matches!(parse_input("m"), ConsoleCommand::Search));
    assert_eq!(parse_input("quit").code(), CMD_QUIT);
    assert_eq!(parse_input("perft").code(), CMD_CONTINUE);
}

#[test]
fn console_moves() {
    assert_eq!(parse_move("e2e4"), Ok((12, 28, PNONE)));
    assert_eq!(parse_move("e7e8q"), Ok((52, 60, QUEEN)));
    assert_eq!(parse_move("e7e8Q"), Ok((52, 60, QUEEN)));
    assert_eq!(parse_move("e2e9"), Err(ERR_MV_SQUARE_ERROR));
    assert_eq!(parse_move("E2e4"), Err(ERR_MV_SQUARE_ERROR));
    assert_eq!(parse_move("e7e8x"), Err(ERR_MV_NOT_PROMOTION));
    // A bad promotion letter is reported before a bad square.
    assert_eq!(parse_move("z7e8x"), Err(ERR_MV_NOT_PROMOTION));
    assert_eq!(parse_move("z7e8q"), Err(ERR_MV_SQUARE_ERROR));
    assert_eq!(parse_move("e2e"), Err(ERR_MV_LENGTH_WRONG));
    assert_eq!(parse_move("e2e4e5"), Err(ERR_MV_LENGTH_WRONG));
    match parse_input("a2a4") {
        ConsoleCommand::MakeMove(r) => assert_eq!(r, Ok((8, 24, PNONE))),
        _ => panic!("not a move"),
    }
}
