use rustic::board::Board;
use rustic::extra::texel::data_file::{Line, LineParseError, Store, store_lines};
use rustic::extra::texel::result_types::TunerLoadrror;
use rustic::fen::read;
use rustic::misc::texel::defs::TunerMessages;
use rustic::print::{bitboards_to_ascii, castling_as_string, put_character_on_square};

#[test]
fn castling_text() {
    assert_eq!(castling_as_string(15), "KQkq");
    assert_eq!(castling_as_string(0), "");
    assert_eq!(castling_as_string(1 | 8), "Kq");
}

#[test]
fn ascii_board() {
    let mut b = Board::new();
    read("rnbqkbnr/pppppppp/8/8/8/8/PPPPPPPP/RNBQKBNR w KQkq - 0 1", &mut b);
    let mut ascii = ['.'; 64];
    bitboards_to_ascii(&b, &mut ascii);
    let first_rank: String = ascii[0..8].iter().collect();
    assert_eq!(first_rank, "RNBQKBNR");
    let second: String = ascii[8..16].iter().collect();
    assert_eq!(second, "IIIIIIII");
    assert_eq!(ascii[63], 'r');
    assert_eq!(ascii[30], '.');
    let mut marks = ['.'; 64];
    put_character_on_square(0b101, &mut marks, '1');
    assert_eq!(marks[0], '1');
    assert_eq!(marks[1], '.');
    assert_eq!(marks[2], '1');
}

#[test]
fn data_file_store() {
    let lines = vec![
        Some(String::from("one")),
        None,
        Some(String::from("three")),
        Some(String::from("four")),
        Some(String::from("five")),
        Some(String::from("six")),
        Some(String::from("seven")),
    ];
    let store = store_lines(lines);
    assert_eq!(store.count_all_lines(), 7);
    assert_eq!(store.count_failed_lines(), 1);
    assert_eq!(store.count_successful_lines(), 6);
    let failed: Vec<usize> = store.get_failed_lines().iter().map(|l| *l.get_nr()).collect();
    assert_eq!(failed, vec![2]);
    assert_eq!(store.get_successful_lines()[1].get_nr(), &3);
    assert_eq!(store.get_successful_lines()[1].get_line(), "three");
    assert_eq!(store.get_successful_lines()[5].get_line(), "seven");
    let mut s = Store::new();
    s.insert_successful_line(Line::new(1, String::from("x")));
    s.insert_failed_line(Line::new(2, String::new()));
    assert_eq!(s.count_all_lines(), 2);
}

#[test]
fn messages() {
    assert_eq!(LineParseError::FenString.message(), "Error in FEN string.");
    assert_eq!(TunerLoadrror::DataFileReadError.message(), "Data file could not be read");
    assert_eq!(TunerMessages::DATA_FILE_LOADED, "Data file loaded.");
}
