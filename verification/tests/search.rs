use rustic::engine::defs::{HashFlag, SearchData};
use rustic::movegen::defs::{Move, ShortMove};
use rustic::board::Board;
use rustic::fen::read;
use rustic::movegen::movelist::MoveList;
use rustic::movegen::MoveGenerator;
use rustic::search::defs::{SearchInfo, ThreadLocalData};
use rustic::search::Search;

#[test]
fn test_thread_local_data() {
    let mut tld = ThreadLocalData::new(1);
    assert_eq!(tld.thread_id, 1);
    assert_eq!(tld.nodes_searched, 0);
    assert!(tld.best_move_found.is_none());

    tld.start_search();
    assert!(tld.search_start_time.is_some());
    assert_eq!(tld.nodes_searched, 0);
    assert_eq!(tld.search_depth, 0);

    tld.increment_nodes();
    assert_eq!(tld.nodes_searched, 1);

    let test_move = Move::new(0x1234);
    tld.update_best_move(test_move);
    assert!(tld.best_move_found.is_some());
    assert_eq!(tld.best_move_found.as_ref().map(|m| m.get_move()), Some(0x1234));
}

#[test]
fn test_tt_batching() {
    let mut tld = ThreadLocalData::new(0);

    let test_key = 0x1234567890ABCDEF;
    let test_data = SearchData::create(5, 0, HashFlag::Exact, 100, ShortMove::new(0));

    tld.tt_batch.add(test_key, test_data);
    assert_eq!(tld.tt_batch.len(), 1);
    assert!(!tld.tt_batch.is_full());

    for _ in 0..15 {
        tld.tt_batch.add(test_key, test_data);
    }
    assert!(tld.tt_batch.is_full());

    tld.tt_batch.clear();
    assert_eq!(tld.tt_batch.len(), 0);
}

#[test]
fn history_heuristic_affects_scoring() {
    let mut board = Board::new();
    read("rnbqkbnr/pppppppp/8/8/8/8/PPPPPPPP/RNBQKBNR w KQkq - 0 1", &mut board);
    let mg = MoveGenerator::new();
    let mut si = SearchInfo::new();
    let mut ml = MoveList::new();
    mg.gen_all_moves(&board, &mut ml);

    assert!(ml.len() > 1);
    let mv0 = ml.get_move(0);
    let side = board.us();

    si.history_heuristic[side][mv0.piece()][mv0.to()] = 500;

    Search::score_moves(&mut ml, ShortMove::new(0), &si, side, None);
    Search::pick_move(&mut ml, 0);

    assert_eq!(ml.get_move(0).get_move(), mv0.get_move());
}

#[test]
fn sort_values_order_moves() {
    let mut board = Board::new();
    read("4k3/8/8/3p4/4P3/8/8/4K3 w - - 0 1", &mut board);
    let mg = MoveGenerator::new();
    let mut si = SearchInfo::new();
    let mut ml = MoveList::new();
    mg.gen_all_moves(&board, &mut ml);
    let side = board.us();
    let mut capture = None;
    let mut quiet = None;
    for i in 0..ml.len() {
        let m = ml.get_move(i);
        if m.captured() != rustic::defs::PNONE {
            capture = Some(i);
        } else if quiet.is_none() {
            quiet = Some(i);
        }
    }
    let (c, q) = (capture.expect("capture"), quiet.expect("quiet"));
    let qm = ml.get_move(q);
    si.killer_moves[0][1] = qm.to_short_move();
    let tt = ml.get_move(ml.len() - 1);
    Search::score_moves(&mut ml, tt.to_short_move(), &si, side, None);
    // Pawn takes pawn: victim P (10), attacker P (+5).
    if c != ml.len() - 1 {
        assert_eq!(ml.get_move(c).get_sort_score(), 4_294_967_039 + 15);
    }
    if q != ml.len() - 1 {
        assert_eq!(ml.get_move(q).get_sort_score(), 4_294_967_039 - (q as u32 + 1) * 10);
    }
    assert_eq!(ml.get_move(ml.len() - 1).get_sort_score(), 4_294_967_039 + 60);
    // The table move now comes first; equal scores keep their order.
    let last = ml.get_move(ml.len() - 1);
    Search::pick_move(&mut ml, 0);
    assert_eq!(ml.get_move(0), last);
}
