use rustic::engine::defs::{HashFlag, LocalTTCache, SearchData};
use rustic::movegen::defs::{Move, ShortMove};
use rustic::movegen::movelist::MoveList;
use rustic::search::alpha_beta::NodeBounds;
use rustic::search::defs::{
    GamePhase, GameTime, MoveQuality, RootMoveAnalysis, SearchControl, SearchInfo, SearchMode,
    SearchParams, SearchSummary, SearchTerminate, TTBatch, TimeControl, TimeStats, CHECKMATE, INF,
    SHARP_MARGIN,
};
use rustic::search::worker::{WorkerControl, WorkerState};
use rustic::search::{Search, ThreadState};

fn game_time(wtime: u128, btime: u128, winc: u128, binc: u128, mtg: Option<usize>) -> SearchParams {
    let mut p = SearchParams::new();
    p.game_time = GameTime::new(wtime, btime, winc, binc, mtg);
    p.search_mode = SearchMode::GameTime;
    p
}

#[test]
fn tt_entry_round_trip() {
    let d = SearchData::create(5, 3, HashFlag::Exact, 100, ShortMove::new(9));
    assert_eq!(d.get(5, 3, -10, 10), (Some(100), ShortMove::new(9)));
    assert_eq!(d.get(6, 3, -10, 10).0, None);
    let mate = SearchData::create(5, 3, HashFlag::Exact, 23_950, ShortMove::new(0));
    assert_eq!(mate.value, 23_953);
    assert_eq!(mate.get(1, 3, 0, 0).0, Some(23_950));
    let alpha = SearchData::create(4, 0, HashFlag::Alpha, -50, ShortMove::new(0));
    assert_eq!(alpha.get(4, 0, -40, 40).0, Some(-40));
    assert_eq!(alpha.get(4, 0, -60, 40).0, None);
    let beta = SearchData::create(4, 0, HashFlag::Beta, 70, ShortMove::new(0));
    assert_eq!(beta.get(4, 0, -40, 40).0, Some(40));
}

#[test]
fn local_cache() {
    let mut c = LocalTTCache::new();
    assert!(c.probe(5).is_none());
    c.insert(5, SearchData::create(1, 0, HashFlag::Exact, 3, ShortMove::new(0)));
    assert_eq!(c.probe(5).map(|d| d.value), Some(3));
    c.clear();
    assert!(c.probe(5).is_none());
}

#[test]
fn batch_equality() {
    let mut a = TTBatch::new();
    let b = TTBatch::new();
    assert!(a.eq(&b));
    a.add(1, SearchData::create(1, 0, HashFlag::Exact, 0, ShortMove::new(0)));
    assert!(!a.eq(&b));
}

#[test]
fn time_stats_update() {
    let mut s = TimeStats::new();
    s.update(1000, true, GamePhase::Opening);
    assert_eq!(s.total_moves, 1);
    assert_eq!(s.successful_allocations, 1);
    assert_eq!(s.average_time_per_move, 1000);
    assert_eq!(s.time_usage_by_phase.get(&0), Some(&500));
    s.update(2000, false, GamePhase::Opening);
    assert_eq!(s.time_losses, 1);
    assert_eq!(s.average_time_per_move, 1500);
    assert_eq!(s.time_usage_by_phase.get(&0), Some(&1250));
}

#[test]
fn time_slices() {
    let p = game_time(60_000, 30_000, 1_000, 0, Some(30));
    assert_eq!(Search::calculate_time_slice(&p, true, 0, 32), 2000 + 1000 - 50);
    assert_eq!(Search::calculate_time_slice(&p, false, 0, 32), 1000 - 50);
    let q = game_time(45, 45, 0, 0, Some(1));
    assert_eq!(Search::calculate_time_slice(&q, true, 0, 32), 45);
    let r = game_time(5, 5, 0, 0, Some(1));
    assert_eq!(Search::calculate_time_slice(&r, true, 0, 32), 0);
    // Rounded half up: 1000 / 8 = 125, 1004 / 8 = 125.5 -> 126.
    let s = game_time(1004, 0, 0, 0, Some(8));
    assert_eq!(Search::calculate_time_slice(&s, true, 0, 32), 126 - 50);
}

#[test]
fn moves_to_go_estimates() {
    let gt = GameTime::new(0, 0, 0, 0, None);
    assert_eq!(Search::adaptive_moves_to_go(&gt, 10, 32), 30);
    assert_eq!(Search::adaptive_moves_to_go(&gt, 25, 24), 25);
    assert_eq!(Search::adaptive_moves_to_go(&gt, 25, 12), 20);
    assert_eq!(Search::adaptive_moves_to_go(&gt, 25, 5), 15);
    assert_eq!(Search::adaptive_moves_to_go(&gt, 50, 12), 15);
    assert_eq!(Search::adaptive_moves_to_go(&gt, 50, 4), 10);
    assert_eq!(Search::moves_to_go(&gt, true, 10), 25 - 5 + 5);
    assert_eq!(Search::moves_to_go(&gt, false, 11), 25 - 5 + 5);
    let given = GameTime::new(0, 0, 0, 0, Some(7));
    assert_eq!(Search::adaptive_moves_to_go(&given, 50, 4), 7);
}

#[test]
fn phases_and_controls() {
    assert!(Search::determine_game_phase(20, 32) == GamePhase::Opening);
    assert!(Search::determine_game_phase(30, 32) == GamePhase::EarlyMiddlegame);
    assert!(Search::determine_game_phase(40, 32) == GamePhase::LateMiddlegame);
    assert!(Search::determine_game_phase(41, 12) == GamePhase::Endgame);
    assert!(Search::determine_game_phase(41, 13) == GamePhase::LateMiddlegame);
    let gt = GameTime::new(59_999, 300_000, 0, 0, None);
    assert!(Search::classify_time_control(&gt, true) == TimeControl::Bullet);
    assert!(Search::classify_time_control(&gt, false) == TimeControl::Rapid);
    let gt2 = GameTime::new(60_000, 1_800_000, 0, 0, None);
    assert!(Search::classify_time_control(&gt2, true) == TimeControl::Blitz);
    assert!(Search::classify_time_control(&gt2, false) == TimeControl::Classical);
}

#[test]
fn allocations() {
    assert_eq!(Search::quality_based_time_allocation(1000, MoveQuality::Excellent), 700);
    assert_eq!(Search::quality_based_time_allocation(1000, MoveQuality::Critical), 1500);
    assert_eq!(Search::time_control_specific_allocation(1000, TimeControl::Bullet), 800);
    assert_eq!(Search::time_control_specific_allocation(1000, TimeControl::Classical), 1100);
    assert_eq!(
        Search::calculate_enhanced_time_slice(1000, false, MoveQuality::Poor, TimeControl::Blitz),
        900
    );
    assert_eq!(
        Search::calculate_enhanced_time_slice(1000, true, MoveQuality::Poor, TimeControl::Blitz),
        500
    );
}

#[test]
fn emergency_mode() {
    let mut info = SearchInfo::new();
    let gt = GameTime::new(10_000, 0, 0, 0, None);
    assert!(Search::emergency_time_management(&mut info, &gt, true, 10));
    assert!(info.emergency_mode);
    assert_eq!(info.max_depth, 8);
    assert!(!Search::emergency_time_management(&mut info, &gt, true, 5));
    assert_eq!(info.max_depth, 125);
}

fn analysis(mv: usize, eval: i16, good: usize) -> RootMoveAnalysis {
    RootMoveAnalysis { mv: Move::new(mv), eval, good_replies: good, reply: None, reply_sequence: vec![Move::new(mv + 1)] }
}

#[test]
fn move_quality() {
    assert!(Search::assess_move_quality(&vec![], false) == MoveQuality::Acceptable);
    assert!(Search::assess_move_quality(&vec![analysis(1, 50, 0)], true) == MoveQuality::Critical);
    assert!(Search::assess_move_quality(&vec![analysis(1, 50, 0), analysis(2, 10, 0)], false) == MoveQuality::Good);
    assert!(Search::assess_move_quality(&vec![analysis(1, 50, 0), analysis(2, 250, 0)], false) == MoveQuality::Excellent);
    assert!(Search::assess_move_quality(&vec![analysis(1, 50, 0), analysis(2, 0, 0)], true) == MoveQuality::Poor);
}

#[test]
fn overshoot() {
    assert!(!Search::time_exceeded(999, 1000));
    assert!(Search::time_exceeded(1000, 1000));
    assert!(!Search::time_exceeded(2999, 2000));
    assert!(Search::time_exceeded(3000, 2000));
    assert!(!Search::time_exceeded(1651, 1101));
    assert!(Search::time_exceeded(1652, 1101));
    assert!(Search::time_exceeded(6000, 6000));
}

#[test]
fn node_updates() {
    let b = Search::start_node(-100);
    assert_eq!(b.best_eval_score, -INF);
    let m = Move::new(0x0123);
    let u = Search::record_score(b, 100, -150, &m);
    assert!(!u.raised_alpha && !u.cutoff);
    assert_eq!(u.bounds.best_eval_score, -150);
    assert_eq!(u.bounds.alpha, -100);
    let u2 = Search::record_score(u.bounds, 100, 50, &m);
    assert!(u2.raised_alpha && !u2.cutoff);
    assert!(u2.bounds.hash_flag == HashFlag::Exact);
    assert_eq!(u2.bounds.alpha, 50);
    let u3 = Search::record_score(u2.bounds, 100, 100, &m);
    assert!(u3.cutoff);
    assert!(u3.bounds.hash_flag == HashFlag::Beta);
    let same: NodeBounds = Search::record_score(u3.bounds, 100, 20, &m).bounds;
    assert_eq!(same.alpha, 100);
}

#[test]
fn node_rules() {
    assert_eq!(Search::no_moves_score(true, 3), -CHECKMATE + 3);
    assert_eq!(Search::no_moves_score(false, 3), 0);
    assert!(Search::needs_research(5, 0, 10));
    assert!(!Search::needs_research(10, 0, 10));
    assert!(Search::null_move_allowed(false, 4, false, false));
    assert!(!Search::null_move_allowed(false, 3, false, false));
    assert!(!Search::null_move_allowed(true, 8, false, false));
    assert_eq!(Search::multicut_moves(false, 4, false, 30), Some(4));
    assert_eq!(Search::multicut_moves(false, 4, false, 2), Some(2));
    assert_eq!(Search::multicut_moves(false, 3, false, 30), None);
    assert_eq!(Search::stand_pat(50, 0, 40), Ok(40));
    assert_eq!(Search::stand_pat(30, 0, 40), Err(30));
    assert_eq!(Search::stand_pat(-30, 0, 40), Err(0));
    assert!(Search::worth_sharp_check(-10, 10, SHARP_MARGIN));
    assert!(!Search::worth_sharp_check(-20, 10, SHARP_MARGIN));
}

#[test]
fn pv_update() {
    let mut pv = vec![Move::new(9)];
    Search::update_pv(&mut pv, Move::new(1), vec![Move::new(2), Move::new(3)]);
    let data: Vec<usize> = pv.iter().map(|m| m.data).collect();
    assert_eq!(data, vec![1, 2, 3]);
}

#[test]
fn sharp_replies() {
    let evals = vec![(Move::new(1), 40i16), (Move::new(2), 10), (Move::new(3), 35), (Move::new(4), 10)];
    let (good, reply) = Search::sharp_replies(&evals, 30);
    let g: Vec<usize> = good.iter().map(|m| m.data).collect();
    assert_eq!(g, vec![1, 2, 3, 4]);
    assert_eq!(reply.map(|m| m.data), Some(2));
    let (good, reply) = Search::sharp_replies(&evals, 5);
    assert_eq!(good.len(), 2);
    assert_eq!(reply.map(|m| m.data), Some(2));
    let single = vec![(Move::new(1), 100i16), (Move::new(2), -200)];
    let (good, reply) = Search::sharp_replies(&single, 30);
    assert_eq!(good.len(), 1);
    assert_eq!(reply.map(|m| m.data), Some(2));
    let (good, reply) = Search::sharp_replies(&vec![], 30);
    assert!(good.is_empty() && reply.is_none());
}

#[test]
fn iteration_decisions() {
    assert_eq!(Search::aspiration_window(1, 77), (-INF, INF));
    assert_eq!(Search::aspiration_window(3, 77), (27, 127));
    assert!(Search::aspiration_failed(27, 27, 127));
    assert!(!Search::aspiration_failed(28, 27, 127));
    assert!(Search::continue_deepening(3, 125, 5, false));
    assert!(!Search::continue_deepening(6, 125, 5, false));
    assert!(Search::stop_after_iteration(false, true, 101, 100));
    assert!(!Search::stop_after_iteration(false, false, 101, 100));
    assert!(Search::search_succeeded(&Move::new(5), false));
    assert!(!Search::search_succeeded(&Move::new(1 << 24), false));
    let pv = vec![Move::new(7)];
    let ra = vec![analysis(3, 0, 1), analysis(5, 0, 2)];
    assert_eq!(Search::iteration_best_move(&pv, &ra).map(|m| m.data), Some(7));
    assert_eq!(Search::iteration_best_move(&vec![], &ra).map(|m| m.data), Some(3));
    assert!(Search::iteration_best_move(&vec![], &vec![]).is_none());
    let lines = Search::forced_lines(&ra);
    assert_eq!(lines.len(), 1);
    assert_eq!(lines[0].0.data, 3);
    assert_eq!(lines[0].1[0].data, 4);
}

#[test]
fn thread_control() {
    let s = Search::initial_thread_state();
    assert!(!Search::should_search(s));
    let (s, params, flag) = Search::on_command(s, SearchControl::Start(SearchParams::new()));
    assert!(Search::should_search(s) && params.is_some() && flag == Some(false));
    let (s2, _, flag) = Search::on_command(s, SearchControl::Stop);
    assert!(!Search::should_search(s2) && flag == Some(true));
    let (s3, _, _) = Search::on_command(s, SearchControl::Nothing);
    assert!(s3 == s);
    let s4 = Search::after_search(s, SearchTerminate::Quit);
    assert!(s4 == ThreadState { quit: true, halt: true });
    let s5 = Search::after_search(s, SearchTerminate::Nothing);
    assert!(Search::should_search(s5));
}

#[test]
fn worker_control() {
    let w = WorkerState::new();
    assert!(w.waits_for_command() && !w.is_running());
    let w = w.on_command(WorkerControl::Start);
    assert!(w.is_running() && !w.waits_for_command());
    let w = w.on_command(WorkerControl::Quit);
    assert!(w.quit && w.is_running());
    let w = w.on_command(WorkerControl::Stop);
    assert!(!w.is_running());
}

#[test]
fn termination_checks() {
    let mut info = SearchInfo::new();
    let mut params = SearchParams::new();
    params.search_mode = SearchMode::Nodes;
    params.nodes = 10;
    info.nodes = 9;
    Search::check_termination(&mut info, &params, SearchControl::Nothing);
    assert!(info.terminate == SearchTerminate::Nothing);
    info.nodes = 10;
    Search::check_termination(&mut info, &params, SearchControl::Nothing);
    assert!(info.terminate == SearchTerminate::Stop);
    let mut info2 = SearchInfo::new();
    Search::check_termination(&mut info2, &params, SearchControl::Quit);
    assert!(info2.terminate == SearchTerminate::Quit);
    assert!(info2.interrupted());
}

#[test]
fn termination_by_time() {
    let mut params = SearchParams::new();
    params.search_mode = SearchMode::MoveTime;
    params.move_time = 500;
    let mut info = SearchInfo::new();
    Search::termination_at(&mut info, &params, SearchControl::Nothing, 499);
    assert!(info.terminate == SearchTerminate::Nothing);
    Search::termination_at(&mut info, &params, SearchControl::Nothing, 500);
    assert!(info.terminate == SearchTerminate::Stop);
    // Game clock: 2000 ms allocated may overshoot to 3000 ms.
    params.search_mode = SearchMode::GameTime;
    let mut info2 = SearchInfo::new();
    info2.allocated_time = 2000;
    Search::termination_at(&mut info2, &params, SearchControl::Nothing, 2999);
    assert!(info2.terminate == SearchTerminate::Nothing);
    Search::termination_at(&mut info2, &params, SearchControl::Nothing, 3000);
    assert!(info2.terminate == SearchTerminate::Stop);
    // A stop command wins over everything.
    let mut info3 = SearchInfo::new();
    Search::termination_at(&mut info3, &params, SearchControl::Stop, 0);
    assert!(info3.terminate == SearchTerminate::Stop);
}

#[test]
fn interface_reports_are_spaced_out() {
    let mut info = SearchInfo::new();
    info.nodes = 1234;
    let m = Move::new(12 * 8 + 28 * 512 + 5);
    assert!(Search::current_move_report(&mut info, 999, m, 3).is_none());
    assert_eq!(info.last_curr_move_sent, 0);
    let r = Search::current_move_report(&mut info, 1000, m, 3).expect("due");
    assert_eq!(r.curr_move, m);
    assert_eq!(r.curr_move_number, 3);
    assert_eq!(info.last_curr_move_sent, 1000);
    assert!(Search::current_move_report(&mut info, 1999, m, 4).is_none());
    assert!(Search::stats_report(&mut info, 1999, 1999, 617, 12).is_none());
    let st = Search::stats_report(&mut info, 2000, 2001, 617, 12).expect("due");
    assert_eq!(st.time, 2001);
    assert_eq!(st.nodes, 1234);
    assert_eq!(st.nps, 617);
    assert_eq!(st.hash_full, 12);
    assert_eq!(info.last_stats_sent, 2000);
}

#[test]
fn killer_moves() {
    let mut info = SearchInfo::new();
    info.ply = 2;
    Search::store_killer_move(&Move::new(11), &mut info);
    Search::store_killer_move(&Move::new(12), &mut info);
    assert_eq!(info.killer_moves[2][0].get_move(), 12);
    assert_eq!(info.killer_moves[2][1].get_move(), 11);
    Search::store_killer_move(&Move::new(12), &mut info);
    assert_eq!(info.killer_moves[2][1].get_move(), 11);
    assert_eq!(info.killer_moves[3][0].get_move(), 0);
}

#[test]
fn pick_best_move() {
    let mut ml = MoveList::new();
    let mut a = Move::new(1);
    a.set_score(5);
    let mut b = Move::new(2);
    b.set_score(50);
    let mut c = Move::new(3);
    c.set_score(20);
    ml.push(a);
    ml.push(b);
    ml.push(c);
    Search::pick_move(&mut ml, 0);
    assert_eq!(ml.get_move(0).get_move(), 2);
    Search::pick_move(&mut ml, 1);
    assert_eq!(ml.get_move(1).get_move(), 3);
    assert_eq!(ml.len(), 3);

    // Among equal scores, the first one in the list is picked.
    let mut ties = MoveList::new();
    for d in [4usize, 5, 6] {
        let mut m = Move::new(d);
        m.set_sort_score(if d == 4 { 7 } else { 4_000_000_000 });
        ties.push(m);
    }
    assert_eq!(ties.get_move(1).get_sort_score(), 4_000_000_000);
    Search::pick_move(&mut ties, 0);
    assert_eq!(ties.get_move(0).get_move(), 5);
    assert_eq!(ties.get_move(1).get_move(), 4);
    assert_eq!(ties.get_move(2).get_move(), 6);
}

#[test]
fn summary_text() {
    let s = SearchSummary {
        depth: 1,
        seldepth: 1,
        time: 0,
        cp: 0,
        mate: 0,
        nodes: 0,
        nps: 0,
        hash_full: 0,
        pv: vec![Move::new((12 << 3) | (28 << 9) | (6 << 18)), Move::new((52 << 3) | (60 << 9) | (1 << 18))],
    };
    assert_eq!(s.pv_as_string(), " e2e4 e7e8q");
}

#[test]
fn info_reset_keeps_time_stats() {
    let mut info = SearchInfo::new();
    info.time_stats.update(10, true, GamePhase::Endgame);
    info.nodes = 42;
    info.preserve_time_stats();
    assert_eq!(info.nodes, 0);
    assert_eq!(info.time_stats.total_moves, 1);
}
