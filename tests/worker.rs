use chess_worker::book::{
    choose_book_move, decode_move, lookup, parse_book, select_index, ticket_for, total_weight,
    BookEntry, BookError,
};
use chess_worker::castling::{correct_castling, CastlingRights};
use chess_worker::request::{decode_request, placement_ok, DecodeError, TimeControl};
use chess_worker::session::{
    book_answer, start_position_request, start_request, time_manager_for, EngineReport, Handler,
    Outbound, Start,
};
use chess_worker::square::{BookMove, Promotion, Square};
use chess_worker::time::TimeManager;

const START_FEN: &str = "rnbqkbnr/pppppppp/8/8/8/8/PPPPPPPP/RNBQKBNR w KQkq - 0 1";

fn sq(file: u8, rank: u8) -> Square {
    Square::new(file, rank)
}

fn mv(sf: u8, sr: u8, df: u8, dr: u8) -> BookMove {
    BookMove { source: sq(sf, sr), dest: sq(df, dr), promotion: None }
}

fn all_rights() -> CastlingRights {
    CastlingRights {
        white_king_side: true,
        white_queen_side: true,
        black_king_side: true,
        black_queen_side: true,
    }
}

fn no_rights() -> CastlingRights {
    CastlingRights {
        white_king_side: false,
        white_queen_side: false,
        black_king_side: false,
        black_queen_side: false,
    }
}

fn entry(key: u64, m: BookMove, weight: u16) -> BookEntry {
    BookEntry { key, mv: m, weight }
}

/// A record of the table in its byte layout.
fn record(key: u64, raw_move: u16, weight: u16) -> Vec<u8> {
    let mut b = Vec::new();
    b.extend_from_slice(&key.to_be_bytes());
    b.extend_from_slice(&raw_move.to_be_bytes());
    b.extend_from_slice(&weight.to_be_bytes());
    b.extend_from_slice(&[0, 0, 0, 0]);
    b
}

fn report(nodes: u32) -> EngineReport {
    EngineReport {
        mv: "e2e4".to_string(),
        value: "15".to_string(),
        nodes,
        depth: 3,
        principal_variation: vec!["e2e4".to_string(), "e7e5".to_string()],
        transposition_table_size: 1024,
        transposition_table_entries: 12,
    }
}

// ---- castling correction ----

#[test]
fn white_king_side_castle_is_corrected() {
    let r = correct_castling(mv(4, 0, 7, 0), all_rights());
    assert_eq!(r, mv(4, 0, 6, 0));
    assert_eq!(r.to_text(), "e1g1");
}

#[test]
fn queen_side_castle_lands_on_c_file() {
    assert_eq!(correct_castling(mv(4, 0, 0, 0), all_rights()), mv(4, 0, 2, 0));
    assert_eq!(correct_castling(mv(4, 7, 0, 7), all_rights()), mv(4, 7, 2, 7));
}

#[test]
fn black_king_side_castle_is_corrected() {
    assert_eq!(correct_castling(mv(4, 7, 7, 7), all_rights()), mv(4, 7, 6, 7));
}

#[test]
fn castle_without_right_is_left_alone() {
    assert_eq!(correct_castling(mv(4, 0, 7, 0), no_rights()), mv(4, 0, 7, 0));
    let only_black = CastlingRights { black_king_side: true, ..no_rights() };
    assert_eq!(correct_castling(mv(4, 0, 7, 0), only_black), mv(4, 0, 7, 0));
}

#[test]
fn non_king_square_source_is_left_alone() {
    assert_eq!(correct_castling(mv(3, 0, 7, 0), all_rights()), mv(3, 0, 7, 0));
    assert_eq!(correct_castling(mv(4, 1, 7, 1), all_rights()), mv(4, 1, 7, 1));
}

#[test]
fn correction_twice_equals_once() {
    let once = correct_castling(mv(4, 0, 7, 0), all_rights());
    assert_eq!(correct_castling(once, all_rights()), once);
}

// ---- move text and packed moves ----

#[test]
fn move_text_with_promotion() {
    let m = BookMove { source: sq(4, 6), dest: sq(4, 7), promotion: Some(Promotion::Queen) };
    assert_eq!(m.to_text(), "e7e8q");
    assert_eq!(mv(6, 0, 5, 2).to_text(), "g1f3");
}

#[test]
fn packed_move_decodes() {
    // e2e4: destination file 4, rank 3; source file 4, rank 1.
    assert_eq!(decode_move(4 | (3 << 3) | (4 << 6) | (1 << 9)), Some(mv(4, 1, 4, 3)));
    let promo = decode_move(4 | (7 << 3) | (4 << 6) | (6 << 9) | (2 << 12)).unwrap();
    assert_eq!(promo.promotion, Some(Promotion::Bishop));
    assert_eq!(decode_move(5 << 12), None);
}

// ---- table bytes ----

#[test]
fn parse_book_reads_records_in_order() {
    let mut bytes = record(7, 4 | (3 << 3) | (4 << 6) | (1 << 9), 10);
    bytes.extend(record(7, 3 | (3 << 3) | (3 << 6) | (1 << 9), 3));
    let book = parse_book(&bytes).unwrap();
    assert_eq!(book.len(), 2);
    assert_eq!(book[0], entry(7, mv(4, 1, 4, 3), 10));
    assert_eq!(book[1], entry(7, mv(3, 1, 3, 3), 3));
}

#[test]
fn parse_book_reads_big_endian_key() {
    let bytes = record(0x0102_0304_0506_0708, 0, 0x0203);
    let book = parse_book(&bytes).unwrap();
    assert_eq!(book[0].key, 0x0102_0304_0506_0708);
    assert_eq!(book[0].weight, 0x0203);
}

#[test]
fn parse_book_refuses_partial_record() {
    let mut bytes = record(1, 0, 1);
    bytes.pop();
    assert_eq!(parse_book(&bytes), Err(BookError::TruncatedRecord));
}

#[test]
fn parse_book_refuses_bad_promotion() {
    let mut bytes = record(1, 0, 1);
    bytes.extend(record(1, 6 << 12, 1));
    assert_eq!(parse_book(&bytes), Err(BookError::BadPromotion(1)));
}

#[test]
fn parse_book_of_nothing_is_empty() {
    assert_eq!(parse_book(&[]), Ok(Vec::new()));
}

#[test]
fn lookup_keeps_only_the_key_in_order() {
    let book = vec![
        entry(1, mv(4, 1, 4, 3), 5),
        entry(2, mv(3, 1, 3, 3), 5),
        entry(1, mv(6, 0, 5, 2), 7),
    ];
    let found = lookup(&book, 1);
    assert_eq!(found, vec![entry(1, mv(4, 1, 4, 3), 5), entry(1, mv(6, 0, 5, 2), 7)]);
    assert!(lookup(&book, 9).is_empty());
}

// ---- weighted choice ----

#[test]
fn weighted_choice_takes_first_entry() {
    // random fraction 0.05 of 2^32, total weight 10.
    let book = vec![entry(3, mv(4, 1, 4, 3), 10), entry(3, mv(3, 1, 3, 3), 0)];
    let unit = (0.05f64 * 4294967296.0) as u32;
    assert_eq!(ticket_for(unit, 10), 0);
    let chosen = choose_book_move(&book, 3, no_rights(), unit).unwrap();
    assert_eq!(chosen.mv.to_text(), "e2e4");
    assert_eq!(chosen.weight, 10);
}

#[test]
fn sweep_selects_in_proportion_to_weight() {
    let es = vec![
        entry(0, mv(4, 1, 4, 3), 1),
        entry(0, mv(3, 1, 3, 3), 2),
        entry(0, mv(6, 0, 5, 2), 3),
    ];
    let total = total_weight(&es);
    assert_eq!(total, 6);
    let mut counts = [0u32; 3];
    for t in 0..total {
        counts[select_index(&es, t).unwrap()] += 1;
    }
    assert_eq!(counts, [1, 2, 3]);
    assert_eq!(select_index(&es, 6), None);
}

#[test]
fn sweep_of_random_fractions_follows_weights() {
    let es = vec![entry(0, mv(4, 1, 4, 3), 1), entry(0, mv(3, 1, 3, 3), 3)];
    let mut counts = [0u32; 2];
    let steps: u64 = 1000;
    for k in 0..steps {
        let unit = ((k << 32) / steps) as u32;
        let t = ticket_for(unit, 4);
        counts[select_index(&es, t).unwrap()] += 1;
    }
    assert_eq!(counts, [250, 750]);
}

#[test]
fn ticket_scales_the_fraction() {
    assert_eq!(ticket_for(1 << 31, 10), 5);
    assert_eq!(ticket_for(u32::MAX, 10), 9);
    assert_eq!(ticket_for(u32::MAX, 0), 0);
}

#[test]
fn all_zero_weights_fall_through_to_search() {
    let book = vec![entry(5, mv(4, 1, 4, 3), 0), entry(5, mv(3, 1, 3, 3), 0)];
    assert_eq!(choose_book_move(&book, 5, all_rights(), 12345), None);
    assert!(book_answer(&book, 5, all_rights(), 12345).is_none());
    match start_request(&book, true, 5, all_rights(), 12345, TimeControl::ThinkTime(500), 100) {
        Start::Search(h) => {
            assert_eq!(h.time_left, 500);
            assert_eq!(h.start_time, 100);
        },
        Start::Answer(_) => panic!("no book move is owed"),
    }
}

#[test]
fn book_castle_is_reported_corrected() {
    let book = vec![entry(9, mv(4, 0, 7, 0), 4)];
    match book_answer(&book, 9, all_rights(), 0) {
        Some(Outbound::Book { mv, weight }) => {
            assert_eq!(mv, "e1g1");
            assert_eq!(weight, 4);
        },
        _ => panic!("a book move is owed"),
    }
}

#[test]
fn start_request_without_book_searches() {
    let book = vec![entry(9, mv(4, 1, 4, 3), 4)];
    assert!(matches!(
        start_request(&book, false, 9, all_rights(), 0, TimeControl::ThinkTime(10), 0),
        Start::Search(_)
    ));
    assert!(matches!(
        start_request(&book, true, 9, all_rights(), 0, TimeControl::ThinkTime(10), 0),
        Start::Answer(Outbound::Book { .. })
    ));
}

#[test]
fn position_rights_decide_castle_correction() {
    let book = vec![entry(9, mv(4, 0, 7, 0), 4)];
    let with_rights: chess::Board = "r3k2r/8/8/8/8/8/8/R3K2R w KQkq - 0 1".parse().unwrap();
    let without: chess::Board = "r3k2r/8/8/8/8/8/8/R3K2R w kq - 0 1".parse().unwrap();
    let t = TimeControl::ThinkTime(10);
    match start_position_request(&book, true, 9, &with_rights, 0, t, 0) {
        Start::Answer(Outbound::Book { mv, .. }) => assert_eq!(mv, "e1g1"),
        _ => panic!("a book move is owed"),
    }
    match start_position_request(&book, true, 9, &without, 0, t, 0) {
        Start::Answer(Outbound::Book { mv, .. }) => assert_eq!(mv, "e1h1"),
        _ => panic!("a book move is owed"),
    }
}

// ---- time manager and session ----

#[test]
fn fixed_mode_counts_down_from_think_time() {
    let mut tm = TimeManager::new(0, 0, 1000);
    assert_eq!(tm, TimeManager::Fixed { think_time: 1000, spent: 0 });
    assert_eq!(tm.initial_time_left(), 1000);
    assert_eq!(tm.update(50, 1, 300), 700);
    assert_eq!(tm.update(5000, 2, 300), 400);
    assert_eq!(tm.update(9000, 3, 900), 0);
}

#[test]
fn decrementing_mode_follows_node_growth() {
    let mut tm = TimeManager::new(10_000, 40, 0);
    assert_eq!(tm.initial_time_left(), 400);
    assert_eq!(tm.update(1000, 1, 100), 296);
    assert_eq!(tm.update(3000, 2, 50), 244);
    assert_eq!(
        tm,
        TimeManager::Decrementing {
            remaining: 9850,
            share_per_mille: 40,
            increment: 0,
            last_nodes: 3000,
            last_depth: 2,
            granted: 244
        }
    );
}

#[test]
fn decrementing_mode_never_goes_below_zero() {
    let mut tm = TimeManager::new(1000, 40, 5);
    // 995 remain: 995 * 40 / 1000 + 5 granted, less the 5 that the last iteration took.
    assert_eq!(tm.update(10, 1, 5), 39);
    assert_eq!(tm.update(u32::MAX, 2, u64::MAX), 0);
    assert_eq!(tm.update(u32::MAX, 2, u64::MAX), 0);
}

#[test]
fn time_manager_for_each_control() {
    assert_eq!(
        time_manager_for(TimeControl::TimeLeft(60_000)),
        TimeManager::Decrementing {
            remaining: 60_000,
            share_per_mille: 40,
            increment: 0,
            last_nodes: 0,
            last_depth: 0,
            granted: 2400
        }
    );
    assert_eq!(
        time_manager_for(TimeControl::ThinkTime(750)),
        TimeManager::Fixed { think_time: 750, spent: 0 }
    );
}

#[test]
fn time_up_exactly_when_elapsed_reaches_time_left() {
    for tm in [TimeManager::new(0, 0, 100), TimeManager::new(2500, 40, 0)] {
        let h = Handler::new(tm, 1000);
        assert_eq!(h.time_left, 100);
        assert!(!h.time_up(1000));
        assert!(!h.time_up(1099));
        assert!(h.time_up(1100));
        assert!(h.time_up(5000));
        assert!(!h.time_up(10));
    }
}

#[test]
fn zero_think_time_stops_at_once() {
    match start_request(&Vec::new(), true, 1, no_rights(), 0, TimeControl::ThinkTime(0), 42) {
        Start::Search(h) => {
            assert_eq!(h.time_left, 0);
            assert!(h.time_up(42));
        },
        Start::Answer(_) => panic!("an empty table has no move"),
    }
}

#[test]
fn search_result_forwards_and_updates() {
    let mut h = Handler::new(TimeManager::new(0, 0, 1000), 100);
    match h.search_result(400, report(77)) {
        Outbound::Engine { report, time_millis } => {
            assert_eq!(time_millis, 300);
            assert_eq!(report.nodes, 77);
            assert_eq!(report.principal_variation.len(), 2);
        },
        _ => panic!("an engine message is owed"),
    }
    assert_eq!(h.last_update, 400);
    assert_eq!(h.time_left, 700);
    assert!(!h.time_up(1099));
    assert!(h.time_up(1100));
    match h.search_result(600, report(90)) {
        Outbound::Engine { time_millis, .. } => assert_eq!(time_millis, 500),
        _ => panic!("an engine message is owed"),
    }
    assert_eq!(h.time_left, 500);
    assert_eq!(h.start_time, 100);
}

// ---- request decoding ----

#[test]
fn decode_accepts_position_and_moves() {
    let moves = vec!["e2e4".to_string(), "e7e5".to_string(), "g1f3".to_string()];
    let q = decode_request(START_FEN, &moves, TimeControl::ThinkTime(1500)).unwrap();
    assert_eq!(q.time, TimeControl::ThinkTime(1500));
    assert_eq!(q.moves.len(), 3);
    assert_eq!(q.moves[0].to_string(), "e2e4");
}

#[test]
fn decode_then_encode_round_trips() {
    let moves = vec!["e2e4".to_string(), "c7c5".to_string()];
    let q = decode_request(START_FEN, &moves, TimeControl::TimeLeft(9000)).unwrap();
    let again: Vec<String> = q.moves.iter().map(|m| m.to_string()).collect();
    assert_eq!(again, moves);
    let fen = q.init_pos.to_string();
    let q2 = decode_request(&fen, &again, TimeControl::TimeLeft(9000)).unwrap();
    assert_eq!(q2.init_pos, q.init_pos);
    let mut b1 = q.init_pos;
    let mut b2 = q2.init_pos;
    for (m1, m2) in q.moves.iter().zip(q2.moves.iter()) {
        b1 = b1.make_move_new(*m1);
        b2 = b2.make_move_new(*m2);
    }
    assert_eq!(b1, b2);
}

#[test]
fn decode_refuses_bad_position() {
    let r = decode_request("not a position", &Vec::new(), TimeControl::ThinkTime(1));
    assert!(matches!(r, Err(DecodeError::InvalidPosition)));
}

#[test]
fn decode_refuses_first_bad_move() {
    let moves = vec!["e2e4".to_string(), "e9e5".to_string(), "zz".to_string()];
    let r = decode_request(START_FEN, &moves, TimeControl::ThinkTime(1));
    assert!(matches!(r, Err(DecodeError::InvalidMove(1))));
    let moves = vec!["é2e4".to_string()];
    let r = decode_request(START_FEN, &moves, TimeControl::ThinkTime(1));
    assert!(matches!(r, Err(DecodeError::InvalidMove(0))));
    let moves = vec!["e7e8x".to_string()];
    let r = decode_request(START_FEN, &moves, TimeControl::ThinkTime(1));
    assert!(matches!(r, Err(DecodeError::InvalidMove(0))));
}

#[test]
fn total_budget_time_left_never_rises() {
    let tm = time_manager_for(TimeControl::TimeLeft(100_000));
    let mut h = Handler::new(tm, 0);
    assert_eq!(h.time_left, 4000);
    h.search_result(1000, report(1000));
    assert_eq!(h.time_left, 2960);
    // The share of what remains would be 3949; the last grant less 10 ms caps it.
    h.search_result(1010, report(1000));
    assert_eq!(h.time_left, 2950);
}

#[test]
fn decrementing_update_capped_by_last_grant() {
    let mut tm = TimeManager::new(100_000, 40, 0);
    assert_eq!(tm.update(1000, 1, 1000), 2960);
    assert_eq!(tm.update(1000, 1, 10), 2950);
    assert_eq!(tm.update(1000, 1, 5000), 0);
}

#[test]
fn placement_needs_full_board_and_both_kings() {
    assert!(placement_ok(START_FEN));
    assert!(placement_ok("4k3/8/8/8/8/8/8/4K3 w - - 0 1"));
    assert!(!placement_ok("8/8/8/8/8/8/8/8 w - - 0 1"));
    assert!(!placement_ok("4k3/8/8/8/8/8/8/8 w - - 0 1"));
    assert!(!placement_ok("4k3/8/8/8/8/8/8/4KK2 w - - 0 1"));
    assert!(!placement_ok("4k3/8/8/8/8/8/4K3 w - - 0 1"));
    assert!(!placement_ok("4k3/8/8/8/8/8/8/4K4 w - - 0 1"));
    assert!(!placement_ok("4k3/8/8/8/8/8/8/4K2 w - - 0 1"));
    assert!(!placement_ok("4k3/8/8/8/8/8/8/4K3/8 w - - 0 1"));
    assert!(!placement_ok("4k3/8/8/8/8/8/8/4X3 w - - 0 1"));
    assert!(!placement_ok("4k3/8/8/8/8/8/8/4K3é w - - 0 1"));
    assert!(!placement_ok(""));
}

#[test]
fn decode_refuses_board_without_kings() {
    let r = decode_request("8/8/8/8/8/8/8/8 w - - 0 1", &Vec::new(), TimeControl::ThinkTime(1));
    assert!(matches!(r, Err(DecodeError::InvalidPosition)));
    let r = decode_request("4k3/8/8/8/8/8/8/4K3", &Vec::new(), TimeControl::ThinkTime(1));
    assert!(matches!(r, Err(DecodeError::InvalidPosition)));
    let q = decode_request("4k3/8/8/8/8/8/8/4K3 w - - 0 1", &Vec::new(), TimeControl::ThinkTime(1));
    assert!(q.is_ok());
}

#[test]
fn node_growth_counts_only_when_depth_grows() {
    // Same node growth as above, but at the same depth: the estimate is the
    // last iteration's own 50 ms.
    let mut tm = TimeManager::new(10_000, 40, 0);
    assert_eq!(tm.update(1000, 2, 100), 296);
    assert_eq!(tm.update(3000, 2, 50), 246);
}
