use bstr::ByteSlice;
use fib_find::dispatcher::Dispatcher;
use fib_find::matrix::MAX_INDEX;
use fib_find::search::{perform, scan, search_part, ScanReport};
use fib_find::worker::{Action, Event, Worker};
use ibig::IBig;

/// The least index from `from` on, and up to 10000, whose Fibonacci number
/// holds `needle`, by plain iteration.
fn naive_first(needle: &[u8], from: i64) -> Option<i64> {
    let mut upper: IBig = IBig::from(1u8);
    let mut lower: IBig = IBig::from(0u8);
    for index in 0..=10_000i64 {
        if index >= from && lower.to_string().as_bytes().contains_str(needle) {
            return Some(index);
        }
        let sum: IBig = &upper + &lower;
        lower = upper;
        upper = sum;
    }
    None
}

/// Whether the Fibonacci number of index `index` holds `needle`.
fn naive_match(needle: &[u8], index: i64) -> bool {
    let mut upper: IBig = IBig::from(1u8);
    let mut lower: IBig = IBig::from(0u8);
    for _ in 0..index {
        let sum: IBig = &upper + &lower;
        lower = upper;
        upper = sum;
    }
    lower.to_string().as_bytes().contains_str(needle)
}

/// Runs `threads` workers in turn against one dispatcher until all have
/// come to their end: at each turn a worker has its action performed and
/// takes its step on the answer. Returns the found index and the beginnings
/// of the chunks that each worker took.
fn run_in_turn(threads: usize, needle: &[u8], chunk: i64, start: i64) -> (i64, Vec<Vec<i64>>) {
    let mut dispatcher: Dispatcher = Dispatcher::new(start, chunk);
    let mut workers: Vec<Option<(Worker, Action)>> = Vec::new();
    let mut taken: Vec<Vec<i64>> = Vec::new();
    for _ in 0..threads {
        workers.push(Some((Worker::new(chunk, needle), Action::Poll { progress: None })));
        taken.push(Vec::new());
    }
    let mut running: usize = threads;
    while running > 0 {
        for id in 0..threads {
            let (worker, action) = match workers[id].take() {
                Some(pair) => pair,
                None => continue,
            };
            match perform(action, &mut dispatcher) {
                Some(answer) => {
                    if let Event::Chunk(beg) = answer {
                        taken[id].push(beg);
                    }
                    workers[id] = Some(worker.step(answer));
                }
                None => {
                    running -= 1;
                }
            }
        }
    }
    (dispatcher.found_index(), taken)
}

#[test]
fn perform_answers_a_poll_with_the_flag() {
    let mut d: Dispatcher = Dispatcher::new(0, 100);
    assert_eq!(perform(Action::Poll { progress: None }, &mut d), Some(Event::Flag(false)));
    d.try_report(3);
    assert_eq!(perform(Action::Poll { progress: None }, &mut d), Some(Event::Flag(true)));
    assert_eq!(d.cursor(), 0);
    assert_eq!(d.found_index(), 3);
}

#[test]
fn perform_hands_out_chunks_while_they_are_within_reach() {
    let mut d: Dispatcher = Dispatcher::new(MAX_INDEX - 250, 100);
    assert_eq!(perform(Action::Acquire, &mut d), Some(Event::Chunk(MAX_INDEX - 250)));
    assert_eq!(perform(Action::Acquire, &mut d), Some(Event::Chunk(MAX_INDEX - 150)));
    assert_eq!(d.cursor(), MAX_INDEX - 50);
    assert_eq!(perform(Action::Acquire, &mut d), None);
    assert_eq!(d.cursor(), MAX_INDEX - 50);
    let mut d: Dispatcher = Dispatcher::new(MAX_INDEX - 100, 100);
    assert_eq!(perform(Action::Acquire, &mut d), Some(Event::Chunk(MAX_INDEX - 100)));
    assert_eq!(perform(Action::Acquire, &mut d), None);
}

#[test]
fn perform_records_a_report_and_ends_the_worker() {
    let mut d: Dispatcher = Dispatcher::new(0, 100);
    assert_eq!(perform(Action::Report { index: 12 }, &mut d), None);
    assert!(d.poll_found());
    assert_eq!(d.found_index(), 12);
    assert_eq!(perform(Action::Report { index: 20 }, &mut d), None);
    assert_eq!(d.found_index(), 12);
}

#[test]
fn perform_of_an_exit_changes_nothing() {
    let mut d: Dispatcher = Dispatcher::new(5, 100);
    assert_eq!(perform(Action::Exit, &mut d), None);
    assert!(!d.poll_found());
    assert_eq!(d.found_index(), -1);
    assert_eq!(d.cursor(), 5);
}

#[test]
fn scan_for_a_needle_that_never_appears_examines_the_whole_chunk() {
    let cases: [(i64, i64); 7] =
        [(0, 1), (0, 2), (0, 3), (0, 100), (17, 1), (1000, 250), (5000, 99)];
    for (beg, chunk) in cases {
        let mut d: Dispatcher = Dispatcher::new(beg, chunk);
        let report: ScanReport = scan(beg, chunk, b"x", &mut d);
        assert_eq!(report, ScanReport { examined: chunk, reported: None });
        assert!(!d.poll_found());
        assert_eq!(d.found_index(), -1);
        assert_eq!(d.cursor(), beg);
    }
}

#[test]
fn scan_of_the_first_chunk_examines_indices_1_to_100() {
    // F(100) = 354224848179261915075, F(101) = 573147844013817084101, F(0) = 0
    let mut d: Dispatcher = Dispatcher::new(0, 100);
    let report: ScanReport = scan(0, 100, b"354224848179261915075", &mut d);
    assert_eq!(report, ScanReport { examined: 100, reported: Some(100) });
    assert_eq!(d.found_index(), 100);

    let mut d: Dispatcher = Dispatcher::new(0, 100);
    let report: ScanReport = scan(0, 100, b"573147844013817084101", &mut d);
    assert_eq!(report, ScanReport { examined: 100, reported: None });
    assert!(!d.poll_found());

    let mut d: Dispatcher = Dispatcher::new(0, 100);
    let report: ScanReport = scan(0, 100, b"1", &mut d);
    assert_eq!(report, ScanReport { examined: 1, reported: Some(1) });
}

#[test]
fn scan_reports_the_first_match_of_its_chunk() {
    let mut d: Dispatcher = Dispatcher::new(0, 100);
    let report: ScanReport = scan(0, 100, b"144", &mut d);
    assert_eq!(report, ScanReport { examined: 12, reported: Some(12) });
    assert!(d.poll_found());
    assert_eq!(d.found_index(), 12);
    assert_eq!(d.cursor(), 0);
}

#[test]
fn scan_begins_behind_the_beginning_of_its_chunk() {
    // F(12) = 144 is not in the chunk that begins at 12
    let mut d: Dispatcher = Dispatcher::new(0, 10);
    let report: ScanReport = scan(12, 10, b"144", &mut d);
    assert_eq!(report, ScanReport { examined: 10, reported: None });
    let report: ScanReport = scan(11, 10, b"144", &mut d);
    assert_eq!(report, ScanReport { examined: 1, reported: Some(12) });
    let mut d: Dispatcher = Dispatcher::new(0, 10);
    let report: ScanReport = scan(2, 10, b"144", &mut d);
    assert_eq!(report, ScanReport { examined: 10, reported: Some(12) });
}

#[test]
fn scan_does_not_raise_a_lower_index() {
    let mut d: Dispatcher = Dispatcher::new(0, 100);
    d.try_report(5);
    // the match lies in the first look, so it is reported though the flag is set
    let report: ScanReport = scan(10, 100, b"144", &mut d);
    assert_eq!(report, ScanReport { examined: 2, reported: Some(12) });
    assert_eq!(d.found_index(), 5);
}

#[test]
fn scan_stops_after_its_first_look_once_the_flag_is_set() {
    let mut d: Dispatcher = Dispatcher::new(0, 100);
    d.try_report(500);
    let report: ScanReport = scan(0, 100, b"144", &mut d);
    assert_eq!(report, ScanReport { examined: 3, reported: None });
    assert_eq!(d.found_index(), 500);
    let report: ScanReport = scan(0, 2, b"144", &mut d);
    assert_eq!(report, ScanReport { examined: 2, reported: None });
    let report: ScanReport = scan(0, 1, b"144", &mut d);
    assert_eq!(report, ScanReport { examined: 1, reported: None });
    // F(3) = 2 lies in the first look
    let report: ScanReport = scan(0, 100, b"2", &mut d);
    assert_eq!(report, ScanReport { examined: 3, reported: Some(3) });
    assert_eq!(d.found_index(), 3);
}

#[test]
fn search_finds_needle_1_at_index_1() {
    let mut d: Dispatcher = Dispatcher::new(0, 100);
    assert_eq!(search_part(&mut d, b"1"), Some(1));
    assert_eq!(d.found_index(), 1);
    assert_eq!(run_in_turn(1, b"1", 100, 0).0, 1);
}

#[test]
fn search_finds_needle_144_at_index_12() {
    let mut d: Dispatcher = Dispatcher::new(0, 100);
    assert_eq!(search_part(&mut d, b"144"), Some(12));
    assert!(d.poll_found());
    assert_eq!(d.found_index(), 12);
    assert_eq!(d.cursor(), 100);
    assert_eq!(run_in_turn(1, b"144", 100, 0).0, 12);
}

#[test]
fn four_workers_find_needle_6765_at_index_20() {
    assert_eq!(naive_first(b"6765", 1), Some(20));
    assert_eq!(run_in_turn(4, b"6765", 200, 0).0, 20);
    let mut d: Dispatcher = Dispatcher::new(0, 200);
    assert_eq!(search_part(&mut d, b"6765"), Some(20));
}

#[test]
fn search_for_six_zeros_agrees_with_plain_iteration() {
    let expected: i64 = naive_first(b"000000", 1).unwrap();
    let mut d: Dispatcher = Dispatcher::new(0, 1000);
    assert_eq!(search_part(&mut d, b"000000"), Some(expected));
    assert_eq!(d.found_index(), expected);
    assert_eq!(d.cursor(), (expected + 999) / 1000 * 1000);
}

#[test]
fn eight_workers_find_six_zeros() {
    let first: i64 = naive_first(b"000000", 1).unwrap();
    let found: i64 = run_in_turn(8, b"000000", 1000, 0).0;
    assert!(found >= first);
    assert!(found <= 8000);
    assert!(naive_match(b"000000", found));
}

#[test]
fn two_workers_find_needle_9_at_index_11() {
    // F(6) = 8, F(7) = 13, F(8) = 21, F(9) = 34, F(10) = 55, F(11) = 89
    assert_eq!(naive_first(b"9", 1), Some(11));
    assert_eq!(run_in_turn(2, b"9", 10, 0).0, 11);
    let mut d: Dispatcher = Dispatcher::new(0, 10);
    assert_eq!(search_part(&mut d, b"9"), Some(11));
    assert_eq!(d.cursor(), 20);
}

#[test]
fn match_at_a_chunk_boundary_is_found() {
    // F(12) = 144: the last index of a chunk of 12, 6, 4, 3 or 2,
    // and the first index of the second chunk of 11
    for chunk in [12i64, 11, 6, 4, 3, 2, 1] {
        let mut d: Dispatcher = Dispatcher::new(0, chunk);
        assert_eq!(search_part(&mut d, b"144"), Some(12), "chunk {}", chunk);
        assert_eq!(d.found_index(), 12);
        assert_eq!(d.cursor(), (12 + chunk - 1) / chunk * chunk);
    }
}

#[test]
fn sixteen_workers_find_a_match_at_a_chunk_boundary() {
    // F(24) = 46368 is the first to hold 636; with chunks of 8 it is the last
    // index of the third chunk
    assert_eq!(naive_first(b"636", 1), Some(24));
    let found: i64 = run_in_turn(16, b"636", 8, 0).0;
    assert!(naive_match(b"636", found));
    assert!(found >= 24);
    assert!(found <= 16 * 8);
    let mut d: Dispatcher = Dispatcher::new(0, 8);
    assert_eq!(search_part(&mut d, b"636"), Some(24));
    assert_eq!(d.cursor(), 24);
}

#[test]
fn needle_0_does_not_match_at_index_0() {
    // F(0) = 0 is not examined: the first index examined is 1, and F(15) = 610
    assert_eq!(naive_first(b"0", 0), Some(0));
    assert_eq!(naive_first(b"0", 1), Some(15));
    let mut d: Dispatcher = Dispatcher::new(0, 100);
    assert_eq!(search_part(&mut d, b"0"), Some(15));
    assert_eq!(run_in_turn(1, b"0", 100, 0).0, 15);
    // with more workers a later chunk may win, but index 0 is never reported
    let found: i64 = run_in_turn(3, b"0", 100, 0).0;
    assert!(found >= 15);
    assert!(naive_match(b"0", found));
}

#[test]
fn long_needle_matches_only_once_the_numbers_are_long_enough() {
    // F(150) has 32 digits
    let needle: &[u8] = b"9969216677189303386214405760200";
    let expected: i64 = naive_first(needle, 1).unwrap();
    assert_eq!(expected, 150);
    let mut d: Dispatcher = Dispatcher::new(0, 40);
    assert_eq!(search_part(&mut d, needle), Some(150));
    assert_eq!(d.cursor(), 160);
}

#[test]
fn search_begins_behind_the_start() {
    // F(12) = 144 is not examined from start 12; the next to hold 144 follows
    let expected: i64 = naive_first(b"144", 13).unwrap();
    assert!(expected > 12);
    let mut d: Dispatcher = Dispatcher::new(12, 50);
    assert_eq!(search_part(&mut d, b"144"), Some(expected));
    let mut d: Dispatcher = Dispatcher::new(11, 50);
    assert_eq!(search_part(&mut d, b"144"), Some(12));
}

#[test]
fn search_does_nothing_once_the_flag_is_set() {
    let mut d: Dispatcher = Dispatcher::new(0, 100);
    d.try_report(7);
    assert_eq!(search_part(&mut d, b"1"), None);
    assert_eq!(d.found_index(), 7);
    assert_eq!(d.cursor(), 0);
}

#[test]
fn search_ends_where_no_chunk_is_within_reach() {
    let mut d: Dispatcher = Dispatcher::new(MAX_INDEX - 50, 100);
    assert_eq!(search_part(&mut d, b"1"), None);
    assert!(!d.poll_found());
    assert_eq!(d.found_index(), -1);
    assert_eq!(d.cursor(), MAX_INDEX - 50);
}

#[test]
fn workers_in_turn_take_disjoint_chunks_in_order() {
    let (found, taken) = run_in_turn(5, b"000000", 100, 0);
    assert!(naive_match(b"000000", found));
    let mut all: Vec<i64> = Vec::new();
    for chunks in &taken {
        all.extend(chunks.iter());
    }
    all.sort();
    for n in 0..all.len() {
        assert_eq!(all[n], 100 * n as i64);
    }
}

#[test]
fn found_index_of_workers_in_turn_is_a_match() {
    let needles: [&[u8]; 5] = [b"77", b"1234", b"999", b"2024", b"00"];
    for needle in needles {
        for threads in [1usize, 2, 3, 7] {
            let first: i64 = naive_first(needle, 1).unwrap();
            let found: i64 = run_in_turn(threads, needle, 25, 0).0;
            assert!(naive_match(needle, found));
            assert!(found >= first);
            if threads == 1 {
                assert_eq!(found, first);
            }
        }
    }
}
