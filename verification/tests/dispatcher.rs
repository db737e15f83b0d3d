use fib_find::dispatcher::{Dispatcher, NO_INDEX};

#[test]
fn fresh_dispatcher_has_found_nothing() {
    let d: Dispatcher = Dispatcher::new(0, 100);
    assert!(!d.poll_found());
    assert_eq!(d.found_index(), -1);
    assert_eq!(d.found_index(), NO_INDEX);
    assert_eq!(d.cursor(), 0);
    assert_eq!(d.chunk(), 100);
}

#[test]
fn chunks_come_one_after_another() {
    let mut d: Dispatcher = Dispatcher::new(0, 100);
    assert_eq!(d.acquire_chunk(), 0);
    assert_eq!(d.acquire_chunk(), 100);
    assert_eq!(d.acquire_chunk(), 200);
    assert_eq!(d.cursor(), 300);
}

#[test]
fn chunks_begin_at_the_start() {
    let mut d: Dispatcher = Dispatcher::new(1_000_000, 10_000);
    assert_eq!(d.acquire_chunk(), 1_000_000);
    assert_eq!(d.acquire_chunk(), 1_010_000);
    assert_eq!(d.cursor(), 1_020_000);
}

#[test]
fn cursor_is_start_plus_chunks_handed_out() {
    let start: i64 = 37;
    let chunk: i64 = 13;
    let mut d: Dispatcher = Dispatcher::new(start, chunk);
    for n in 0..50i64 {
        assert_eq!(d.cursor(), start + n * chunk);
        assert_eq!(d.acquire_chunk(), start + n * chunk);
    }
}

#[test]
fn chunks_taken_by_two_takers_are_disjoint_and_contiguous() {
    let chunk: i64 = 7;
    let mut d: Dispatcher = Dispatcher::new(5, chunk);
    let mut first: Vec<i64> = Vec::new();
    let mut second: Vec<i64> = Vec::new();
    for turn in 0..40usize {
        if turn % 3 == 0 {
            first.push(d.acquire_chunk());
        } else {
            second.push(d.acquire_chunk());
        }
    }
    for a in &first {
        for b in &second {
            assert!(a + chunk <= *b || b + chunk <= *a);
        }
    }
    let mut all: Vec<i64> = first.clone();
    all.extend(second.iter());
    all.sort();
    for n in 0..all.len() {
        assert_eq!(all[n], 5 + (n as i64) * chunk);
    }
}

#[test]
fn acquiring_does_not_touch_the_result() {
    let mut d: Dispatcher = Dispatcher::new(0, 10);
    d.try_report(4);
    d.acquire_chunk();
    assert!(d.poll_found());
    assert_eq!(d.found_index(), 4);
}

#[test]
fn first_report_is_recorded() {
    let mut d: Dispatcher = Dispatcher::new(0, 100);
    d.try_report(12);
    assert!(d.poll_found());
    assert_eq!(d.found_index(), 12);
    assert_eq!(d.cursor(), 0);
}

#[test]
fn lower_report_replaces_a_higher_one() {
    let mut d: Dispatcher = Dispatcher::new(0, 100);
    d.try_report(250);
    d.try_report(20);
    assert_eq!(d.found_index(), 20);
}

#[test]
fn higher_report_does_not_replace_a_lower_one() {
    let mut d: Dispatcher = Dispatcher::new(0, 100);
    d.try_report(20);
    d.try_report(250);
    assert!(d.poll_found());
    assert_eq!(d.found_index(), 20);
}

#[test]
fn report_of_index_zero_is_kept() {
    let mut d: Dispatcher = Dispatcher::new(0, 100);
    d.try_report(0);
    assert_eq!(d.found_index(), 0);
    d.try_report(5);
    assert_eq!(d.found_index(), 0);
}

#[test]
fn repeated_report_changes_nothing() {
    let mut d: Dispatcher = Dispatcher::new(3, 9);
    d.acquire_chunk();
    d.try_report(12);
    let found: bool = d.poll_found();
    let index: i64 = d.found_index();
    let cursor: i64 = d.cursor();
    for _ in 0..5 {
        d.try_report(12);
        assert_eq!(d.poll_found(), found);
        assert_eq!(d.found_index(), index);
        assert_eq!(d.cursor(), cursor);
    }
}

#[test]
fn repeated_report_changes_nothing_below_a_lower_index() {
    let mut d: Dispatcher = Dispatcher::new(0, 9);
    d.try_report(5);
    d.try_report(12);
    assert_eq!(d.found_index(), 5);
    d.try_report(12);
    assert_eq!(d.found_index(), 5);
}
