use fib_find::digits::has_needle;
use ibig::IBig;

fn big(text: &str) -> IBig {
    text.parse::<IBig>().unwrap()
}

#[test]
fn needle_inside_the_digits() {
    assert!(has_needle(&IBig::from(6765), b"76"));
    assert!(has_needle(&IBig::from(6765), b"6765"));
    assert!(has_needle(&IBig::from(6765), b"5"));
    assert!(has_needle(&IBig::from(6765), b"67"));
}

#[test]
fn needle_not_in_the_digits() {
    assert!(!has_needle(&IBig::from(6765), b"66"));
    assert!(!has_needle(&IBig::from(6765), b"5676"));
    assert!(!has_needle(&IBig::from(6765), b"0"));
}

#[test]
fn needle_must_be_contiguous() {
    assert!(!has_needle(&IBig::from(12345), b"135"));
    assert!(has_needle(&IBig::from(12345), b"234"));
}

#[test]
fn zero_is_the_single_digit_zero() {
    assert!(has_needle(&IBig::from(0), b"0"));
    assert!(!has_needle(&IBig::from(0), b"00"));
    assert!(!has_needle(&IBig::from(0), b"1"));
}

#[test]
fn no_leading_zero_is_written() {
    assert!(!has_needle(&IBig::from(7), b"07"));
    assert!(has_needle(&IBig::from(70), b"70"));
}

#[test]
fn longer_needle_never_matches() {
    assert!(!has_needle(&IBig::from(144), b"1440"));
    assert!(!has_needle(&IBig::from(144), b"0144"));
    assert!(!has_needle(&IBig::from(8), b"88"));
}

#[test]
fn needle_with_a_byte_that_is_no_digit_never_matches() {
    assert!(!has_needle(&IBig::from(144), b"x"));
    assert!(!has_needle(&IBig::from(144), b"1x4"));
    assert!(!has_needle(&IBig::from(144), b"14 "));
    assert!(!has_needle(&IBig::from(144), &[0xff]));
    assert!(!has_needle(&IBig::from(144), &[b'1', 0x80, b'4']));
}

#[test]
fn empty_needle_is_everywhere() {
    assert!(has_needle(&IBig::from(144), b""));
}

#[test]
fn digits_of_a_number_beyond_a_machine_word() {
    let n: IBig = big("354224848179261915075");
    assert!(has_needle(&n, b"354224848179261915075"));
    assert!(has_needle(&n, b"4848179"));
    assert!(has_needle(&n, b"915075"));
    assert!(!has_needle(&n, b"3542248481792619150750"));
    assert!(!has_needle(&n, b"99"));
}

#[test]
fn a_negative_number_shows_its_sign() {
    assert!(has_needle(&IBig::from(-42), b"-4"));
    assert!(has_needle(&IBig::from(-42), b"42"));
    assert!(!has_needle(&IBig::from(42), b"-"));
}
