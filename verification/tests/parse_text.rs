use dashbars::parse::find_unit_value;
use dashbars::parse::line_values;
use dashbars::parse::parse_token;
use dashbars::parse::tokenize;
use dashbars::text::digit_count;
use dashbars::text::u64_to_string;

#[test]
fn parse_plain_decimals() {
    assert_eq!(parse_token(&b"42.5".to_vec()), Some(42500));
    assert_eq!(parse_token(&b"7".to_vec()), Some(7000));
    assert_eq!(parse_token(&b"+7".to_vec()), Some(7000));
    assert_eq!(parse_token(&b"-3.25".to_vec()), Some(-3250));
    assert_eq!(parse_token(&b".5".to_vec()), Some(500));
    assert_eq!(parse_token(&b"5.".to_vec()), Some(5000));
    assert_eq!(parse_token(&b"0.0015".to_vec()), Some(1));
}

#[test]
fn parse_rejects_non_numbers() {
    assert_eq!(parse_token(&b"abc".to_vec()), None);
    assert_eq!(parse_token(&b"".to_vec()), None);
    assert_eq!(parse_token(&b"-".to_vec()), None);
    assert_eq!(parse_token(&b".".to_vec()), None);
    assert_eq!(parse_token(&b"1e5".to_vec()), None);
    assert_eq!(parse_token(&b"4.5.2".to_vec()), None);
    assert_eq!(parse_token(&b"12ms".to_vec()), None);
}

#[test]
fn parse_saturates_huge_numbers() {
    let huge = b"99999999999999999999999999".to_vec();
    assert_eq!(parse_token(&huge), Some(i64::MAX));
    let mut neg = b"-".to_vec();
    neg.extend_from_slice(&huge);
    assert_eq!(parse_token(&neg), Some(-i64::MAX));
}

#[test]
fn tokenize_splits_on_whitespace() {
    let ts = tokenize(&b"  a 1\t2.5  b ".to_vec());
    let got: Vec<Vec<u8>> = ts;
    assert_eq!(
        got,
        vec![b"a".to_vec(), b"1".to_vec(), b"2.5".to_vec(), b"b".to_vec()]
    );
}

#[test]
fn line_values_filters_non_numeric() {
    assert_eq!(line_values(&b"a 1 2.5 b -3".to_vec()), vec![1000, 2500, -3000]);
    assert_eq!(line_values(&b"nothing".to_vec()), Vec::<i64>::new());
}

#[test]
fn unit_match_takes_fraction() {
    let v = find_unit_value(&b"Response: 42.5 ms, cpu 10%".to_vec(), &b"ms".to_vec());
    assert_eq!(v, Some(42500));
}

#[test]
fn unit_match_number_next_to_unit() {
    assert_eq!(find_unit_value(&b"42ms".to_vec(), &b"ms".to_vec()), Some(42000));
    assert_eq!(find_unit_value(&b"42  ms".to_vec(), &b"ms".to_vec()), Some(42000));
}

#[test]
fn unit_match_respects_word_boundaries() {
    // "3ms" inside a word on the left: x3 starts in a word, no match there.
    assert_eq!(find_unit_value(&b"x3 ms".to_vec(), &b"ms".to_vec()), None);
    // "5 msx": unit not a whole word.
    assert_eq!(find_unit_value(&b"5 msx".to_vec(), &b"ms".to_vec()), None);
    assert_eq!(find_unit_value(&b"5 ms".to_vec(), &b"ms".to_vec()), Some(5000));
}

#[test]
fn unit_match_backtracks_over_fraction() {
    // "4.5.2 ms": the first number that works is the 5.2 after the dot.
    let v = find_unit_value(&b"4.5.2 ms".to_vec(), &b"ms".to_vec());
    assert_eq!(v, Some(5200));
}

#[test]
fn decimal_rendering() {
    assert_eq!(u64_to_string(0), "0".to_string());
    assert_eq!(u64_to_string(30), "30".to_string());
    assert_eq!(u64_to_string(1234567890), "1234567890".to_string());
    assert_eq!(digit_count(0), 1);
    assert_eq!(digit_count(9), 1);
    assert_eq!(digit_count(10), 2);
    assert_eq!(digit_count(u64::MAX), 20);
}
