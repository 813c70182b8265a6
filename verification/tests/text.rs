use fox_arcade::text::{chars_of, find_sep, line_ranges, parse_u64, split_ranges};

fn number(s: &str) -> Option<u64> {
    let chars = chars_of(s);
    parse_u64(&chars, 0, chars.len())
}

fn fields(s: &str, sep: char) -> Vec<String> {
    let chars = chars_of(s);
    split_ranges(&chars, 0, chars.len(), sep)
        .iter()
        .map(|r| chars[r.0..r.1].iter().collect())
        .collect()
}

fn lines(s: &str) -> Vec<String> {
    let chars = chars_of(s);
    line_ranges(&chars).iter().map(|r| chars[r.0..r.1].iter().collect()).collect()
}

#[test]
fn chars_of_keeps_every_character() {
    assert_eq!(chars_of("a-b"), vec!['a', '-', 'b']);
    assert_eq!(chars_of(""), Vec::<char>::new());
    assert_eq!(chars_of("é:ü"), vec!['é', ':', 'ü']);
}

#[test]
fn find_sep_gives_first_separator_or_end() {
    let chars = chars_of("ab:cd:e");
    assert_eq!(find_sep(&chars, 0, 7, ':'), 2);
    assert_eq!(find_sep(&chars, 3, 7, ':'), 5);
    assert_eq!(find_sep(&chars, 6, 7, ':'), 7);
    assert_eq!(find_sep(&chars, 0, 2, ':'), 2);
    assert_eq!(find_sep(&chars, 2, 2, ':'), 2);
}

#[test]
fn split_keeps_empty_fields() {
    assert_eq!(fields("a:b:c", ':'), vec!["a", "b", "c"]);
    assert_eq!(fields("", ':'), vec![""]);
    assert_eq!(fields(":", ':'), vec!["", ""]);
    assert_eq!(fields("a::b:", ':'), vec!["a", "", "b", ""]);
    assert_eq!(fields("abc", '-'), vec!["abc"]);
}

#[test]
fn lines_end_at_newlines() {
    assert_eq!(lines("a\nb"), vec!["a", "b"]);
    assert_eq!(lines("a\nb\n"), vec!["a", "b"]);
    assert_eq!(lines(""), Vec::<String>::new());
    assert_eq!(lines("\n"), vec![""]);
    assert_eq!(lines("a\n\nb"), vec!["a", "", "b"]);
}

#[test]
fn lines_drop_a_carriage_return_before_a_newline() {
    assert_eq!(lines("a\r\nb\r\n"), vec!["a", "b"]);
    assert_eq!(lines("a\r\nb\r"), vec!["a", "b\r"]);
    assert_eq!(lines("a\r\r\n"), vec!["a\r"]);
}

#[test]
fn numbers_are_decimal() {
    assert_eq!(number("0"), Some(0));
    assert_eq!(number("42"), Some(42));
    assert_eq!(number("007"), Some(7));
    assert_eq!(number("+5"), Some(5));
    assert_eq!(number("18446744073709551615"), Some(u64::MAX));
    assert_eq!(number("00018446744073709551615"), Some(u64::MAX));
}

#[test]
fn numbers_reject_what_is_no_u64() {
    assert_eq!(number(""), None);
    assert_eq!(number("+"), None);
    assert_eq!(number("-1"), None);
    assert_eq!(number("12a"), None);
    assert_eq!(number(" 1"), None);
    assert_eq!(number("1 "), None);
    assert_eq!(number("++1"), None);
    assert_eq!(number("18446744073709551616"), None);
    assert_eq!(number("99999999999999999999999"), None);
    assert_eq!(number("184467440737095516150"), None);
}

#[test]
fn numbers_agree_with_the_standard_parser() {
    let samples = [
        "0", "1", "+1", "-1", "", "+", "18446744073709551615", "18446744073709551616", "1x",
        "x1", "0000", "+0009", "１２", "1_000",
    ];
    for s in samples {
        assert_eq!(number(s), s.parse::<u64>().ok(), "{:?}", s);
    }
}

#[test]
fn number_in_the_middle_of_a_text() {
    let chars = chars_of("ab:123-45");
    assert_eq!(parse_u64(&chars, 3, 6), Some(123));
    assert_eq!(parse_u64(&chars, 7, 9), Some(45));
    assert_eq!(parse_u64(&chars, 3, 9), None);
    assert_eq!(parse_u64(&chars, 6, 6), None);
}
