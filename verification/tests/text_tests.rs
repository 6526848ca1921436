use jj_navi::order::{sort_falling, sort_rising, sorted_set, text_less};
use jj_navi::text::{
    cut_once, filled_lines_of, has_text, joined, last_digit_run_of, leading_digits_of, lines_of,
    number, parse_number, pieces_of, replaced, trimmed, trimmed_end_char, trimmed_start_text,
    words_of,
};

fn texts(values: &[&str]) -> Vec<String> {
    values.iter().map(|v| v.to_string()).collect()
}

#[test]
fn lines_agree_with_the_standard_ones() {
    for s in ["", "\n", "a", "a\n", "a\nb", "a\r\nb\r\n", "a\r", "\r\n", "\n\n", "a\rb\n\r"] {
        assert_eq!(lines_of(s), s.lines().map(str::to_owned).collect::<Vec<_>>(), "{s:?}");
    }
}

#[test]
fn filled_lines_skip_empty_ones() {
    assert_eq!(filled_lines_of("a\n\n  \nb\n"), texts(&["a", "  ", "b"]));
}

#[test]
fn trimming_agrees_with_the_standard_one() {
    for s in ["", " ", " a ", "\ta\u{3000}", "a\u{85}", "\u{2028}a b\u{1680}", "\u{200b}a"] {
        assert_eq!(trimmed(s), s.trim(), "{s:?}");
    }
    assert_eq!(trimmed_end_char("a//", '/'), "a");
    assert_eq!(trimmed_start_text("././a", "./"), "a");
}

#[test]
fn splitting_agrees_with_the_standard_one() {
    assert_eq!(pieces_of("a,b,,", ','), texts(&["a", "b", "", ""]));
    assert_eq!(pieces_of("", ','), texts(&[""]));
    assert_eq!(words_of("  a \t b\nc "), texts(&["a", "b", "c"]));
    assert_eq!(cut_once("a => b => c", " => "), Some(("a".to_owned(), "b => c".to_owned())));
    assert_eq!(cut_once("abc", "=>"), None);
    assert!(has_text("abc", "bc"));
    assert!(has_text("abc", ""));
    assert!(!has_text("abc", "cb"));
}

#[test]
fn joining_and_replacing() {
    assert_eq!(joined(&texts(&["a", "b"]), ", "), "a, b");
    assert_eq!(joined(&texts(&[]), ", "), "");
    assert_eq!(replaced("a:b:c", ':', "--"), "a--b--c");
}

#[test]
fn numerals_are_decimal() {
    assert_eq!(number(0), "0");
    assert_eq!(number(1203), "1203");
    assert_eq!(number(u128::MAX), u128::MAX.to_string());
    assert_eq!(parse_number("42", 100), Some(42));
    assert_eq!(parse_number("+42", 100), Some(42));
    assert_eq!(parse_number("101", 100), None);
    assert_eq!(parse_number("", 100), None);
    assert_eq!(parse_number("+", 100), None);
    assert_eq!(parse_number("-1", 100), None);
    assert_eq!(parse_number("99999999999999999999999", u64::MAX), None);
    assert_eq!(parse_number("18446744073709551615", u64::MAX), Some(u64::MAX));
}

#[test]
fn runs_of_digits() {
    assert_eq!(leading_digits_of("39.0-dev"), "39");
    assert_eq!(leading_digits_of("x1"), "");
    assert_eq!(last_digit_run_of("1 file, 12 lines "), "12");
    assert_eq!(last_digit_run_of("none"), "");
}

#[test]
fn sorted_sets_have_no_twins() {
    assert_eq!(sorted_set(&texts(&["b", "a", "b", "ab"])), texts(&["a", "ab", "b"]));
    assert!(text_less("a", "ab"));
    assert!(!text_less("ab", "a"));
    assert!(!text_less("a", "a"));
}

#[test]
fn sorting_is_stable() {
    assert_eq!(sort_falling(vec!['a', 'b', 'c', 'd'], &vec![1, 3, 1, 3]), vec!['b', 'd', 'a', 'c']);
    assert_eq!(
        sort_rising(vec![1, 2, 3], &texts(&["b", "a", "b"])),
        vec![2, 1, 3]
    );
}
