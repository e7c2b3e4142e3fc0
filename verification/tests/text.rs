use tune::text::{
    at_most, contains, contains_bare, cut, decimal_of, eq_ignore_ascii_case, hex_of, join_with, pad, run_of, signed_decimal_of, split_on,
    trim, two_digits_of, words_of,
};

#[test]
fn white_space_is_trimmed_the_way_the_standard_library_does() {
    for s in ["", " ", "  a b ", "\u{a0}x\u{2003}", "\t\r\nq\u{85}", "\u{200b}z"] {
        assert_eq!(trim(s), s.trim());
        assert_eq!(words_of(s), s.split_whitespace().collect::<Vec<_>>());
    }
}

#[test]
fn splitting_and_joining_lead_back() {
    let parts = split_on("a&&b&", '&');
    assert_eq!(parts, ["a", "", "b", ""]);
    assert_eq!(join_with(&parts, "&"), "a&&b&");
    assert_eq!(split_on("", '&'), [""]);
}

#[test]
fn a_text_is_cut_at_the_first_mark() {
    assert_eq!(cut("a=b=c", '='), ("a".to_string(), "b=c".to_string()));
    assert_eq!(cut("abc", '='), ("abc".to_string(), "".to_string()));
}

#[test]
fn a_text_is_found_inside_another() {
    assert!(contains("error: invalid_grant", "invalid_grant"));
    assert!(contains("abc", ""));
    assert!(!contains("abc", "abcd"));
    assert!(contains_bare("http 400", "400") && contains_bare("400: bad", "400") && contains_bare("(400)", "400"));
    assert!(!contains_bare("4001", "400") && !contains_bare("x1400", "400") && !contains_bare("40", "400"));
}

#[test]
fn letter_case_of_ascii_is_ignored() {
    assert!(eq_ignore_ascii_case("Icy-Name", "icy-name"));
    assert!(!eq_ignore_ascii_case("É", "é"));
}

#[test]
fn numbers_as_text() {
    assert_eq!(decimal_of(0), "0");
    assert_eq!(decimal_of(u64::MAX), "18446744073709551615");
    assert_eq!(signed_decimal_of(-5), "-5");
    assert_eq!(signed_decimal_of(i64::MIN), "-9223372036854775808");
    assert_eq!(two_digits_of(7), "07");
    assert_eq!(two_digits_of(59), "59");
    assert_eq!(hex_of(0xbeef, 8), "0000beef");
}

#[test]
fn a_written_number_reads_back() {
    for n in [0u64, 9, 10, 1234567890, u64::MAX] {
        assert_eq!(decimal_of(n).parse::<u64>(), Ok(n));
    }
}

#[test]
fn texts_are_filled_up_with_blanks() {
    assert_eq!(pad("ab", 4), "ab  ");
    assert_eq!(pad("abcde", 4), "abcde");
    assert_eq!(run_of('━', 3), "━━━");
    assert_eq!(run_of('x', 0), "");
}

#[test]
fn texts_have_an_order() {
    assert!(at_most("a", "ab"));
    assert!(at_most("Z", "a"));
    assert!(!at_most("é", "z"));
}
