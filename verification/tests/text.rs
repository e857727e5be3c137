//! The string helpers, against what std does with the same input.

use nimbus_wayland::text::{
    before_first_char, chars_of, find_char, lowercase, parse_u64, path_join, same_text, split_on,
    trim,
};

#[test]
fn trimming_matches_std() {
    for s in ["", "  a b  ", "\t\n x\u{3000}", "\u{A0}", "abc", " \u{2009}y\u{85}"] {
        assert_eq!(trim(s), s.trim(), "{s:?}");
    }
}

#[test]
fn lower_case_touches_ascii_only() {
    assert_eq!(lowercase("AbC-Ä"), "abc-Ä");
    assert_eq!(lowercase(""), "");
}

#[test]
fn whole_numbers_parse_as_std_parses_them() {
    for s in ["0", "+0", "42", "007", "18446744073709551615", "18446744073709551616", "", "+", "-1", "1_000", " 1", "1 "] {
        assert_eq!(parse_u64(s), s.parse::<u64>().ok(), "{s:?}");
    }
}

#[test]
fn splitting_matches_std() {
    for s in ["", ",", "a,b", ",a,,b,", "no separator"] {
        let expected: Vec<String> = s.split(',').map(str::to_string).collect();
        assert_eq!(split_on(s, ','), expected, "{s:?}");
    }
}

#[test]
fn paths_join_as_std_joins_them() {
    for (base, part) in [("/a", "b"), ("/a/", "b"), ("", "b"), ("/a", "/abs"), ("rel", "x/y")] {
        let expected = std::path::Path::new(base).join(part).to_str().unwrap().to_string();
        assert_eq!(path_join(base, part), expected, "{base:?} {part:?}");
    }
}

#[test]
fn searching_and_comparing() {
    assert_eq!(find_char("a>b>c", '>'), Some(1));
    assert_eq!(find_char("abc", '>'), None);
    assert_eq!(before_first_char("x,y", ','), "x");
    assert_eq!(before_first_char("xy", ','), "xy");
    assert!(same_text("é", "é"));
    assert!(!same_text("a", "ab"));
    assert_eq!(chars_of("héllo"), vec!['h', 'é', 'l', 'l', 'o']);
}
