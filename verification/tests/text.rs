use clockode::decimal::{parse_decimal, to_decimal};
use clockode::order::{comes_before, sorted_order};
use clockode::text::{
    find_char, from_chars, has_char, is_blank, remove_pattern, same_chars, split_lines, to_chars,
    trim, white_space, without_white_space,
};

fn chars(s: &str) -> Vec<char> {
    s.chars().collect()
}

fn text(v: &Vec<char>) -> String {
    v.iter().collect()
}

#[test]
fn white_space_is_what_the_standard_library_says() {
    for code in 0..=0x10FFFFu32 {
        if let Some(c) = char::from_u32(code) {
            assert_eq!(white_space(c), c.is_whitespace(), "U+{:04X}", code);
        }
    }
}

#[test]
fn letter_case_of_ascii_is_the_ascii_mapping() {
    let all: String = (0u8..128).map(|b| b as char).collect();
    assert_eq!(all.to_uppercase(), all.to_ascii_uppercase());
    assert_eq!(all.to_lowercase(), all.to_ascii_lowercase());
}

#[test]
fn strings_and_characters() {
    assert_eq!(to_chars("h\u{e9}llo"), chars("h\u{e9}llo"));
    assert_eq!(from_chars(&chars("h\u{e9}llo")), "h\u{e9}llo");
    assert_eq!(to_chars(""), Vec::<char>::new());
    assert!(same_chars(&chars("abc"), &chars("abc")));
    assert!(!same_chars(&chars("abc"), &chars("abd")));
    assert!(!same_chars(&chars("abc"), &chars("ab")));
}

#[test]
fn trimming_is_str_trim() {
    for s in ["", " ", "a", "  a b \t\n", "\u{a0}x\u{3000}", "x  ", "  x", " \r\n ", "a\u{2003}"] {
        assert_eq!(text(&trim(&chars(s))), s.trim(), "{:?}", s);
        assert_eq!(is_blank(&chars(s)), s.trim().is_empty(), "{:?}", s);
        let stripped: String = s.chars().filter(|c| !c.is_whitespace()).collect();
        assert_eq!(text(&without_white_space(&chars(s))), stripped, "{:?}", s);
    }
}

#[test]
fn searching_and_removing() {
    assert_eq!(find_char(&chars("a:b:c"), ':'), Some(1));
    assert_eq!(find_char(&chars("abc"), ':'), None);
    assert_eq!(find_char(&chars(""), ':'), None);
    assert!(has_char(&chars("a:b"), ':'));
    assert!(!has_char(&chars("ab"), ':'));
    for (s, p) in [
        ("a:b::c", ":"),
        ("%3A%3Ax%3", "%3A"),
        ("aaaa", "aa"),
        ("aaa", "aa"),
        ("abc", ""),
        ("", "x"),
        ("%%3A3A", "%3A"),
        ("xyz", "xyz"),
    ] {
        assert_eq!(text(&remove_pattern(&chars(s), &chars(p))), s.replace(p, ""), "{:?} {:?}", s, p);
    }
}

#[test]
fn lines_are_the_pieces_between_line_feeds() {
    for s in ["", "a", "a\nb", "a\n", "\n", "a\r\nb\n\nc", "\n\nx"] {
        let expected: Vec<String> = s.split('\n').map(str::to_string).collect();
        let lines: Vec<String> = split_lines(&chars(s)).iter().map(text).collect();
        assert_eq!(lines, expected, "{:?}", s);
    }
}

#[test]
fn decimal_numbers_are_written_shortest() {
    for n in [0u64, 1, 9, 10, 11, 99, 100, 12345, 4294967295, u64::MAX] {
        assert_eq!(text(&to_decimal(n)), n.to_string());
    }
}

#[test]
fn decimal_numbers_are_read_as_from_str_reads_them() {
    for s in [
        "", "0", "7", "007", "+7", "+", "-", "-7", "++7", "7+", " 7", "7 ", "4294967295",
        "4294967296", "00000000000000000000000000004294967295", "99999999999999999999999999", "1a",
        "\u{663}", "+0", "255", "256",
    ] {
        assert_eq!(parse_decimal(&chars(s), u32::MAX as u64), s.parse::<u32>().ok().map(u64::from), "{:?}", s);
        assert_eq!(parse_decimal(&chars(s), u8::MAX as u64), s.parse::<u8>().ok().map(u64::from), "{:?}", s);
        assert_eq!(parse_decimal(&chars(s), u64::MAX), s.parse::<u64>().ok(), "{:?}", s);
    }
    assert_eq!(parse_decimal(&chars("18446744073709551615"), u64::MAX), Some(u64::MAX));
    assert_eq!(parse_decimal(&chars("18446744073709551616"), u64::MAX), None);
    assert_eq!(parse_decimal(&chars("5"), 4), None);
    assert_eq!(parse_decimal(&chars("4"), 4), Some(4));
    assert_eq!(parse_decimal(&chars("0"), 0), Some(0));
}

#[test]
fn texts_are_ordered_as_strings_are() {
    let words = ["", "a", "A", "ab", "b", "B", "a b", "\u{e9}", "z", "\u{10000}", "\u{ffff}", "aa"];
    for a in words {
        for b in words {
            assert_eq!(comes_before(&chars(a), &chars(b)), a < b, "{:?} {:?}", a, b);
        }
    }
}

#[test]
fn the_sorted_order_is_stable() {
    let keys: Vec<Vec<char>> = ["b", "a", "c", "a", "", "b"].iter().map(|s| chars(s)).collect();
    assert_eq!(sorted_order(&keys), vec![4, 1, 3, 0, 5, 2]);
    assert_eq!(sorted_order(&vec![]), Vec::<usize>::new());
    let mut expected: Vec<usize> = (0..keys.len()).collect();
    expected.sort_by(|a, b| keys[*a].cmp(&keys[*b]));
    assert_eq!(sorted_order(&keys), expected);
}
