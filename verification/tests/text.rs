use cargo_udeps::text::{
    compare, decimal_string, ends_with, is_whitespace, split_first, split_lines, split_whitespace,
    starts_with, str_equal, to_chars, trim_end, Rank,
};

#[test]
fn to_chars_copies_every_character() {
    assert_eq!(to_chars("a└b"), vec!['a', '└', 'b']);
    assert_eq!(to_chars(""), Vec::<char>::new());
}

#[test]
fn str_equal_compares_contents() {
    assert!(str_equal("--extern", "--extern"));
    assert!(!str_equal("--extern", "--extern "));
    assert!(!str_equal("abc", "abd"));
    assert!(str_equal("", ""));
}

#[test]
fn compare_orders_like_the_standard_library() {
    let words = ["", "a", "ab", "b", "B", "if_chain", "maplit", "matches", "é", "z"];
    for a in words {
        for b in words {
            let expected = match a.cmp(b) {
                std::cmp::Ordering::Less => Rank::Before,
                std::cmp::Ordering::Equal => Rank::Same,
                std::cmp::Ordering::Greater => Rank::After,
            };
            assert_eq!(compare(a, b), expected, "{a:?} against {b:?}");
        }
    }
}

#[test]
fn decimal_string_writes_numbers() {
    assert_eq!(decimal_string(0), "0");
    assert_eq!(decimal_string(7), "7");
    assert_eq!(decimal_string(10), "10");
    assert_eq!(decimal_string(4096), "4096");
    assert_eq!(decimal_string(u32::MAX), "4294967295");
}

#[test]
fn split_first_parts_at_the_first_separator() {
    assert_eq!(split_first("a=b=c", '='), ("a".to_string(), Some("b=c".to_string())));
    assert_eq!(split_first("name", '='), ("name".to_string(), None));
    assert_eq!(split_first("=", '='), (String::new(), Some(String::new())));
    assert_eq!(split_first("", '='), (String::new(), None));
}

#[test]
fn is_whitespace_agrees_with_char() {
    for code in 0..0x3100u32 {
        if let Some(c) = char::from_u32(code) {
            assert_eq!(is_whitespace(c), c.is_whitespace(), "U+{code:04X}");
        }
    }
}

#[test]
fn split_whitespace_agrees_with_str() {
    for s in ["", " ", "a", " a  b\tc\n", "a\\ b c", "\u{2003}x\u{a0}y ", "one"] {
        let expected: Vec<String> = s.split_whitespace().map(|w| w.to_string()).collect();
        assert_eq!(split_whitespace(s), expected, "{s:?}");
    }
}

#[test]
fn split_lines_agrees_with_str() {
    for s in ["", "\n", "a", "a\n", "a\nb", "a\r\nb\r\n", "a\r", "a\r\r\n", "\n\n", "a\n\nb\n"] {
        let expected: Vec<String> = s.lines().map(|l| l.to_string()).collect();
        assert_eq!(split_lines(s), expected, "{s:?}");
    }
}

#[test]
fn affixes() {
    assert!(ends_with("rlib", "lib"));
    assert!(ends_with("lib", "lib"));
    assert!(!ends_with("ib", "lib"));
    assert!(!ends_with("bin", "lib"));
    assert!(starts_with("libfoo", "lib"));
    assert!(!starts_with("li", "lib"));
    assert!(starts_with("x", ""));
}

#[test]
fn trim_end_takes_trailing_white_space_off() {
    assert_eq!(trim_end("a b \n\t"), "a b");
    assert_eq!(trim_end("  "), "");
    assert_eq!(trim_end(" a"), " a");
    assert_eq!(trim_end(""), "");
}
