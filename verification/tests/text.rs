use sodium::text::{
    char_is_ascii_alphanumeric, char_is_whitespace, contains_chars, decimal_string,
    find_char_back, find_char_from, has_at_index, join_from, push_string, split_words, str_eq,
    subvec, substring, to_chars, trim_bounds, trimmed, trimmed_range,
};

fn chars(s: &str) -> Vec<char> {
    s.chars().collect()
}

const SAMPLES: [&str; 14] = [
    "",
    " ",
    "a",
    "  a  ",
    "\t\r\n a b \u{a0}\u{3000}",
    "\u{2003}x\u{2003}",
    "\u{85}\u{1680}word\u{2028}\u{2029}\u{202f}\u{205f}",
    "no-space",
    " lead",
    "trail ",
    "a  b   c",
    "\u{200b}zero width\u{200b}",
    "\u{180e}mongolian\u{180e}",
    "caf\u{e9} \u{1f600} x",
];

#[test]
fn white_space_is_what_the_standard_library_says() {
    for code in 0..=0x10FFFFu32 {
        if let Some(c) = char::from_u32(code) {
            assert_eq!(char_is_whitespace(c), c.is_whitespace(), "U+{:04X}", code);
            assert_eq!(
                char_is_ascii_alphanumeric(c),
                c.is_ascii_alphanumeric(),
                "U+{:04X}",
                code
            );
        }
    }
}

#[test]
fn trimming_is_what_the_standard_library_does() {
    for s in SAMPLES {
        assert_eq!(trimmed(s), s.trim(), "{:?}", s);
        let v = chars(s);
        let (a, b) = trim_bounds(&v);
        assert!(a <= b && b <= v.len());
        assert_eq!(v[a..b].iter().collect::<String>(), s.trim(), "{:?}", s);
        assert_eq!(trimmed_range(&v, 0, v.len()), s.trim(), "{:?}", s);
    }
    assert_eq!(trimmed_range(&chars("ab  cd  ef"), 2, 8), "cd");
    assert_eq!(trim_bounds(&chars("   ")), (3, 3));
}

#[test]
fn words_are_what_the_standard_library_splits() {
    for s in SAMPLES {
        let expected: Vec<String> = s.split_whitespace().map(|w| w.to_string()).collect();
        assert_eq!(split_words(&chars(s)), expected, "{:?}", s);
        assert_eq!(join_from(&expected, 0, " "), expected.join(" "), "{:?}", s);
    }
    let parts = vec!["a".to_string(), "b".to_string(), "c".to_string(), "d".to_string()];
    assert_eq!(join_from(&parts, 1, ", "), "b, c, d");
    assert_eq!(join_from(&parts, 3, ", "), "d");
    assert_eq!(join_from(&parts, 4, ", "), "");
}

#[test]
fn characters_and_substrings() {
    for s in SAMPLES {
        assert_eq!(to_chars(s), chars(s));
        let v = chars(s);
        assert_eq!(substring(&v, 0, v.len()), s);
        assert_eq!(subvec(&v, 0, v.len()), v);
    }
    let v = chars("h\u{e9}llo w\u{f6}rld");
    assert_eq!(substring(&v, 1, 5), "\u{e9}llo");
    assert_eq!(subvec(&v, 6, 11), chars("w\u{f6}rld"));
    assert_eq!(substring(&v, 3, 3), "");
}

#[test]
fn strings_compare_by_their_characters() {
    assert!(str_eq("", ""));
    assert!(str_eq("abc", "abc"));
    assert!(!str_eq("abc", "abd"));
    assert!(!str_eq("abc", "ab"));
    assert!(!str_eq("ab", "abc"));
    assert!(!str_eq("KEY", "key"));
    assert!(str_eq("\u{e9}", "\u{e9}"));
    assert!(!str_eq("\u{e9}", "e\u{301}"));
}

#[test]
fn characters_are_found_from_either_end() {
    let v = chars("a\"b\"c");
    assert_eq!(find_char_from(&v, '"', 0), 1);
    assert_eq!(find_char_from(&v, '"', 1), 1);
    assert_eq!(find_char_from(&v, '"', 2), 3);
    assert_eq!(find_char_from(&v, '"', 4), 5);
    assert_eq!(find_char_from(&v, 'z', 0), 5);
    assert_eq!(find_char_back(&v, '"', 5), Some(3));
    assert_eq!(find_char_back(&v, '"', 3), Some(1));
    assert_eq!(find_char_back(&v, '"', 1), None);
    assert_eq!(find_char_back(&v, 'z', 5), None);
    assert_eq!(find_char_back(&chars(""), 'a', 0), None);
}

#[test]
fn substrings_are_found_where_the_standard_library_finds_them() {
    let texts = ["", "a", "ab", "aab", "abcabc", "h\u{e9}llo", "xxxy", "   "];
    let needles = ["", "a", "b", "ab", "abc", "bca", "cab", "\u{e9}l", "xy", "xxy", "  ", "abcabcd"];
    for text in texts {
        for needle in needles {
            assert_eq!(
                contains_chars(&chars(text), &chars(needle)),
                text.contains(needle),
                "{:?} in {:?}",
                needle,
                text
            );
        }
    }
    let v = chars("abcabc");
    assert!(has_at_index(&v, 3, &chars("abc")));
    assert!(!has_at_index(&v, 4, &chars("abc")));
    assert!(has_at_index(&v, 6, &chars("")));
    assert!(!has_at_index(&v, 6, &chars("a")));
}

#[test]
fn numbers_are_written_in_decimal() {
    for n in [0usize, 1, 9, 10, 11, 99, 100, 1123, 16383, 65535, 1_000_000, usize::MAX] {
        assert_eq!(decimal_string(n), n.to_string());
    }
}

#[test]
fn strings_are_appended_to_lists() {
    let mut list: Vec<String> = Vec::new();
    push_string(&mut list, "a".to_string());
    push_string(&mut list, String::new());
    push_string(&mut list, "b".to_string());
    assert_eq!(list, vec!["a".to_string(), String::new(), "b".to_string()]);
}
