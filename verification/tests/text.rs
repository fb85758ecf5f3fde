use pipeline_engine::text::{
    chars_of, collapse_whitespace, followed_by, decimal_text, is_whitespace, join, lowercase,
    normalize_line_endings, parse_index, replace_char, replace_pair, same_text, split_on,
    split_whitespace, string_of, uppercase, utf8_length, word_count,
};

#[test]
fn white_space_is_what_the_standard_library_says() {
    let mut code: u32 = 0;
    while code <= 0x10ffff {
        if let Some(c) = char::from_u32(code) {
            assert_eq!(is_whitespace(c), c.is_whitespace(), "U+{:04X}", code);
        }
        code += 1;
    }
}

#[test]
fn words_are_runs_without_white_space() {
    assert_eq!(split_whitespace("Hello,   World!"), vec!["Hello,", "World!"]);
    assert_eq!(split_whitespace("  a\tb\n\nc  "), vec!["a", "b", "c"]);
    assert!(split_whitespace("").is_empty());
    assert!(split_whitespace(" \u{3000}\n").is_empty());
    assert_eq!(split_whitespace("one"), vec!["one"]);
    assert_eq!(word_count("hi"), 1);
    assert_eq!(word_count("a b\u{a0}c"), 3);
    assert_eq!(word_count(""), 0);
}

#[test]
fn splitting_agrees_with_the_standard_library() {
    for s in ["", " ", "a", " a ", "a  b", "\ta\r\nb\u{2003}c d ", "héllo wörld", "x\u{85}y"] {
        let expected: Vec<String> = s.split_whitespace().map(|w| w.to_string()).collect();
        assert_eq!(split_whitespace(s), expected);
        assert_eq!(collapse_whitespace(s), expected.join(" "));
        assert_eq!(word_count(s), expected.len());
    }
}

#[test]
fn joining_puts_the_separator_between() {
    let parts = vec!["a".to_string(), "b".to_string(), "c".to_string()];
    assert_eq!(join(&parts, ","), "a,b,c");
    assert_eq!(join(&parts, ""), "abc");
    assert_eq!(join(&parts[..1].to_vec(), ","), "a");
    assert_eq!(join(&Vec::new(), ","), "");
    assert_eq!(join(&vec!["".to_string(), "".to_string()], "\n"), "\n");
}

#[test]
fn collapsing_leaves_single_spaces() {
    assert_eq!(collapse_whitespace("Hello,   World!"), "Hello, World!");
    assert_eq!(collapse_whitespace("  lead and trail  "), "lead and trail");
    assert_eq!(collapse_whitespace("a\r\nb"), "a b");
    assert_eq!(collapse_whitespace(""), "");
}

#[test]
fn line_endings_become_line_feeds() {
    assert_eq!(normalize_line_endings("a\r\nb\rc\nd"), "a\nb\nc\nd");
    assert_eq!(normalize_line_endings("\r\r\n"), "\n\n");
    assert_eq!(normalize_line_endings("\r\n\r\n"), "\n\n");
    assert_eq!(normalize_line_endings("plain"), "plain");
    for s in ["", "\r", "\n\r", "\r\r\r\n\n", "a\r\n\rb", "\r\nx\r"] {
        assert_eq!(normalize_line_endings(s), s.replace("\r\n", "\n").replace('\r', "\n"));
    }
}

#[test]
fn pairs_are_replaced_from_the_left() {
    let chars: Vec<char> = "~~11~1".chars().collect();
    let replaced: String = replace_pair(&chars, '~', '1', '/').into_iter().collect();
    assert_eq!(replaced, "~/1/");
    assert_eq!(replaced, "~~11~1".replace("~1", "/"));
    let aaa: Vec<char> = "aaa".chars().collect();
    let once: String = replace_pair(&aaa, 'a', 'a', 'b').into_iter().collect();
    assert_eq!(once, "ba");
    let swapped: String = replace_char(&aaa, 'a', 'z').into_iter().collect();
    assert_eq!(swapped, "zzz");
}

#[test]
fn splitting_on_a_separator_keeps_empty_pieces() {
    for s in ["", "a", "a/b", "/a", "a/", "//", "a//b/"] {
        let chars: Vec<char> = s.chars().collect();
        let pieces: Vec<String> =
            split_on(&chars, '/').into_iter().map(|p| p.into_iter().collect()).collect();
        let expected: Vec<String> = s.split('/').map(|p| p.to_string()).collect();
        assert_eq!(pieces, expected);
    }
}

#[test]
fn indexes_are_plain_decimals() {
    let index = |s: &str| parse_index(&s.chars().collect());
    assert_eq!(index("0"), Some(0));
    assert_eq!(index("7"), Some(7));
    assert_eq!(index("120"), Some(120));
    assert_eq!(index(""), None);
    assert_eq!(index("01"), None);
    assert_eq!(index("00"), None);
    assert_eq!(index("+1"), None);
    assert_eq!(index("-1"), None);
    assert_eq!(index("1a"), None);
    assert_eq!(index("１"), None);
    assert_eq!(index(&usize::MAX.to_string()), Some(usize::MAX));
    assert_eq!(index("18446744073709551616"), None);
    assert_eq!(index("99999999999999999999999"), None);
}

#[test]
fn decimal_text_has_no_leading_zeros() {
    assert_eq!(decimal_text(0), "0");
    assert_eq!(decimal_text(7), "7");
    assert_eq!(decimal_text(10), "10");
    assert_eq!(decimal_text(1234567890), "1234567890");
    assert_eq!(decimal_text(u64::MAX), u64::MAX.to_string());
}

#[test]
fn case_conversion_agrees_with_the_standard_library() {
    for s in ["", "ok", "Hello, World!", "abcxyzABCXYZ019@[`{", "straße", "ΟΔΥΣΣΕΥΣ", "ǆ", "İ"] {
        assert_eq!(uppercase(s), s.to_uppercase());
        assert_eq!(lowercase(s), s.to_lowercase());
    }
    assert_eq!(uppercase("ok"), "OK");
    assert_eq!(uppercase("straße"), "STRASSE");
    assert_eq!(lowercase("MiXed"), "mixed");
}

#[test]
fn uppercase_twice_is_uppercase_once() {
    for s in ["ok", "Hello, World!", "straße", "ǆ", ""] {
        assert_eq!(uppercase(&uppercase(s)), uppercase(s));
    }
}

#[test]
fn lengths_count_bytes() {
    assert_eq!(utf8_length(""), 0);
    assert_eq!(utf8_length("hi"), 2);
    assert_eq!(utf8_length("héllo"), 6);
    assert_eq!(utf8_length("日本語"), 9);
    assert_eq!(utf8_length("😀"), 4);
}

#[test]
fn strings_and_characters_go_back_and_forth() {
    for s in ["", "abc", "héllo 😀"] {
        let chars = chars_of(s);
        assert_eq!(chars, s.chars().collect::<Vec<char>>());
        assert_eq!(string_of(&chars), s);
    }
    assert_eq!(followed_by("ab", "cd"), "abcd");
    assert_eq!(followed_by("", ""), "");
    assert!(same_text("a", "a"));
    assert!(!same_text("a", "A"));
    assert!(!same_text("a", "ab"));
}

#[test]
fn ascii_letters_change_case_one_by_one() {
    let mut code: u8 = 0;
    while code < 128 {
        let s = (code as char).to_string();
        assert_eq!(uppercase(&s), s.to_uppercase());
        assert_eq!(lowercase(&s), s.to_lowercase());
        assert_eq!(uppercase(&s), s.to_ascii_uppercase());
        assert_eq!(lowercase(&s), s.to_ascii_lowercase());
        code += 1;
    }
}

#[test]
fn cleaning_never_adds_bytes() {
    for s in ["", " ", "a", "  a  b  ", "\r\n", "\r", "é \u{3000} ü\r\n\r", "\u{2003}x\u{2003}"] {
        assert!(utf8_length(&collapse_whitespace(s)) <= utf8_length(s));
        assert!(utf8_length(&normalize_line_endings(s)) <= utf8_length(s));
    }
}
