use clipdate::text::{
    decimal_text, ends_with, eq_ignore_case, first_word, from_chars, has, join, last_segment, lines,
    parse_u64, replace_all, same, strip_leading, to_chars, trim, white,
};

#[test]
fn white_space_is_that_of_unicode() {
    for code in 0..0x11_0000u32 {
        if let Some(c) = char::from_u32(code) {
            assert_eq!(white(c), c.is_whitespace(), "{}", code);
        }
    }
}

#[test]
fn searches_agree_with_the_standard_library() {
    let samples = ["", "a", "ab", "aab", "abab", "äb", "a.b", "aa", "aaa", "xaaay"];
    for s in samples {
        for p in samples {
            assert_eq!(has(s, p), s.contains(p), "{} {}", s, p);
            assert_eq!(ends_with(s, p), s.ends_with(p), "{} {}", s, p);
            assert_eq!(same(s, p), s == p);
            if !p.is_empty() {
                assert_eq!(replace_all(s, p, "<>"), s.replace(p, "<>"), "{} {}", s, p);
            }
        }
        assert_eq!(from_chars(&to_chars(s)), s);
    }
}

#[test]
fn cuts_agree_with_the_standard_library() {
    for s in ["", "v1", "vv1", "1v", "  a b ", "\u{3000}x\u{85}", "a/b/c", "a/", "/", "abc", "\t\n"] {
        assert_eq!(strip_leading(s, 'v'), s.trim_start_matches('v'));
        assert_eq!(trim(s), s.trim());
        assert_eq!(first_word(s), s.split_whitespace().next().map(|w| w.to_string()));
        assert_eq!(last_segment(s, '/'), s.rsplit('/').next().unwrap());
    }
}

#[test]
fn lines_agree_with_the_standard_library() {
    for s in ["", "\n", "a", "a\n", "a\nb", "a\r\nb\r\n", "a\r", "\r\n\r\n", "a\n\nb", "\r\r\n"] {
        let expected: Vec<String> = s.lines().map(|l| l.to_string()).collect();
        assert_eq!(lines(s), expected, "{:?}", s);
    }
}

#[test]
fn case_is_ignored_for_ascii_only() {
    assert!(eq_ignore_case("KoYeb.EXE", "koyeb.exe"));
    assert!(!eq_ignore_case("Ä", "ä"));
    assert!(!eq_ignore_case("a", "ab"));
    assert!(!eq_ignore_case("[", "{"));
    assert!(eq_ignore_case("", ""));
}

#[test]
fn lists_are_joined() {
    let list = vec!["a".to_string(), "b".to_string(), "c".to_string()];
    assert_eq!(join(&list, ", "), "a, b, c");
    assert_eq!(join(&vec!["a".to_string()], ", "), "a");
    assert_eq!(join(&vec![], ", "), "");
}

#[test]
fn numbers_are_written_and_read() {
    for n in [0, 1, 9, 10, 255, 65536, u64::MAX] {
        assert_eq!(decimal_text(n), n.to_string());
        assert_eq!(parse_u64(&n.to_string()), Some(n));
    }
    for s in ["", "+", "-1", "+7", "007", "1 ", "18446744073709551616", "1a", "++1", "٣"] {
        assert_eq!(parse_u64(s), s.parse::<u64>().ok(), "{:?}", s);
    }
}
