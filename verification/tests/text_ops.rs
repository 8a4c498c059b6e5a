use logs_analyzer::text::{
    chars_of, contains_chars, is_whitespace_char, replace_first, string_of, trim_str,
};

#[test]
fn whitespace_agrees_with_std() {
    for n in 0u32..=0x10FFFF {
        if let Some(c) = char::from_u32(n) {
            assert_eq!(is_whitespace_char(c), c.is_whitespace(), "U+{n:04X}");
        }
    }
}

#[test]
fn trim_agrees_with_std() {
    for s in ["", "  ", " a b ", "\t\nx\u{3000}", "\u{a0}y\u{85}", "[x]", "  [ x ] "] {
        let t: String = trim_str(s).into_iter().collect();
        assert_eq!(t, s.trim());
    }
}

#[test]
fn contains_agrees_with_std() {
    let cases = [("hello", "ll"), ("hello", ""), ("", ""), ("", "a"), ("abc", "abcd"), ("aab", "ab"), ("ééa", "éa")];
    for (h, p) in cases {
        let hv = chars_of(h);
        let pv = chars_of(p);
        assert_eq!(contains_chars(&hv, &pv), h.contains(p), "{h} / {p}");
    }
}

#[test]
fn replace_first_agrees_with_std() {
    let cases = [("a-b-c", "-", "+"), ("abc", "x", "y"), ("abc", "", "<"), ("aaa", "aa", "b"), ("", "", "z")];
    for (h, p, r) in cases {
        let out = replace_first(&chars_of(h), &chars_of(p), &chars_of(r));
        assert_eq!(string_of(&out), h.replacen(p, r, 1));
    }
}
