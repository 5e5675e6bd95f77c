use topsongs::chars::{
    find, from_chars, is_whitespace, replace_all, to_ascii_lower, to_chars, trim, trim_end,
    trim_start,
};
use topsongs::lines::{join, split_lines};

fn chars(s: &str) -> Vec<char> {
    s.chars().collect()
}

fn text(v: &[char]) -> String {
    v.iter().collect()
}

#[test]
fn white_space_is_what_the_standard_library_calls_white_space() {
    for u in 0u32..=0x10FFFF {
        if let Some(c) = char::from_u32(u) {
            assert_eq!(is_whitespace(c), c.is_whitespace(), "U+{:04X}", u);
        }
    }
}

#[test]
fn lower_case_is_what_the_standard_library_gives_for_ascii() {
    for u in 0u32..=0x2FF {
        if let Some(c) = char::from_u32(u) {
            assert_eq!(to_ascii_lower(c), c.to_ascii_lowercase());
        }
    }
}

#[test]
fn strings_and_characters_convert_both_ways() {
    for s in ["", "abc", "h\u{00e9}llo \u{1F3B5}\n"] {
        assert_eq!(to_chars(s), chars(s));
        assert_eq!(from_chars(&chars(s)), s);
    }
}

#[test]
fn trimming_agrees_with_the_standard_library() {
    for s in ["", "   ", "a", "  a b \t\n", "\u{00a0}x\u{3000}", "x  ", "  x", "\r\n"] {
        assert_eq!(text(trim(&chars(s))), s.trim());
        assert_eq!(text(trim_start(&chars(s))), s.trim_start());
        assert_eq!(text(trim_end(&chars(s))), s.trim_end());
    }
}

#[test]
fn lines_agree_with_the_standard_library() {
    for s in [
        "", "a", "a\n", "a\nb", "a\n\nb\n", "\n", "\n\n", "a\r\nb\r\n", "a\r", "a\r\r\nb", "\r\n",
        "x\ny\r",
    ] {
        let got: Vec<String> = split_lines(&chars(s)).iter().map(|l| text(l)).collect();
        let want: Vec<String> = s.lines().map(|l| l.to_string()).collect();
        assert_eq!(got, want, "{:?}", s);
    }
}

#[test]
fn joining_puts_the_separator_between_lines() {
    let lines = vec![chars("a"), chars(""), chars("bc")];
    assert_eq!(text(&join(&lines, &chars(", "))), "a, , bc");
    assert_eq!(text(&join(&lines[..1], &chars(", "))), "a");
    assert_eq!(text(&join(&lines[..0], &chars(", "))), "");
}

#[test]
fn replacing_agrees_with_the_standard_library() {
    for (s, p, w) in [
        ("aaa", "aa", "b"),
        ("a\r\nb\r\n", "\r\n", "\n"),
        ("{x}{x}", "{x}", "{x}{x}"),
        ("abc", "d", "e"),
        ("", "a", "b"),
        ("abab", "ab", ""),
    ] {
        assert_eq!(text(&replace_all(&chars(s), &chars(p), &chars(w))), s.replace(p, w));
    }
}

#[test]
fn finding_agrees_with_the_standard_library_on_ascii() {
    for (s, p) in [("hello", "l"), ("hello", "lo"), ("hello", "x"), ("", "a"), ("aab", "ab"), ("a", "")] {
        assert_eq!(find(&chars(s), &chars(p)), s.find(p));
    }
}
