use topsongs::discord::{json_escape, patch, PatchResult};
use topsongs::http_template::{substitute_vars, HttpSpec};
use topsongs::net::prepare;
use topsongs::text::strip_title;
use topsongs::vars::VarMap;

struct Lcg(u64);

impl Lcg {
    fn next(&mut self, bound: usize) -> usize {
        self.0 = self.0.wrapping_mul(6364136223846793005).wrapping_add(1442695040888963407);
        ((self.0 >> 33) as usize) % bound
    }

    fn text(&mut self, alphabet: &[char], max: usize) -> String {
        let n = self.next(max + 1);
        (0..n).map(|_| alphabet[self.next(alphabet.len())]).collect()
    }
}

fn expected_json_escape(c: char) -> String {
    match c {
        '"' => "\\\"".to_string(),
        '\\' => "\\\\".to_string(),
        '\u{08}' => "\\b".to_string(),
        '\t' => "\\t".to_string(),
        '\n' => "\\n".to_string(),
        '\u{0c}' => "\\f".to_string(),
        '\r' => "\\r".to_string(),
        c if (c as u32) < 0x20 => format!("\\u{:04x}", c as u32),
        c => c.to_string(),
    }
}

#[test]
fn every_character_is_escaped_as_stated() {
    for u in (0u32..0x3000).chain([0xFEFF, 0xFFFD, 0x1F3B5, 0x10FFFF]) {
        if let Some(c) = char::from_u32(u) {
            assert_eq!(json_escape(&c.to_string()), expected_json_escape(c), "U+{:04X}", u);
        }
    }
    let text = "a\"\u{01}\\\n\u{00e9}z";
    let want: String = text.chars().map(expected_json_escape).collect();
    assert_eq!(json_escape(text), want);
}

fn is_method_char(c: char) -> bool {
    c.is_ascii_alphanumeric() || "!#$%&'*+-.^_`|~".contains(c)
}

fn accepted(method: &str) -> bool {
    let spec = HttpSpec {
        method: method.to_string(),
        url: "http://x".to_string(),
        headers: Vec::new(),
        body: None,
    };
    prepare(&spec, false).is_ok()
}

#[test]
fn every_character_is_taken_or_refused_in_a_method_as_stated() {
    for u in 0u32..0x600 {
        if let Some(c) = char::from_u32(u) {
            assert_eq!(accepted(&c.to_string()), is_method_char(c), "U+{:04X}", u);
            assert_eq!(accepted(&format!("GET{}", c)), is_method_char(c), "U+{:04X}", u);
            assert_eq!(accepted(&format!("{}LONGERTHANFIFTEENBYTES", c)), is_method_char(c));
        }
    }
    assert!(!accepted(""));
}

#[test]
fn substitution_agrees_with_the_placeholder_expression() {
    let re = regex::Regex::new(r"\{\{([A-Za-z0-9_]+)\}\}").unwrap();
    let mut vars = VarMap::new();
    vars.insert_if_absent("A", "1");
    vars.insert_if_absent("A_1", "{{A}}");
    vars.insert_if_absent("_", "");
    let lookup = |key: &str| match key {
        "A" => Some("1"),
        "A_1" => Some("{{A}}"),
        "_" => Some(""),
        _ => None,
    };
    let alphabet = ['{', '}', 'A', '_', '1', 'b', ' ', '-', '\u{00e9}'];
    let mut rng = Lcg(42);
    for _ in 0..20000 {
        let text = rng.text(&alphabet, 14);
        let want = re
            .replace_all(&text, |caps: &regex::Captures| match lookup(&caps[1]) {
                Some(v) => v.to_string(),
                None => caps[0].to_string(),
            })
            .to_string();
        assert_eq!(substitute_vars(&text, &vars), want, "{:?}", text);
    }
}

#[test]
fn patching_agrees_with_the_first_match_of_the_expression() {
    let patterns = ["a+", "b|ab", "", "$", "^", "\\s+", "[{}]+", "a*?b", "(a)(b)?", "\u{00e9}"];
    let alphabet = ['a', 'b', ' ', '{', '}', '\n', '\u{00e9}', '\u{4e16}'];
    let mut rng = Lcg(7);
    for _ in 0..3000 {
        let text = rng.text(&alphabet, 10);
        let pattern = patterns[rng.next(patterns.len())];
        let re = regex::Regex::new(pattern).unwrap();
        let want = re.find(&text).map(|m| format!("{}<$0>\n{}", &text[..m.start()], &text[m.end()..]));
        let got = match patch(&text, pattern, "<$0>") {
            Ok(PatchResult::Replaced(t)) => Some(t),
            Ok(PatchResult::NoMatch) => None,
            Err(e) => panic!("{}", e.message),
        };
        assert_eq!(got, want, "{:?} {:?}", pattern, text);
    }
}

#[test]
fn stripping_agrees_with_removing_the_first_match() {
    let re = regex::Regex::new("x+").unwrap();
    for title in ["axxb - ", "xx", "no match", " x a x ", "a /x"] {
        let removed = re.replace(title, "").to_string();
        let want = removed.trim().trim_end_matches(['-', ':', '\u{2013}', '\u{2014}', '|', '/']).trim();
        assert_eq!(strip_title(title, Some("/x+/")), want, "{:?}", title);
    }
}
