use topsongs::discord::{
    apply_match, json_escape, patch, plan_update, profile_vars, unquote, update_vars, BioAction,
    PatchResult,
};
use topsongs::text::{is_valid_span, normalize_pattern, replace_span, strip_match, strip_title};

fn replaced(r: Result<PatchResult, topsongs::discord::InvalidPattern>) -> String {
    match r {
        Ok(PatchResult::Replaced(text)) => text,
        Ok(PatchResult::NoMatch) => panic!("no match"),
        Err(e) => panic!("invalid pattern: {}", e.message),
    }
}

#[test]
fn slashes_around_a_pattern_are_stripped() {
    assert_eq!(
        normalize_pattern("/\\*\\*Top\\*\\*:\\n(.+\\n)+/"),
        "\\*\\*Top\\*\\*:\\n(.+\\n)+"
    );
    assert_eq!(normalize_pattern("/abc/"), "abc");
    assert_eq!(normalize_pattern("//"), "");
    assert_eq!(normalize_pattern("/a/b/"), "a/b");
}

#[test]
fn a_pattern_not_wrapped_in_slashes_is_used_as_it_is() {
    for p in ["abc", "/abc", "abc/", "/", "", " /abc/ ", "a/b"] {
        assert_eq!(normalize_pattern(p), p);
    }
}

#[test]
fn no_match_leaves_nothing_to_update() {
    assert!(matches!(patch("some bio", "xyz+", "block"), Ok(PatchResult::NoMatch)));
    assert!(matches!(patch("", "a", "anything"), Ok(PatchResult::NoMatch)));
    assert!(matches!(patch("some bio", "/q{3}/", ""), Ok(PatchResult::NoMatch)));
}

#[test]
fn the_matched_span_is_replaced_by_the_block_and_a_line_feed() {
    let bio = "intro\n**Top**:\n - a\n - b\noutro";
    let out = replaced(patch(bio, "/\\*\\*Top\\*\\*:\\n(.+\\n)+/", "**Top**:\n - c"));
    assert_eq!(out, "intro\n**Top**:\n - c\noutro");
    let (a, b) = (6, bio.len() - 5);
    assert_eq!(out, format!("{}{}\n{}", &bio[..a], "**Top**:\n - c", &bio[b..]));
}

#[test]
fn only_the_first_match_is_replaced() {
    assert_eq!(replaced(patch("ab ab ab", "ab", "X")), "X\n ab ab");
    assert_eq!(replaced(patch("1 22 333", "[0-9]{2,}", "n")), "1 n\n 333");
}

#[test]
fn the_block_is_taken_literally() {
    assert_eq!(replaced(patch("key=value", "(\\w+)=(\\w+)", "$2=$1 ${x}")), "$2=$1 ${x}\n");
}

#[test]
fn an_empty_match_inserts_the_block() {
    assert_eq!(replaced(patch("abc", "//", "X")), "X\nabc");
    assert_eq!(replaced(patch("abc", "$", "X")), "abcX\n");
}

#[test]
fn text_with_wide_characters_is_cut_at_the_match() {
    let bio = "h\u{00e9}llo \u{1F3B5} [old] \u{4e16}\u{754c}";
    assert_eq!(
        replaced(patch(bio, "\\[.*?\\]", "\u{2605}new")),
        "h\u{00e9}llo \u{1F3B5} \u{2605}new\n \u{4e16}\u{754c}"
    );
}

#[test]
fn a_pattern_that_does_not_compile_is_reported() {
    match patch("bio", "/(unclosed/", "b") {
        Err(e) => assert!(!e.message.is_empty()),
        Ok(_) => panic!("compiled"),
    }
    assert!(patch("bio", "[", "b").is_err());
    assert!(patch("bio", "a{2,1}", "b").is_err());
}

#[test]
fn patching_again_with_a_stable_pattern_changes_nothing() {
    let pattern = "/\\*\\*Top\\*\\*:\\n( - .+\\n)+/";
    let block = "**Top**:\n - x\n - y";
    let once = replaced(patch("a\n**Top**:\n - old\nz", pattern, block));
    let twice = replaced(patch(&once, pattern, block));
    assert_eq!(once, "a\n**Top**:\n - x\n - y\nz");
    assert_eq!(twice, once);
}

#[test]
fn a_given_span_is_replaced() {
    match apply_match("hello world", Some((6, 11)), "there") {
        PatchResult::Replaced(t) => assert_eq!(t, "hello there\n"),
        PatchResult::NoMatch => panic!("no match"),
    }
    assert!(matches!(apply_match("hello", None, "x"), PatchResult::NoMatch));
    assert_eq!(replace_span("abcdef", 2, 4, "-"), "ab-ef");
    assert_eq!(replace_span("abcdef", 0, 6, ""), "");
    assert_eq!(replace_span("a\u{00e9}b", 1, 3, "e"), "aeb");
}

#[test]
fn the_plan_follows_the_outcome_and_the_flags() {
    let new = || PatchResult::Replaced("new".to_string());
    assert!(matches!(plan_update("old", PatchResult::NoMatch, true, true), BioAction::Unmatched));
    match plan_update("old", new(), true, true) {
        BioAction::Preview(t) => assert_eq!(t, "new"),
        other => panic!("unexpected: {:?}", other),
    }
    match plan_update("old", new(), false, true) {
        BioAction::Send(t) => assert_eq!(t, "new"),
        other => panic!("unexpected: {:?}", other),
    }
    assert!(matches!(plan_update("new", new(), false, true), BioAction::UpToDate));
    assert!(matches!(plan_update("old", new(), false, false), BioAction::Leave));
    match plan_update("new", new(), true, false) {
        BioAction::Preview(t) => assert_eq!(t, "new"),
        other => panic!("unexpected: {:?}", other),
    }
}

#[test]
fn featured_artists_are_stripped_from_titles() {
    assert_eq!(strip_title("Song (feat. Someone)", None), "Song");
    assert_eq!(strip_title("Song [ft. A & B]", None), "Song");
    assert_eq!(strip_title("Song - feat. Someone", None), "Song");
    assert_eq!(strip_title("Song (With Friends)", None), "Song");
    assert_eq!(strip_title("  Plain Song  ", None), "Plain Song");
    assert_eq!(strip_title("Withered", None), "Withered");
}

#[test]
fn a_custom_pattern_strips_titles() {
    assert_eq!(strip_title("Song - Remastered 2011", Some("/Remastered \\d+/")), "Song");
    assert_eq!(strip_title("Song (feat. X)", Some("/Song/")), "(feat. X)");
    assert_eq!(strip_title("Song | Live /", Some("Live")), "Song |");
    assert_eq!(strip_title("Song Live |/", Some("Live")), "Song");
}

#[test]
fn a_custom_pattern_that_does_not_compile_gives_way_to_the_built_in_one() {
    assert_eq!(strip_title("Song (feat. X)", Some("/(/")), "Song");
    assert_eq!(strip_title("Song [", Some("[")), "Song [");
}

#[test]
fn what_is_left_of_a_title_is_tidied() {
    assert_eq!(strip_match("Song - ", None), "Song");
    assert_eq!(strip_match(" Song \u{2014}\u{2013}:|/ ", None), "Song");
    assert_eq!(strip_match("Song (x) - ", Some((5, 8))), "Song");
    assert_eq!(strip_match("-", None), "");
    assert_eq!(strip_match("a-b", None), "a-b");
}

#[test]
fn text_is_escaped_for_a_json_string() {
    assert_eq!(json_escape("plain"), "plain");
    assert_eq!(json_escape("a\"b\\c"), "a\\\"b\\\\c");
    assert_eq!(json_escape("l1\nl2\r\tx"), "l1\\nl2\\r\\tx");
    assert_eq!(json_escape("\u{08}\u{0c}\u{01}\u{1f}\u{7f}"), "\\b\\f\\u0001\\u001f\u{7f}");
    assert_eq!(json_escape("\u{00e9}\u{1F3B5}/"), "\u{00e9}\u{1F3B5}/");
    assert_eq!(json_escape(""), "");
}

#[test]
fn a_json_string_loses_its_quotation_marks() {
    assert_eq!(unquote(Some("\"abc\"".to_string()), "f"), "abc");
    assert_eq!(unquote(Some("\"\"".to_string()), "f"), "");
    assert_eq!(unquote(Some("x".to_string()), "f"), "f");
    assert_eq!(unquote(None, "f"), "f");
}

#[test]
fn the_profile_requests_get_their_variables() {
    assert_eq!(profile_vars("tok"), vec![("DISCORD_TOKEN", "tok".to_string())]);
    assert_eq!(
        update_vars("tok", "line\n\"q\""),
        vec![("DISCORD_TOKEN", "tok".to_string()), ("NEW_BIO", "line\\n\\\"q\\\"".to_string())]
    );
}

#[test]
fn spans_are_checked_against_the_text() {
    assert!(is_valid_span("hello", 0, 5));
    assert!(is_valid_span("hello", 2, 2));
    assert!(is_valid_span("", 0, 0));
    assert!(!is_valid_span("hello", 3, 2));
    assert!(!is_valid_span("hello", 0, 6));
    assert!(is_valid_span("a\u{00e9}b", 1, 3));
    assert!(!is_valid_span("a\u{00e9}b", 1, 2));
    assert!(!is_valid_span("a\u{00e9}b", 2, 4));
}

#[test]
fn replacing_the_block_that_was_put_in_changes_nothing() {
    let once = replace_span("ab\u{00e9}cd", 1, 4, "\u{4e16}x");
    assert_eq!(once, "a\u{4e16}xcd");
    assert_eq!(replace_span(&once, 1, 1 + "\u{4e16}x".len(), "\u{4e16}x"), once);
}
