use topsongs::chars::parse_u32;
use topsongs::diagnostics::{byte_range_to_line_col, diagnostic_lines};
use topsongs::http_template::parse_http_spec;
use topsongs::lastfm::{list_line, list_lines, offer_line, offer_lines, take_count, Artist, Track};
use topsongs::render::{compose, render_entry};
use topsongs::templates::{
    template_targets, PROFILE_TEMPLATE, TOP_TRACKS_TEMPLATE, UPDATE_TEMPLATE,
};

fn track(name: &str, plays: &str, artist: &str) -> Track {
    Track {
        name: name.to_string(),
        playcount: plays.to_string(),
        artist: Artist { name: artist.to_string() },
    }
}

fn chars(s: &str) -> Vec<char> {
    s.chars().collect()
}

#[test]
fn numbers_are_read_as_the_standard_library_reads_them() {
    for s in [
        "0", "7", "42", "+5", "007", "4294967295", "4294967296", "99999999999999999999", "", "+",
        "-1", "1 ", " 1", "1a", "++1", "0000000000000000000000001", "\u{0661}",
    ] {
        assert_eq!(parse_u32(&chars(s)), s.parse::<u32>().ok(), "{:?}", s);
    }
}

#[test]
fn play_counts_that_are_no_numbers_count_as_zero() {
    assert_eq!(track("a", "12", "b").play_count(), 12);
    assert_eq!(track("a", "", "b").play_count(), 0);
    assert_eq!(track("a", "many", "b").play_count(), 0);
    assert_eq!(track("a", "99999999999", "b").play_count(), 0);
}

#[test]
fn tracks_are_listed_with_their_numbers() {
    let t = track("Song", "5", "Band");
    assert_eq!(list_line(1, &t), " 1. Band \u{2014} Song (5 plays)");
    assert_eq!(list_line(10, &t), "10. Band \u{2014} Song (5 plays)");
    assert_eq!(list_line(123, &t), "123. Band \u{2014} Song (5 plays)");
    assert_eq!(offer_line(1, &t), "01) Band \u{2014} Song (5 plays)");
    assert_eq!(offer_line(12, &t), "12) Band \u{2014} Song (5 plays)");
    assert_eq!(offer_line(100, &track("S", "x", "B")), "100) B \u{2014} S (0 plays)");
}

#[test]
fn lists_are_numbered_from_one() {
    let tracks = vec![track("a", "1", "x"), track("b", "2", "y")];
    assert_eq!(
        list_lines(&tracks),
        vec![" 1. x \u{2014} a (1 plays)", " 2. y \u{2014} b (2 plays)"]
    );
    assert_eq!(
        offer_lines(&tracks),
        vec!["01) x \u{2014} a (1 plays)", "02) y \u{2014} b (2 plays)"]
    );
    assert!(list_lines(&[]).is_empty());
}

#[test]
fn at_least_one_track_and_no_more_than_there_are_is_taken() {
    assert_eq!(take_count(0, 5), 1);
    assert_eq!(take_count(3, 5), 3);
    assert_eq!(take_count(5, 5), 5);
    assert_eq!(take_count(9, 5), 5);
    assert_eq!(take_count(0, 0), 0);
    assert_eq!(take_count(usize::MAX, 2), 2);
}

#[test]
fn entries_are_rendered_with_cleaned_titles_where_asked() {
    let t = track("Song (feat. X)", "3", "Band");
    assert_eq!(render_entry(&t, "{artist} - {track}", false, None), "Band - Song (feat. X)");
    assert_eq!(render_entry(&t, "{artist} - {track}", true, None), "Band - Song");
    assert_eq!(render_entry(&t, "{track}|{playcount}", true, Some("/\\(.*/")), "Song|3");
    assert_eq!(render_entry(&t, "{track}", false, Some("/Song/")), "Song (feat. X)");
}

#[test]
fn the_bio_line_joins_entries_between_prefix_and_suffix() {
    let entries = vec!["a".to_string(), "b".to_string(), "c".to_string()];
    assert_eq!(compose(&entries, "\\n", "**Top**:\\n", ""), "**Top**:\na\nb\nc");
    assert_eq!(compose(&entries, "\n", "", ""), "a\nb\nc");
    assert_eq!(compose(&entries, " | ", "[", "]\\t"), "[a | b | c]\t");
    assert_eq!(compose(&entries[..1], ", ", "<", ">"), "<a>");
    assert_eq!(compose(&[], ", ", "<", ">"), "<>");
}

#[test]
fn the_word_all_asks_for_every_template() {
    for word in ["ALL", "all", "All", "aLL"] {
        let files = template_targets(word).unwrap();
        assert_eq!(
            files.iter().map(|f| f.0).collect::<Vec<_>>(),
            vec!["lastfm_top_tracks.http", "discord_get_me.http", "discord_patch_bio.http"]
        );
    }
}

#[test]
fn a_template_is_asked_for_by_its_name() {
    for (word, name, content) in [
        ("lastfm_top_tracks", "lastfm_top_tracks.http", TOP_TRACKS_TEMPLATE),
        ("lastfm_top_tracks.http", "lastfm_top_tracks.http", TOP_TRACKS_TEMPLATE),
        ("discord_get_me", "discord_get_me.http", PROFILE_TEMPLATE),
        ("discord_get_me.http", "discord_get_me.http", PROFILE_TEMPLATE),
        ("discord_patch_bio", "discord_patch_bio.http", UPDATE_TEMPLATE),
        ("discord_patch_bio.http", "discord_patch_bio.http", UPDATE_TEMPLATE),
    ] {
        assert_eq!(template_targets(word), Some(vec![(name, content)]));
    }
    assert_eq!(template_targets("other"), None);
    assert_eq!(template_targets(""), None);
    assert_eq!(template_targets("Discord_get_me"), None);
}

#[test]
fn the_templates_are_request_descriptions() {
    let top = parse_http_spec(TOP_TRACKS_TEMPLATE).unwrap();
    assert_eq!(top.method, "GET");
    assert!(top.url.contains("user={{USERNAME}}&period={{PERIOD}}&api_key={{API_KEY}}"));
    assert!(top.url.ends_with("&limit={{LIMIT}}"));
    assert!(top.headers.is_empty());
    assert_eq!(top.body, None);
    let me = parse_http_spec(PROFILE_TEMPLATE).unwrap();
    assert_eq!(me.url, "https://discord.com/api/v10/users/@me");
    assert_eq!(me.headers, vec![("Authorization".to_string(), "{{DISCORD_TOKEN}}".to_string())]);
    let patch = parse_http_spec(UPDATE_TEMPLATE).unwrap();
    assert_eq!(patch.method, "PATCH");
    assert_eq!(patch.headers.len(), 2);
    assert_eq!(patch.body, Some("{\n  \"bio\": \"{{NEW_BIO}}\"\n}".to_string()));
}

#[test]
fn an_offset_is_found_in_its_line() {
    let src = "ab\ncd\r\nef";
    assert_eq!(byte_range_to_line_col(src, 0), (1, 1, "ab".to_string()));
    assert_eq!(byte_range_to_line_col(src, 1), (1, 2, "ab".to_string()));
    assert_eq!(byte_range_to_line_col(src, 2), (1, 3, "ab".to_string()));
    assert_eq!(byte_range_to_line_col(src, 3), (2, 1, "cd".to_string()));
    assert_eq!(byte_range_to_line_col(src, 5), (2, 3, "cd".to_string()));
    assert_eq!(byte_range_to_line_col(src, 6), (3, 1, "".to_string()));
    assert_eq!(byte_range_to_line_col(src, 7), (4, 1, "ef".to_string()));
    assert_eq!(byte_range_to_line_col(src, 8), (4, 2, "ef".to_string()));
}

#[test]
fn an_offset_after_the_end_lies_after_the_last_line() {
    assert_eq!(byte_range_to_line_col("ab\ncd\r\nef", 9), (3, 3, "ef".to_string()));
    assert_eq!(byte_range_to_line_col("ab\ncd\r\nef", 100), (3, 3, "ef".to_string()));
    assert_eq!(byte_range_to_line_col("ab\n", 3), (1, 3, "ab".to_string()));
    assert_eq!(byte_range_to_line_col("", 0), (1, 1, "".to_string()));
    assert_eq!(byte_range_to_line_col("\n\n", 5), (2, 1, "".to_string()));
}

#[test]
fn columns_count_bytes_of_wide_characters() {
    let src = "h\u{00e9}llo\n\u{4e16}\u{754c}x";
    assert_eq!(byte_range_to_line_col(src, 3), (1, 4, "h\u{00e9}llo".to_string()));
    assert_eq!(byte_range_to_line_col(src, 13), (2, 7, "\u{4e16}\u{754c}x".to_string()));
    assert_eq!(byte_range_to_line_col(src, 8), (2, 2, "\u{4e16}\u{754c}x".to_string()));
    assert_eq!(byte_range_to_line_col(src, 99), (2, 8, "\u{4e16}\u{754c}x".to_string()));
}

#[test]
fn a_fault_is_reported_with_a_caret_under_its_column() {
    let src = "topsongs {\n\tlimit ten\n}\n";
    assert_eq!(
        diagnostic_lines(src, 18, Some("expected a number"), Some("here"), Some("write 10")),
        vec![
            "  - expected a number",
            "      at line 2, col 8",
            "         limit ten",
            "               ^",
            "        note: here",
            "    help: write 10",
        ]
    );
    assert_eq!(
        diagnostic_lines("x", 0, None, None, None),
        vec!["  - KDL parse error", "      at line 1, col 1", "        x", "        ^"]
    );
    assert_eq!(diagnostic_lines("x", 0, None, None, Some("h")).len(), 5);
    assert_eq!(diagnostic_lines("x", 0, None, Some("l"), None)[4], "        note: l");
}
