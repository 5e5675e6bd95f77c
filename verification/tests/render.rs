use topsongs::cli::Period;
use topsongs::lastfm::{is_error_payload, top_tracks_vars, Artist, Track};
use topsongs::render::{interpret_escapes, render_template};

fn track(name: &str, plays: &str, artist: &str) -> Track {
    Track {
        name: name.to_string(),
        playcount: plays.to_string(),
        artist: Artist { name: artist.to_string() },
    }
}

#[test]
fn a_track_is_rendered_with_the_format() {
    let t = track("Song", "42", "Band");
    assert_eq!(render_template("  - {artist} - {track}", &t), "  - Band - Song");
    assert_eq!(render_template("{track} ({playcount}) {track}", &t), "Song (42) Song");
    assert_eq!(render_template("nothing", &t), "nothing");
    assert_eq!(render_template("{Artist} {other}", &t), "{Artist} {other}");
}

#[test]
fn tokens_are_replaced_one_after_the_other() {
    let t = track("T", "7", "{track}{playcount}");
    assert_eq!(render_template("{artist}", &t), "T7");
}

#[test]
fn escapes_are_read() {
    assert_eq!(interpret_escapes("a\\nb"), "a\nb");
    assert_eq!(interpret_escapes("\\r\\t\\0"), "\r\t\0");
    assert_eq!(interpret_escapes("\\\\n"), "\\n");
    assert_eq!(interpret_escapes("\\\"\\'"), "\"'");
    assert_eq!(interpret_escapes("plain \u{00e9}"), "plain \u{00e9}");
    assert_eq!(interpret_escapes(""), "");
}

#[test]
fn unknown_escapes_and_a_last_backslash_stay() {
    assert_eq!(interpret_escapes("\\x41"), "\\x41");
    assert_eq!(interpret_escapes("\\\u{00e9}"), "\\\u{00e9}");
    assert_eq!(interpret_escapes("end\\"), "end\\");
    assert_eq!(interpret_escapes("\\"), "\\");
    assert_eq!(interpret_escapes("\\\\\\"), "\\\\");
}

#[test]
fn periods_have_the_words_of_the_service() {
    assert_eq!(Period::Overall.as_api_value(), "overall");
    assert_eq!(Period::SevenDay.as_api_value(), "7day");
    assert_eq!(Period::OneMonth.as_api_value(), "1month");
    assert_eq!(Period::ThreeMonth.as_api_value(), "3month");
    assert_eq!(Period::SixMonth.as_api_value(), "6month");
    assert_eq!(Period::TwelveMonth.as_api_value(), "12month");
}

#[test]
fn the_top_tracks_request_gets_its_variables() {
    assert_eq!(
        top_tracks_vars("bob", "key", "7day", 10),
        vec![
            ("USERNAME", "bob".to_string()),
            ("API_KEY", "key".to_string()),
            ("PERIOD", "7day".to_string()),
            ("LIMIT", "10".to_string()),
        ]
    );
    assert_eq!(top_tracks_vars("", "", "", 0)[3].1, "0");
    assert_eq!(top_tracks_vars("", "", "", u32::MAX)[3].1, "4294967295");
    assert_eq!(top_tracks_vars("", "", "", 907)[3].1, "907");
}

#[test]
fn an_answer_with_an_error_field_reports_an_error() {
    assert!(is_error_payload("{\"error\":6,\"message\":\"User not found\"}"));
    assert!(!is_error_payload("{\"toptracks\":{\"track\":[]}}"));
    assert!(!is_error_payload("error"));
    assert!(!is_error_payload(""));
}
